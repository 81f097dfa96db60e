//! What organizers do with the players and the competitions of their tenant.
use crate::billing::{billing_report_by_competition, is_report, shown_report, tenant_reports};
use crate::cache::{looked_up, Remembered};
use crate::error::{internal, refusal, DbFailure, Failure, StatusCode};
use crate::list::{prefix_pick_grows, pushed_pick_grows};
use crate::model::{
    competition_detail, player_detail, BillingReport, CompetitionDetail, CompetitionRow,
    PlayerDetail, PlayerRow, VisitHistorySummaryRow,
};
use crate::question::{
    fails, Answer, ClockNext, CompetitionNext, CompetitionsNext, DisqualifyPlayer,
    FindCompetition, FindPlayer, FinishCompetition, InsertCompetition, InsertPlayers, InsertReport,
    ListCompetitions, ListPlayers, ListReports, ListScored, ListVisits, NewPlayer, OrganizerTask,
    PlayerNext, ReadClock, ReportGoal, Service, Step,
};
use crate::setup::{next_report, reporting};
use crate::text::same_text;
use crate::upload::{open_upload, upload_open};
use vstd::prelude::*;

verus! {

/// Whether a form field holds the name of a player to add.
pub open spec fn is_display_name(field: (String, String)) -> bool {
    field.0@ == "display_name[]"@
}

/// The names in a form, in their order.
pub open spec fn display_names(form: Seq<(String, String)>) -> Seq<String> {
    form.filter(|field: (String, String)| is_display_name(field)).map_values(
        |field: (String, String)| field.1,
    )
}

/// The names in a form.
pub fn names_in(form: Vec<(String, String)>) -> (r: Vec<String>)
    ensures
        r@ == display_names(form@),
{
    let ghost keep = |field: (String, String)| is_display_name(field);
    let ghost pick = |field: (String, String)| field.1;
    let mut r: Vec<String> = Vec::new();
    let mut i: usize = 0;
    proof {
        reveal(Seq::filter);
        assert(display_names(form@.take(0)) =~= Seq::empty());
    }
    while i < form.len()
        invariant
            i <= form.len(),
            keep == (|field: (String, String)| is_display_name(field)),
            pick == (|field: (String, String)| field.1),
            r@ == form@.take(i as int).filter(keep).map_values(pick),
        decreases form.len() - i,
    {
        proof {
            prefix_pick_grows(form@, keep, pick, i as int);
        }
        if same_text(form[i].0.as_str(), "display_name[]") {
            r.push(form[i].1.clone());
        }
        i += 1;
    }
    assert(form@.take(i as int) =~= form@);
    r
}

/// What follows while some names are left to be added: for each of them the clock is read, and
/// then the players are inserted together.
pub open spec fn adding(
    tenant_id: i64,
    waiting: Seq<String>,
    items: Seq<NewPlayer>,
    r: Step,
) -> bool {
    if waiting.len() == 0 {
        r matches Step::InsertPlayers(q) && q.tenant_id == tenant_id && q.items@ == items
    } else {
        r matches Step::ReadClock(q) && (q.next matches ClockNext::PlayersAdd {
            tenant_id: t,
            name,
            waiting: rest,
            items: done,
        } && t == tenant_id && name == waiting[0] && rest@ == waiting.skip(1) && done@ == items)
    }
}

/// Goes on to the next name.
pub fn next_name(tenant_id: i64, waiting: Vec<String>, items: Vec<NewPlayer>) -> (r: Step)
    ensures
        adding(tenant_id, waiting@, items@, r),
{
    let mut waiting = waiting;
    if waiting.len() == 0 {
        return Step::InsertPlayers(InsertPlayers { tenant_id, items });
    }
    let ghost whole = waiting@;
    let name = waiting.remove(0);
    assert(waiting@ =~= whole.skip(1));
    Step::ReadClock(
        ReadClock { next: ClockNext::PlayersAdd { tenant_id, name, waiting, items } },
    )
}

/// What is shown of a player that has just been added.
pub open spec fn new_player_detail(p: NewPlayer) -> PlayerDetail {
    PlayerDetail { id: p.id, display_name: p.name, is_disqualified: false }
}

impl InsertPlayers {
    /// Takes whether the players were inserted.
    pub fn resume(self, reply: Result<(), DbFailure>) -> (r: Step)
        ensures
            match reply {
                Err(f) => fails(r, Failure::Sqlx(f.text@)),
                Ok(()) => r matches Step::Finish(Ok(Answer::Players(players))) && players@
                    == self.items@.map_values(|p: NewPlayer| new_player_detail(p)),
            },
    {
        match reply {
            Err(f) => Step::Finish(Err(f.into_error())),
            Ok(()) => {
                let items = self.items;
                let mut players: Vec<PlayerDetail> = Vec::new();
                let mut i: usize = 0;
                while i < items.len()
                    invariant
                        i <= items.len(),
                        players@.len() == i,
                        forall|j: int|
                            0 <= j < i ==> #[trigger] players@[j] == new_player_detail(items@[j]),
                    decreases items.len() - i,
                {
                    players.push(
                        PlayerDetail {
                            id: items[i].id.clone(),
                            display_name: items[i].name.clone(),
                            is_disqualified: false,
                        },
                    );
                    i += 1;
                }
                assert(players@ =~= items@.map_values(|p: NewPlayer| new_player_detail(p)));
                Step::Finish(Ok(Answer::Players(players)))
            },
        }
    }
}

impl ListPlayers {
    /// Takes the players of the tenant, or the failure of the database.
    pub fn resume(self, reply: Result<Vec<PlayerRow>, DbFailure>) -> (r: Step)
        ensures
            match reply {
                Err(f) => fails(r, Failure::Sqlx(f.text@)),
                Ok(rows) => r matches Step::Finish(Ok(Answer::Players(players))) && players@
                    == rows@.map_values(|p: PlayerRow| player_detail(p)),
            },
    {
        match reply {
            Err(f) => Step::Finish(Err(f.into_error())),
            Ok(rows) => {
                let mut players: Vec<PlayerDetail> = Vec::new();
                let mut i: usize = 0;
                while i < rows.len()
                    invariant
                        i <= rows.len(),
                        players@.len() == i,
                        forall|j: int|
                            0 <= j < i ==> #[trigger] players@[j] == player_detail(rows@[j]),
                    decreases rows.len() - i,
                {
                    players.push(rows[i].clone().detail());
                    i += 1;
                }
                assert(players@ =~= rows@.map_values(|p: PlayerRow| player_detail(p)));
                Step::Finish(Ok(Answer::Players(players)))
            },
        }
    }
}

impl DisqualifyPlayer {
    /// Takes whether the player was marked. What was remembered of them is forgotten, and they are
    /// looked up again.
    pub fn resume(self, svc: &mut Service, reply: Result<(), DbFailure>) -> (r: Step)
        ensures
            final(svc).rnd == old(svc).rnd,
            match reply {
                Err(f) => final(svc).caches@ == old(svc).caches@ && fails(
                    r,
                    Failure::Sqlx(f.text@),
                ),
                Ok(()) => final(svc).caches@ == (Remembered {
                    players: old(svc).caches@.players.remove(self.player_id@),
                    ..old(svc).caches@
                }) && r == Step::FindPlayer(
                    FindPlayer { id: self.player_id, next: PlayerNext::Disqualified },
                ),
            },
    {
        match reply {
            Err(f) => Step::Finish(Err(f.into_error())),
            Ok(()) => {
                svc.caches.forget_player(self.player_id.as_str());
                Step::FindPlayer(FindPlayer { id: self.player_id, next: PlayerNext::Disqualified })
            },
        }
    }
}

/// What an organizer is answered who disqualified a player.
pub open spec fn disqualified(player: Option<PlayerRow>, r: Step) -> bool {
    match player {
        None => fails(r, Failure::Custom(StatusCode::NotFound, "player not found"@)),
        Some(p) => r == Step::Finish(Ok(Answer::PlayerDisqualified(player_detail(p)))),
    }
}

/// Answers an organizer who disqualified a player.
pub fn show_disqualified(player: Option<PlayerRow>) -> (r: Step)
    ensures
        disqualified(player, r),
{
    match player {
        None => Step::Finish(Err(refusal(StatusCode::NotFound, "player not found"))),
        Some(p) => Step::Finish(Ok(Answer::PlayerDisqualified(p.detail()))),
    }
}

impl InsertCompetition {
    /// Takes whether the competition was inserted.
    pub fn resume(self, reply: Result<(), DbFailure>) -> (r: Step)
        ensures
            match reply {
                Err(f) => fails(r, Failure::Sqlx(f.text@)),
                Ok(()) => r == Step::Finish(
                    Ok(
                        Answer::CompetitionsAdd(
                            CompetitionDetail {
                                id: self.id,
                                title: self.title,
                                is_finished: false,
                            },
                        ),
                    ),
                ),
            },
    {
        match reply {
            Err(f) => Step::Finish(Err(f.into_error())),
            Ok(()) => Step::Finish(
                Ok(
                    Answer::CompetitionsAdd(
                        CompetitionDetail { id: self.id, title: self.title, is_finished: false },
                    ),
                ),
            ),
        }
    }
}

/// What an organizer goes on to who finishes a competition that was looked up.
pub open spec fn finishing(
    tenant_id: i64,
    id: String,
    comp: Option<CompetitionRow>,
    r: Step,
) -> bool {
    match comp {
        None => fails(r, Failure::Custom(StatusCode::NotFound, "competition not found"@)),
        Some(_) => r == Step::ReadClock(ReadClock { next: ClockNext::Finish { tenant_id, id } }),
    }
}

/// Goes on to finish a competition that was looked up.
pub fn finish(tenant_id: i64, id: String, comp: Option<CompetitionRow>) -> (r: Step)
    ensures
        finishing(tenant_id, id, comp, r),
{
    match comp {
        None => Step::Finish(Err(refusal(StatusCode::NotFound, "competition not found"))),
        Some(_) => Step::ReadClock(ReadClock { next: ClockNext::Finish { tenant_id, id } }),
    }
}

/// What becomes of the caches and of a request once a competition was to be marked as finished:
/// where it was marked, what was remembered of it is forgotten, and it is looked up again for its
/// billing report.
pub open spec fn marked(
    q: FinishCompetition,
    before: Remembered,
    reply: Result<(), DbFailure>,
    after: Remembered,
    r: Step,
) -> bool {
    match reply {
        Err(f) => after == before && fails(r, Failure::Sqlx(f.text@)),
        Ok(()) => after == (Remembered {
            competitions: before.competitions.remove((q.tenant_id, q.id@)),
            ..before
        }) && r == Step::FindCompetition(
            FindCompetition {
                tenant_id: q.tenant_id,
                id: q.id,
                next: CompetitionNext::Report(ReportGoal::Finish),
            },
        ),
    }
}

impl FinishCompetition {
    /// Takes whether the competition was marked.
    pub fn resume(self, svc: &mut Service, reply: Result<(), DbFailure>) -> (r: Step)
        ensures
            final(svc).rnd == old(svc).rnd,
            marked(self, old(svc).caches@, reply, final(svc).caches@, r),
    {
        match reply {
            Err(f) => Step::Finish(Err(f.into_error())),
            Ok(()) => {
                svc.caches.forget_competition(self.tenant_id, self.id.as_str());
                Step::FindCompetition(
                    FindCompetition {
                        tenant_id: self.tenant_id,
                        id: self.id,
                        next: CompetitionNext::Report(ReportGoal::Finish),
                    },
                )
            },
        }
    }
}

/// What the billing report on a competition that was looked up starts with.
pub open spec fn report_open(
    tenant_id: i64,
    comp: Option<CompetitionRow>,
    goal: ReportGoal,
    r: Step,
) -> bool {
    match comp {
        None => fails(r, Failure::Internal("error retrieve_competition"@)),
        Some(competition) => r == Step::ListVisits(ListVisits { tenant_id, competition, goal }),
    }
}

/// Starts the billing report on a competition that was looked up.
pub fn open_report(tenant_id: i64, comp: Option<CompetitionRow>, goal: ReportGoal) -> (r: Step)
    ensures
        report_open(tenant_id, comp, goal, r),
{
    match comp {
        None => Step::Finish(Err(internal("error retrieve_competition"))),
        Some(competition) => Step::ListVisits(ListVisits { tenant_id, competition, goal }),
    }
}

impl ListVisits {
    /// Takes when each player first visited, or the failure of the database.
    pub fn resume(self, reply: Result<Vec<VisitHistorySummaryRow>, DbFailure>) -> (r: Step)
        ensures
            match reply {
                Err(f) => fails(r, Failure::Sqlx(f.text@)),
                Ok(visits) => r == Step::ListScored(
                    ListScored {
                        tenant_id: self.tenant_id,
                        competition: self.competition,
                        visits,
                        goal: self.goal,
                    },
                ),
            },
    {
        match reply {
            Err(f) => Step::Finish(Err(f.into_error())),
            Ok(visits) => Step::ListScored(
                ListScored {
                    tenant_id: self.tenant_id,
                    competition: self.competition,
                    visits,
                    goal: self.goal,
                },
            ),
        }
    }
}

impl ListScored {
    /// Takes the ids of the players with a score, or the failure of the database.
    pub fn resume(self, reply: Result<Vec<String>, DbFailure>) -> (r: Step)
        requires
            reply matches Ok(scored) ==> 100 * scored.len() + 10 * self.visits.len() <= i64::MAX,
        ensures
            match reply {
                Err(f) => fails(r, Failure::Sqlx(f.text@)),
                Ok(scored) => r matches Step::InsertReport(q) && is_report(
                    q.report,
                    self.tenant_id,
                    self.competition,
                    self.visits@,
                    scored@,
                ) && q.goal == self.goal,
            },
    {
        match reply {
            Err(f) => Step::Finish(Err(f.into_error())),
            Ok(scored) => {
                let report = billing_report_by_competition(
                    self.tenant_id,
                    self.competition,
                    &self.visits,
                    &scored,
                );
                Step::InsertReport(InsertReport { report, goal: self.goal })
            },
        }
    }
}

/// What becomes of a request once a billing report was to be inserted.
pub open spec fn report_inserted(
    q: InsertReport,
    m: Remembered,
    reply: Result<(), DbFailure>,
    r: Step,
) -> bool {
    match reply {
        Err(f) => fails(r, Failure::Sqlx(f.text@)),
        Ok(()) => match q.goal {
            ReportGoal::Finish => r == Step::Finish(Ok(Answer::CompetitionFinish)),
            ReportGoal::Setup(s) => reporting(m, s.tenant_id, s.waiting@, r),
        },
    }
}

impl InsertReport {
    /// Takes whether the report was inserted.
    pub fn resume(self, svc: &Service, reply: Result<(), DbFailure>) -> (r: Step)
        ensures
            report_inserted(self, svc.caches@, reply, r),
    {
        match reply {
            Err(f) => Step::Finish(Err(f.into_error())),
            Ok(()) => match self.goal {
                ReportGoal::Finish => Step::Finish(Ok(Answer::CompetitionFinish)),
                ReportGoal::Setup(s) => next_report(svc, s.tenant_id, s.waiting),
            },
        }
    }
}

impl ListCompetitions {
    /// Takes the competitions of the tenant, or the failure of the database.
    pub fn resume(self, reply: Result<Vec<CompetitionRow>, DbFailure>) -> (r: Step)
        ensures
            match reply {
                Err(f) => fails(r, Failure::Sqlx(f.text@)),
                Ok(rows) => match self.next {
                    CompetitionsNext::Show => r matches Step::Finish(
                        Ok(Answer::Competitions(list)),
                    ) && list@ == rows@.map_values(|c: CompetitionRow| competition_detail(c)),
                    CompetitionsNext::Billing => r == Step::ListReports(
                        ListReports { tenant_id: self.tenant_id, competitions: rows },
                    ),
                },
            },
    {
        match reply {
            Err(f) => Step::Finish(Err(f.into_error())),
            Ok(rows) => match self.next {
                CompetitionsNext::Show => {
                    let mut list: Vec<CompetitionDetail> = Vec::with_capacity(rows.len());
                    let mut i: usize = 0;
                    while i < rows.len()
                        invariant
                            i <= rows.len(),
                            list@.len() == i,
                            forall|j: int|
                                0 <= j < i ==> #[trigger] list@[j] == competition_detail(rows@[j]),
                        decreases rows.len() - i,
                    {
                        list.push(rows[i].clone().detail());
                        i += 1;
                    }
                    assert(list@ =~= rows@.map_values(|c: CompetitionRow| competition_detail(c)));
                    Step::Finish(Ok(Answer::Competitions(list)))
                },
                CompetitionsNext::Billing => Step::ListReports(
                    ListReports { tenant_id: self.tenant_id, competitions: rows },
                ),
            },
        }
    }
}

impl ListReports {
    /// Takes the billing reports of the tenant, or the failure of the database.
    pub fn resume(self, reply: Result<Vec<BillingReport>, DbFailure>) -> (r: Step)
        ensures
            match reply {
                Err(f) => fails(r, Failure::Sqlx(f.text@)),
                Ok(reports) => r matches Step::Finish(Ok(Answer::Billing(list))) && list@
                    == self.competitions@.map_values(
                    |c: CompetitionRow| shown_report(self.tenant_id, c, reports@),
                ),
            },
    {
        match reply {
            Err(f) => Step::Finish(Err(f.into_error())),
            Ok(reports) => Step::Finish(
                Ok(Answer::Billing(tenant_reports(self.tenant_id, self.competitions, &reports))),
            ),
        }
    }
}

/// What an organizer's request does first, once the tenant's database is open.
pub open spec fn organizing(m: Remembered, tenant_id: i64, task: OrganizerTask, r: Step) -> bool {
    match task {
        OrganizerTask::PlayersList => r == Step::ListPlayers(ListPlayers { tenant_id }),
        OrganizerTask::PlayersAdd(form) => adding(
            tenant_id,
            display_names(form@),
            Seq::empty(),
            r,
        ),
        OrganizerTask::PlayerDisqualified(player_id) => r == Step::ReadClock(
            ReadClock { next: ClockNext::Disqualify { player_id } },
        ),
        OrganizerTask::CompetitionsAdd(title) => r == Step::ReadClock(
            ReadClock { next: ClockNext::CompetitionsAdd { tenant_id, title } },
        ),
        OrganizerTask::CompetitionFinish(id) => match looked_up(
            m.competitions,
            (tenant_id, id@),
        ) {
            Some(c) => finishing(tenant_id, id, Some(c), r),
            None => r == Step::FindCompetition(
                FindCompetition { tenant_id, id, next: CompetitionNext::Finish },
            ),
        },
        OrganizerTask::CompetitionScore(id) => match looked_up(m.competitions, (tenant_id, id@)) {
            Some(c) => upload_open(tenant_id, id, Some(c), r),
            None => r == Step::FindCompetition(
                FindCompetition { tenant_id, id, next: CompetitionNext::Upload },
            ),
        },
        OrganizerTask::Billing => r == Step::ListCompetitions(
            ListCompetitions { tenant_id, next: CompetitionsNext::Billing },
        ),
        OrganizerTask::Competitions => r == Step::ListCompetitions(
            ListCompetitions { tenant_id, next: CompetitionsNext::Show },
        ),
    }
}

/// Begins an organizer's request, once the tenant's database is open.
pub fn organize(svc: &Service, tenant_id: i64, task: OrganizerTask) -> (r: Step)
    ensures
        organizing(svc.caches@, tenant_id, task, r),
{
    match task {
        OrganizerTask::PlayersList => Step::ListPlayers(ListPlayers { tenant_id }),
        OrganizerTask::PlayersAdd(form) => next_name(tenant_id, names_in(form), Vec::new()),
        OrganizerTask::PlayerDisqualified(player_id) => Step::ReadClock(
            ReadClock { next: ClockNext::Disqualify { player_id } },
        ),
        OrganizerTask::CompetitionsAdd(title) => Step::ReadClock(
            ReadClock { next: ClockNext::CompetitionsAdd { tenant_id, title } },
        ),
        OrganizerTask::CompetitionFinish(id) => match svc.caches.competition(
            tenant_id,
            id.as_str(),
        ) {
            Some(c) => finish(tenant_id, id, Some(c)),
            None => Step::FindCompetition(
                FindCompetition { tenant_id, id, next: CompetitionNext::Finish },
            ),
        },
        OrganizerTask::CompetitionScore(id) => match svc.caches.competition(
            tenant_id,
            id.as_str(),
        ) {
            Some(c) => open_upload(tenant_id, id, Some(c)),
            None => Step::FindCompetition(
                FindCompetition { tenant_id, id, next: CompetitionNext::Upload },
            ),
        },
        OrganizerTask::Billing => Step::ListCompetitions(
            ListCompetitions { tenant_id, next: CompetitionsNext::Billing },
        ),
        OrganizerTask::Competitions => Step::ListCompetitions(
            ListCompetitions { tenant_id, next: CompetitionsNext::Show },
        ),
    }
}

/// The names of new players.
pub open spec fn names_of(items: Seq<NewPlayer>) -> Seq<String> {
    items.map_values(|p: NewPlayer| p.name)
}

/// No name gets lost or changes its place while players are added: those that are done, the one
/// that is next and those that are waiting are always the names in the form.
pub proof fn names_are_kept(
    tenant_id: i64,
    waiting: Seq<String>,
    items: Seq<NewPlayer>,
    r: Step,
)
    requires
        adding(tenant_id, waiting, items, r),
    ensures
        match r {
            Step::InsertPlayers(q) => names_of(q.items@) == names_of(items) + waiting,
            Step::ReadClock(q) => q.next matches ClockNext::PlayersAdd {
                name,
                waiting: rest,
                items: done,
                ..
            } && names_of(done@).push(name) + rest@ == names_of(items) + waiting,
            _ => false,
        },
{
    if waiting.len() == 0 {
        assert(names_of(items) + waiting =~= names_of(items));
    } else {
        assert(names_of(items).push(waiting[0]) + waiting.skip(1) =~= names_of(items) + waiting);
    }
}

/// A player that is added takes their place behind those that are done.
pub proof fn added_players_keep_their_names(items: Seq<NewPlayer>, p: NewPlayer)
    ensures
        names_of(items.push(p)) == names_of(items).push(p.name),
{
    assert(names_of(items.push(p)) =~= names_of(items).push(p.name));
}

/// Fields of a form with another name add nobody.
pub proof fn other_fields_add_nobody(form: Seq<(String, String)>, field: (String, String))
    ensures
        display_names(form.push(field)) == (if is_display_name(field) {
            display_names(form).push(field.1)
        } else {
            display_names(form)
        }),
{
    pushed_pick_grows(
        form,
        |f: (String, String)| is_display_name(f),
        |f: (String, String)| f.1,
        field,
    );
}

/// Finishing a competition takes effect at once: nothing that was remembered of it lets scores in
/// before it has been looked up again.
pub proof fn finishing_takes_effect(m: Remembered, tenant_id: i64, id: String, r: Step)
    requires
        organizing(
            Remembered { competitions: m.competitions.remove((tenant_id, id@)), ..m },
            tenant_id,
            OrganizerTask::CompetitionScore(id),
            r,
        ),
    ensures
        r == Step::FindCompetition(
            FindCompetition { tenant_id, id, next: CompetitionNext::Upload },
        ),
{
}

} // verus!
