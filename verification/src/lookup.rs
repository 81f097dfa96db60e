//! The questions that many requests share: the tenant's database, players, competitions and the
//! time.
use crate::admin::{add_index_to_tenant_db, indexing, tenant_indexes};
use crate::cache::{looked_up, Remembered};
use crate::error::{failure_status, DbFailure, Failure, StatusCode};
use crate::ids::{dispense_id, id_number, id_text, ids_are_unique};
use crate::model::{CompetitionRow, PlayerRow};
use crate::organizer::{
    adding, disqualified, finish, finishing, marked, next_name, open_report, organize, organizing,
    report_inserted, report_open, show_disqualified,
};
use crate::player::{
    authorize_player, authorized, begin_introduction, introduce, introduced, introducing,
    open_ranking, play, playing, ranked_player_found, ranking_open, show, showing,
    take_ranked_player, take_title, title_found,
};
use crate::question::{
    fails, BeginVisit, ClockNext, CompetitionNext, Connect, Connected, DisqualifyPlayer,
    FindCompetition, FindPlayer, FinishCompetition, InsertCompetition, InsertReport, InsertTenant,
    ListForSetup, Moment, NewPlayer, PlayerNext, ReadClock, ReportGoal, Service, Step, Upload,
};
use crate::rnd::xorshift;
use crate::upload::{
    add_row, open_upload, record_taken, row_added, take_record, take_uploaded_player, upload_open,
    uploaded_player_found,
};
use vstd::prelude::*;

verus! {

impl Connect {
    /// Takes whether the tenant's database is open.
    pub fn resume(self, svc: &Service, reply: Result<(), DbFailure>) -> (r: Step)
        ensures
            match reply {
                Err(f) => fails(r, Failure::Sqlx(f.text@)),
                Ok(()) => match self.next {
                    Connected::Organizer(task) => organizing(
                        svc.caches@,
                        self.tenant_id,
                        task,
                        r,
                    ),
                    Connected::Player { task, player_id } => playing(
                        svc.caches@,
                        self.tenant_id,
                        task,
                        player_id,
                        r,
                    ),
                    Connected::Me { tenant, player_id } => introducing(
                        svc.caches@,
                        tenant,
                        player_id,
                        r,
                    ),
                    Connected::Indexes(goal) => indexing(
                        self.tenant_id,
                        tenant_indexes(),
                        goal,
                        r,
                    ),
                    Connected::Setup => r == Step::ListForSetup(
                        ListForSetup { tenant_id: self.tenant_id },
                    ),
                },
            },
    {
        match reply {
            Err(f) => Step::Finish(Err(f.into_error())),
            Ok(()) => match self.next {
                Connected::Organizer(task) => organize(svc, self.tenant_id, task),
                Connected::Player { task, player_id } => play(
                    svc,
                    self.tenant_id,
                    task,
                    player_id,
                ),
                Connected::Me { tenant, player_id } => begin_introduction(svc, tenant, player_id),
                Connected::Indexes(goal) => add_index_to_tenant_db(self.tenant_id, goal),
                Connected::Setup => Step::ListForSetup(
                    ListForSetup { tenant_id: self.tenant_id },
                ),
            },
        }
    }
}

/// The caches after the database was asked for a player: one that was found is remembered under
/// the id that was asked for.
pub open spec fn with_player(
    m: Remembered,
    id: Seq<char>,
    reply: Result<Option<PlayerRow>, DbFailure>,
) -> Remembered {
    match reply {
        Ok(Some(p)) => Remembered { players: m.players.insert(id, p), ..m },
        _ => m,
    }
}

impl FindPlayer {
    /// Takes the player of that id, or the failure of the database.
    pub fn resume(self, svc: &mut Service, reply: Result<Option<PlayerRow>, DbFailure>) -> (r:
        Step)
        ensures
            final(svc).rnd == old(svc).rnd,
            final(svc).caches@ == with_player(old(svc).caches@, self.id@, reply),
            match reply {
                Err(f) => fails(r, Failure::Sqlx(f.text@)),
                Ok(player) => match self.next {
                    PlayerNext::Authorize { tenant_id, task } => authorized(
                        final(svc).caches@,
                        tenant_id,
                        task,
                        self.id,
                        player,
                        r,
                    ),
                    PlayerNext::Show { tenant_id } => showing(tenant_id, player, r),
                    PlayerNext::Disqualified => disqualified(player, r),
                    PlayerNext::Upload { upload, score } => uploaded_player_found(
                        upload,
                        self.id@,
                        player is Some,
                        score@,
                        r,
                    ),
                    PlayerNext::Ranking(k) => ranked_player_found(
                        final(svc).caches@,
                        k,
                        player,
                        r,
                    ),
                    PlayerNext::Me { tenant } => introduced(tenant, player, r),
                },
            },
    {
        match reply {
            Err(f) => Step::Finish(Err(f.into_error())),
            Ok(player) => {
                if let Some(p) = &player {
                    svc.caches.keep_player(self.id.as_str(), p.clone());
                }
                match self.next {
                    PlayerNext::Authorize { tenant_id, task } => authorize_player(
                        svc,
                        tenant_id,
                        task,
                        self.id,
                        player,
                    ),
                    PlayerNext::Show { tenant_id } => show(tenant_id, player),
                    PlayerNext::Disqualified => show_disqualified(player),
                    PlayerNext::Upload { upload, score } => take_uploaded_player(
                        upload,
                        self.id,
                        player.is_some(),
                        score,
                    ),
                    PlayerNext::Ranking(k) => take_ranked_player(svc, k, player),
                    PlayerNext::Me { tenant } => introduce(tenant, player),
                }
            },
        }
    }
}

/// The caches after the database was asked for a competition: one that was found is remembered
/// under the tenant and the id that were asked for.
pub open spec fn with_competition(
    m: Remembered,
    tenant_id: i64,
    id: Seq<char>,
    reply: Result<Option<CompetitionRow>, DbFailure>,
) -> Remembered {
    match reply {
        Ok(Some(c)) => Remembered { competitions: m.competitions.insert((tenant_id, id), c), ..m },
        _ => m,
    }
}

impl FindCompetition {
    /// Takes the competition of that id, or the failure of the database.
    pub fn resume(self, svc: &mut Service, reply: Result<Option<CompetitionRow>, DbFailure>) -> (r:
        Step)
        ensures
            final(svc).rnd == old(svc).rnd,
            final(svc).caches@ == with_competition(
                old(svc).caches@,
                self.tenant_id,
                self.id@,
                reply,
            ),
            match reply {
                Err(f) => fails(r, Failure::Sqlx(f.text@)),
                Ok(comp) => match self.next {
                    CompetitionNext::Finish => finishing(self.tenant_id, self.id, comp, r),
                    CompetitionNext::Report(goal) => report_open(self.tenant_id, comp, goal, r),
                    CompetitionNext::Upload => upload_open(self.tenant_id, self.id, comp, r),
                    CompetitionNext::Scores(s) => title_found(final(svc).caches@, s, comp, r),
                    CompetitionNext::Ranking { player_id, rank_after } => ranking_open(
                        self.tenant_id,
                        player_id,
                        self.id,
                        rank_after,
                        comp,
                        r,
                    ),
                },
            },
    {
        match reply {
            Err(f) => Step::Finish(Err(f.into_error())),
            Ok(comp) => {
                if let Some(c) = &comp {
                    svc.caches.keep_competition(self.tenant_id, self.id.as_str(), c.clone());
                }
                match self.next {
                    CompetitionNext::Finish => finish(self.tenant_id, self.id, comp),
                    CompetitionNext::Report(goal) => open_report(self.tenant_id, comp, goal),
                    CompetitionNext::Upload => open_upload(self.tenant_id, self.id, comp),
                    CompetitionNext::Scores(s) => take_title(svc, s, comp),
                    CompetitionNext::Ranking { player_id, rank_after } => open_ranking(
                        self.tenant_id,
                        player_id,
                        self.id,
                        rank_after,
                        comp,
                    ),
                }
            },
        }
    }
}

/// Whether an id was dispensed at `at` while the number generator went from one state to another.
pub open spec fn dispensed(before: usize, after: usize, at: Moment, id: Seq<char>) -> bool {
    &&& id == id_text(at.nanos as nat, id_number(after))
    &&& before != 0 ==> after == xorshift(before)
}

/// Whether this is the player of that name, added at `at` under `id`.
pub open spec fn is_added(p: NewPlayer, name: String, at: Moment, id: Seq<char>) -> bool {
    &&& p.id@ == id
    &&& p.name == name
    &&& p.now == at.now
}

/// What a request goes on to at `at`, while the number generator goes from one state to another:
/// what is new gets its id now.
pub open spec fn clock_read(
    q: ReadClock,
    m: Remembered,
    before: usize,
    after: usize,
    at: Moment,
    r: Step,
) -> bool {
    match q.next {
        ClockNext::TenantsAdd { name, display_name } => after == before && r
            == Step::InsertTenant(InsertTenant { name, display_name, now: at.now }),
        ClockNext::PlayersAdd { tenant_id, name, waiting, items } => exists|p: NewPlayer|
            #[trigger] is_added(p, name, at, p.id@) && dispensed(
                before,
                after,
                at,
                p.id@,
            ) && adding(tenant_id, waiting@, items@.push(p), r),
        ClockNext::Disqualify { player_id } => after == before && r
            == Step::DisqualifyPlayer(DisqualifyPlayer { player_id, now: at.now }),
        ClockNext::CompetitionsAdd { tenant_id, title } => {
            r matches Step::InsertCompetition(c) && c.tenant_id == tenant_id && c.title
                == title && c.now == at.now && dispensed(
                before,
                after,
                at,
                c.id@,
            )
        },
        ClockNext::Finish { tenant_id, id } => after == before && r
            == Step::FinishCompetition(FinishCompetition { tenant_id, id, now: at.now }),
        ClockNext::Upload { upload, player_id, score } => exists|u: Upload|
            row_added(upload, player_id, score, at, u.rows@.last().id@, u) && dispensed(
                before,
                after,
                at,
                u.rows@.last().id@,
            ) && #[trigger] record_taken(m, u, r),
        ClockNext::Ranking(entry) => after == before && r
            == Step::BeginVisit(BeginVisit { entry, now: at.now }),
    }
}

/// Whether something gets an id once the time is known.
pub open spec fn wants_id(q: ReadClock) -> bool {
    q.next is PlayersAdd || q.next is CompetitionsAdd || q.next is Upload
}

impl ReadClock {
    /// Whether something gets an id once the time is known. The nanoseconds of the reading matter
    /// only then.
    pub fn wants_id(&self) -> (r: bool)
        ensures
            r == wants_id(*self),
    {
        match &self.next {
            ClockNext::PlayersAdd { .. } => true,
            ClockNext::CompetitionsAdd { .. } => true,
            ClockNext::Upload { .. } => true,
            _ => false,
        }
    }

    /// Takes the time. What is new gets its id now.
    pub fn resume(self, svc: &mut Service, at: Moment) -> (r: Step)
        ensures
            final(svc).caches@ == old(svc).caches@,
            clock_read(self, old(svc).caches@, old(svc).rnd, final(svc).rnd, at, r),
    {
        match self.next {
            ClockNext::TenantsAdd { name, display_name } => Step::InsertTenant(
                InsertTenant { name, display_name, now: at.now },
            ),
            ClockNext::PlayersAdd { tenant_id, name, waiting, items } => {
                let mut items = items;
                let id = dispense_id(&mut svc.rnd, at.nanos);
                let p = NewPlayer { id, name, now: at.now };
                assert(is_added(p, name, at, p.id@));
                items.push(p);
                next_name(tenant_id, waiting, items)
            },
            ClockNext::Disqualify { player_id } => Step::DisqualifyPlayer(
                DisqualifyPlayer { player_id, now: at.now },
            ),
            ClockNext::CompetitionsAdd { tenant_id, title } => {
                let id = dispense_id(&mut svc.rnd, at.nanos);
                Step::InsertCompetition(InsertCompetition { id, tenant_id, title, now: at.now })
            },
            ClockNext::Finish { tenant_id, id } => Step::FinishCompetition(
                FinishCompetition { tenant_id, id, now: at.now },
            ),
            ClockNext::Upload { upload, player_id, score } => {
                let id = dispense_id(&mut svc.rnd, at.nanos);
                let u = add_row(upload, player_id, score, at, id);
                let ghost grown = u;
                let r = take_record(svc, u);
                assert(record_taken(svc.caches@, grown, r));
                r
            },
            ClockNext::Ranking(entry) => Step::BeginVisit(BeginVisit { entry, now: at.now }),
        }
    }
}

/// A player that was found is remembered under the id that was asked for, and nothing else changes.
pub proof fn found_players_are_remembered(m: Remembered, id: Seq<char>, p: PlayerRow)
    ensures
        looked_up(with_player(m, id, Ok(Some(p))).players, id) == Some(p),
        forall|other: Seq<char>|
            other != id ==> #[trigger] looked_up(
                with_player(m, id, Ok(Some(p))).players,
                other,
            ) == looked_up(m.players, other),
{
}

/// A competition that was found is remembered for the tenant and under the id that were asked for.
/// What is remembered for other tenants stays as it was, even under the same id.
pub proof fn tenants_do_not_share_competitions(
    m: Remembered,
    tenant_id: i64,
    id: Seq<char>,
    c: CompetitionRow,
)
    ensures
        looked_up(
            with_competition(m, tenant_id, id, Ok(Some(c))).competitions,
            (tenant_id, id),
        ) == Some(c),
        forall|other: i64, any: Seq<char>|
            other != tenant_id ==> #[trigger] looked_up(
                with_competition(m, tenant_id, id, Ok(Some(c))).competitions,
                (other, any),
            ) == looked_up(m.competitions, (other, any)),
{
}

/// What is not found, or could not be looked up, changes nothing that is remembered.
pub proof fn nothing_found_nothing_remembered(m: Remembered, tenant_id: i64, id: Seq<char>, f:
    DbFailure)
    ensures
        with_player(m, id, Ok(None)) == m,
        with_player(m, id, Err(f)) == m,
        with_competition(m, tenant_id, id, Ok(None)) == m,
        with_competition(m, tenant_id, id, Err(f)) == m,
{
}

/// No two ids are the same that are dispensed at different moments.
pub proof fn dispensed_ids_differ(
    before1: usize,
    after1: usize,
    at1: Moment,
    id1: Seq<char>,
    before2: usize,
    after2: usize,
    at2: Moment,
    id2: Seq<char>,
)
    requires
        dispensed(before1, after1, at1, id1),
        dispensed(before2, after2, at2, id2),
        at1.nanos != at2.nanos,
    ensures
        id1 != id2,
{
    ids_are_unique(at1.nanos as nat, id_number(after1), at2.nanos as nat, id_number(after2));
}

/// A competition that is finished can be finished again: it is marked with the new time, what was
/// remembered of it is forgotten, and where the database then refuses a second billing report the
/// request fails, with the mark already made.
pub proof fn finishing_again_marks_anew(
    tenant_id: i64,
    id: String,
    comp: CompetitionRow,
    asked: Step,
    m: Remembered,
    before: usize,
    after: usize,
    at: Moment,
    told: Step,
    forgotten: Remembered,
    sought: Step,
    report: InsertReport,
    later: Remembered,
    f: DbFailure,
    end: Step,
)
    requires
        comp.finished_at is Some,
        finishing(tenant_id, id, Some(comp), asked),
        clock_read(asked->ReadClock_0, m, before, after, at, told),
        marked(told->FinishCompetition_0, m, Ok(()), forgotten, sought),
        report_inserted(report, later, Err(f), end),
    ensures
        told == Step::FinishCompetition(FinishCompetition { tenant_id, id, now: at.now }),
        looked_up(forgotten.competitions, (tenant_id, id@)) is None,
        sought == Step::FindCompetition(
            FindCompetition { tenant_id, id, next: CompetitionNext::Report(ReportGoal::Finish) },
        ),
        fails(end, Failure::Sqlx(f.text@)),
        failure_status(Failure::Sqlx(f.text@)) == StatusCode::InternalServerError,
{
}

} // verus!
