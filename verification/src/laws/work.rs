//! What organizers and administrators do, and how the service is set up.
use crate::admin::add_index_to_tenant_db;
use crate::cache::Remembered;
use crate::error::{DbFailure, StatusCode};
use crate::laws::board::{shows_competition, shows_player};
use crate::laws::outcome::{breaks_off, fails_inside, is_turned_away};
use crate::laws::upload::lets_scores_in;
use crate::laws::words::{
    database_paths_are_paths, decimals_are_natural, ids_are_times_and_numbers, is_id, is_natural,
    is_path, steps_to,
};
use crate::list::filter_places;
use crate::lookup::{dispensed, is_added};
use crate::model::{CompetitionRow, PlayerRow, TenantRow};
use crate::organizer::{
    adding, display_names, finish, is_display_name, names_in, next_name, open_report, organize,
    show_disqualified,
};
use crate::question::{
    AddTenantIndex, Answer, ClockNext, CompetitionNext, CompetitionsNext, Connect, Connected,
    CountIndexes, CreateTenantDb, CreateVisitIndex, DisqualifyPlayer, DropIndex, FindCompetition,
    FindPlayer, FinishCompetition, IndexGoal, InsertCompetition, InsertPlayers, InsertReport,
    InsertTenant, ListCompetitions, ListForSetup, ListPlayers, Moment, NewPlayer, OrganizerTask,
    ReadClock, ReportGoal, RunInitScript, RunSetup, Service, StartCollector, Step,
};
use crate::setup::{finished_ids, initialize, next_report, reporting};
use crate::tenant::{db_file_name, lossy_text_of, path_in, CommandOutcome};
use vstd::prelude::*;

verus! {

/// Whether places go up and stay below a bound.
pub open spec fn go_up(places: Seq<int>, bound: int) -> bool {
    &&& forall|k: int| 0 <= k < places.len() ==> 0 <= #[trigger] places[k] < bound
    &&& forall|j: int, k: int|
        0 <= j < k < places.len() ==> #[trigger] places[j] < #[trigger] places[k]
}

/// Whether these are the values of the form's fields named `display_name[]`, all of them, in order:
/// `places` are theirs in the form.
pub open spec fn are_names(
    form: Seq<(String, String)>,
    names: Seq<String>,
    places: Seq<int>,
) -> bool {
    &&& go_up(places, form.len() as int)
    &&& names.len() == places.len()
    &&& forall|k: int|
        0 <= k < names.len() ==> #[trigger] names[k] == form[places[k]].1 && form[places[k]].0@
            == "display_name[]"@
    &&& forall|i: int|
        0 <= i < form.len() && (#[trigger] form[i]).0@ == "display_name[]"@ ==> places.contains(i)
}

proof fn display_names_are_names(form: Seq<(String, String)>) -> (places: Seq<int>)
    ensures
        are_names(form, display_names(form), places),
{
    let keep = |field: (String, String)| is_display_name(field);
    let places = filter_places(form, keep);
    let names = display_names(form);
    assert forall|k: int| 0 <= k < names.len() implies #[trigger] names[k] == form[places[k]].1
        && form[places[k]].0@ == "display_name[]"@ by {
        assert(keep(form[places[k]]));
        assert(form.filter(keep)[k] == form[places[k]]);
    }
    assert forall|i: int|
        0 <= i < form.len() && (#[trigger] form[i]).0@
            == "display_name[]"@ implies places.contains(i) by {
        assert(keep(form[i]));
    }
    places
}

/// The names to add are those in the form.
pub proof fn the_names_are_those_in_the_form(form: Vec<(String, String)>, r: Vec<String>)
    requires
        call_ensures(names_in, (form,), r),
    ensures
        exists|places: Seq<int>| are_names(form@, r@, places),
{
    let places = display_names_are_names(form@);
    assert(are_names(form@, r@, places));
}

/// Whether adding goes on: the clock is read for the first name that waits, and where none waits
/// all players are inserted at once.
pub open spec fn goes_on_adding(
    tenant_id: i64,
    waiting: Seq<String>,
    items: Seq<NewPlayer>,
    r: Step,
) -> bool {
    if waiting.len() > 0 {
        r matches Step::ReadClock(c) && (c.next matches ClockNext::PlayersAdd {
            tenant_id: t,
            name,
            waiting: rest,
            items: done,
        } && t == tenant_id && name == waiting[0] && rest@.len() == waiting.len() - 1 && (forall|
            i: int,
        |
            0 <= i < rest@.len() ==> #[trigger] rest@[i] == waiting[i + 1]) && done@ == items)
    } else {
        r matches Step::InsertPlayers(p) && p.tenant_id == tenant_id && p.items@ == items
    }
}

/// Each name becomes a player behind those before, at the time that was read and under an id of its
/// own.
pub proof fn every_name_becomes_a_player(
    q: ReadClock,
    tenant_id: i64,
    name: String,
    waiting: Vec<String>,
    items: Vec<NewPlayer>,
    svc: &mut Service,
    at: Moment,
    r: Step,
)
    requires
        q.next == (ClockNext::PlayersAdd { tenant_id, name, waiting, items }),
        call_ensures(ReadClock::resume, (q, svc, at), r),
    ensures
        final(svc).caches@ == old(svc).caches@,
        old(svc).rnd != 0 ==> steps_to(old(svc).rnd, final(svc).rnd),
        exists|p: NewPlayer|
            p.name == name && p.now == at.now && is_id(
                p.id@,
                at.nanos as int,
                final(svc).rnd % 999_999 + 1,
            ) && #[trigger] goes_on_adding(tenant_id, waiting@, items@ + seq![p], r),
{
    let p = choose|p: NewPlayer| #[trigger]
        is_added(p, name, at, p.id@) && dispensed(old(svc).rnd, final(svc).rnd, at, p.id@)
            && adding(tenant_id, waiting@, items@.push(p), r);
    ids_are_times_and_numbers(at.nanos as nat, final(svc).rnd);
    assert(items@.push(p) =~= items@ + seq![p]);
    assert(goes_on_adding(tenant_id, waiting@, items@ + seq![p], r));
}

/// Every player that was inserted is told, in order, with their id and name and not disqualified.
pub proof fn every_new_player_is_told(q: InsertPlayers, reply: Result<(), DbFailure>, r: Step)
    requires
        call_ensures(InsertPlayers::resume, (q, reply), r),
    ensures
        match reply {
            Err(f) => breaks_off(r, f),
            Ok(()) => r matches Step::Finish(Ok(Answer::Players(list))) && list@.len()
                == q.items@.len() && forall|i: int|
                0 <= i < list@.len() ==> (#[trigger] list@[i]).id == q.items@[i].id
                    && list@[i].display_name == q.items@[i].name && !list@[i].is_disqualified,
        },
{
}

/// Every player that was listed is told, in order.
pub proof fn every_player_is_told(
    q: ListPlayers,
    reply: Result<Vec<PlayerRow>, DbFailure>,
    r: Step,
)
    requires
        call_ensures(ListPlayers::resume, (q, reply), r),
    ensures
        match reply {
            Err(f) => breaks_off(r, f),
            Ok(rows) => r matches Step::Finish(Ok(Answer::Players(list))) && list@.len()
                == rows@.len() && forall|i: int|
                0 <= i < list@.len() ==> shows_player(rows@[i], #[trigger] list@[i]),
        },
{
}

/// Every competition that was listed is told, in order; for the bill, all of them go on to their
/// reports.
pub proof fn every_competition_is_told(
    q: ListCompetitions,
    reply: Result<Vec<CompetitionRow>, DbFailure>,
    r: Step,
)
    requires
        call_ensures(ListCompetitions::resume, (q, reply), r),
    ensures
        match reply {
            Err(f) => breaks_off(r, f),
            Ok(rows) => match q.next {
                CompetitionsNext::Show => r matches Step::Finish(Ok(Answer::Competitions(list)))
                    && list@.len() == rows@.len() && forall|i: int|
                    0 <= i < list@.len() ==> shows_competition(rows@[i], #[trigger] list@[i]),
                CompetitionsNext::Billing => r matches Step::ListReports(l) && l.tenant_id
                    == q.tenant_id && l.competitions == rows,
            },
        },
{
}

/// Whether an organizer's request begins with what it asks for, in the organizer's tenant.
pub open spec fn begins_work(m: Remembered, tenant_id: i64, task: OrganizerTask, r: Step) -> bool {
    match task {
        OrganizerTask::PlayersList => r matches Step::ListPlayers(l) && l.tenant_id == tenant_id,
        OrganizerTask::PlayersAdd(form) => exists|names: Seq<String>, places: Seq<int>| #[trigger]
            are_names(form@, names, places) && goes_on_adding(tenant_id, names, Seq::empty(), r),
        OrganizerTask::PlayerDisqualified(id) => r matches Step::ReadClock(c) && c.next == (
        ClockNext::Disqualify { player_id: id }),
        OrganizerTask::CompetitionsAdd(title) => r matches Step::ReadClock(c) && c.next == (
        ClockNext::CompetitionsAdd { tenant_id, title }),
        OrganizerTask::CompetitionFinish(id) => if m.competitions.contains_key((tenant_id, id@)) {
            r matches Step::ReadClock(c) && c.next == (ClockNext::Finish { tenant_id, id })
        } else {
            r matches Step::FindCompetition(f) && f.tenant_id == tenant_id && f.id == id
                && f.next is Finish
        },
        OrganizerTask::CompetitionScore(id) => if m.competitions.contains_key((tenant_id, id@)) {
            lets_scores_in(tenant_id, id, Some(m.competitions[(tenant_id, id@)]), r)
        } else {
            r matches Step::FindCompetition(f) && f.tenant_id == tenant_id && f.id == id
                && f.next is Upload
        },
        OrganizerTask::Billing => r matches Step::ListCompetitions(l) && l.tenant_id == tenant_id
            && l.next is Billing,
        OrganizerTask::Competitions => r matches Step::ListCompetitions(l) && l.tenant_id
            == tenant_id && l.next is Show,
    }
}

/// What organizers ask for is done in their tenant. Every name in the form becomes a player.
pub proof fn organizers_work_in_their_tenant(
    q: Connect,
    task: OrganizerTask,
    svc: &Service,
    reply: Result<(), DbFailure>,
    r: Step,
)
    requires
        q.next == Connected::Organizer(task),
        call_ensures(Connect::resume, (q, svc, reply), r),
    ensures
        match reply {
            Err(f) => breaks_off(r, f),
            Ok(()) => begins_work(svc.caches@, q.tenant_id, task, r),
        },
{
    if reply is Ok {
        if let OrganizerTask::PlayersAdd(form) = task {
            let places = display_names_are_names(form@);
            assert(are_names(form@, display_names(form@), places));
            assert(adding(q.tenant_id, display_names(form@), Seq::empty(), r));
        }
    }
}

/// The time that is read is the one that is written: a tenant is added, a player disqualified, a
/// competition added or finished, and a ranking visited at that time.
pub proof fn what_is_done_is_done_now(q: ReadClock, svc: &mut Service, at: Moment, r: Step)
    requires
        call_ensures(ReadClock::resume, (q, svc, at), r),
    ensures
        final(svc).caches@ == old(svc).caches@,
        match q.next {
            ClockNext::TenantsAdd { name, display_name } => final(svc).rnd == old(svc).rnd && (
            r matches Step::InsertTenant(t) && t.name == name && t.display_name == display_name
                && t.now == at.now),
            ClockNext::Disqualify { player_id } => final(svc).rnd == old(svc).rnd && (
            r matches Step::DisqualifyPlayer(d) && d.player_id == player_id && d.now == at.now),
            ClockNext::CompetitionsAdd { tenant_id, title } => (old(svc).rnd != 0 ==> steps_to(
                old(svc).rnd,
                final(svc).rnd,
            )) && (r matches Step::InsertCompetition(c) && c.tenant_id == tenant_id && c.title
                == title && c.now == at.now && is_id(
                c.id@,
                at.nanos as int,
                final(svc).rnd % 999_999 + 1,
            )),
            ClockNext::Finish { tenant_id, id } => final(svc).rnd == old(svc).rnd && (
            r matches Step::FinishCompetition(f) && f.tenant_id == tenant_id && f.id == id && f.now
                == at.now),
            ClockNext::Ranking(entry) => final(svc).rnd == old(svc).rnd && (
            r matches Step::BeginVisit(b) && b.entry == entry && b.now == at.now),
            _ => true,
        },
{
    ids_are_times_and_numbers(at.nanos as nat, final(svc).rnd);
}

/// The nanoseconds matter where something gets an id, and nowhere else.
pub proof fn ids_are_wanted_for_what_is_new(q: &ReadClock, r: bool)
    requires
        call_ensures(ReadClock::wants_id, (q,), r),
    ensures
        r <==> (q.next is PlayersAdd || q.next is CompetitionsAdd || q.next is Upload),
{
}

/// A competition that was added is told with the id and title it was inserted with, unfinished.
pub proof fn a_new_competition_is_told(q: InsertCompetition, reply: Result<(), DbFailure>, r: Step)
    requires
        call_ensures(InsertCompetition::resume, (q, reply), r),
    ensures
        match reply {
            Err(f) => breaks_off(r, f),
            Ok(()) => r matches Step::Finish(Ok(Answer::CompetitionsAdd(d))) && d.id == q.id
                && d.title == q.title && !d.is_finished,
        },
{
}

/// Whether everything is remembered as before but for the players.
pub open spec fn only_players_differ(before: Remembered, after: Remembered) -> bool {
    &&& after.competitions == before.competitions
    &&& after.tenants == before.tenants
    &&& after.tenant_names == before.tenant_names
    &&& after.visits == before.visits
}

/// Whether everything is remembered as before but for the competitions.
pub open spec fn only_competitions_differ(before: Remembered, after: Remembered) -> bool {
    &&& after.players == before.players
    &&& after.tenants == before.tenants
    &&& after.tenant_names == before.tenant_names
    &&& after.visits == before.visits
}

/// A player who was disqualified is forgotten, nobody else is, and the player is looked up again to
/// be told.
pub proof fn a_disqualified_player_is_forgotten(
    q: DisqualifyPlayer,
    svc: &mut Service,
    reply: Result<(), DbFailure>,
    r: Step,
)
    requires
        call_ensures(DisqualifyPlayer::resume, (q, svc, reply), r),
    ensures
        final(svc).rnd == old(svc).rnd,
        only_players_differ(old(svc).caches@, final(svc).caches@),
        match reply {
            Err(f) => breaks_off(r, f) && final(svc).caches@ == old(svc).caches@,
            Ok(()) => final(svc).caches@.players == old(svc).caches@.players.remove(q.player_id@)
                && (
            r matches Step::FindPlayer(f) && f.id == q.player_id && f.next is Disqualified),
        },
{
}

/// The disqualified player is told as they were looked up, or is not found.
pub proof fn the_disqualified_player_is_told(
    q: FindPlayer,
    svc: &mut Service,
    reply: Result<Option<PlayerRow>, DbFailure>,
    r: Step,
)
    requires
        q.next is Disqualified,
        call_ensures(FindPlayer::resume, (q, svc, reply), r),
    ensures
        match reply {
            Err(f) => breaks_off(r, f),
            Ok(None) => is_turned_away(r, StatusCode::NotFound, "player not found"@),
            Ok(Some(p)) => r matches Step::Finish(Ok(Answer::PlayerDisqualified(d)))
                && shows_player(p, d),
        },
{
}

/// A player that was found is remembered under the id that was asked for; nobody else changes, and
/// nothing does where nobody was found.
pub proof fn players_are_remembered_as_they_were_found(
    q: FindPlayer,
    svc: &mut Service,
    reply: Result<Option<PlayerRow>, DbFailure>,
    r: Step,
)
    requires
        call_ensures(FindPlayer::resume, (q, svc, reply), r),
    ensures
        final(svc).rnd == old(svc).rnd,
        only_players_differ(old(svc).caches@, final(svc).caches@),
        match reply {
            Ok(Some(p)) => final(svc).caches@.players == old(svc).caches@.players.insert(q.id@, p),
            _ => final(svc).caches@.players == old(svc).caches@.players,
        },
{
}

/// A competition that was found is remembered under the tenant and id that were asked for; no other
/// changes, and nothing does where none was found.
pub proof fn competitions_are_remembered_as_they_were_found(
    q: FindCompetition,
    svc: &mut Service,
    reply: Result<Option<CompetitionRow>, DbFailure>,
    r: Step,
)
    requires
        call_ensures(FindCompetition::resume, (q, svc, reply), r),
    ensures
        final(svc).rnd == old(svc).rnd,
        only_competitions_differ(old(svc).caches@, final(svc).caches@),
        match reply {
            Ok(Some(c)) => final(svc).caches@.competitions == old(svc).caches@.competitions.insert(
                (q.tenant_id, q.id@),
                c,
            ),
            _ => final(svc).caches@.competitions == old(svc).caches@.competitions,
        },
{
}

/// A competition that is there is finished, whether it was before or not, and one that is not is
/// not found. For its report it has to be there again.
pub proof fn competitions_that_are_there_are_finished(
    q: FindCompetition,
    svc: &mut Service,
    reply: Result<Option<CompetitionRow>, DbFailure>,
    r: Step,
)
    requires
        call_ensures(FindCompetition::resume, (q, svc, reply), r),
    ensures
        reply matches Err(f) ==> breaks_off(r, f),
        q.next is Finish && reply is Ok ==> match reply->Ok_0 {
            None => is_turned_away(r, StatusCode::NotFound, "competition not found"@),
            Some(_) => r matches Step::ReadClock(c) && c.next == (ClockNext::Finish {
                tenant_id: q.tenant_id,
                id: q.id,
            }),
        },
        q.next is Report && reply is Ok ==> match reply->Ok_0 {
            None => fails_inside(r, "error retrieve_competition"@),
            Some(c) => r matches Step::ListVisits(v) && v.tenant_id == q.tenant_id && v.competition
                == c && v.goal == q.next->Report_0,
        },
{
}

/// A competition that was finished is forgotten, no other is, and it is looked up again for its
/// report.
pub proof fn a_finished_competition_is_forgotten(
    q: FinishCompetition,
    svc: &mut Service,
    reply: Result<(), DbFailure>,
    r: Step,
)
    requires
        call_ensures(FinishCompetition::resume, (q, svc, reply), r),
    ensures
        final(svc).rnd == old(svc).rnd,
        only_competitions_differ(old(svc).caches@, final(svc).caches@),
        match reply {
            Err(f) => breaks_off(r, f) && final(svc).caches@ == old(svc).caches@,
            Ok(()) => final(svc).caches@.competitions == old(svc).caches@.competitions.remove(
                (q.tenant_id, q.id@),
            ) && (
            r matches Step::FindCompetition(f) && f.tenant_id == q.tenant_id && f.id == q.id
                && f.next == CompetitionNext::Report(ReportGoal::Finish)),
        },
{
}

/// A finish is done once its report is recorded.
pub proof fn a_finish_ends_with_its_report(
    q: InsertReport,
    svc: &Service,
    reply: Result<(), DbFailure>,
    r: Step,
)
    requires
        call_ensures(InsertReport::resume, (q, svc, reply), r),
    ensures
        reply matches Err(f) ==> breaks_off(r, f),
        reply is Ok && q.goal is Finish ==> r == Step::Finish(Ok(Answer::CompetitionFinish)),
        reply is Ok ==> (q.goal matches ReportGoal::Setup(s) ==> bills_next(
            svc.caches@,
            s.tenant_id,
            s.waiting@,
            r,
        )),
{
}

/// A tenant that was inserted is told with its id in decimal, its names and no debt, and its
/// database is to be created. One whose name is taken is a bad request.
pub proof fn a_new_tenant_gets_its_id(q: InsertTenant, reply: Result<u64, DbFailure>, r: Step)
    requires
        call_ensures(InsertTenant::resume, (q, reply), r),
    ensures
        match reply {
            Err(f) => if f.number == Some(1062u16) {
                is_turned_away(r, StatusCode::BadRequest, "duplicate tenant"@)
            } else {
                breaks_off(r, f)
            },
            Ok(id) => r matches Step::CreateTenantDb(c) && c.id == id as i64 && is_natural(
                c.tenant.id@,
                id as int,
            ) && c.tenant.name == q.name && c.tenant.display_name == q.display_name
                && c.tenant.billing_yen == 0,
        },
{
    if reply is Ok {
        decimals_are_natural(reply->Ok_0 as nat);
    }
}

/// A new tenant's database is created under its own id, and where that went well its indexes are
/// added.
pub proof fn a_new_tenant_gets_its_database(
    q: CreateTenantDb,
    shown: &CreateTenantDb,
    dir: &str,
    command: String,
    outcome: CommandOutcome,
    r: Step,
)
    requires
        *shown == q,
        call_ensures(CreateTenantDb::command, (shown, dir), command),
        call_ensures(CreateTenantDb::resume, (q, dir, outcome), r),
    ensures
        exists|path: Seq<char>| #[trigger]
            is_path(path, dir@, q.id, ".db"@) && command@ == "sqlite3 "@ + path + " < "@
                + "../sql/tenant/10_schema.sql"@,
        if outcome is Ended && outcome->success {
            r matches Step::Connect(c) && c.tenant_id == q.id && c.next == Connected::Indexes(
                IndexGoal::TenantsAdd(q.tenant),
            )
        } else {
            exists|path: Seq<char>| #[trigger]
                is_path(path, dir@, q.id, ".db"@) && (if outcome is NotStarted {
                    fails_inside(
                        r,
                        "failed to exec sqlite3 "@ + path + " < "@
                            + "../sql/tenant/10_schema.sql"@ + (": "@ + outcome->NotStarted_0@),
                    )
                } else {
                    fails_inside(
                        r,
                        "failed to exec sqlite "@ + path + " < "@
                            + "../sql/tenant/10_schema.sql"@ + (", "@ + ("out="@
                            + lossy_text_of(outcome->stdout@) + ", err="@ + lossy_text_of(
                            outcome->stderr@,
                        ))),
                    )
                })
        },
{
    database_paths_are_paths(dir@, q.id);
    let path = path_in(dir@, db_file_name(q.id));
    assert(is_path(path, dir@, q.id, ".db"@));
}

/// Whether the next of these statements is to be run on a tenant's database, or, where none is
/// left, a new tenant is told or the set-up goes on to the next tenant.
pub open spec fn adds_next(
    tenant_id: i64,
    left: Seq<&'static str>,
    goal: IndexGoal,
    r: Step,
) -> bool {
    if left.len() > 0 {
        r matches Step::AddTenantIndex(a) && a.tenant_id == tenant_id && a.sql == left[0] && a.goal
            == goal && a.rest@.len() == left.len() - 1 && forall|i: int|
            0 <= i < a.rest@.len() ==> #[trigger] a.rest@[i] == left[i + 1]
    } else {
        match goal {
            IndexGoal::TenantsAdd(t) => r == Step::Finish(Ok(Answer::TenantsAdd(t))),
            IndexGoal::Setup => if tenant_id < 100 {
                r matches Step::Connect(c) && c.tenant_id == tenant_id + 1 && c.next
                    == Connected::Indexes(IndexGoal::Setup)
            } else {
                r matches Step::CountIndexes(c) && c.table@ == "id_generator"@ && c.index@
                    == "stub"@
            },
        }
    }
}

/// Whether the index for a player's scores is to be added to a tenant's database, and then the one
/// for rankings.
pub open spec fn adds_first(tenant_id: i64, goal: IndexGoal, r: Step) -> bool {
    r matches Step::AddTenantIndex(a) && a.tenant_id == tenant_id && a.goal == goal && a.sql@
        == "CREATE INDEX tenant_player_idx ON player_score (tenant_id, player_id);"@
        && a.rest@.len() == 1 && a.rest@[0]@
        == "CREATE INDEX ranking_idx ON player_score (tenant_id, competition_id, score DESC, row_num);"@
}

/// A tenant's database gets two indexes, first the one for a player's scores and then the one for
/// rankings.
pub proof fn a_database_gets_two_indexes(
    q: Connect,
    goal: IndexGoal,
    svc: &Service,
    reply: Result<(), DbFailure>,
    r: Step,
)
    requires
        q.next == Connected::Indexes(goal),
        call_ensures(Connect::resume, (q, svc, reply), r),
    ensures
        match reply {
            Err(f) => breaks_off(r, f),
            Ok(()) => adds_first(q.tenant_id, goal, r),
        },
{
}

/// The indexes are added one after another.
pub proof fn indexes_are_added_one_after_another(
    q: AddTenantIndex,
    reply: Result<(), DbFailure>,
    r: Step,
)
    requires
        call_ensures(AddTenantIndex::resume, (q, reply), r),
    ensures
        match reply {
            Err(f) => breaks_off(r, f),
            Ok(()) => adds_next(q.tenant_id, q.rest@, q.goal, r),
        },
{
}

/// The set-up starts with the script, and where that ended well it goes on with eight statements:
/// they keep the first visits of each player, and make the table of reports anew.
pub proof fn the_setup_starts_with_the_script(
    start: Step,
    q: RunInitScript,
    outcome: CommandOutcome,
    r: Step,
)
    requires
        call_ensures(initialize, (), start),
        call_ensures(RunInitScript::resume, (q, outcome), r),
    ensures
        start is RunInitScript,
        match outcome {
            CommandOutcome::NotStarted(cause) => fails_inside(
                r,
                "error exec command: "@ + cause@,
            ),
            CommandOutcome::Ended { success, stdout, stderr } => if success {
                r matches Step::RunSetup(s) && s.rest@.len() == 7 && s.sql@
                    == "DROP TABLE IF EXISTS visit_history_tmp;"@ && s.rest@[0]@
                    == "create table visit_history_tmp as select * from visit_history where 1=2;"@
                    && s.rest@[1]@
                    == "INSERT into visit_history_tmp select player_id, tenant_id, competition_id,
  min(created_at) as created_at, min(updated_at) as updated_at
  from visit_history group by player_id, tenant_id, competition_id;"@ && s.rest@[2]@
                    == "truncate visit_history;"@ && s.rest@[3]@
                    == "INSERT INTO visit_history select * FROM visit_history_tmp;"@
                    && s.rest@[4]@ == "DROP TABLE visit_history_tmp;"@ && s.rest@[5]@
                    == "DROP TABLE IF EXISTS `billing_report`;"@ && s.rest@[6]@
                    == "CREATE TABLE `billing_report` (
  `tenant_id` BIGINT NOT NULL,
  `competition_id` VARCHAR(255) NOT NULL,
  `competition_title` VARCHAR(255) NOT NULL,
  `player_count` BIGINT NOT NULL,
  `visitor_count` BIGINT NOT NULL,
  `billing_player_yen` BIGINT NOT NULL,
  `billing_visitor_yen` BIGINT NOT NULL,
  `billing_yen` BIGINT NOT NULL,
  PRIMARY KEY(`tenant_id`, `competition_id`)
) ENGINE=InnoDB DEFAULT CHARACTER SET=utf8mb4;"@
            } else {
                fails_inside(
                    r,
                    "error exec command: "@ + ("out="@ + lossy_text_of(stdout@) + ", err="@
                        + lossy_text_of(stderr@)),
                )
            },
        },
{
}

/// The statements are run one after another, and then the first tenant is opened.
pub proof fn statements_are_run_one_after_another(
    q: RunSetup,
    reply: Result<(), DbFailure>,
    r: Step,
)
    requires
        call_ensures(RunSetup::resume, (q, reply), r),
    ensures
        match reply {
            Err(f) => breaks_off(r, f),
            Ok(()) => if q.rest@.len() > 0 {
                r matches Step::RunSetup(s) && s.sql == q.rest@[0] && s.rest@.len()
                    == q.rest@.len() - 1 && forall|i: int|
                    0 <= i < s.rest@.len() ==> #[trigger] s.rest@[i] == q.rest@[i + 1]
            } else {
                r matches Step::Connect(c) && c.tenant_id == 1 && c.next is Setup
            },
        },
{
}

/// Whether the next of these competitions of a tenant is to be billed, or, where none is left, the
/// set-up goes on to the next tenant, and after the hundredth to the index of the visits.
pub open spec fn bills_next(m: Remembered, tenant_id: i64, waiting: Seq<String>, r: Step) -> bool {
    if waiting.len() > 0 {
        let key = (tenant_id, waiting[0]@);
        if m.competitions.contains_key(key) {
            r matches Step::ListVisits(v) && v.tenant_id == tenant_id && v.competition
                == m.competitions[key] && leaves_rest(v.goal, tenant_id, waiting)
        } else {
            r matches Step::FindCompetition(f) && f.tenant_id == tenant_id && f.id == waiting[0]
                && (f.next matches CompetitionNext::Report(goal) && leaves_rest(
                goal,
                tenant_id,
                waiting,
            ))
        }
    } else if tenant_id < 100 {
        r matches Step::Connect(c) && c.tenant_id == tenant_id + 1 && c.next is Setup
    } else {
        r matches Step::CreateVisitIndex(i) && i.sql@
            == "CREATE INDEX ranking_idx ON visit_history (tenant_id, competition_id, player_id, created_at);"@
    }
}

/// Whether a report of the set-up leaves all but the first of these competitions for later.
pub open spec fn leaves_rest(goal: ReportGoal, tenant_id: i64, waiting: Seq<String>) -> bool {
    goal matches ReportGoal::Setup(s) && s.tenant_id == tenant_id && s.waiting@.len()
        == waiting.len() - 1 && forall|i: int|
        0 <= i < s.waiting@.len() ==> #[trigger] s.waiting@[i] == waiting[i + 1]
}

/// Whether these are the ids of the finished competitions, all of them, in order: `places` are
/// theirs in the list.
pub open spec fn are_finished(
    comps: Seq<CompetitionRow>,
    ids: Seq<String>,
    places: Seq<int>,
) -> bool {
    &&& go_up(places, comps.len() as int)
    &&& ids.len() == places.len()
    &&& forall|k: int|
        0 <= k < ids.len() ==> #[trigger] ids[k] == comps[places[k]].id
            && comps[places[k]].finished_at is Some
    &&& forall|i: int|
        0 <= i < comps.len() && (#[trigger] comps[i]).finished_at is Some ==> places.contains(i)
}

/// In the set-up, a tenant that was opened has its competitions listed, and all that are finished
/// are billed, in order.
pub proof fn the_setup_bills_all_finished_competitions(
    opened: Connect,
    ok: Result<(), DbFailure>,
    between: Step,
    q: ListForSetup,
    svc: &Service,
    reply: Result<Vec<CompetitionRow>, DbFailure>,
    r: Step,
)
    requires
        opened.next is Setup,
        call_ensures(Connect::resume, (opened, svc, ok), between),
        call_ensures(ListForSetup::resume, (q, svc, reply), r),
    ensures
        match ok {
            Err(f) => breaks_off(between, f),
            Ok(()) => between matches Step::ListForSetup(l) && l.tenant_id == opened.tenant_id,
        },
        match reply {
            Err(f) => breaks_off(r, f),
            Ok(comps) => exists|ids: Seq<String>, places: Seq<int>| #[trigger]
                are_finished(comps@, ids, places) && bills_next(
                    svc.caches@,
                    q.tenant_id,
                    ids,
                    r,
                ),
        },
{
    if reply is Ok {
        let comps = reply->Ok_0@;
        let keep = |c: CompetitionRow| c.finished_at is Some;
        let places = filter_places(comps, keep);
        let ids = finished_ids(comps);
        assert forall|k: int| 0 <= k < ids.len() implies #[trigger] ids[k] == comps[places[k]].id
            && comps[places[k]].finished_at is Some by {
            assert(keep(comps[places[k]]));
            assert(comps.filter(keep)[k] == comps[places[k]]);
        }
        assert forall|i: int|
            0 <= i < comps.len() && (#[trigger] comps[i]).finished_at is Some implies places.contains(
            i,
        ) by {
            assert(keep(comps[i]));
        }
        assert(are_finished(comps, ids, places));
        assert(reporting(svc.caches@, q.tenant_id, ids, r));
    }
}

/// An index of the visits that is there already will do, and then the indexes of the tenants are
/// added, from the first tenant on.
pub proof fn the_index_of_the_visits_is_created_once(
    q: CreateVisitIndex,
    reply: Result<(), DbFailure>,
    r: Step,
)
    requires
        call_ensures(CreateVisitIndex::resume, (q, reply), r),
    ensures
        if reply is Err && reply->Err_0.number != Some(1060u16) && reply->Err_0.number != Some(
            1061u16,
        ) {
            breaks_off(r, reply->Err_0)
        } else {
            r matches Step::Connect(c) && c.tenant_id == 1 && c.next == Connected::Indexes(
                IndexGoal::Setup,
            )
        },
{
}

/// Whether nothing is remembered.
pub open spec fn is_empty(m: Remembered) -> bool {
    &&& m.players == Map::<Seq<char>, PlayerRow>::empty()
    &&& m.competitions == Map::<(i64, Seq<char>), CompetitionRow>::empty()
    &&& m.tenants == Map::<i64, TenantRow>::empty()
    &&& m.tenant_names == Map::<Seq<char>, TenantRow>::empty()
    &&& m.visits == Map::<(Seq<char>, i64, Seq<char>), i64>::empty()
}

/// The set-up ends with the index dropped where there is one, with nothing remembered, and with the
/// answer that it is done.
pub proof fn the_setup_ends_with_empty_caches(
    q: CountIndexes,
    svc1: &mut Service,
    counted: Result<i64, DbFailure>,
    r1: Step,
    d: DropIndex,
    svc2: &mut Service,
    dropped: Result<(), DbFailure>,
    r2: Step,
    c: StartCollector,
    r3: Step,
)
    requires
        call_ensures(CountIndexes::resume, (q, svc1, counted), r1),
        call_ensures(DropIndex::resume, (d, svc2, dropped), r2),
        call_ensures(StartCollector::resume, (c,), r3),
    ensures
        final(svc1).rnd == old(svc1).rnd,
        final(svc2).rnd == old(svc2).rnd,
        match counted {
            Err(f) => breaks_off(r1, f) && final(svc1).caches@ == old(svc1).caches@,
            Ok(n) => if n > 0 {
                final(svc1).caches@ == old(svc1).caches@ && (r1 matches Step::DropIndex(i)
                    && i.index == q.index && i.sql@ == "ALTER TABLE "@ + q.table@
                    + " DROP INDEX "@ + (q.index@ + ";"@))
            } else {
                is_empty(final(svc1).caches@) && r1 is StartCollector
            },
        },
        match dropped {
            Err(f) => breaks_off(r2, f) && final(svc2).caches@ == old(svc2).caches@,
            Ok(()) => is_empty(final(svc2).caches@) && r2 is StartCollector,
        },
        r3 == Step::Finish(Ok(Answer::Initialized)),
{
}

/// An organizer's request does in the tenant what a database that was opened for it does.
pub proof fn organizers_begin_their_tasks(
    svc: &Service,
    tenant_id: i64,
    task: OrganizerTask,
    r: Step,
)
    requires
        call_ensures(organize, (svc, tenant_id, task), r),
    ensures
        begins_work(svc.caches@, tenant_id, task, r),
{
    if let OrganizerTask::PlayersAdd(form) = task {
        let places = display_names_are_names(form@);
        assert(are_names(form@, display_names(form@), places));
        assert(adding(tenant_id, display_names(form@), Seq::empty(), r));
    }
}

/// The next name is taken, or all players are inserted.
pub proof fn the_next_name_is_taken(
    tenant_id: i64,
    waiting: Vec<String>,
    items: Vec<NewPlayer>,
    r: Step,
)
    requires
        call_ensures(next_name, (tenant_id, waiting, items), r),
    ensures
        goes_on_adding(tenant_id, waiting@, items@, r),
{
}

/// What was looked up is gone on with, or is not found.
pub proof fn what_was_looked_up_is_worked_on(
    player: Option<PlayerRow>,
    shown: Step,
    tenant_id: i64,
    id: String,
    comp: Option<CompetitionRow>,
    finished: Step,
    goal: ReportGoal,
    billed: Step,
)
    requires
        call_ensures(show_disqualified, (player,), shown),
        call_ensures(finish, (tenant_id, id, comp), finished),
        call_ensures(open_report, (tenant_id, comp, goal), billed),
    ensures
        match player {
            None => is_turned_away(shown, StatusCode::NotFound, "player not found"@),
            Some(p) => shown matches Step::Finish(Ok(Answer::PlayerDisqualified(d)))
                && shows_player(p, d),
        },
        match comp {
            None => is_turned_away(finished, StatusCode::NotFound, "competition not found"@)
                && fails_inside(billed, "error retrieve_competition"@),
            Some(c) => (finished matches Step::ReadClock(k) && k.next == (ClockNext::Finish {
                tenant_id,
                id,
            })) && (billed matches Step::ListVisits(v) && v.tenant_id == tenant_id
                && v.competition == c && v.goal == goal),
        },
{
}

/// The next competition is billed, or the set-up goes on.
pub proof fn the_next_competition_is_billed(
    svc: &Service,
    tenant_id: i64,
    waiting: Vec<String>,
    r: Step,
)
    requires
        call_ensures(next_report, (svc, tenant_id, waiting), r),
    ensures
        bills_next(svc.caches@, tenant_id, waiting@, r),
{
}

/// A tenant's database that is open gets its two indexes.
pub proof fn an_open_database_gets_two_indexes(tenant_id: i64, goal: IndexGoal, r: Step)
    requires
        call_ensures(add_index_to_tenant_db, (tenant_id, goal), r),
    ensures
        adds_first(tenant_id, goal, r),
{
}

} // verus!
