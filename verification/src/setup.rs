//! The set-up of the service: the databases are reset, finished competitions are billed, indexes
//! are created, and what was remembered is forgotten.
use crate::admin::LAST_INITIAL_TENANT;
use crate::cache::{looked_up, nothing_remembered, Remembered};
use crate::db::{
    create_index_if_not_exists, drop_statement, drop_unique_index_if_exists, is_there_already,
};
use crate::error::{joined, DbFailure, Error, Failure};
use crate::list::{prefix_pick_grows, pushed_pick_grows};
use crate::model::CompetitionRow;
use crate::question::{
    fails, Answer, CompetitionNext, Connect, Connected, CountIndexes, CreateVisitIndex, DropIndex,
    FindCompetition, IndexGoal, ListForSetup, ListVisits, ReportGoal, RunInitScript, RunSetup,
    Service, SetupReports, StartCollector, Step,
};
use crate::tenant::{show_output, shown_output, CommandOutcome};
use vstd::prelude::*;

verus! {

/// The script that resets the databases.
pub const INITIALIZE_SCRIPT: &'static str = "../sql/init.sh";

/// Clears away the table of first visits that an interrupted set-up may have left.
pub const DROP_OLD_VISITS: &'static str = "DROP TABLE IF EXISTS visit_history_tmp;";

/// Makes an empty table for the first of each player's visits to a ranking.
pub const CREATE_FIRST_VISITS: &'static str =
    "create table visit_history_tmp as select * from visit_history where 1=2;";

/// Picks the first of each player's visits to a ranking.
pub const SELECT_FIRST_VISITS: &'static str =
    "INSERT into visit_history_tmp select player_id, tenant_id, competition_id,
  min(created_at) as created_at, min(updated_at) as updated_at
  from visit_history group by player_id, tenant_id, competition_id;";

/// Removes all visits.
pub const EMPTY_VISITS: &'static str = "truncate visit_history;";

/// Puts the first visits back.
pub const KEEP_FIRST_VISITS: &'static str =
    "INSERT INTO visit_history select * FROM visit_history_tmp;";

/// Removes the table of first visits.
pub const DROP_FIRST_VISITS: &'static str = "DROP TABLE visit_history_tmp;";

/// Removes the billing reports.
pub const DROP_REPORTS: &'static str = "DROP TABLE IF EXISTS `billing_report`;";

/// Makes an empty table of billing reports.
pub const CREATE_REPORTS: &'static str = "CREATE TABLE `billing_report` (
  `tenant_id` BIGINT NOT NULL,
  `competition_id` VARCHAR(255) NOT NULL,
  `competition_title` VARCHAR(255) NOT NULL,
  `player_count` BIGINT NOT NULL,
  `visitor_count` BIGINT NOT NULL,
  `billing_player_yen` BIGINT NOT NULL,
  `billing_visitor_yen` BIGINT NOT NULL,
  `billing_yen` BIGINT NOT NULL,
  PRIMARY KEY(`tenant_id`, `competition_id`)
) ENGINE=InnoDB DEFAULT CHARACTER SET=utf8mb4;";

/// The index that visits are found by.
pub const VISIT_INDEX: &'static str =
    "CREATE INDEX ranking_idx ON visit_history (tenant_id, competition_id, player_id, created_at);";

/// The statements that the set-up runs on the administration database, in their order.
pub open spec fn setup_statements() -> Seq<&'static str> {
    seq![
        DROP_OLD_VISITS,
        CREATE_FIRST_VISITS,
        SELECT_FIRST_VISITS,
        EMPTY_VISITS,
        KEEP_FIRST_VISITS,
        DROP_FIRST_VISITS,
        DROP_REPORTS,
        CREATE_REPORTS,
    ]
}

/// Starts the set-up.
pub fn initialize() -> (r: Step)
    ensures
        r is RunInitScript,
{
    Step::RunInitScript(RunInitScript {  })
}

/// What follows while some statements of the set-up are left. After the last one the tenants are
/// gone through, from the first.
pub open spec fn setting_up(left: Seq<&'static str>, r: Step) -> bool {
    if left.len() == 0 {
        r == Step::Connect(Connect { tenant_id: 1, next: Connected::Setup })
    } else {
        r matches Step::RunSetup(q) && q.sql == left[0] && q.rest@ == left.skip(1)
    }
}

fn next_statement(left: Vec<&'static str>) -> (r: Step)
    ensures
        setting_up(left@, r),
{
    let mut left = left;
    if left.len() == 0 {
        return Step::Connect(Connect { tenant_id: 1, next: Connected::Setup });
    }
    let ghost whole = left@;
    let sql = left.remove(0);
    assert(left@ =~= whole.skip(1));
    Step::RunSetup(RunSetup { sql, rest: left })
}

impl RunInitScript {
    /// Takes how the script went.
    pub fn resume(self, outcome: CommandOutcome) -> (r: Step)
        ensures
            match outcome {
                CommandOutcome::NotStarted(cause) => fails(
                    r,
                    Failure::Internal("error exec command: "@ + cause@),
                ),
                CommandOutcome::Ended { success, stdout, stderr } => if success {
                    setting_up(setup_statements(), r)
                } else {
                    fails(
                        r,
                        Failure::Internal(
                            "error exec command: "@ + shown_output(stdout@, stderr@),
                        ),
                    )
                },
            },
    {
        match outcome {
            CommandOutcome::NotStarted(cause) => Step::Finish(
                Err(Error::Internal(joined("error exec command: ", cause.as_str()))),
            ),
            CommandOutcome::Ended { success, stdout, stderr } => {
                if success {
                    let mut left: Vec<&'static str> = Vec::new();
                    left.push(DROP_OLD_VISITS);
                    left.push(CREATE_FIRST_VISITS);
                    left.push(SELECT_FIRST_VISITS);
                    left.push(EMPTY_VISITS);
                    left.push(KEEP_FIRST_VISITS);
                    left.push(DROP_FIRST_VISITS);
                    left.push(DROP_REPORTS);
                    left.push(CREATE_REPORTS);
                    assert(left@ =~= setup_statements());
                    next_statement(left)
                } else {
                    let output = show_output(&stdout, &stderr);
                    Step::Finish(
                        Err(Error::Internal(joined("error exec command: ", output.as_str()))),
                    )
                }
            },
        }
    }
}

impl RunSetup {
    /// Takes whether the statement was run.
    pub fn resume(self, reply: Result<(), DbFailure>) -> (r: Step)
        ensures
            match reply {
                Err(f) => fails(r, Failure::Sqlx(f.text@)),
                Ok(()) => setting_up(self.rest@, r),
            },
    {
        match reply {
            Err(f) => Step::Finish(Err(f.into_error())),
            Ok(()) => next_statement(self.rest),
        }
    }
}

/// The ids of the competitions that are finished, in their order.
pub open spec fn finished_ids(comps: Seq<CompetitionRow>) -> Seq<String> {
    comps.filter(|c: CompetitionRow| c.finished_at is Some).map_values(|c: CompetitionRow| c.id)
}

fn ids_of_finished(comps: &Vec<CompetitionRow>) -> (r: Vec<String>)
    ensures
        r@ == finished_ids(comps@),
{
    let ghost keep = |c: CompetitionRow| c.finished_at is Some;
    let ghost pick = |c: CompetitionRow| c.id;
    let mut r: Vec<String> = Vec::new();
    let mut i: usize = 0;
    proof {
        reveal(Seq::filter);
        assert(finished_ids(comps@.take(0)) =~= Seq::empty());
    }
    while i < comps.len()
        invariant
            i <= comps.len(),
            keep == (|c: CompetitionRow| c.finished_at is Some),
            pick == (|c: CompetitionRow| c.id),
            r@ == comps@.take(i as int).filter(keep).map_values(pick),
        decreases comps.len() - i,
    {
        proof {
            prefix_pick_grows(comps@, keep, pick, i as int);
        }
        if comps[i].finished_at.is_some() {
            r.push(comps[i].id.clone());
        }
        i += 1;
    }
    assert(comps@.take(i as int) =~= comps@);
    r
}

/// What follows while some finished competitions of a tenant are left to be billed. After the last
/// of them comes the next tenant, and after the last tenant the index of the visits.
pub open spec fn reporting(m: Remembered, tenant_id: i64, waiting: Seq<String>, r: Step) -> bool {
    if waiting.len() == 0 {
        if tenant_id < 100 {
            r == Step::Connect(
                Connect { tenant_id: (tenant_id + 1) as i64, next: Connected::Setup },
            )
        } else {
            r matches Step::CreateVisitIndex(q) && q.sql == VISIT_INDEX
        }
    } else {
        match looked_up(m.competitions, (tenant_id, waiting[0]@)) {
            Some(c) => r matches Step::ListVisits(q) && q.tenant_id == tenant_id && q.competition
                == c && (q.goal matches ReportGoal::Setup(s) && s.tenant_id == tenant_id
                && s.waiting@ == waiting.skip(1)),
            None => r matches Step::FindCompetition(q) && q.tenant_id == tenant_id && q.id
                == waiting[0] && (q.next matches CompetitionNext::Report(ReportGoal::Setup(s))
                && s.tenant_id == tenant_id && s.waiting@ == waiting.skip(1)),
        }
    }
}

/// Goes on to the next finished competition of a tenant.
pub fn next_report(svc: &Service, tenant_id: i64, waiting: Vec<String>) -> (r: Step)
    ensures
        reporting(svc.caches@, tenant_id, waiting@, r),
{
    let mut waiting = waiting;
    if waiting.len() == 0 {
        if tenant_id < LAST_INITIAL_TENANT {
            return Step::Connect(Connect { tenant_id: tenant_id + 1, next: Connected::Setup });
        }
        return Step::CreateVisitIndex(CreateVisitIndex { sql: VISIT_INDEX });
    }
    let ghost whole = waiting@;
    let id = waiting.remove(0);
    assert(waiting@ =~= whole.skip(1));
    let goal = ReportGoal::Setup(SetupReports { tenant_id, waiting });
    match svc.caches.competition(tenant_id, id.as_str()) {
        Some(competition) => Step::ListVisits(ListVisits { tenant_id, competition, goal }),
        None => Step::FindCompetition(
            FindCompetition { tenant_id, id, next: CompetitionNext::Report(goal) },
        ),
    }
}

impl ListForSetup {
    /// Takes the competitions of the tenant, or the failure of the database.
    pub fn resume(self, svc: &Service, reply: Result<Vec<CompetitionRow>, DbFailure>) -> (r: Step)
        ensures
            match reply {
                Err(f) => fails(r, Failure::Sqlx(f.text@)),
                Ok(comps) => reporting(
                    svc.caches@,
                    self.tenant_id,
                    finished_ids(comps@),
                    r,
                ),
            },
    {
        match reply {
            Err(f) => Step::Finish(Err(f.into_error())),
            Ok(comps) => next_report(svc, self.tenant_id, ids_of_finished(&comps)),
        }
    }
}

impl CreateVisitIndex {
    /// Takes whether the index was created. One that is there already will do.
    pub fn resume(self, reply: Result<(), DbFailure>) -> (r: Step)
        ensures
            if reply matches Err(f) && !is_there_already(f) {
                fails(r, Failure::Sqlx(reply->Err_0.text@))
            } else {
                r == Step::Connect(
                    Connect { tenant_id: 1, next: Connected::Indexes(IndexGoal::Setup) },
                )
            },
    {
        match create_index_if_not_exists(reply) {
            Err(f) => Step::Finish(Err(f.into_error())),
            Ok(()) => Step::Connect(
                Connect { tenant_id: 1, next: Connected::Indexes(IndexGoal::Setup) },
            ),
        }
    }
}

impl CountIndexes {
    /// Takes how many indexes there are of that name, or the failure of the database. Where there
    /// is none to drop, the caches are emptied.
    pub fn resume(self, svc: &mut Service, reply: Result<i64, DbFailure>) -> (r: Step)
        ensures
            final(svc).rnd == old(svc).rnd,
            match reply {
                Err(f) => final(svc).caches@ == old(svc).caches@ && fails(
                    r,
                    Failure::Sqlx(f.text@),
                ),
                Ok(count) => if count > 0 {
                    final(svc).caches@ == old(svc).caches@ && (r matches Step::DropIndex(q)
                        && q.index == self.index && q.sql@ == drop_statement(
                        self.table@,
                        self.index@,
                    ))
                } else {
                    final(svc).caches@ == nothing_remembered() && r is StartCollector
                },
            },
    {
        match reply {
            Err(f) => Step::Finish(Err(f.into_error())),
            Ok(count) => match drop_unique_index_if_exists(self.table, self.index, count) {
                Some(sql) => Step::DropIndex(DropIndex { index: self.index, sql }),
                None => {
                    svc.caches.clear();
                    Step::StartCollector(StartCollector {  })
                },
            },
        }
    }
}

impl DropIndex {
    /// Takes whether the index was dropped. Then the caches are emptied.
    pub fn resume(self, svc: &mut Service, reply: Result<(), DbFailure>) -> (r: Step)
        ensures
            final(svc).rnd == old(svc).rnd,
            match reply {
                Err(f) => final(svc).caches@ == old(svc).caches@ && fails(
                    r,
                    Failure::Sqlx(f.text@),
                ),
                Ok(()) => final(svc).caches@ == nothing_remembered() && r is StartCollector,
            },
    {
        match reply {
            Err(f) => Step::Finish(Err(f.into_error())),
            Ok(()) => {
                svc.caches.clear();
                Step::StartCollector(StartCollector {  })
            },
        }
    }
}

impl StartCollector {
    /// Ends the set-up, whether or not the collector was reached.
    pub fn resume(self) -> (r: Step)
        ensures
            r == Step::Finish(Ok(Answer::Initialized)),
    {
        Step::Finish(Ok(Answer::Initialized))
    }
}

/// The set-up goes on from tenant to tenant up to the last of the initial ones, and then to the
/// index of the visits.
pub proof fn setup_goes_through_the_initial_tenants(m: Remembered, tenant_id: i64, r: Step)
    requires
        1 <= tenant_id <= LAST_INITIAL_TENANT,
        reporting(m, tenant_id, Seq::empty(), r),
    ensures
        match r {
            Step::Connect(q) => q.tenant_id == tenant_id + 1 && q.tenant_id
                <= LAST_INITIAL_TENANT && q.next is Setup,
            Step::CreateVisitIndex(_) => tenant_id == LAST_INITIAL_TENANT,
            _ => false,
        },
{
}

/// A competition is billed in the set-up if, and only if, it is finished.
pub proof fn setup_bills_what_is_finished(comps: Seq<CompetitionRow>, c: CompetitionRow)
    ensures
        finished_ids(comps.push(c)) == (if c.finished_at is Some {
            finished_ids(comps).push(c.id)
        } else {
            finished_ids(comps)
        }),
{
    pushed_pick_grows(
        comps,
        |x: CompetitionRow| x.finished_at is Some,
        |x: CompetitionRow| x.id,
        c,
    );
}

} // verus!
