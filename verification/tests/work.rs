use isuports::error::DbFailure;
use isuports::model::{
    BillingReport, CompetitionRow, PlayerRow, PlayerScoreRow, TenantRow, VisitHistorySummaryRow,
};
use isuports::question::{
    Answer, Connect, Connected, Field, InsertTenant, ListTenants, Moment, OrganizerTask,
    PlayerTask, Service, Step,
};
use isuports::setup::initialize;
use isuports::tenant::CommandOutcome;

const AT: Moment = Moment { now: 1000, nanos: 77 };

fn service() -> Service {
    let mut svc = Service::new();
    svc.rnd = 12345;
    svc
}

fn failure(number: Option<u16>) -> DbFailure {
    DbFailure { number, text: "gone".to_string() }
}

fn refused(step: Step) -> (u16, String) {
    match step {
        Step::Finish(Err(e)) => (e.status_code().as_u16(), e.text()),
        _ => panic!("the request goes on"),
    }
}

fn answered(step: Step) -> Answer {
    match step {
        Step::Finish(Ok(answer)) => {
            if answer.complaint().is_none() {
                assert_eq!(answer.status_code().as_u16(), 200);
            }
            answer
        }
        _ => panic!("the request has no answer"),
    }
}

fn gone() -> (u16, String) {
    (500, "SQLx error: gone".to_string())
}

fn tenant(id: i64) -> TenantRow {
    TenantRow {
        id,
        name: format!("t{}", id),
        display_name: format!("Tenant {}", id),
        created_at: 1,
        updated_at: 2,
    }
}

fn player(id: &str, is_disqualified: bool) -> PlayerRow {
    PlayerRow {
        tenant_id: 5,
        id: id.to_string(),
        display_name: format!("Player {}", id),
        is_disqualified,
        created_at: 1,
        updated_at: 2,
    }
}

fn competition(id: &str, finished_at: Option<i64>) -> CompetitionRow {
    CompetitionRow {
        tenant_id: 5,
        id: id.to_string(),
        title: format!("Title {}", id),
        finished_at,
        created_at: 1,
        updated_at: 2,
    }
}

fn score(player: &str, competition: &str, score: i64) -> PlayerScoreRow {
    PlayerScoreRow {
        tenant_id: 5,
        id: "s".to_string(),
        player_id: player.to_string(),
        competition_id: competition.to_string(),
        score,
        row_num: 3,
        created_at: 1,
        updated_at: 2,
    }
}

fn organize(svc: &Service, task: OrganizerTask) -> Step {
    Connect { tenant_id: 5, next: Connected::Organizer(task) }.resume(svc, Ok(()))
}

fn play(svc: &Service, task: PlayerTask) -> Step {
    let next = Connected::Player { task, player_id: "me".to_string() };
    Connect { tenant_id: 5, next }.resume(svc, Ok(()))
}

fn text(s: &str) -> String {
    s.to_string()
}

#[test]
fn a_database_that_cannot_be_opened_fails_the_request() {
    let svc = service();
    let next = Connected::Organizer(OrganizerTask::PlayersList);
    let step = Connect { tenant_id: 5, next }.resume(&svc, Err(failure(None)));
    assert_eq!(refused(step), gone());
}

#[test]
fn a_tenant_is_added_with_its_database_and_indexes() {
    let svc = service();
    let insert = || InsertTenant { name: text("foo"), display_name: text("Foo"), now: 9 };
    let step = insert().resume(Err(failure(Some(1062))));
    assert_eq!(refused(step), (400, text("duplicate tenant")));
    assert_eq!(refused(insert().resume(Err(failure(Some(1061))))), gone());
    assert_eq!(refused(insert().resume(Err(failure(None)))), gone());
    let create = || match insert().resume(Ok(7)) {
        Step::CreateTenantDb(q) => {
            assert_eq!(q.id, 7);
            q
        }
        _ => panic!("the tenant is there"),
    };
    assert_eq!(create().command("d"), "sqlite3 d/7.db < ../sql/tenant/10_schema.sql");
    let step = create().resume("d", CommandOutcome::NotStarted(text("no sh")));
    assert_eq!(
        refused(step),
        (500, text("failed to exec sqlite3 d/7.db < ../sql/tenant/10_schema.sql: no sh"))
    );
    let done = CommandOutcome::Ended { success: true, stdout: Vec::new(), stderr: Vec::new() };
    let mut step = create().resume("d/", done);
    let mut statements: Vec<String> = Vec::new();
    loop {
        step = match step {
            Step::Connect(q) => {
                assert_eq!(q.tenant_id, 7);
                q.resume(&svc, Ok(()))
            }
            Step::AddTenantIndex(q) => {
                statements.push(q.sql.to_string());
                q.resume(Ok(()))
            }
            step => {
                match answered(step) {
                    Answer::TenantsAdd(t) => {
                        assert_eq!((t.id.as_str(), t.name.as_str()), ("7", "foo"));
                        assert_eq!((t.display_name.as_str(), t.billing_yen), ("Foo", 0));
                    }
                    _ => panic!("another answer"),
                }
                break;
            }
        };
    }
    assert_eq!(
        statements,
        vec![
            text("CREATE INDEX tenant_player_idx ON player_score (tenant_id, player_id);"),
            text("CREATE INDEX ranking_idx ON player_score (tenant_id, competition_id, score DESC, row_num);"),
        ]
    );
}

#[test]
fn only_what_is_new_in_a_tenant_gets_an_id() {
    let svc = service();
    for (task, wants_id) in [
        (OrganizerTask::CompetitionsAdd(text("Cup")), true),
        (OrganizerTask::PlayersAdd(vec![(text("display_name[]"), text("Ann"))]), true),
        (OrganizerTask::PlayerDisqualified(text("a")), false),
    ] {
        match organize(&svc, task) {
            Step::ReadClock(q) => assert_eq!(q.wants_id(), wants_id),
            _ => panic!("the clock is read next"),
        }
    }
}

#[test]
fn the_clock_tells_when_a_tenant_is_added() {
    let mut svc = service();
    let next = isuports::question::ClockNext::TenantsAdd {
        name: text("foo"),
        display_name: text("Foo"),
    };
    match (isuports::question::ReadClock { next }).resume(&mut svc, AT) {
        Step::InsertTenant(q) => {
            assert_eq!((q.name.as_str(), q.display_name.as_str(), q.now), ("foo", "Foo", 1000));
        }
        _ => panic!("the tenant is inserted next"),
    }
    assert_eq!(svc.rnd, 12345);
}

#[test]
fn the_billing_overview_sums_up_ten_tenants() {
    let tenants: Vec<TenantRow> = (1..=12).rev().map(tenant).collect();
    let mut step = ListTenants { before: Some(12) }.resume(Ok(tenants));
    let mut asked: Vec<i64> = Vec::new();
    loop {
        step = match step {
            Step::SumBilling(q) => {
                asked.push(q.tenant_id);
                let sum = q.tenant_id * 100;
                q.resume(Ok(sum))
            }
            step => {
                match answered(step) {
                    Answer::TenantsBilling(lines) => {
                        assert_eq!(lines.len(), 10);
                        for (line, id) in lines.iter().zip((2..=11).rev()) {
                            assert_eq!(line.id, id.to_string());
                            assert_eq!(line.name, format!("t{}", id));
                            assert_eq!(line.display_name, format!("Tenant {}", id));
                            assert_eq!(line.billing_yen, id * 100);
                        }
                    }
                    _ => panic!("another answer"),
                }
                break;
            }
        };
    }
    assert_eq!(asked, (2..=11).rev().collect::<Vec<i64>>());
    assert_eq!(refused(ListTenants { before: None }.resume(Err(failure(None)))), gone());
    let tenants: Vec<TenantRow> = (1..=3).rev().map(tenant).collect();
    match answered(ListTenants { before: Some(0) }.resume(Ok(tenants))) {
        Answer::TenantsBilling(lines) => assert_eq!(lines.len(), 0),
        _ => panic!("another answer"),
    }
    match answered(ListTenants { before: None }.resume(Ok(Vec::new()))) {
        Answer::TenantsBilling(lines) => assert_eq!(lines.len(), 0),
        _ => panic!("another answer"),
    }
}

#[test]
fn players_are_listed() {
    let svc = service();
    match organize(&svc, OrganizerTask::PlayersList) {
        Step::ListPlayers(q) => {
            assert_eq!(q.tenant_id, 5);
            match answered(q.resume(Ok(vec![player("a", false), player("b", true)]))) {
                Answer::Players(list) => {
                    assert_eq!(list.len(), 2);
                    assert_eq!((list[0].id.as_str(), list[0].is_disqualified), ("a", false));
                    assert_eq!(list[1].display_name, "Player b");
                    assert!(list[1].is_disqualified);
                }
                _ => panic!("another answer"),
            }
        }
        _ => panic!("the players are listed next"),
    }
}

#[test]
fn every_name_in_the_form_becomes_a_player() {
    let mut svc = service();
    let form = vec![
        (text("display_name[]"), text("Ann")),
        (text("display_name"), text("nobody")),
        (text("other"), text("nobody")),
        (text("display_name[]"), text("Bob")),
        (text("display_name[]"), text("Ann")),
    ];
    let mut step = organize(&svc, OrganizerTask::PlayersAdd(form));
    let mut nanos: u128 = 500;
    loop {
        step = match step {
            Step::ReadClock(q) => {
                nanos += 1;
                q.resume(&mut svc, Moment { now: 1000, nanos })
            }
            Step::InsertPlayers(q) => {
                assert_eq!(q.tenant_id, 5);
                let names: Vec<&str> = q.items.iter().map(|p| p.name.as_str()).collect();
                assert_eq!(names, vec!["Ann", "Bob", "Ann"]);
                assert!(q.items.iter().all(|p| p.now == 1000));
                assert!(q.items[0].id.starts_with("501-"));
                assert!(q.items[2].id.starts_with("503-"));
                q.resume(Ok(()))
            }
            step => {
                match answered(step) {
                    Answer::Players(list) => {
                        assert_eq!(list.len(), 3);
                        assert_eq!(list[0].id, "501-581233");
                        assert_eq!(list[1].display_name, "Bob");
                        assert!(!list[1].is_disqualified);
                        assert!(list[1].id.starts_with("502-"));
                    }
                    _ => panic!("another answer"),
                }
                break;
            }
        };
    }
}

#[test]
fn a_disqualified_player_is_looked_up_again() {
    let mut svc = service();
    svc.caches.keep_player("a", player("a", false));
    let mut ask = |reply: Result<Option<PlayerRow>, DbFailure>, svc: &mut Service| {
        match organize(svc, OrganizerTask::PlayerDisqualified(text("a"))) {
            Step::ReadClock(q) => match q.resume(svc, AT) {
                Step::DisqualifyPlayer(q) => {
                    assert_eq!((q.player_id.as_str(), q.now), ("a", 1000));
                    match q.resume(svc, Ok(())) {
                        Step::FindPlayer(q) => {
                            assert_eq!(q.id, "a");
                            assert!(svc.caches.player("a").is_none());
                            q.resume(svc, reply)
                        }
                        _ => panic!("the player is looked up next"),
                    }
                }
                _ => panic!("the player is marked next"),
            },
            _ => panic!("the clock is read next"),
        }
    };
    match answered(ask(Ok(Some(player("a", true))), &mut svc)) {
        Answer::PlayerDisqualified(p) => assert_eq!((p.id.as_str(), p.is_disqualified), ("a", true)),
        _ => panic!("another answer"),
    }
    assert!(svc.caches.player("a").unwrap().is_disqualified);
    assert_eq!(refused(ask(Ok(None), &mut svc)), (404, text("player not found")));
    assert_eq!(refused(ask(Err(failure(None)), &mut svc)), gone());
}

#[test]
fn a_competition_is_added_unfinished() {
    let mut svc = service();
    match organize(&svc, OrganizerTask::CompetitionsAdd(text("Cup"))) {
        Step::ReadClock(q) => match q.resume(&mut svc, AT) {
            Step::InsertCompetition(q) => {
                assert_eq!(q.id, "77-581233");
                assert_eq!((q.tenant_id, q.title.as_str(), q.now), (5, "Cup", 1000));
                match answered(q.resume(Ok(()))) {
                    Answer::CompetitionsAdd(c) => {
                        assert_eq!((c.id.as_str(), c.title.as_str()), ("77-581233", "Cup"));
                        assert!(!c.is_finished);
                    }
                    _ => panic!("another answer"),
                }
            }
            _ => panic!("the competition is inserted next"),
        },
        _ => panic!("the clock is read next"),
    }
}

#[test]
fn finishing_a_competition_bills_it() {
    let mut svc = service();
    svc.caches.keep_competition(5, "c", competition("c", None));
    let step = organize(&svc, OrganizerTask::CompetitionFinish(text("c")));
    let step = match step {
        Step::ReadClock(q) => q.resume(&mut svc, AT),
        _ => panic!("the clock is read next"),
    };
    let step = match step {
        Step::FinishCompetition(q) => {
            assert_eq!((q.tenant_id, q.id.as_str(), q.now), (5, "c", 1000));
            q.resume(&mut svc, Ok(()))
        }
        _ => panic!("the competition is marked next"),
    };
    assert!(svc.caches.competition(5, "c").is_none());
    let step = match step {
        Step::FindCompetition(q) => {
            assert_eq!((q.tenant_id, q.id.as_str()), (5, "c"));
            q.resume(&mut svc, Ok(Some(competition("c", Some(1000)))))
        }
        _ => panic!("the competition is looked up again"),
    };
    let step = match step {
        Step::ListVisits(q) => {
            assert_eq!((q.tenant_id, q.competition.id.as_str()), (5, "c"));
            q.resume(Ok(vec![
                VisitHistorySummaryRow { player_id: text("v"), min_created_at: 1000 },
                VisitHistorySummaryRow { player_id: text("w"), min_created_at: 1001 },
                VisitHistorySummaryRow { player_id: text("p"), min_created_at: 5 },
            ]))
        }
        _ => panic!("the visits are listed next"),
    };
    let step = match step {
        Step::ListScored(q) => q.resume(Ok(vec![text("p"), text("q")])),
        _ => panic!("the scores are listed next"),
    };
    match step {
        Step::InsertReport(q) => {
            assert_eq!((q.report.player_count, q.report.visitor_count), (2, 1));
            assert_eq!(q.report.billing_yen, 210);
            assert!(matches!(answered(q.resume(&svc, Ok(()))), Answer::CompetitionFinish));
        }
        _ => panic!("the report is inserted next"),
    }
    assert_eq!(svc.caches.competition(5, "c").unwrap().finished_at, Some(1000));
}

#[test]
fn finishing_again_marks_the_competition_and_fails_with_its_report() {
    let mut svc = service();
    svc.caches.keep_competition(5, "c", competition("c", Some(500)));
    let mut step = organize(&svc, OrganizerTask::CompetitionFinish(text("c")));
    let mut marked: Vec<i64> = Vec::new();
    loop {
        step = match step {
            Step::ReadClock(q) => q.resume(&mut svc, AT),
            Step::FinishCompetition(q) => {
                marked.push(q.now);
                q.resume(&mut svc, Ok(()))
            }
            Step::FindCompetition(q) => q.resume(&mut svc, Ok(Some(competition("c", Some(1000))))),
            Step::ListVisits(q) => q.resume(Ok(Vec::new())),
            Step::ListScored(q) => q.resume(Ok(Vec::new())),
            Step::InsertReport(q) => q.resume(&svc, Err(failure(Some(1062)))),
            step => {
                assert_eq!(refused(step), gone());
                break;
            }
        };
    }
    assert_eq!(marked, vec![1000]);
    assert_eq!(svc.caches.competition(5, "c").unwrap().finished_at, Some(1000));
}

#[test]
fn a_competition_that_is_not_there_is_not_found() {
    let mut svc = service();
    for task in [
        OrganizerTask::CompetitionFinish(text("c")),
        OrganizerTask::CompetitionScore(text("c")),
    ] {
        match organize(&svc, task) {
            Step::FindCompetition(q) => {
                assert_eq!(refused(q.resume(&mut svc, Ok(None))), (404, text("competition not found")));
            }
            _ => panic!("the competition is looked up next"),
        }
    }
    match organize(&svc, OrganizerTask::CompetitionFinish(text("c"))) {
        Step::FindCompetition(q) => {
            assert_eq!(refused(q.resume(&mut svc, Err(failure(None)))), gone());
        }
        _ => panic!("the competition is looked up next"),
    }
}

#[test]
fn a_report_on_a_competition_that_vanished_is_an_internal_error() {
    let mut svc = service();
    let q = isuports::question::FinishCompetition { tenant_id: 5, id: text("c"), now: 1 };
    match q.resume(&mut svc, Ok(())) {
        Step::FindCompetition(q) => {
            assert_eq!(refused(q.resume(&mut svc, Ok(None))), (500, text("error retrieve_competition")));
        }
        _ => panic!("the competition is looked up again"),
    }
}

#[test]
fn a_finished_competition_takes_no_scores() {
    let mut svc = service();
    svc.caches.keep_competition(5, "c", competition("c", Some(3)));
    let answer = answered(organize(&svc, OrganizerTask::CompetitionScore(text("c"))));
    assert_eq!(answer.complaint(), Some("competition is finished"));
    assert_eq!(answer.status_code().as_u16(), 400);
    svc.caches.forget_competition(5, "c");
    assert!(matches!(
        organize(&svc, OrganizerTask::CompetitionScore(text("c"))),
        Step::FindCompetition(_)
    ));
}

/// Uploads a table for the competition `c`. The players `a` and `b` are there, and nobody else.
fn upload(svc: &mut Service, data: &[u8]) -> Step {
    svc.caches.keep_competition(5, "c", competition("c", None));
    let step = match organize(svc, OrganizerTask::CompetitionScore(text("c"))) {
        Step::NextField(q) => q.resume(Field::Named(text("other"))),
        _ => panic!("the first field is opened next"),
    };
    let step = match step {
        Step::NextField(q) => q.resume(Field::Named(text("scores"))),
        _ => panic!("the second field is opened next"),
    };
    let mut step = match step {
        Step::ReadField(q) => q.resume(svc, Ok(data.to_vec())),
        _ => panic!("the field is read next"),
    };
    loop {
        step = match step {
            Step::FindPlayer(q) => {
                let reply = if q.id == "a" || q.id == "b" { Some(player(&q.id, false)) } else { None };
                q.resume(svc, Ok(reply))
            }
            Step::ReadClock(q) => q.resume(svc, AT),
            step => return step,
        };
    }
}

#[test]
fn uploaded_scores_replace_those_of_the_competition() {
    let mut svc = service();
    match upload(&mut svc, b"player_id,score\na,10\nb,20\na,30\n") {
        Step::ReplaceScores(q) => {
            assert_eq!((q.tenant_id, q.competition_id.as_str(), q.count), (5, "c", 3));
            let rows: Vec<(&str, i64, i64)> =
                q.rows.iter().map(|r| (r.player_id.as_str(), r.score, r.row_num)).collect();
            assert_eq!(rows, vec![("b", 20, 1), ("a", 30, 2)]);
            assert!(q.rows.iter().all(|r| r.tenant_id == 5 && r.competition_id == "c"));
            assert!(q.rows.iter().all(|r| r.created_at == 1000 && r.updated_at == 1000));
            assert!(q.rows[0].id.starts_with("77-") && q.rows[0].id != q.rows[1].id);
            match answered(q.resume(Ok(()))) {
                Answer::Score { rows } => assert_eq!(rows, 3),
                _ => panic!("another answer"),
            }
        }
        _ => panic!("the scores are replaced next"),
    }
    assert!(svc.caches.player("a").is_some());
    match upload(&mut svc, b"player_id,score\n") {
        Step::ReplaceScores(q) => {
            assert_eq!((q.rows.len(), q.count), (0, 0));
            assert_eq!(refused(q.resume(Err(failure(None)))), gone());
        }
        _ => panic!("the scores are replaced next"),
    }
}

#[test]
fn uploading_the_same_table_again_gives_the_same_rows() {
    let mut svc = service();
    let data = b"player_id,score\na,10\nb,20\na,30\nb,5\n";
    let mut seen: Vec<(i64, Vec<(String, i64, i64)>)> = Vec::new();
    for _ in 0..2 {
        match upload(&mut svc, data) {
            Step::ReplaceScores(q) => seen.push((
                q.count,
                q.rows.iter().map(|r| (r.player_id.clone(), r.score, r.row_num)).collect(),
            )),
            _ => panic!("the scores are replaced next"),
        }
    }
    assert_eq!(seen[0], (4, vec![(text("a"), 30, 2), (text("b"), 5, 3)]));
    assert_eq!(seen[0], seen[1]);
}

#[test]
fn one_bad_record_refuses_the_whole_upload() {
    let mut svc = service();
    assert_eq!(
        refused(upload(&mut svc, b"player_id,score\na,10\nz,20\n")),
        (400, text("player not found: z"))
    );
    assert_eq!(
        refused(upload(&mut svc, b"player_id,score\na,10\nb,x\n")),
        (400, text("error parse: score_str=x, invalid digit found in string"))
    );
    assert_eq!(refused(upload(&mut svc, b"a,10\n")), (400, text("invalid CSV headers")));
    let (status, words) = refused(upload(&mut svc, b"player_id,score\na\n"));
    assert_eq!(status, 500);
    assert!(words.starts_with("CSV error: "));
}

#[test]
fn an_upload_needs_the_scores_field() {
    let mut svc = service();
    svc.caches.keep_competition(5, "c", competition("c", None));
    let open = |svc: &Service| match organize(svc, OrganizerTask::CompetitionScore(text("c"))) {
        Step::NextField(q) => q,
        _ => panic!("the first field is opened next"),
    };
    assert_eq!(refused(open(&svc).resume(Field::End)), (500, text("scores field does not exist")));
    assert_eq!(
        refused(open(&svc).resume(Field::Failed(text("cut off")))),
        (500, text("Multipart error: cut off"))
    );
    match open(&svc).resume(Field::Named(text("scores"))) {
        Step::ReadField(q) => assert_eq!(
            refused(q.resume(&svc, Err(text("cut off")))),
            (500, text("Multipart error: cut off"))
        ),
        _ => panic!("the field is read next"),
    }
}

#[test]
fn a_record_is_taken_from_a_given_table() {
    let svc = service();
    let records = vec![Ok(vec![text("a"), text("1"), text("2")])];
    let step = isuports::upload::take_table(&svc, 5, text("c"), Ok(records));
    assert_eq!(
        refused(step),
        (500, text("row must have tow columns: StringRecord([\"a\", \"1\", \"2\"])"))
    );
    let records = vec![Err(text("cut off"))];
    let step = isuports::upload::take_table(&svc, 5, text("c"), Ok(records));
    assert_eq!(refused(step), (500, text("CSV error: cut off")));
}

#[test]
fn the_reports_of_a_tenant_are_one_for_each_competition() {
    let svc = service();
    match organize(&svc, OrganizerTask::Billing) {
        Step::ListCompetitions(q) => {
            match q.resume(Ok(vec![competition("c", Some(3)), competition("d", None)])) {
                Step::ListReports(q) => {
                    assert_eq!(q.tenant_id, 5);
                    let report = BillingReport {
                        tenant_id: 5,
                        competition_id: text("c"),
                        competition_title: text("Title c"),
                        player_count: 1,
                        visitor_count: 1,
                        billing_player_yen: 100,
                        billing_visitor_yen: 10,
                        billing_yen: 110,
                    };
                    match answered(q.resume(Ok(vec![report]))) {
                        Answer::Billing(list) => {
                            let shown: Vec<(&str, i64)> = list
                                .iter()
                                .map(|r| (r.competition_id.as_str(), r.billing_yen))
                                .collect();
                            assert_eq!(shown, vec![("c", 110), ("d", 0)]);
                        }
                        _ => panic!("another answer"),
                    }
                }
                _ => panic!("the reports are listed next"),
            }
        }
        _ => panic!("the competitions are listed next"),
    }
}

#[test]
fn competitions_are_listed_for_organizers_and_players() {
    let mut svc = service();
    svc.caches.keep_player("me", player("me", false));
    for step in [
        organize(&svc, OrganizerTask::Competitions),
        play(&svc, PlayerTask::Competitions),
    ] {
        match step {
            Step::ListCompetitions(q) => {
                assert_eq!(q.tenant_id, 5);
                match answered(q.resume(Ok(vec![competition("c", Some(3)), competition("d", None)]))) {
                    Answer::Competitions(list) => {
                        assert_eq!((list[0].id.as_str(), list[0].is_finished), ("c", true));
                        assert_eq!((list[1].title.as_str(), list[1].is_finished), ("Title d", false));
                    }
                    _ => panic!("another answer"),
                }
            }
            _ => panic!("the competitions are listed next"),
        }
    }
}

#[test]
fn players_are_let_in_unless_they_are_disqualified() {
    let mut svc = service();
    match play(&svc, PlayerTask::Competitions) {
        Step::FindPlayer(q) => {
            assert_eq!(q.id, "me");
            assert_eq!(refused(q.resume(&mut svc, Ok(None))), (401, text("player not found")));
        }
        _ => panic!("the player is looked up next"),
    }
    match play(&svc, PlayerTask::Competitions) {
        Step::FindPlayer(q) => {
            let step = q.resume(&mut svc, Ok(Some(player("me", true))));
            assert_eq!(refused(step), (403, text("player is disqualified")));
        }
        _ => panic!("the player is looked up next"),
    }
    let step = play(&svc, PlayerTask::Player(text("you")));
    assert_eq!(refused(step), (403, text("player is disqualified")));
}

#[test]
fn the_scores_of_a_player_have_titles() {
    let mut svc = service();
    svc.caches.keep_player("me", player("me", false));
    svc.caches.keep_competition(5, "c", competition("c", None));
    let step = match play(&svc, PlayerTask::Player(text("you"))) {
        Step::FindPlayer(q) => q.resume(&mut svc, Ok(Some(player("you", false)))),
        _ => panic!("the other player is looked up next"),
    };
    let mut step = match step {
        Step::ListScores(q) => {
            assert_eq!((q.tenant_id, q.player.id.as_str()), (5, "you"));
            q.resume(&svc, Ok(vec![
                score("you", "c", 1),
                score("you", "d", 2),
                score("you", "c", 3),
                score("you", "d", 4),
                score("you", "e", 5),
            ]))
        }
        _ => panic!("the scores are listed next"),
    };
    let mut asked: Vec<String> = Vec::new();
    loop {
        step = match step {
            Step::FindCompetition(q) => {
                assert_eq!(q.tenant_id, 5);
                asked.push(q.id.clone());
                let reply = competition(&q.id, None);
                q.resume(&mut svc, Ok(Some(reply)))
            }
            step => {
                match answered(step) {
                    Answer::Player { player, scores } => {
                        assert_eq!(player.id, "you");
                        let shown: Vec<(&str, i64)> = scores
                            .iter()
                            .map(|s| (s.competition_title.as_str(), s.score))
                            .collect();
                        assert_eq!(
                            shown,
                            vec![("Title c", 1), ("Title d", 2), ("Title c", 3), ("Title d", 4), ("Title e", 5)]
                        );
                    }
                    _ => panic!("another answer"),
                }
                break;
            }
        };
    }
    assert_eq!(asked, vec![text("d"), text("e")]);
}

#[test]
fn a_player_who_is_not_there_is_not_found() {
    let mut svc = service();
    svc.caches.keep_player("me", player("me", false));
    match play(&svc, PlayerTask::Player(text("you"))) {
        Step::FindPlayer(q) => {
            assert_eq!(refused(q.resume(&mut svc, Ok(None))), (404, text("player not found")));
        }
        _ => panic!("the other player is looked up next"),
    }
    svc.caches.keep_player("you", player("you", false));
    match play(&svc, PlayerTask::Player(text("you"))) {
        Step::ListScores(q) => match q.resume(&svc, Ok(vec![score("you", "c", 1)])) {
            Step::FindCompetition(q) => {
                assert_eq!(refused(q.resume(&mut svc, Ok(None))), (500, text("error retrieve_competition")));
            }
            _ => panic!("the competition is looked up next"),
        },
        _ => panic!("the scores are listed next"),
    }
}

/// A player's visit to the ranking of `c`, up to the list of scores. Tells whether it was recorded.
fn visit(svc: &mut Service, now: i64, rank_after: Option<i64>) -> (bool, isuports::question::ListRanking) {
    let task = PlayerTask::Ranking { competition_id: text("c"), rank_after };
    let mut step = play(svc, task);
    let mut recorded = false;
    loop {
        step = match step {
            Step::FindCompetition(q) => q.resume(svc, Ok(Some(competition("c", Some(3))))),
            Step::ReadClock(q) => q.resume(svc, Moment { now, nanos: 1 }),
            Step::BeginVisit(q) => q.resume(svc, Ok(())),
            Step::FindTenantById(q) => {
                assert_eq!(q.entry.tenant_id, 5);
                q.resume(svc, Ok(tenant(5)))
            }
            Step::InsertVisit(q) => {
                assert_eq!((q.tenant_id, q.entry.player_id.as_str(), q.now), (5, "me", now));
                recorded = true;
                q.resume(Ok(()))
            }
            Step::CommitVisit(q) => q.resume(Ok(())),
            Step::ListRanking(q) => return (recorded, q),
            _ => panic!("another question"),
        };
    }
}

#[test]
fn a_ranking_is_numbered_from_one() {
    let mut svc = service();
    svc.caches.keep_player("me", player("me", false));
    let (recorded, q) = visit(&mut svc, 100, Some(40));
    assert!(recorded);
    assert_eq!((q.tenant_id, q.competition_id.as_str(), q.rank_after), (5, "c", 40));
    let step = q.resume(&svc, Ok(vec![score("a", "c", 9), score("me", "c", 8), score("b", "c", 7)]));
    let step = match step {
        Step::FindPlayer(q) => {
            assert_eq!(q.id, "a");
            q.resume(&mut svc, Ok(Some(player("a", true))))
        }
        _ => panic!("the first player is looked up next"),
    };
    let step = match step {
        Step::FindPlayer(q) => {
            assert_eq!(q.id, "b");
            q.resume(&mut svc, Ok(Some(player("b", false))))
        }
        _ => panic!("the last player is looked up next"),
    };
    match answered(step) {
        Answer::Ranking { competition, ranks } => {
            assert_eq!((competition.id.as_str(), competition.is_finished), ("c", true));
            let lines: Vec<(i64, i64, &str, &str)> = ranks
                .iter()
                .map(|r| (r.rank, r.score, r.player_id.as_str(), r.player_display_name.as_str()))
                .collect();
            assert_eq!(
                lines,
                vec![(1, 9, "a", "Player a"), (2, 8, "me", "Player me"), (3, 7, "b", "Player b")]
            );
        }
        _ => panic!("another answer"),
    }
}

#[test]
fn a_ranking_page_has_a_hundred_lines() {
    let mut svc = service();
    svc.caches.keep_player("me", player("me", false));
    let (_, q) = visit(&mut svc, 100, None);
    assert_eq!(q.rank_after, 0);
    let rows: Vec<PlayerScoreRow> = (0..130).map(|i| score("me", "c", 1000 - i)).collect();
    match answered(q.resume(&svc, Ok(rows))) {
        Answer::Ranking { ranks, .. } => {
            assert_eq!(ranks.len(), 100);
            assert_eq!((ranks[99].rank, ranks[99].score), (100, 901));
        }
        _ => panic!("another answer"),
    }
    let (_, q) = visit(&mut svc, 100, None);
    match answered(q.resume(&svc, Ok(Vec::new()))) {
        Answer::Ranking { ranks, .. } => assert_eq!(ranks.len(), 0),
        _ => panic!("another answer"),
    }
}

#[test]
fn ranking_pages_list_every_score_once() {
    let mut svc = service();
    svc.caches.keep_player("me", player("me", false));
    let mut scores: Vec<i64> = Vec::new();
    let mut sizes: Vec<usize> = Vec::new();
    loop {
        let (_, q) = visit(&mut svc, 100, Some(scores.len() as i64));
        let offset = q.rank_after as usize;
        let rows: Vec<PlayerScoreRow> =
            (0..250).skip(offset).map(|i| score("me", "c", 1000 - i)).collect();
        match answered(q.resume(&svc, Ok(rows))) {
            Answer::Ranking { ranks, .. } => {
                sizes.push(ranks.len());
                if ranks.is_empty() {
                    break;
                }
                scores.extend(ranks.iter().map(|r| r.score));
            }
            _ => panic!("another answer"),
        }
    }
    assert_eq!(sizes, vec![100, 100, 50, 0]);
    assert_eq!(scores, (0..250).map(|i| 1000 - i).collect::<Vec<i64>>());
}

#[test]
fn a_visit_is_recorded_once() {
    let mut svc = service();
    svc.caches.keep_player("me", player("me", false));
    assert!(visit(&mut svc, 100, None).0);
    assert!(!visit(&mut svc, 100, None).0);
    assert!(!visit(&mut svc, 200, None).0);
    assert!(visit(&mut svc, 50, None).0);
    assert_eq!(svc.caches.tenant(5).unwrap().name, "t5");
}

#[test]
fn a_ranked_player_who_vanished_is_an_internal_error() {
    let mut svc = service();
    svc.caches.keep_player("me", player("me", false));
    let (_, q) = visit(&mut svc, 100, None);
    match q.resume(&svc, Ok(vec![score("a", "c", 9)])) {
        Step::FindPlayer(q) => {
            assert_eq!(refused(q.resume(&mut svc, Ok(None))), (500, text("error retrieve_player")));
        }
        _ => panic!("the player is looked up next"),
    }
}

#[test]
fn a_ranking_of_no_competition_is_not_found() {
    let mut svc = service();
    svc.caches.keep_player("me", player("me", false));
    let task = PlayerTask::Ranking { competition_id: text("c"), rank_after: None };
    match play(&svc, task) {
        Step::FindCompetition(q) => {
            assert_eq!(refused(q.resume(&mut svc, Ok(None))), (404, text("competition not found")));
        }
        _ => panic!("the competition is looked up next"),
    }
}

#[test]
fn the_setup_bills_and_indexes_all_tenants() {
    let mut svc = service();
    svc.caches.keep_player("p", player("p", false));
    let done = || CommandOutcome::Ended { success: true, stdout: Vec::new(), stderr: Vec::new() };
    let mut step = match initialize() {
        Step::RunInitScript(q) => q.resume(done()),
        _ => panic!("the script is run first"),
    };
    let mut statements: Vec<String> = Vec::new();
    let mut billed: Vec<(i64, String)> = Vec::new();
    let mut opened: Vec<i64> = Vec::new();
    let mut indexes: Vec<i64> = Vec::new();
    loop {
        step = match step {
            Step::RunSetup(q) => {
                statements.push(q.sql.to_string());
                q.resume(Ok(()))
            }
            Step::Connect(q) => {
                opened.push(q.tenant_id);
                q.resume(&svc, Ok(()))
            }
            Step::ListForSetup(q) => {
                let comps = if q.tenant_id == 3 {
                    vec![competition("x", Some(9)), competition("y", None), competition("z", Some(8))]
                } else {
                    Vec::new()
                };
                q.resume(&svc, Ok(comps))
            }
            Step::FindCompetition(q) => {
                let reply = competition(&q.id, Some(9));
                q.resume(&mut svc, Ok(Some(reply)))
            }
            Step::ListVisits(q) => q.resume(Ok(Vec::new())),
            Step::ListScored(q) => q.resume(Ok(vec![text("p")])),
            Step::InsertReport(q) => {
                assert_eq!(q.report.billing_yen, 100);
                billed.push((q.report.tenant_id, q.report.competition_id.clone()));
                q.resume(&svc, Ok(()))
            }
            Step::CreateVisitIndex(q) => {
                assert_eq!(
                    q.sql,
                    "CREATE INDEX ranking_idx ON visit_history (tenant_id, competition_id, player_id, created_at);"
                );
                q.resume(Err(failure(Some(1061))))
            }
            Step::AddTenantIndex(q) => {
                indexes.push(q.tenant_id);
                q.resume(Ok(()))
            }
            Step::CountIndexes(q) => {
                assert_eq!((q.table, q.index), ("id_generator", "stub"));
                q.resume(&mut svc, Ok(1))
            }
            Step::DropIndex(q) => {
                assert_eq!(q.index, "stub");
                assert_eq!(q.sql, "ALTER TABLE id_generator DROP INDEX stub;");
                assert!(svc.caches.player("p").is_some());
                q.resume(&mut svc, Ok(()))
            }
            Step::StartCollector(q) => {
                assert!(svc.caches.player("p").is_none());
                q.resume()
            }
            step => {
                assert!(matches!(answered(step), Answer::Initialized));
                break;
            }
        };
    }
    assert_eq!(statements.len(), 8);
    assert_eq!(statements[0], "DROP TABLE IF EXISTS visit_history_tmp;");
    assert!(statements[7].starts_with("CREATE TABLE `billing_report` ("));
    assert_eq!(billed, vec![(3, text("x")), (3, text("z"))]);
    let twice: Vec<i64> = (1..=100).chain(1..=100).collect();
    assert_eq!(opened, twice);
    let pairs: Vec<i64> = (1..=100).flat_map(|id| [id, id]).collect();
    assert_eq!(indexes, pairs);
}

#[test]
fn the_setup_forgets_everything_where_there_is_no_index_to_drop() {
    let mut svc = service();
    svc.caches.keep_player("p", player("p", false));
    let q = isuports::question::CountIndexes { table: "id_generator", index: "stub" };
    assert!(matches!(q.resume(&mut svc, Ok(0)), Step::StartCollector(_)));
    assert!(svc.caches.player("p").is_none());
}

#[test]
fn a_setup_that_fails_is_an_internal_error() {
    let run = || match initialize() {
        Step::RunInitScript(q) => q,
        _ => panic!("the script is run first"),
    };
    assert_eq!(
        refused(run().resume(CommandOutcome::NotStarted(text("no file")))),
        (500, text("error exec command: no file"))
    );
    let outcome =
        CommandOutcome::Ended { success: false, stdout: b"o".to_vec(), stderr: b"e\xff".to_vec() };
    assert_eq!(
        refused(run().resume(outcome)),
        (500, text("error exec command: out=o, err=e\u{fffd}"))
    );
    let q = isuports::question::CreateVisitIndex { sql: "x" };
    assert_eq!(refused(q.resume(Err(failure(Some(1064))))), gone());
    let done = CommandOutcome::Ended { success: true, stdout: Vec::new(), stderr: Vec::new() };
    match run().resume(done) {
        Step::RunSetup(q) => assert_eq!(refused(q.resume(Err(failure(None)))), gone()),
        _ => panic!("the first statement is run next"),
    }
}
