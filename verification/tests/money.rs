use isuports::billing::{billing_report_by_competition, tenant_reports, tenants_on_page};
use isuports::model::{BillingReport, CompetitionRow, TenantRow, VisitHistorySummaryRow};

fn competition(id: &str, finished_at: Option<i64>) -> CompetitionRow {
    CompetitionRow {
        tenant_id: 5,
        id: id.to_string(),
        title: format!("title of {}", id),
        finished_at,
        created_at: 1,
        updated_at: 2,
    }
}

fn visit(player: &str, at: i64) -> VisitHistorySummaryRow {
    VisitHistorySummaryRow { player_id: player.to_string(), min_created_at: at }
}

fn ids(list: &[&str]) -> Vec<String> {
    list.iter().map(|id| id.to_string()).collect()
}

fn tenant(id: i64) -> TenantRow {
    TenantRow {
        id,
        name: format!("t{}", id),
        display_name: format!("Tenant {}", id),
        created_at: 0,
        updated_at: 0,
    }
}

fn page(tenants: &Vec<TenantRow>, before: Option<i64>) -> Vec<i64> {
    tenants_on_page(tenants, before).iter().map(|t| t.id).collect()
}

#[test]
fn players_cost_a_hundred_and_visitors_ten() {
    let visits = vec![visit("a", 10), visit("b", 20), visit("c", 30), visit("d", 31)];
    let report =
        billing_report_by_competition(5, competition("c1", Some(30)), &visits, &ids(&["a", "x"]));
    assert_eq!(report.tenant_id, 5);
    assert_eq!(report.competition_id, "c1");
    assert_eq!(report.competition_title, "title of c1");
    assert_eq!(report.player_count, 2);
    assert_eq!(report.visitor_count, 2);
    assert_eq!(report.billing_player_yen, 200);
    assert_eq!(report.billing_visitor_yen, 20);
    assert_eq!(report.billing_yen, 220);
}

#[test]
fn unfinished_competitions_are_free() {
    let visits = vec![visit("a", 10)];
    let report = billing_report_by_competition(5, competition("c1", None), &visits, &ids(&["b"]));
    assert_eq!(report.player_count, 0);
    assert_eq!(report.visitor_count, 0);
    assert_eq!(report.billing_yen, 0);
}

#[test]
fn looking_again_costs_nothing_more() {
    for visits in [
        vec![visit("a", 10)],
        vec![visit("a", 10), visit("a", 20)],
        vec![visit("a", 10), visit("a", 40), visit("b", 50)],
    ] {
        let comp = competition("c1", Some(30));
        let report = billing_report_by_competition(5, comp, &visits, &ids(&["b"]));
        assert_eq!((report.player_count, report.visitor_count), (1, 1));
        assert_eq!(report.billing_yen, 110);
    }
}

#[test]
fn the_earliest_visits_are_enough() {
    let all = vec![visit("a", 20), visit("a", 10), visit("b", 40), visit("b", 30), visit("c", 31)];
    let thinned = vec![visit("a", 10), visit("b", 30), visit("c", 31)];
    for visits in [all, thinned] {
        let comp = competition("c1", Some(30));
        let report = billing_report_by_competition(5, comp, &visits, &ids(&["x"]));
        assert_eq!((report.player_count, report.visitor_count), (1, 2));
        assert_eq!(report.billing_yen, 120);
    }
}

#[test]
fn a_visit_at_the_very_end_is_in_time() {
    let comp = competition("c1", Some(30));
    let report = billing_report_by_competition(5, comp, &vec![visit("a", 30)], &ids(&[]));
    assert_eq!(report.visitor_count, 1);
    let comp = competition("c1", Some(30));
    let report = billing_report_by_competition(5, comp, &vec![visit("a", 31)], &ids(&[]));
    assert_eq!(report.visitor_count, 0);
}

#[test]
fn nobody_is_counted_twice() {
    let visits = vec![visit("a", 1), visit("a", 2), visit("b", 3)];
    let comp = competition("c1", Some(30));
    let report = billing_report_by_competition(5, comp, &visits, &ids(&["b", "b"]));
    assert_eq!(report.player_count, 1);
    assert_eq!(report.visitor_count, 1);
    assert_eq!(report.billing_yen, 110);
}

#[test]
fn the_order_of_visits_and_scores_does_not_matter() {
    let one = billing_report_by_competition(
        5,
        competition("c1", Some(30)),
        &vec![visit("a", 1), visit("b", 40), visit("c", 3)],
        &ids(&["x", "y"]),
    );
    let other = billing_report_by_competition(
        5,
        competition("c1", Some(30)),
        &vec![visit("c", 3), visit("a", 1), visit("b", 40)],
        &ids(&["y", "x"]),
    );
    assert_eq!(one.billing_yen, 220);
    assert_eq!(other.billing_yen, one.billing_yen);
    assert_eq!(other.player_count, one.player_count);
    assert_eq!(other.visitor_count, one.visitor_count);
}

#[test]
fn a_page_has_ten_tenants_and_the_next_goes_on() {
    let tenants: Vec<TenantRow> = (1..=25).rev().map(tenant).collect();
    assert_eq!(page(&tenants, None), (16..=25).rev().collect::<Vec<i64>>());
    assert_eq!(page(&tenants, Some(0)), Vec::<i64>::new());
    assert_eq!(page(&tenants, Some(-5)), Vec::<i64>::new());
    assert_eq!(page(&tenants, Some(16)), (6..=15).rev().collect::<Vec<i64>>());
    assert_eq!(page(&tenants, Some(6)), (1..=5).rev().collect::<Vec<i64>>());
    assert_eq!(page(&tenants, Some(1)), Vec::<i64>::new());
    assert_eq!(page(&Vec::new(), None), Vec::<i64>::new());
    let around_zero: Vec<TenantRow> = (-2..=2).rev().map(tenant).collect();
    assert_eq!(page(&around_zero, Some(0)), vec![-1, -2]);
}

#[test]
fn each_competition_has_its_last_report_or_owes_nothing() {
    let report = |id: &str, yen: i64| BillingReport {
        tenant_id: 5,
        competition_id: id.to_string(),
        competition_title: "t".to_string(),
        player_count: 1,
        visitor_count: 0,
        billing_player_yen: yen,
        billing_visitor_yen: 0,
        billing_yen: yen,
    };
    let comps = vec![competition("c1", Some(3)), competition("c2", None), competition("c3", Some(4))];
    let shown = tenant_reports(5, comps, &vec![report("c3", 300), report("c1", 100), report("c3", 400)]);
    assert_eq!(shown.len(), 3);
    assert_eq!((shown[0].competition_id.as_str(), shown[0].billing_yen), ("c1", 100));
    assert_eq!((shown[1].competition_id.as_str(), shown[1].billing_yen), ("c2", 0));
    assert_eq!(shown[1].competition_title, "title of c2");
    assert_eq!((shown[2].competition_id.as_str(), shown[2].billing_yen), ("c3", 400));
}
