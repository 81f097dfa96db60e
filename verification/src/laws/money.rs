//! What is owed, and what is told of it.
use crate::billing::{
    billing_page, billing_report_by_competition, id_set, in_time, is_report, last_report,
    listed_before, tenant_reports, tenants_on_page, visitor_set, visitors_visited_in_time,
};
use crate::error::DbFailure;
use crate::laws::outcome::breaks_off;
use crate::laws::words::{is_decimal, signed_decimals_are_decimal};
use crate::list::filter_places;
use crate::model::{
    BillingReport, CompetitionRow, TenantRow, TenantWithBilling, VisitHistorySummaryRow,
};
use crate::question::{
    Answer, ListReports, ListScored, ListTenants, ListVisits, Step, SumBilling,
};
use vstd::prelude::*;

verus! {

/// The players with a score.
pub open spec fn who_scored(scored: Seq<String>) -> Set<Seq<char>> {
    Set::new(|p: Seq<char>| exists|j: int| 0 <= j < scored.len() && (#[trigger] scored[j])@ == p)
}

/// The players without a score whom some visit up to `end` belongs to.
pub open spec fn who_only_looked(
    visits: Seq<VisitHistorySummaryRow>,
    end: i64,
    scored: Seq<String>,
) -> Set<Seq<char>> {
    Set::new(
        |p: Seq<char>|
            (exists|i: int|
                0 <= i < visits.len() && (#[trigger] visits[i]).player_id@ == p
                    && visits[i].min_created_at <= end) && !(exists|j: int|
                0 <= j < scored.len() && (#[trigger] scored[j])@ == p),
    )
}

/// Whether this is the bill for a competition. For a finished one, each player with a score costs
/// 100 yen, and each player without one who has a visit up to the very end costs 10. One that goes
/// on costs nothing.
pub open spec fn is_bill(
    r: BillingReport,
    tenant_id: i64,
    comp: CompetitionRow,
    visits: Seq<VisitHistorySummaryRow>,
    scored: Seq<String>,
) -> bool {
    &&& r.tenant_id == tenant_id
    &&& r.competition_id == comp.id
    &&& r.competition_title == comp.title
    &&& comp.finished_at is None ==> r.player_count == 0 && r.visitor_count == 0
    &&& comp.finished_at matches Some(end) ==> r.player_count == who_scored(scored).len()
        && r.visitor_count == who_only_looked(visits, end, scored).len()
    &&& r.billing_player_yen == 100 * r.player_count
    &&& r.billing_visitor_yen == 10 * r.visitor_count
    &&& r.billing_yen == 100 * r.player_count + 10 * r.visitor_count
}

proof fn reports_are_bills(
    r: BillingReport,
    tenant_id: i64,
    comp: CompetitionRow,
    visits: Seq<VisitHistorySummaryRow>,
    scored: Seq<String>,
)
    requires
        is_report(r, tenant_id, comp, visits, scored),
    ensures
        is_bill(r, tenant_id, comp, visits, scored),
{
    if comp.finished_at is Some {
        reports_count_people(r, tenant_id, comp, visits, scored);
    }
}

proof fn reports_count_people(
    r: BillingReport,
    tenant_id: i64,
    comp: CompetitionRow,
    visits: Seq<VisitHistorySummaryRow>,
    scored: Seq<String>,
)
    requires
        is_report(r, tenant_id, comp, visits, scored),
        comp.finished_at is Some,
    ensures
        r.player_count == who_scored(scored).len(),
        r.visitor_count == who_only_looked(visits, comp.finished_at->0, scored).len(),
{
    let end = comp.finished_at->0;
    let texts = scored.map_values(|id: String| id@);
    assert forall|p: Seq<char>| id_set(scored).contains(p) == who_scored(scored).contains(p) by {
        if id_set(scored).contains(p) {
            let j = choose|j: int| 0 <= j < texts.len() && texts[j] == p;
            assert(scored[j]@ == p);
        }
        if who_scored(scored).contains(p) {
            let j = choose|j: int| 0 <= j < scored.len() && (#[trigger] scored[j])@ == p;
            assert(texts[j] == p);
        }
    }
    assert(id_set(scored) =~= who_scored(scored));
    let only = visitor_set(visits, comp.finished_at).difference(id_set(scored));
    assert forall|p: Seq<char>| only.contains(p) == who_only_looked(visits, end, scored).contains(
        p,
    ) by {
        visitors_visited_in_time(visits, comp.finished_at, p);
        assert(who_scored(scored).contains(p) == exists|j: int|
            0 <= j < scored.len() && (#[trigger] scored[j])@ == p);
        if only.contains(p) {
            let i = choose|i: int|
                0 <= i < visits.len() && (#[trigger] visits[i]).player_id@ == p && in_time(
                    visits[i].min_created_at,
                    comp.finished_at,
                );
            assert(visits[i].player_id@ == p && visits[i].min_created_at <= end);
        }
        if who_only_looked(visits, end, scored).contains(p) {
            let i = choose|i: int|
                0 <= i < visits.len() && (#[trigger] visits[i]).player_id@ == p
                    && visits[i].min_created_at <= end;
            assert(in_time(visits[i].min_created_at, comp.finished_at));
        }
    }
    assert(only =~= who_only_looked(visits, end, scored));
}

/// For a finished competition, each player with a score costs 100 yen, and each player without one
/// who has a visit up to the very end costs 10. Everybody counts once.
pub proof fn a_finished_competition_is_billed_by_the_head(
    tenant_id: i64,
    comp: CompetitionRow,
    visits: &Vec<VisitHistorySummaryRow>,
    scored: &Vec<String>,
    r: BillingReport,
)
    requires
        comp.finished_at is Some,
        call_ensures(billing_report_by_competition, (tenant_id, comp, visits, scored), r),
    ensures
        r.tenant_id == tenant_id,
        r.competition_id == comp.id,
        r.competition_title == comp.title,
        r.player_count == who_scored(scored@).len(),
        r.visitor_count == who_only_looked(visits@, comp.finished_at->0, scored@).len(),
        r.billing_player_yen == 100 * r.player_count,
        r.billing_visitor_yen == 10 * r.visitor_count,
        r.billing_yen == 100 * r.player_count + 10 * r.visitor_count,
{
    reports_count_people(r, tenant_id, comp, visits@, scored@);
}

/// A competition that goes on costs nothing.
pub proof fn a_running_competition_is_free(
    tenant_id: i64,
    comp: CompetitionRow,
    visits: &Vec<VisitHistorySummaryRow>,
    scored: &Vec<String>,
    r: BillingReport,
)
    requires
        comp.finished_at is None,
        call_ensures(billing_report_by_competition, (tenant_id, comp, visits, scored), r),
    ensures
        r.tenant_id == tenant_id,
        r.competition_id == comp.id,
        r.competition_title == comp.title,
        r.player_count == 0,
        r.visitor_count == 0,
        r.billing_player_yen == 0,
        r.billing_visitor_yen == 0,
        r.billing_yen == 0,
{
}

/// The visits that were told go on, all of them, with the competition and the tenant that are
/// billed.
pub proof fn all_visits_that_were_told_count(
    q: ListVisits,
    reply: Result<Vec<VisitHistorySummaryRow>, DbFailure>,
    r: Step,
)
    requires
        call_ensures(ListVisits::resume, (q, reply), r),
    ensures
        match reply {
            Err(f) => breaks_off(r, f),
            Ok(visits) => r matches Step::ListScored(s) && s.tenant_id == q.tenant_id
                && s.competition == q.competition && s.visits == visits && s.goal == q.goal,
        },
{
}

/// A competition is billed by the visits and the scores that the databases told, all of them, and
/// nothing is billed where the scores could not be told.
pub proof fn the_bill_is_made_of_what_was_told(
    q: ListScored,
    reply: Result<Vec<String>, DbFailure>,
    r: Step,
)
    requires
        call_ensures(ListScored::resume, (q, reply), r),
    ensures
        match reply {
            Err(f) => breaks_off(r, f),
            Ok(scored) => r matches Step::InsertReport(i) && i.goal == q.goal && is_bill(
                i.report,
                q.tenant_id,
                q.competition,
                q.visits@,
                scored@,
            ),
        },
{
    if let Ok(scored) = reply {
        reports_are_bills(
            r->InsertReport_0.report,
            q.tenant_id,
            q.competition,
            q.visits@,
            scored@,
        );
    }
}

/// Whether a tenant's id is below `before`, where that is given.
pub open spec fn comes_below(t: TenantRow, before: Option<i64>) -> bool {
    before is Some ==> t.id < before->0
}

/// A page of the billing overview holds the first ten of the tenants whose id is below `before`, or
/// of all tenants, and nobody else: `places` are theirs in the list.
pub open spec fn is_page(
    tenants: Seq<TenantRow>,
    before: Option<i64>,
    page: Seq<TenantRow>,
    places: Seq<int>,
) -> bool {
    &&& places.len() == page.len() <= 10
    &&& forall|k: int|
        0 <= k < page.len() ==> 0 <= #[trigger] places[k] < tenants.len() && page[k]
            == tenants[places[k]] && comes_below(page[k], before)
    &&& forall|j: int, k: int|
        0 <= j < k < places.len() ==> #[trigger] places[j] < #[trigger] places[k]
    &&& forall|i: int|
        0 <= i < tenants.len() && #[trigger] comes_below(tenants[i], before) ==> places.contains(
            i,
        ) || (page.len() == 10 && places[9] < i)
}

proof fn pages_are_pages(tenants: Seq<TenantRow>, before: Option<i64>) -> (places: Seq<int>)
    ensures
        is_page(tenants, before, billing_page(tenants, before), places),
{
    let keep = |t: TenantRow| listed_before(t, before);
    let page = billing_page(tenants, before);
    let all = filter_places(tenants, keep);
    let places = all.take(page.len() as int);
    assert forall|k: int| 0 <= k < page.len() implies 0 <= #[trigger] places[k] < tenants.len()
        && page[k] == tenants[places[k]] && comes_below(page[k], before) by {
        assert(places[k] == all[k]);
        assert(keep(tenants[all[k]]));
    }
    assert forall|i: int|
        0 <= i < tenants.len() && #[trigger] comes_below(
            tenants[i],
            before,
        ) implies places.contains(i) || (page.len() == 10 && places[9] < i) by {
        assert(keep(tenants[i]));
        let k = choose|k: int| 0 <= k < all.len() && all[k] == i;
        if k < page.len() {
            assert(places[k] == i);
        } else {
            assert(all[9] < all[k]);
        }
    }
    places
}

/// The page of the billing overview.
pub proof fn the_overview_lists_the_first_ten(
    tenants: &Vec<TenantRow>,
    before: Option<i64>,
    r: Vec<TenantRow>,
)
    requires
        call_ensures(tenants_on_page, (tenants, before), r),
    ensures
        exists|places: Seq<int>| is_page(tenants@, before, r@, places),
{
    let places = pages_are_pages(tenants@, before);
    assert(is_page(tenants@, before, r@, places));
}

/// Whether the lines of the overview tell the sums that came back, each beside its tenant.
pub open spec fn tells_sums(
    page: Seq<TenantRow>,
    sums: Seq<i64>,
    lines: Seq<TenantWithBilling>,
) -> bool {
    &&& lines.len() == page.len()
    &&& forall|i: int|
        0 <= i < lines.len() ==> (#[trigger] lines[i]).billing_yen == sums[i] && lines[i].name
            == page[i].name && lines[i].display_name == page[i].display_name
            && is_decimal(lines[i].id@, page[i].id as int)
}

/// Listing the tenants leads to the page: its first tenant's sum is asked for, and where it is
/// empty nobody is shown.
pub proof fn the_overview_starts_with_its_page(
    q: ListTenants,
    reply: Result<Vec<TenantRow>, DbFailure>,
    r: Step,
)
    requires
        call_ensures(ListTenants::resume, (q, reply), r),
    ensures
        match reply {
            Err(f) => breaks_off(r, f),
            Ok(tenants) => match r {
                Step::SumBilling(s) => s.sums@.len() == 0 && s.page@.len() > 0 && s.tenant_id
                    == s.page@[0].id && exists|places: Seq<int>|
                    is_page(tenants@, q.before, s.page@, places),
                Step::Finish(Ok(Answer::TenantsBilling(lines))) => lines@.len() == 0
                    && exists|places: Seq<int>|
                    is_page(tenants@, q.before, Seq::empty(), places),
                _ => false,
            },
        },
{
    if reply is Ok {
        let tenants = reply->Ok_0@;
        let page = billing_page(tenants, q.before);
        let places = pages_are_pages(tenants, q.before);
        assert(is_page(tenants, q.before, page, places));
        if page.len() == 0 {
            assert(page =~= Seq::empty());
        }
    }
}

/// The sum that comes back is that of the tenant that was asked about: it joins the sums so far,
/// then the next tenant of the page is asked about, and once all sums are there each line tells the
/// sum of its tenant, whatever it is.
pub proof fn the_overview_tells_the_sums_that_came_back(
    q: SumBilling,
    reply: Result<i64, DbFailure>,
    r: Step,
)
    requires
        call_ensures(SumBilling::resume, (q, reply), r),
    ensures
        match reply {
            Err(f) => breaks_off(r, f),
            Ok(sum) => match r {
                Step::SumBilling(s) => s.page@ == q.page@ && s.sums@ == q.sums@ + seq![sum]
                    && s.sums@.len() < s.page@.len() && s.tenant_id
                    == s.page@[s.sums@.len() as int].id,
                Step::Finish(Ok(Answer::TenantsBilling(lines))) => q.page@.len()
                    <= q.sums@.len() + 1 && tells_sums(q.page@, q.sums@ + seq![sum], lines@),
                _ => false,
            },
        },
{
    if reply is Ok {
        let sum = reply->Ok_0;
        assert(q.sums@.push(sum) =~= q.sums@ + seq![sum]);
        if let Step::Finish(Ok(Answer::TenantsBilling(lines))) = r {
            assert forall|i: int| 0 <= i < lines@.len() implies (
            #[trigger] lines@[i]).billing_yen == (q.sums@ + seq![sum])[i] && lines@[i].name
                == q.page@[i].name && lines@[i].display_name == q.page@[i].display_name
                && is_decimal(lines@[i].id@, q.page@[i].id as int) by {
                signed_decimals_are_decimal(q.page@[i].id as int);
            }
        }
    }
}

/// Whether a report is the last of those on a competition.
pub open spec fn is_last_report(
    reports: Seq<BillingReport>,
    competition_id: Seq<char>,
    r: BillingReport,
) -> bool {
    exists|k: int|
        0 <= k < reports.len() && #[trigger] reports[k] == r && r.competition_id@ == competition_id
            && forall|j: int|
            k < j < reports.len() ==> (#[trigger] reports[j]).competition_id@ != competition_id
}

proof fn last_reports_are_last(reports: Seq<BillingReport>, competition_id: Seq<char>)
    ensures
        match last_report(reports, competition_id) {
            Some(r) => is_last_report(reports, competition_id, r),
            None => forall|j: int|
                0 <= j < reports.len() ==> (#[trigger] reports[j]).competition_id@
                    != competition_id,
        },
    decreases reports.len(),
{
    if reports.len() > 0 {
        let rest = reports.drop_last();
        last_reports_are_last(rest, competition_id);
        let n = reports.len() - 1;
        if reports[n].competition_id@ == competition_id {
            assert(reports[n] == reports.last());
            assert(is_last_report(reports, competition_id, reports[n]));
        } else if last_report(rest, competition_id) is Some {
            let r = last_report(rest, competition_id)->0;
            let k = choose|k: int|
                0 <= k < rest.len() && #[trigger] rest[k] == r && r.competition_id@
                    == competition_id && forall|j: int|
                    k < j < rest.len() ==> (#[trigger] rest[j]).competition_id@
                        != competition_id;
            assert(reports[k] == r);
            assert forall|j: int| k < j < reports.len() implies (
            #[trigger] reports[j]).competition_id@ != competition_id by {
                if j < n {
                    assert(rest[j].competition_id@ != competition_id);
                }
            }
        } else {
            assert forall|j: int| 0 <= j < reports.len() implies (
            #[trigger] reports[j]).competition_id@ != competition_id by {
                if j < n {
                    assert(rest[j].competition_id@ != competition_id);
                }
            }
        }
    }
}

/// Whether a shown report is the last one recorded on its competition, unchanged, or says that
/// nothing is owed where none is recorded.
pub open spec fn shows_what_is_recorded(
    tenant_id: i64,
    comp: CompetitionRow,
    reports: Seq<BillingReport>,
    shown: BillingReport,
) -> bool {
    if exists|j: int|
        0 <= j < reports.len() && (#[trigger] reports[j]).competition_id@ == comp.id@ {
        is_last_report(reports, comp.id@, shown)
    } else {
        &&& shown.tenant_id == tenant_id
        &&& shown.competition_id == comp.id
        &&& shown.competition_title == comp.title
        &&& shown.player_count == 0
        &&& shown.visitor_count == 0
        &&& shown.billing_player_yen == 0
        &&& shown.billing_visitor_yen == 0
        &&& shown.billing_yen == 0
    }
}

/// A tenant is shown one report for each of its competitions, in their order.
pub proof fn every_competition_has_its_report(
    tenant_id: i64,
    comps: Vec<CompetitionRow>,
    reports: &Vec<BillingReport>,
    r: Vec<BillingReport>,
)
    requires
        call_ensures(tenant_reports, (tenant_id, comps, reports), r),
    ensures
        r@.len() == comps@.len(),
        forall|i: int|
            0 <= i < r@.len() ==> shows_what_is_recorded(
                tenant_id,
                comps@[i],
                reports@,
                #[trigger] r@[i],
            ),
{
    assert forall|i: int| 0 <= i < r@.len() implies shows_what_is_recorded(
        tenant_id,
        comps@[i],
        reports@,
        #[trigger] r@[i],
    ) by {
        last_reports_are_last(reports@, comps@[i].id@);
    }
}

/// An organizer is answered with one report for each of the tenant's competitions, in their order.
pub proof fn the_answer_holds_every_report(
    q: ListReports,
    reply: Result<Vec<BillingReport>, DbFailure>,
    r: Step,
)
    requires
        call_ensures(ListReports::resume, (q, reply), r),
    ensures
        match reply {
            Err(f) => breaks_off(r, f),
            Ok(reports) => r matches Step::Finish(Ok(Answer::Billing(list))) && list@.len()
                == q.competitions@.len() && forall|i: int|
                0 <= i < list@.len() ==> shows_what_is_recorded(
                    q.tenant_id,
                    q.competitions@[i],
                    reports@,
                    #[trigger] list@[i],
                ),
        },
{
    if reply is Ok {
        let reports = reply->Ok_0@;
        if let Step::Finish(Ok(Answer::Billing(list))) = r {
            assert forall|i: int| 0 <= i < list@.len() implies shows_what_is_recorded(
                q.tenant_id,
                q.competitions@[i],
                reports,
                #[trigger] list@[i],
            ) by {
                last_reports_are_last(reports, q.competitions@[i].id@);
            }
        }
    }
}

} // verus!
