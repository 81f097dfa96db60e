//! What tenants owe. A competition is billed once it is finished: 100 yen for each player with a
//! score, and 10 yen for each player without one who looked at the ranking before the end.
use crate::cache::looked_up;
use crate::list::prefix_filter_grows;
use crate::model::{BillingReport, CompetitionRow, TenantRow, VisitHistorySummaryRow};
use vstd::hash_map::StringHashMap;
use vstd::hash_set::StringHashSet;
use vstd::prelude::*;

verus! {

/// The price of a player with a score.
pub const PLAYER_YEN: i64 = 100;

/// The price of a player who only looked at the ranking.
pub const VISITOR_YEN: i64 = 10;

/// The most tenants that one page of the billing overview shows.
pub const BILLING_PAGE: usize = 10;

/// The ids in a list.
pub open spec fn id_set(ids: Seq<String>) -> Set<Seq<char>> {
    ids.map_values(|id: String| id@).to_set()
}

/// Whether a first visit at `at` was made before the competition ended.
pub open spec fn in_time(at: i64, finished_at: Option<i64>) -> bool {
    match finished_at {
        Some(end) => at <= end,
        None => true,
    }
}

/// The players who looked at the ranking before the competition ended.
pub open spec fn visitor_set(
    visits: Seq<VisitHistorySummaryRow>,
    finished_at: Option<i64>,
) -> Set<Seq<char>> {
    visits.filter(|v: VisitHistorySummaryRow| in_time(v.min_created_at, finished_at)).map_values(
        |v: VisitHistorySummaryRow| v.player_id@,
    ).to_set()
}

/// How many players of a competition are billed as players.
pub open spec fn billed_players(comp: CompetitionRow, scored: Seq<String>) -> nat {
    if comp.finished_at is Some {
        id_set(scored).len()
    } else {
        0
    }
}

/// How many players of a competition are billed as visitors.
pub open spec fn billed_visitors(
    comp: CompetitionRow,
    visits: Seq<VisitHistorySummaryRow>,
    scored: Seq<String>,
) -> nat {
    if comp.finished_at is Some {
        visitor_set(visits, comp.finished_at).difference(id_set(scored)).len()
    } else {
        0
    }
}

/// Whether `r` is what a tenant owes for a competition.
pub open spec fn is_report(
    r: BillingReport,
    tenant_id: i64,
    comp: CompetitionRow,
    visits: Seq<VisitHistorySummaryRow>,
    scored: Seq<String>,
) -> bool {
    &&& r.tenant_id == tenant_id
    &&& r.competition_id == comp.id
    &&& r.competition_title == comp.title
    &&& r.player_count == billed_players(comp, scored)
    &&& r.visitor_count == billed_visitors(comp, visits, scored)
    &&& r.billing_player_yen == 100 * billed_players(comp, scored)
    &&& r.billing_visitor_yen == 10 * billed_visitors(comp, visits, scored)
    &&& r.billing_yen == 100 * billed_players(comp, scored) + 10 * billed_visitors(
        comp,
        visits,
        scored,
    )
}

proof fn prefix_set_grows<A>(s: Seq<A>, i: int)
    requires
        0 <= i < s.len(),
    ensures
        s.take(i + 1).to_set() == s.take(i).to_set().insert(s[i]),
{
    let small = s.take(i);
    let big = s.take(i + 1);
    assert(big =~= small.push(s[i]));
    assert forall|a: A| big.to_set().contains(a) == small.to_set().insert(s[i]).contains(a) by {
        if small.contains(a) {
            let j = choose|j: int| 0 <= j < small.len() && small[j] == a;
            assert(big[j] == a);
        }
        if a == s[i] {
            assert(big[i] == a);
        }
    }
    assert(big.to_set() =~= small.to_set().insert(s[i]));
}

/// The set of the ids in a list.
fn ids_of(ids: &Vec<String>) -> (r: StringHashSet)
    ensures
        r@ == id_set(ids@),
{
    let mut r = StringHashSet::new();
    let mut i: usize = 0;
    let ghost views = ids@.map_values(|id: String| id@);
    assert(r@ =~= views.take(0).to_set());
    while i < ids.len()
        invariant
            i <= ids.len(),
            views == ids@.map_values(|id: String| id@),
            r@ == views.take(i as int).to_set(),
        decreases ids.len() - i,
    {
        r.insert(ids[i].clone());
        proof {
            prefix_set_grows(views, i as int);
        }
        i = i + 1;
    }
    assert(views.take(i as int) =~= views);
    r
}

/// The set of the players who looked at the ranking before the end and who are not in `players`.
fn visitors_of(
    visits: &Vec<VisitHistorySummaryRow>,
    finished_at: Option<i64>,
    players: &StringHashSet,
) -> (r: StringHashSet)
    ensures
        r@ == visitor_set(visits@, finished_at).difference(players@),
{
    let mut r = StringHashSet::new();
    let mut i: usize = 0;
    let ghost keep = |v: VisitHistorySummaryRow| in_time(v.min_created_at, finished_at);
    let ghost id = |v: VisitHistorySummaryRow| v.player_id@;
    proof {
        reveal(Seq::filter);
        assert(visitor_set(visits@.take(0), finished_at) =~= Set::empty());
    }
    while i < visits.len()
        invariant
            i <= visits.len(),
            keep == (|v: VisitHistorySummaryRow| in_time(v.min_created_at, finished_at)),
            id == (|v: VisitHistorySummaryRow| v.player_id@),
            r@ =~= visitor_set(visits@.take(i as int), finished_at).difference(players@),
        decreases visits.len() - i,
    {
        let at: i64 = visits[i].min_created_at;
        let late: bool = match finished_at {
            Some(end) => end < at,
            None => false,
        };
        proof {
            prefix_filter_grows(visits@, keep, i as int);
            let before = visits@.take(i as int).filter(keep);
            let after = visits@.take(i + 1).filter(keep);
            if !late {
                let ids = after.map_values(id);
                assert(ids.take(ids.len() - 1) =~= before.map_values(id));
                assert(ids.take(ids.len() as int) =~= ids);
                prefix_set_grows(ids, ids.len() - 1);
            }
        }
        if !late && !players.contains(visits[i].player_id.as_str()) {
            r.insert(visits[i].player_id.clone());
        }
        i = i + 1;
    }
    assert(visits@.take(i as int) =~= visits@);
    r
}

proof fn counts_are_bounded(
    visits: Seq<VisitHistorySummaryRow>,
    finished_at: Option<i64>,
    scored: Seq<String>,
)
    ensures
        id_set(scored).len() <= scored.len(),
        visitor_set(visits, finished_at).difference(id_set(scored)).len() <= visits.len(),
{
    let keep = |v: VisitHistorySummaryRow| in_time(v.min_created_at, finished_at);
    let id = |v: VisitHistorySummaryRow| v.player_id@;
    scored.map_values(|s: String| s@).lemma_cardinality_of_set();
    assert(visits.filter(keep).len() <= visits.len()) by {
        broadcast use vstd::seq_lib::group_filter_ensures;

    }
    visits.filter(keep).map_values(id).lemma_cardinality_of_set();
    let all = visitor_set(visits, finished_at);
    vstd::set_lib::lemma_len_difference(all, id_set(scored));
    vstd::seq_lib::seq_to_set_is_finite(visits.filter(keep).map_values(id));
}

/// What a tenant owes for a competition, from the first visits to its ranking and the ids of the
/// players with a score.
pub fn billing_report_by_competition(
    tenant_id: i64,
    comp: CompetitionRow,
    visits: &Vec<VisitHistorySummaryRow>,
    scored: &Vec<String>,
) -> (r: BillingReport)
    requires
        100 * scored.len() + 10 * visits.len() <= i64::MAX,
    ensures
        is_report(r, tenant_id, comp, visits@, scored@),
{
    let mut player_count: i64 = 0;
    let mut visitor_count: i64 = 0;
    if comp.finished_at.is_some() {
        let players = ids_of(scored);
        let visitors = visitors_of(visits, comp.finished_at, &players);
        proof {
            counts_are_bounded(visits@, comp.finished_at, scored@);
        }
        player_count = players.len() as i64;
        visitor_count = visitors.len() as i64;
    }
    BillingReport {
        tenant_id,
        competition_id: comp.id,
        competition_title: comp.title,
        player_count,
        visitor_count,
        billing_player_yen: PLAYER_YEN * player_count,
        billing_visitor_yen: VISITOR_YEN * visitor_count,
        billing_yen: PLAYER_YEN * player_count + VISITOR_YEN * visitor_count,
    }
}

/// Whether a tenant belongs on the page of the overview that ends before the id `before`: its id is
/// smaller. Where no `before` is given, every tenant belongs.
pub open spec fn listed_before(t: TenantRow, before: Option<i64>) -> bool {
    match before {
        Some(id) => t.id < id,
        None => true,
    }
}

/// The tenants on a page of the billing overview: the first ten that belong on it.
pub open spec fn billing_page(tenants: Seq<TenantRow>, before: Option<i64>) -> Seq<TenantRow> {
    let listed = tenants.filter(|t: TenantRow| listed_before(t, before));
    listed.take(if listed.len() < BILLING_PAGE {
        listed.len() as int
    } else {
        BILLING_PAGE as int
    })
}

proof fn page_is_full(tenants: Seq<TenantRow>, before: Option<i64>, i: int)
    requires
        0 <= i <= tenants.len(),
        billing_page(tenants.take(i), before).len() == BILLING_PAGE,
    ensures
        billing_page(tenants, before) == billing_page(tenants.take(i), before),
{
    let listed = |t: TenantRow| listed_before(t, before);
    Seq::filter_distributes_over_add(tenants.take(i), tenants.skip(i), listed);
    assert(tenants =~= tenants.take(i) + tenants.skip(i));
    assert(billing_page(tenants, before) =~= billing_page(tenants.take(i), before));
}

/// The tenants on a page of the billing overview.
pub fn tenants_on_page(tenants: &Vec<TenantRow>, before: Option<i64>) -> (r: Vec<TenantRow>)
    ensures
        r@ == billing_page(tenants@, before),
{
    let mut r: Vec<TenantRow> = Vec::new();
    let mut i: usize = 0;
    let ghost listed = |t: TenantRow| listed_before(t, before);
    proof {
        reveal(Seq::filter);
        assert(r@ =~= billing_page(tenants@.take(0), before));
    }
    while i < tenants.len()
        invariant
            i <= tenants.len(),
            listed == (|t: TenantRow| listed_before(t, before)),
            r@ == tenants@.take(i as int).filter(listed),
            r.len() < BILLING_PAGE,
        decreases tenants.len() - i,
    {
        proof {
            prefix_filter_grows(tenants@, listed, i as int);
        }
        let belongs: bool = match before {
            Some(id) => tenants[i].id < id,
            None => true,
        };
        if belongs {
            r.push(tenants[i].clone());
        }
        i = i + 1;
        if r.len() >= BILLING_PAGE {
            proof {
                assert(r@ =~= billing_page(tenants@.take(i as int), before));
                page_is_full(tenants@, before, i as int);
            }
            return r;
        }
    }
    assert(tenants@.take(i as int) =~= tenants@);
    assert(r@ =~= billing_page(tenants@, before));
    r
}

/// The last of the reports on a competition.
pub open spec fn last_report(reports: Seq<BillingReport>, competition_id: Seq<char>) -> Option<
    BillingReport,
>
    decreases reports.len(),
{
    if reports.len() == 0 {
        None
    } else if reports.last().competition_id@ == competition_id {
        Some(reports.last())
    } else {
        last_report(reports.drop_last(), competition_id)
    }
}

/// The report on a competition for which nothing is owed yet.
pub open spec fn nothing_owed(tenant_id: i64, comp: CompetitionRow) -> BillingReport {
    BillingReport {
        tenant_id,
        competition_id: comp.id,
        competition_title: comp.title,
        player_count: 0,
        visitor_count: 0,
        billing_player_yen: 0,
        billing_visitor_yen: 0,
        billing_yen: 0,
    }
}

/// The report shown for a competition: the recorded one, or that nothing is owed yet.
pub open spec fn shown_report(
    tenant_id: i64,
    comp: CompetitionRow,
    reports: Seq<BillingReport>,
) -> BillingReport {
    match last_report(reports, comp.id@) {
        Some(report) => report,
        None => nothing_owed(tenant_id, comp),
    }
}

/// The reports of a tenant, one for each of its competitions, in their order.
pub fn tenant_reports(
    tenant_id: i64,
    comps: Vec<CompetitionRow>,
    reports: &Vec<BillingReport>,
) -> (r: Vec<BillingReport>)
    ensures
        r@ == comps@.map_values(|c: CompetitionRow| shown_report(tenant_id, c, reports@)),
{
    let mut by_id: StringHashMap<BillingReport> = StringHashMap::new();
    let mut i: usize = 0;
    while i < reports.len()
        invariant
            i <= reports.len(),
            forall|id: Seq<char>|
                #[trigger] looked_up(by_id@, id) == last_report(
                    reports@.take(i as int),
                    id,
                ),
        decreases reports.len() - i,
    {
        let ghost known = by_id@;
        by_id.insert(reports[i].competition_id.clone(), reports[i].clone());
        proof {
            let grown = reports@.take(i + 1);
            assert(grown.drop_last() =~= reports@.take(i as int));
            assert forall|id: Seq<char>| #[trigger]
                looked_up(by_id@, id) == last_report(grown, id) by {
                assert(looked_up(known, id) == last_report(grown.drop_last(), id));
            }
        }
        i = i + 1;
    }
    assert(reports@.take(i as int) =~= reports@);
    let mut r: Vec<BillingReport> = Vec::with_capacity(comps.len());
    let mut j: usize = 0;
    while j < comps.len()
        invariant
            j <= comps.len(),
            r.len() == j,
            forall|id: Seq<char>|
                #[trigger] looked_up(by_id@, id) == last_report(reports@, id),
            forall|k: int|
                0 <= k < j ==> #[trigger] r@[k] == shown_report(tenant_id, comps@[k], reports@),
        decreases comps.len() - j,
    {
        assert(looked_up(by_id@, comps@[j as int].id@) == last_report(
            reports@,
            comps@[j as int].id@,
        ));
        match by_id.get(comps[j].id.as_str()) {
            Some(report) => r.push(report.clone()),
            None => r.push(
                BillingReport {
                    tenant_id,
                    competition_id: comps[j].id.clone(),
                    competition_title: comps[j].title.clone(),
                    player_count: 0,
                    visitor_count: 0,
                    billing_player_yen: 0,
                    billing_visitor_yen: 0,
                    billing_yen: 0,
                },
            ),
        }
        j = j + 1;
    }
    assert(r@ =~= comps@.map_values(|c: CompetitionRow| shown_report(tenant_id, c, reports@)));
    r
}

/// A report adds up: players cost 100 yen each, visitors 10, and both together are the total.
pub proof fn reports_add_up(
    r: BillingReport,
    tenant_id: i64,
    comp: CompetitionRow,
    visits: Seq<VisitHistorySummaryRow>,
    scored: Seq<String>,
)
    requires
        is_report(r, tenant_id, comp, visits, scored),
    ensures
        r.billing_player_yen == 100 * r.player_count,
        r.billing_visitor_yen == 10 * r.visitor_count,
        r.billing_yen == r.billing_player_yen + r.billing_visitor_yen,
        r.billing_yen >= 0,
{
}

/// Nothing is owed for a competition that is not finished, whoever took part or looked on.
pub proof fn unfinished_competitions_cost_nothing(
    r: BillingReport,
    tenant_id: i64,
    comp: CompetitionRow,
    visits: Seq<VisitHistorySummaryRow>,
    scored: Seq<String>,
)
    requires
        comp.finished_at is None,
        is_report(r, tenant_id, comp, visits, scored),
    ensures
        r == nothing_owed(tenant_id, comp),
{
}

/// Nobody is billed twice for a finished competition: the players and the visitors of a report are
/// together as many as the people who have a score or looked on in time.
pub proof fn nobody_is_billed_twice(
    r: BillingReport,
    tenant_id: i64,
    comp: CompetitionRow,
    visits: Seq<VisitHistorySummaryRow>,
    scored: Seq<String>,
)
    requires
        comp.finished_at is Some,
        is_report(r, tenant_id, comp, visits, scored),
    ensures
        r.player_count + r.visitor_count == id_set(scored).union(
            visitor_set(visits, comp.finished_at),
        ).len(),
{
    let players = id_set(scored);
    let visitors = visitor_set(visits, comp.finished_at);
    let only = visitors.difference(players);
    vstd::seq_lib::seq_to_set_is_finite(scored.map_values(|id: String| id@));
    visitors_are_finite(visits, comp.finished_at);
    vstd::set_lib::lemma_set_disjoint_lens(players, only);
    assert(players + only =~= players.union(visitors));
}

proof fn visitors_are_finite(visits: Seq<VisitHistorySummaryRow>, finished_at: Option<i64>)
    ensures
        visitor_set(visits, finished_at).finite(),
{
    let keep = |v: VisitHistorySummaryRow| in_time(v.min_created_at, finished_at);
    let id = |v: VisitHistorySummaryRow| v.player_id@;
    vstd::seq_lib::seq_to_set_is_finite(visits.filter(keep).map_values(id));
}

/// Whether a player is among the visitors says no more than that one of the visits is theirs and
/// was made in time.
pub proof fn visitors_visited_in_time(
    visits: Seq<VisitHistorySummaryRow>,
    finished_at: Option<i64>,
    player: Seq<char>,
)
    ensures
        visitor_set(visits, finished_at).contains(player) <==> exists|i: int|
            0 <= i < visits.len() && (#[trigger] visits[i]).player_id@ == player && in_time(
                visits[i].min_created_at,
                finished_at,
            ),
{
    let keep = |v: VisitHistorySummaryRow| in_time(v.min_created_at, finished_at);
    let id = |v: VisitHistorySummaryRow| v.player_id@;
    let kept = visits.filter(keep);
    let ids = kept.map_values(id);
    broadcast use vstd::seq_lib::group_filter_ensures;

    if visitor_set(visits, finished_at).contains(player) {
        let j = choose|j: int| 0 <= j < ids.len() && ids[j] == player;
        assert(kept.contains(kept[j]));
        visits.lemma_filter_contains_rev(keep, kept[j]);
        let i = choose|i: int| 0 <= i < visits.len() && visits[i] == kept[j];
        assert(visits[i].player_id@ == player);
    }
    if exists|i: int|
        0 <= i < visits.len() && (#[trigger] visits[i]).player_id@ == player && in_time(
            visits[i].min_created_at,
            finished_at,
        ) {
        let i = choose|i: int|
            0 <= i < visits.len() && (#[trigger] visits[i]).player_id@ == player && in_time(
                visits[i].min_created_at,
                finished_at,
            );
        assert(keep(visits[i]));
        assert(visits.contains(visits[i]));
        assert(kept.contains(visits[i]));
        let j = choose|j: int| 0 <= j < kept.len() && kept[j] == visits[i];
        assert(ids[j] == player);
    }
}

/// Whether a visit costs nothing beside the visits `others`: its player has a score, it was made
/// after the end, or one of the others is by the same player and no later.
pub open spec fn is_free(
    visit: VisitHistorySummaryRow,
    finished_at: Option<i64>,
    scored: Seq<String>,
    others: Seq<VisitHistorySummaryRow>,
) -> bool {
    ||| id_set(scored).contains(visit.player_id@)
    ||| !in_time(visit.min_created_at, finished_at)
    ||| exists|j: int|
        0 <= j < others.len() && (#[trigger] others[j]).player_id@ == visit.player_id@
            && others[j].min_created_at <= visit.min_created_at
}

/// Whether every visit in a list costs nothing beside the visits `others`.
pub open spec fn all_free(
    visits: Seq<VisitHistorySummaryRow>,
    finished_at: Option<i64>,
    scored: Seq<String>,
    others: Seq<VisitHistorySummaryRow>,
) -> bool {
    forall|i: int|
        0 <= i < visits.len() ==> is_free(#[trigger] visits[i], finished_at, scored, others)
}

/// Two lists of visits lead to the same report where neither has a visit that costs anything beside
/// the other.
pub proof fn only_first_visits_matter(
    r: BillingReport,
    tenant_id: i64,
    comp: CompetitionRow,
    visits1: Seq<VisitHistorySummaryRow>,
    visits2: Seq<VisitHistorySummaryRow>,
    scored: Seq<String>,
)
    requires
        all_free(visits1, comp.finished_at, scored, visits2),
        all_free(visits2, comp.finished_at, scored, visits1),
        is_report(r, tenant_id, comp, visits1, scored),
    ensures
        is_report(r, tenant_id, comp, visits2, scored),
{
    let players = id_set(scored);
    let only1 = visitor_set(visits1, comp.finished_at).difference(players);
    let only2 = visitor_set(visits2, comp.finished_at).difference(players);
    assert forall|p: Seq<char>| only1.contains(p) == only2.contains(p) by {
        if only1.contains(p) {
            visitor_stays(visits1, visits2, comp.finished_at, scored, p);
        }
        if only2.contains(p) {
            visitor_stays(visits2, visits1, comp.finished_at, scored, p);
        }
    }
    assert(only1 =~= only2);
}

proof fn visitor_stays(
    visits1: Seq<VisitHistorySummaryRow>,
    visits2: Seq<VisitHistorySummaryRow>,
    finished_at: Option<i64>,
    scored: Seq<String>,
    player: Seq<char>,
)
    requires
        all_free(visits1, finished_at, scored, visits2),
        visitor_set(visits1, finished_at).contains(player),
        !id_set(scored).contains(player),
    ensures
        visitor_set(visits2, finished_at).contains(player),
{
    visitors_visited_in_time(visits1, finished_at, player);
    visitors_visited_in_time(visits2, finished_at, player);
    let i = choose|i: int|
        0 <= i < visits1.len() && (#[trigger] visits1[i]).player_id@ == player && in_time(
            visits1[i].min_created_at,
            finished_at,
        );
    assert(is_free(visits1[i], finished_at, scored, visits2));
}

/// Any number of further visits change no bill, where each of them is by a player with a score, or
/// after the end, or no earlier than a visit of the same player that is there already.
pub proof fn free_visits_change_nothing(
    r: BillingReport,
    tenant_id: i64,
    comp: CompetitionRow,
    visits: Seq<VisitHistorySummaryRow>,
    more: Seq<VisitHistorySummaryRow>,
    scored: Seq<String>,
)
    requires
        all_free(more, comp.finished_at, scored, visits),
        is_report(r, tenant_id, comp, visits, scored),
    ensures
        is_report(r, tenant_id, comp, visits + more, scored),
{
    let all = visits + more;
    assert forall|i: int| 0 <= i < visits.len() implies is_free(
        #[trigger] visits[i],
        comp.finished_at,
        scored,
        all,
    ) by {
        assert(all[i] == visits[i]);
    }
    assert forall|i: int| 0 <= i < all.len() implies is_free(
        #[trigger] all[i],
        comp.finished_at,
        scored,
        visits,
    ) by {
        if i < visits.len() {
            assert(visits[i].player_id@ == all[i].player_id@);
        } else {
            assert(is_free(more[i - visits.len()], comp.finished_at, scored, visits));
        }
    }
    only_first_visits_matter(r, tenant_id, comp, visits, all, scored);
}

/// The earliest visit of each player is enough: a list that has been thinned out, but still holds
/// for each visit one by the same player that is no later, leads to the same report.
pub proof fn earliest_visits_are_enough(
    r: BillingReport,
    tenant_id: i64,
    comp: CompetitionRow,
    visits: Seq<VisitHistorySummaryRow>,
    thinned: Seq<VisitHistorySummaryRow>,
    scored: Seq<String>,
)
    requires
        forall|i: int| 0 <= i < thinned.len() ==> visits.contains(#[trigger] thinned[i]),
        forall|i: int|
            0 <= i < visits.len() ==> exists|j: int|
                0 <= j < thinned.len() && (#[trigger] thinned[j]).player_id@ == (
                #[trigger] visits[i]).player_id@ && thinned[j].min_created_at
                    <= visits[i].min_created_at,
    ensures
        is_report(r, tenant_id, comp, visits, scored) == is_report(
            r,
            tenant_id,
            comp,
            thinned,
            scored,
        ),
{
    assert forall|i: int| 0 <= i < thinned.len() implies is_free(
        #[trigger] thinned[i],
        comp.finished_at,
        scored,
        visits,
    ) by {
        assert(visits.contains(thinned[i]));
        let j = choose|j: int| 0 <= j < visits.len() && visits[j] == thinned[i];
        assert(visits[j].player_id@ == thinned[i].player_id@);
    }
    assert forall|i: int| 0 <= i < visits.len() implies is_free(
        #[trigger] visits[i],
        comp.finished_at,
        scored,
        thinned,
    ) by {
        let j = choose|j: int|
            0 <= j < thinned.len() && (#[trigger] thinned[j]).player_id@ == visits[i].player_id@
                && thinned[j].min_created_at <= visits[i].min_created_at;
        assert(thinned[j].player_id@ == visits[i].player_id@);
    }
    if is_report(r, tenant_id, comp, visits, scored) {
        only_first_visits_matter(r, tenant_id, comp, visits, thinned, scored);
    }
    if is_report(r, tenant_id, comp, thinned, scored) {
        only_first_visits_matter(r, tenant_id, comp, thinned, visits, scored);
    }
}

/// The order in which visits and scores are listed does not change what is owed.
pub proof fn order_does_not_matter(
    r: BillingReport,
    tenant_id: i64,
    comp: CompetitionRow,
    visits1: Seq<VisitHistorySummaryRow>,
    scored1: Seq<String>,
    visits2: Seq<VisitHistorySummaryRow>,
    scored2: Seq<String>,
)
    requires
        visits1.to_set() == visits2.to_set(),
        scored1.to_set() == scored2.to_set(),
        is_report(r, tenant_id, comp, visits1, scored1),
    ensures
        is_report(r, tenant_id, comp, visits2, scored2),
{
    assert forall|p: Seq<char>|
        visitor_set(visits1, comp.finished_at).contains(p) == visitor_set(
            visits2,
            comp.finished_at,
        ).contains(p) by {
        if visitor_set(visits1, comp.finished_at).contains(p) {
            same_visitors(visits1, visits2, comp.finished_at, p);
        }
        if visitor_set(visits2, comp.finished_at).contains(p) {
            same_visitors(visits2, visits1, comp.finished_at, p);
        }
    }
    assert(visitor_set(visits1, comp.finished_at) =~= visitor_set(visits2, comp.finished_at));
    assert forall|p: Seq<char>| id_set(scored1).contains(p) == id_set(scored2).contains(p) by {
        if id_set(scored1).contains(p) {
            same_ids(scored1, scored2, p);
        }
        if id_set(scored2).contains(p) {
            same_ids(scored2, scored1, p);
        }
    }
    assert(id_set(scored1) =~= id_set(scored2));
}

proof fn same_visitors(
    visits1: Seq<VisitHistorySummaryRow>,
    visits2: Seq<VisitHistorySummaryRow>,
    finished_at: Option<i64>,
    player: Seq<char>,
)
    requires
        visits1.to_set() == visits2.to_set(),
        visitor_set(visits1, finished_at).contains(player),
    ensures
        visitor_set(visits2, finished_at).contains(player),
{
    visitors_visited_in_time(visits1, finished_at, player);
    visitors_visited_in_time(visits2, finished_at, player);
    let i = choose|i: int|
        0 <= i < visits1.len() && (#[trigger] visits1[i]).player_id@ == player && in_time(
            visits1[i].min_created_at,
            finished_at,
        );
    assert(visits1.to_set().contains(visits1[i]));
    assert(visits2.to_set().contains(visits1[i]));
    let j = choose|j: int| 0 <= j < visits2.len() && visits2[j] == visits1[i];
    assert(visits2[j].player_id@ == player);
}

proof fn same_ids(ids1: Seq<String>, ids2: Seq<String>, id: Seq<char>)
    requires
        ids1.to_set() == ids2.to_set(),
        id_set(ids1).contains(id),
    ensures
        id_set(ids2).contains(id),
{
    let texts1 = ids1.map_values(|s: String| s@);
    let texts2 = ids2.map_values(|s: String| s@);
    let i = choose|i: int| 0 <= i < texts1.len() && texts1[i] == id;
    assert(ids1.to_set().contains(ids1[i]));
    assert(ids2.to_set().contains(ids1[i]));
    let j = choose|j: int| 0 <= j < ids2.len() && ids2[j] == ids1[i];
    assert(texts2[j] == id);
}

/// A page of the billing overview shows at most ten tenants, each of them listed and with an id
/// below the one that the page ends before.
pub proof fn pages_are_bounded(tenants: Seq<TenantRow>, before: Option<i64>)
    ensures
        billing_page(tenants, before).len() <= 10,
        forall|i: int|
            0 <= i < billing_page(tenants, before).len() ==> tenants.contains(
                #[trigger] billing_page(tenants, before)[i],
            ) && listed_before(billing_page(tenants, before)[i], before),
{
    broadcast use vstd::seq_lib::group_filter_ensures;

    let keep = |t: TenantRow| listed_before(t, before);
    let listed = tenants.filter(keep);
    assert forall|i: int| 0 <= i < billing_page(tenants, before).len() implies tenants.contains(
        #[trigger] billing_page(tenants, before)[i],
    ) && listed_before(billing_page(tenants, before)[i], before) by {
        assert(listed.contains(listed[i]));
        tenants.lemma_filter_contains_rev(keep, listed[i]);
        assert(keep(listed[i]));
    }
}

/// Whether the ids go down from tenant to tenant.
pub open spec fn ids_descend(tenants: Seq<TenantRow>) -> bool {
    forall|i: int, j: int|
        0 <= i < j < tenants.len() ==> (#[trigger] tenants[i]).id > (#[trigger] tenants[j]).id
}

/// The listed tenants, where the ids go down, are all from some place on.
proof fn listed_tenants_are_the_last(tenants: Seq<TenantRow>, id: i64, k: int)
    requires
        ids_descend(tenants),
        0 <= k <= tenants.len(),
        forall|i: int| 0 <= i < k ==> (#[trigger] tenants[i]).id >= id,
        forall|i: int| k <= i < tenants.len() ==> (#[trigger] tenants[i]).id < id,
    ensures
        tenants.filter(|t: TenantRow| listed_before(t, Some(id))) == tenants.skip(k),
    decreases tenants.len(),
{
    let keep = |t: TenantRow| listed_before(t, Some(id));
    reveal(Seq::filter);
    if tenants.len() == 0 {
        assert(tenants.filter(keep) =~= tenants.skip(k));
    } else {
        let rest = tenants.drop_last();
        let last = tenants.last();
        if k == tenants.len() {
            assert(tenants[k - 1].id >= id);
            listed_tenants_are_the_last(rest, id, k - 1);
            assert(rest.skip(k - 1) =~= tenants.skip(k));
        } else {
            assert(tenants[tenants.len() - 1].id < id);
            listed_tenants_are_the_last(rest, id, k);
            assert(rest.skip(k).push(last) =~= tenants.skip(k));
        }
    }
}

/// Where the ids go down, the listed tenants are all from some place on.
proof fn listed_tenants_start_somewhere(tenants: Seq<TenantRow>, before: Option<i64>) -> (k: int)
    requires
        ids_descend(tenants),
    ensures
        0 <= k <= tenants.len(),
        tenants.filter(|t: TenantRow| listed_before(t, before)) == tenants.skip(k),
{
    match before {
        None => {
            all_listed(tenants);
            assert(tenants.skip(0) =~= tenants);
            0
        },
        Some(id) => {
            let k = first_below(tenants, id, 0);
            listed_tenants_are_the_last(tenants, id, k);
            k
        },
    }
}

proof fn first_below(tenants: Seq<TenantRow>, id: i64, from: int) -> (k: int)
    requires
        ids_descend(tenants),
        0 <= from <= tenants.len(),
        forall|i: int| 0 <= i < from ==> (#[trigger] tenants[i]).id >= id,
    ensures
        from <= k <= tenants.len(),
        forall|i: int| 0 <= i < k ==> (#[trigger] tenants[i]).id >= id,
        forall|i: int| k <= i < tenants.len() ==> (#[trigger] tenants[i]).id < id,
    decreases tenants.len() - from,
{
    if from < tenants.len() && tenants[from].id >= id {
        first_below(tenants, id, from + 1)
    } else {
        from
    }
}

/// The page that ends before the last tenant of a full page goes on where that page stopped, so
/// that going from page to page shows every tenant once. (The tenants are listed from the highest
/// id down.)
pub proof fn pages_follow_one_another(tenants: Seq<TenantRow>, before: Option<i64>)
    requires
        ids_descend(tenants),
        billing_page(tenants, before).len() == 10,
    ensures
        ({
            let listed = tenants.filter(|t: TenantRow| listed_before(t, before));
            let next = billing_page(tenants, Some(billing_page(tenants, before).last().id));
            billing_page(tenants, before) + next == listed.take(
                if listed.len() < 20 {
                    listed.len() as int
                } else {
                    20
                },
            )
        }),
{
    let listed = tenants.filter(|t: TenantRow| listed_before(t, before));
    let k = listed_tenants_start_somewhere(tenants, before);
    let last = billing_page(tenants, before).last();
    assert(last == tenants[k + 9]);
    listed_tenants_are_the_last(tenants, last.id, k + 10);
    let next = billing_page(tenants, Some(last.id));
    assert(tenants.skip(k + 10) =~= listed.skip(10));
    assert(billing_page(tenants, before) + next =~= listed.take(
        if listed.len() < 20 {
            listed.len() as int
        } else {
            20
        },
    ));
}

proof fn all_listed(tenants: Seq<TenantRow>)
    ensures
        tenants.filter(|t: TenantRow| listed_before(t, None)) == tenants,
    decreases tenants.len(),
{
    reveal(Seq::filter);
    if tenants.len() > 0 {
        all_listed(tenants.drop_last());
        assert(tenants.drop_last().push(tenants.last()) =~= tenants);
    }
}

/// The report that is shown for a competition is a report on that competition.
pub proof fn shown_reports_are_on_their_competitions(
    tenant_id: i64,
    comp: CompetitionRow,
    reports: Seq<BillingReport>,
)
    ensures
        shown_report(tenant_id, comp, reports).competition_id@ == comp.id@,
        reports.contains(shown_report(tenant_id, comp, reports)) || shown_report(
            tenant_id,
            comp,
            reports,
        ) == nothing_owed(tenant_id, comp),
{
    last_report_is_on_its_competition(reports, comp.id@);
}

proof fn last_report_is_on_its_competition(reports: Seq<BillingReport>, id: Seq<char>)
    ensures
        last_report(reports, id) matches Some(r) ==> r.competition_id@ == id && reports.contains(r),
    decreases reports.len(),
{
    if reports.len() > 0 {
        last_report_is_on_its_competition(reports.drop_last(), id);
        assert(reports[reports.len() - 1] == reports.last());
        let earlier = reports.drop_last();
        if last_report(earlier, id) is Some {
            let r = last_report(earlier, id)->0;
            let i = choose|i: int| 0 <= i < earlier.len() && earlier[i] == r;
            assert(reports[i] == r);
        }
    }
}

} // verus!
