//! What is remembered.
use crate::cache::{Caches, Remembered};
use crate::laws::access::only_names_differ;
use crate::laws::board::only_visits_differ;
use crate::laws::work::{is_empty, only_competitions_differ, only_players_differ};
use crate::model::{BillingReport, CompetitionRow, PlayerRow, TenantRow};
use crate::question::{Config, Service};
use vstd::prelude::*;

verus! {

/// New caches and cleared ones hold nothing, and a new service remembers nothing and has no seed.
pub proof fn nothing_is_remembered_at_first(
    new: Caches,
    cleared: &mut Caches,
    done: (),
    svc: Service,
)
    requires
        call_ensures(Caches::new, (), new),
        call_ensures(Caches::clear, (cleared,), done),
        call_ensures(Service::new, (), svc),
    ensures
        is_empty(new@),
        is_empty(final(cleared)@),
        is_empty(svc.caches@),
        svc.rnd == 0,
{
}

/// What is remembered is given as it is, and nothing else is.
pub proof fn what_is_remembered_is_given(
    caches: &Caches,
    id: &str,
    player: Option<PlayerRow>,
    tenant_id: i64,
    competition: Option<CompetitionRow>,
    tenant: Option<TenantRow>,
    named: Option<TenantRow>,
)
    requires
        call_ensures(Caches::player, (caches, id), player),
        call_ensures(Caches::competition, (caches, tenant_id, id), competition),
        call_ensures(Caches::tenant, (caches, tenant_id), tenant),
        call_ensures(Caches::tenant_named, (caches, id), named),
    ensures
        player is Some <==> caches@.players.contains_key(id@),
        player matches Some(p) ==> p == caches@.players[id@],
        competition is Some <==> caches@.competitions.contains_key((tenant_id, id@)),
        competition matches Some(c) ==> c == caches@.competitions[(tenant_id, id@)],
        tenant is Some <==> caches@.tenants.contains_key(tenant_id),
        tenant matches Some(t) ==> t == caches@.tenants[tenant_id],
        named is Some <==> caches@.tenant_names.contains_key(id@),
        named matches Some(t) ==> t == caches@.tenant_names[id@],
{
}

/// Whether everything is remembered as before but for the tenants.
pub open spec fn only_tenants_differ(before: Remembered, after: Remembered) -> bool {
    &&& after.players == before.players
    &&& after.competitions == before.competitions
    &&& after.tenant_names == before.tenant_names
    &&& after.visits == before.visits
}

/// What is kept is remembered under its key, and nothing else changes.
pub proof fn what_is_kept_is_remembered(
    c1: &mut Caches,
    c2: &mut Caches,
    c3: &mut Caches,
    c4: &mut Caches,
    id: &str,
    tenant_id: i64,
    player: PlayerRow,
    competition: CompetitionRow,
    tenant: TenantRow,
    done: (),
)
    requires
        call_ensures(Caches::keep_player, (c1, id, player), done),
        call_ensures(Caches::keep_competition, (c2, tenant_id, id, competition), done),
        call_ensures(Caches::keep_tenant, (c3, tenant_id, tenant), done),
        call_ensures(Caches::keep_tenant_named, (c4, id, tenant), done),
    ensures
        only_players_differ(old(c1)@, final(c1)@),
        final(c1)@.players == old(c1)@.players.insert(id@, player),
        only_competitions_differ(old(c2)@, final(c2)@),
        final(c2)@.competitions == old(c2)@.competitions.insert((tenant_id, id@), competition),
        only_tenants_differ(old(c3)@, final(c3)@),
        final(c3)@.tenants == old(c3)@.tenants.insert(tenant_id, tenant),
        only_names_differ(old(c4)@, final(c4)@),
        final(c4)@.tenant_names == old(c4)@.tenant_names.insert(id@, tenant),
{
}

/// What is forgotten is no longer remembered, and everything else is.
pub proof fn what_is_forgotten_is_gone(
    c1: &mut Caches,
    c2: &mut Caches,
    id: &str,
    tenant_id: i64,
    done: (),
)
    requires
        call_ensures(Caches::forget_player, (c1, id), done),
        call_ensures(Caches::forget_competition, (c2, tenant_id, id), done),
    ensures
        only_players_differ(old(c1)@, final(c1)@),
        final(c1)@.players == old(c1)@.players.remove(id@),
        only_competitions_differ(old(c2)@, final(c2)@),
        final(c2)@.competitions == old(c2)@.competitions.remove((tenant_id, id@)),
{
}

/// A visit is news where none at its time or earlier is noted, and then it is noted with its time.
pub proof fn news_of_visits_are_noted(
    caches: &mut Caches,
    player_id: &str,
    tenant_id: i64,
    competition_id: &str,
    now: i64,
    r: bool,
)
    requires
        call_ensures(Caches::note_visit, (caches, player_id, tenant_id, competition_id, now), r),
    ensures
        only_visits_differ(old(caches)@, final(caches)@),
        ({
            let key = (player_id@, tenant_id, competition_id@);
            let noted = old(caches)@.visits;
            &&& r <==> !(noted.contains_key(key) && noted[key] <= now)
            &&& r ==> final(caches)@.visits == noted.insert(key, now)
            &&& !r ==> final(caches)@.visits == noted
        }),
{
}

/// A copy is the same.
pub proof fn copies_are_the_same(
    tenant: &TenantRow,
    t: TenantRow,
    player: &PlayerRow,
    p: PlayerRow,
    competition: &CompetitionRow,
    c: CompetitionRow,
    report: &BillingReport,
    b: BillingReport,
    config: &Config,
    s: Config,
)
    requires
        call_ensures(TenantRow::clone, (tenant,), t),
        call_ensures(PlayerRow::clone, (player,), p),
        call_ensures(CompetitionRow::clone, (competition,), c),
        call_ensures(BillingReport::clone, (report,), b),
        call_ensures(Config::clone, (config,), s),
    ensures
        t == *tenant,
        p == *player,
        c == *competition,
        b == *report,
        s == *config,
{
}

} // verus!
