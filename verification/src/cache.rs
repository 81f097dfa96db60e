//! The rows that the service remembers between requests.
use crate::model::{CompetitionRow, PlayerRow, TenantRow};
use crate::text::{
    decimal, decimal_is_digits, decimal_is_injective, decimal_text, signed_decimal,
    signed_decimal_is_injective, signed_decimal_text, split_is_unique,
};
use std::collections::HashMap;
use vstd::hash_map::StringHashMap;
use vstd::prelude::*;
use vstd::string::StrSliceExecFns;
use vstd::string::StringExecFns;

verus! {

/// What the caches hold: players by their id, competitions by their tenant and their id, tenants
/// by their id and by their name, and for each player, tenant and competition the time of the
/// earliest visit that was noted.
pub ghost struct Remembered {
    pub players: Map<Seq<char>, PlayerRow>,
    pub competitions: Map<(i64, Seq<char>), CompetitionRow>,
    pub tenants: Map<i64, TenantRow>,
    pub tenant_names: Map<Seq<char>, TenantRow>,
    pub visits: Map<(Seq<char>, i64, Seq<char>), i64>,
}

/// The value that a map gives for a key.
pub open spec fn looked_up<K, V>(m: Map<K, V>, k: K) -> Option<V> {
    if m.contains_key(k) {
        Some(m[k])
    } else {
        None
    }
}

/// The text under which a competition is filed.
pub open spec fn competition_key(tenant_id: i64, id: Seq<char>) -> Seq<char> {
    signed_decimal(tenant_id as int).push(':') + id
}

/// The text under which a visit is filed.
pub open spec fn visit_key(player_id: Seq<char>, tenant_id: i64, competition_id: Seq<char>) -> Seq<
    char,
> {
    signed_decimal(tenant_id as int).push(':') + (decimal(player_id.len()).push(':') + (player_id
        + competition_id))
}

/// No two competitions are filed under the same text.
proof fn competition_key_is_injective(t1: i64, id1: Seq<char>, t2: i64, id2: Seq<char>)
    requires
        competition_key(t1, id1) == competition_key(t2, id2),
    ensures
        t1 == t2,
        id1 == id2,
{
    signed_decimal_has_no_colon(t1 as int);
    signed_decimal_has_no_colon(t2 as int);
    split_is_unique(signed_decimal(t1 as int), id1, ':', signed_decimal(t2 as int), id2);
    signed_decimal_is_injective(t1 as int, t2 as int);
}

/// No two visits are filed under the same text.
proof fn visit_key_is_injective(
    p1: Seq<char>,
    t1: i64,
    c1: Seq<char>,
    p2: Seq<char>,
    t2: i64,
    c2: Seq<char>,
)
    requires
        visit_key(p1, t1, c1) == visit_key(p2, t2, c2),
    ensures
        p1 == p2,
        t1 == t2,
        c1 == c2,
{
    let rest1 = decimal(p1.len()).push(':') + (p1 + c1);
    let rest2 = decimal(p2.len()).push(':') + (p2 + c2);
    competition_key_is_injective(t1, rest1, t2, rest2);
    decimal_is_digits(p1.len());
    decimal_is_digits(p2.len());
    split_is_unique(decimal(p1.len()), p1 + c1, ':', decimal(p2.len()), p2 + c2);
    decimal_is_injective(p1.len(), p2.len());
    let both = p1 + c1;
    assert(p1 =~= both.take(p1.len() as int));
    assert(p2 =~= both.take(p1.len() as int));
    assert(c1 =~= both.skip(p1.len() as int));
    assert(c2 =~= both.skip(p1.len() as int));
}

proof fn signed_decimal_has_no_colon(i: int)
    ensures
        !signed_decimal(i).contains(':'),
{
    decimal_is_digits(if i < 0 {
        (-i) as nat
    } else {
        i as nat
    });
}

fn competition_key_text(tenant_id: i64, id: &str) -> (r: String)
    ensures
        r@ == competition_key(tenant_id, id@),
{
    let mut r = signed_decimal_text(tenant_id);
    proof {
        reveal_strlit(":");
    }
    r.append(":");
    assert(r@ =~= signed_decimal(tenant_id as int).push(':'));
    r.append(id);
    r
}

fn visit_key_text(player_id: &str, tenant_id: i64, competition_id: &str) -> (r: String)
    ensures
        r@ == visit_key(player_id@, tenant_id, competition_id@),
{
    let size: usize = player_id.unicode_len();
    let mut rest = decimal_text(size as u128);
    proof {
        reveal_strlit(":");
    }
    rest.append(":");
    assert(rest@ =~= decimal(player_id@.len()).push(':'));
    rest.append(player_id);
    rest.append(competition_id);
    assert(rest@ =~= decimal(player_id@.len()).push(':') + (player_id@ + competition_id@));
    competition_key_text(tenant_id, rest.as_str())
}

/// The rows that the service remembers between requests.
pub struct Caches {
    players: StringHashMap<PlayerRow>,
    competitions: StringHashMap<CompetitionRow>,
    tenants: HashMap<i64, TenantRow>,
    tenant_names: StringHashMap<TenantRow>,
    visits: StringHashMap<i64>,
}

impl View for Caches {
    type V = Remembered;

    closed spec fn view(&self) -> Remembered {
        Remembered {
            players: self.players@,
            competitions: Map::new(
                |k: (i64, Seq<char>)| self.competitions@.contains_key(competition_key(k.0, k.1)),
                |k: (i64, Seq<char>)| self.competitions@[competition_key(k.0, k.1)],
            ),
            tenants: self.tenants@,
            tenant_names: self.tenant_names@,
            visits: Map::new(
                |k: (Seq<char>, i64, Seq<char>)|
                    self.visits@.contains_key(visit_key(k.0, k.1, k.2)),
                |k: (Seq<char>, i64, Seq<char>)| self.visits@[visit_key(k.0, k.1, k.2)],
            ),
        }
    }
}

/// Caches that hold nothing.
pub open spec fn nothing_remembered() -> Remembered {
    Remembered {
        players: Map::empty(),
        competitions: Map::empty(),
        tenants: Map::empty(),
        tenant_names: Map::empty(),
        visits: Map::empty(),
    }
}

/// Whether a visit at `now` has to be recorded: none at that time or earlier has been noted.
pub open spec fn visit_is_news(
    m: Remembered,
    player_id: Seq<char>,
    tenant_id: i64,
    competition_id: Seq<char>,
    now: i64,
) -> bool {
    match looked_up(m.visits, (player_id, tenant_id, competition_id)) {
        Some(noted) => now < noted,
        None => true,
    }
}

impl Caches {
    /// Caches that hold nothing.
    pub fn new() -> (r: Self)
        ensures
            r@ == nothing_remembered(),
    {
        let r = Caches {
            players: StringHashMap::new(),
            competitions: StringHashMap::new(),
            tenants: HashMap::new(),
            tenant_names: StringHashMap::new(),
            visits: StringHashMap::new(),
        };
        assert(r@.competitions =~= Map::empty());
        assert(r@.visits =~= Map::empty());
        r
    }

    /// Forgets everything.
    pub fn clear(&mut self)
        ensures
            final(self)@ == nothing_remembered(),
    {
        self.players.clear();
        self.competitions.clear();
        self.tenants.clear();
        self.tenant_names.clear();
        self.visits.clear();
        assert(self@.competitions =~= Map::empty());
        assert(self@.visits =~= Map::empty());
    }

    /// The player with this id, where it is remembered.
    pub fn player(&self, id: &str) -> (r: Option<PlayerRow>)
        ensures
            r == looked_up(self@.players, id@),
    {
        match self.players.get(id) {
            Some(row) => Some(row.clone()),
            None => None,
        }
    }

    /// Remembers a player under an id.
    pub fn keep_player(&mut self, id: &str, row: PlayerRow)
        ensures
            final(self)@ == (Remembered {
                players: old(self)@.players.insert(id@, row),
                ..old(self)@
            }),
    {
        self.players.insert(id.to_owned(), row);
    }

    /// Forgets the player with this id.
    pub fn forget_player(&mut self, id: &str)
        ensures
            final(self)@ == (Remembered { players: old(self)@.players.remove(id@), ..old(self)@ }),
    {
        self.players.remove(id);
    }

    /// The competition with this id in this tenant, where it is remembered.
    pub fn competition(&self, tenant_id: i64, id: &str) -> (r: Option<CompetitionRow>)
        ensures
            r == looked_up(self@.competitions, (tenant_id, id@)),
    {
        let key = competition_key_text(tenant_id, id);
        match self.competitions.get(key.as_str()) {
            Some(row) => Some(row.clone()),
            None => None,
        }
    }

    /// Remembers a competition under a tenant and an id.
    pub fn keep_competition(&mut self, tenant_id: i64, id: &str, row: CompetitionRow)
        ensures
            final(self)@ == (Remembered {
                competitions: old(self)@.competitions.insert((tenant_id, id@), row),
                ..old(self)@
            }),
    {
        self.competitions.insert(competition_key_text(tenant_id, id), row);
        proof {
            let grown = old(self)@.competitions.insert((tenant_id, id@), row);
            assert forall|k: (i64, Seq<char>)|
                competition_key(k.0, k.1) == competition_key(tenant_id, id@) implies k == (
            tenant_id, id@) by {
                competition_key_is_injective(k.0, k.1, tenant_id, id@);
            }
            assert(self@.competitions =~= grown);
        }
    }

    /// Forgets the competition with this id in this tenant.
    pub fn forget_competition(&mut self, tenant_id: i64, id: &str)
        ensures
            final(self)@ == (Remembered {
                competitions: old(self)@.competitions.remove((tenant_id, id@)),
                ..old(self)@
            }),
    {
        let key = competition_key_text(tenant_id, id);
        self.competitions.remove(key.as_str());
        proof {
            let shrunk = old(self)@.competitions.remove((tenant_id, id@));
            assert forall|k: (i64, Seq<char>)|
                competition_key(k.0, k.1) == competition_key(tenant_id, id@) implies k == (
            tenant_id, id@) by {
                competition_key_is_injective(k.0, k.1, tenant_id, id@);
            }
            assert(self@.competitions =~= shrunk);
        }
    }

    /// The tenant with this id, where it is remembered.
    pub fn tenant(&self, id: i64) -> (r: Option<TenantRow>)
        ensures
            r == looked_up(self@.tenants, id),
    {
        match self.tenants.get(&id) {
            Some(row) => Some(row.clone()),
            None => None,
        }
    }

    /// Remembers a tenant under an id.
    pub fn keep_tenant(&mut self, id: i64, row: TenantRow)
        ensures
            final(self)@ == (Remembered {
                tenants: old(self)@.tenants.insert(id, row),
                ..old(self)@
            }),
    {
        self.tenants.insert(id, row);
    }

    /// The tenant with this name, where it is remembered.
    pub fn tenant_named(&self, name: &str) -> (r: Option<TenantRow>)
        ensures
            r == looked_up(self@.tenant_names, name@),
    {
        match self.tenant_names.get(name) {
            Some(row) => Some(row.clone()),
            None => None,
        }
    }

    /// Remembers a tenant under a name.
    pub fn keep_tenant_named(&mut self, name: &str, row: TenantRow)
        ensures
            final(self)@ == (Remembered {
                tenant_names: old(self)@.tenant_names.insert(name@, row),
                ..old(self)@
            }),
    {
        self.tenant_names.insert(name.to_owned(), row);
    }

    /// Notes a player's visit to a ranking and says whether it has to be recorded. A visit no
    /// earlier than one that was noted before changes nothing.
    pub fn note_visit(
        &mut self,
        player_id: &str,
        tenant_id: i64,
        competition_id: &str,
        now: i64,
    ) -> (r: bool)
        ensures
            r == visit_is_news(old(self)@, player_id@, tenant_id, competition_id@, now),
            r ==> final(self)@ == (Remembered {
                visits: old(self)@.visits.insert((player_id@, tenant_id, competition_id@), now),
                ..old(self)@
            }),
            !r ==> final(self)@ == old(self)@,
    {
        let key = visit_key_text(player_id, tenant_id, competition_id);
        if let Some(noted) = self.visits.get(key.as_str()) {
            if *noted <= now {
                return false;
            }
        }
        self.visits.insert(key, now);
        proof {
            let grown = old(self)@.visits.insert((player_id@, tenant_id, competition_id@), now);
            assert forall|k: (Seq<char>, i64, Seq<char>)|
                visit_key(k.0, k.1, k.2) == visit_key(
                    player_id@,
                    tenant_id,
                    competition_id@,
                ) implies k == (player_id@, tenant_id, competition_id@) by {
                visit_key_is_injective(k.0, k.1, k.2, player_id@, tenant_id, competition_id@);
            }
            assert(self@.visits =~= grown);
        }
        true
    }
}

} // verus!
