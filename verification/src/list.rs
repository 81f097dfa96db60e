//! Facts about lists that are filtered item by item.
use vstd::prelude::*;

verus! {

/// One more item adds itself to what is filtered out of the items before it, where it is kept.
pub(crate) proof fn prefix_filter_grows<A>(s: Seq<A>, keep: spec_fn(A) -> bool, i: int)
    requires
        0 <= i < s.len(),
    ensures
        s.take(i + 1).filter(keep) == (if keep(s[i]) {
            s.take(i).filter(keep).push(s[i])
        } else {
            s.take(i).filter(keep)
        }),
{
    reveal(Seq::filter);
    assert(s.take(i + 1).drop_last() =~= s.take(i));
    assert(s.take(i + 1).last() == s[i]);
}

/// One more item adds what is picked of it to what is picked of the items kept before it, where it
/// is kept.
pub(crate) proof fn prefix_pick_grows<A, B>(
    s: Seq<A>,
    keep: spec_fn(A) -> bool,
    pick: spec_fn(A) -> B,
    i: int,
)
    requires
        0 <= i < s.len(),
    ensures
        s.take(i + 1).filter(keep).map_values(pick) == (if keep(s[i]) {
            s.take(i).filter(keep).map_values(pick).push(pick(s[i]))
        } else {
            s.take(i).filter(keep).map_values(pick)
        }),
{
    prefix_filter_grows(s, keep, i);
    if keep(s[i]) {
        assert(s.take(i + 1).filter(keep).map_values(pick) =~= s.take(i).filter(keep).map_values(
            pick,
        ).push(pick(s[i])));
    }
}

/// One more item at the end adds what is picked of it, where it is kept.
pub(crate) proof fn pushed_pick_grows<A, B>(
    s: Seq<A>,
    keep: spec_fn(A) -> bool,
    pick: spec_fn(A) -> B,
    a: A,
)
    ensures
        s.push(a).filter(keep).map_values(pick) == (if keep(a) {
            s.filter(keep).map_values(pick).push(pick(a))
        } else {
            s.filter(keep).map_values(pick)
        }),
{
    prefix_pick_grows(s.push(a), keep, pick, s.len() as int);
    assert(s.push(a).take(s.len() as int) =~= s);
    assert(s.push(a).take((s.len() + 1) as int) =~= s.push(a));
}

/// The places of the items that a filter keeps: they go up, and none is left out.
pub(crate) proof fn filter_places<A>(s: Seq<A>, keep: spec_fn(A) -> bool) -> (places: Seq<int>)
    ensures
        places.len() == s.filter(keep).len(),
        forall|k: int|
            0 <= k < places.len() ==> 0 <= #[trigger] places[k] < s.len() && keep(s[places[k]])
                && s.filter(keep)[k] == s[places[k]],
        forall|j: int, k: int|
            0 <= j < k < places.len() ==> #[trigger] places[j] < #[trigger] places[k],
        forall|i: int| 0 <= i < s.len() && keep(#[trigger] s[i]) ==> places.contains(i),
    decreases s.len(),
{
    reveal(Seq::filter);
    if s.len() == 0 {
        Seq::empty()
    } else {
        let rest = s.drop_last();
        let before = filter_places(rest, keep);
        let n = s.len() - 1;
        let places = if keep(s[n]) {
            before.push(n)
        } else {
            before
        };
        assert forall|i: int| 0 <= i < s.len() && keep(#[trigger] s[i]) implies places.contains(
            i,
        ) by {
            if i < n {
                assert(keep(rest[i]));
                let k = choose|k: int| 0 <= k < before.len() && before[k] == i;
                assert(places[k] == i);
            } else {
                assert(places[before.len() as int] == i);
            }
        }
        places
    }
}

} // verus!
