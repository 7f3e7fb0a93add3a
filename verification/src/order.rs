//! The order in which the members of a voice channel appear on the device.
use vstd::prelude::*;
use vstd::seq_lib::*;

verus! {

/// What decides about a member's place.
#[derive(Debug, Clone, Copy, PartialEq, Eq, Structural)]
pub struct Rank {
    /// The priority that is set for the user, if one is; lower numbers appear first.
    pub priority: Option<i32>,
    /// How little the member takes part; 0 for an active one.
    pub activity: u8,
}

/// A priority as a number; users without one come after all others.
pub open spec fn priority_place(priority: Option<i32>) -> int {
    match priority {
        Some(p) => p as int,
        None => i32::MAX + 1,
    }
}

/// Whether `a` comes before `b`: by priority, and at the same priority by activity.
pub open spec fn comes_first(a: Rank, b: Rank) -> bool {
    ||| priority_place(a.priority) < priority_place(b.priority)
    ||| priority_place(a.priority) == priority_place(b.priority) && a.activity < b.activity
}

/// Whether the member at place `x` is to appear before the one at place `y`: by rank, and at the
/// same rank as they are listed.
pub open spec fn ahead(ranks: Seq<Rank>, x: int, y: int) -> bool {
    comes_first(ranks[x], ranks[y]) || (!comes_first(ranks[y], ranks[x]) && x < y)
}

/// The places `0..n`, in order.
pub open spec fn places(n: nat) -> Seq<usize> {
    Seq::new(n, |i: int| i as usize)
}

/// Whether places are those of all members, each once, in the order in which the members are to
/// appear.
pub open spec fn is_order(ranks: Seq<Rank>, order: Seq<usize>) -> bool {
    &&& order.to_multiset() == places(ranks.len()).to_multiset()
    &&& forall|i: int| 0 <= i < order.len() ==> (#[trigger] order[i]) < ranks.len()
    &&& forall|i: int, j: int|
        0 <= i < j < order.len() ==> ahead(
            ranks,
            (#[trigger] order[i]) as int,
            (#[trigger] order[j]) as int,
        )
}

/// The order in which members are to appear; there is exactly one.
pub open spec fn the_order(ranks: Seq<Rank>) -> Seq<usize> {
    choose|order: Seq<usize>| is_order(ranks, order)
}

fn before(a: Rank, b: Rank) -> (r: bool)
    ensures
        r == comes_first(a, b),
{
    match (a.priority, b.priority) {
        (Some(p), Some(q)) => p < q || (p == q && a.activity < b.activity),
        (Some(_), None) => true,
        (None, Some(_)) => false,
        (None, None) => a.activity < b.activity,
    }
}

/// The order in which members are to appear, by their places in the list.
pub fn order(ranks: &Vec<Rank>) -> (r: Vec<usize>)
    ensures
        is_order(ranks@, r@),
        r@ == the_order(ranks@),
{
    let mut r: Vec<usize> = Vec::new();
    let mut i: usize = 0;
    assert(r@ == places(0));
    while i < ranks.len()
        invariant
            i <= ranks@.len(),
            r@.len() == i,
            r@.to_multiset() == places(i as nat).to_multiset(),
            forall|k: int| 0 <= k < r@.len() ==> (#[trigger] r@[k]) < i,
            forall|k: int, m: int|
                0 <= k < m < r@.len() ==> ahead(
                    ranks@,
                    (#[trigger] r@[k]) as int,
                    (#[trigger] r@[m]) as int,
                ),
        decreases ranks@.len() - i,
    {
        let mut k: usize = 0;
        while k < r.len() && !before(ranks[i], ranks[r[k]])
            invariant
                k <= r@.len(),
                i < ranks@.len(),
                forall|m: int| 0 <= m < r@.len() ==> (#[trigger] r@[m]) < i,
                forall|m: int|
                    0 <= m < k ==> !comes_first(
                        ranks@[i as int],
                        ranks@[(#[trigger] r@[m]) as int],
                    ),
            decreases r@.len() - k,
        {
            k += 1;
        }
        let ghost old = r@;
        r.insert(k, i);
        proof {
            to_multiset_insert(old, k as int, i);
            to_multiset_build(places(i as nat), i);
            assert(places((i + 1) as nat) == places(i as nat).push(i));
            assert forall|a: int, b: int| 0 <= a < b < r@.len() implies ahead(
                ranks@,
                (#[trigger] r@[a]) as int,
                (#[trigger] r@[b]) as int,
            ) by {
                let x = if a < k {
                    a
                } else {
                    a - 1
                };
                let y = if b < k {
                    b
                } else {
                    b - 1
                };
                if a == k {
                    assert(r@[b] == old[b - 1]);
                    if b - 1 > k {
                        assert(ahead(ranks@, old[k as int] as int, old[b - 1] as int));
                    }
                } else if b == k {
                    assert(r@[a] == old[a]);
                } else {
                    assert(r@[a] == old[x]);
                    assert(r@[b] == old[y]);
                }
            }
        }
        i += 1;
    }
    proof {
        assert(is_order(ranks@, r@));
        order_is_unique(ranks@, r@, the_order(ranks@));
    }
    r
}

/// An order has a place for every member, and only for members.
pub proof fn order_is_complete(ranks: Seq<Rank>, order: Seq<usize>)
    requires
        is_order(ranks, order),
    ensures
        order.len() == ranks.len(),
        forall|x: usize| #[trigger] order.contains(x) <==> x < ranks.len(),
{
    let all = places(ranks.len());
    to_multiset_len(order);
    to_multiset_len(all);
    assert forall|x: usize| #[trigger] order.contains(x) <==> x < ranks.len() by {
        if x < ranks.len() {
            assert(all[x as int] == x);
        }
        to_multiset_contains(all, x);
        to_multiset_contains(order, x);
    }
}

/// Members appear by priority, lower numbers first and those without one last; at the same priority
/// by activity, the most active first; and else as they are listed.
pub proof fn members_are_sorted(ranks: Seq<Rank>, order: Seq<usize>, i: int, j: int)
    requires
        is_order(ranks, order),
        0 <= i < j < order.len(),
    ensures
        ({
            let a = ranks[order[i] as int];
            let b = ranks[order[j] as int];
            let same_priority = priority_place(a.priority) == priority_place(b.priority);
            &&& priority_place(a.priority) <= priority_place(b.priority)
            &&& same_priority ==> a.activity <= b.activity
            &&& same_priority && a.activity == b.activity ==> order[i] < order[j]
            &&& a.priority is None ==> b.priority is None
            &&& a.priority is Some && b.priority is Some ==> a.priority.unwrap()
                <= b.priority.unwrap()
            &&& a.priority == b.priority ==> a.activity <= b.activity
            &&& a == b ==> order[i] < order[j]
        }),
{
    assert(ahead(ranks, order[i] as int, order[j] as int));
}

/// There is only one order: whoever sorts the same members comes to the same result.
pub proof fn order_is_unique(ranks: Seq<Rank>, a: Seq<usize>, b: Seq<usize>)
    requires
        is_order(ranks, a),
        is_order(ranks, b),
    ensures
        a == b,
{
    to_multiset_len(a);
    to_multiset_len(b);
    assert(a.len() == b.len());
    if a != b {
        let i = lemma_first_difference(a, b, 0);
        // What stands at `i` in `a` stands later in `b`, and the other way round.
        lemma_later(ranks, a, b, i);
        lemma_later(ranks, b, a, i);
    }
}

/// The order that counts is whichever order the members can be brought into.
pub proof fn the_order_is_any_order(ranks: Seq<Rank>, order: Seq<usize>)
    requires
        is_order(ranks, order),
    ensures
        the_order(ranks) == order,
{
    order_is_unique(ranks, order, the_order(ranks));
}

proof fn lemma_first_difference(a: Seq<usize>, b: Seq<usize>, from: int) -> (i: int)
    requires
        a.len() == b.len(),
        a != b,
        0 <= from <= a.len(),
        forall|k: int| 0 <= k < from ==> a[k] == b[k],
    ensures
        0 <= i < a.len(),
        a[i] != b[i],
        forall|k: int| 0 <= k < i ==> a[k] == b[k],
    decreases a.len() - from,
{
    if from == a.len() {
        assert(a =~= b);
        from
    } else if a[from] != b[from] {
        from
    } else {
        lemma_first_difference(a, b, from + 1)
    }
}

proof fn lemma_later(ranks: Seq<Rank>, a: Seq<usize>, b: Seq<usize>, i: int)
    requires
        is_order(ranks, a),
        is_order(ranks, b),
        a.len() == b.len(),
        0 <= i < a.len(),
        a[i] != b[i],
        forall|k: int| 0 <= k < i ==> a[k] == b[k],
    ensures
        ahead(ranks, b[i] as int, a[i] as int),
{
    to_multiset_contains(a, a[i]);
    to_multiset_contains(b, a[i]);
    assert(a.contains(a[i]));
    assert(b.contains(a[i]));
    let j = b.index_of(a[i]);
    assert(b[j] == a[i]);
    if j < i {
        assert(a[j] == a[i]);
        assert(ahead(ranks, a[j] as int, a[i] as int));
    }
    assert(ahead(ranks, b[i] as int, b[j] as int));
}

} // verus!
