//! Stable sorting by a time.
use vstd::prelude::*;

verus! {

/// A value with a time by which it is sorted.
pub trait Timed {
    /// The time of the value.
    spec fn time(&self) -> int;

    /// The time of the value.
    fn time_ms(&self) -> (r: i64)
        ensures
            r == self.time(),
    ;
}

/// `s`, which is in order, with `x` behind everything that is not later.
pub open spec fn placed_in<A>(s: Seq<A>, x: A, time: spec_fn(A) -> int) -> Seq<A>
    decreases s.len(),
{
    if s.len() == 0 || time(s.last()) <= time(x) {
        s.push(x)
    } else {
        placed_in(s.drop_last(), x, time).push(s.last())
    }
}

/// The elements of `s` from the earliest to the latest; those of one time stay in their order.
pub open spec fn in_order<A>(s: Seq<A>, time: spec_fn(A) -> int) -> Seq<A>
    decreases s.len(),
{
    if s.len() == 0 {
        s
    } else {
        placed_in(in_order(s.drop_last(), time), s.last(), time)
    }
}

/// No element is later than one behind it.
pub open spec fn is_ordered<A>(s: Seq<A>, time: spec_fn(A) -> int) -> bool {
    forall|i: int, j: int| 0 <= i <= j < s.len() ==> time(#[trigger] s[i]) <= time(#[trigger] s[j])
}

/// Where the place of `x` is known, putting it in its place is an insertion.
proof fn lemma_placed_in_is_insert<A>(s: Seq<A>, x: A, time: spec_fn(A) -> int, at: int)
    requires
        0 <= at <= s.len(),
        at > 0 ==> time(s[at - 1]) <= time(x),
        forall|i: int| at <= i < s.len() ==> time(#[trigger] s[i]) > time(x),
    ensures
        placed_in(s, x, time) == s.insert(at, x),
    decreases s.len(),
{
    if at == s.len() {
        assert(s.insert(at, x) =~= s.push(x));
    } else {
        lemma_placed_in_is_insert(s.drop_last(), x, time, at);
        assert(s.insert(at, x) =~= s.drop_last().insert(at, x).push(s.last()));
    }
}

/// The elements from the earliest to the latest; those of one time stay in their order.
pub fn sort_by_time<T: Timed>(items: Vec<T>) -> (r: Vec<T>)
    ensures
        r@ == in_order(items@, |item: T| item.time()),
{
    let ghost all = items@;
    let ghost time = |item: T| item.time();
    let mut r: Vec<T> = Vec::new();
    assert(all.take(0) =~= Seq::empty());
    for item in it: items
        invariant
            all == it.seq(),
            time == (|item: T| item.time()),
            r@ == in_order(all.take(it.index()), time),
    {
        assert(all.take(it.index() + 1).drop_last() =~= all.take(it.index()));
        let mut at: usize = r.len();
        while at > 0 && r[at - 1].time_ms() > item.time_ms()
            invariant
                at <= r.len(),
                forall|i: int| at <= i < r.len() ==> (#[trigger] r@[i]).time() > item.time(),
            decreases at,
        {
            at -= 1;
        }
        proof {
            lemma_placed_in_is_insert(r@, item, time, at as int);
        }
        r.insert(at, item);
    }
    assert(all.take(all.len() as int) =~= all);
    r
}

/// Putting one more element in its place keeps the order.
proof fn lemma_placed_in_ordered<A>(s: Seq<A>, x: A, time: spec_fn(A) -> int)
    requires
        is_ordered(s, time),
    ensures
        is_ordered(placed_in(s, x, time), time),
        forall|i: int|
            0 <= i < placed_in(s, x, time).len() ==> (s.len() > 0 && time(
                #[trigger] placed_in(s, x, time)[i],
            ) <= time(s.last())) || time(placed_in(s, x, time)[i]) <= time(x),
        placed_in(s, x, time).to_multiset() == s.to_multiset().insert(x),
        placed_in(s, x, time).len() == s.len() + 1,
    decreases s.len(),
{
    broadcast use vstd::seq_lib::group_to_multiset_ensures;

    if s.len() == 0 || time(s.last()) <= time(x) {
    } else {
        let front = s.drop_last();
        let rest = placed_in(front, x, time);
        lemma_placed_in_ordered(front, x, time);
        assert(s =~= front.push(s.last()));
        assert forall|i: int| 0 <= i < rest.len() implies time(#[trigger] rest[i]) <= time(
            s.last(),
        ) by {
            if front.len() > 0 {
                assert(time(front.last()) <= time(s.last())) by {
                    assert(front.last() == s[s.len() - 2]);
                }
            }
        }
        assert(rest.push(s.last()).to_multiset() =~= s.to_multiset().insert(x));
    }
}

/// Sorting gives an ordered sequence of the same elements.
pub proof fn sorting_orders_and_keeps<A>(s: Seq<A>, time: spec_fn(A) -> int)
    ensures
        is_ordered(in_order(s, time), time),
        in_order(s, time).to_multiset() == s.to_multiset(),
        in_order(s, time).len() == s.len(),
    decreases s.len(),
{
    broadcast use vstd::seq_lib::group_to_multiset_ensures;

    if s.len() > 0 {
        sorting_orders_and_keeps(s.drop_last(), time);
        lemma_placed_in_ordered(in_order(s.drop_last(), time), s.last(), time);
        assert(s =~= s.drop_last().push(s.last()));
    }
}

/// The elements of one time.
pub open spec fn of_time<A>(s: Seq<A>, time: spec_fn(A) -> int, t: int) -> Seq<A> {
    s.filter(|x: A| time(x) == t)
}

/// Filtering a sequence with one more element.
proof fn lemma_of_time_push<A>(s: Seq<A>, x: A, time: spec_fn(A) -> int, t: int)
    ensures
        of_time(s.push(x), time, t) == if time(x) == t {
            of_time(s, time, t).push(x)
        } else {
            of_time(s, time, t)
        },
{
    reveal(Seq::filter);
    assert(s.push(x).drop_last() =~= s);
}

/// Putting an element in its place puts it behind the others of its time.
proof fn lemma_placed_in_stable<A>(s: Seq<A>, x: A, time: spec_fn(A) -> int, t: int)
    ensures
        of_time(placed_in(s, x, time), time, t) == of_time(s.push(x), time, t),
    decreases s.len(),
{
    if s.len() == 0 || time(s.last()) <= time(x) {
    } else {
        let front = s.drop_last();
        lemma_placed_in_stable(front, x, time, t);
        lemma_of_time_push(placed_in(front, x, time), s.last(), time, t);
        lemma_of_time_push(front, x, time, t);
        lemma_of_time_push(front, s.last(), time, t);
        lemma_of_time_push(s, x, time, t);
        assert(s =~= front.push(s.last()));
    }
}

/// Sorting is stable: the elements of one time stay in their order.
pub proof fn sorting_is_stable<A>(s: Seq<A>, time: spec_fn(A) -> int, t: int)
    ensures
        of_time(in_order(s, time), time, t) == of_time(s, time, t),
    decreases s.len(),
{
    if s.len() > 0 {
        let front = s.drop_last();
        sorting_is_stable(front, time, t);
        lemma_placed_in_stable(in_order(front, time), s.last(), time, t);
        lemma_of_time_push(in_order(front, time), s.last(), time, t);
        lemma_of_time_push(front, s.last(), time, t);
        assert(s =~= front.push(s.last()));
    }
}

/// Sorting what a function makes of the elements, where it keeps their times, is the function on
/// the sorted elements.
pub proof fn sorting_commutes_with_map<A, B>(
    s: Seq<A>,
    f: spec_fn(A) -> B,
    time: spec_fn(A) -> int,
    new_time: spec_fn(B) -> int,
)
    requires
        forall|x: A| new_time(#[trigger] f(x)) == time(x),
    ensures
        in_order(s.map_values(f), new_time) == in_order(s, time).map_values(f),
    decreases s.len(),
{
    if s.len() == 0 {
        assert(in_order(s.map_values(f), new_time) =~= in_order(s, time).map_values(f));
    } else {
        sorting_commutes_with_map(s.drop_last(), f, time, new_time);
        assert(s.map_values(f).drop_last() =~= s.drop_last().map_values(f));
        lemma_placed_in_map(in_order(s.drop_last(), time), s.last(), f, time, new_time);
    }
}

proof fn lemma_placed_in_map<A, B>(
    s: Seq<A>,
    x: A,
    f: spec_fn(A) -> B,
    time: spec_fn(A) -> int,
    new_time: spec_fn(B) -> int,
)
    requires
        forall|x: A| new_time(#[trigger] f(x)) == time(x),
    ensures
        placed_in(s.map_values(f), f(x), new_time) == placed_in(s, x, time).map_values(f),
    decreases s.len(),
{
    let t = s.map_values(f);
    if s.len() == 0 || time(s.last()) <= time(x) {
        assert(s.len() > 0 ==> t.last() == f(s.last()));
        assert(t.push(f(x)) =~= s.push(x).map_values(f));
    } else {
        lemma_placed_in_map(s.drop_last(), x, f, time, new_time);
        assert(t.drop_last() =~= s.drop_last().map_values(f));
        assert(t.last() == f(s.last()));
        assert(placed_in(s.drop_last(), x, time).map_values(f).push(f(s.last())) =~= placed_in(
            s,
            x,
            time,
        ).map_values(f));
    }
}

/// Sorting what is sorted changes nothing, and of two neighbours the later one comes behind: two
/// elements are in order exactly where the first is not the later one.
pub proof fn two_elements_are_sorted<A>(a: A, b: A, time: spec_fn(A) -> int)
    ensures
        time(a) <= time(b) ==> in_order(seq![a, b], time) == seq![a, b],
        time(b) < time(a) ==> in_order(seq![a, b], time) == seq![b, a],
{
    reveal_with_fuel(in_order, 3);
    reveal_with_fuel(placed_in, 3);
    assert(seq![a, b].drop_last() =~= seq![a]);
    assert(seq![a].drop_last() =~= Seq::empty());
    assert(in_order(seq![a].drop_last(), time) =~= Seq::empty());
    assert(in_order(seq![a], time) =~= seq![a]);
    assert(seq![a, b].last() == b);
    if time(b) < time(a) {
        assert(placed_in(seq![a], b, time) =~= seq![b, a]);
    } else {
        assert(placed_in(seq![a], b, time) =~= seq![a, b]);
    }
}

} // verus!
