//! Start order of a dependency graph given by indices.
//!
//! Node `v` of the graph depends on the nodes listed in `deps[v]`; a node may be
//! listed more than once.
use std::collections::VecDeque;

use vstd::prelude::*;

verus! {

/// Every listed dependency is a node of the graph.
pub open spec fn in_range(deps: Seq<Seq<usize>>) -> bool {
    forall|v: int, k: int|
        0 <= v < deps.len() && 0 <= k < deps[v].len() ==> 0 <= #[trigger] deps[v][k] < deps.len()
}

/// All dependencies of `v` are among the nodes in `started`.
pub open spec fn released(deps: Seq<Seq<usize>>, started: Seq<usize>, v: usize) -> bool {
    forall|k: int| 0 <= k < deps[v as int].len() ==> started.contains(#[trigger] deps[v as int][k])
}

/// A sequence of distinct nodes in which every node comes after all of its
/// dependencies.
pub open spec fn is_schedule(deps: Seq<Seq<usize>>, order: Seq<usize>) -> bool {
    &&& order.no_duplicates()
    &&& forall|p: int| 0 <= p < order.len() ==> (#[trigger] order[p]) < deps.len()
    &&& forall|p: int| 0 <= p < order.len() ==> released(deps, order.take(p), #[trigger] order[p])
}

/// Some schedule reaches `v`: neither `v` nor anything below it is on a cycle.
pub open spec fn startable(deps: Seq<Seq<usize>>, v: usize) -> bool {
    exists|order: Seq<usize>| is_schedule(deps, order) && order.contains(v)
}

/// `u` is released earlier along `order` than `v`, or at the same point with a
/// smaller index.
pub open spec fn goes_before(
    deps: Seq<Seq<usize>>,
    order: Seq<usize>,
    u: usize,
    v: usize,
) -> bool {
    ||| exists|t: int|
        0 <= t <= order.len() && released(deps, order.take(t), u) && !#[trigger] released(
            deps,
            order.take(t),
            v,
        )
    ||| u < v && forall|t: int|
        0 <= t <= order.len() ==> released(deps, order.take(t), u) == #[trigger] released(
            deps,
            order.take(t),
            v,
        )
}

/// Nodes stand in the order in which they are released, equal ones by index.
pub open spec fn by_release(deps: Seq<Seq<usize>>, order: Seq<usize>, queued: Seq<usize>) -> bool {
    forall|p: int, q: int|
        0 <= p < q < queued.len() ==> goes_before(
            deps,
            order,
            #[trigger] queued[p],
            #[trigger] queued[q],
        )
}

/// The start order of a graph: a schedule that leaves out nothing it could still
/// start, with nodes in the order in which they are released.
pub open spec fn is_start_order(deps: Seq<Seq<usize>>, order: Seq<usize>) -> bool {
    &&& is_schedule(deps, order)
    &&& forall|v: usize| v < deps.len() && #[trigger] released(deps, order, v) ==> order.contains(v)
    &&& by_release(deps, order, order)
}

/// What is released stays released as more nodes start.
proof fn lemma_released_monotone(deps: Seq<Seq<usize>>, order: Seq<usize>, s: int, t: int, v: usize)
    requires
        0 <= s <= t <= order.len(),
        released(deps, order.take(s), v),
    ensures
        released(deps, order.take(t), v),
{
    assert forall|k: int| 0 <= k < deps[v as int].len() implies order.take(t).contains(
        #[trigger] deps[v as int][k],
    ) by {
        let x = deps[v as int][k];
        assert(order.take(s).contains(x));
        let j = choose|j: int| 0 <= j < order.take(s).len() && order.take(s)[j] == x;
        assert(order.take(t)[j] == x);
    }
}

/// A graph has at most one start order.
pub proof fn lemma_start_order_unique(deps: Seq<Seq<usize>>, a: Seq<usize>, b: Seq<usize>)
    requires
        is_start_order(deps, a),
        is_start_order(deps, b),
    ensures
        a == b,
{
    lemma_start_order_prefix(deps, a, b, a.len() as int);
    lemma_start_order_prefix(deps, b, a, b.len() as int);
    assert(a.take(a.len() as int) =~= a);
    assert(b.take(b.len() as int) =~= b);
}

proof fn lemma_start_order_prefix(deps: Seq<Seq<usize>>, a: Seq<usize>, b: Seq<usize>, p: int)
    requires
        is_start_order(deps, a),
        is_start_order(deps, b),
        0 <= p <= a.len(),
    ensures
        p <= b.len(),
        a.take(p) == b.take(p),
    decreases p,
{
    if p == 0 {
        assert(a.take(0) =~= b.take(0));
    } else {
        let m = p - 1;
        lemma_start_order_prefix(deps, a, b, m);
        lemma_next_is_in(deps, a, b, m);
        lemma_next_is_same(deps, a, b, m);
        assert(a.take(p) =~= a.take(m).push(a[m]));
        assert(b.take(p) =~= b.take(m).push(b[m]));
    }
}

/// After a common prefix, both start orders take the same node next.
proof fn lemma_next_is_same(deps: Seq<Seq<usize>>, a: Seq<usize>, b: Seq<usize>, m: int)
    requires
        is_start_order(deps, a),
        is_start_order(deps, b),
        0 <= m < a.len(),
        m < b.len(),
        a.take(m) == b.take(m),
    ensures
        a[m] == b[m],
{
    lemma_next_is_in(deps, a, b, m);
    lemma_next_is_in(deps, b, a, m);
    let q = choose|q: int| 0 <= q < b.len() && b[q] == a[m];
    let r = choose|r: int| 0 <= r < a.len() && a[r] == b[m];
    assert(q >= m) by {
        if q < m {
            assert(b.take(m)[q] == b[q]);
            assert(a.take(m)[q] == a[q]);
            assert(a[q] == a[m]);
        }
    }
    assert(r >= m) by {
        if r < m {
            assert(a.take(m)[r] == a[r]);
            assert(b.take(m)[r] == b[r]);
            assert(b[r] == b[m]);
        }
    }
    if a[m] != b[m] {
        assert(goes_before(deps, a, a[m], a[r]));
        assert(goes_before(deps, b, b[m], b[q]));
        lemma_not_both_first(deps, a, b, m, a[m], b[m]);
    }
}

/// After a common prefix, the node that one start order takes next is somewhere
/// in the other one too.
proof fn lemma_next_is_in(deps: Seq<Seq<usize>>, a: Seq<usize>, b: Seq<usize>, m: int)
    requires
        is_start_order(deps, a),
        is_start_order(deps, b),
        0 <= m < a.len(),
        m <= b.len(),
        a.take(m) == b.take(m),
    ensures
        b.contains(a[m]),
        m < b.len(),
{
    let u = a[m];
    assert(released(deps, b.take(m), u));
    lemma_released_monotone(deps, b, m, b.len() as int, u);
    assert(b.take(b.len() as int) =~= b);
    assert(b.contains(u));
    let q = choose|q: int| 0 <= q < b.len() && b[q] == u;
    if q < m {
        assert(b.take(m)[q] == a.take(m)[q]);
        assert(a[q] == a[m]);
    }
}

proof fn lemma_not_both_first(
    deps: Seq<Seq<usize>>,
    a: Seq<usize>,
    b: Seq<usize>,
    m: int,
    u: usize,
    v: usize,
)
    requires
        0 <= m <= a.len(),
        m <= b.len(),
        a.take(m) == b.take(m),
        released(deps, a.take(m), u),
        released(deps, b.take(m), v),
        goes_before(deps, a, u, v),
    ensures
        !goes_before(deps, b, v, u),
{
    // Past the common prefix both nodes are released, so only moments inside it
    // can tell them apart, and there both orders agree.
    assert forall|t: int| m <= t <= a.len() implies released(deps, a.take(t), u) && released(
        deps,
        a.take(t),
        v,
    ) by {
        lemma_released_monotone(deps, a, m, t, u);
        lemma_released_monotone(deps, a, m, t, v);
    }
    assert forall|t: int| m <= t <= b.len() implies released(deps, b.take(t), u) && released(
        deps,
        b.take(t),
        v,
    ) by {
        lemma_released_monotone(deps, b, m, t, u);
        lemma_released_monotone(deps, b, m, t, v);
    }
    assert forall|t: int| 0 <= t <= m implies a.take(t) == b.take(t) by {
        assert(a.take(t) =~= a.take(m).take(t));
        assert(b.take(t) =~= b.take(m).take(t));
    }
    let early_u = exists|t: int|
        0 <= t <= a.len() && released(deps, a.take(t), u) && !#[trigger] released(
            deps,
            a.take(t),
            v,
        );
    let early_v = exists|t: int|
        0 <= t <= b.len() && released(deps, b.take(t), v) && !#[trigger] released(
            deps,
            b.take(t),
            u,
        );
    if early_u {
        let t = choose|t: int|
            0 <= t <= a.len() && released(deps, a.take(t), u) && !#[trigger] released(
                deps,
                a.take(t),
                v,
            );
        assert(t < m);
        if early_v {
            let s = choose|s: int|
                0 <= s <= b.len() && released(deps, b.take(s), v) && !#[trigger] released(
                    deps,
                    b.take(s),
                    u,
                );
            assert(s < m);
            if s <= t {
                lemma_released_monotone(deps, b, s, t, v);
            } else {
                lemma_released_monotone(deps, a, t, s, u);
            }
        } else if goes_before(deps, b, v, u) {
            assert(released(deps, b.take(t), v) == released(deps, b.take(t), u));
        }
    } else if early_v {
        let s = choose|s: int|
            0 <= s <= b.len() && released(deps, b.take(s), v) && !#[trigger] released(
                deps,
                b.take(s),
                u,
            );
        assert(s < m);
        assert(released(deps, a.take(s), u) == released(deps, a.take(s), v));
    }
}

/// A start order holds exactly the nodes that can be started at all.
pub proof fn lemma_start_order_complete(deps: Seq<Seq<usize>>, order: Seq<usize>, v: usize)
    requires
        is_start_order(deps, order),
    ensures
        order.contains(v) <==> startable(deps, v),
{
    if startable(deps, v) {
        let other = choose|other: Seq<usize>| is_schedule(deps, other) && other.contains(v);
        let p = choose|p: int| 0 <= p < other.len() && other[p] == v;
        lemma_closed_holds(deps, order, other, p);
    }
}

/// The dependency lists of the graph as mathematical sequences.
pub open spec fn lists(deps: Seq<Vec<usize>>) -> Seq<Seq<usize>> {
    Seq::new(deps.len(), |i: int| deps[i]@)
}

/// How many entries of `list` are not in `started`.
spec fn missing(list: Seq<usize>, started: Seq<usize>) -> nat
    decreases list.len(),
{
    if list.len() == 0 {
        0
    } else {
        missing(list.drop_last(), started) + if started.contains(list.last()) {
            0nat
        } else {
            1nat
        }
    }
}

/// How often `x` occurs in `list`.
spec fn occurrences(list: Seq<usize>, x: usize) -> nat
    decreases list.len(),
{
    if list.len() == 0 {
        0
    } else {
        occurrences(list.drop_last(), x) + if list.last() == x {
            1nat
        } else {
            0nat
        }
    }
}

proof fn lemma_missing_none(list: Seq<usize>, started: Seq<usize>)
    ensures
        missing(list, started) == 0 <==> (forall|k: int|
            0 <= k < list.len() ==> started.contains(#[trigger] list[k])),
        missing(list, started) <= list.len(),
    decreases list.len(),
{
    if list.len() > 0 {
        let front = list.drop_last();
        lemma_missing_none(front, started);
        if missing(list, started) == 0 {
            assert forall|k: int| 0 <= k < list.len() implies started.contains(
                #[trigger] list[k],
            ) by {
                if k < front.len() {
                    assert(front[k] == list[k]);
                }
            }
        } else if forall|k: int| 0 <= k < list.len() ==> started.contains(#[trigger] list[k]) {
            assert(started.contains(list[list.len() - 1]));
            assert forall|k: int| 0 <= k < front.len() implies started.contains(
                #[trigger] front[k],
            ) by {
                assert(front[k] == list[k]);
            }
        }
    }
}

proof fn lemma_missing_push(list: Seq<usize>, started: Seq<usize>, x: usize)
    requires
        !started.contains(x),
    ensures
        missing(list, started) == missing(list, started.push(x)) + occurrences(list, x),
    decreases list.len(),
{
    if list.len() > 0 {
        lemma_missing_push(list.drop_last(), started, x);
        lemma_push_contains(started, x, list.last());
    }
}

proof fn lemma_push_contains(s: Seq<usize>, x: usize, y: usize)
    ensures
        s.push(x).contains(y) <==> s.contains(y) || x == y,
{
    if s.contains(y) {
        let j = choose|j: int| 0 <= j < s.len() && s[j] == y;
        assert(s.push(x)[j] == y);
    }
    if x == y {
        assert(s.push(x)[s.len() as int] == y);
    }
}

proof fn lemma_occurrences_take(list: Seq<usize>, m: int, x: usize)
    requires
        0 <= m <= list.len(),
    ensures
        occurrences(list.take(m), x) <= occurrences(list, x),
        m < list.len() ==> occurrences(list.take(m + 1), x) == occurrences(list.take(m), x) + if list[m]
            == x {
            1nat
        } else {
            0nat
        },
    decreases list.len() - m,
{
    if m < list.len() {
        assert(list.take(m + 1).drop_last() =~= list.take(m));
        lemma_occurrences_take(list, m + 1, x);
    } else {
        assert(list.take(m) =~= list);
    }
}

proof fn lemma_occurrences_member(list: Seq<usize>, x: usize)
    ensures
        occurrences(list, x) > 0 <==> list.contains(x),
    decreases list.len(),
{
    if list.len() > 0 {
        lemma_occurrences_member(list.drop_last(), x);
        assert(list =~= list.drop_last().push(list.last()));
        lemma_push_contains(list.drop_last(), list.last(), x);
    }
}

/// Distinct numbers below `n` are at most `n` many.
pub proof fn lemma_distinct_below(s: Seq<usize>, n: nat)
    requires
        s.no_duplicates(),
        forall|p: int| 0 <= p < s.len() ==> (#[trigger] s[p]) < n,
    ensures
        s.len() <= n,
{
    let ints = s.map_values(|x: usize| x as int);
    assert(ints.no_duplicates());
    let range = vstd::set_lib::set_int_range(0, n as int);
    vstd::set_lib::lemma_int_range(0, n as int);
    ints.unique_seq_to_set();
    assert(ints.to_set().subset_of(range));
    vstd::set_lib::lemma_len_subset(ints.to_set(), range);
}

/// Distinct numbers below `n` that leave none out are exactly `n` many.
pub proof fn lemma_covering_len(s: Seq<usize>, n: nat)
    requires
        n <= usize::MAX,
        s.no_duplicates(),
        forall|p: int| 0 <= p < s.len() ==> (#[trigger] s[p]) < n,
        forall|i: int| 0 <= i < n ==> s.contains(#[trigger] (i as usize)),
    ensures
        s.len() == n,
{
    lemma_distinct_below(s, n);
    let ints = s.map_values(|x: usize| x as int);
    assert(ints.no_duplicates());
    let range = vstd::set_lib::set_int_range(0, n as int);
    vstd::set_lib::lemma_int_range(0, n as int);
    ints.unique_seq_to_set();
    assert forall|i: int| range.contains(i) implies ints.to_set().contains(i) by {
        assert(s.contains(i as usize));
        let p = choose|p: int| 0 <= p < s.len() && s[p] == i as usize;
        assert(ints[p] == i);
    }
    vstd::set_lib::lemma_len_subset(range, ints.to_set());
}

/// What holds between two rounds of the sort: `out` is what has been emitted,
/// `queue` what is ready to be.
spec fn sorting(deps: Seq<Seq<usize>>, out: Seq<usize>, queue: Seq<usize>) -> bool {
    &&& is_schedule(deps, out)
    &&& (out + queue).no_duplicates()
    &&& forall|v: usize|
        (out + queue).contains(v) <==> v < deps.len() && #[trigger] released(deps, out, v)
    &&& by_release(deps, out, out + queue)
}

proof fn lemma_sorting_starts(deps: Seq<Seq<usize>>, queue: Seq<usize>)
    requires
        deps.len() <= usize::MAX,
        forall|p: int, q: int| 0 <= p < q < queue.len() ==> queue[p] < queue[q],
        forall|v: usize| #[trigger]
            queue.contains(v) <==> v < deps.len() && missing(deps[v as int], Seq::empty()) == 0,
    ensures
        sorting(deps, Seq::empty(), queue),
{
    let out = Seq::<usize>::empty();
    assert(out + queue =~= queue);
    assert forall|v: usize|
        (out + queue).contains(v) <==> v < deps.len() && #[trigger] released(deps, out, v) by {
        if v < deps.len() {
            lemma_missing_none(deps[v as int], out);
        }
        assert(queue.contains(v) == (v < deps.len() && missing(deps[v as int], out) == 0));
    }
    assert forall|p: int, q: int| 0 <= p < q < queue.len() implies goes_before(
        deps,
        out,
        #[trigger] queue[p],
        #[trigger] queue[q],
    ) by {
        assert(queue.contains(queue[p]) && queue.contains(queue[q]));
        assert(released(deps, out, queue[p]) && released(deps, out, queue[q]));
        assert forall|t: int| 0 <= t <= out.len() implies released(deps, out.take(t), queue[p])
            == #[trigger] released(deps, out.take(t), queue[q]) by {
            assert(out.take(t) =~= out);
        }
    }
}

/// One round: the head of the queue is emitted, and the nodes it releases are
/// appended to the queue in index order.
proof fn lemma_sorting_round(
    deps: Seq<Seq<usize>>,
    out: Seq<usize>,
    queue: Seq<usize>,
    freed: Seq<usize>,
)
    requires
        sorting(deps, out, queue),
        queue.len() > 0,
        forall|p: int, q: int| 0 <= p < q < freed.len() ==> freed[p] < freed[q],
        forall|v: usize| #[trigger]
            freed.contains(v) <==> v < deps.len() && !released(deps, out, v) && released(
                deps,
                out.push(queue[0]),
                v,
            ),
    ensures
        sorting(deps, out.push(queue[0]), queue.drop_first() + freed),
{
    let i = queue[0];
    let all = out + queue;
    let out2 = out.push(i);
    let queue2 = queue.drop_first() + freed;
    let all2 = out2 + queue2;
    let len = out.len() as int;
    assert(all2 =~= all + freed);
    assert(out2.take(len) =~= out);
    assert(out2.take(len + 1) =~= out2);
    assert(out.take(len) =~= out);
    assert forall|t: int| 0 <= t <= len implies out2.take(t) == out.take(t) by {
        assert(out2.take(t) =~= out.take(t));
    }
    assert(all[len] == i);
    assert(all.contains(i));
    assert(released(deps, out, i));
    assert forall|j: int| 0 <= j < all.len() implies released(deps, out, all[j]) && all[j]
        < deps.len() by {
        assert(all.contains(all[j]));
    }
    assert forall|j: int| 0 <= j < freed.len() implies !released(deps, out, #[trigger] freed[j])
        && released(deps, out2, freed[j]) && freed[j] < deps.len() by {
        assert(freed.contains(freed[j]));
    }
    // The emitted nodes stay a schedule.
    assert(out2.no_duplicates()) by {
        assert forall|p: int, q: int| 0 <= p < out2.len() && 0 <= q < out2.len() && p != q implies out2[p]
            != out2[q] by {
            assert(out2[p] == all[p] && out2[q] == all[q]);
        }
    }
    assert forall|p: int| 0 <= p < out2.len() implies (#[trigger] out2[p]) < deps.len() by {
        assert(out2[p] == all[p]);
    }
    assert forall|p: int| 0 <= p < out2.len() implies released(
        deps,
        out2.take(p),
        #[trigger] out2[p],
    ) by {
        if p < len {
            assert(out[p] == out2[p]);
        }
    }
    assert(all2.no_duplicates()) by {
        assert forall|p: int, q: int| 0 <= p < all2.len() && 0 <= q < all2.len() && p != q implies all2[p]
            != all2[q] by {
            if p < all.len() && q < all.len() {
                assert(all2[p] == all[p] && all2[q] == all[q]);
            } else if p < all.len() {
                assert(all2[q] == freed[q - all.len()]);
                assert(all2[p] == all[p]);
            } else if q < all.len() {
                assert(all2[p] == freed[p - all.len()]);
                assert(all2[q] == all[q]);
            } else {
                assert(all2[p] == freed[p - all.len()]);
                assert(all2[q] == freed[q - all.len()]);
            }
        }
    }
    assert forall|v: usize|
        all2.contains(v) <==> v < deps.len() && #[trigger] released(deps, out2, v) by {
        if released(deps, out, v) {
            lemma_released_monotone(deps, out2, len, len + 1, v);
        }
        if all2.contains(v) {
            let j = choose|j: int| 0 <= j < all2.len() && all2[j] == v;
            if j < all.len() {
                assert(all[j] == v);
                assert(all.contains(v));
            } else {
                assert(freed[j - all.len()] == v);
            }
        }
        if v < deps.len() && released(deps, out2, v) {
            if released(deps, out, v) {
                assert(all.contains(v));
                let j = choose|j: int| 0 <= j < all.len() && all[j] == v;
                assert(all2[j] == v);
            } else {
                assert(freed.contains(v));
                let j = choose|j: int| 0 <= j < freed.len() && freed[j] == v;
                assert(all2[all.len() + j] == v);
            }
        }
    }
    assert forall|p: int, q: int| 0 <= p < q < all2.len() implies goes_before(
        deps,
        out2,
        #[trigger] all2[p],
        #[trigger] all2[q],
    ) by {
        let u = all2[p];
        let v = all2[q];
        if q < all.len() {
            assert(u == all[p] && v == all[q]);
            lemma_released_monotone(deps, out2, len, len + 1, u);
            lemma_released_monotone(deps, out2, len, len + 1, v);
            assert(goes_before(deps, out, u, v));
            if exists|t: int|
                0 <= t <= out.len() && released(deps, out.take(t), u) && !#[trigger] released(
                    deps,
                    out.take(t),
                    v,
                ) {
                let t = choose|t: int|
                    0 <= t <= out.len() && released(deps, out.take(t), u) && !#[trigger] released(
                        deps,
                        out.take(t),
                        v,
                    );
                assert(!released(deps, out2.take(t), v));
            } else {
                assert forall|t: int| 0 <= t <= out2.len() implies released(deps, out2.take(t), u)
                    == #[trigger] released(deps, out2.take(t), v) by {
                    if t <= len {
                        assert(released(deps, out.take(t), u) == released(deps, out.take(t), v));
                    }
                }
            }
        } else if p < all.len() {
            assert(u == all[p] && v == freed[q - all.len()]);
            assert(released(deps, out2.take(len), u) && !released(deps, out2.take(len), v));
        } else {
            assert(u == freed[p - all.len()] && v == freed[q - all.len()]);
            assert forall|t: int| 0 <= t <= out2.len() implies released(deps, out2.take(t), u)
                == #[trigger] released(deps, out2.take(t), v) by {
                if t <= len {
                    if released(deps, out.take(t), u) {
                        lemma_released_monotone(deps, out, t, len, u);
                    }
                    if released(deps, out.take(t), v) {
                        lemma_released_monotone(deps, out, t, len, v);
                    }
                }
            }
        }
    }
}

/// What `outgoing` holds once the lists of the nodes below `v` and the first `k`
/// entries of the list of `v` are entered: in row `d`, in index order, each node
/// as often as it lists `d`.
spec fn entered(
    deps: Seq<Seq<usize>>,
    outgoing: Seq<Vec<usize>>,
    v: int,
    k: int,
) -> bool {
    &&& outgoing.len() == deps.len()
    &&& forall|d: int, w: usize|
        0 <= d < outgoing.len() && w < deps.len() ==> #[trigger] occurrences(outgoing[d]@, w) == if w < v {
            occurrences(deps[w as int], d as usize)
        } else if w == v {
            occurrences(deps[w as int].take(k), d as usize)
        } else {
            0
        }
    &&& forall|d: int, a: int|
        0 <= d < outgoing.len() && 0 <= a < outgoing[d]@.len() ==> (#[trigger] outgoing[d]@[a]) <= v
            && outgoing[d]@[a] < deps.len()
    &&& forall|d: int, a: int, b: int|
        0 <= d < outgoing.len() && 0 <= a < b < outgoing[d]@.len() ==> #[trigger] outgoing[d]@[a]
            <= #[trigger] outgoing[d]@[b]
}

/// For each node, the nodes that list it, once per listing and in index order.
fn dependents(deps: &Vec<Vec<usize>>) -> (outgoing: Vec<Vec<usize>>)
    requires
        in_range(lists(deps@)),
    ensures
        entered(lists(deps@), outgoing@, deps@.len() as int, 0),
{
    let ghost graph = lists(deps@);
    let n: usize = deps.len();
    let mut outgoing: Vec<Vec<usize>> = Vec::new();
    let mut d: usize = 0;
    while d < n
        invariant
            d <= n,
            outgoing@.len() == d,
            forall|e: int| 0 <= e < d ==> (#[trigger] outgoing@[e])@ == Seq::<usize>::empty(),
        decreases n - d,
    {
        outgoing.push(Vec::new());
        d += 1;
    }
    let mut v: usize = 0;
    assert(n > 0 ==> graph[0].take(0) =~= Seq::empty());
    while v < n
        invariant
            v <= n,
            n == deps@.len(),
            graph == lists(deps@),
            in_range(graph),
            entered(graph, outgoing@, v as int, 0),
        decreases n - v,
    {
        let mut k: usize = 0;
        while k < deps[v].len()
            invariant
                v < n,
                n == deps@.len(),
                k <= deps@[v as int]@.len(),
                graph == lists(deps@),
                in_range(graph),
                entered(graph, outgoing@, v as int, k as int),
            decreases deps@[v as int]@.len() - k,
        {
            let target: usize = deps[v][k];
            let ghost before = outgoing@;
            assert(graph[v as int][k as int] == target);
            outgoing[target].push(v);
            proof {
                let list = graph[v as int];
                assert forall|d: int, w: usize| 0 <= d < outgoing@.len() && w < graph.len() implies #[trigger] occurrences(outgoing@[d]@, w)
                    == if w < v {
                    occurrences(graph[w as int], d as usize)
                } else if w == v {
                    occurrences(graph[w as int].take(k + 1), d as usize)
                } else {
                    0
                } by {
                    lemma_occurrences_take(list, k as int, d as usize);
                    let shown = occurrences(before[d]@, w);
                    if d == target {
                        assert(outgoing@[d]@ =~= before[d]@.push(v));
                        assert(outgoing@[d]@.drop_last() =~= before[d]@);
                        assert(outgoing@[d]@.last() == v);
                        assert(list[k as int] == d as usize);
                        assert(occurrences(outgoing@[d]@, w) == shown + if v == w { 1nat } else { 0nat });
                    } else {
                        assert(list[k as int] != d as usize);
                        assert(outgoing@[d]@ == before[d]@);
                    }
                }
            }
            k += 1;
        }
        proof {
            assert(graph[v as int].take(k as int) =~= graph[v as int]);
            if v + 1 < n {
                assert(graph[v + 1].take(0) =~= Seq::empty());
            }
        }
        v += 1;
    }
    outgoing
}

/// Result of [`start_order`].
pub struct StartOrder {
    /// The nodes that can be started, in start order.
    pub order: Vec<usize>,
    /// For each node, how many of its listed dependencies never start.
    pub blocked_by: Vec<usize>,
}

/// Sort a dependency graph by Kahn's algorithm.
///
/// Nodes with no dependencies come first, by index; every other node is queued
/// when the last of its dependencies is emitted. Nodes on a cycle, or depending
/// on one, are left out.
pub fn start_order(deps: &Vec<Vec<usize>>) -> (sorted: StartOrder)
    requires
        in_range(lists(deps@)),
    ensures
        is_start_order(lists(deps@), sorted.order@),
        sorted.blocked_by@.len() == deps@.len(),
        forall|v: int|
            0 <= v < deps@.len() ==> (#[trigger] sorted.blocked_by@[v] > 0
                <==> !startable(lists(deps@), v as usize)),
{
    let ghost graph = lists(deps@);
    let n: usize = deps.len();
    let outgoing = dependents(deps);
    let mut indegree: Vec<usize> = Vec::new();
    let mut queue: VecDeque<usize> = VecDeque::new();
    let ghost nothing = Seq::<usize>::empty();
    let mut i: usize = 0;
    while i < n
        invariant
            i <= n,
            n == deps@.len(),
            graph == lists(deps@),
            nothing == Seq::<usize>::empty(),
            indegree@.len() == i,
            forall|v: int| 0 <= v < i ==> #[trigger] indegree@[v] == missing(graph[v], nothing),
            forall|p: int, q: int| 0 <= p < q < queue@.len() ==> queue@[p] < queue@[q],
            forall|p: int| 0 <= p < queue@.len() ==> queue@[p] < i,
            forall|v: usize| #[trigger]
                queue@.contains(v) <==> v < i && missing(graph[v as int], nothing) == 0,
        decreases n - i,
    {
        let listed: usize = deps[i].len();
        let ghost before = queue@;
        proof {
            lemma_nothing_started(graph[i as int]);
        }
        indegree.push(listed);
        if listed == 0 {
            queue.push_back(i);
            assert forall|v: usize| #[trigger]
                queue@.contains(v) <==> before.contains(v) || v == i by {
                lemma_push_contains(before, i, v);
            }
        }
        i += 1;
    }
    let mut order: Vec<usize> = Vec::new();
    proof {
        lemma_sorting_starts(graph, queue@);
        assert(order@ =~= nothing);
    }
    loop
        invariant
            n == deps@.len(),
            graph == lists(deps@),
            in_range(graph),
            entered(graph, outgoing@, n as int, 0),
            indegree@.len() == n,
            forall|v: int| 0 <= v < n ==> #[trigger] indegree@[v] == missing(graph[v], order@),
            sorting(graph, order@, queue@),
        decreases n - order@.len(),
    {
        let ghost out = order@;
        let ghost waiting = queue@;
        let ghost all = out + waiting;
        let head: usize = match queue.pop_front() {
            Some(head) => head,
            None => {
                proof {
                    assert(all =~= order@);
                    assert forall|v: int| 0 <= v < n implies (#[trigger] indegree@[v] > 0
                        <==> !startable(graph, v as usize)) by {
                        lemma_missing_none(graph[v], order@);
                        lemma_start_order_complete(graph, order@, v as usize);
                        assert(all.contains(v as usize) == released(graph, order@, v as usize));
                    }
                }
                return StartOrder { order, blocked_by: indegree };
            },
        };
        proof {
            assert(all[out.len() as int] == head);
            assert(all.contains(head));
            assert(released(graph, out, head));
            assert(!out.contains(head)) by {
                if out.contains(head) {
                    let j = choose|j: int| 0 <= j < out.len() && out[j] == head;
                    assert(all[j] == all[out.len() as int]);
                }
            }
        }
        order.push(head);
        let ghost row = outgoing@[head as int]@;
        let ghost rest = queue@;
        assert(rest =~= waiting.drop_first());
        let ghost mut freed = Seq::<usize>::empty();
        let mut m: usize = 0;
        assert(row.take(0) =~= Seq::empty());
        assert(queue@ =~= rest + freed);
        while m < outgoing[head].len()
            invariant
                n == deps@.len(),
                graph == lists(deps@),
                head < n,
                entered(graph, outgoing@, n as int, 0),
                row == outgoing@[head as int]@,
                m <= row.len(),
                !out.contains(head),
                indegree@.len() == n,
                forall|v: int|
                    0 <= v < n ==> #[trigger] indegree@[v] + occurrences(row.take(m as int), v as usize)
                        == missing(graph[v], out),
                queue@ == rest + freed,
                forall|p: int, q: int| 0 <= p < q < freed.len() ==> freed[p] < freed[q],
                forall|p: int| 0 <= p < freed.len() ==> m > 0 && #[trigger] freed[p] <= row[m - 1],
                forall|v: usize| #[trigger]
                    freed.contains(v) <==> v < n && indegree@[v as int] == 0 && occurrences(
                        row.take(m as int),
                        v,
                    ) > 0,
            decreases row.len() - m,
        {
            let next: usize = outgoing[head][m];
            let ghost before = indegree@;
            let ghost freed_before = freed;
            proof {
                assert(row[m as int] == next);
                lemma_occurrences_take(row, m as int, next);
                lemma_occurrences_take(row, m + 1, next);
                lemma_missing_push(graph[next as int], out, head);
                assert(occurrences(row, next) == occurrences(graph[next as int], head));
                assert(before[next as int] > 0);
                assert forall|v: usize| v < n implies #[trigger] occurrences(row.take(m + 1), v)
                    == occurrences(row.take(m as int), v) + if v == next {
                    1nat
                } else {
                    0nat
                } by {
                    lemma_occurrences_take(row, m as int, v);
                }
            }
            indegree[next] = indegree[next] - 1;
            if indegree[next] == 0 {
                queue.push_back(next);
                proof {
                    assert(!freed.contains(next));
                    freed = freed.push(next);
                    assert(queue@ =~= rest + freed);
                    assert forall|p: int| 0 <= p < freed_before.len() implies freed_before[p] < next by {
                        assert(freed_before.contains(freed_before[p]));
                        assert(freed_before[p] <= row[m - 1]);
                        assert(row[m - 1] <= row[m as int]);
                    }
                    assert forall|v: usize| #[trigger]
                        freed.contains(v) <==> v < n && indegree@[v as int] == 0 && occurrences(
                            row.take(m + 1),
                            v,
                        ) > 0 by {
                        lemma_push_contains(freed_before, next, v);
                        if v < n {
                            assert(occurrences(row.take(m + 1), v) >= 0);
                        }
                    }
                }
            } else {
                proof {
                    assert forall|v: usize| #[trigger]
                        freed.contains(v) <==> v < n && indegree@[v as int] == 0 && occurrences(
                            row.take(m + 1),
                            v,
                        ) > 0 by {
                        if v < n {
                            assert(occurrences(row.take(m + 1), v) >= 0);
                        }
                    }
                }
            }
            assert forall|p: int| 0 <= p < freed.len() implies #[trigger] freed[p] <= row[m as int] by {
                if p < freed_before.len() {
                    assert(freed_before[p] <= row[m - 1]);
                    assert(row[m - 1] <= row[m as int]);
                }
            }
            assert forall|v: int| 0 <= v < n implies #[trigger] indegree@[v] + occurrences(
                row.take(m + 1),
                v as usize,
            ) == missing(graph[v], out) by {
                assert(before[v] + occurrences(row.take(m as int), v as usize) == missing(
                    graph[v],
                    out,
                ));
                assert(occurrences(row.take(m + 1), v as usize) >= 0);
            }
            m += 1;
        }
        proof {
            assert(row.take(m as int) =~= row);
            assert forall|v: int| 0 <= v < n implies #[trigger] indegree@[v] == missing(
                graph[v],
                order@,
            ) by {
                lemma_missing_push(graph[v], out, head);
                assert(occurrences(row, v as usize) == occurrences(graph[v], head));
            }
            assert forall|v: usize| #[trigger]
                freed.contains(v) <==> v < graph.len() && !released(graph, out, v) && released(
                    graph,
                    out.push(head),
                    v,
                ) by {
                if v < n {
                    lemma_missing_none(graph[v as int], out);
                    lemma_missing_none(graph[v as int], out.push(head));
                    lemma_missing_push(graph[v as int], out, head);
                    assert(indegree@[v as int] == missing(graph[v as int], order@));
                    assert(occurrences(row, v) == occurrences(graph[v as int], head));
                }
            }
            lemma_sorting_round(graph, out, waiting, freed);
            assert(order@ =~= out.push(head));
            lemma_distinct_below(order@, n as nat);
        }
    }
}

/// Before anything has started, every listed dependency is missing.
proof fn lemma_nothing_started(list: Seq<usize>)
    ensures
        missing(list, Seq::empty()) == list.len(),
    decreases list.len(),
{
    if list.len() > 0 {
        lemma_nothing_started(list.drop_last());
    }
}

/// Node `u` lists node `v` as a dependency.
pub open spec fn depends_on(deps: Seq<Seq<usize>>, u: usize, v: usize) -> bool {
    deps[u as int].contains(v)
}

/// A non-empty walk along dependencies that comes back to where it began.
pub open spec fn is_cycle(deps: Seq<Seq<usize>>, walk: Seq<usize>) -> bool {
    &&& walk.len() > 0
    &&& forall|p: int| 0 <= p < walk.len() ==> (#[trigger] walk[p]) < deps.len()
    &&& forall|p: int|
        0 < p < walk.len() ==> depends_on(deps, walk[p - 1], #[trigger] walk[p])
    &&& depends_on(deps, walk.last(), walk[0])
}

/// Some node can never be started exactly when the graph has a cycle.
pub proof fn lemma_stuck_iff_cycle(deps: Seq<Seq<usize>>)
    requires
        in_range(deps),
        deps.len() <= usize::MAX,
    ensures
        (exists|v: usize| v < deps.len() && !#[trigger] startable(deps, v)) <==> (exists|
            walk: Seq<usize>,
        | #[trigger] is_cycle(deps, walk)),
{
    if exists|v: usize| v < deps.len() && !#[trigger] startable(deps, v) {
        let v = choose|v: usize| v < deps.len() && !#[trigger] startable(deps, v);
        let walk = lemma_stuck_walk(deps, v, deps.len() + 1);
        lemma_repeated_node(deps, walk);
    }
    if exists|walk: Seq<usize>| #[trigger] is_cycle(deps, walk) {
        let walk = choose|walk: Seq<usize>| #[trigger] is_cycle(deps, walk);
        if startable(deps, walk[0]) {
            let order = choose|order: Seq<usize>|
                is_schedule(deps, order) && order.contains(walk[0]);
            let p = choose|p: int| 0 <= p < order.len() && order[p] == walk[0];
            assert(walk.contains(order[p]));
            lemma_schedule_avoids_cycle(deps, order, walk, p);
        }
        assert(!startable(deps, walk[0]));
    }
}

pub proof fn lemma_schedule_avoids_cycle(
    deps: Seq<Seq<usize>>,
    order: Seq<usize>,
    walk: Seq<usize>,
    p: int,
)
    requires
        is_schedule(deps, order),
        is_cycle(deps, walk),
        0 <= p < order.len(),
    ensures
        !walk.contains(order[p]),
    decreases p,
{
    if walk.contains(order[p]) {
        let i = choose|i: int| 0 <= i < walk.len() && walk[i] == order[p];
        let next = if i + 1 < walk.len() {
            walk[i + 1]
        } else {
            walk[0]
        };
        assert(walk.contains(next));
        assert(depends_on(deps, order[p], next));
        let list = deps[order[p] as int];
        let k = choose|k: int| 0 <= k < list.len() && list[k] == next;
        assert(order.take(p).contains(list[k]));
        let j = choose|j: int| 0 <= j < order.take(p).len() && order.take(p)[j] == next;
        lemma_schedule_avoids_cycle(deps, order, walk, j);
    }
}

/// A node that cannot be started lists one that cannot be started either.
pub proof fn lemma_stuck_dependency(deps: Seq<Seq<usize>>, v: usize) -> (w: usize)
    requires
        in_range(deps),
        v < deps.len(),
        !startable(deps, v),
    ensures
        w < deps.len(),
        depends_on(deps, v, w),
        !startable(deps, w),
{
    let order = lemma_closed_schedule(deps, Seq::empty());
    if released(deps, order, v) {
        assert(order.contains(v));
        assert(startable(deps, v));
    }
    let k = choose|k: int|
        0 <= k < deps[v as int].len() && !order.contains(#[trigger] deps[v as int][k]);
    let w = deps[v as int][k];
    if startable(deps, w) {
        let other = choose|other: Seq<usize>| is_schedule(deps, other) && other.contains(w);
        let p = choose|p: int| 0 <= p < other.len() && other[p] == w;
        lemma_closed_holds(deps, order, other, p);
    }
    w
}

/// Any schedule can be extended until it leaves nothing released behind.
proof fn lemma_closed_schedule(deps: Seq<Seq<usize>>, from: Seq<usize>) -> (order: Seq<usize>)
    requires
        is_schedule(deps, from),
    ensures
        is_schedule(deps, order),
        forall|v: usize| v < deps.len() && #[trigger] released(deps, order, v) ==> order.contains(v),
    decreases deps.len() - from.len(),
{
    lemma_distinct_below(from, deps.len());
    if exists|v: usize|
        v < deps.len() && #[trigger] released(deps, from, v) && !from.contains(v) {
        let v = choose|v: usize|
            v < deps.len() && #[trigger] released(deps, from, v) && !from.contains(v);
        let longer = from.push(v);
        assert forall|p: int| 0 <= p < longer.len() implies released(
            deps,
            longer.take(p),
            #[trigger] longer[p],
        ) by {
            if p < from.len() {
                assert(longer[p] == from[p]);
                assert(longer.take(p) =~= from.take(p));
            } else {
                assert(longer.take(p) =~= from);
            }
        }
        assert forall|p: int| 0 <= p < longer.len() implies (#[trigger] longer[p]) < deps.len() by {
            if p < from.len() {
                assert(longer[p] == from[p]);
            }
        }
        lemma_distinct_below(longer, deps.len());
        lemma_closed_schedule(deps, longer)
    } else {
        from
    }
}

proof fn lemma_closed_holds(deps: Seq<Seq<usize>>, order: Seq<usize>, other: Seq<usize>, p: int)
    requires
        forall|v: usize| v < deps.len() && #[trigger] released(deps, order, v) ==> order.contains(v),
        is_schedule(deps, other),
        0 <= p < other.len(),
    ensures
        order.contains(other[p]),
    decreases p,
{
    let v = other[p];
    assert forall|k: int| 0 <= k < deps[v as int].len() implies order.contains(
        #[trigger] deps[v as int][k],
    ) by {
        let x = deps[v as int][k];
        assert(other.take(p).contains(x));
        let j = choose|j: int| 0 <= j < other.take(p).len() && other.take(p)[j] == x;
        lemma_closed_holds(deps, order, other, j);
    }
    assert(released(deps, order, v));
}

/// From a node that cannot be started, dependencies can be followed forever.
proof fn lemma_stuck_walk(deps: Seq<Seq<usize>>, v: usize, len: nat) -> (walk: Seq<usize>)
    requires
        in_range(deps),
        v < deps.len(),
        !startable(deps, v),
        len > 0,
    ensures
        walk.len() == len,
        forall|p: int| 0 <= p < len ==> (#[trigger] walk[p]) < deps.len(),
        forall|p: int| 0 < p < len ==> depends_on(deps, walk[p - 1], #[trigger] walk[p]),
        !startable(deps, walk.last()),
    decreases len,
{
    if len == 1 {
        seq![v]
    } else {
        let front = lemma_stuck_walk(deps, v, (len - 1) as nat);
        let w = lemma_stuck_dependency(deps, front.last());
        let walk = front.push(w);
        assert forall|p: int| 0 < p < len implies depends_on(
            deps,
            walk[p - 1],
            #[trigger] walk[p],
        ) by {
            if p < len - 1 {
                assert(walk[p] == front[p]);
                assert(walk[p - 1] == front[p - 1]);
            } else {
                assert(walk[p - 1] == front.last());
            }
        }
        walk
    }
}

/// A walk longer than the graph meets some node twice, which closes a cycle.
proof fn lemma_repeated_node(deps: Seq<Seq<usize>>, walk: Seq<usize>)
    requires
        walk.len() > deps.len(),
        forall|p: int| 0 <= p < walk.len() ==> (#[trigger] walk[p]) < deps.len(),
        forall|p: int| 0 < p < walk.len() ==> depends_on(deps, walk[p - 1], #[trigger] walk[p]),
    ensures
        exists|cycle: Seq<usize>| #[trigger] is_cycle(deps, cycle),
{
    if walk.no_duplicates() {
        lemma_distinct_below(walk, deps.len());
    }
    let (a, b) = choose|a: int, b: int|
        0 <= a < walk.len() && 0 <= b < walk.len() && a != b && walk[a] == walk[b];
    let (lo, hi) = if a < b {
        (a, b)
    } else {
        (b, a)
    };
    let cycle = walk.subrange(lo, hi);
    assert forall|p: int| 0 < p < cycle.len() implies depends_on(
        deps,
        cycle[p - 1],
        #[trigger] cycle[p],
    ) by {
        assert(depends_on(deps, walk[lo + p - 1], walk[lo + p]));
    }
    assert(depends_on(deps, walk[hi - 1], walk[hi]));
    assert(is_cycle(deps, cycle));
}

} // verus!
