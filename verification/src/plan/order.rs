//! Insertion order by a strict order, and the evaluation order of transitions.

use crate::plan::node::{EdgeView, FlowTransition};
use crate::plan::pattern::{specificity_of, PatternSpecificity};
use crate::text::{
    comes_before, same_text, text_less, text_less_strict_total, text_less_transitive,
};
use vstd::prelude::*;

verus! {

/// `x` placed behind every item that does not come after it, reading `s` from
/// its end.
pub open spec fn insert_by<A>(s: Seq<A>, x: A, before: spec_fn(A, A) -> bool) -> Seq<A>
    decreases s.len(),
{
    if s.len() > 0 && before(x, s.last()) {
        insert_by(s.drop_last(), x, before).push(s.last())
    } else {
        s.push(x)
    }
}

/// The items of `s` put in order by `before`; equal items keep their order.
pub open spec fn sort_by<A>(s: Seq<A>, before: spec_fn(A, A) -> bool) -> Seq<A>
    decreases s.len(),
{
    if s.len() == 0 {
        s
    } else {
        insert_by(sort_by(s.drop_last(), before), s.last(), before)
    }
}

/// Each item comes before every later one.
pub open spec fn in_order<A>(s: Seq<A>, before: spec_fn(A, A) -> bool) -> bool {
    forall|i: int, j: int| 0 <= i < j < s.len() ==> before(#[trigger] s[i], #[trigger] s[j])
}

/// `before` is a strict total order among the items of `s`.
pub open spec fn orders<A>(s: Seq<A>, before: spec_fn(A, A) -> bool) -> bool {
    &&& forall|i: int, j: int|
        0 <= i < s.len() && 0 <= j < s.len() && i != j ==> before(#[trigger] s[i], #[trigger] s[j])
            || before(s[j], s[i])
    &&& forall|a: A, b: A| #[trigger] before(a, b) ==> !before(b, a)
    &&& forall|a: A, b: A, c: A| #[trigger]
        before(a, b) && #[trigger] before(b, c) ==> before(a, c)
}

/// The order of texts.
pub open spec fn text_order() -> spec_fn(Seq<char>, Seq<char>) -> bool {
    |a: Seq<char>, b: Seq<char>| text_less(a, b)
}

/// Inserting at the place found from the end is `insert_by`.
pub proof fn insert_at_place<A>(s: Seq<A>, x: A, before: spec_fn(A, A) -> bool, place: int)
    requires
        0 <= place <= s.len(),
        forall|k: int| place <= k < s.len() ==> before(x, #[trigger] s[k]),
        place == 0 || !before(x, s[place - 1]),
    ensures
        insert_by(s, x, before) == s.insert(place, x),
    decreases s.len(),
{
    if place < s.len() {
        let shorter = s.drop_last();
        assert(before(x, s[s.len() - 1]));
        assert forall|k: int| place <= k < shorter.len()
            implies before(x, #[trigger] shorter[k]) by {
            assert(shorter[k] == s[k]);
        }
        insert_at_place(shorter, x, before, place);
        assert(shorter.insert(place, x).push(s.last()) =~= s.insert(place, x));
    } else {
        assert(s.push(x) =~= s.insert(place, x));
    }
}

/// Sorting keeps the items.
pub proof fn sort_keeps_items<A>(s: Seq<A>, before: spec_fn(A, A) -> bool)
    ensures
        sort_by(s, before).to_multiset() == s.to_multiset(),
        sort_by(s, before).len() == s.len(),
        forall|x: A| #[trigger] sort_by(s, before).contains(x) <==> s.contains(x),
    decreases s.len(),
{
    broadcast use vstd::seq_lib::group_to_multiset_ensures;

    if s.len() > 0 {
        sort_keeps_items(s.drop_last(), before);
        insert_keeps_items(sort_by(s.drop_last(), before), s.last(), before);
        assert(s.drop_last().push(s.last()) =~= s);
    }
    assert forall|x: A| #[trigger] sort_by(s, before).contains(x) <==> s.contains(x) by {
        assert(sort_by(s, before).to_multiset().contains(x) <==> sort_by(s, before).contains(x));
        assert(s.to_multiset().contains(x) <==> s.contains(x));
    }
}

proof fn insert_keeps_items<A>(s: Seq<A>, x: A, before: spec_fn(A, A) -> bool)
    ensures
        insert_by(s, x, before).to_multiset() == s.to_multiset().insert(x),
        insert_by(s, x, before).len() == s.len() + 1,
    decreases s.len(),
{
    broadcast use vstd::seq_lib::group_to_multiset_ensures;

    if s.len() > 0 && before(x, s.last()) {
        insert_keeps_items(s.drop_last(), x, before);
        assert(s.drop_last().push(s.last()) =~= s);
        assert(s.to_multiset().insert(x) =~= s.drop_last().to_multiset().insert(x).insert(
            s.last(),
        ));
    }
}

proof fn insert_keeps_order<A>(s: Seq<A>, x: A, before: spec_fn(A, A) -> bool)
    requires
        in_order(s, before),
        forall|i: int| 0 <= i < s.len() ==> before(x, #[trigger] s[i]) || before(s[i], x),
        forall|a: A, b: A, c: A| #[trigger]
            before(a, b) && #[trigger] before(b, c) ==> before(a, c),
    ensures
        in_order(insert_by(s, x, before), before),
        forall|i: int|
            0 <= i < insert_by(s, x, before).len() ==> #[trigger] insert_by(s, x, before)[i] == x
                || s.contains(insert_by(s, x, before)[i]),
    decreases s.len(),
{
    let r = insert_by(s, x, before);
    if s.len() > 0 && before(x, s.last()) {
        let shorter = s.drop_last();
        assert forall|i: int| 0 <= i < shorter.len() implies before(x, #[trigger] shorter[i])
            || before(shorter[i], x) by {
            assert(shorter[i] == s[i]);
        }
        assert forall|i: int, j: int| 0 <= i < j < shorter.len() implies before(
            #[trigger] shorter[i],
            #[trigger] shorter[j],
        ) by {
            assert(shorter[i] == s[i] && shorter[j] == s[j]);
        }
        insert_keeps_order(shorter, x, before);
        let inner = insert_by(shorter, x, before);
        assert forall|i: int| 0 <= i < inner.len()
            implies before(#[trigger] inner[i], s.last()) by {
            if inner[i] != x {
                let k = choose|k: int| 0 <= k < shorter.len() && shorter[k] == inner[i];
                assert(s[k] == inner[i]);
                assert(before(s[k], s[s.len() - 1]));
            }
        }
        assert forall|i: int, j: int| 0 <= i < j < r.len() implies before(
            #[trigger] r[i],
            #[trigger] r[j],
        ) by {
            assert(r[i] == inner[i]);
            if j < inner.len() {
                assert(r[j] == inner[j]);
            }
        }
        assert forall|i: int| 0 <= i < r.len() implies #[trigger] r[i] == x || s.contains(r[i]) by {
            if i < inner.len() {
                if inner[i] != x {
                    let k = choose|k: int| 0 <= k < shorter.len() && shorter[k] == inner[i];
                    assert(s[k] == inner[i]);
                }
            } else {
                assert(r[i] == s[s.len() - 1]);
            }
        }
    } else {
        assert forall|i: int, j: int| 0 <= i < j < r.len() implies before(
            #[trigger] r[i],
            #[trigger] r[j],
        ) by {
            if j == s.len() {
                let last = s.len() - 1;
                assert(before(s[last], x));
                if i < last {
                    assert(before(s[i], s[last]));
                }
            } else {
                assert(before(s[i], s[j]));
            }
        }
        assert forall|i: int| 0 <= i < r.len() implies #[trigger] r[i] == x || s.contains(r[i]) by {
            if i < s.len() {
                assert(r[i] == s[i]);
            }
        }
    }
}

/// Sorting by a strict total order puts the items in order.
pub proof fn sort_orders<A>(s: Seq<A>, before: spec_fn(A, A) -> bool)
    requires
        orders(s, before),
    ensures
        in_order(sort_by(s, before), before),
    decreases s.len(),
{
    if s.len() > 0 {
        let shorter = s.drop_last();
        assert(orders(shorter, before)) by {
            assert forall|i: int, j: int|
                0 <= i < shorter.len() && 0 <= j < shorter.len() && i != j implies before(
                #[trigger] shorter[i],
                #[trigger] shorter[j],
            ) || before(shorter[j], shorter[i]) by {
                assert(shorter[i] == s[i] && shorter[j] == s[j]);
            }
        }
        sort_orders(shorter, before);
        sort_keeps_items(shorter, before);
        let inner = sort_by(shorter, before);
        assert forall|i: int| 0 <= i < inner.len() implies before(s.last(), #[trigger] inner[i])
            || before(inner[i], s.last()) by {
            assert(inner.contains(inner[i]));
            let k = choose|k: int| 0 <= k < shorter.len() && shorter[k] == inner[i];
            assert(s[k] == inner[i]);
            assert(before(s[k], s[s.len() - 1]) || before(s[s.len() - 1], s[k]));
        }
        insert_keeps_order(inner, s.last(), before);
    }
}

/// Two sequences with the same items in order are equal.
pub proof fn ordered_items_unique<A>(a: Seq<A>, b: Seq<A>, before: spec_fn(A, A) -> bool)
    requires
        in_order(a, before),
        in_order(b, before),
        forall|x: A, y: A| #[trigger] before(x, y) ==> !before(y, x),
        a.to_multiset() == b.to_multiset(),
    ensures
        a == b,
    decreases a.len(),
{
    broadcast use vstd::seq_lib::group_to_multiset_ensures;

    assert(a.len() == a.to_multiset().len());
    assert(b.len() == b.to_multiset().len());
    if a.len() == 0 {
        assert(a =~= b);
    } else {
        let x = a.last();
        let y = b.last();
        let n = a.len() - 1;
        if x != y {
            assert(a.contains(x)) by {
                assert(a[n] == x);
            }
            assert(b.to_multiset().contains(x));
            assert(b.contains(x));
            let k = choose|k: int| 0 <= k < b.len() && b[k] == x;
            assert(before(b[k], b[n]));
            assert(b.contains(y)) by {
                assert(b[n] == y);
            }
            assert(a.to_multiset().contains(y));
            assert(a.contains(y));
            let m = choose|m: int| 0 <= m < a.len() && a[m] == y;
            assert(before(a[m], a[n]));
            assert(false);
        }
        let a1 = a.drop_last();
        let b1 = b.drop_last();
        assert(a1.push(x) =~= a);
        assert(b1.push(y) =~= b);
        assert(a1.to_multiset() =~= a.to_multiset().remove(x));
        assert(b1.to_multiset() =~= b.to_multiset().remove(y));
        assert forall|i: int, j: int| 0 <= i < j < a1.len() implies before(
            #[trigger] a1[i],
            #[trigger] a1[j],
        ) by {
            assert(a1[i] == a[i] && a1[j] == a[j]);
        }
        assert forall|i: int, j: int| 0 <= i < j < b1.len() implies before(
            #[trigger] b1[i],
            #[trigger] b1[j],
        ) by {
            assert(b1[i] == b[i] && b1[j] == b[j]);
        }
        ordered_items_unique(a1, b1, before);
    }
}

/// Distinct texts are strictly totally ordered.
pub proof fn text_order_orders(s: Seq<Seq<char>>)
    requires
        s.no_duplicates(),
    ensures
        orders(s, text_order()),
{
    let before = text_order();
    assert forall|i: int, j: int|
        0 <= i < s.len() && 0 <= j < s.len() && i != j implies before(
        #[trigger] s[i],
        #[trigger] s[j],
    ) || before(s[j], s[i]) by {
        text_less_strict_total(s[i], s[j]);
    }
    assert forall|a: Seq<char>, b: Seq<char>| #[trigger] before(a, b) implies !before(b, a) by {
        text_less_strict_total(a, b);
    }
    assert forall|a: Seq<char>, b: Seq<char>, c: Seq<char>| #[trigger]
        before(a, b) && #[trigger] before(b, c) implies before(a, c) by {
        text_less_transitive(a, b, c);
    }
}

/// The evaluation order: the more specific pattern first, then the smaller
/// pattern text, then nodes before terminals and the smaller target text.
pub open spec fn edge_before(a: EdgeView, b: EdgeView) -> bool {
    let sa = specificity_of(a.pattern);
    let sb = specificity_of(b.pattern);
    ||| sb.below(sa)
    ||| (sa == sb && text_less(a.pattern, b.pattern))
    ||| (sa == sb && a.pattern == b.pattern && (a.target.rank() < b.target.rank() || (
    a.target.rank() == b.target.rank() && text_less(a.target.key(), b.target.key()))))
}

/// The evaluation order as a relation.
pub open spec fn edge_order() -> spec_fn(EdgeView, EdgeView) -> bool {
    |a: EdgeView, b: EdgeView| edge_before(a, b)
}

/// Transitions with pairwise different patterns are strictly totally ordered.
pub proof fn edge_order_orders(s: Seq<EdgeView>)
    requires
        forall|i: int, j: int|
            0 <= i < j < s.len() ==> (#[trigger] s[i]).pattern != (#[trigger] s[j]).pattern,
    ensures
        orders(s, edge_order()),
{
    let before = edge_order();
    assert forall|i: int, j: int|
        0 <= i < s.len() && 0 <= j < s.len() && i != j implies before(
        #[trigger] s[i],
        #[trigger] s[j],
    ) || before(s[j], s[i]) by {
        PatternSpecificity::strict_total(
            specificity_of(s[i].pattern),
            specificity_of(s[j].pattern),
        );
        text_less_strict_total(s[i].pattern, s[j].pattern);
        if i < j {
            assert(s[i].pattern != s[j].pattern);
        } else {
            assert(s[j].pattern != s[i].pattern);
        }
    }
    assert forall|a: EdgeView, b: EdgeView| #[trigger] before(a, b) implies !before(b, a) by {
        PatternSpecificity::strict_total(specificity_of(a.pattern), specificity_of(b.pattern));
        text_less_strict_total(a.pattern, b.pattern);
        text_less_strict_total(a.target.key(), b.target.key());
    }
    assert forall|a: EdgeView, b: EdgeView, c: EdgeView| #[trigger]
        before(a, b) && #[trigger] before(b, c) implies before(a, c) by {
        edge_before_transitive(a, b, c);
    }
}

proof fn edge_before_transitive(a: EdgeView, b: EdgeView, c: EdgeView)
    requires
        edge_before(a, b),
        edge_before(b, c),
    ensures
        edge_before(a, c),
{
    let sa = specificity_of(a.pattern);
    let sb = specificity_of(b.pattern);
    let sc = specificity_of(c.pattern);
    if sb.below(sa) && sc.below(sb) {
        PatternSpecificity::transitive(sc, sb, sa);
    }
    if text_less(a.pattern, b.pattern) && text_less(b.pattern, c.pattern) {
        text_less_transitive(a.pattern, b.pattern, c.pattern);
    }
    if text_less(a.target.key(), b.target.key()) && text_less(b.target.key(), c.target.key()) {
        text_less_transitive(a.target.key(), b.target.key(), c.target.key());
    }
}

/// Reports whether `a` is evaluated before `b`.
pub(crate) fn evaluated_before(a: &FlowTransition, b: &FlowTransition) -> (r: bool)
    ensures
        r == edge_before(a@, b@),
{
    let sa: PatternSpecificity = a.pattern.specificity();
    let sb: PatternSpecificity = b.pattern.specificity();
    proof {
        PatternSpecificity::strict_total(sa, sb);
        text_less_strict_total(a.pattern@, b.pattern@);
    }
    if sb.is_below(sa) {
        return true;
    }
    if !sa.same(sb) {
        return false;
    }
    if comes_before(a.pattern.as_str(), b.pattern.as_str()) {
        return true;
    }
    if !same_text(a.pattern.as_str(), b.pattern.as_str()) {
        return false;
    }
    let ra: u8 = a.target.rank_of();
    let rb: u8 = b.target.rank_of();
    ra < rb || (ra == rb && comes_before(a.target.key_of(), b.target.key_of()))
}

/// The contents of some transitions, in order.
pub open spec fn edge_views(edges: Seq<FlowTransition>) -> Seq<EdgeView> {
    edges.map_values(|edge: FlowTransition| edge@)
}

/// Adds a transition at its place in the evaluation order.
fn insert_edge(edges: &mut Vec<FlowTransition>, edge: FlowTransition)
    ensures
        edge_views(final(edges)@) == insert_by(edge_views(old(edges)@), edge@, edge_order()),
{
    let mut place: usize = edges.len();
    let ghost views = edge_views(edges@);
    while place > 0 && evaluated_before(&edge, &edges[place - 1])
        invariant
            place <= edges.len(),
            views == edge_views(edges@),
            forall|k: int|
                place <= k < views.len() ==> edge_order()(edge@, #[trigger] views[k]),
        decreases place,
    {
        assert(views[place - 1] == edges@[place - 1]@);
        place = place - 1;
    }
    proof {
        if place > 0 {
            assert(views[place - 1] == edges@[place - 1]@);
        }
        insert_at_place(views, edge@, edge_order(), place as int);
        assert(edge_views(edges@.insert(place as int, edge)) =~= views.insert(
            place as int,
            edge@,
        ));
    }
    edges.insert(place, edge);
}

/// Puts transitions into evaluation order.
pub(crate) fn sort_edges(edges: Vec<FlowTransition>) -> (r: Vec<FlowTransition>)
    ensures
        edge_views(r@) == sort_by(edge_views(edges@), edge_order()),
{
    let mut rest: Vec<FlowTransition> = edges;
    let mut sorted: Vec<FlowTransition> = Vec::new();
    let ghost all = edge_views(edges@);
    let ghost mut done: int = 0;
    proof {
        assert(all.take(0) =~= Seq::empty());
        assert(edge_views(sorted@) =~= Seq::empty());
        assert(all.skip(0) =~= all);
    }
    while rest.len() > 0
        invariant
            0 <= done <= all.len(),
            edge_views(rest@) == all.skip(done),
            edge_views(sorted@) == sort_by(all.take(done), edge_order()),
        decreases rest.len(),
    {
        let ghost before = rest@;
        let edge: FlowTransition = rest.remove(0);
        proof {
            assert(edge_views(before).len() == before.len());
            assert(edge_views(before)[0] == edge@);
            assert(all.skip(done)[0] == all[done]);
            assert(edge_views(rest@) =~= edge_views(before).drop_first());
            assert(all.skip(done).drop_first() =~= all.skip(done + 1));
            assert(all.take(done + 1).drop_last() =~= all.take(done));
            assert(all.take(done + 1).last() == edge@);
        }
        insert_edge(&mut sorted, edge);
        proof {
            done = done + 1;
        }
    }
    proof {
        assert(edge_views(rest@).len() == 0);
        assert(done == all.len());
        assert(all.take(done) =~= all);
    }
    sorted
}

} // verus!
