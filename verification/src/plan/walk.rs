//! The depth-first walk that finds cycles and reachable nodes.
//!
//! Nodes are numbered; `succ[i]` lists the nodes that node `i` leads to, in
//! evaluation order.

use vstd::prelude::*;

verus! {

/// Every listed successor is a node.
pub open spec fn closed_under(succ: Seq<Seq<int>>) -> bool {
    forall|i: int, k: int|
        0 <= i < succ.len() && 0 <= k < succ[i].len() ==> 0 <= #[trigger] succ[i][k] < succ.len()
}

/// Walks from `node`: the first node met again on its own path, or else what
/// has been visited in the end. `depth` bounds the nesting.
pub open spec fn visit_from(
    succ: Seq<Seq<int>>,
    depth: nat,
    node: int,
    visited: Seq<bool>,
    path: Seq<bool>,
) -> Result<Seq<bool>, int>
    decreases depth, 0nat,
{
    if path[node] {
        Err(node)
    } else if visited[node] || depth == 0 {
        Ok(visited)
    } else {
        visit_each(
            succ,
            (depth - 1) as nat,
            succ[node],
            visited.update(node, true),
            path.update(node, true),
        )
    }
}

/// Walks from each of `targets` in turn.
pub open spec fn visit_each(
    succ: Seq<Seq<int>>,
    depth: nat,
    targets: Seq<int>,
    visited: Seq<bool>,
    path: Seq<bool>,
) -> Result<Seq<bool>, int>
    decreases depth, 1 + targets.len(),
{
    if targets.len() == 0 {
        Ok(visited)
    } else {
        match visit_from(succ, depth, targets[0], visited, path) {
            Err(node) => Err(node),
            Ok(seen) => visit_each(succ, depth, targets.drop_first(), seen, path),
        }
    }
}

/// The walk from `entry` over a graph of which nothing has been visited.
pub open spec fn visit_all(succ: Seq<Seq<int>>, entry: int) -> Result<Seq<bool>, int> {
    let none = Seq::new(succ.len(), |i: int| false);
    visit_from(succ, succ.len() + 1, entry, none, none)
}

/// A sequence of nodes, each leading to the next.
pub open spec fn is_trail(succ: Seq<Seq<int>>, trail: Seq<int>) -> bool {
    &&& trail.len() > 0
    &&& forall|i: int| 0 <= i < trail.len() ==> 0 <= #[trigger] trail[i] < succ.len()
    &&& forall|i: int|
        0 <= i < trail.len() - 1 ==> #[trigger] succ[trail[i]].contains(trail[i + 1])
}

/// A trail leads from `a` to `b`, possibly of one node.
pub open spec fn reaches(succ: Seq<Seq<int>>, a: int, b: int) -> bool {
    exists|trail: Seq<int>| #[trigger]
        is_trail(succ, trail) && trail[0] == a && trail.last() == b
}

/// A trail of two nodes or more leads from `a` back to `a`.
pub open spec fn on_cycle(succ: Seq<Seq<int>>, a: int) -> bool {
    exists|trail: Seq<int>| #[trigger]
        is_trail(succ, trail) && trail.len() > 1 && trail[0] == a && trail.last() == a
}

/// The number of marked nodes.
spec fn marked(marks: Seq<bool>) -> nat
    decreases marks.len(),
{
    if marks.len() == 0 {
        0
    } else {
        marked(marks.drop_last()) + (if marks.last() {
            1nat
        } else {
            0nat
        })
    }
}

proof fn marked_bound(marks: Seq<bool>)
    ensures
        marked(marks) <= marks.len(),
    decreases marks.len(),
{
    if marks.len() > 0 {
        marked_bound(marks.drop_last());
    }
}

proof fn marked_update(marks: Seq<bool>, i: int)
    requires
        0 <= i < marks.len(),
        !marks[i],
    ensures
        marked(marks.update(i, true)) == marked(marks) + 1,
        marked(marks) < marks.len(),
    decreases marks.len(),
{
    let after = marks.update(i, true);
    if i == marks.len() - 1 {
        assert(after.drop_last() =~= marks.drop_last());
        marked_bound(marks.drop_last());
    } else {
        marked_update(marks.drop_last(), i);
        assert(after.drop_last() =~= marks.drop_last().update(i, true));
    }
}

proof fn marked_none(marks: Seq<bool>)
    requires
        forall|i: int| 0 <= i < marks.len() ==> !#[trigger] marks[i],
    ensures
        marked(marks) == 0,
    decreases marks.len(),
{
    if marks.len() > 0 {
        let shorter = marks.drop_last();
        assert forall|i: int| 0 <= i < shorter.len() implies !#[trigger] shorter[i] by {
            assert(shorter[i] == marks[i]);
        }
        marked_none(shorter);
        assert(!marks[marks.len() - 1]);
    }
}

proof fn reaches_self(succ: Seq<Seq<int>>, a: int)
    requires
        0 <= a < succ.len(),
    ensures
        reaches(succ, a, a),
{
    let trail = seq![a];
    assert(is_trail(succ, trail));
    assert(trail[0] == a && trail.last() == a);
}

proof fn reaches_step(succ: Seq<Seq<int>>, a: int, t: int, b: int)
    requires
        0 <= a < succ.len(),
        succ[a].contains(t),
        reaches(succ, t, b),
    ensures
        reaches(succ, a, b),
        a == b ==> on_cycle(succ, a),
{
    let trail = choose|trail: Seq<int>| #[trigger]
        is_trail(succ, trail) && trail[0] == t && trail.last() == b;
    let longer = seq![a] + trail;
    assert(longer[0] == a);
    assert forall|i: int| 0 <= i < longer.len() implies 0 <= #[trigger] longer[i] < succ.len() by {
        if i > 0 {
            assert(longer[i] == trail[i - 1]);
        }
    }
    assert forall|i: int| 0 <= i < longer.len() - 1 implies #[trigger] succ[longer[i]].contains(
        longer[i + 1],
    ) by {
        if i == 0 {
            assert(longer[1] == trail[0]);
        } else {
            assert(longer[i] == trail[i - 1]);
            assert(longer[i + 1] == trail[i]);
            assert(succ[trail[i - 1]].contains(trail[i - 1 + 1]));
        }
    }
    assert(is_trail(succ, longer));
    assert(longer.last() == trail.last());
}

/// What the walk knows: `order` lists the finished nodes, each after all the
/// nodes it leads to.
spec fn settled(succ: Seq<Seq<int>>, visited: Seq<bool>, path: Seq<bool>, order: Seq<int>) -> bool {
    &&& visited.len() == succ.len()
    &&& path.len() == succ.len()
    &&& forall|i: int| 0 <= i < succ.len() && #[trigger] path[i] ==> visited[i]
    &&& forall|i: int|
        0 <= i < succ.len() ==> (#[trigger] visited[i] && !path[i]) == order.contains(i)
    &&& forall|p: int| 0 <= p < order.len() ==> 0 <= #[trigger] order[p] < succ.len()
    &&& forall|p: int, t: int|
        #![trigger succ[order[p]].contains(t)]
        0 <= p < order.len() && succ[order[p]].contains(t) ==> order.take(p).contains(t)
}

/// A walk that ends without meeting a node twice settles all it visits, all of
/// which its start reaches.
proof fn visit_from_ok(
    succ: Seq<Seq<int>>,
    depth: nat,
    node: int,
    visited: Seq<bool>,
    path: Seq<bool>,
    order: Seq<int>,
) -> (grown: Seq<int>)
    requires
        closed_under(succ),
        0 <= node < succ.len(),
        settled(succ, visited, path, order),
        depth + marked(path) > succ.len(),
        visit_from(succ, depth, node, visited, path) is Ok,
    ensures
        ({
            let seen = visit_from(succ, depth, node, visited, path)->Ok_0;
            &&& settled(succ, seen, path, grown)
            &&& order.is_prefix_of(grown)
            &&& grown.contains(node)
            &&& forall|i: int|
                0 <= i < succ.len() && #[trigger] seen[i] && !visited[i] ==> reaches(succ, node, i)
            &&& forall|i: int| 0 <= i < succ.len() && visited[i] ==> #[trigger] seen[i]
        }),
    decreases depth, 0nat,
{
    if visited[node] {
        assert(order.contains(node));
        order
    } else {
        marked_bound(path);
        assert(!path[node]);
        marked_update(path, node);
        let visited1 = visited.update(node, true);
        let path1 = path.update(node, true);
        assert(settled(succ, visited1, path1, order)) by {
            assert forall|i: int| 0 <= i < succ.len() implies (#[trigger] visited1[i]
                && !path1[i]) == order.contains(i) by {
                assert((visited[i] && !path[i]) == order.contains(i));
            }
            assert forall|i: int| 0 <= i < succ.len() && #[trigger] path1[i]
                implies visited1[i] by {
                if i != node {
                    assert(path[i]);
                }
            }
        }
        let grown1 = visit_each_ok(succ, (depth - 1) as nat, succ[node], visited1, path1, order);
        let seen = visit_from(succ, depth, node, visited, path)->Ok_0;
        let grown = grown1.push(node);
        assert(settled(succ, seen, path, grown)) by {
            assert forall|i: int| 0 <= i < succ.len() implies (#[trigger] seen[i] && !path[i])
                == grown.contains(i) by {
                assert((seen[i] && !path1[i]) == grown1.contains(i));
                if i == node {
                    assert(visited1[node]);
                    assert(seen[node]);
                    assert(grown[grown1.len() as int] == node);
                } else {
                    assert(path1[i] == path[i]);
                    if grown1.contains(i) {
                        let k = choose|k: int| 0 <= k < grown1.len() && grown1[k] == i;
                        assert(grown[k] == i);
                    }
                    if grown.contains(i) {
                        let k = choose|k: int| 0 <= k < grown.len() && grown[k] == i;
                        assert(grown1[k] == i);
                    }
                }
            }
            assert forall|i: int| 0 <= i < succ.len() && #[trigger] path[i] implies seen[i] by {
                assert(path1[i]);
            }
            assert forall|p: int| 0 <= p < grown.len() implies 0 <= #[trigger] grown[p]
                < succ.len() by {
                if p < grown1.len() {
                    assert(grown[p] == grown1[p]);
                }
            }
            assert forall|p: int, t: int|
                #![trigger succ[grown[p]].contains(t)]
                0 <= p < grown.len() && succ[grown[p]].contains(t) implies grown.take(p).contains(
                t,
            ) by {
                if p < grown1.len() {
                    assert(grown[p] == grown1[p]);
                    assert(succ[grown1[p]].contains(t));
                    assert(grown.take(p) =~= grown1.take(p));
                } else {
                    assert(grown.take(p) =~= grown1);
                    assert(succ[node].contains(t));
                }
            }
        }
        assert(grown[grown1.len() as int] == node);
        assert forall|i: int| 0 <= i < succ.len() && #[trigger] seen[i] && !visited[i]
            implies reaches(
            succ,
            node,
            i,
        ) by {
            if i == node {
                reaches_self(succ, node);
            } else {
                assert(!visited1[i]);
                let k = choose|k: int|
                    0 <= k < succ[node].len() && reaches(succ, #[trigger] succ[node][k], i);
                assert(succ[node].contains(succ[node][k]));
                reaches_step(succ, node, succ[node][k], i);
            }
        }
        assert forall|i: int| 0 <= i < succ.len() && visited[i] implies #[trigger] seen[i] by {
            assert(visited1[i]);
        }
        assert(order.is_prefix_of(grown)) by {
            assert(grown.take(order.len() as int) =~= grown1.take(order.len() as int));
            assert(order.is_prefix_of(grown1));
        }
        grown
    }
}

proof fn visit_each_ok(
    succ: Seq<Seq<int>>,
    depth: nat,
    targets: Seq<int>,
    visited: Seq<bool>,
    path: Seq<bool>,
    order: Seq<int>,
) -> (grown: Seq<int>)
    requires
        closed_under(succ),
        forall|k: int| 0 <= k < targets.len() ==> 0 <= #[trigger] targets[k] < succ.len(),
        settled(succ, visited, path, order),
        depth + marked(path) > succ.len(),
        visit_each(succ, depth, targets, visited, path) is Ok,
    ensures
        ({
            let seen = visit_each(succ, depth, targets, visited, path)->Ok_0;
            &&& settled(succ, seen, path, grown)
            &&& order.is_prefix_of(grown)
            &&& forall|t: int| #[trigger] targets.contains(t) ==> grown.contains(t)
            &&& forall|i: int|
                0 <= i < succ.len() && #[trigger] seen[i] && !visited[i] ==> exists|k: int|
                    0 <= k < targets.len() && reaches(succ, #[trigger] targets[k], i)
            &&& forall|i: int| 0 <= i < succ.len() && visited[i] ==> #[trigger] seen[i]
        }),
    decreases depth, 1 + targets.len(),
{
    if targets.len() == 0 {
        order
    } else {
        let first = targets[0];
        let rest = targets.drop_first();
        let order1 = visit_from_ok(succ, depth, first, visited, path, order);
        let seen1 = visit_from(succ, depth, first, visited, path)->Ok_0;
        assert forall|k: int| 0 <= k < rest.len() implies 0 <= #[trigger] rest[k] < succ.len() by {
            assert(rest[k] == targets[k + 1]);
        }
        let grown = visit_each_ok(succ, depth, rest, seen1, path, order1);
        let seen = visit_each(succ, depth, targets, visited, path)->Ok_0;
        assert forall|t: int| #[trigger] targets.contains(t) implies grown.contains(t) by {
            let k = choose|k: int| 0 <= k < targets.len() && targets[k] == t;
            if k == 0 {
                let q = choose|q: int| 0 <= q < order1.len() && order1[q] == t;
                assert(order1.is_prefix_of(grown));
                assert(grown.subrange(0, order1.len() as int)[q] == order1[q]);
            } else {
                assert(rest[k - 1] == t);
                assert(rest.contains(t));
            }
        }
        assert forall|i: int| 0 <= i < succ.len() && #[trigger] seen[i] && !visited[i]
            implies exists|
            k: int,
        | 0 <= k < targets.len() && reaches(succ, #[trigger] targets[k], i) by {
            if seen1[i] {
                assert(reaches(succ, targets[0], i));
            } else {
                let k = choose|k: int| 0 <= k < rest.len() && reaches(succ, #[trigger] rest[k], i);
                assert(targets[k + 1] == rest[k]);
            }
        }
        assert forall|i: int| 0 <= i < succ.len() && visited[i] implies #[trigger] seen[i] by {
            assert(seen1[i]);
        }
        grown
    }
}

/// A node met twice lies on the given path, or else on a cycle that the start
/// of the walk reaches.
proof fn visit_from_err(
    succ: Seq<Seq<int>>,
    depth: nat,
    node: int,
    visited: Seq<bool>,
    path: Seq<bool>,
)
    requires
        closed_under(succ),
        0 <= node < succ.len(),
        visited.len() == succ.len(),
        path.len() == succ.len(),
        visit_from(succ, depth, node, visited, path) is Err,
    ensures
        ({
            let met = visit_from(succ, depth, node, visited, path)->Err_0;
            &&& 0 <= met < succ.len()
            &&& reaches(succ, node, met)
            &&& path[met] || on_cycle(succ, met)
        }),
    decreases depth, 0nat,
{
    if path[node] {
        reaches_self(succ, node);
    } else {
        let path1 = path.update(node, true);
        visit_each_err(succ, (depth - 1) as nat, succ[node], visited.update(node, true), path1);
        let met = visit_from(succ, depth, node, visited, path)->Err_0;
        let k = choose|k: int|
            0 <= k < succ[node].len() && reaches(succ, #[trigger] succ[node][k], met);
        assert(succ[node].contains(succ[node][k]));
        reaches_step(succ, node, succ[node][k], met);
    }
}

proof fn visit_each_err(
    succ: Seq<Seq<int>>,
    depth: nat,
    targets: Seq<int>,
    visited: Seq<bool>,
    path: Seq<bool>,
)
    requires
        closed_under(succ),
        forall|k: int| 0 <= k < targets.len() ==> 0 <= #[trigger] targets[k] < succ.len(),
        visited.len() == succ.len(),
        path.len() == succ.len(),
        visit_each(succ, depth, targets, visited, path) is Err,
    ensures
        ({
            let met = visit_each(succ, depth, targets, visited, path)->Err_0;
            &&& 0 <= met < succ.len()
            &&& exists|k: int| 0 <= k < targets.len() && reaches(succ, #[trigger] targets[k], met)
            &&& path[met] || on_cycle(succ, met)
        }),
    decreases depth, 1 + targets.len(),
{
    let first = targets[0];
    let rest = targets.drop_first();
    match visit_from(succ, depth, first, visited, path) {
        Err(met) => {
            visit_from_err(succ, depth, first, visited, path);
            assert(reaches(succ, targets[0], met));
        },
        Ok(seen) => {
            visit_keeps_len(succ, depth, first, visited, path);
            assert forall|k: int| 0 <= k < rest.len() implies 0 <= #[trigger] rest[k]
                < succ.len() by {
                assert(rest[k] == targets[k + 1]);
            }
            visit_each_err(succ, depth, rest, seen, path);
            let met = visit_each(succ, depth, targets, visited, path)->Err_0;
            let k = choose|k: int| 0 <= k < rest.len() && reaches(succ, #[trigger] rest[k], met);
            assert(targets[k + 1] == rest[k]);
        },
    }
}

proof fn visit_keeps_len(
    succ: Seq<Seq<int>>,
    depth: nat,
    node: int,
    visited: Seq<bool>,
    path: Seq<bool>,
)
    requires
        closed_under(succ),
        0 <= node < succ.len(),
        visited.len() == succ.len(),
        visit_from(succ, depth, node, visited, path) is Ok,
    ensures
        visit_from(succ, depth, node, visited, path)->Ok_0.len() == visited.len(),
    decreases depth, 0nat,
{
    if !path[node] && !visited[node] && depth > 0 {
        visit_each_keeps_len(
            succ,
            (depth - 1) as nat,
            succ[node],
            visited.update(node, true),
            path.update(node, true),
        );
    }
}

proof fn visit_each_keeps_len(
    succ: Seq<Seq<int>>,
    depth: nat,
    targets: Seq<int>,
    visited: Seq<bool>,
    path: Seq<bool>,
)
    requires
        closed_under(succ),
        forall|k: int| 0 <= k < targets.len() ==> 0 <= #[trigger] targets[k] < succ.len(),
        visited.len() == succ.len(),
        visit_each(succ, depth, targets, visited, path) is Ok,
    ensures
        visit_each(succ, depth, targets, visited, path)->Ok_0.len() == visited.len(),
    decreases depth, 1 + targets.len(),
{
    if targets.len() > 0 {
        visit_keeps_len(succ, depth, targets[0], visited, path);
        let seen = visit_from(succ, depth, targets[0], visited, path)->Ok_0;
        let rest = targets.drop_first();
        assert forall|k: int| 0 <= k < rest.len() implies 0 <= #[trigger] rest[k] < succ.len() by {
            assert(rest[k] == targets[k + 1]);
        }
        visit_each_keeps_len(succ, depth, rest, seen, path);
    }
}

/// The place of a node in the order goes down along a trail.
proof fn trail_descends(
    succ: Seq<Seq<int>>,
    visited: Seq<bool>,
    path: Seq<bool>,
    order: Seq<int>,
    trail: Seq<int>,
    p: int,
) -> (q: int)
    requires
        settled(succ, visited, path, order),
        is_trail(succ, trail),
        0 <= p < order.len(),
        order[p] == trail[0],
    ensures
        0 <= q <= p,
        order[q] == trail.last(),
        trail.len() > 1 ==> q < p,
    decreases trail.len(),
{
    if trail.len() == 1 {
        p
    } else {
        let rest = trail.drop_first();
        assert(succ[trail[0]].contains(trail[0int + 1]));
        assert(succ[order[p]].contains(rest[0]));
        let k = choose|k: int| 0 <= k < order.take(p).len() && order.take(p)[k] == rest[0];
        assert forall|i: int| 0 <= i < rest.len() implies 0 <= #[trigger] rest[i] < succ.len() by {
            assert(rest[i] == trail[i + 1]);
        }
        assert forall|i: int| 0 <= i < rest.len() - 1 implies #[trigger] succ[rest[i]].contains(
            rest[i + 1],
        ) by {
            assert(succ[trail[i + 1]].contains(trail[i + 1 + 1]));
        }
        trail_descends(succ, visited, path, order, rest, k)
    }
}

/// The earliest place of a node.
proof fn earliest(order: Seq<int>, x: int) -> (p: int)
    requires
        order.contains(x),
    ensures
        0 <= p < order.len(),
        order[p] == x,
        forall|k: int| 0 <= k < p ==> #[trigger] order[k] != x,
    decreases order.len(),
{
    if order.drop_last().contains(x) {
        let p = earliest(order.drop_last(), x);
        assert forall|k: int| 0 <= k < p implies #[trigger] order[k] != x by {
            assert(order.drop_last()[k] == order[k]);
        }
        p
    } else {
        let p = choose|p: int| 0 <= p < order.len() && order[p] == x;
        assert forall|k: int| 0 <= k < p implies #[trigger] order[k] != x by {
            assert(order.drop_last()[k] == order[k]);
        }
        p
    }
}

/// The walk finds a cycle exactly when the entry reaches one, and then names a
/// node of it; otherwise it visits exactly the nodes that the entry reaches.
pub proof fn visit_all_meaning(succ: Seq<Seq<int>>, entry: int)
    requires
        closed_under(succ),
        0 <= entry < succ.len(),
    ensures
        match visit_all(succ, entry) {
            Err(met) => {
                &&& 0 <= met < succ.len()
                &&& reaches(succ, entry, met)
                &&& on_cycle(succ, met)
            },
            Ok(seen) => {
                &&& seen.len() == succ.len()
                &&& forall|i: int|
                    0 <= i < succ.len() ==> #[trigger] seen[i] == reaches(succ, entry, i)
                &&& forall|i: int| #[trigger] reaches(succ, entry, i) ==> !on_cycle(succ, i)
            },
        },
{
    let none = Seq::new(succ.len(), |i: int| false);
    let depth = succ.len() + 1;
    match visit_all(succ, entry) {
        Err(met) => {
            visit_from_err(succ, depth, entry, none, none);
        },
        Ok(seen) => {
            let nothing = Seq::<int>::empty();
            assert(settled(succ, none, none, nothing));
            marked_none(none);
            let order = visit_from_ok(succ, depth, entry, none, none, nothing);
            let p = choose|p: int| 0 <= p < order.len() && order[p] == entry;
            assert forall|i: int| #[trigger] reaches(succ, entry, i) implies order.contains(i)
                && !on_cycle(succ, i) by {
                let trail = choose|trail: Seq<int>| #[trigger]
                    is_trail(succ, trail) && trail[0] == entry && trail.last() == i;
                let q = trail_descends(succ, seen, none, order, trail, p);
                assert(order[q] == i);
                if on_cycle(succ, i) {
                    let around = choose|around: Seq<int>| #[trigger]
                        is_trail(succ, around) && around.len() > 1 && around[0] == i
                            && around.last() == i;
                    let e = earliest(order, i);
                    let f = trail_descends(succ, seen, none, order, around, e);
                    assert(order[f] == i && f < e);
                    assert(false);
                }
            }
            assert forall|i: int| 0 <= i < succ.len() implies #[trigger] seen[i] == reaches(
                succ,
                entry,
                i,
            ) by {
                if seen[i] {
                    assert(!none[i]);
                } else {
                    assert((seen[i] && !none[i]) == order.contains(i));
                }
            }
        },
    }
}

/// The successor lists as integers.
pub open spec fn numbers(succ: Seq<Vec<usize>>) -> Seq<Seq<int>> {
    succ.map_values(|targets: Vec<usize>| targets@.map_values(|t: usize| t as int))
}

/// Walks from `node`, marking what it visits.
fn visit(
    succ: &Vec<Vec<usize>>,
    depth: usize,
    node: usize,
    visited: &mut Vec<bool>,
    on_path: &mut Vec<bool>,
) -> (r: Result<(), usize>)
    requires
        closed_under(numbers(succ@)),
        node < succ.len(),
        old(visited).len() == succ.len(),
        old(on_path).len() == succ.len(),
    ensures
        match r {
            Ok(_) => {
                &&& visit_from(
                    numbers(succ@),
                    depth as nat,
                    node as int,
                    old(visited)@,
                    old(on_path)@,
                ) == Ok::<Seq<bool>, int>(final(visited)@)
                &&& final(on_path)@ == old(on_path)@
                &&& final(visited).len() == succ.len()
            },
            Err(met) => visit_from(
                numbers(succ@),
                depth as nat,
                node as int,
                old(visited)@,
                old(on_path)@,
            ) == Err::<Seq<bool>, int>(met as int) && met < succ.len(),
        },
    decreases depth, 0nat,
{
    if on_path[node] {
        return Err(node);
    }
    if visited[node] || depth == 0 {
        return Ok(());
    }
    visited.set(node, true);
    on_path.set(node, true);
    let ghost lists = numbers(succ@);
    let ghost targets = lists[node as int];
    let ghost visited0 = visited@;
    let ghost path0 = on_path@;
    let mut k: usize = 0;
    assert(targets.skip(0) =~= targets);
    while k < succ[node].len()
        invariant
            closed_under(lists),
            lists == numbers(succ@),
            node < succ.len(),
            depth > 0,
            k <= succ[node as int].len(),
            targets == lists[node as int],
            targets.len() == succ[node as int].len(),
            visited.len() == succ.len(),
            on_path@ == path0,
            path0.len() == succ.len(),
            visit_from(lists, depth as nat, node as int, old(visited)@, old(on_path)@)
                == visit_each(lists, (depth - 1) as nat, targets, visited0, path0),
            visit_each(lists, (depth - 1) as nat, targets, visited0, path0) == visit_each(
                lists,
                (depth - 1) as nat,
                targets.skip(k as int),
                visited@,
                path0,
            ),
        decreases succ[node as int].len() - k,
    {
        let target: usize = succ[node][k];
        proof {
            assert(targets[k as int] == target as int);
            assert(0 <= lists[node as int][k as int] < lists.len());
            assert(targets.skip(k as int)[0] == target as int);
            assert(targets.skip(k as int).drop_first() =~= targets.skip(k + 1));
        }
        match visit(succ, depth - 1, target, visited, on_path) {
            Ok(_) => {},
            Err(met) => {
                return Err(met);
            },
        }
        k = k + 1;
    }
    assert(targets.skip(k as int) =~= Seq::empty());
    on_path.set(node, false);
    assert(on_path@ =~= old(on_path)@);
    Ok(())
}

/// Walks the whole graph from `entry`.
pub(crate) fn walk(succ: &Vec<Vec<usize>>, entry: usize) -> (r: Result<Vec<bool>, usize>)
    requires
        closed_under(numbers(succ@)),
        entry < succ.len(),
        succ.len() < usize::MAX,
    ensures
        match r {
            Ok(seen) => visit_all(numbers(succ@), entry as int) == Ok::<Seq<bool>, int>(seen@)
                && seen.len() == succ.len(),
            Err(met) => visit_all(numbers(succ@), entry as int) == Err::<Seq<bool>, int>(
                met as int,
            ) && met < succ.len(),
        },
{
    let mut visited: Vec<bool> = Vec::new();
    let mut on_path: Vec<bool> = Vec::new();
    let mut i: usize = 0;
    while i < succ.len()
        invariant
            i <= succ.len(),
            visited@ =~= Seq::new(i as nat, |k: int| false),
            on_path@ =~= Seq::new(i as nat, |k: int| false),
        decreases succ.len() - i,
    {
        visited.push(false);
        on_path.push(false);
        i = i + 1;
    }
    assert(numbers(succ@).len() == succ.len());
    match visit(succ, succ.len() + 1, entry, &mut visited, &mut on_path) {
        Ok(_) => Ok(visited),
        Err(met) => Err(met),
    }
}

} // verus!
