//! What holds of every flow graph and every plan compiled from one.

use crate::digest::sha256;
use crate::plan::compiled::{
    declared_targets_known, edges_from_are_edges, first_target, CompiledExecutionPlan,
};
use crate::plan::error::{FlowSelectionError, PlanError, PlanErrorView};
use crate::plan::graph::{
    accepted, clash, declared_well, edge_problem, edges_from, first_clash, graph_walk, names,
    node_accepted, node_rejected, node_targets, ordered_edges, rejected, repeats_at, routed_well,
    sorted_ids, successors, target_known, targets_known, unambiguous, FlowGraph, GraphView,
    MAX_NODES, MAX_OUTGOING_TRANSITIONS, MAX_TRANSITIONS,
};
use crate::plan::node::{EdgeView, FlowNode, FlowTarget, TargetView, TerminalKind};
use crate::plan::order::{
    edge_before, edge_order, edge_order_orders, ordered_items_unique, sort_by, sort_keeps_items,
    sort_orders, text_order, text_order_orders,
};
use crate::plan::pattern::{
    glob, literal_matches_itself, overlap, pattern_overlaps_itself, specificity_of,
    specificity_parts, star_matches_everything, valid_pattern, wildcard_count, PatternSpecificity,
};
use crate::plan::walk::{closed_under, is_trail, on_cycle, reaches, visit_all_meaning};
use crate::text::text_less;
use crate::tokens::{DefinitionRevision, ExitCode, JobName, NodeId};
use vstd::prelude::*;

verus! {

proof fn unambiguous_patterns_differ(edges: Seq<EdgeView>)
    requires
        unambiguous(edges),
    ensures
        forall|i: int, j: int|
            0 <= i < j < edges.len() ==> (#[trigger] edges[i]).pattern != (
            #[trigger] edges[j]).pattern,
        edges.no_duplicates(),
{
    assert forall|i: int, j: int| 0 <= i < j < edges.len() implies (#[trigger] edges[i]).pattern
        != (#[trigger] edges[j]).pattern by {
        if edges[i].pattern == edges[j].pattern {
            pattern_overlaps_itself(edges[i].pattern);
            assert(clash(edges, i, j));
        }
    }
    assert forall|i: int, j: int|
        0 <= i < edges.len() && 0 <= j < edges.len() && i != j implies edges[i] != edges[j] by {
        if i < j {
            assert(edges[i].pattern != edges[j].pattern);
        } else {
            assert(edges[j].pattern != edges[i].pattern);
        }
    }
}

proof fn first_target_place(edges: Seq<EdgeView>, code: Seq<char>) -> (f: int)
    ensures
        match first_target(edges, code) {
            Some(target) => {
                &&& 0 <= f < edges.len()
                &&& edges[f].target == target
                &&& glob(edges[f].pattern, code)
                &&& forall|k: int| 0 <= k < f ==> !glob((#[trigger] edges[k]).pattern, code)
            },
            None => forall|k: int|
                0 <= k < edges.len() ==> !glob((#[trigger] edges[k]).pattern, code),
        },
    decreases edges.len(),
{
    if edges.len() == 0 || glob(edges[0].pattern, code) {
        0
    } else {
        let rest = edges.drop_first();
        let f = first_target_place(rest, code);
        assert forall|k: int| 0 <= k < edges.len() && (first_target(edges, code) is None || k < f
            + 1) implies !glob((#[trigger] edges[k]).pattern, code) by {
            if k > 0 {
                assert(rest[k - 1] == edges[k]);
            }
        }
        f + 1
    }
}

/// Among a node's accepted transitions, the one that is selected for an exit
/// outcome is the most specific of all that match it: every other matching one
/// is strictly less specific. Where none is selected, none matches.
pub proof fn selects_the_most_specific(edges: Seq<EdgeView>, code: Seq<char>)
    requires
        node_accepted(edges),
    ensures
        match first_target(sort_by(edges, edge_order()), code) {
            Some(target) => exists|k: int|
                #![trigger edges[k]]
                {
                    &&& 0 <= k < edges.len()
                    &&& edges[k].target == target
                    &&& glob(edges[k].pattern, code)
                    &&& forall|m: int|
                        0 <= m < edges.len() && m != k && glob((#[trigger] edges[m]).pattern, code)
                            ==> specificity_of(edges[m].pattern).below(
                            specificity_of(edges[k].pattern),
                        )
                },
            None => forall|m: int|
                0 <= m < edges.len() ==> !glob((#[trigger] edges[m]).pattern, code),
        },
{
    let row = sort_by(edges, edge_order());
    unambiguous_patterns_differ(edges);
    edge_order_orders(edges);
    sort_orders(edges, edge_order());
    sort_keeps_items(edges, edge_order());
    let f = first_target_place(row, code);
    match first_target(row, code) {
        None => {
            assert forall|m: int| 0 <= m < edges.len() implies !glob(
                (#[trigger] edges[m]).pattern,
                code,
            ) by {
                assert(edges.contains(edges[m]));
                assert(row.contains(edges[m]));
                let q = choose|q: int| 0 <= q < row.len() && row[q] == edges[m];
                assert(!glob(row[q].pattern, code));
            }
        },
        Some(target) => {
            assert(row.contains(row[f]));
            assert(edges.contains(row[f]));
            let k = choose|k: int| 0 <= k < edges.len() && edges[k] == row[f];
            assert forall|m: int|
                0 <= m < edges.len() && m != k && glob((#[trigger] edges[m]).pattern, code)
                    implies specificity_of(
                edges[m].pattern,
            ).below(specificity_of(edges[k].pattern)) by {
                assert(edges.contains(edges[m]));
                assert(row.contains(edges[m]));
                let q = choose|q: int| 0 <= q < row.len() && row[q] == edges[m];
                assert(edges[m] != edges[k]);
                assert(q != f);
                if q < f {
                    assert(!glob(row[q].pattern, code));
                }
                assert(edge_order()(row[f], row[q]));
                assert(edge_before(edges[k], edges[m]));
                if specificity_of(edges[m].pattern) == specificity_of(edges[k].pattern) {
                    assert(overlap(edges[k].pattern, edges[m].pattern)) by {
                        assert(glob(edges[k].pattern, code) && glob(edges[m].pattern, code));
                    }
                    assert(overlap(edges[m].pattern, edges[k].pattern)) by {
                        assert(glob(edges[m].pattern, code) && glob(edges[k].pattern, code));
                    }
                    if k < m {
                        assert(clash(edges, k, m));
                    } else {
                        assert(clash(edges, m, k));
                    }
                }
            }
        },
    }
}

/// The two transitions of a sequential edge.
pub open spec fn sequence_edges(source: Seq<char>, next: TargetView) -> Seq<EdgeView> {
    seq![
        EdgeView {
            source,
            pattern: "FAILED"@,
            target: TargetView::Terminal(TerminalKind::Fail),
        },
        EdgeView { source, pattern: "*"@, target: next },
    ]
}

/// A node whose transitions are those of a sequential edge is accepted; the
/// outcome `FAILED` ends the job there, and every other outcome continues.
pub proof fn sequence_routes(source: Seq<char>, next: TargetView, code: Seq<char>)
    ensures
        node_accepted(sequence_edges(source, next)),
        first_target(sort_by(sequence_edges(source, next), edge_order()), code) == Some(
            if code == "FAILED"@ {
                TargetView::Terminal(TerminalKind::Fail)
            } else {
                next
            },
        ),
{
    let edges = sequence_edges(source, next);
    let failed = "FAILED"@;
    let any = "*"@;
    reveal_strlit("FAILED");
    reveal_strlit("*");
    assert(any =~= seq!['*']);
    crate::plan::graph::short_ascii_is_pattern(failed);
    crate::plan::graph::short_ascii_is_pattern(any);
    specificity_parts(failed);
    specificity_parts(any);
    reveal_with_fuel(wildcard_count, 8);
    assert(wildcard_count(failed) == 0);
    assert(wildcard_count(any) == 1);
    assert(specificity_of(any).below(specificity_of(failed)));
    assert(unambiguous(edges)) by {
        assert forall|i: int, j: int| !#[trigger] clash(edges, i, j) by {
            PatternSpecificity::strict_total(specificity_of(any), specificity_of(failed));
        }
    }
    star_matches_everything(code);
    literal_matches_itself(failed, code);
    selects_the_most_specific(edges, code);
    assert(edges[1].pattern == any);
    let target = first_target(sort_by(edges, edge_order()), code);
    assert(glob(edges[1].pattern, code));
    assert(target is Some);
    let k = choose|k: int|
        #![trigger edges[k]]
        0 <= k < edges.len() && edges[k].target == target->0 && glob(edges[k].pattern, code)
            && forall|m: int|
            0 <= m < edges.len() && m != k && glob((#[trigger] edges[m]).pattern, code)
                ==> specificity_of(edges[m].pattern).below(specificity_of(edges[k].pattern));
    PatternSpecificity::strict_total(specificity_of(any), specificity_of(failed));
    if code == failed {
        assert(glob(edges[0].pattern, code));
        if k == 1 {
            assert(specificity_of(edges[0].pattern).below(specificity_of(edges[1].pattern)));
        }
    }
}

proof fn least_place(n: int, bad: spec_fn(int) -> bool) -> (k: int)
    requires
        exists|i: int| 0 <= i < n && #[trigger] bad(i),
    ensures
        0 <= k < n,
        bad(k),
        forall|i: int| 0 <= i < k ==> !#[trigger] bad(i),
    decreases n,
{
    if exists|i: int| 0 <= i < n - 1 && #[trigger] bad(i) {
        least_place(n - 1, bad)
    } else {
        n - 1
    }
}

proof fn first_clash_exists(edges: Seq<EdgeView>) -> (pair: (int, int))
    requires
        !unambiguous(edges),
    ensures
        first_clash(edges, pair.0, pair.1),
{
    let n = edges.len() as int;
    let starts = |i: int| exists|j: int| #[trigger] clash(edges, i, j);
    let (a, b) = choose|a: int, b: int| #[trigger] clash(edges, a, b);
    assert(starts(a));
    let i = least_place(n, starts);
    let j0 = choose|j: int| #[trigger] clash(edges, i, j);
    let ends = |j: int| clash(edges, i, j);
    assert(ends(j0));
    let j = least_place(n, ends);
    assert forall|a: int, b: int| #[trigger] clash(edges, a, b) implies i < a || (i == a && j
        <= b) by {
        assert(starts(a));
        if a == i && b < j {
            assert(ends(b));
        }
    }
    (i, j)
}

/// A graph either compiles or is rejected for some reason, and never both.
pub proof fn accepted_or_rejected(g: GraphView)
    ensures
        accepted(g) == !(exists|error: PlanErrorView| #[trigger] rejected(g, error)),
{
    if accepted(g) {
        assert forall|error: PlanErrorView| !#[trigger] rejected(g, error) by {
            if rejected(g, error) {
                let seen = graph_walk(g)->Ok_0;
                let i = choose|i: int|
                    #![trigger seen[i]]
                    0 <= i < g.ids.len() && !seen[i];
                assert(seen[i]);
            }
        }
    } else if g.entry is None {
        assert(rejected(g, PlanErrorView::MissingEntryNode));
    } else if g.ids.len() > crate::plan::graph::MAX_NODES {
        assert(rejected(
            g,
            PlanErrorView::TooManyNodes(crate::plan::graph::MAX_NODES as nat),
        ));
    } else if g.edges.len() > crate::plan::graph::MAX_TRANSITIONS {
        assert(rejected(
            g,
            PlanErrorView::TooManyTransitions(crate::plan::graph::MAX_TRANSITIONS as nat),
        ));
    } else if !g.ids.no_duplicates() {
        let repeated = |j: int| repeats_at(g.ids, j);
        let (a, b) = choose|a: int, b: int|
            0 <= a < g.ids.len() && 0 <= b < g.ids.len() && a != b && #[trigger] g.ids[a]
                == #[trigger] g.ids[b];
        if a < b {
            assert(repeated(b));
        } else {
            assert(g.ids[b] == g.ids[a]);
            assert(repeated(a));
        }
        let j = least_place(g.ids.len() as int, repeated);
        assert forall|i: int| 0 <= i < j implies !#[trigger] repeats_at(g.ids, i) by {
            assert(!repeated(i));
        }
        assert(rejected(g, PlanErrorView::DuplicateNodeId(g.ids[j])));
    } else if !g.ids.contains(g.entry->0) {
        assert(rejected(g, PlanErrorView::UndefinedNode(g.entry->0)));
    } else if !declared_well(g) {
        let faulty = |k: int| edge_problem(g.ids, g.edges, k) is Some;
        let k0 = choose|k: int|
            0 <= k < g.edges.len() && !(#[trigger] edge_problem(g.ids, g.edges, k) is None);
        assert(faulty(k0));
        let k = least_place(g.edges.len() as int, faulty);
        assert forall|i: int| 0 <= i < k implies #[trigger] edge_problem(
            g.ids,
            g.edges,
            i,
        ) is None by {
            assert(!faulty(i));
        }
        assert(rejected(g, edge_problem(g.ids, g.edges, k)->0));
    } else if !routed_well(g) {
        let faulty = |i: int| !node_accepted(edges_from(g.edges, sorted_ids(g)[i]));
        let i0 = choose|i: int|
            0 <= i < g.ids.len()
                && !node_accepted(edges_from(g.edges, #[trigger] sorted_ids(g)[i]));
        assert(faulty(i0));
        let i = least_place(g.ids.len() as int, faulty);
        assert forall|j: int| 0 <= j < i implies node_accepted(
            edges_from(g.edges, #[trigger] sorted_ids(g)[j]),
        ) by {
            assert(!faulty(j));
        }
        let id = sorted_ids(g)[i];
        let edges = edges_from(g.edges, id);
        if edges.len() == 0 {
            assert(rejected(g, PlanErrorView::MissingTransition(id)));
        } else {
            let pair = first_clash_exists(edges);
            let error = PlanErrorView::AmbiguousTransition(
                id,
                edges[pair.0].pattern,
                edges[pair.1].pattern,
            );
            assert(clash(edges, pair.0, pair.1));
            assert(node_rejected(edges, id, error));
            assert(rejected(g, error));
        }
    } else {
        match graph_walk(g) {
            Err(met) => {
                assert(rejected(g, PlanErrorView::CyclicGraph(sorted_ids(g)[met])));
            },
            Ok(seen) => {
                let missed = |i: int| !seen[i];
                let i0 = choose|i: int| 0 <= i < g.ids.len() && !#[trigger] seen[i];
                assert(missed(i0));
                let i = least_place(g.ids.len() as int, missed);
                assert forall|j: int| 0 <= j < i implies #[trigger] seen[j] by {
                    assert(!missed(j));
                }
                assert(!(graph_walk(g)->Ok_0)[i]);
                assert(rejected(g, PlanErrorView::UnreachableNode(sorted_ids(g)[i])));
            },
        }
    }
}

/// A rejected graph is rejected for one reason only.
pub proof fn rejection_is_unique(g: GraphView, a: PlanErrorView, b: PlanErrorView)
    requires
        rejected(g, a),
        rejected(g, b),
    ensures
        a == b,
{
    if g.entry is None || g.ids.len() > crate::plan::graph::MAX_NODES || g.edges.len()
        > crate::plan::graph::MAX_TRANSITIONS {
    } else if !g.ids.no_duplicates() {
        let i = choose|j: int|
            #![trigger g.ids[j]]
            0 <= j < g.ids.len() && repeats_at(g.ids, j) && (forall|i: int|
                0 <= i < j ==> !#[trigger] repeats_at(g.ids, i)) && a
                == PlanErrorView::DuplicateNodeId(g.ids[j]);
        let j = choose|j: int|
            #![trigger g.ids[j]]
            0 <= j < g.ids.len() && repeats_at(g.ids, j) && (forall|i: int|
                0 <= i < j ==> !#[trigger] repeats_at(g.ids, i)) && b
                == PlanErrorView::DuplicateNodeId(g.ids[j]);
        assert(i == j);
    } else if !g.ids.contains(g.entry->0) {
    } else if !declared_well(g) {
        let i = choose|k: int|
            #![trigger edge_problem(g.ids, g.edges, k)]
            0 <= k < g.edges.len() && edge_problem(g.ids, g.edges, k) == Some(a) && forall|i: int|
                0 <= i < k ==> #[trigger] edge_problem(g.ids, g.edges, i) is None;
        let j = choose|k: int|
            #![trigger edge_problem(g.ids, g.edges, k)]
            0 <= k < g.edges.len() && edge_problem(g.ids, g.edges, k) == Some(b) && forall|i: int|
                0 <= i < k ==> #[trigger] edge_problem(g.ids, g.edges, i) is None;
        assert(i == j);
    } else if !routed_well(g) {
        let ids = sorted_ids(g);
        let i = choose|i: int|
            #![trigger sorted_ids(g)[i]]
            0 <= i < g.ids.len() && node_rejected(edges_from(g.edges, ids[i]), ids[i], a) && forall|
                j: int,
            |
                0 <= j < i ==> node_accepted(edges_from(g.edges, #[trigger] sorted_ids(g)[j]));
        let j = choose|i: int|
            #![trigger sorted_ids(g)[i]]
            0 <= i < g.ids.len() && node_rejected(edges_from(g.edges, ids[i]), ids[i], b) && forall|
                j: int,
            |
                0 <= j < i ==> node_accepted(edges_from(g.edges, #[trigger] sorted_ids(g)[j]));
        rejected_node_not_accepted(edges_from(g.edges, ids[i]), ids[i], a);
        rejected_node_not_accepted(edges_from(g.edges, ids[j]), ids[j], b);
        assert(!node_accepted(edges_from(g.edges, sorted_ids(g)[i])));
        assert(!node_accepted(edges_from(g.edges, sorted_ids(g)[j])));
        assert(i == j);
        node_rejection_unique(edges_from(g.edges, ids[i]), ids[i], a, b);
    } else {
        match graph_walk(g) {
            Err(met) => {},
            Ok(seen) => {
                let i = choose|i: int|
                    #![trigger seen[i]]
                    0 <= i < g.ids.len() && !seen[i] && (forall|j: int|
                        0 <= j < i ==> #[trigger] seen[j]) && a == PlanErrorView::UnreachableNode(
                        sorted_ids(g)[i],
                    );
                let j = choose|i: int|
                    #![trigger seen[i]]
                    0 <= i < g.ids.len() && !seen[i] && (forall|j: int|
                        0 <= j < i ==> #[trigger] seen[j]) && b == PlanErrorView::UnreachableNode(
                        sorted_ids(g)[i],
                    );
                assert(!seen[i] && !seen[j]);
                assert(i == j);
            },
        }
    }
}

proof fn rejected_node_not_accepted(edges: Seq<EdgeView>, id: Seq<char>, error: PlanErrorView)
    requires
        node_rejected(edges, id, error),
    ensures
        !node_accepted(edges),
{
    if edges.len() > 0 {
        let (i, j) = choose|i: int, j: int|
            #![trigger clash(edges, i, j)]
            first_clash(edges, i, j);
        assert(clash(edges, i, j));
    }
}

proof fn node_rejection_unique(
    edges: Seq<EdgeView>,
    id: Seq<char>,
    a: PlanErrorView,
    b: PlanErrorView,
)
    requires
        node_rejected(edges, id, a),
        node_rejected(edges, id, b),
    ensures
        a == b,
{
    if edges.len() > 0 {
        let (i, j) = choose|i: int, j: int|
            #![trigger clash(edges, i, j)]
            first_clash(edges, i, j) && a == PlanErrorView::AmbiguousTransition(
                id,
                edges[i].pattern,
                edges[j].pattern,
            );
        let (k, m) = choose|i: int, j: int|
            #![trigger clash(edges, i, j)]
            first_clash(edges, i, j) && b == PlanErrorView::AmbiguousTransition(
                id,
                edges[i].pattern,
                edges[j].pattern,
            );
        assert(clash(edges, i, j) && clash(edges, k, m));
        assert(i == k && j == m);
    }
}

/// Some transition leads from the node `a` to the node `b`.
pub open spec fn leads(edges: Seq<EdgeView>, a: Seq<char>, b: Seq<char>) -> bool {
    exists|k: int|
        0 <= k < edges.len() && (#[trigger] edges[k]).source == a && edges[k].target
            == TargetView::Node(b)
}

/// A sequence of node identifiers, each leading to the next.
pub open spec fn is_route(edges: Seq<EdgeView>, route: Seq<Seq<char>>) -> bool {
    &&& route.len() > 0
    &&& forall|i: int| 0 <= i < route.len() - 1 ==> leads(edges, #[trigger] route[i], route[i + 1])
}

/// A route leads from `a` to `b`, possibly of one node.
pub open spec fn route_exists(edges: Seq<EdgeView>, a: Seq<char>, b: Seq<char>) -> bool {
    exists|route: Seq<Seq<char>>| #[trigger]
        is_route(edges, route) && route[0] == a && route.last() == b
}

/// A route of two nodes or more leads from `a` back to `a`.
pub open spec fn lies_on_cycle(edges: Seq<EdgeView>, a: Seq<char>) -> bool {
    exists|route: Seq<Seq<char>>| #[trigger]
        is_route(edges, route) && route.len() > 1 && route[0] == a && route.last() == a
}

proof fn node_targets_meaning(ids: Seq<Seq<char>>, edges: Seq<EdgeView>, t: int)
    requires
        ids.no_duplicates(),
        targets_known(ids, edges),
    ensures
        node_targets(ids, edges).contains(t) <==> (0 <= t < ids.len() && exists|k: int|
            0 <= k < edges.len() && (#[trigger] edges[k]).target == TargetView::Node(ids[t])),
        forall|k: int|
            0 <= k < node_targets(ids, edges).len() ==> 0 <= #[trigger] node_targets(ids, edges)[k]
                < ids.len(),
    decreases edges.len(),
{
    if edges.len() > 0 {
        let shorter = edges.drop_last();
        assert(targets_known(ids, shorter)) by {
            assert forall|k: int| 0 <= k < shorter.len() implies target_known(
                ids,
                #[trigger] shorter[k],
            ) by {
                assert(shorter[k] == edges[k]);
            }
        }
        node_targets_meaning(ids, shorter, t);
        let rest = node_targets(ids, shorter);
        let all = node_targets(ids, edges);
        let last = edges.last();
        assert(edges[edges.len() - 1] == last);
        assert(target_known(ids, edges[edges.len() - 1]));
        if rest.contains(t) {
            let q = choose|q: int| 0 <= q < rest.len() && rest[q] == t;
            assert(all[q] == t);
        }
        if exists|k: int|
            0 <= k < shorter.len() && (#[trigger] shorter[k]).target == TargetView::Node(ids[t]) {
            let k = choose|k: int|
                0 <= k < shorter.len() && (#[trigger] shorter[k]).target == TargetView::Node(
                    ids[t],
                );
            assert(edges[k] == shorter[k]);
        }
        match last.target {
            TargetView::Node(id) => {
                let p = ids.index_of(id);
                assert(0 <= p < ids.len() && ids[p] == id);
                assert(all[rest.len() as int] == p);
                if all.contains(t) && !rest.contains(t) {
                    let q = choose|q: int| 0 <= q < all.len() && all[q] == t;
                    assert(q == rest.len()) by {
                        if q < rest.len() {
                            assert(rest[q] == t);
                        }
                    }
                    assert(edges[edges.len() - 1].target == TargetView::Node(ids[t]));
                }
                if 0 <= t < ids.len() && last.target == TargetView::Node(ids[t]) {
                    assert(ids[p] == ids[t]);
                    assert(p == t);
                }
            },
            TargetView::Terminal(_) => {},
        }
        if exists|k: int|
            0 <= k < edges.len() && (#[trigger] edges[k]).target == TargetView::Node(ids[t]) {
            let k = choose|k: int|
                0 <= k < edges.len() && (#[trigger] edges[k]).target == TargetView::Node(ids[t]);
            if k < shorter.len() {
                assert(shorter[k] == edges[k]);
            }
        }
        assert forall|k: int| 0 <= k < all.len() implies 0 <= #[trigger] all[k] < ids.len() by {
            if k < rest.len() {
                assert(all[k] == rest[k]);
            }
        }
    }
}

proof fn edges_from_holds(edges: Seq<EdgeView>, id: Seq<char>, k: int)
    requires
        0 <= k < edges.len(),
        edges[k].source == id,
    ensures
        edges_from(edges, id).contains(edges[k]),
    decreases edges.len(),
{
    let shorter = edges.drop_last();
    let out = edges_from(edges, id);
    if k == edges.len() - 1 {
        assert(out[out.len() - 1] == edges[k]);
    } else {
        edges_from_holds(shorter, id, k);
        let rest = edges_from(shorter, id);
        let q = choose|q: int| 0 <= q < rest.len() && rest[q] == shorter[k];
        assert(out[q] == edges[k]);
    }
}

/// The numbered graph has an edge exactly where some transition leads.
proof fn numbered_edges(g: GraphView, i: int, j: int)
    requires
        declared_well(g),
        0 <= i < g.ids.len(),
    ensures
        successors(sorted_ids(g), ordered_edges(g))[i].contains(j) <==> (0 <= j < g.ids.len()
            && leads(g.edges, sorted_ids(g)[i], sorted_ids(g)[j])),
{
    let ids = sorted_ids(g);
    declared_targets_known(g);
    let row = ordered_edges(g)[i];
    let declared = edges_from(g.edges, ids[i]);
    node_targets_meaning(ids, row, j);
    sort_keeps_items(declared, edge_order());
    edges_from_are_edges(g.edges, ids[i]);
    if node_targets(ids, row).contains(j) {
        let k = choose|k: int|
            0 <= k < row.len() && (#[trigger] row[k]).target == TargetView::Node(ids[j]);
        assert(row.contains(row[k]));
        let m = choose|m: int| 0 <= m < declared.len() && declared[m] == row[k];
        assert(g.edges.contains(declared[m]) && declared[m].source == ids[i]);
        let e = choose|e: int| 0 <= e < g.edges.len() && g.edges[e] == declared[m];
        assert(g.edges[e].source == ids[i]);
    }
    if 0 <= j < ids.len() && leads(g.edges, ids[i], ids[j]) {
        let e = choose|e: int|
            0 <= e < g.edges.len() && (#[trigger] g.edges[e]).source == ids[i] && g.edges[e].target
                == TargetView::Node(ids[j]);
        edges_from_holds(g.edges, ids[i], e);
        assert(row.contains(g.edges[e]));
        let k = choose|k: int| 0 <= k < row.len() && row[k] == g.edges[e];
        assert(row[k].target == TargetView::Node(ids[j]));
    }
}

proof fn numbered_graph_closed(g: GraphView)
    requires
        declared_well(g),
    ensures
        closed_under(successors(sorted_ids(g), ordered_edges(g))),
        successors(sorted_ids(g), ordered_edges(g)).len() == g.ids.len(),
{
    let ids = sorted_ids(g);
    let succ = successors(ids, ordered_edges(g));
    declared_targets_known(g);
    assert forall|i: int, k: int| 0 <= i < succ.len() && 0 <= k < succ[i].len() implies 0
        <= #[trigger] succ[i][k] < succ.len() by {
        node_targets_meaning(ids, ordered_edges(g)[i], 0);
    }
}

proof fn trail_is_route(g: GraphView, trail: Seq<int>)
    requires
        declared_well(g),
        is_trail(successors(sorted_ids(g), ordered_edges(g)), trail),
    ensures
        is_route(g.edges, trail.map_values(|i: int| sorted_ids(g)[i])),
{
    let ids = sorted_ids(g);
    let succ = successors(ids, ordered_edges(g));
    let route = trail.map_values(|i: int| ids[i]);
    assert forall|k: int| 0 <= k < route.len() - 1 implies leads(
        g.edges,
        #[trigger] route[k],
        route[k + 1],
    ) by {
        assert(0 <= trail[k] < succ.len());
        assert(succ[trail[k]].contains(trail[k + 1]));
        numbered_edges(g, trail[k], trail[k + 1]);
    }
}

proof fn route_is_trail(g: GraphView, route: Seq<Seq<char>>) -> (trail: Seq<int>)
    requires
        declared_well(g),
        is_route(g.edges, route),
        g.ids.contains(route[0]),
    ensures
        is_trail(successors(sorted_ids(g), ordered_edges(g)), trail),
        trail.len() == route.len(),
        forall|i: int| 0 <= i < route.len() ==> sorted_ids(g)[#[trigger] trail[i]] == route[i],
    decreases route.len(),
{
    let ids = sorted_ids(g);
    let succ = successors(ids, ordered_edges(g));
    declared_targets_known(g);
    numbered_graph_closed(g);
    let p = ids.index_of(route[0]);
    assert(ids.contains(route[0]));
    assert(0 <= p < ids.len() && ids[p] == route[0]);
    if route.len() == 1 {
        let trail = seq![p];
        assert(is_trail(succ, trail));
        trail
    } else {
        let rest = route.drop_first();
        assert forall|i: int| 0 <= i < rest.len() - 1 implies leads(
            g.edges,
            #[trigger] rest[i],
            rest[i + 1],
        ) by {
            assert(rest[i] == route[i + 1]);
            assert(leads(g.edges, route[i + 1], route[i + 1 + 1]));
        }
        assert(leads(g.edges, route[0], route[0int + 1]));
        let e = choose|e: int|
            0 <= e < g.edges.len() && (#[trigger] g.edges[e]).source == route[0]
                && g.edges[e].target == TargetView::Node(route[1]);
        assert(edge_problem(g.ids, g.edges, e) is None);
        assert(g.ids.contains(rest[0]));
        let tail = route_is_trail(g, rest);
        let trail = seq![p] + tail;
        assert(ids[tail[0]] == rest[0]);
        assert(0 <= tail[0] < succ.len());
        numbered_edges(g, p, tail[0]);
        assert forall|i: int| 0 <= i < trail.len() implies 0 <= #[trigger] trail[i]
            < succ.len() by {
            if i > 0 {
                assert(trail[i] == tail[i - 1]);
            }
        }
        assert forall|i: int| 0 <= i < trail.len() - 1 implies #[trigger] succ[trail[i]].contains(
            trail[i + 1],
        ) by {
            if i == 0 {
                assert(trail[1] == tail[0]);
            } else {
                assert(trail[i] == tail[i - 1]);
                assert(trail[i + 1] == tail[i]);
                assert(succ[tail[i - 1]].contains(tail[i - 1 + 1]));
            }
        }
        assert forall|i: int| 0 <= i < route.len() implies ids[#[trigger] trail[i]]
            == route[i] by {
            if i > 0 {
                assert(trail[i] == tail[i - 1]);
                assert(rest[i - 1] == route[i]);
            }
        }
        trail
    }
}

/// Every node of a graph that compiles is reached from the entry, and none of
/// them lies on a cycle.
pub proof fn accepted_is_reachable_and_acyclic(g: GraphView, id: Seq<char>)
    requires
        accepted(g),
        g.ids.contains(id),
    ensures
        route_exists(g.edges, g.entry->0, id),
        !lies_on_cycle(g.edges, id),
{
    let ids = sorted_ids(g);
    let succ = successors(ids, ordered_edges(g));
    declared_targets_known(g);
    numbered_graph_closed(g);
    let entry = ids.index_of(g.entry->0);
    assert(ids.contains(g.entry->0));
    let p = ids.index_of(id);
    assert(ids.contains(id));
    visit_all_meaning(succ, entry);
    let seen = graph_walk(g)->Ok_0;
    assert(seen[p]);
    assert(reaches(succ, entry, p));
    let trail = choose|trail: Seq<int>| #[trigger]
        is_trail(succ, trail) && trail[0] == entry && trail.last() == p;
    trail_is_route(g, trail);
    let route = trail.map_values(|i: int| ids[i]);
    assert(route[0] == g.entry->0 && route.last() == id);
    if lies_on_cycle(g.edges, id) {
        let around = choose|route: Seq<Seq<char>>| #[trigger]
            is_route(g.edges, route) && route.len() > 1 && route[0] == id && route.last() == id;
        let t = route_is_trail(g, around);
        assert(ids[t[0]] == ids[p]);
        assert(0 <= t[0] < succ.len());
        assert(t[0] == p);
        assert(0 <= t[t.len() - 1] < succ.len());
        assert(ids[t[t.len() - 1]] == ids[p]);
        assert(t.last() == p);
        assert(on_cycle(succ, p));
    }
}

/// The node that a rejection names as closing a cycle is reached from the entry
/// and lies on a cycle.
pub proof fn reported_cycle_is_one(g: GraphView, id: Seq<char>)
    requires
        rejected(g, PlanErrorView::CyclicGraph(id)),
    ensures
        route_exists(g.edges, g.entry->0, id),
        lies_on_cycle(g.edges, id),
{
    if !routed_well(g) && declared_well(g) {
        let i = choose|i: int|
            #![trigger sorted_ids(g)[i]]
            0 <= i < g.ids.len() && node_rejected(
                edges_from(g.edges, sorted_ids(g)[i]),
                sorted_ids(g)[i],
                PlanErrorView::CyclicGraph(id),
            );
        assert(false);
    }
    let ids = sorted_ids(g);
    let succ = successors(ids, ordered_edges(g));
    declared_targets_known(g);
    numbered_graph_closed(g);
    let entry = ids.index_of(g.entry->0);
    assert(ids.contains(g.entry->0));
    visit_all_meaning(succ, entry);
    let met = graph_walk(g)->Err_0;
    let trail = choose|trail: Seq<int>| #[trigger]
        is_trail(succ, trail) && trail[0] == entry && trail.last() == met;
    trail_is_route(g, trail);
    let route = trail.map_values(|i: int| ids[i]);
    assert(route[0] == g.entry->0 && route.last() == id);
    let around = choose|trail: Seq<int>| #[trigger]
        is_trail(succ, trail) && trail.len() > 1 && trail[0] == met && trail.last() == met;
    trail_is_route(g, around);
    let circle = around.map_values(|i: int| ids[i]);
    assert(circle[0] == id && circle.last() == id);
}

proof fn edges_from_counts(edges: Seq<EdgeView>, id: Seq<char>, x: EdgeView)
    ensures
        edges_from(edges, id).to_multiset().count(x) == (if x.source == id {
            edges.to_multiset().count(x)
        } else {
            0
        }),
    decreases edges.len(),
{
    broadcast use vstd::seq_lib::group_to_multiset_ensures;

    if edges.len() > 0 {
        edges_from_counts(edges.drop_last(), id, x);
        assert(edges.drop_last().push(edges.last()) =~= edges);
    }
}

proof fn edges_from_prefix(edges: Seq<EdgeView>, id: Seq<char>, k: int)
    requires
        0 <= k <= edges.len(),
    ensures
        edges_from(edges.take(k), id).len() <= edges_from(edges, id).len(),
        k < edges.len() && edges[k].source == id
            ==> edges_from(edges.take(k), id).len() < edges_from(
            edges,
            id,
        ).len(),
    decreases edges.len(),
{
    if k == edges.len() {
        assert(edges.take(k) =~= edges);
    } else {
        let shorter = edges.drop_last();
        edges_from_prefix(shorter, id, k);
        assert(shorter.take(k) =~= edges.take(k));
    }
}

proof fn outgoing_within_bound(ids: Seq<Seq<char>>, edges: Seq<EdgeView>, id: Seq<char>)
    requires
        forall|k: int| 0 <= k < edges.len() ==> #[trigger] edge_problem(ids, edges, k) is None,
    ensures
        edges_from(edges, id).len() <= MAX_OUTGOING_TRANSITIONS,
    decreases edges.len(),
{
    if edges.len() > 0 {
        let shorter = edges.drop_last();
        assert forall|k: int| 0 <= k < shorter.len() implies #[trigger] edge_problem(
            ids,
            shorter,
            k,
        ) is None by {
            assert(edge_problem(ids, edges, k) is None);
            assert(shorter.take(k) =~= edges.take(k));
            assert(shorter[k] == edges[k]);
        }
        outgoing_within_bound(ids, shorter, id);
        let last = edges.len() - 1;
        assert(edge_problem(ids, edges, last) is None);
        assert(edges.take(last) =~= shorter);
    }
}

proof fn same_items_same_judgement(a: Seq<EdgeView>, b: Seq<EdgeView>)
    requires
        a.to_multiset() == b.to_multiset(),
        unambiguous(a),
    ensures
        unambiguous(b),
        sort_by(a, edge_order()) == sort_by(b, edge_order()),
{
    broadcast use vstd::seq_lib::group_to_multiset_ensures;

    unambiguous_patterns_differ(a);
    a.lemma_multiset_has_no_duplicates();
    b.lemma_multiset_has_no_duplicates_conv();
    assert forall|i: int, j: int| !#[trigger] clash(b, i, j) by {
        if clash(b, i, j) {
            assert(b.to_multiset().contains(b[i])) by {
                assert(b.contains(b[i]));
            }
            assert(b.to_multiset().contains(b[j])) by {
                assert(b.contains(b[j]));
            }
            assert(a.contains(b[i]) && a.contains(b[j]));
            let p = choose|p: int| 0 <= p < a.len() && a[p] == b[i];
            let q = choose|q: int| 0 <= q < a.len() && a[q] == b[j];
            assert(b[i] != b[j]);
            if p < q {
                assert(clash(a, p, q));
            } else {
                let w = choose|w: Seq<char>| #[trigger]
                    glob(b[i].pattern, w) && glob(b[j].pattern, w);
                assert(glob(a[q].pattern, w) && glob(a[p].pattern, w));
                assert(clash(a, q, p));
            }
        }
    }
    unambiguous_patterns_differ(b);
    edge_order_orders(a);
    edge_order_orders(b);
    sort_orders(a, edge_order());
    sort_orders(b, edge_order());
    sort_keeps_items(a, edge_order());
    sort_keeps_items(b, edge_order());
    ordered_items_unique(sort_by(a, edge_order()), sort_by(b, edge_order()), edge_order());
}

/// The order in which nodes and transitions are declared does not matter: a
/// graph with the same declarations in another order compiles to the same
/// identifiers and the same transitions in the same order.
pub proof fn declaration_order_is_irrelevant(g: GraphView, h: GraphView)
    requires
        accepted(g),
        g.entry == h.entry,
        g.ids.to_multiset() == h.ids.to_multiset(),
        g.edges.to_multiset() == h.edges.to_multiset(),
    ensures
        accepted(h),
        sorted_ids(g) == sorted_ids(h),
        ordered_edges(g) == ordered_edges(h),
{
    broadcast use vstd::seq_lib::group_to_multiset_ensures;

    assert(g.ids.len() == g.ids.to_multiset().len());
    assert(h.ids.len() == h.ids.to_multiset().len());
    assert(g.edges.len() == g.edges.to_multiset().len());
    assert(h.edges.len() == h.edges.to_multiset().len());
    g.ids.lemma_multiset_has_no_duplicates();
    h.ids.lemma_multiset_has_no_duplicates_conv();
    assert forall|x: Seq<char>| #[trigger] h.ids.contains(x) <==> g.ids.contains(x) by {
        assert(h.ids.to_multiset().contains(x) <==> h.ids.contains(x));
        assert(g.ids.to_multiset().contains(x) <==> g.ids.contains(x));
    }
    text_order_orders(g.ids);
    text_order_orders(h.ids);
    sort_orders(g.ids, text_order());
    sort_orders(h.ids, text_order());
    sort_keeps_items(g.ids, text_order());
    sort_keeps_items(h.ids, text_order());
    ordered_items_unique(sorted_ids(g), sorted_ids(h), text_order());
    assert forall|id: Seq<char>| #[trigger]
        edges_from(g.edges, id).to_multiset() == edges_from(h.edges, id).to_multiset() by {
        assert forall|x: EdgeView|
            edges_from(g.edges, id).to_multiset().count(x) == edges_from(
                h.edges,
                id,
            ).to_multiset().count(x) by {
            edges_from_counts(g.edges, id, x);
            edges_from_counts(h.edges, id, x);
        }
        assert(edges_from(g.edges, id).to_multiset() =~= edges_from(h.edges, id).to_multiset());
    }
    assert forall|k: int| 0 <= k < h.edges.len() implies #[trigger] edge_problem(
        h.ids,
        h.edges,
        k,
    ) is None by {
        let edge = h.edges[k];
        assert(h.edges.contains(edge));
        assert(h.edges.to_multiset().contains(edge));
        assert(g.edges.contains(edge));
        let e = choose|e: int| 0 <= e < g.edges.len() && g.edges[e] == edge;
        assert(edge_problem(g.ids, g.edges, e) is None);
        outgoing_within_bound(g.ids, g.edges, edge.source);
        edges_from_prefix(h.edges, edge.source, k);
        assert(edges_from(g.edges, edge.source).to_multiset() == edges_from(
            h.edges,
            edge.source,
        ).to_multiset());
        assert(edges_from(g.edges, edge.source).len() == edges_from(
            g.edges,
            edge.source,
        ).to_multiset().len());
        assert(edges_from(h.edges, edge.source).len() == edges_from(
            h.edges,
            edge.source,
        ).to_multiset().len());
    }
    assert(h.ids.contains(h.entry->0));
    assert(declared_well(h));
    assert forall|i: int| 0 <= i < g.ids.len() implies node_accepted(
        edges_from(h.edges, #[trigger] sorted_ids(h)[i]),
    ) && sort_by(edges_from(g.edges, sorted_ids(g)[i]), edge_order()) == sort_by(
        edges_from(h.edges, sorted_ids(h)[i]),
        edge_order(),
    ) by {
        let id = sorted_ids(g)[i];
        assert(node_accepted(edges_from(g.edges, sorted_ids(g)[i])));
        let a = edges_from(g.edges, id);
        let b = edges_from(h.edges, id);
        assert(a.to_multiset() == b.to_multiset());
        assert(a.len() == a.to_multiset().len());
        assert(b.len() == b.to_multiset().len());
        same_items_same_judgement(a, b);
    }
    assert(ordered_edges(g) =~= ordered_edges(h));
    assert(graph_walk(g) == graph_walk(h));
}

/// Nodes with the same identifiers in the same order, drawn from the same
/// declarations, are the same nodes: together with the previous law, equal
/// declarations give equal manifests and so equal fingerprints.
pub proof fn ordered_nodes_are_determined(a: Seq<FlowNode>, b: Seq<FlowNode>)
    requires
        names(a) == names(b),
        names(a).no_duplicates(),
        a.to_multiset() == b.to_multiset(),
    ensures
        a == b,
{
    broadcast use vstd::seq_lib::group_to_multiset_ensures;

    assert(names(a).len() == a.len() && names(b).len() == b.len());
    assert forall|i: int| 0 <= i < a.len() implies a[i] == b[i] by {
        assert(a.contains(a[i]));
        assert(b.to_multiset().contains(a[i]));
        assert(b.contains(a[i]));
        let k = choose|k: int| 0 <= k < b.len() && b[k] == a[i];
        assert(names(b)[k] == b[k].name());
        assert(names(a)[i] == a[i].name());
        assert(names(a)[k] == names(a)[i]);
        assert(k == i);
    }
    assert(a =~= b);
}

/// The transitions that leave a node are those declared with it as their source,
/// in declaration order.
pub proof fn leaving_transitions_are_those_of_the_source(edges: Seq<EdgeView>, id: Seq<char>)
    ensures
        edges_from(edges, id) == edges.filter(|edge: EdgeView| edge.source == id),
    decreases edges.len(),
{
    reveal(Seq::filter);
    if edges.len() > 0 {
        leaving_transitions_are_those_of_the_source(edges.drop_last(), id);
    }
    assert(edges_from(edges, id) =~= edges.filter(|edge: EdgeView| edge.source == id));
}

/// Where a transition stands among those of its source.
proof fn place_among_leaving(edges: Seq<EdgeView>, id: Seq<char>, k: int)
    requires
        0 <= k < edges.len(),
        edges[k].source == id,
    ensures
        ({
            let place = edges_from(edges.take(k), id).len() as int;
            place < edges_from(edges, id).len() && edges_from(edges, id)[place] == edges[k]
        }),
    decreases edges.len(),
{
    let shorter = edges.drop_last();
    if k == edges.len() - 1 {
        assert(edges.take(k) =~= shorter);
    } else {
        place_among_leaving(shorter, id, k);
        assert(shorter.take(k) =~= edges.take(k));
    }
}

/// The transition that stands at a place among those of its source.
proof fn leaving_at_place(edges: Seq<EdgeView>, id: Seq<char>, place: int) -> (k: int)
    requires
        0 <= place < edges_from(edges, id).len(),
    ensures
        0 <= k < edges.len(),
        edges[k].source == id,
        edges[k] == edges_from(edges, id)[place],
        edges_from(edges.take(k), id).len() == place,
    decreases edges.len(),
{
    let shorter = edges.drop_last();
    let rest = edges_from(shorter, id);
    if place < rest.len() {
        let k = leaving_at_place(shorter, id, place);
        assert(shorter.take(k) =~= edges.take(k));
        k
    } else {
        let k = edges.len() - 1;
        assert(edges.take(k) =~= shorter);
        k
    }
}

/// Two patterns are equally specific: they have as many literal characters, as
/// many wildcards and as many bytes.
pub open spec fn equally_specific(p: Seq<char>, q: Seq<char>) -> bool {
    &&& p.len() - wildcard_count(p) == q.len() - wildcard_count(q)
    &&& wildcard_count(p) == wildcard_count(q)
    &&& vstd::utf8::encode_utf8(p).len() == vstd::utf8::encode_utf8(q).len()
}

/// Two transitions of the node `id`, with the patterns `p` and `q`, are equally
/// specific, and some exit code is matched by both.
pub open spec fn ambiguous_at(
    edges: Seq<EdgeView>,
    i: int,
    j: int,
    id: Seq<char>,
    p: Seq<char>,
    q: Seq<char>,
) -> bool {
    &&& 0 <= i < edges.len() && 0 <= j < edges.len() && i != j
    &&& edges[i].source == id && edges[j].source == id
    &&& edges[i].pattern == p && edges[j].pattern == q
    &&& equally_specific(p, q)
    &&& exists|code: Seq<char>| #[trigger] glob(p, code) && glob(q, code)
}

/// Two such transitions are declared.
pub open spec fn is_ambiguous(
    edges: Seq<EdgeView>,
    id: Seq<char>,
    p: Seq<char>,
    q: Seq<char>,
) -> bool {
    exists|i: int, j: int| #[trigger] ambiguous_at(edges, i, j, id, p, q)
}

/// The graph has the fault that an error names.
pub open spec fn has_fault(g: GraphView, error: PlanErrorView) -> bool {
    match error {
        PlanErrorView::MissingEntryNode => g.entry is None,
        PlanErrorView::TooManyNodes(max) => max == 1024 && g.ids.len() > 1024,
        PlanErrorView::TooManyTransitions(max) => max == 4096 && g.edges.len() > 4096,
        PlanErrorView::DuplicateNodeId(id) => exists|i: int, j: int|
            0 <= i < j < g.ids.len() && #[trigger] g.ids[i] == id && #[trigger] g.ids[j] == id,
        PlanErrorView::UndefinedNode(id) => !g.ids.contains(id) && (g.entry == Some(id)
            || exists|k: int|
            0 <= k < g.edges.len() && ((#[trigger] g.edges[k]).source == id || g.edges[k].target
                == TargetView::Node(id))),
        PlanErrorView::TooManyOutgoingTransitions(id, max) => max == 64 && g.edges.filter(
            |edge: EdgeView| edge.source == id,
        ).len() > 64,
        PlanErrorView::MissingTransition(id) => g.ids.contains(id) && forall|k: int|
            0 <= k < g.edges.len() ==> (#[trigger] g.edges[k]).source != id,
        PlanErrorView::AmbiguousTransition(id, p, q) => is_ambiguous(g.edges, id, p, q),
        PlanErrorView::UnreachableNode(id) => g.entry is Some && g.ids.contains(id)
            && !route_exists(g.edges, g.entry->0, id),
        PlanErrorView::CyclicGraph(id) => g.entry is Some && route_exists(
            g.edges,
            g.entry->0,
            id,
        ) && lies_on_cycle(g.edges, id),
        _ => false,
    }
}

/// Every pattern of the graph is one that can be declared.
pub open spec fn patterns_valid(g: GraphView) -> bool {
    forall|k: int| 0 <= k < g.edges.len() ==> valid_pattern((#[trigger] g.edges[k]).pattern)
}

proof fn clash_is_ambiguous(g: GraphView, id: Seq<char>, i: int, j: int)
    requires
        patterns_valid(g),
        clash(edges_from(g.edges, id), i, j),
    ensures
        has_fault(
            g,
            PlanErrorView::AmbiguousTransition(
                id,
                edges_from(g.edges, id)[i].pattern,
                edges_from(g.edges, id)[j].pattern,
            ),
        ),
{
    let a = leaving_at_place(g.edges, id, i);
    let b = leaving_at_place(g.edges, id, j);
    let p = g.edges[a].pattern;
    let q = g.edges[b].pattern;
    assert(valid_pattern(p) && valid_pattern(q));
    specificity_parts(p);
    specificity_parts(q);
    assert(ambiguous_at(g.edges, a, b, id, p, q));
    assert(p == edges_from(g.edges, id)[i].pattern && q == edges_from(g.edges, id)[j].pattern);
    assert(is_ambiguous(g.edges, id, p, q));
}

/// A rejected graph has the fault that it is rejected for.
pub proof fn a_rejection_names_a_fault(g: GraphView, error: PlanErrorView)
    requires
        rejected(g, error),
        patterns_valid(g),
    ensures
        has_fault(g, error),
{
    if g.entry is None || g.ids.len() > MAX_NODES || g.edges.len() > MAX_TRANSITIONS {
    } else if !g.ids.no_duplicates() {
        let j = choose|j: int|
            #![trigger g.ids[j]]
            0 <= j < g.ids.len() && repeats_at(g.ids, j) && (forall|i: int|
                0 <= i < j ==> !#[trigger] repeats_at(g.ids, i)) && error
                == PlanErrorView::DuplicateNodeId(g.ids[j]);
        let i = choose|i: int| 0 <= i < j && #[trigger] g.ids[i] == g.ids[j];
        assert(g.ids[i] == g.ids[j]);
    } else if !g.ids.contains(g.entry->0) {
    } else if !declared_well(g) {
        let k = choose|k: int|
            #![trigger edge_problem(g.ids, g.edges, k)]
            0 <= k < g.edges.len() && edge_problem(g.ids, g.edges, k) == Some(error) && (forall|
                i: int,
            |
                0 <= i < k ==> #[trigger] edge_problem(g.ids, g.edges, i) is None);
        let edge = g.edges[k];
        edges_from_prefix(g.edges, edge.source, k);
        leaving_transitions_are_those_of_the_source(g.edges, edge.source);
    } else if !routed_well(g) {
        let i = choose|i: int|
            #![trigger sorted_ids(g)[i]]
            0 <= i < g.ids.len() && node_rejected(
                edges_from(g.edges, sorted_ids(g)[i]),
                sorted_ids(g)[i],
                error,
            ) && (forall|j: int|
                0 <= j < i ==> node_accepted(edges_from(g.edges, #[trigger] sorted_ids(g)[j])));
        let id = sorted_ids(g)[i];
        let edges = edges_from(g.edges, id);
        declared_targets_known(g);
        assert(sorted_ids(g).contains(id));
        if edges.len() == 0 {
            assert forall|k: int| 0 <= k < g.edges.len() implies (#[trigger] g.edges[k]).source
                != id by {
                if g.edges[k].source == id {
                    place_among_leaving(g.edges, id, k);
                }
            }
        } else {
            let (a, b) = choose|a: int, b: int|
                #![trigger clash(edges, a, b)]
                first_clash(edges, a, b) && error == PlanErrorView::AmbiguousTransition(
                    id,
                    edges[a].pattern,
                    edges[b].pattern,
                );
            clash_is_ambiguous(g, id, a, b);
        }
    } else {
        let ids = sorted_ids(g);
        let succ = successors(ids, ordered_edges(g));
        declared_targets_known(g);
        numbered_graph_closed(g);
        let entry = ids.index_of(g.entry->0);
        assert(ids.contains(g.entry->0));
        visit_all_meaning(succ, entry);
        match graph_walk(g) {
            Err(met) => {
                reported_cycle_is_one(g, ids[met]);
            },
            Ok(seen) => {
                let i = choose|i: int|
                    #![trigger seen[i]]
                    0 <= i < g.ids.len() && !seen[i] && (forall|j: int|
                        0 <= j < i ==> #[trigger] seen[j]) && error
                        == PlanErrorView::UnreachableNode(ids[i]);
                assert(ids.contains(ids[i]));
                if route_exists(g.edges, g.entry->0, ids[i]) {
                    let route = choose|route: Seq<Seq<char>>| #[trigger]
                        is_route(g.edges, route) && route[0] == g.entry->0 && route.last()
                            == ids[i];
                    let trail = route_is_trail(g, route);
                    assert(ids[trail[0]] == ids[entry]);
                    assert(0 <= trail[0] < succ.len());
                    assert(trail[0] == entry);
                    assert(0 <= trail[trail.len() - 1] < succ.len());
                    assert(ids[trail[trail.len() - 1]] == ids[i]);
                    assert(trail.last() == i);
                    assert(reaches(succ, entry, i));
                }
            },
        }
    }
}

/// A graph compiles exactly if it has none of the faults that a rejection can
/// name.
pub proof fn a_graph_compiles_unless_it_has_a_fault(g: GraphView)
    requires
        patterns_valid(g),
    ensures
        accepted(g) <==> (forall|error: PlanErrorView| !#[trigger] has_fault(g, error)),
{
    accepted_or_rejected(g);
    if !accepted(g) {
        let error = choose|error: PlanErrorView| #[trigger] rejected(g, error);
        a_rejection_names_a_fault(g, error);
    } else {
        assert forall|error: PlanErrorView| !#[trigger] has_fault(g, error) by {
            if has_fault(g, error) {
                match error {
                    PlanErrorView::DuplicateNodeId(id) => {
                        let (i, j) = choose|i: int, j: int|
                            0 <= i < j < g.ids.len() && #[trigger] g.ids[i] == id
                                && #[trigger] g.ids[j] == id;
                        assert(g.ids[i] == g.ids[j]);
                    },
                    PlanErrorView::UndefinedNode(id) => {
                        if g.entry != Some(id) {
                            let k = choose|k: int|
                                0 <= k < g.edges.len() && ((#[trigger] g.edges[k]).source == id
                                    || g.edges[k].target == TargetView::Node(id));
                            assert(edge_problem(g.ids, g.edges, k) is None);
                        }
                    },
                    PlanErrorView::TooManyOutgoingTransitions(id, max) => {
                        leaving_transitions_are_those_of_the_source(g.edges, id);
                        outgoing_within_bound(g.ids, g.edges, id);
                    },
                    PlanErrorView::MissingTransition(id) => {
                        declared_targets_known(g);
                        assert(sorted_ids(g).contains(id));
                        let i = choose|i: int|
                            0 <= i < sorted_ids(g).len() && sorted_ids(g)[i] == id;
                        assert(node_accepted(edges_from(g.edges, sorted_ids(g)[i])));
                        let k = leaving_at_place(g.edges, id, 0);
                        assert(g.edges[k].source == id);
                    },
                    PlanErrorView::AmbiguousTransition(id, p, q) => {
                        let (i, j) = choose|i: int, j: int| #[trigger]
                            ambiguous_at(g.edges, i, j, id, p, q);
                        assert(valid_pattern(g.edges[i].pattern));
                        assert(valid_pattern(g.edges[j].pattern));
                        specificity_parts(p);
                        specificity_parts(q);
                        PatternSpecificity::strict_total(specificity_of(p), specificity_of(q));
                        assert(edge_problem(g.ids, g.edges, i) is None);
                        declared_targets_known(g);
                        assert(sorted_ids(g).contains(id));
                        let n = choose|n: int|
                            0 <= n < sorted_ids(g).len() && sorted_ids(g)[n] == id;
                        let edges = edges_from(g.edges, id);
                        assert(node_accepted(edges_from(g.edges, sorted_ids(g)[n])));
                        place_among_leaving(g.edges, id, i);
                        place_among_leaving(g.edges, id, j);
                        let a = edges_from(g.edges.take(i), id).len() as int;
                        let b = edges_from(g.edges.take(j), id).len() as int;
                        let code = choose|code: Seq<char>| #[trigger]
                            glob(p, code) && glob(q, code);
                        if i < j {
                            edges_from_prefix(g.edges.take(j), id, i);
                            assert(g.edges.take(j).take(i) =~= g.edges.take(i));
                            assert(overlap(p, q));
                            assert(clash(edges, a, b));
                        } else {
                            edges_from_prefix(g.edges.take(i), id, j);
                            assert(g.edges.take(i).take(j) =~= g.edges.take(j));
                            assert(glob(q, code) && glob(p, code));
                            assert(overlap(q, p));
                            assert(clash(edges, b, a));
                        }
                    },
                    PlanErrorView::UnreachableNode(id) => {
                        accepted_is_reachable_and_acyclic(g, id);
                    },
                    PlanErrorView::CyclicGraph(id) => {
                        let route = choose|route: Seq<Seq<char>>| #[trigger]
                            is_route(g.edges, route) && route[0] == g.entry->0 && route.last()
                                == id;
                        let trail = route_is_trail(g, route);
                        declared_targets_known(g);
                        numbered_graph_closed(g);
                        let last = trail[trail.len() - 1];
                        assert(0 <= last < successors(sorted_ids(g), ordered_edges(g)).len());
                        assert(sorted_ids(g)[last] == id);
                        assert(sorted_ids(g).contains(id));
                        accepted_is_reachable_and_acyclic(g, id);
                    },
                    _ => {},
                }
            }
        }
    }
}

/// A plan's nodes are listed by their identifiers in byte order, and each node's
/// transitions from the most specific pattern to the least specific one, equally
/// specific ones by their text.
pub proof fn a_plan_is_in_canonical_order(g: GraphView, r: int, i: int, j: int)
    requires
        accepted(g),
        0 <= r < g.ids.len(),
        0 <= i < j,
    ensures
        j < g.ids.len() ==> text_less(sorted_ids(g)[i], sorted_ids(g)[j]),
        j < ordered_edges(g)[r].len() ==> {
            let first = ordered_edges(g)[r][i].pattern;
            let second = ordered_edges(g)[r][j].pattern;
            specificity_of(second).below(specificity_of(first)) || (specificity_of(first)
                == specificity_of(second) && text_less(first, second))
        },
        ordered_edges(g)[r].to_multiset() == g.edges.filter(
            |edge: EdgeView| edge.source == sorted_ids(g)[r],
        ).to_multiset(),
{
    let ids = sorted_ids(g);
    text_order_orders(g.ids);
    sort_orders(g.ids, text_order());
    sort_keeps_items(g.ids, text_order());
    if j < g.ids.len() {
        assert(text_order()(ids[i], ids[j]));
    }
    let edges = edges_from(g.edges, ids[r]);
    assert(node_accepted(edges_from(g.edges, sorted_ids(g)[r])));
    unambiguous_patterns_differ(edges);
    edge_order_orders(edges);
    sort_orders(edges, edge_order());
    sort_keeps_items(edges, edge_order());
    leaving_transitions_are_those_of_the_source(g.edges, ids[r]);
    let row = ordered_edges(g)[r];
    if j < row.len() {
        assert(edge_order()(row[i], row[j]));
        assert(edge_before(row[i], row[j]));
        if row[i].pattern == row[j].pattern {
            row_patterns_differ(edges, i, j);
        }
    }
}

proof fn row_patterns_differ(edges: Seq<EdgeView>, i: int, j: int)
    requires
        unambiguous(edges),
        0 <= i < j < edges.len(),
    ensures
        sort_by(edges, edge_order())[i].pattern != sort_by(edges, edge_order())[j].pattern,
{
    broadcast use vstd::seq_lib::group_to_multiset_ensures;

    let row = sort_by(edges, edge_order());
    unambiguous_patterns_differ(edges);
    edge_order_orders(edges);
    sort_orders(edges, edge_order());
    sort_keeps_items(edges, edge_order());
    edges.lemma_multiset_has_no_duplicates();
    row.lemma_multiset_has_no_duplicates_conv();
    assert(row[i] != row[j]);
    assert(row.contains(row[i]) && row.contains(row[j]));
    assert(edges.contains(row[i]) && edges.contains(row[j]));
    let a = choose|a: int| 0 <= a < edges.len() && edges[a] == row[i];
    let b = choose|b: int| 0 <= b < edges.len() && edges[b] == row[j];
    if a < b {
        assert(edges[a].pattern != edges[b].pattern);
    } else {
        assert(edges[b].pattern != edges[a].pattern);
    }
}

/// Compiling accepts exactly the graphs without a fault, and reports a fault that
/// the graph has otherwise.
pub proof fn compiling_rejects_faults_alone(
    graph: FlowGraph,
    job: &JobName,
    revision: DefinitionRevision,
    r: Result<CompiledExecutionPlan, PlanError>,
)
    requires
        call_ensures(FlowGraph::compile, (graph, job, revision), r),
        patterns_valid(graph@),
    ensures
        r is Ok <==> (forall|error: PlanErrorView| !#[trigger] has_fault(graph@, error)),
        r matches Err(error) ==> has_fault(graph@, error@),
        r matches Ok(plan) ==> {
            &&& plan.entry_id() == graph.entry->0@
            &&& plan.node_seq().to_multiset() == graph.nodes@.to_multiset()
            &&& plan.definition_view().job_name@ == job@
            &&& plan.definition_view().revision == revision
            &&& plan.definition_view().manifest_format == 2
            &&& plan.definition_view().manifest_digest@ == sha256(
                plan.definition_view().manifest@,
            )
        },
{
    a_graph_compiles_unless_it_has_a_fault(graph@);
    accepted_or_rejected(graph@);
    match r {
        Err(error) => a_rejection_names_a_fault(graph@, error@),
        Ok(_) => {},
    }
}

/// In a compiled plan an exit code takes the most specific transition of the node
/// that matches it: every other one that matches it is strictly less specific. A
/// code that none matches is refused, and so is a node that the plan does not
/// have.
pub proof fn a_plan_routes_to_the_most_specific(
    graph: FlowGraph,
    job: &JobName,
    revision: DefinitionRevision,
    plan: &CompiledExecutionPlan,
    id: &NodeId,
    code: &ExitCode,
    r: Result<&FlowTarget, FlowSelectionError>,
)
    requires
        call_ensures(FlowGraph::compile, (graph, job, revision), Ok(*plan)),
        call_ensures(CompiledExecutionPlan::select_target, (plan, id, code), r),
    ensures
        r matches Ok(target) ==> exists|k: int|
            #![trigger graph@.edges[k]]
            {
                &&& 0 <= k < graph@.edges.len()
                &&& graph@.edges[k].source == id@
                &&& graph@.edges[k].target == target@
                &&& glob(graph@.edges[k].pattern, code@)
                &&& forall|m: int|
                    0 <= m < graph@.edges.len() && m != k && (#[trigger] graph@.edges[m]).source
                        == id@ && glob(graph@.edges[m].pattern, code@) ==> specificity_of(
                        graph@.edges[m].pattern,
                    ).below(specificity_of(graph@.edges[k].pattern))
            },
        r matches Err(FlowSelectionError::UnknownNode { .. }) ==> !graph@.ids.contains(id@),
        r matches Err(FlowSelectionError::UnmappedExitOutcome { .. }) ==> graph@.ids.contains(id@)
            && forall|m: int|
            0 <= m < graph@.edges.len() && (#[trigger] graph@.edges[m]).source == id@ ==> !glob(
                graph@.edges[m].pattern,
                code@,
            ),
{
    let g = graph@;
    let ids = sorted_ids(g);
    declared_targets_known(g);
    if g.ids.contains(id@) {
        assert(ids.contains(id@));
        let p = ids.index_of(id@);
        assert(ids[p] == id@);
        let edges = edges_from(g.edges, id@);
        assert(node_accepted(edges_from(g.edges, sorted_ids(g)[p])));
        assert(plan.edges_of(id@) == sort_by(edges, edge_order()));
        selects_the_most_specific(edges, code@);
        match first_target(sort_by(edges, edge_order()), code@) {
            Some(target) => {
                let q = choose|q: int|
                    #![trigger edges[q]]
                    {
                        &&& 0 <= q < edges.len()
                        &&& edges[q].target == target
                        &&& glob(edges[q].pattern, code@)
                        &&& forall|m: int|
                            0 <= m < edges.len() && m != q && glob(
                                (#[trigger] edges[m]).pattern,
                                code@,
                            ) ==> specificity_of(edges[m].pattern).below(
                                specificity_of(edges[q].pattern),
                            )
                    };
                let k = leaving_at_place(g.edges, id@, q);
                assert forall|m: int|
                    0 <= m < g.edges.len() && m != k && (#[trigger] g.edges[m]).source == id@
                        && glob(g.edges[m].pattern, code@) implies specificity_of(
                    g.edges[m].pattern,
                ).below(specificity_of(g.edges[k].pattern)) by {
                    place_among_leaving(g.edges, id@, m);
                    let place = edges_from(g.edges.take(m), id@).len() as int;
                    if m < k {
                        edges_from_prefix(g.edges.take(k), id@, m);
                        assert(g.edges.take(k).take(m) =~= g.edges.take(m));
                    } else {
                        edges_from_prefix(g.edges.take(m), id@, k);
                        assert(g.edges.take(m).take(k) =~= g.edges.take(k));
                    }
                    assert(place != q);
                    assert(edges[place] == g.edges[m]);
                }
                assert(g.edges[k].source == id@);
            },
            None => {
                assert forall|m: int|
                    0 <= m < g.edges.len() && (#[trigger] g.edges[m]).source == id@ implies !glob(
                    g.edges[m].pattern,
                    code@,
                ) by {
                    place_among_leaving(g.edges, id@, m);
                    let place = edges_from(g.edges.take(m), id@).len() as int;
                    assert(edges[place] == g.edges[m]);
                }
            },
        }
    }
}

/// Faults are reported in a fixed order: the missing entry, the number of nodes,
/// the number of transitions, the first repeated identifier, what is not declared,
/// and only then how nodes are routed and reached. A fault is never reported while
/// there is one of an earlier kind.
pub proof fn faults_are_reported_in_order(g: GraphView, error: PlanErrorView)
    requires
        rejected(g, error),
    ensures
        !(error is MissingEntryNode) ==> g.entry is Some,
        !(error is MissingEntryNode || error is TooManyNodes) ==> g.ids.len() <= 1024,
        !(error is MissingEntryNode || error is TooManyNodes || error is TooManyTransitions)
            ==> g.edges.len() <= 4096,
        error is UndefinedNode || error is TooManyOutgoingTransitions || error is MissingTransition
            || error is AmbiguousTransition || error is CyclicGraph || error is UnreachableNode
            ==> g.ids.no_duplicates(),
        error is TooManyOutgoingTransitions || error is MissingTransition
            || error is AmbiguousTransition || error is CyclicGraph || error is UnreachableNode
            ==> g.ids.contains(g.entry->0),
        error is MissingTransition || error is AmbiguousTransition || error is CyclicGraph
            || error is UnreachableNode ==> forall|k: int|
            0 <= k < g.edges.len() ==> g.ids.contains((#[trigger] g.edges[k]).source) && (
            g.edges[k].target matches TargetView::Node(id) ==> g.ids.contains(id)),
        error matches PlanErrorView::DuplicateNodeId(id) ==> exists|j: int|
            0 <= j < g.ids.len() && #[trigger] g.ids[j] == id && g.ids.take(j).no_duplicates()
                && g.ids.take(j).contains(id),
{
    if g.entry is None || g.ids.len() > MAX_NODES || g.edges.len() > MAX_TRANSITIONS {
    } else if !g.ids.no_duplicates() {
        let j = choose|j: int|
            #![trigger g.ids[j]]
            0 <= j < g.ids.len() && repeats_at(g.ids, j) && (forall|i: int|
                0 <= i < j ==> !#[trigger] repeats_at(g.ids, i)) && error
                == PlanErrorView::DuplicateNodeId(g.ids[j]);
        let before = g.ids.take(j);
        let i = choose|i: int| 0 <= i < j && #[trigger] g.ids[i] == g.ids[j];
        assert(before[i] == g.ids[j]);
        assert forall|a: int, b: int| 0 <= a < b < before.len() implies before[a] != before[b] by {
            assert(before[a] == g.ids[a] && before[b] == g.ids[b]);
            assert(!repeats_at(g.ids, b));
        }
        assert(before.no_duplicates());
    } else if !g.ids.contains(g.entry->0) {
    } else if !declared_well(g) {
        let k = choose|k: int|
            #![trigger edge_problem(g.ids, g.edges, k)]
            {
                &&& 0 <= k < g.edges.len()
                &&& edge_problem(g.ids, g.edges, k) == Some(error)
                &&& forall|i: int|
                    0 <= i < k ==> #[trigger] edge_problem(g.ids, g.edges, i) is None
            };
        assert(edge_problem(g.ids, g.edges, k) == Some(error));
    } else {
        assert forall|k: int| 0 <= k < g.edges.len() implies g.ids.contains(
            (#[trigger] g.edges[k]).source,
        ) && (g.edges[k].target matches TargetView::Node(id) ==> g.ids.contains(id)) by {
            assert(edge_problem(g.ids, g.edges, k) is None);
        }
    }
}

/// Of the transitions, the first one with a fault is reported: every one that was
/// declared before it joins declared nodes.
pub proof fn the_first_undeclared_end_is_reported(g: GraphView, id: Seq<char>)
    requires
        rejected(g, PlanErrorView::UndefinedNode(id)),
        g.entry != Some(id),
    ensures
        exists|k: int|
            #![trigger g.edges[k]]
            {
                &&& 0 <= k < g.edges.len()
                &&& !g.ids.contains(id)
                &&& g.edges[k].source == id || (g.ids.contains(g.edges[k].source)
                    && g.edges[k].target == TargetView::Node(id))
                &&& forall|i: int|
                    0 <= i < k ==> g.ids.contains((#[trigger] g.edges[i]).source) && (
                    g.edges[i].target matches TargetView::Node(other) ==> g.ids.contains(other))
            },
{
    let error = PlanErrorView::UndefinedNode(id);
    let k = choose|k: int|
        #![trigger edge_problem(g.ids, g.edges, k)]
        {
            &&& 0 <= k < g.edges.len()
            &&& edge_problem(g.ids, g.edges, k) == Some(error)
            &&& forall|i: int| 0 <= i < k ==> #[trigger] edge_problem(g.ids, g.edges, i) is None
        };
    assert(!declared_well(g));
    assert forall|i: int| 0 <= i < k implies g.ids.contains((#[trigger] g.edges[i]).source) && (
    g.edges[i].target matches TargetView::Node(other) ==> g.ids.contains(other)) by {
        assert(edge_problem(g.ids, g.edges, i) is None);
    }
    assert(edge_problem(g.ids, g.edges, k) == Some(error));
    assert(g.edges[k].source == id || g.edges[k].target == TargetView::Node(id));
}

/// Of the nodes, the first one in identifier order that is not routed well is
/// reported: every node before it has transitions, and no two of them clash.
pub proof fn the_first_badly_routed_node_is_reported(g: GraphView, error: PlanErrorView)
    requires
        rejected(g, error),
        error is MissingTransition || error is AmbiguousTransition,
    ensures
        exists|i: int|
            #![trigger sorted_ids(g)[i]]
            {
                &&& 0 <= i < g.ids.len()
                &&& error is MissingTransition ==> error->MissingTransition_0 == sorted_ids(g)[i]
                    && edges_from(g.edges, sorted_ids(g)[i]).len() == 0
                &&& error is AmbiguousTransition ==> error->AmbiguousTransition_0
                    == sorted_ids(g)[i]
                    && edges_from(g.edges, sorted_ids(g)[i]).len() > 0
                &&& forall|j: int|
                    0 <= j < i ==> edges_from(g.edges, #[trigger] sorted_ids(g)[j]).len() > 0
                        && unambiguous(edges_from(g.edges, sorted_ids(g)[j]))
            },
{
    assert(declared_well(g)) by {
        if !declared_well(g) {
            let k = choose|k: int|
                #![trigger edge_problem(g.ids, g.edges, k)]
                {
                    &&& 0 <= k < g.edges.len()
                    &&& edge_problem(g.ids, g.edges, k) == Some(error)
                    &&& forall|i: int|
                        0 <= i < k ==> #[trigger] edge_problem(g.ids, g.edges, i) is None
                };
            assert(edge_problem(g.ids, g.edges, k) == Some(error));
        }
    }
    assert(!routed_well(g));
    let i = choose|i: int|
        #![trigger sorted_ids(g)[i]]
        {
            &&& 0 <= i < g.ids.len()
            &&& node_rejected(edges_from(g.edges, sorted_ids(g)[i]), sorted_ids(g)[i], error)
            &&& forall|j: int|
                0 <= j < i ==> node_accepted(edges_from(g.edges, #[trigger] sorted_ids(g)[j]))
        };
    assert(node_rejected(edges_from(g.edges, sorted_ids(g)[i]), sorted_ids(g)[i], error));
}

} // verus!
