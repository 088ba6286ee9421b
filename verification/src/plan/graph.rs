//! The declared flow graph, and what makes it acceptable.

use crate::plan::error::{PlanError, PlanErrorView};
use crate::plan::node::{EdgeView, FlowNode, FlowTarget, FlowTransition, TargetView, TerminalKind};
use crate::plan::order::{
    edge_order, edge_views, insert_at_place, sort_by, sort_keeps_items, text_order,
};
use crate::plan::pattern::{overlap, specificity_of, ExitPattern, PatternSpecificity};
use crate::plan::walk::{closed_under, numbers, visit_all};
use crate::text::comes_before;
use crate::tokens::NodeId;
use vstd::prelude::*;

verus! {

/// The maximum number of nodes one plan may contain.
pub const MAX_NODES: usize = 1_024;

/// The maximum number of transitions one plan may contain.
pub const MAX_TRANSITIONS: usize = 4_096;

/// The maximum number of transitions leaving one node.
pub const MAX_OUTGOING_TRANSITIONS: usize = 64;

/// An immutable declaration of nodes joined by exit-pattern transitions.
#[derive(Debug, PartialEq, Eq)]
pub struct FlowGraph {
    /// The entry node, if one was declared.
    pub entry: Option<NodeId>,
    /// The declared nodes, in declaration order.
    pub nodes: Vec<FlowNode>,
    /// The declared transitions, in declaration order.
    pub transitions: Vec<FlowTransition>,
}

/// The content of a flow graph that decides how it compiles.
pub struct GraphView {
    pub entry: Option<Seq<char>>,
    pub ids: Seq<Seq<char>>,
    pub edges: Seq<EdgeView>,
}

/// The identifiers of some nodes, in order.
pub open spec fn names(nodes: Seq<FlowNode>) -> Seq<Seq<char>> {
    nodes.map_values(|node: FlowNode| node.name())
}

impl Clone for FlowGraph {
    fn clone(&self) -> (r: Self)
        ensures
            r@ == self@,
            r.nodes@.len() == self.nodes@.len(),
            forall|i: int|
                0 <= i < self.nodes@.len() ==> (#[trigger] r.nodes@[i]).same(self.nodes@[i]),
            r.transitions@ == self.transitions@,
    {
        let nodes: Vec<FlowNode> = self.nodes.clone();
        let transitions: Vec<FlowTransition> = self.transitions.clone();
        assert(names(nodes@) =~= names(self.nodes@));
        assert(transitions@ =~= self.transitions@);
        FlowGraph {
            entry: match &self.entry {
                Some(id) => Some(id.clone()),
                None => None,
            },
            nodes,
            transitions,
        }
    }
}

impl View for FlowGraph {
    type V = GraphView;

    open spec fn view(&self) -> GraphView {
        GraphView {
            entry: match self.entry {
                Some(id) => Some(id@),
                None => None,
            },
            ids: names(self.nodes@),
            edges: edge_views(self.transitions@),
        }
    }
}

/// The transitions that leave the node `id`, in declaration order.
pub open spec fn edges_from(edges: Seq<EdgeView>, id: Seq<char>) -> Seq<EdgeView>
    decreases edges.len(),
{
    if edges.len() == 0 {
        Seq::empty()
    } else {
        let rest = edges_from(edges.drop_last(), id);
        if edges.last().source == id {
            rest.push(edges.last())
        } else {
            rest
        }
    }
}

/// The identifiers of the graph's nodes, in order.
pub open spec fn sorted_ids(g: GraphView) -> Seq<Seq<char>> {
    sort_by(g.ids, text_order())
}

/// For each node in order, its transitions in evaluation order.
pub open spec fn ordered_edges(g: GraphView) -> Seq<Seq<EdgeView>> {
    Seq::new(
        g.ids.len(),
        |i: int| sort_by(edges_from(g.edges, sorted_ids(g)[i]), edge_order()),
    )
}

/// The numbers of the nodes that some transitions lead to, in order.
pub open spec fn node_targets(ids: Seq<Seq<char>>, edges: Seq<EdgeView>) -> Seq<int>
    decreases edges.len(),
{
    if edges.len() == 0 {
        Seq::empty()
    } else {
        let rest = node_targets(ids, edges.drop_last());
        match edges.last().target {
            TargetView::Node(id) => rest.push(ids.index_of(id)),
            TargetView::Terminal(_) => rest,
        }
    }
}

/// For each node, the numbers of the nodes that it leads to.
pub open spec fn successors(ids: Seq<Seq<char>>, table: Seq<Seq<EdgeView>>) -> Seq<Seq<int>> {
    Seq::new(table.len(), |i: int| node_targets(ids, table[i]))
}

/// An earlier node has the identifier of node `j`.
pub open spec fn repeats_at(ids: Seq<Seq<char>>, j: int) -> bool {
    exists|i: int| 0 <= i < j && #[trigger] ids[i] == ids[j]
}

/// What is wrong with transition `k`, if anything is.
pub open spec fn edge_problem(ids: Seq<Seq<char>>, edges: Seq<EdgeView>, k: int) -> Option<
    PlanErrorView,
> {
    let edge = edges[k];
    if !ids.contains(edge.source) {
        Some(PlanErrorView::UndefinedNode(edge.source))
    } else if edge.target matches TargetView::Node(id) && !ids.contains(id) {
        Some(PlanErrorView::UndefinedNode(edge.target->Node_0))
    } else if edges_from(edges.take(k), edge.source).len() >= MAX_OUTGOING_TRANSITIONS {
        Some(
            PlanErrorView::TooManyOutgoingTransitions(
                edge.source,
                MAX_OUTGOING_TRANSITIONS as nat,
            ),
        )
    } else {
        None
    }
}

/// Two transitions are equally specific and can match one value.
pub open spec fn clash(edges: Seq<EdgeView>, i: int, j: int) -> bool {
    &&& 0 <= i < j < edges.len()
    &&& specificity_of(edges[i].pattern) == specificity_of(edges[j].pattern)
    &&& overlap(edges[i].pattern, edges[j].pattern)
}

/// No two transitions clash.
pub open spec fn unambiguous(edges: Seq<EdgeView>) -> bool {
    forall|i: int, j: int| !#[trigger] clash(edges, i, j)
}

/// The first clash, by its first and then its second transition.
pub open spec fn first_clash(edges: Seq<EdgeView>, i: int, j: int) -> bool {
    &&& clash(edges, i, j)
    &&& forall|a: int, b: int| #[trigger] clash(edges, a, b) ==> i < a || (i == a && j <= b)
}

/// The transitions of one node are as they must be.
pub open spec fn node_accepted(edges: Seq<EdgeView>) -> bool {
    edges.len() > 0 && unambiguous(edges)
}

/// The node `id` with the given transitions is rejected for `error`.
pub open spec fn node_rejected(
    edges: Seq<EdgeView>,
    id: Seq<char>,
    error: PlanErrorView,
) -> bool {
    if edges.len() == 0 {
        error == PlanErrorView::MissingTransition(id)
    } else {
        exists|i: int, j: int|
            #![trigger clash(edges, i, j)]
            first_clash(edges, i, j) && error == PlanErrorView::AmbiguousTransition(
                id,
                edges[i].pattern,
                edges[j].pattern,
            )
    }
}

/// The identifiers and bounds of the graph are as they must be.
pub open spec fn declared_well(g: GraphView) -> bool {
    &&& g.entry is Some
    &&& g.ids.len() <= MAX_NODES
    &&& g.edges.len() <= MAX_TRANSITIONS
    &&& g.ids.no_duplicates()
    &&& g.ids.contains(g.entry->0)
    &&& forall|k: int| 0 <= k < g.edges.len() ==> #[trigger] edge_problem(g.ids, g.edges, k) is None
}

/// Every node has transitions, none of which clash.
pub open spec fn routed_well(g: GraphView) -> bool {
    forall|i: int|
        0 <= i < g.ids.len() ==> node_accepted(edges_from(g.edges, #[trigger] sorted_ids(g)[i]))
}

/// The walk over the compiled graph.
pub open spec fn graph_walk(g: GraphView) -> Result<Seq<bool>, int> {
    visit_all(
        successors(sorted_ids(g), ordered_edges(g)),
        sorted_ids(g).index_of(g.entry->0),
    )
}

/// The graph compiles.
pub open spec fn accepted(g: GraphView) -> bool {
    &&& declared_well(g)
    &&& routed_well(g)
    &&& graph_walk(g) matches Ok(seen) && forall|i: int| 0 <= i < g.ids.len() ==> #[trigger] seen[i]
}

/// The graph is rejected, and `error` is what is reported.
pub open spec fn rejected(g: GraphView, error: PlanErrorView) -> bool {
    if g.entry is None {
        error == PlanErrorView::MissingEntryNode
    } else if g.ids.len() > MAX_NODES {
        error == PlanErrorView::TooManyNodes(MAX_NODES as nat)
    } else if g.edges.len() > MAX_TRANSITIONS {
        error == PlanErrorView::TooManyTransitions(MAX_TRANSITIONS as nat)
    } else if !g.ids.no_duplicates() {
        exists|j: int|
            #![trigger g.ids[j]]
            {
                &&& 0 <= j < g.ids.len()
                &&& repeats_at(g.ids, j)
                &&& forall|i: int| 0 <= i < j ==> !#[trigger] repeats_at(g.ids, i)
                &&& error == PlanErrorView::DuplicateNodeId(g.ids[j])
            }
    } else if !g.ids.contains(g.entry->0) {
        error == PlanErrorView::UndefinedNode(g.entry->0)
    } else if !declared_well(g) {
        exists|k: int|
            #![trigger edge_problem(g.ids, g.edges, k)]
            {
                &&& 0 <= k < g.edges.len()
                &&& edge_problem(g.ids, g.edges, k) == Some(error)
                &&& forall|i: int|
                    0 <= i < k ==> #[trigger] edge_problem(g.ids, g.edges, i) is None
            }
    } else if !routed_well(g) {
        exists|i: int|
            #![trigger sorted_ids(g)[i]]
            {
                &&& 0 <= i < g.ids.len()
                &&& node_rejected(edges_from(g.edges, sorted_ids(g)[i]), sorted_ids(g)[i], error)
                &&& forall|j: int|
                    0 <= j < i ==> node_accepted(edges_from(g.edges, #[trigger] sorted_ids(g)[j]))
            }
    } else {
        match graph_walk(g) {
            Err(met) => error == PlanErrorView::CyclicGraph(sorted_ids(g)[met]),
            Ok(seen) => exists|i: int|
                #![trigger seen[i]]
                {
                    &&& 0 <= i < g.ids.len()
                    &&& !seen[i]
                    &&& forall|j: int| 0 <= j < i ==> #[trigger] seen[j]
                    &&& error == PlanErrorView::UnreachableNode(sorted_ids(g)[i])
                },
        }
    }
}

impl FlowGraph {
    /// Starts a graph at its entry node.
    pub fn new(entry: NodeId) -> (r: Self)
        ensures
            r.entry == Some(entry),
            r.nodes@.len() == 0,
            r.transitions@.len() == 0,
    {
        FlowGraph { entry: Some(entry), nodes: Vec::new(), transitions: Vec::new() }
    }

    /// Declares one node.
    pub fn with_node(self, node: FlowNode) -> (r: Self)
        ensures
            r.entry == self.entry,
            r.nodes@ == self.nodes@.push(node),
            r.transitions == self.transitions,
    {
        let mut graph: FlowGraph = self;
        graph.nodes.push(node);
        graph
    }

    /// Declares one explicit transition.
    pub fn with_transition(self, transition: FlowTransition) -> (r: Self)
        ensures
            r.entry == self.entry,
            r.nodes == self.nodes,
            r.transitions@ == self.transitions@.push(transition),
    {
        let mut graph: FlowGraph = self;
        graph.transitions.push(transition);
        graph
    }

    /// Declares the convenience sequential edge.
    ///
    /// A sequential edge compiles to an exact `FAILED` transition leading to
    /// [`TerminalKind::Fail`] and a less specific `*` transition leading to
    /// `next`. Custom successful exit codes therefore continue, while a failed
    /// step ends the job.
    pub fn with_sequence(self, source: NodeId, next: FlowTarget) -> (r: Result<Self, PlanError>)
        ensures
            r matches Ok(graph) && {
                &&& graph.entry == self.entry
                &&& graph.nodes == self.nodes
                &&& edge_views(graph.transitions@) == edge_views(self.transitions@).push(
                    EdgeView {
                        source: source@,
                        pattern: "FAILED"@,
                        target: TargetView::Terminal(TerminalKind::Fail),
                    },
                ).push(EdgeView { source: source@, pattern: "*"@, target: next@ })
            },
    {
        proof {
            reveal_strlit("FAILED");
            reveal_strlit("*");
            crate::plan::graph::short_ascii_is_pattern("FAILED"@);
            crate::plan::graph::short_ascii_is_pattern("*"@);
        }
        let failed: ExitPattern = match ExitPattern::new("FAILED") {
            Ok(pattern) => pattern,
            Err(error) => return Err(error),
        };
        let any: ExitPattern = match ExitPattern::new("*") {
            Ok(pattern) => pattern,
            Err(error) => return Err(error),
        };
        let graph: FlowGraph = self.with_transition(
            FlowTransition::new(source.clone(), failed, FlowTarget::Terminal(TerminalKind::Fail)),
        ).with_transition(FlowTransition::new(source, any, next));
        proof {
            let a = graph.transitions@[self.transitions@.len() as int];
            let b = graph.transitions@[self.transitions@.len() as int + 1];
            assert(edge_views(graph.transitions@) =~= edge_views(self.transitions@).push(a@).push(
                b@,
            ));
        }
        Ok(graph)
    }
}

impl Default for FlowGraph {
    fn default() -> (r: Self)
        ensures
            r.entry is None,
            r.nodes@.len() == 0,
            r.transitions@.len() == 0,
    {
        FlowGraph { entry: None, nodes: Vec::new(), transitions: Vec::new() }
    }
}

/// A short text of visible ASCII characters is a valid pattern.
pub(crate) proof fn short_ascii_is_pattern(text: Seq<char>)
    requires
        0 < text.len() <= 64,
        forall|i: int| 0 <= i < text.len() ==> '!' <= #[trigger] text[i] <= '~',
    ensures
        crate::plan::pattern::valid_pattern(text),
{
    assert(vstd::utf8::is_ascii_chars(text));
    vstd::utf8::is_ascii_chars_encode_utf8(text);
    assert(!crate::text::has_control(text));
    assert('!' <= text[0] <= '~');
    assert('!' <= text[text.len() - 1] <= '~');
}

/// Finds a node by its identifier.
pub(crate) fn find_node(nodes: &Vec<FlowNode>, id: &NodeId) -> (r: Option<usize>)
    ensures
        match r {
            Some(i) => i < nodes.len() && names(nodes@)[i as int] == id@,
            None => !names(nodes@).contains(id@),
        },
{
    let mut i: usize = 0;
    while i < nodes.len()
        invariant
            i <= nodes.len(),
            forall|k: int| 0 <= k < i ==> #[trigger] names(nodes@)[k] != id@,
        decreases nodes.len() - i,
    {
        if nodes[i].id().same(id) {
            return Some(i);
        }
        i = i + 1;
    }
    None
}

/// Adds a node at its place in identifier order.
fn insert_node(nodes: &mut Vec<FlowNode>, node: FlowNode)
    ensures
        names(final(nodes)@) == crate::plan::order::insert_by(
            names(old(nodes)@),
            node.name(),
            text_order(),
        ),
        final(nodes)@.to_multiset() == old(nodes)@.to_multiset().insert(node),
{
    let mut place: usize = nodes.len();
    let ghost ids = names(nodes@);
    while place > 0 && comes_before(node.id().as_str(), nodes[place - 1].id().as_str())
        invariant
            place <= nodes.len(),
            ids == names(nodes@),
            forall|k: int|
                place <= k < ids.len() ==> text_order()(node.name(), #[trigger] ids[k]),
        decreases place,
    {
        assert(ids[place - 1] == nodes@[place - 1].name());
        place = place - 1;
    }
    proof {
        broadcast use vstd::seq_lib::group_to_multiset_ensures;

        if place > 0 {
            assert(ids[place - 1] == nodes@[place - 1].name());
        }
        insert_at_place(ids, node.name(), text_order(), place as int);
        assert(names(nodes@.insert(place as int, node)) =~= ids.insert(
            place as int,
            node.name(),
        ));
        assert(nodes@.insert(place as int, node).to_multiset() =~= nodes@.to_multiset().insert(
            node,
        ));
    }
    nodes.insert(place, node);
}

/// Puts the nodes in identifier order; the first repeated identifier otherwise.
pub(crate) fn order_nodes(nodes: Vec<FlowNode>) -> (r: Result<Vec<FlowNode>, NodeId>)
    ensures
        match r {
            Ok(sorted) => {
                &&& names(nodes@).no_duplicates()
                &&& names(sorted@) == sort_by(names(nodes@), text_order())
                &&& sorted@.to_multiset() == nodes@.to_multiset()
            },
            Err(id) => exists|j: int|
                #![trigger names(nodes@)[j]]
                {
                    &&& 0 <= j < nodes@.len()
                    &&& repeats_at(names(nodes@), j)
                    &&& forall|i: int| 0 <= i < j ==> !#[trigger] repeats_at(names(nodes@), i)
                    &&& names(nodes@)[j] == id@
                },
        },
{
    let mut rest: Vec<FlowNode> = nodes;
    let mut sorted: Vec<FlowNode> = Vec::new();
    let ghost all = nodes@;
    let ghost ids = names(nodes@);
    let ghost mut done: int = 0;
    proof {
        broadcast use vstd::seq_lib::group_to_multiset_ensures;

        assert(all.skip(0) =~= all);
        assert(ids.take(0) =~= Seq::empty());
        assert(names(sorted@) =~= Seq::empty());
        assert(all.take(0) =~= Seq::empty());
        assert(sorted@ =~= Seq::empty());
    }
    while rest.len() > 0
        invariant
            0 <= done <= all.len(),
            all == nodes@,
            ids == names(all),
            rest@ == all.skip(done),
            names(sorted@) == sort_by(ids.take(done), text_order()),
            sorted@.to_multiset() == all.take(done).to_multiset(),
            forall|i: int| 0 <= i < done ==> !#[trigger] repeats_at(ids, i),
        decreases rest.len(),
    {
        let ghost before = rest@;
        let node: FlowNode = rest.remove(0);
        proof {
            broadcast use vstd::seq_lib::group_to_multiset_ensures;

            assert(before[0] == all[done]);
            assert(rest@ =~= all.skip(done + 1));
            assert(ids.take(done + 1).drop_last() =~= ids.take(done));
            assert(ids.take(done + 1).last() == node.name());
            assert(all.take(done + 1) =~= all.take(done).push(node));
            sort_keeps_items(ids.take(done), text_order());
        }
        if find_node(&sorted, node.id()).is_some() {
            proof {
                assert(names(sorted@).contains(ids[done]));
                assert(ids.take(done).contains(ids[done]));
                let i = choose|i: int|
                    0 <= i < ids.take(done).len() && ids.take(done)[i] == ids[done];
                assert(ids[i] == ids[done]);
                assert(repeats_at(ids, done));
            }
            return Err(node.id().clone());
        }
        proof {
            if repeats_at(ids, done) {
                let i = choose|i: int| 0 <= i < done && #[trigger] ids[i] == ids[done];
                assert(ids.take(done)[i] == ids[done]);
                assert(names(sorted@).contains(ids[done]));
            }
        }
        insert_node(&mut sorted, node);
        proof {
            done = done + 1;
        }
    }
    proof {
        assert(done == all.len());
        assert(ids.take(done) =~= ids);
        assert(all.take(done) =~= all);
        assert forall|i: int, j: int| 0 <= i < ids.len() && 0 <= j < ids.len() && i != j implies
            ids[i] != ids[j] by {
            if ids[i] == ids[j] {
                if i < j {
                    assert(repeats_at(ids, j));
                } else {
                    assert(ids[j] == ids[i]);
                    assert(repeats_at(ids, i));
                }
            }
        }
    }
    Ok(sorted)
}

/// The transitions of each node, grouped.
pub open spec fn grouped(
    groups: Seq<Vec<FlowTransition>>,
    ids: Seq<Seq<char>>,
    edges: Seq<EdgeView>,
) -> bool {
    &&& groups.len() == ids.len()
    &&& forall|i: int|
        0 <= i < ids.len() ==> edge_views((#[trigger] groups[i])@) == edges_from(edges, ids[i])
}

/// Groups the transitions by their source; the first faulty one otherwise.
pub(crate) fn group_edges(nodes: &Vec<FlowNode>, transitions: Vec<FlowTransition>) -> (r: Result<
    Vec<Vec<FlowTransition>>,
    PlanError,
>)
    requires
        names(nodes@).no_duplicates(),
    ensures
        match r {
            Ok(groups) => {
                &&& grouped(groups@, names(nodes@), edge_views(transitions@))
                &&& forall|k: int|
                    0 <= k < transitions@.len() ==> #[trigger] edge_problem(
                        names(nodes@),
                        edge_views(transitions@),
                        k,
                    ) is None
            },
            Err(error) => exists|k: int|
                #![trigger edge_problem(names(nodes@), edge_views(transitions@), k)]
                {
                    &&& 0 <= k < transitions@.len()
                    &&& edge_problem(names(nodes@), edge_views(transitions@), k) == Some(error@)
                    &&& forall|i: int|
                        0 <= i < k ==> #[trigger] edge_problem(
                            names(nodes@),
                            edge_views(transitions@),
                            i,
                        ) is None
                },
        },
{
    let mut groups: Vec<Vec<FlowTransition>> = Vec::new();
    let ghost ids = names(nodes@);
    let ghost all = transitions@;
    let ghost views = edge_views(transitions@);
    proof {
        assert(views.take(0) =~= Seq::empty());
    }
    while groups.len() < nodes.len()
        invariant
            groups.len() <= nodes.len(),
            views.take(0) == Seq::<EdgeView>::empty(),
            ids == names(nodes@),
            forall|i: int| 0 <= i < groups.len() ==> (#[trigger] groups@[i])@.len() == 0,
        decreases nodes.len() - groups.len(),
    {
        groups.push(Vec::new());
    }
    let mut rest: Vec<FlowTransition> = transitions;
    let ghost mut done: int = 0;
    proof {
        assert(all.skip(0) =~= all);
        assert(grouped(groups@, ids, views.take(0))) by {
            assert forall|i: int| 0 <= i < ids.len() implies edge_views((#[trigger] groups@[i])@)
                == edges_from(views.take(0), ids[i]) by {
                assert(edge_views(groups@[i]@) =~= Seq::empty());
            }
        }
    }
    while rest.len() > 0
        invariant
            0 <= done <= all.len(),
            ids == names(nodes@),
            ids.no_duplicates(),
            views == edge_views(all),
            all == transitions@,
            rest@ == all.skip(done),
            grouped(groups@, ids, views.take(done)),
            forall|i: int| 0 <= i < done ==> #[trigger] edge_problem(ids, views, i) is None,
        decreases rest.len(),
    {
        let ghost before = rest@;
        let edge: FlowTransition = rest.remove(0);
        proof {
            assert(before[0] == all[done]);
            assert(views[done] == edge@);
            assert(rest@ =~= all.skip(done + 1));
            assert(views.take(done + 1).drop_last() =~= views.take(done));
            assert(views.take(done + 1).last() == edge@);
        }
        let place: usize = match find_node(nodes, &edge.source) {
            Some(i) => i,
            None => {
                assert(edge_problem(ids, views, done) == Some(
                    PlanErrorView::UndefinedNode(edge@.source),
                ));
                return Err(PlanError::UndefinedNode { node: edge.source.clone() });
            },
        };
        assert(ids.contains(edge@.source)) by {
            assert(ids[place as int] == edge@.source);
        }
        match &edge.target {
            FlowTarget::Node(target) => {
                match find_node(nodes, target) {
                    Some(i) => {
                        assert(ids[i as int] == target@);
                    },
                    None => {
                        assert(edge_problem(ids, views, done) == Some(
                            PlanErrorView::UndefinedNode(target@),
                        ));
                        return Err(PlanError::UndefinedNode { node: target.clone() });
                    },
                }
            },
            FlowTarget::Terminal(_) => {},
        }
        let ghost group = groups@[place as int]@;
        proof {
            assert(edge_views(group) == edges_from(views.take(done), ids[place as int]));
            assert(edge_views(group).len() == group.len());
        }
        if groups[place].len() >= MAX_OUTGOING_TRANSITIONS {
            assert(edge_problem(ids, views, done) == Some(
                PlanErrorView::TooManyOutgoingTransitions(
                    edge@.source,
                    MAX_OUTGOING_TRANSITIONS as nat,
                ),
            ));
            return Err(
                PlanError::TooManyOutgoingTransitions {
                    node: edge.source.clone(),
                    max: MAX_OUTGOING_TRANSITIONS,
                },
            );
        }
        let ghost groups0 = groups@;
        groups[place].push(edge);
        proof {
            assert(edge_problem(ids, views, done) is None);
            assert forall|i: int| 0 <= i < ids.len() implies edge_views((#[trigger] groups@[i])@)
                == edges_from(views.take(done + 1), ids[i]) by {
                if i == place {
                    assert(groups@[i]@ == group.push(edge));
                    assert(edge_views(group.push(edge)) =~= edge_views(group).push(edge@));
                } else {
                    assert(groups@[i] == groups0[i]);
                    assert(ids[i] != ids[place as int]);
                }
            }
            done = done + 1;
        }
    }
    proof {
        assert(done == all.len());
        assert(views.take(done) =~= views);
    }
    Ok(groups)
}

/// Rejects the first pair of equally specific patterns that can match one
/// value.
pub(crate) fn check_unambiguous(node: &NodeId, edges: &Vec<FlowTransition>) -> (r: Result<
    (),
    PlanError,
>)
    ensures
        match r {
            Ok(_) => unambiguous(edge_views(edges@)),
            Err(error) => exists|i: int, j: int|
                #![trigger clash(edge_views(edges@), i, j)]
                first_clash(edge_views(edges@), i, j) && error@
                    == PlanErrorView::AmbiguousTransition(
                    node@,
                    edge_views(edges@)[i].pattern,
                    edge_views(edges@)[j].pattern,
                ),
        },
{
    let ghost views = edge_views(edges@);
    let mut i: usize = 0;
    while i < edges.len()
        invariant
            i <= edges.len(),
            views == edge_views(edges@),
            forall|a: int, b: int| a < i ==> !#[trigger] clash(views, a, b),
        decreases edges.len() - i,
    {
        let mut j: usize = i + 1;
        while j < edges.len()
            invariant
                i < j <= edges.len(),
                views == edge_views(edges@),
                forall|a: int, b: int| a < i ==> !#[trigger] clash(views, a, b),
                forall|b: int| i < b < j ==> !#[trigger] clash(views, i as int, b),
            decreases edges.len() - j,
        {
            let left: &ExitPattern = &edges[i].pattern;
            let right: &ExitPattern = &edges[j].pattern;
            assert(views[i as int] == edges@[i as int]@);
            assert(views[j as int] == edges@[j as int]@);
            let sl: PatternSpecificity = left.specificity();
            let sr: PatternSpecificity = right.specificity();
            if sl.same(sr) && left.intersects(right) {
                assert(clash(views, i as int, j as int));
                assert(first_clash(views, i as int, j as int));
                return Err(
                    PlanError::AmbiguousTransition {
                        node: node.clone(),
                        first: left.clone(),
                        second: right.clone(),
                    },
                );
            }
            assert(!clash(views, i as int, j as int));
            j = j + 1;
        }
        assert forall|a: int, b: int| a < i + 1 implies !#[trigger] clash(views, a, b) by {
            if a == i && clash(views, a, b) {
                assert(i < b < edges.len());
            }
        }
        i = i + 1;
    }
    Ok(())
}

/// Every node that some transition leads to is declared.
pub open spec fn targets_known(ids: Seq<Seq<char>>, edges: Seq<EdgeView>) -> bool {
    forall|k: int| 0 <= k < edges.len() ==> target_known(ids, #[trigger] edges[k])
}

/// The node that the transition leads to, if any, is declared.
pub open spec fn target_known(ids: Seq<Seq<char>>, edge: EdgeView) -> bool {
    match edge.target {
        TargetView::Node(id) => ids.contains(id),
        TargetView::Terminal(_) => true,
    }
}

/// The numbers of the nodes that some transitions lead to.
fn target_numbers(nodes: &Vec<FlowNode>, edges: &Vec<FlowTransition>) -> (r: Vec<usize>)
    requires
        names(nodes@).no_duplicates(),
        targets_known(names(nodes@), edge_views(edges@)),
    ensures
        r@.map_values(|t: usize| t as int) == node_targets(names(nodes@), edge_views(edges@)),
        forall|k: int| 0 <= k < r@.len() ==> #[trigger] r@[k] < nodes.len(),
{
    let ghost ids = names(nodes@);
    let ghost views = edge_views(edges@);
    let mut out: Vec<usize> = Vec::new();
    let mut k: usize = 0;
    proof {
        assert(views.take(0) =~= Seq::empty());
        assert(out@.map_values(|t: usize| t as int) =~= Seq::empty());
    }
    while k < edges.len()
        invariant
            k <= edges.len(),
            ids == names(nodes@),
            ids.no_duplicates(),
            views == edge_views(edges@),
            targets_known(ids, views),
            out@.map_values(|t: usize| t as int) == node_targets(ids, views.take(k as int)),
            forall|i: int| 0 <= i < out@.len() ==> #[trigger] out@[i] < nodes.len(),
        decreases edges.len() - k,
    {
        proof {
            assert(views[k as int] == edges@[k as int]@);
            assert(views.take(k + 1).drop_last() =~= views.take(k as int));
            assert(views.take(k + 1).last() == edges@[k as int]@);
        }
        match &edges[k].target {
            FlowTarget::Node(id) => {
                match find_node(nodes, id) {
                    Some(i) => {
                        let ghost before = out@;
                        out.push(i);
                        proof {
                            assert(ids.contains(id@));
                            assert(ids[i as int] == id@);
                            assert(ids.index_of(id@) == i as int);
                            assert(out@.map_values(|t: usize| t as int) =~= before.map_values(
                                |t: usize| t as int,
                            ).push(i as int));
                        }
                    },
                    None => {
                        assert(ids.contains(id@));
                        assert(false);
                    },
                }
            },
            FlowTarget::Terminal(_) => {},
        }
        k = k + 1;
    }
    assert(views.take(k as int) =~= views);
    out
}

/// For each node, the numbers of the nodes that it leads to.
pub(crate) fn successor_numbers(nodes: &Vec<FlowNode>, table: &Vec<Vec<FlowTransition>>) -> (r: Vec<
    Vec<usize>,
>)
    requires
        names(nodes@).no_duplicates(),
        nodes.len() == table.len(),
        forall|i: int|
            0 <= i < table@.len() ==> targets_known(
                names(nodes@),
                edge_views((#[trigger] table@[i])@),
            ),
    ensures
        numbers(r@) == successors(names(nodes@), tables(table@)),
        closed_under(numbers(r@)),
        r.len() == nodes.len(),
{
    let mut out: Vec<Vec<usize>> = Vec::new();
    let ghost ids = names(nodes@);
    let mut i: usize = 0;
    while i < table.len()
        invariant
            i <= table.len(),
            nodes.len() == table.len(),
            out.len() == i,
            ids == names(nodes@),
            ids.no_duplicates(),
            forall|i: int|
                0 <= i < table@.len() ==> targets_known(ids, edge_views((#[trigger] table@[i])@)),
            forall|a: int|
                0 <= a < i ==> (#[trigger] out@[a])@.map_values(|t: usize| t as int)
                    == node_targets(ids, edge_views(table@[a]@)),
            forall|a: int, k: int|
                0 <= a < i && 0 <= k < out@[a]@.len() ==> #[trigger] out@[a]@[k] < nodes.len(),
        decreases table.len() - i,
    {
        out.push(target_numbers(nodes, &table[i]));
        i = i + 1;
    }
    proof {
        assert(numbers(out@) =~= successors(ids, tables(table@))) by {
            assert forall|a: int| 0 <= a < out@.len() implies numbers(out@)[a] == successors(
                ids,
                tables(table@),
            )[a] by {
                assert(numbers(out@)[a] == out@[a]@.map_values(|t: usize| t as int));
            }
        }
        assert forall|a: int, k: int|
            0 <= a < numbers(out@).len() && 0 <= k < numbers(out@)[a].len() implies 0
            <= #[trigger] numbers(out@)[a][k] < numbers(out@).len() by {
            assert(numbers(out@)[a][k] == out@[a]@[k] as int);
        }
    }
    out
}

/// The contents of the transitions of each node.
pub open spec fn tables(table: Seq<Vec<FlowTransition>>) -> Seq<Seq<EdgeView>> {
    table.map_values(|edges: Vec<FlowTransition>| edge_views(edges@))
}

} // verus!
