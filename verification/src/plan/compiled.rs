//! Compilation of a flow graph, and the immutable plan it produces.

use crate::digest::{sha256, sha256_digest};
use crate::json::{
    json_array, json_content, json_contents, json_insert, json_object, json_parse, json_string,
    json_text, json_to_vec, json_unsigned, plain, readable_depth, Json,
};
use crate::plan::error::{DefinitionError, FlowSelectionError, PlanError, PlanErrorView};
use crate::plan::graph::{
    accepted, check_unambiguous, clash, declared_well, edge_problem, edges_from, find_node,
    graph_walk, group_edges, grouped, names, node_accepted, node_rejected, order_nodes,
    ordered_edges, rejected, repeats_at, routed_well, short_ascii_is_pattern, sorted_ids,
    successor_numbers, tables, target_known, targets_known, unambiguous, FlowGraph, GraphView,
    MAX_NODES, MAX_OUTGOING_TRANSITIONS, MAX_TRANSITIONS,
};
use crate::plan::node::{
    EdgeView, FlowNode, FlowTarget, FlowTransition, StepNode, TargetView, TerminalKind,
};
use crate::plan::order::{edge_order, edge_views, sort_by, sort_edges, sort_keeps_items, text_order};
use crate::plan::pattern::{glob, literal_matches_itself, ExitPattern, MAX_PATTERN_BYTES};
use crate::plan::walk::walk;
use crate::text::copy_text;
use crate::tokens::{DefinitionRevision, ExitCode, JobName, NodeId};
use vstd::prelude::*;
use vstd::string::*;

verus! {

/// The manifest format of a compiled flow.
pub const MANIFEST_FORMAT_FLOW: u16 = 2;

/// The restart-relevant identity of a definition.
#[derive(Debug, PartialEq, Eq)]
pub struct DefinitionIdentity {
    /// The job's durable name.
    pub job_name: JobName,
    /// The application-owned revision.
    pub revision: DefinitionRevision,
    /// The canonical manifest format.
    pub manifest_format: u16,
    /// The canonical manifest.
    pub manifest: Vec<u8>,
    /// The SHA-256 digest of the canonical manifest.
    pub manifest_digest: [u8; 32],
}

impl DefinitionIdentity {
    /// The two identities have the same content.
    pub open spec fn same(self, other: DefinitionIdentity) -> bool {
        &&& self.manifest@ == other.manifest@
        &&& self == (DefinitionIdentity { manifest: self.manifest, ..other })
    }
}

impl Clone for DefinitionIdentity {
    fn clone(&self) -> (r: Self)
        ensures
            r.same(*self),
    {
        let manifest: Vec<u8> = self.manifest.clone();
        assert(manifest@ =~= self.manifest@);
        DefinitionIdentity {
            job_name: self.job_name.clone(),
            revision: self.revision.clone(),
            manifest_format: self.manifest_format,
            manifest,
            manifest_digest: self.manifest_digest,
        }
    }
}

/// The manifests of some nodes, in order.
pub open spec fn node_manifests(nodes: Seq<FlowNode>) -> Seq<Json> {
    nodes.map_values(|node: FlowNode| node.manifest())
}

/// The manifests of all transitions, node by node.
pub open spec fn edge_manifests(table: Seq<Seq<EdgeView>>) -> Seq<Json>
    decreases table.len(),
{
    if table.len() == 0 {
        Seq::empty()
    } else {
        edge_manifests(table.drop_last()) + table.last().map_values(
            |edge: EdgeView| edge.manifest(),
        )
    }
}

/// The canonical manifest of a compiled flow.
pub open spec fn flow_manifest(
    job: Seq<char>,
    entry: Seq<char>,
    nodes: Seq<FlowNode>,
    table: Seq<Seq<EdgeView>>,
) -> Json {
    let bounds = Json::Object(
        Map::empty().insert("max_nodes"@, Json::Unsigned(MAX_NODES as u64)).insert(
            "max_outgoing_transitions"@,
            Json::Unsigned(MAX_OUTGOING_TRANSITIONS as u64),
        ).insert("max_pattern_bytes"@, Json::Unsigned(MAX_PATTERN_BYTES as u64)).insert(
            "max_transitions"@,
            Json::Unsigned(MAX_TRANSITIONS as u64),
        ),
    );
    Json::Object(
        Map::empty().insert("bounds"@, bounds).insert("entry"@, Json::Text(entry)).insert(
            "format"@,
            Json::Unsigned(MANIFEST_FORMAT_FLOW as u64),
        ).insert("job"@, Json::Text(job)).insert(
            "nodes"@,
            Json::Array(node_manifests(nodes)),
        ).insert("transitions"@, Json::Array(edge_manifests(table))),
    )
}

/// The target of the first transition whose pattern matches `code`.
pub open spec fn first_target(edges: Seq<EdgeView>, code: Seq<char>) -> Option<TargetView>
    decreases edges.len(),
{
    if edges.len() == 0 {
        None
    } else if glob(edges[0].pattern, code) {
        Some(edges[0].target)
    } else {
        first_target(edges.drop_first(), code)
    }
}

/// The number of transitions of all nodes.
pub open spec fn edge_count(table: Seq<Seq<EdgeView>>) -> nat
    decreases table.len(),
{
    if table.len() == 0 {
        0
    } else {
        edge_count(table.drop_last()) + table.last().len()
    }
}

/// A validated, immutable execution plan.
///
/// A plan owns the exact canonical manifest and fingerprint that identify the
/// definition across restart. A plan lowered from a one-step wrapper retains
/// that wrapper's original manifest bytes instead of emitting new ones, so
/// lowering never changes a persisted identity.
#[derive(Debug, PartialEq, Eq)]
pub struct CompiledExecutionPlan {
    definition: DefinitionIdentity,
    entry: NodeId,
    nodes: Vec<FlowNode>,
    transitions: Vec<Vec<FlowTransition>>,
}

impl Clone for CompiledExecutionPlan {
    fn clone(&self) -> (r: Self)
        ensures
            r.definition_view().same(self.definition_view()),
            r.entry_id() == self.entry_id(),
            r.ids() == self.ids(),
            forall|i: int|
                0 <= i < self.node_seq().len() ==> (#[trigger] r.node_seq()[i]).same(
                    self.node_seq()[i],
                ),
            node_manifests(r.node_seq()) == node_manifests(self.node_seq()),
            r.table() == self.table(),
    {
        proof {
            use_type_invariant(self);
        }
        let nodes: Vec<FlowNode> = self.nodes.clone();
        assert(names(nodes@) =~= names(self.nodes@));
        assert(node_manifests(nodes@) =~= node_manifests(self.nodes@));
        let mut transitions: Vec<Vec<FlowTransition>> = Vec::new();
        let mut i: usize = 0;
        while i < self.transitions.len()
            invariant
                i <= self.transitions@.len(),
                tables(transitions@) == tables(self.transitions@).take(i as int),
            decreases self.transitions.len() - i,
        {
            let edges: Vec<FlowTransition> = self.transitions[i].clone();
            assert(edges@ =~= self.transitions@[i as int]@);
            let ghost before = transitions@;
            transitions.push(edges);
            assert(tables(transitions@) =~= tables(before).push(
                tables(self.transitions@)[i as int],
            ));
            assert(tables(transitions@) =~= tables(self.transitions@).take(i + 1));
            i = i + 1;
        }
        assert(tables(self.transitions@).take(i as int) =~= tables(self.transitions@));
        assert(tables(transitions@).len() == transitions@.len());
        CompiledExecutionPlan {
            definition: self.definition.clone(),
            entry: self.entry.clone(),
            nodes,
            transitions,
        }
    }
}

impl CompiledExecutionPlan {
    #[verifier::type_invariant]
    spec fn well_formed(self) -> bool {
        &&& self.nodes.len() == self.transitions.len()
        &&& self.nodes.len() <= MAX_NODES
        &&& names(self.nodes@).no_duplicates()
        &&& names(self.nodes@).contains(self.entry@)
        &&& edge_count(tables(self.transitions@)) <= usize::MAX
    }

    /// The definition identity.
    pub closed spec fn definition_view(&self) -> DefinitionIdentity {
        self.definition
    }

    /// The entry node.
    pub closed spec fn entry_id(&self) -> Seq<char> {
        self.entry@
    }

    /// The compiled nodes, in order.
    pub closed spec fn node_seq(&self) -> Seq<FlowNode> {
        self.nodes@
    }

    /// The compiled node identifiers, in order.
    pub open spec fn ids(&self) -> Seq<Seq<char>> {
        names(self.node_seq())
    }

    /// For each node, its transitions in evaluation order.
    pub closed spec fn table(&self) -> Seq<Seq<EdgeView>> {
        tables(self.transitions@)
    }

    /// The transitions of the node `id`; none of an unknown node.
    pub open spec fn edges_of(&self, id: Seq<char>) -> Seq<EdgeView> {
        if self.ids().contains(id) {
            self.table()[self.ids().index_of(id)]
        } else {
            Seq::empty()
        }
    }

    /// Lowers one validated wrapper step into an in-memory compatibility plan.
    ///
    /// The plan reuses `definition` unchanged, so its manifest bytes, format,
    /// and fingerprint stay exactly what the wrapper persisted. The synthetic
    /// graph maps the framework's own exit codes onto terminals and adds no
    /// node an application could observe as a new durable decision.
    pub fn compatibility_one_step(definition: DefinitionIdentity, step: StepNode) -> (r: Result<
        Self,
        PlanError,
    >)
        ensures
            r matches Ok(plan) && {
                &&& plan.definition_view() == definition
                &&& plan.entry_id() == step.id@
                &&& plan.node_seq() == seq![FlowNode::Step(Box::new(step))]
                &&& plan.table() == seq![compatibility_edges(step.id@)]
            },
    {
        let entry: NodeId = step.id.clone();
        proof {
            compatibility_edges_unambiguous(step.id@);
            reveal_strlit("COMPLETED");
            reveal_strlit("FAILED");
            reveal_strlit("STOPPED");
            short_ascii_is_pattern("COMPLETED"@);
            short_ascii_is_pattern("FAILED"@);
            short_ascii_is_pattern("STOPPED"@);
        }
        let completed: ExitPattern = match ExitPattern::new("COMPLETED") {
            Ok(pattern) => pattern,
            Err(error) => return Err(error),
        };
        let failed: ExitPattern = match ExitPattern::new("FAILED") {
            Ok(pattern) => pattern,
            Err(error) => return Err(error),
        };
        let stopped: ExitPattern = match ExitPattern::new("STOPPED") {
            Ok(pattern) => pattern,
            Err(error) => return Err(error),
        };
        let mut edges: Vec<FlowTransition> = Vec::new();
        edges.push(
            FlowTransition::new(
                entry.clone(),
                completed,
                FlowTarget::Terminal(TerminalKind::Complete),
            ),
        );
        edges.push(
            FlowTransition::new(entry.clone(), failed, FlowTarget::Terminal(TerminalKind::Fail)),
        );
        edges.push(
            FlowTransition::new(entry.clone(), stopped, FlowTarget::Terminal(TerminalKind::Stop)),
        );
        assert(edge_views(edges@) =~= compatibility_edges(step.id@));
        match check_unambiguous(&entry, &edges) {
            Ok(_) => {},
            Err(error) => return Err(error),
        }
        let mut nodes: Vec<FlowNode> = Vec::new();
        let mut transitions: Vec<Vec<FlowTransition>> = Vec::new();
        nodes.push(FlowNode::step(step));
        transitions.push(edges);
        proof {
            assert(names(nodes@) =~= seq![entry@]);
            assert(names(nodes@)[0] == entry@);
            assert(tables(transitions@) =~= seq![compatibility_edges(step.id@)]);
            assert(tables(transitions@).drop_last() =~= Seq::empty());
            assert(edge_count(tables(transitions@).drop_last()) == 0);
            assert(nodes@ =~= seq![FlowNode::Step(Box::new(step))]);
        }
        Ok(CompiledExecutionPlan { definition, entry, nodes, transitions })
    }

    /// Borrows the restart-relevant definition identity.
    pub fn definition_identity(&self) -> (r: &DefinitionIdentity)
        ensures
            *r == self.definition_view(),
    {
        &self.definition
    }

    /// Returns the canonical manifest format this plan is identified by.
    pub fn manifest_format(&self) -> (r: u16)
        ensures
            r == self.definition_view().manifest_format,
    {
        self.definition.manifest_format
    }

    /// Returns the SHA-256 definition fingerprint.
    pub fn fingerprint(&self) -> (r: &[u8; 32])
        ensures
            *r == self.definition_view().manifest_digest,
    {
        &self.definition.manifest_digest
    }

    /// Borrows the entry node identifier.
    pub fn entry(&self) -> (r: &NodeId)
        ensures
            r@ == self.entry_id(),
            self.ids().contains(r@),
    {
        proof {
            use_type_invariant(self);
        }
        &self.entry
    }

    /// Returns the compiled node count.
    pub fn node_count(&self) -> (r: usize)
        ensures
            r == self.node_seq().len(),
    {
        self.nodes.len()
    }

    /// Returns the compiled transition count.
    pub fn transition_count(&self) -> (r: usize)
        ensures
            r == edge_count(self.table()),
    {
        proof {
            use_type_invariant(self);
        }
        let ghost table = self.table();
        let mut total: usize = 0;
        let mut i: usize = 0;
        assert(table.take(0) =~= Seq::empty());
        while i < self.transitions.len()
            invariant
                i <= self.transitions.len(),
                table == tables(self.transitions@),
                edge_count(table) <= usize::MAX,
                total == edge_count(table.take(i as int)),
            decreases self.transitions.len() - i,
        {
            proof {
                edge_count_monotone(table, i + 1);
                assert(table.take(i + 1).drop_last() =~= table.take(i as int));
                assert(table.take(i + 1).last() == edge_views(self.transitions@[i as int]@));
            }
            total = total + self.transitions[i].len();
            i = i + 1;
        }
        assert(table.take(i as int) =~= table);
        total
    }

    /// Borrows one compiled node.
    pub fn node(&self, id: &NodeId) -> (r: Option<&FlowNode>)
        ensures
            match r {
                Some(node) => self.node_seq().contains(*node) && node.name() == id@,
                None => !self.ids().contains(id@),
            },
    {
        match find_node(&self.nodes, id) {
            Some(i) => Some(&self.nodes[i]),
            None => None,
        }
    }

    /// Borrows the compiled nodes in stable logical-identifier order.
    ///
    /// The order is canonical and independent of builder declaration order. It
    /// is useful when binding executable components to an immutable plan before
    /// launch.
    pub fn nodes(&self) -> (r: &[FlowNode])
        ensures
            r@ == self.node_seq(),
    {
        self.nodes.as_slice()
    }

    /// Borrows one node's transitions in evaluation order.
    ///
    /// The first matching transition wins, so the slice is ordered from the
    /// most specific pattern to the least specific one. An unknown node has
    /// none.
    pub fn transitions(&self, id: &NodeId) -> (r: &[FlowTransition])
        ensures
            edge_views(r@) == self.edges_of(id@),
    {
        proof {
            use_type_invariant(self);
        }
        match find_node(&self.nodes, id) {
            Some(i) => {
                assert(self.ids()[i as int] == id@);
                assert(self.ids().index_of(id@) == i);
                assert(self.table()[i as int] == edge_views(self.transitions@[i as int]@));
                self.transitions[i].as_slice()
            },
            None => {
                let none: &[FlowTransition] = &[];
                assert(edge_views(none@) =~= Seq::empty());
                none
            },
        }
    }

    /// Selects the target one node's exit outcome reaches: that of the first
    /// transition, in evaluation order, whose pattern matches. The plan never
    /// selects an arbitrary default.
    pub fn select_target(&self, id: &NodeId, code: &ExitCode) -> (r: Result<
        &FlowTarget,
        FlowSelectionError,
    >)
        ensures
            match r {
                Ok(target) => self.ids().contains(id@) && first_target(
                    self.edges_of(id@),
                    code@,
                ) == Some(target@),
                Err(FlowSelectionError::UnknownNode { node }) => !self.ids().contains(id@)
                    && node@ == id@,
                Err(FlowSelectionError::UnmappedExitOutcome { node, code: seen }) => {
                    &&& self.ids().contains(id@)
                    &&& first_target(self.edges_of(id@), code@) is None
                    &&& node@ == id@
                    &&& seen@ == code@
                },
            },
    {
        proof {
            use_type_invariant(self);
        }
        let place: usize = match find_node(&self.nodes, id) {
            Some(i) => i,
            None => return Err(FlowSelectionError::UnknownNode { node: id.clone() }),
        };
        assert(self.ids()[place as int] == id@);
        assert(self.ids().index_of(id@) == place);
        let edges: &Vec<FlowTransition> = &self.transitions[place];
        let ghost views = edge_views(edges@);
        assert(self.table()[place as int] == views);
        let mut k: usize = 0;
        assert(views.skip(0) =~= views);
        while k < edges.len()
            invariant
                k <= edges.len(),
                views == edge_views(edges@),
                self.ids().contains(id@),
                views == self.edges_of(id@),
                first_target(views, code@) == first_target(views.skip(k as int), code@),
            decreases edges.len() - k,
        {
            proof {
                assert(views.skip(k as int)[0] == edges@[k as int]@);
                assert(views.skip(k as int).drop_first() =~= views.skip(k + 1));
            }
            if edges[k].pattern.matches(code) {
                return Ok(&edges[k].target);
            }
            k = k + 1;
        }
        assert(views.skip(k as int).len() == 0);
        Err(FlowSelectionError::UnmappedExitOutcome { node: id.clone(), code: code.clone() })
    }
}

proof fn edge_count_monotone(table: Seq<Seq<EdgeView>>, i: int)
    requires
        0 <= i <= table.len(),
    ensures
        edge_count(table.take(i)) <= edge_count(table),
    decreases table.len(),
{
    if i < table.len() {
        edge_count_monotone(table.drop_last(), i);
        assert(table.drop_last().take(i) =~= table.take(i));
    } else {
        assert(table.take(i) =~= table);
    }
}

/// The transitions of a compatibility plan's only node.
pub open spec fn compatibility_edges(id: Seq<char>) -> Seq<EdgeView> {
    seq![
        EdgeView {
            source: id,
            pattern: "COMPLETED"@,
            target: TargetView::Terminal(TerminalKind::Complete),
        },
        EdgeView {
            source: id,
            pattern: "FAILED"@,
            target: TargetView::Terminal(TerminalKind::Fail),
        },
        EdgeView {
            source: id,
            pattern: "STOPPED"@,
            target: TargetView::Terminal(TerminalKind::Stop),
        },
    ]
}

proof fn compatibility_edges_unambiguous(id: Seq<char>)
    ensures
        unambiguous(compatibility_edges(id)),
{
    let edges = compatibility_edges(id);
    reveal_strlit("COMPLETED");
    reveal_strlit("FAILED");
    reveal_strlit("STOPPED");
    assert forall|i: int, j: int| !#[trigger] clash(edges, i, j) by {
        if clash(edges, i, j) {
            let w = choose|w: Seq<char>| #[trigger]
                glob(edges[i].pattern, w) && glob(edges[j].pattern, w);
            literal_matches_itself(edges[i].pattern, w);
            literal_matches_itself(edges[j].pattern, w);
            assert(edges[i].pattern.len() == edges[j].pattern.len());
        }
    }
}

/// Renders the nodes' manifests.
fn node_manifest_values(nodes: &Vec<FlowNode>) -> (r: Vec<serde_json::Value>)
    ensures
        json_contents(r@) == node_manifests(nodes@),
{
    let mut out: Vec<serde_json::Value> = Vec::new();
    let mut i: usize = 0;
    assert(json_contents(out@) =~= node_manifests(nodes@.take(0)));
    while i < nodes.len()
        invariant
            i <= nodes.len(),
            json_contents(out@) == node_manifests(nodes@.take(i as int)),
        decreases nodes.len() - i,
    {
        let ghost before = out@;
        let value: serde_json::Value = nodes[i].manifest_value();
        out.push(value);
        proof {
            assert(json_contents(out@) =~= json_contents(before).push(json_content(value)));
            assert(node_manifests(nodes@.take(i + 1)) =~= node_manifests(
                nodes@.take(i as int),
            ).push(nodes@[i as int].manifest()));
        }
        i = i + 1;
    }
    assert(nodes@.take(i as int) =~= nodes@);
    out
}

/// Renders the transitions' manifests, node by node.
fn edge_manifest_values(table: &Vec<Vec<FlowTransition>>) -> (r: Vec<serde_json::Value>)
    ensures
        json_contents(r@) == edge_manifests(tables(table@)),
{
    let ghost views = tables(table@);
    let mut out: Vec<serde_json::Value> = Vec::new();
    let mut i: usize = 0;
    assert(views.take(0) =~= Seq::empty());
    assert(json_contents(out@) =~= Seq::empty());
    while i < table.len()
        invariant
            i <= table.len(),
            views == tables(table@),
            json_contents(out@) == edge_manifests(views.take(i as int)),
        decreases table.len() - i,
    {
        let edges: &Vec<FlowTransition> = &table[i];
        let ghost row = edge_views(edges@);
        let ghost done = json_contents(out@);
        let mut k: usize = 0;
        assert(done =~= done + row.take(0).map_values(|edge: EdgeView| edge.manifest()));
        while k < edges.len()
            invariant
                k <= edges.len(),
                row == edge_views(edges@),
                json_contents(out@) == done + row.take(k as int).map_values(
                    |edge: EdgeView| edge.manifest(),
                ),
            decreases edges.len() - k,
        {
            let ghost before = out@;
            let value: serde_json::Value = edges[k].manifest_value();
            out.push(value);
            proof {
                assert(json_contents(out@) =~= json_contents(before).push(json_content(value)));
                assert(done + row.take(k + 1).map_values(|edge: EdgeView| edge.manifest()) =~= (
                done + row.take(k as int).map_values(|edge: EdgeView| edge.manifest())).push(
                    row[k as int].manifest(),
                ));
            }
            k = k + 1;
        }
        proof {
            assert(row.take(k as int) =~= row);
            assert(views[i as int] == row);
            assert(views.take(i + 1).drop_last() =~= views.take(i as int));
            assert(views.take(i + 1).last() == row);
        }
        i = i + 1;
    }
    assert(views.take(i as int) =~= views);
    out
}

/// Builds the canonical manifest of a compiled flow.
fn flow_manifest_value(
    job_name: &JobName,
    entry: &NodeId,
    nodes: &Vec<FlowNode>,
    table: &Vec<Vec<FlowTransition>>,
) -> (r: serde_json::Value)
    ensures
        json_content(r) == flow_manifest(job_name@, entry@, nodes@, tables(table@)),
{
    let mut bounds: serde_json::Value = json_object();
    json_insert(&mut bounds, "max_nodes", json_unsigned(MAX_NODES as u64));
    json_insert(
        &mut bounds,
        "max_outgoing_transitions",
        json_unsigned(MAX_OUTGOING_TRANSITIONS as u64),
    );
    json_insert(&mut bounds, "max_pattern_bytes", json_unsigned(MAX_PATTERN_BYTES as u64));
    json_insert(&mut bounds, "max_transitions", json_unsigned(MAX_TRANSITIONS as u64));
    let mut members: serde_json::Value = json_object();
    json_insert(&mut members, "bounds", bounds);
    json_insert(&mut members, "entry", json_string(entry.as_str()));
    json_insert(&mut members, "format", json_unsigned(MANIFEST_FORMAT_FLOW as u64));
    json_insert(&mut members, "job", json_string(job_name.as_str()));
    json_insert(&mut members, "nodes", json_array(node_manifest_values(nodes)));
    json_insert(&mut members, "transitions", json_array(edge_manifest_values(table)));
    members
}

impl DefinitionIdentity {
    /// Identifies a flow definition by its canonical manifest.
    fn from_flow_manifest(
        job_name: &JobName,
        revision: DefinitionRevision,
        manifest: &serde_json::Value,
    ) -> (r: Result<Self, DefinitionError>)
        ensures
            r matches Ok(identity) && {
                &&& identity.job_name@ == job_name@
                &&& identity.revision == revision
                &&& identity.manifest_format == MANIFEST_FORMAT_FLOW
                &&& identity.manifest@ == json_text(json_content(*manifest))
                &&& plain(json_content(*manifest), readable_depth()) ==> json_parse(
                    identity.manifest@,
                ) == Some(json_content(*manifest))
                &&& identity.manifest_digest@ == sha256(identity.manifest@)
            },
    {
        match json_to_vec(manifest) {
            Ok(bytes) => {
                let manifest_digest: [u8; 32] = sha256_digest(bytes.as_slice());
                Ok(
                    DefinitionIdentity {
                        job_name: job_name.clone(),
                        revision,
                        manifest_format: MANIFEST_FORMAT_FLOW,
                        manifest: bytes,
                        manifest_digest,
                    },
                )
            },
            Err(_) => Err(DefinitionError { message: copy_text("manifest is not encodable") }),
        }
    }
}

pub(crate) proof fn edges_from_are_edges(edges: Seq<EdgeView>, id: Seq<char>)
    ensures
        edges_from(edges, id).len() <= edges.len(),
        forall|k: int|
            0 <= k < edges_from(edges, id).len() ==> edges.contains(
                #[trigger] edges_from(edges, id)[k],
            ) && edges_from(edges, id)[k].source == id,
    decreases edges.len(),
{
    if edges.len() > 0 {
        let shorter = edges.drop_last();
        edges_from_are_edges(shorter, id);
        let out = edges_from(edges, id);
        assert forall|k: int| 0 <= k < out.len() implies edges.contains(#[trigger] out[k])
            && out[k].source == id by {
            let rest = edges_from(shorter, id);
            if k < rest.len() {
                assert(out[k] == rest[k]);
                let m = choose|m: int| 0 <= m < shorter.len() && shorter[m] == rest[k];
                assert(edges[m] == out[k]);
            } else {
                assert(out[k] == edges[edges.len() - 1]);
            }
        }
    }
}

proof fn same_items_same_problem(
    a: Seq<Seq<char>>,
    b: Seq<Seq<char>>,
    edges: Seq<EdgeView>,
    k: int,
)
    requires
        forall|x: Seq<char>| #[trigger] a.contains(x) <==> b.contains(x),
    ensures
        edge_problem(a, edges, k) == edge_problem(b, edges, k),
{
}

/// Every target of a declared graph's transitions is declared.
pub(crate) proof fn declared_targets_known(g: GraphView)
    requires
        declared_well(g),
    ensures
        sorted_ids(g).no_duplicates(),
        sorted_ids(g).len() == g.ids.len(),
        forall|x: Seq<char>| #[trigger] sorted_ids(g).contains(x) <==> g.ids.contains(x),
        forall|i: int|
            0 <= i < g.ids.len() ==> targets_known(sorted_ids(g), #[trigger] ordered_edges(g)[i]),
{
    sort_keeps_items(g.ids, text_order());
    crate::plan::order::text_order_orders(g.ids);
    crate::plan::order::sort_orders(g.ids, text_order());
    let ids = sorted_ids(g);
    assert forall|i: int, j: int| 0 <= i < ids.len() && 0 <= j < ids.len() && i != j implies ids[i]
        != ids[j] by {
        crate::text::text_less_strict_total(ids[i], ids[j]);
        if i < j {
            assert(text_order()(ids[i], ids[j]));
        } else {
            assert(text_order()(ids[j], ids[i]));
        }
    }
    assert forall|i: int| 0 <= i < g.ids.len() implies targets_known(
        ids,
        #[trigger] ordered_edges(g)[i],
    ) by {
        let declared = edges_from(g.edges, ids[i]);
        let row = ordered_edges(g)[i];
        sort_keeps_items(declared, edge_order());
        edges_from_are_edges(g.edges, ids[i]);
        assert forall|k: int| 0 <= k < row.len() implies target_known(ids, #[trigger] row[k]) by {
            assert(row.contains(row[k]));
            assert(declared.contains(row[k]));
            let m = choose|m: int| 0 <= m < declared.len() && declared[m] == row[k];
            assert(g.edges.contains(declared[m]));
            let e = choose|e: int| 0 <= e < g.edges.len() && g.edges[e] == row[k];
            assert(edge_problem(g.ids, g.edges, e) is None);
        }
    }
}

/// Rows that are as long as other rows, but for one that is longer by one, hold
/// one transition more.
proof fn edge_count_grows(table: Seq<Seq<EdgeView>>, longer: Seq<Seq<EdgeView>>, j: int)
    requires
        table.len() == longer.len(),
        forall|i: int|
            0 <= i < table.len() ==> (#[trigger] longer[i]).len() == table[i].len() + (if i == j {
                1nat
            } else {
                0nat
            }),
    ensures
        edge_count(longer) == edge_count(table) + (if 0 <= j < table.len() {
            1nat
        } else {
            0nat
        }),
    decreases table.len(),
{
    if table.len() > 0 {
        let last = table.len() - 1;
        assert(longer[last].len() == table[last].len() + (if last == j {
            1nat
        } else {
            0nat
        }));
        assert forall|i: int| 0 <= i < last implies (#[trigger] longer.drop_last()[i]).len()
            == table.drop_last()[i].len() + (if i == j {
            1nat
        } else {
            0nat
        }) by {
            assert(longer.drop_last()[i] == longer[i]);
        }
        edge_count_grows(table.drop_last(), longer.drop_last(), j);
    }
}

proof fn edge_count_of_empty_rows(table: Seq<Seq<EdgeView>>)
    requires
        forall|i: int| 0 <= i < table.len() ==> (#[trigger] table[i]).len() == 0,
    ensures
        edge_count(table) == 0,
    decreases table.len(),
{
    if table.len() > 0 {
        assert(table[table.len() - 1].len() == 0);
        edge_count_of_empty_rows(table.drop_last());
    }
}

/// The transitions of each identifier, in declaration order.
spec fn rows_of(edges: Seq<EdgeView>, ids: Seq<Seq<char>>) -> Seq<Seq<EdgeView>> {
    Seq::new(ids.len(), |i: int| edges_from(edges, ids[i]))
}

proof fn rows_hold_every_edge(edges: Seq<EdgeView>, ids: Seq<Seq<char>>)
    requires
        ids.no_duplicates(),
        forall|k: int| 0 <= k < edges.len() ==> ids.contains((#[trigger] edges[k]).source),
    ensures
        edge_count(rows_of(edges, ids)) == edges.len(),
    decreases edges.len(),
{
    let rows = rows_of(edges, ids);
    if edges.len() == 0 {
        edge_count_of_empty_rows(rows);
    } else {
        let shorter = edges.drop_last();
        assert forall|k: int| 0 <= k < shorter.len() implies ids.contains(
            (#[trigger] shorter[k]).source,
        ) by {
            assert(shorter[k] == edges[k]);
        }
        rows_hold_every_edge(shorter, ids);
        assert(ids.contains(edges[edges.len() - 1].source));
        edge_count_grows(rows_of(shorter, ids), rows, ids.index_of(edges.last().source));
    }
}

/// A plan that is compiled from a well declared graph holds every declared
/// transition, and no other.
pub proof fn every_transition_is_compiled(g: GraphView)
    requires
        declared_well(g),
    ensures
        edge_count(ordered_edges(g)) == g.edges.len(),
{
    declared_targets_known(g);
    let ids = sorted_ids(g);
    assert forall|k: int| 0 <= k < g.edges.len() implies ids.contains(
        (#[trigger] g.edges[k]).source,
    ) by {
        assert(edge_problem(g.ids, g.edges, k) is None);
    }
    rows_hold_every_edge(g.edges, ids);
    assert forall|i: int| 0 <= i < ids.len() implies (#[trigger] ordered_edges(g)[i]).len()
        == rows_of(g.edges, ids)[i].len() by {
        sort_keeps_items(edges_from(g.edges, ids[i]), edge_order());
    }
    edge_count_grows(rows_of(g.edges, ids), ordered_edges(g), -1);
}

impl FlowGraph {
    /// Validates and normalizes the graph into an immutable plan.
    ///
    /// A missing entry node, a duplicate identifier, an undefined source or
    /// target, a node without outgoing transitions, two equally specific
    /// patterns that can match one value, an unreachable node, a cycle and an
    /// exceeded bound are rejected.
    pub fn compile(self, job_name: &JobName, revision: DefinitionRevision) -> (r: Result<
        CompiledExecutionPlan,
        PlanError,
    >)
        ensures
            match r {
                Ok(plan) => {
                    &&& accepted(self@)
                    &&& plan.entry_id() == self.entry->0@
                    &&& plan.ids() == sorted_ids(self@)
                    &&& plan.table() == ordered_edges(self@)
                    &&& edge_count(plan.table()) == self.transitions@.len()
                    &&& plan.node_seq().to_multiset() == self.nodes@.to_multiset()
                    &&& plan.definition_view().job_name@ == job_name@
                    &&& plan.definition_view().revision == revision
                    &&& plan.definition_view().manifest_format == MANIFEST_FORMAT_FLOW
                    &&& plan.definition_view().manifest@ == json_text(
                        flow_manifest(
                            job_name@,
                            plan.entry_id(),
                            plan.node_seq(),
                            plan.table(),
                        ),
                    )
                    &&& plain(
                        flow_manifest(job_name@, plan.entry_id(), plan.node_seq(), plan.table()),
                        readable_depth(),
                    ) ==> json_parse(plan.definition_view().manifest@) == Some(
                        flow_manifest(job_name@, plan.entry_id(), plan.node_seq(), plan.table()),
                    )
                    &&& plan.definition_view().manifest_digest@ == sha256(
                        plan.definition_view().manifest@,
                    )
                },
                Err(error) => rejected(self@, error@),
            },
    {
        let ghost g = self@;
        let FlowGraph { entry: declared_entry, nodes: declared_nodes, transitions } = self;
        let entry: NodeId = match declared_entry {
            Some(id) => id,
            None => return Err(PlanError::MissingEntryNode),
        };
        if declared_nodes.len() > MAX_NODES {
            return Err(PlanError::TooManyNodes { max: MAX_NODES });
        }
        if transitions.len() > MAX_TRANSITIONS {
            return Err(PlanError::TooManyTransitions { max: MAX_TRANSITIONS });
        }
        let nodes: Vec<FlowNode> = match order_nodes(declared_nodes) {
            Ok(nodes) => nodes,
            Err(node) => {
                proof {
                    let j = choose|j: int|
                        #![trigger g.ids[j]]
                        0 <= j < g.ids.len() && repeats_at(g.ids, j) && (forall|i: int|
                            0 <= i < j ==> !#[trigger] repeats_at(g.ids, i)) && g.ids[j] == node@;
                    let i = choose|i: int| 0 <= i < j && #[trigger] g.ids[i] == g.ids[j];
                    assert(g.ids[i] == g.ids[j] && i != j);
                    assert(!g.ids.no_duplicates());
                }
                return Err(PlanError::DuplicateNodeId { node });
            },
        };
        proof {
            sort_keeps_items(g.ids, text_order());
            crate::plan::order::text_order_orders(g.ids);
            crate::plan::order::sort_orders(g.ids, text_order());
            let ids = sorted_ids(g);
            assert forall|i: int, j: int|
                0 <= i < ids.len() && 0 <= j < ids.len() && i != j implies ids[i] != ids[j] by {
                crate::text::text_less_strict_total(ids[i], ids[j]);
                if i < j {
                    assert(text_order()(ids[i], ids[j]));
                } else {
                    assert(text_order()(ids[j], ids[i]));
                }
            }
        }
        let entry_place: usize = match find_node(&nodes, &entry) {
            Some(i) => i,
            None => return Err(PlanError::UndefinedNode { node: entry.clone() }),
        };
        proof {
            assert(sorted_ids(g)[entry_place as int] == entry@);
            assert(sorted_ids(g).contains(entry@));
            assert(g.ids.contains(entry@));
            assert(sorted_ids(g).index_of(entry@) == entry_place);
            assert forall|k: int| #[trigger]
                edge_problem(sorted_ids(g), g.edges, k) == edge_problem(g.ids, g.edges, k) by {
                same_items_same_problem(sorted_ids(g), g.ids, g.edges, k);
            }
        }
        let groups: Vec<Vec<FlowTransition>> = match group_edges(&nodes, transitions) {
            Ok(groups) => groups,
            Err(error) => {
                proof {
                    let k = choose|k: int|
                        #![trigger edge_problem(sorted_ids(g), g.edges, k)]
                        0 <= k < g.edges.len() && edge_problem(sorted_ids(g), g.edges, k) == Some(
                            error@,
                        ) && (forall|i: int|
                            0 <= i < k ==> #[trigger] edge_problem(
                                sorted_ids(g),
                                g.edges,
                                i,
                            ) is None);
                    assert(edge_problem(g.ids, g.edges, k) == Some(error@));
                    assert forall|i: int| 0 <= i < k implies #[trigger] edge_problem(
                        g.ids,
                        g.edges,
                        i,
                    ) is None by {
                        assert(edge_problem(sorted_ids(g), g.edges, i) is None);
                    }
                    assert(!declared_well(g));
                }
                return Err(error);
            },
        };
        proof {
            assert forall|k: int| 0 <= k < g.edges.len() implies #[trigger] edge_problem(
                g.ids,
                g.edges,
                k,
            ) is None by {
                assert(edge_problem(sorted_ids(g), g.edges, k) is None);
            }
            assert(declared_well(g));
            declared_targets_known(g);
        }
        match check_groups(&nodes, &groups, Ghost(g)) {
            Ok(_) => {},
            Err(error) => return Err(error),
        }
        let table: Vec<Vec<FlowTransition>> = order_groups(groups);
        proof {
            assert(tables(table@) =~= ordered_edges(g)) by {
                assert forall|i: int| 0 <= i < g.ids.len() implies tables(table@)[i]
                    == ordered_edges(g)[i] by {
                    assert(tables(table@)[i] == sort_by(tables(groups@)[i], edge_order()));
                    assert(tables(groups@)[i] == edge_views(groups@[i]@));
                }
            }
            assert forall|i: int| 0 <= i < table@.len() implies targets_known(
                names(nodes@),
                edge_views((#[trigger] table@[i])@),
            ) by {
                assert(tables(table@)[i] == edge_views(table@[i]@));
                assert(targets_known(sorted_ids(g), ordered_edges(g)[i]));
            }
        }
        let succ: Vec<Vec<usize>> = successor_numbers(&nodes, &table);
        let seen: Vec<bool> = match walk(&succ, entry_place) {
            Ok(seen) => seen,
            Err(met) => return Err(PlanError::CyclicGraph { node: nodes[met].id().clone() }),
        };
        let mut i: usize = 0;
        while i < nodes.len()
            invariant
                i <= nodes.len(),
                nodes.len() == g.ids.len(),
                seen.len() == nodes.len(),
                names(nodes@) == sorted_ids(g),
                g.entry is Some,
                declared_well(g),
                routed_well(g),
                graph_walk(g) == Ok::<Seq<bool>, int>(seen@),
                g == self@,
                forall|k: int| 0 <= k < i ==> #[trigger] seen@[k],
            decreases nodes.len() - i,
        {
            if !seen[i] {
                assert(!(graph_walk(g)->Ok_0)[i as int]);
                assert(sorted_ids(g)[i as int] == nodes@[i as int].name());
                let node: NodeId = nodes[i].id().clone();
                assert(rejected(g, PlanErrorView::UnreachableNode(sorted_ids(g)[i as int])));
                return Err(PlanError::UnreachableNode { node });
            }
            i = i + 1;
        }
        let manifest: serde_json::Value = flow_manifest_value(job_name, &entry, &nodes, &table);
        let definition: DefinitionIdentity = match DefinitionIdentity::from_flow_manifest(
            job_name,
            revision,
            &manifest,
        ) {
            Ok(definition) => definition,
            Err(error) => return Err(PlanError::Manifest(error)),
        };
        proof {
            every_transition_is_compiled(g);
        }
        Ok(CompiledExecutionPlan { definition, entry, nodes, transitions: table })
    }
}

/// Checks the transitions of each node in order.
fn check_groups(
    nodes: &Vec<FlowNode>,
    groups: &Vec<Vec<FlowTransition>>,
    Ghost(g): Ghost<GraphView>,
) -> (r: Result<(), PlanError>)
    requires
        g.entry is Some,
        declared_well(g),
        nodes@.len() == g.ids.len(),
        names(nodes@) == sorted_ids(g),
        grouped(groups@, sorted_ids(g), g.edges),
    ensures
        match r {
            Ok(_) => routed_well(g),
            Err(error) => rejected(g, error@),
        },
{
    let mut i: usize = 0;
    while i < nodes.len()
        invariant
            i <= nodes.len(),
            g.entry is Some,
            declared_well(g),
            nodes@.len() == g.ids.len(),
            names(nodes@) == sorted_ids(g),
            grouped(groups@, sorted_ids(g), g.edges),
            forall|j: int|
                0 <= j < i ==> node_accepted(edges_from(g.edges, #[trigger] sorted_ids(g)[j])),
        decreases nodes.len() - i,
    {
        let ghost out = edges_from(g.edges, sorted_ids(g)[i as int]);
        assert(edge_views(groups@[i as int]@) == out);
        assert(out.len() == groups@[i as int]@.len());
        assert(sorted_ids(g)[i as int] == nodes@[i as int].name());
        if groups[i].len() == 0 {
            assert(node_rejected(
                out,
                sorted_ids(g)[i as int],
                PlanErrorView::MissingTransition(sorted_ids(g)[i as int]),
            ));
            assert(!routed_well(g)) by {
                assert(!node_accepted(out));
            }
            return Err(PlanError::MissingTransition { node: nodes[i].id().clone() });
        }
        match check_unambiguous(nodes[i].id(), &groups[i]) {
            Ok(_) => {},
            Err(error) => {
                assert(node_rejected(out, sorted_ids(g)[i as int], error@));
                assert(!routed_well(g)) by {
                    assert(!node_accepted(out));
                }
                return Err(error);
            },
        }
        i = i + 1;
    }
    Ok(())
}

/// Puts each node's transitions into evaluation order.
fn order_groups(groups: Vec<Vec<FlowTransition>>) -> (r: Vec<Vec<FlowTransition>>)
    ensures
        r@.len() == groups@.len(),
        forall|i: int|
            0 <= i < groups@.len() ==> #[trigger] tables(r@)[i] == sort_by(
                tables(groups@)[i],
                edge_order(),
            ),
{
    let mut rest: Vec<Vec<FlowTransition>> = groups;
    let mut out: Vec<Vec<FlowTransition>> = Vec::new();
    let ghost all = groups@;
    let ghost mut done: int = 0;
    assert(all.skip(0) =~= all);
    while rest.len() > 0
        invariant
            0 <= done <= all.len(),
            all == groups@,
            rest@ == all.skip(done),
            out@.len() == done,
            forall|i: int|
                0 <= i < done ==> #[trigger] tables(out@)[i] == sort_by(
                    tables(all)[i],
                    edge_order(),
                ),
        decreases rest.len(),
    {
        let ghost before = rest@;
        let ghost out0 = out@;
        let edges: Vec<FlowTransition> = rest.remove(0);
        proof {
            assert(before[0] == all[done]);
            assert(rest@ =~= all.skip(done + 1));
            assert(tables(all)[done] == edge_views(edges@));
        }
        let sorted: Vec<FlowTransition> = sort_edges(edges);
        out.push(sorted);
        proof {
            assert forall|i: int| 0 <= i < done + 1 implies #[trigger] tables(out@)[i] == sort_by(
                tables(all)[i],
                edge_order(),
            ) by {
                if i < done {
                    assert(tables(out@)[i] == tables(out0)[i]);
                } else {
                    assert(tables(out@)[i] == edge_views(sorted@));
                }
            }
            done = done + 1;
        }
    }
    assert(done == all.len());
    out
}

} // verus!
