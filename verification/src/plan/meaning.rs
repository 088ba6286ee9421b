//! What a plan's manifest says of the plan, and what patterns match.

use crate::digest::sha256;
use crate::json::{member, plain, readable_depth, Json};
use crate::plan::compiled::{
    compatibility_edges, edge_manifests, first_target, flow_manifest, node_manifests,
    CompiledExecutionPlan, DefinitionIdentity,
};
use crate::plan::error::{FlowSelectionError, PlanError, PlanErrorView};
use crate::plan::graph::{short_ascii_is_pattern, FlowGraph};
use crate::plan::node::{
    saturated_millis, ChunkSize, DecisionInputVersion, DecisionNode, EdgeView, FaultPolicy,
    FaultRule, FlowNode, FlowTarget, FlowTransition, StartControls, StartLimit, StepComponents,
    StepNode, TargetView, TerminalKind,
};
use crate::plan::order::edge_views;
use crate::plan::pattern::{
    glob, literal_matches_itself, specificity_of, specificity_parts, valid_pattern, wildcard_count,
    ExitPattern, PatternSpecificity,
};
use crate::text::{has_control, has_outer_space};
use crate::tokens::{ComponentRevision, DefinitionRevision, ExitCode, JobName, NodeId, StepName};
use vstd::prelude::*;
use vstd::utf8::encode_utf8;

verus! {

/// The manifest of a destination names it: a node by its identifier, a terminal
/// by its own stable name. So no two destinations have the same manifest.
pub proof fn a_destination_is_named_by_its_manifest(t: TargetView, u: TargetView)
    ensures
        t.manifest() == u.manifest() ==> t == u,
        t matches TargetView::Node(id) ==> t.manifest() == Json::Object(
            map!["node"@ => Json::Text(id)],
        ),
        t == TargetView::Terminal(TerminalKind::Complete) ==> t.manifest() == Json::Object(
            map!["terminal"@ => Json::Text("complete"@)],
        ),
        t == TargetView::Terminal(TerminalKind::Fail) ==> t.manifest() == Json::Object(
            map!["terminal"@ => Json::Text("fail"@)],
        ),
        t == TargetView::Terminal(TerminalKind::Stop) ==> t.manifest() == Json::Object(
            map!["terminal"@ => Json::Text("stop"@)],
        ),
{
    reveal_strlit("node");
    reveal_strlit("terminal");
    reveal_strlit("complete");
    reveal_strlit("fail");
    reveal_strlit("stop");
    assert("node"@ != "terminal"@) by {
        assert("node"@.len() == 4 && "terminal"@.len() == 8);
    }
    assert("complete"@.len() == 8 && "fail"@.len() == 4 && "stop"@.len() == 4);
    assert("fail"@[0] == 'f' && "stop"@[0] == 's');
    let a = member(t.manifest(), "node"@);
    let b = member(u.manifest(), "node"@);
    let c = member(t.manifest(), "terminal"@);
    let d = member(u.manifest(), "terminal"@);
    assert(t is Node <==> a is Some);
    assert(u is Node <==> b is Some);
    if t.manifest() == u.manifest() {
        assert(a == b && c == d);
    }
}

/// The manifest of a transition tells its source, its pattern and its
/// destination, so no two transitions have the same one.
pub proof fn a_transition_is_told_by_its_manifest(a: EdgeView, b: EdgeView)
    ensures
        a.manifest() == b.manifest() ==> a == b,
        member(a.manifest(), "source"@) == Some(Json::Text(a.source)),
        member(a.manifest(), "pattern"@) == Some(Json::Text(a.pattern)),
        member(a.manifest(), "target"@) == Some(a.target.manifest()),
{
    reveal_strlit("source");
    reveal_strlit("pattern");
    reveal_strlit("target");
    assert("source"@.len() == 6 && "pattern"@.len() == 7 && "target"@.len() == 6);
    assert("source"@[0] == 's' && "target"@[0] == 't');
    assert(member(b.manifest(), "source"@) == Some(Json::Text(b.source)));
    assert(member(b.manifest(), "pattern"@) == Some(Json::Text(b.pattern)));
    assert(member(b.manifest(), "target"@) == Some(b.target.manifest()));
    a_destination_is_named_by_its_manifest(a.target, b.target);
}

/// The transitions of all nodes, node by node.
pub open spec fn all_edges(table: Seq<Seq<EdgeView>>) -> Seq<EdgeView>
    decreases table.len(),
{
    if table.len() == 0 {
        Seq::empty()
    } else {
        all_edges(table.drop_last()) + table.last()
    }
}

proof fn edge_manifests_in_order(table: Seq<Seq<EdgeView>>)
    ensures
        edge_manifests(table).len() == all_edges(table).len(),
        forall|i: int|
            0 <= i < all_edges(table).len() ==> #[trigger] edge_manifests(table)[i] == all_edges(
                table,
            )[i].manifest(),
    decreases table.len(),
{
    if table.len() > 0 {
        edge_manifests_in_order(table.drop_last());
    }
}

/// A manifest lists one entry for each transition, in order; so two flows whose
/// transitions differ have different lists.
pub proof fn transitions_are_told_by_their_manifests(
    a: Seq<Seq<EdgeView>>,
    b: Seq<Seq<EdgeView>>,
)
    ensures
        edge_manifests(a) == edge_manifests(b) ==> all_edges(a) == all_edges(b),
        edge_manifests(a).len() == all_edges(a).len(),
        forall|i: int|
            0 <= i < all_edges(a).len() ==> #[trigger] edge_manifests(a)[i] == all_edges(
                a,
            )[i].manifest(),
{
    edge_manifests_in_order(a);
    edge_manifests_in_order(b);
    if edge_manifests(a) == edge_manifests(b) {
        assert forall|i: int| 0 <= i < all_edges(a).len() implies all_edges(a)[i] == all_edges(
            b,
        )[i] by {
            assert(edge_manifests(a)[i] == all_edges(a)[i].manifest());
            assert(edge_manifests(b)[i] == all_edges(b)[i].manifest());
            a_transition_is_told_by_its_manifest(all_edges(a)[i], all_edges(b)[i]);
        }
        assert(all_edges(a) =~= all_edges(b));
    }
}

/// The canonical manifest of a flow tells its job, its entry, its nodes and its
/// transitions, next to the format and the bounds that it was compiled under.
pub proof fn a_flow_is_told_by_its_manifest(
    job: Seq<char>,
    entry: Seq<char>,
    nodes: Seq<FlowNode>,
    table: Seq<Seq<EdgeView>>,
)
    ensures
        ({
            let manifest = flow_manifest(job, entry, nodes, table);
            &&& member(manifest, "job"@) == Some(Json::Text(job))
            &&& member(manifest, "entry"@) == Some(Json::Text(entry))
            &&& member(manifest, "nodes"@) == Some(Json::Array(node_manifests(nodes)))
            &&& member(manifest, "transitions"@) == Some(Json::Array(edge_manifests(table)))
            &&& member(manifest, "format"@) == Some(Json::Unsigned(2))
            &&& member(manifest, "bounds"@) matches Some(bounds) && member(bounds, "max_nodes"@)
                == Some(Json::Unsigned(1024)) && member(bounds, "max_transitions"@) == Some(
                Json::Unsigned(4096),
            ) && member(bounds, "max_outgoing_transitions"@) == Some(Json::Unsigned(64)) && member(
                bounds,
                "max_pattern_bytes"@,
            ) == Some(Json::Unsigned(64))
        }),
{
    reveal_strlit("job");
    reveal_strlit("entry");
    reveal_strlit("nodes");
    reveal_strlit("transitions");
    reveal_strlit("format");
    reveal_strlit("bounds");
    reveal_strlit("max_nodes");
    reveal_strlit("max_transitions");
    reveal_strlit("max_outgoing_transitions");
    reveal_strlit("max_pattern_bytes");
    assert("job"@.len() == 3 && "entry"@.len() == 5 && "nodes"@.len() == 5);
    assert("entry"@[0] == 'e' && "nodes"@[0] == 'n');
    assert("transitions"@.len() == 11 && "format"@.len() == 6 && "bounds"@.len() == 6);
    assert("format"@[0] == 'f' && "bounds"@[0] == 'b');
    assert("max_nodes"@.len() == 9 && "max_transitions"@.len() == 15);
    assert("max_outgoing_transitions"@.len() == 24 && "max_pattern_bytes"@.len() == 17);
}

/// Two flows with the same manifest have the same job, entry and transitions, and
/// nodes with the same manifests.
pub proof fn flows_with_one_manifest_are_alike(
    job_a: Seq<char>,
    entry_a: Seq<char>,
    nodes_a: Seq<FlowNode>,
    table_a: Seq<Seq<EdgeView>>,
    job_b: Seq<char>,
    entry_b: Seq<char>,
    nodes_b: Seq<FlowNode>,
    table_b: Seq<Seq<EdgeView>>,
)
    requires
        flow_manifest(job_a, entry_a, nodes_a, table_a) == flow_manifest(
            job_b,
            entry_b,
            nodes_b,
            table_b,
        ),
    ensures
        job_a == job_b,
        entry_a == entry_b,
        node_manifests(nodes_a) == node_manifests(nodes_b),
        all_edges(table_a) == all_edges(table_b),
{
    a_flow_is_told_by_its_manifest(job_a, entry_a, nodes_a, table_a);
    a_flow_is_told_by_its_manifest(job_b, entry_b, nodes_b, table_b);
    transitions_are_told_by_their_manifests(table_a, table_b);
}

/// Two compiled plans with the same manifest bytes route alike: they have the
/// same entry, and the same transitions in the same order. This holds of all
/// manifests that read back.
pub proof fn plans_with_one_manifest_route_alike(
    graph_a: FlowGraph,
    job_a: &JobName,
    revision_a: DefinitionRevision,
    plan_a: CompiledExecutionPlan,
    graph_b: FlowGraph,
    job_b: &JobName,
    revision_b: DefinitionRevision,
    plan_b: CompiledExecutionPlan,
)
    requires
        call_ensures(FlowGraph::compile, (graph_a, job_a, revision_a), Ok(plan_a)),
        call_ensures(FlowGraph::compile, (graph_b, job_b, revision_b), Ok(plan_b)),
        plain(
            flow_manifest(job_a@, plan_a.entry_id(), plan_a.node_seq(), plan_a.table()),
            readable_depth(),
        ),
        plain(
            flow_manifest(job_b@, plan_b.entry_id(), plan_b.node_seq(), plan_b.table()),
            readable_depth(),
        ),
        plan_a.definition_view().manifest@ == plan_b.definition_view().manifest@,
    ensures
        job_a@ == job_b@,
        plan_a.entry_id() == plan_b.entry_id(),
        node_manifests(plan_a.node_seq()) == node_manifests(plan_b.node_seq()),
        all_edges(plan_a.table()) == all_edges(plan_b.table()),
        plan_a.definition_view().manifest_digest@ == plan_b.definition_view().manifest_digest@,
{
    flows_with_one_manifest_are_alike(
        job_a@,
        plan_a.entry_id(),
        plan_a.node_seq(),
        plan_a.table(),
        job_b@,
        plan_b.entry_id(),
        plan_b.node_seq(),
        plan_b.table(),
    );
}

/// Start controls are told apart by their manifest.
pub proof fn start_controls_are_told_by_their_manifest(a: StartControls, b: StartControls)
    ensures
        member(a.manifest(), "start_limit"@) == Some(Json::Unsigned(a.start_limit@ as u64)),
        member(a.manifest(), "allow_start_if_complete"@) == Some(
            Json::Bool(a.allow_start_if_complete),
        ),
        a.manifest() == b.manifest() ==> a.start_limit@ == b.start_limit@
            && a.allow_start_if_complete == b.allow_start_if_complete,
{
    reveal_strlit("start_limit");
    reveal_strlit("allow_start_if_complete");
    assert("start_limit"@.len() == 11 && "allow_start_if_complete"@.len() == 23);
    assert(member(b.manifest(), "start_limit"@) == Some(
        Json::Unsigned(b.start_limit@ as u64),
    ));
    assert(member(b.manifest(), "allow_start_if_complete"@) == Some(
        Json::Bool(b.allow_start_if_complete),
    ));
}

/// A step's declaration: a tasklet tells its component, delivered at best effort
/// and committed when it completes; a chunk step adds its size and its boundary to
/// what its components declare.
pub proof fn a_declaration_tells_the_components(components: StepComponents)
    ensures
        components matches StepComponents::Tasklet(revision) ==> {
            &&& components.kind() == "tasklet"@
            &&& member(components.manifest(), "component"@) == Some(Json::Text(revision@))
            &&& member(components.manifest(), "delivery_mode"@) == Some(Json::Text("best_effort"@))
            &&& member(components.manifest(), "transaction_boundary"@) == Some(
                Json::Text("tasklet_completion"@),
            )
        },
        components matches StepComponents::Chunk { size, revisions } ==> {
            &&& components.kind() == "chunk"@
            &&& crate::json::json_content(revisions.manifest) is Object ==> {
                &&& member(components.manifest(), "size"@) == Some(Json::Unsigned(size@ as u64))
                &&& member(components.manifest(), "transaction_boundary"@) == Some(
                    Json::Text("chunk"@),
                )
                &&& forall|key: Seq<char>|
                    key != "size"@ && key != "transaction_boundary"@ ==> #[trigger] member(
                        components.manifest(),
                        key,
                    ) == member(crate::json::json_content(revisions.manifest), key)
            }
        },
{
    reveal_strlit("component");
    reveal_strlit("delivery_mode");
    reveal_strlit("transaction_boundary");
    reveal_strlit("size");
    assert("component"@.len() == 9 && "delivery_mode"@.len() == 13);
    assert("transaction_boundary"@.len() == 20 && "size"@.len() == 4);
}

/// A step node's manifest tells its identifier, its kind, its step, its listeners,
/// its policy and its start controls.
pub proof fn a_step_is_told_by_its_manifest(node: StepNode)
    ensures
        ({
            let manifest = node.manifest();
            &&& member(manifest, "id"@) == Some(Json::Text(node.id@))
            &&& member(manifest, "kind"@) == Some(Json::Text("step"@))
            &&& member(manifest, "start"@) == Some(node.start.manifest())
            &&& node.fault is None ==> member(manifest, "policy"@) == Some(Json::Null)
            &&& node.fault matches Some(policy) ==> member(manifest, "policy"@) == Some(
                policy.manifest(),
            )
            &&& member(manifest, "listeners"@) matches Some(Json::Array(listed)) && listed.len()
                == node.listeners@.len() && forall|i: int|
                0 <= i < listed.len() ==> #[trigger] listed[i] == Json::Text(node.listeners@[i]@)
            &&& member(manifest, "step"@) matches Some(step) && member(step, "name"@) == Some(
                Json::Text(node.step_name@),
            ) && member(step, "kind"@) == Some(Json::Text(node.components.kind())) && member(
                step,
                "declaration"@,
            ) == Some(node.components.manifest())
        }),
{
    reveal_strlit("id");
    reveal_strlit("kind");
    reveal_strlit("listeners");
    reveal_strlit("policy");
    reveal_strlit("start");
    reveal_strlit("step");
    reveal_strlit("name");
    reveal_strlit("declaration");
    assert("id"@.len() == 2 && "kind"@.len() == 4 && "listeners"@.len() == 9);
    assert("policy"@.len() == 6 && "start"@.len() == 5 && "step"@.len() == 4);
    assert("kind"@[0] == 'k' && "step"@[0] == 's' && "name"@[0] == 'n');
    assert("name"@.len() == 4 && "declaration"@.len() == 11);
}

/// A decision node's manifest tells its identifier, its kind, its decider and the
/// version of the decider's input.
pub proof fn a_decision_is_told_by_its_manifest(node: DecisionNode)
    ensures
        ({
            let manifest = node.manifest();
            &&& member(manifest, "id"@) == Some(Json::Text(node.id@))
            &&& member(manifest, "kind"@) == Some(Json::Text("decision"@))
            &&& member(manifest, "decision"@) matches Some(decision) && member(
                decision,
                "revision"@,
            ) == Some(Json::Text(node.revision@)) && member(decision, "input_version"@) == Some(
                Json::Unsigned(node.input_version@ as u64),
            )
        }),
{
    reveal_strlit("id");
    reveal_strlit("kind");
    reveal_strlit("decision");
    reveal_strlit("revision");
    reveal_strlit("input_version");
    assert("id"@.len() == 2 && "kind"@.len() == 4 && "decision"@.len() == 8);
    assert("revision"@.len() == 8 && "input_version"@.len() == 13);
}

/// Nodes with the same manifest have the same identifier and are of the same
/// kind.
pub proof fn nodes_with_one_manifest_are_alike(a: FlowNode, b: FlowNode)
    requires
        a.manifest() == b.manifest(),
    ensures
        a.name() == b.name(),
        a is Step <==> b is Step,
        a matches FlowNode::Step(x) ==> (b matches FlowNode::Step(y) && x.step_name@
            == y.step_name@ && x.start.start_limit@ == y.start.start_limit@
            && x.start.allow_start_if_complete == y.start.allow_start_if_complete
            && x.components.manifest() == y.components.manifest() && x.components.kind()
            == y.components.kind()),
        a matches FlowNode::Decision(x) ==> (b matches FlowNode::Decision(y) && x.revision@
            == y.revision@ && x.input_version@ == y.input_version@),
{
    reveal_strlit("step");
    reveal_strlit("decision");
    assert("step"@.len() == 4 && "decision"@.len() == 8);
    match a {
        FlowNode::Step(x) => a_step_is_told_by_its_manifest(*x),
        FlowNode::Decision(x) => a_decision_is_told_by_its_manifest(x),
    }
    match b {
        FlowNode::Step(y) => a_step_is_told_by_its_manifest(*y),
        FlowNode::Decision(y) => a_decision_is_told_by_its_manifest(y),
    }
    match (a, b) {
        (FlowNode::Step(x), FlowNode::Step(y)) => {
            start_controls_are_told_by_their_manifest(x.start, y.start);
        },
        _ => {},
    }
}

/// A fault policy's manifest tells its limits, its backoff and its classifier with
/// the rules in order; waits that a 64-bit number cannot hold are cut to the
/// largest one.
pub proof fn a_policy_is_told_by_its_manifest(policy: FaultPolicy, rule: FaultRule, millis: u128)
    ensures
        ({
            let manifest = policy.manifest();
            &&& member(manifest, "retry_limit"@) == Some(Json::Unsigned(policy.retry_limit))
            &&& member(manifest, "retry_state_limit"@) == Some(
                Json::Unsigned(policy.retry_state_limit),
            )
            &&& member(manifest, "skip_limit"@) == Some(Json::Unsigned(policy.skip_limit))
            &&& member(manifest, "backoff"@) matches Some(backoff) && member(backoff, "kind"@)
                == Some(Json::Text(policy.backoff.kind@)) && member(backoff, "initial_ms"@) == Some(
                Json::Unsigned(saturated_millis(policy.backoff.initial_millis)),
            ) && member(backoff, "maximum_ms"@) == Some(
                Json::Unsigned(saturated_millis(policy.backoff.maximum_millis)),
            ) && member(backoff, "multiplier"@) == Some(Json::Unsigned(policy.backoff.multiplier))
            &&& member(manifest, "classifier"@) matches Some(classifier) && member(
                classifier,
                "revision"@,
            ) == Some(Json::Text(policy.classifier_revision@)) && (member(
                classifier,
                "rules"@,
            ) matches Some(Json::Array(rules)) && rules.len() == policy.rules@.len() && forall|
                i: int,
            |
                0 <= i < rules.len() ==> #[trigger] rules[i] == policy.rules@[i].manifest())
        }),
        member(rule.manifest(), "category"@) == Some(Json::Text(rule.category@)),
        member(rule.manifest(), "phase"@) == Some(Json::Text(rule.phase@)),
        member(rule.manifest(), "retryable"@) == Some(Json::Bool(rule.retryable)),
        rule.skip is None ==> member(rule.manifest(), "skip"@) == Some(Json::Null),
        rule.skip matches Some(name) ==> member(rule.manifest(), "skip"@) == Some(
            Json::Text(name@),
        ),
        millis <= 0xffff_ffff_ffff_ffff ==> saturated_millis(millis) == millis,
        millis > 0xffff_ffff_ffff_ffff ==> saturated_millis(millis) == 0xffff_ffff_ffff_ffff,
{
    reveal_strlit("retry_limit");
    reveal_strlit("retry_state_limit");
    reveal_strlit("skip_limit");
    reveal_strlit("backoff");
    reveal_strlit("classifier");
    reveal_strlit("kind");
    reveal_strlit("initial_ms");
    reveal_strlit("maximum_ms");
    reveal_strlit("multiplier");
    reveal_strlit("revision");
    reveal_strlit("rules");
    reveal_strlit("category");
    reveal_strlit("phase");
    reveal_strlit("retryable");
    reveal_strlit("skip");
    assert("retry_limit"@.len() == 11 && "retry_state_limit"@.len() == 17);
    assert("skip_limit"@.len() == 10 && "backoff"@.len() == 7 && "classifier"@.len() == 10);
    assert("skip_limit"@[0] == 's' && "classifier"@[0] == 'c');
    assert("kind"@.len() == 4 && "initial_ms"@.len() == 10 && "maximum_ms"@.len() == 10);
    assert("multiplier"@.len() == 10 && "initial_ms"@[0] == 'i');
    assert("maximum_ms"@[1] == 'a' && "multiplier"@[1] == 'u' && "maximum_ms"@[0] == 'm');
    assert("multiplier"@[0] == 'm');
    assert("revision"@.len() == 8 && "rules"@.len() == 5);
    assert("category"@.len() == 8 && "phase"@.len() == 5 && "retryable"@.len() == 9);
    assert("skip"@.len() == 4);
}

/// `*` matches every text, `?` every text of one character, and any other
/// character only itself.
pub proof fn single_characters_match(c: char, value: Seq<char>)
    ensures
        glob(Seq::<char>::empty(), value) == (value.len() == 0),
        glob(seq!['*'], value),
        glob(seq!['?'], value) == (value.len() == 1),
        c != '*' && c != '?' ==> glob(seq![c], value) == (value == seq![c]),
    decreases value.len(),
{
    crate::plan::pattern::star_matches_everything(value);
    reveal_with_fuel(glob, 3);
    let one = seq!['?'];
    assert(one.drop_first() =~= Seq::<char>::empty());
    if value.len() > 0 {
        assert(glob(one, value) == glob(one.drop_first(), value.drop_first()));
    }
    if c != '*' && c != '?' {
        literal_matches_itself(seq![c], value);
    }
}

proof fn glob_joins(left: Seq<char>, right: Seq<char>, value: Seq<char>, i: int)
    requires
        0 <= i <= value.len(),
        glob(left, value.take(i)),
        glob(right, value.skip(i)),
    ensures
        glob(left + right, value),
    decreases left.len() + value.len(),
{
    let whole = left + right;
    let head = value.take(i);
    if left.len() == 0 {
        assert(whole =~= right);
        assert(value.skip(i) =~= value);
    } else {
        let rest = left.drop_first();
        assert(whole.drop_first() =~= rest + right);
        assert(whole[0] == left[0]);
        if i > 0 {
            assert(head.drop_first() =~= value.drop_first().take(i - 1));
            assert(value.skip(i) =~= value.drop_first().skip(i - 1));
        }
        if left[0] == '*' {
            if glob(rest, head) {
                glob_joins(rest, right, value, i);
            } else {
                glob_joins(left, right, value.drop_first(), i - 1);
            }
        } else {
            glob_joins(rest, right, value.drop_first(), i - 1);
        }
    }
}

proof fn glob_splits(left: Seq<char>, right: Seq<char>, value: Seq<char>) -> (i: int)
    requires
        glob(left + right, value),
    ensures
        0 <= i <= value.len(),
        glob(left, value.take(i)),
        glob(right, value.skip(i)),
    decreases left.len() + value.len(),
{
    let whole = left + right;
    if left.len() == 0 {
        assert(whole =~= right);
        assert(value.skip(0) =~= value);
        0
    } else {
        let rest = left.drop_first();
        let tail = value.drop_first();
        assert(whole.drop_first() =~= rest + right);
        assert(whole[0] == left[0]);
        if left[0] == '*' && glob(rest + right, value) {
            let i = glob_splits(rest, right, value);
            assert(glob(left, value.take(i)));
            i
        } else {
            let j = if left[0] == '*' {
                glob_splits(left, right, tail)
            } else {
                glob_splits(rest, right, tail)
            };
            assert(value.take(j + 1).drop_first() =~= tail.take(j));
            assert(value.skip(j + 1) =~= tail.skip(j));
            assert(glob(left, value.take(j + 1)));
            j + 1
        }
    }
}

/// A pattern made of two matches exactly the texts made of two pieces, one that
/// the first matches and one that the second matches.
pub proof fn patterns_match_piece_by_piece(left: Seq<char>, right: Seq<char>, value: Seq<char>)
    ensures
        glob(left + right, value) <==> exists|i: int|
            0 <= i <= value.len() && #[trigger] glob(left, value.take(i)) && glob(
                right,
                value.skip(i),
            ),
{
    if glob(left + right, value) {
        let i = glob_splits(left, right, value);
        assert(glob(left, value.take(i)));
    }
    if exists|i: int|
        0 <= i <= value.len() && #[trigger] glob(left, value.take(i)) && glob(
            right,
            value.skip(i),
        ) {
        let i = choose|i: int|
            0 <= i <= value.len() && #[trigger] glob(left, value.take(i)) && glob(
                right,
                value.skip(i),
            );
        glob_joins(left, right, value, i);
    }
}

/// `*` and `?` are the wildcards, and each counts once.
pub proof fn wildcards_are_counted(left: Seq<char>, right: Seq<char>, c: char)
    ensures
        wildcard_count(Seq::<char>::empty()) == 0,
        wildcard_count(seq![c]) == (if c == '*' || c == '?' {
            1nat
        } else {
            0nat
        }),
        wildcard_count(left + right) == wildcard_count(left) + wildcard_count(right),
    decreases right.len(),
{
    reveal_with_fuel(wildcard_count, 2);
    assert(seq![c].drop_last() =~= Seq::<char>::empty());
    if right.len() == 0 {
        assert(left + right =~= left);
    } else {
        wildcards_are_counted(left, right.drop_last(), c);
        assert((left + right).drop_last() =~= left + right.drop_last());
    }
}

/// Of two patterns the one with more literal characters is the more specific;
/// among those with as many, the one with fewer wildcards; and among those, the
/// one with more bytes. Otherwise they are equally specific.
pub proof fn the_more_literal_pattern_is_more_specific(p: Seq<char>, q: Seq<char>)
    requires
        valid_pattern(p),
        valid_pattern(q),
    ensures
        ({
            let literals_p = p.len() - wildcard_count(p);
            let literals_q = q.len() - wildcard_count(q);
            &&& specificity_of(q).below(specificity_of(p)) <==> (literals_p > literals_q || (
            literals_p == literals_q && wildcard_count(p) < wildcard_count(q)) || (literals_p
                == literals_q && wildcard_count(p) == wildcard_count(q) && encode_utf8(p).len()
                > encode_utf8(q).len()))
            &&& specificity_of(p) == specificity_of(q) <==> (literals_p == literals_q
                && wildcard_count(p) == wildcard_count(q) && encode_utf8(p).len() == encode_utf8(
                q,
            ).len())
        }),
{
    specificity_parts(p);
    specificity_parts(q);
    crate::plan::pattern::PatternSpecificity::strict_total(specificity_of(p), specificity_of(q));
}

/// A pattern is accepted as it is exactly if it has one to 64 bytes, no white
/// space around it and no control character.
pub proof fn patterns_are_validated(value: &str, r: Result<ExitPattern, PlanError>)
    requires
        call_ensures(ExitPattern::new, (value,), r),
    ensures
        r is Ok <==> value@.len() > 0 && encode_utf8(value@).len() <= 64 && !has_outer_space(
            value@,
        ) && !has_control(value@),
        r matches Ok(pattern) ==> pattern@ == value@,
        r matches Err(error) ==> error@ == PlanErrorView::InvalidPattern(64),
{
}

/// A pattern matches what its characters match, and two patterns intersect exactly
/// if some exit code is matched by both.
pub proof fn patterns_answer_for_their_text(
    pattern: &ExitPattern,
    other: &ExitPattern,
    code: &ExitCode,
    matched: bool,
    met: bool,
)
    requires
        call_ensures(ExitPattern::matches, (pattern, code), matched),
        call_ensures(ExitPattern::intersects, (pattern, other), met),
    ensures
        matched == glob(pattern@, code@),
        matched && glob(other@, code@) ==> met,
        met ==> exists|value: Seq<char>| #[trigger] glob(pattern@, value) && glob(other@, value),
{
}

/// A lowered wrapper ends the job by the outcome of its only step: completed,
/// failed and stopped lead to the terminal of that meaning, and no other outcome
/// is mapped.
pub proof fn a_lowered_wrapper_routes_its_outcomes(id: Seq<char>, code: Seq<char>)
    ensures
        first_target(compatibility_edges(id), code) == (if code == "COMPLETED"@ {
            Some(TargetView::Terminal(TerminalKind::Complete))
        } else if code == "FAILED"@ {
            Some(TargetView::Terminal(TerminalKind::Fail))
        } else if code == "STOPPED"@ {
            Some(TargetView::Terminal(TerminalKind::Stop))
        } else {
            None
        }),
        forall|i: int|
            0 <= i < compatibility_edges(id).len() ==> (#[trigger] compatibility_edges(
                id,
            )[i]).source == id,
{
    reveal_strlit("COMPLETED");
    reveal_strlit("FAILED");
    reveal_strlit("STOPPED");
    let edges = compatibility_edges(id);
    literal_matches_itself("COMPLETED"@, code);
    literal_matches_itself("FAILED"@, code);
    literal_matches_itself("STOPPED"@, code);
    assert("COMPLETED"@.len() == 9 && "FAILED"@.len() == 6 && "STOPPED"@.len() == 7);
    let two = edges.drop_first();
    let one = two.drop_first();
    assert(two[0] == edges[1] && one[0] == edges[2]);
    assert(one.drop_first() =~= Seq::<EdgeView>::empty());
    reveal_with_fuel(first_target, 5);
}

/// A plan that was lowered from a wrapper keeps the wrapper's definition as it was,
/// starts at its step, has no other node, and ends the job by the step's outcome.
pub proof fn a_lowered_wrapper_keeps_its_definition(
    definition: DefinitionIdentity,
    step: StepNode,
    r: Result<CompiledExecutionPlan, PlanError>,
    id: &NodeId,
    code: &ExitCode,
    target: Result<&FlowTarget, FlowSelectionError>,
)
    requires
        call_ensures(CompiledExecutionPlan::compatibility_one_step, (definition, step), r),
        r is Ok,
        call_ensures(CompiledExecutionPlan::select_target, (&r->Ok_0, id, code), target),
    ensures
        r->Ok_0.definition_view() == definition,
        r->Ok_0.entry_id() == step.id@,
        r->Ok_0.node_seq().len() == 1,
        r->Ok_0.node_seq()[0].manifest() == step.manifest(),
        id@ != step.id@ ==> (target matches Err(FlowSelectionError::UnknownNode { .. })),
        id@ == step.id@ && code@ == "COMPLETED"@ ==> (target matches Ok(t) && *t
            == FlowTarget::Terminal(TerminalKind::Complete)),
        id@ == step.id@ && code@ == "FAILED"@ ==> (target matches Ok(t) && *t
            == FlowTarget::Terminal(TerminalKind::Fail)),
        id@ == step.id@ && code@ == "STOPPED"@ ==> (target matches Ok(t) && *t
            == FlowTarget::Terminal(TerminalKind::Stop)),
        id@ == step.id@ && code@ != "COMPLETED"@ && code@ != "FAILED"@ && code@ != "STOPPED"@
            ==> target is Err,
{
    let plan = r->Ok_0;
    a_lowered_wrapper_routes_its_outcomes(step.id@, code@);
    reveal_strlit("COMPLETED");
    reveal_strlit("FAILED");
    reveal_strlit("STOPPED");
    assert("COMPLETED"@.len() == 9 && "FAILED"@.len() == 6 && "STOPPED"@.len() == 7);
    assert(plan.ids().len() == 1);
    assert(plan.ids()[0] == step.id@);
    if plan.ids().contains(id@) {
        let k = choose|k: int| 0 <= k < plan.ids().len() && plan.ids()[k] == id@;
        assert(k == 0);
        let p = plan.ids().index_of(id@);
        assert(0 <= p < plan.ids().len() && plan.ids()[p] == id@);
        assert(plan.edges_of(id@) == compatibility_edges(step.id@));
    }
}

/// A plan is identified by its own job, revision and manifest: the second manifest
/// format, and the digest of exactly the manifest's bytes.
pub proof fn a_plan_is_identified_by_its_manifest(
    graph: FlowGraph,
    job: &JobName,
    revision: DefinitionRevision,
    plan: &CompiledExecutionPlan,
    format: u16,
    digest: &[u8; 32],
)
    requires
        call_ensures(FlowGraph::compile, (graph, job, revision), Ok(*plan)),
        call_ensures(CompiledExecutionPlan::manifest_format, (plan,), format),
        call_ensures(CompiledExecutionPlan::fingerprint, (plan,), digest),
    ensures
        format == 2,
        digest@ == sha256(plan.definition_view().manifest@),
        plan.definition_view().job_name@ == job@,
        plan.definition_view().revision == revision,
        plan.entry_id() == graph.entry->0@,
{
}

/// A sequential edge ends the job where its source failed, and goes on to the next
/// destination after any other outcome.
pub proof fn a_sequence_goes_on_unless_it_failed(
    graph: FlowGraph,
    source: NodeId,
    next: FlowTarget,
    r: Result<FlowGraph, PlanError>,
    code: Seq<char>,
)
    requires
        call_ensures(FlowGraph::with_sequence, (graph, source, next), r),
    ensures
        r is Ok,
        r->Ok_0.entry == graph.entry,
        r->Ok_0.nodes == graph.nodes,
        r->Ok_0.transitions@.len() == graph.transitions@.len() + 2,
        ({
            let failed = r->Ok_0.transitions@[graph.transitions@.len() as int];
            let any = r->Ok_0.transitions@[graph.transitions@.len() as int + 1];
            &&& failed@.source == source@ && any@.source == source@
            &&& failed@.target == TargetView::Terminal(TerminalKind::Fail)
            &&& any@.target == next@
            &&& glob(failed@.pattern, code) <==> code == "FAILED"@
            &&& glob(any@.pattern, code)
            &&& specificity_of(any@.pattern).below(specificity_of(failed@.pattern))
        }),
{
    let views = edge_views(r->Ok_0.transitions@);
    let n = graph.transitions@.len() as int;
    assert(views.len() == r->Ok_0.transitions@.len());
    assert(edge_views(graph.transitions@).len() == n);
    assert(views[n] == r->Ok_0.transitions@[n]@);
    assert(views[n + 1] == r->Ok_0.transitions@[n + 1]@);
    reveal_strlit("FAILED");
    reveal_strlit("*");
    literal_matches_itself("FAILED"@, code);
    star_matches_anything(code);
    short_ascii_is_pattern("FAILED"@);
    short_ascii_is_pattern("*"@);
    specificity_parts("FAILED"@);
    specificity_parts("*"@);
    assert("FAILED"@ =~= seq!['F', 'A', 'I', 'L', 'E', 'D']);
    assert("*"@ =~= seq!['*']);
    reveal_with_fuel(wildcard_count, 8);
}

proof fn star_matches_anything(code: Seq<char>)
    ensures
        glob("*"@, code),
    decreases code.len(),
{
    reveal_strlit("*");
    let star = "*"@;
    assert(star =~= seq!['*']);
    reveal_with_fuel(glob, 3);
    if code.len() > 0 {
        star_matches_anything(code.drop_first());
    }
}

/// Nodes and transitions are declared behind those that a graph has, and nothing
/// else changes.
pub proof fn declarations_are_kept_in_order(
    graph: FlowGraph,
    node: FlowNode,
    transition: FlowTransition,
    with_node: FlowGraph,
    with_transition: FlowGraph,
)
    requires
        call_ensures(FlowGraph::with_node, (graph, node), with_node),
        call_ensures(FlowGraph::with_transition, (graph, transition), with_transition),
    ensures
        with_node.nodes@ == graph.nodes@.push(node),
        with_node.entry == graph.entry && with_node.transitions == graph.transitions,
        with_transition.transitions@ == graph.transitions@.push(transition),
        with_transition.entry == graph.entry && with_transition.nodes == graph.nodes,
{
}

/// A step starts without limit, is not rerun once complete, and has no policy and
/// no listeners, until each is declared; declaring one leaves the others alone.
pub proof fn a_step_is_declared_part_by_part(
    id: NodeId,
    name: StepName,
    components: StepComponents,
    step: StepNode,
    start: StartControls,
    started: StepNode,
    policy: FaultPolicy,
    guarded: StepNode,
    listener: ComponentRevision,
    heard: StepNode,
)
    requires
        call_ensures(StepNode::new, (id, name, components), step),
        call_ensures(StepNode::with_start_controls, (step, start), started),
        call_ensures(StepNode::with_fault_policy, (started, policy), guarded),
        call_ensures(StepNode::with_listener_revision, (guarded, listener), heard),
    ensures
        step.start.start_limit@ == 0xffff_ffff && !step.start.allow_start_if_complete,
        step.fault is None && step.listeners@.len() == 0,
        heard.id == id && heard.step_name == name && heard.components == components,
        heard.start == start,
        heard.fault == Some(policy),
        heard.listeners@ == seq![listener],
{
    assert(heard.listeners@ =~= seq![listener]);
}

/// A limit, an input version and a chunk size are any numbers but zero, kept as
/// they are.
pub proof fn zero_is_refused(
    value: u32,
    limit: Result<StartLimit, PlanError>,
    version: Result<DecisionInputVersion, PlanError>,
    size: Option<ChunkSize>,
)
    requires
        call_ensures(StartLimit::new, (value,), limit),
        call_ensures(DecisionInputVersion::new, (value,), version),
        call_ensures(ChunkSize::new, (value,), size),
    ensures
        limit is Err <==> value == 0,
        version is Err <==> value == 0,
        size is None <==> value == 0,
        limit matches Ok(kept) ==> kept@ == value,
        version matches Ok(kept) ==> kept@ == value,
        size matches Some(kept) ==> kept@ == value,
        limit matches Err(error) ==> error is ZeroStartLimit,
        version matches Err(error) ==> error is ZeroDecisionInputVersion,
{
}

/// A pattern's specificity is its own: the characters that are no wildcards, the
/// wildcards, and the bytes of its text.
pub proof fn a_pattern_is_as_specific_as_its_text(
    pattern: &ExitPattern,
    r: PatternSpecificity,
    literals: usize,
    wildcards: usize,
    bytes: usize,
)
    requires
        call_ensures(ExitPattern::specificity, (pattern,), r),
        call_ensures(PatternSpecificity::literals, (r,), literals),
        call_ensures(PatternSpecificity::wildcards, (r,), wildcards),
        call_ensures(PatternSpecificity::bytes, (r,), bytes),
        valid_pattern(pattern@),
    ensures
        literals + wildcards == pattern@.len(),
        wildcards == wildcard_count(pattern@),
        bytes == encode_utf8(pattern@).len(),
{
    specificity_parts(pattern@);
}

/// Of two specificities the one with fewer literals is evaluated later; of two with
/// as many, the one with more wildcards, and then the shorter one.
pub proof fn specificities_are_compared_part_by_part(
    a: PatternSpecificity,
    b: PatternSpecificity,
    below: bool,
    same: bool,
)
    requires
        call_ensures(PatternSpecificity::is_below, (a, b), below),
        call_ensures(PatternSpecificity::same, (a, b), same),
    ensures
        a.spec_literals() < b.spec_literals() ==> below,
        a.spec_literals() > b.spec_literals() ==> !below,
        a.spec_literals() == b.spec_literals() && a.spec_wildcards() > b.spec_wildcards() ==> below,
        a.spec_literals() == b.spec_literals() && a.spec_wildcards() < b.spec_wildcards()
            ==> !below,
        a.spec_literals() == b.spec_literals() && a.spec_wildcards() == b.spec_wildcards() ==> (
        below <==> a.spec_bytes() < b.spec_bytes()),
        same ==> !below,
{
    PatternSpecificity::strict_total(a, b);
}

/// A plan shows its nodes and counts its transitions: a node is found by its
/// identifier, and one that the plan does not have has no transitions.
pub proof fn a_plan_shows_its_nodes(
    plan: &CompiledExecutionPlan,
    id: &NodeId,
    node: Option<&FlowNode>,
    edges: &[FlowTransition],
    count: usize,
    entry: &NodeId,
)
    requires
        call_ensures(CompiledExecutionPlan::node, (plan, id), node),
        call_ensures(CompiledExecutionPlan::transitions, (plan, id), edges),
        call_ensures(CompiledExecutionPlan::node_count, (plan,), count),
        call_ensures(CompiledExecutionPlan::entry, (plan,), entry),
    ensures
        node matches Some(found) ==> found.name() == id@ && plan.node_seq().contains(*found),
        node is None ==> edges@.len() == 0,
        count == plan.node_seq().len(),
        entry@ == plan.entry_id(),
{
    assert(edge_views(edges@).len() == edges@.len());
}

/// Unless declared otherwise, a step can be started as often as a number allows and
/// is not rerun once it is complete.
pub proof fn starts_are_unrestricted_by_default(limit: StartLimit, controls: StartControls)
    requires
        call_ensures(<StartLimit as Default>::default, (), limit),
        call_ensures(<StartControls as Default>::default, (), controls),
    ensures
        limit@ == 0xffff_ffff,
        controls.start_limit@ == 0xffff_ffff,
        !controls.allow_start_if_complete,
{
}

/// The name of each terminal.
pub proof fn terminals_have_these_names(kind: TerminalKind, r: &'static str)
    requires
        call_ensures(TerminalKind::as_str, (kind,), r),
    ensures
        kind is Complete ==> r@ == "complete"@,
        kind is Fail ==> r@ == "fail"@,
        kind is Stop ==> r@ == "stop"@,
{
}

} // verus!
