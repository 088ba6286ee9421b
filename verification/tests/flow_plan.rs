//! Flow graphs, exit patterns and compiled plans.

use oxide_batch::plan::compiled::{CompiledExecutionPlan, DefinitionIdentity, MANIFEST_FORMAT_FLOW};
use oxide_batch::plan::error::{DefinitionError, FlowSelectionError, PlanError};
use oxide_batch::plan::graph::{FlowGraph, MAX_NODES, MAX_OUTGOING_TRANSITIONS, MAX_TRANSITIONS};
use oxide_batch::plan::node::{
    ChunkComponentRevisions, ChunkSize, DecisionInputVersion, DecisionNode, FaultBackoff,
    FaultPolicy, FaultRule, FlowNode, FlowTarget, FlowTransition, StartControls, StartLimit,
    StepComponents, StepNode, TerminalKind,
};
use oxide_batch::plan::pattern::{ExitPattern, MAX_PATTERN_BYTES};
use oxide_batch::tokens::{
    ComponentRevision, DeciderRevision, DefinitionRevision, ExitCode, JobName, NodeId, StepName,
};
use sha2::Digest;

fn id(name: &str) -> NodeId {
    NodeId::new(name)
}

fn step(name: &str) -> FlowNode {
    FlowNode::step(StepNode::new(
        id(name),
        StepName::new(name),
        StepComponents::Tasklet(ComponentRevision::new("r1")),
    ))
}

fn edge(source: &str, pattern: &str, target: FlowTarget) -> FlowTransition {
    FlowTransition::new(id(source), ExitPattern::new(pattern).unwrap(), target)
}

fn to(name: &str) -> FlowTarget {
    FlowTarget::Node(id(name))
}

fn complete() -> FlowTarget {
    FlowTarget::Terminal(TerminalKind::Complete)
}

fn compile(graph: FlowGraph) -> Result<CompiledExecutionPlan, PlanError> {
    graph.compile(&JobName::new("job"), DefinitionRevision::new("v1"))
}

fn target<'a>(plan: &'a CompiledExecutionPlan, node: &str, code: &str) -> Option<&'a FlowTarget> {
    plan.select_target(&id(node), &ExitCode::new(code)).ok()
}

#[test]
fn patterns_match_by_wildcards() {
    for (pattern, code, expected) in [
        ("COMPLETED", "COMPLETED", true),
        ("COMPLETED", "COMPLETED2", false),
        ("*", "", true),
        ("FAIL*", "FAILED", true),
        ("F?IL*", "FAIL", true),
        ("F?IL*", "FIL", false),
        ("*A*B", "xAyAzB", true),
        ("*A*B", "xByA", false),
        ("?", "é", true),
    ] {
        let pattern = ExitPattern::new(pattern).unwrap();
        assert_eq!(pattern.matches(&ExitCode::new(code)), expected, "{pattern:?} {code}");
    }
}

#[test]
fn patterns_are_bounded() {
    let longest = "x".repeat(MAX_PATTERN_BYTES);
    assert!(ExitPattern::new(&longest).is_ok());
    for bad in ["", " a", "a ", "a\tb", &"x".repeat(MAX_PATTERN_BYTES + 1)] {
        assert_eq!(
            ExitPattern::new(bad),
            Err(PlanError::InvalidPattern { max_bytes: MAX_PATTERN_BYTES })
        );
    }
    assert_eq!(ExitPattern::new("A*").unwrap().to_text(), "A*");
}

#[test]
fn specificity_prefers_literals_then_fewer_wildcards() {
    let specificity = |text| ExitPattern::new(text).unwrap().specificity();
    assert!(specificity("A*") < specificity("AB"));
    assert!(specificity("A**") < specificity("A*"));
    assert!(specificity("*").same(specificity("?")));
    let parts = specificity("A*?");
    assert_eq!((parts.literals(), parts.wildcards(), parts.bytes()), (1, 2, 3));
}

#[test]
fn patterns_overlap_exactly_if_a_code_matches_both() {
    let overlap = |a, b| ExitPattern::new(a).unwrap().intersects(&ExitPattern::new(b).unwrap());
    assert!(overlap("A*", "*B"));
    assert!(overlap("?", "A"));
    assert!(!overlap("A?", "B*"));
    assert!(!overlap("AA", "A"));
}

#[test]
fn a_compiled_plan_routes_by_the_most_specific_pattern() {
    let graph = FlowGraph::new(id("a"))
        .with_node(step("b"))
        .with_node(step("a"))
        .with_transition(edge("a", "*", FlowTarget::Terminal(TerminalKind::Fail)))
        .with_transition(edge("a", "COMPLETED", to("b")))
        .with_transition(edge("a", "COMP*", FlowTarget::Terminal(TerminalKind::Stop)))
        .with_transition(edge("b", "*", complete()));
    let plan = compile(graph).unwrap();
    assert_eq!(plan.node_count(), 2);
    assert_eq!(plan.transition_count(), 4);
    assert_eq!(plan.entry().as_str(), "a");
    assert_eq!(target(&plan, "a", "COMPLETED"), Some(&to("b")));
    assert_eq!(
        target(&plan, "a", "COMPANY"),
        Some(&FlowTarget::Terminal(TerminalKind::Stop))
    );
    assert_eq!(
        target(&plan, "a", "other"),
        Some(&FlowTarget::Terminal(TerminalKind::Fail))
    );
    assert_eq!(plan.nodes()[0].id().as_str(), "a");
    assert!(plan.node(&id("b")).is_some() && plan.node(&id("c")).is_none());
    assert_eq!(plan.transitions(&id("a")).len(), 3);
    assert!(plan.transitions(&id("zzz")).is_empty());
    assert_eq!(plan.manifest_format(), MANIFEST_FORMAT_FLOW);
}

#[test]
fn the_manifest_does_not_depend_on_the_declaration_order() {
    let first = FlowGraph::new(id("a"))
        .with_node(step("a"))
        .with_node(step("b"))
        .with_transition(edge("a", "X", to("b")))
        .with_transition(edge("a", "*", complete()))
        .with_transition(edge("b", "*", complete()));
    let second = FlowGraph::new(id("a"))
        .with_node(step("b"))
        .with_node(step("a"))
        .with_transition(edge("b", "*", complete()))
        .with_transition(edge("a", "*", complete()))
        .with_transition(edge("a", "X", to("b")));
    let (first, second) = (compile(first).unwrap(), compile(second).unwrap());
    assert_eq!(first.definition_identity().manifest, second.definition_identity().manifest);
    assert_eq!(first.fingerprint(), second.fingerprint());
    let manifest: serde_json::Value =
        serde_json::from_slice(&first.definition_identity().manifest).unwrap();
    assert_eq!(manifest["job"], "job");
    assert_eq!(manifest["entry"], "a");
    assert_eq!(manifest["format"], 2);
    assert_eq!(manifest["bounds"]["max_nodes"], 1024);
    assert_eq!(manifest["bounds"]["max_outgoing_transitions"], 64);
    assert_eq!(manifest["bounds"]["max_transitions"], 4096);
    assert_eq!(manifest["bounds"]["max_pattern_bytes"], 64);
    assert_eq!(manifest["nodes"].as_array().unwrap().len(), 2);
}

#[test]
fn the_fingerprint_is_the_sha_256_digest_of_the_manifest() {
    let graph = FlowGraph::new(id("a"))
        .with_node(step("a"))
        .with_transition(edge("a", "*", complete()));
    let plan = compile(graph).unwrap();
    let digest = sha2::Sha256::digest(&plan.definition_identity().manifest);
    assert_eq!(plan.fingerprint().as_slice(), digest.as_slice());
}

#[test]
fn decisions_and_fault_policies_are_part_of_the_manifest() {
    let policy = FaultPolicy {
        backoff: FaultBackoff {
            initial_millis: 10,
            kind: "exponential".to_owned(),
            maximum_millis: 1000,
            multiplier: 2,
        },
        classifier_revision: "c1".to_owned(),
        rules: vec![FaultRule {
            category: "timeout".to_owned(),
            phase: "read".to_owned(),
            retryable: true,
            skip: None,
        }],
        retry_limit: 3,
        retry_state_limit: 4,
        skip_limit: 5,
    };
    let chunk = StepComponents::Chunk {
        size: ChunkSize::new(10).unwrap(),
        revisions: Box::new(ChunkComponentRevisions { manifest: serde_json::Value::Null }),
    };
    let worker = StepNode::new(id("work"), StepName::new("work"), chunk)
        .with_start_controls(StartControls::new(StartLimit::new(2).unwrap(), true))
        .with_fault_policy(policy)
        .with_listener_revision(ComponentRevision::new("l1"));
    assert_eq!(worker.start_controls().start_limit().get(), 2);
    assert!(worker.start_controls().allow_start_if_complete());
    assert!(worker.fault_policy().is_some());
    assert_eq!(worker.listener_revisions().len(), 1);
    assert_eq!((worker.id().as_str(), worker.step_name().as_str()), ("work", "work"));
    let decision = DecisionNode::new(
        id("decide"),
        DeciderRevision::new("d1"),
        DecisionInputVersion::new(1).unwrap(),
    );
    assert_eq!((decision.revision().as_str(), decision.input_version().get()), ("d1", 1));
    assert_eq!(worker.clone(), worker);
    let graph = |with_policy: bool| {
        let node = if with_policy { FlowNode::step(worker) } else { step("work") };
        FlowGraph::new(id("decide"))
            .with_node(FlowNode::decision(DecisionNode::new(
                id("decide"),
                DeciderRevision::new("d1"),
                DecisionInputVersion::new(1).unwrap(),
            )))
            .with_node(node)
            .with_transition(edge("decide", "*", to("work")))
            .with_transition(edge("work", "*", complete()))
    };
    let declared = graph(true);
    assert_eq!(declared.clone(), declared);
    let with = compile(declared).unwrap();
    assert_eq!(with.clone(), with);
    let manifest = String::from_utf8(with.definition_identity().manifest.clone()).unwrap();
    for part in ["exponential", "c1", "timeout", "d1", "l1"] {
        assert!(manifest.contains(part), "{part}");
    }
}

#[test]
fn every_rejection_of_a_graph() {
    let missing_entry = FlowGraph::default();
    assert_eq!(compile(missing_entry).unwrap_err(), PlanError::MissingEntryNode);

    let duplicate = FlowGraph::new(id("a"))
        .with_node(step("a"))
        .with_node(step("a"))
        .with_transition(edge("a", "*", complete()));
    assert_eq!(compile(duplicate).unwrap_err(), PlanError::DuplicateNodeId { node: id("a") });

    let undefined = FlowGraph::new(id("a"))
        .with_node(step("a"))
        .with_transition(edge("a", "*", to("ghost")));
    assert_eq!(compile(undefined).unwrap_err(), PlanError::UndefinedNode { node: id("ghost") });

    let routeless = FlowGraph::new(id("a")).with_node(step("a"));
    assert_eq!(compile(routeless).unwrap_err(), PlanError::MissingTransition { node: id("a") });

    let ambiguous = FlowGraph::new(id("a"))
        .with_node(step("a"))
        .with_transition(edge("a", "A*", complete()))
        .with_transition(edge("a", "*B", complete()));
    let error = compile(ambiguous).unwrap_err();
    let PlanError::AmbiguousTransition { node, .. } = &error else { panic!("{error:?}") };
    assert_eq!(node.as_str(), "a");
    assert!(error.to_text().ends_with("are equally specific and overlap"));

    let unreachable = FlowGraph::new(id("a"))
        .with_node(step("a"))
        .with_node(step("b"))
        .with_transition(edge("a", "*", complete()))
        .with_transition(edge("b", "*", complete()));
    assert_eq!(compile(unreachable).unwrap_err(), PlanError::UnreachableNode { node: id("b") });

    let cyclic = FlowGraph::new(id("a"))
        .with_node(step("a"))
        .with_node(step("b"))
        .with_transition(edge("a", "*", to("b")))
        .with_transition(edge("b", "*", to("a")));
    let error = compile(cyclic).unwrap_err();
    assert!(matches!(error, PlanError::CyclicGraph { .. }));

    let mut crowded = FlowGraph::new(id("a")).with_node(step("a"));
    for i in 0..=MAX_OUTGOING_TRANSITIONS {
        crowded = crowded.with_transition(edge("a", &format!("X{i}"), complete()));
    }
    assert_eq!(
        compile(crowded).unwrap_err(),
        PlanError::TooManyOutgoingTransitions { node: id("a"), max: MAX_OUTGOING_TRANSITIONS }
    );

    let mut vast = FlowGraph::new(id("n0"));
    for i in 0..=MAX_NODES {
        vast = vast.with_node(step(&format!("n{i}")));
    }
    assert_eq!(compile(vast).unwrap_err(), PlanError::TooManyNodes { max: MAX_NODES });

    let mut dense = FlowGraph::new(id("a")).with_node(step("a"));
    for _ in 0..=MAX_TRANSITIONS {
        dense = dense.with_transition(edge("a", "X", complete()));
    }
    assert_eq!(
        compile(dense).unwrap_err(),
        PlanError::TooManyTransitions { max: MAX_TRANSITIONS }
    );

    assert_eq!(StartLimit::new(0).unwrap_err(), PlanError::ZeroStartLimit);
    assert_eq!(
        DecisionInputVersion::new(0).unwrap_err(),
        PlanError::ZeroDecisionInputVersion
    );
    assert!(ChunkSize::new(0).is_none());
    assert_eq!(ChunkSize::new(3).unwrap().get(), 3);
}

#[test]
fn plan_errors_have_stable_texts() {
    let definition = || DefinitionError { message: "bad".to_owned() };
    assert_eq!(PlanError::MissingEntryNode.to_text(), "flow graph has no entry node");
    assert_eq!(
        PlanError::DuplicateNodeId { node: id("n") }.to_text(),
        "node n is declared more than once"
    );
    assert_eq!(
        PlanError::TooManyNodes { max: 7 }.to_text(),
        "flow graph exceeds 7 nodes"
    );
    assert_eq!(
        PlanError::TooManyOutgoingTransitions { node: id("n"), max: 64 }.to_text(),
        "node n exceeds 64 outgoing transitions"
    );
    assert_eq!(
        PlanError::InvalidPattern { max_bytes: 64 }.to_text(),
        "exit pattern must be 1 to 64 bytes without control characters"
    );
    assert_eq!(PlanError::from(definition()), PlanError::Token(definition()));
    assert_eq!(
        PlanError::Token(definition()).to_text(),
        "flow graph token is invalid: bad"
    );
    assert_eq!(
        PlanError::Manifest(definition()).to_text(),
        "flow manifest could not be encoded: bad"
    );
}

#[test]
fn selection_reports_unknown_nodes_and_unmapped_outcomes() {
    let graph = FlowGraph::new(id("a"))
        .with_node(step("a"))
        .with_transition(edge("a", "COMPLETED", complete()));
    let plan = compile(graph).unwrap();
    let unknown = plan.select_target(&id("b"), &ExitCode::new("X")).unwrap_err();
    assert_eq!(unknown, FlowSelectionError::UnknownNode { node: id("b") });
    assert_eq!(unknown.to_text(), "node b is not part of the compiled plan");
    let unmapped = plan.select_target(&id("a"), &ExitCode::new("X")).unwrap_err();
    assert_eq!(
        unmapped,
        FlowSelectionError::UnmappedExitOutcome { node: id("a"), code: ExitCode::new("X") }
    );
    assert_eq!(
        unmapped.to_text(),
        "node a declares no transition for exit outcome X"
    );
}

#[test]
fn a_sequence_continues_unless_the_step_failed() {
    let graph = FlowGraph::new(id("a"))
        .with_node(step("a"))
        .with_node(step("b"))
        .with_sequence(id("a"), to("b"))
        .unwrap()
        .with_sequence(id("b"), complete())
        .unwrap();
    let plan = compile(graph).unwrap();
    assert_eq!(target(&plan, "a", "COMPLETED"), Some(&to("b")));
    assert_eq!(target(&plan, "a", "CUSTOM"), Some(&to("b")));
    assert_eq!(
        target(&plan, "a", "FAILED"),
        Some(&FlowTarget::Terminal(TerminalKind::Fail))
    );
}

#[test]
fn a_one_step_plan_keeps_the_persisted_identity() {
    let definition = DefinitionIdentity {
        job_name: JobName::new("job"),
        revision: DefinitionRevision::new("v1"),
        manifest_format: 1,
        manifest: b"persisted".to_vec(),
        manifest_digest: [5; 32],
    };
    let only = StepNode::new(
        id("only"),
        StepName::new("only"),
        StepComponents::Tasklet(ComponentRevision::new("r1")),
    );
    let plan = CompiledExecutionPlan::compatibility_one_step(definition, only).unwrap();
    assert_eq!(plan.definition_identity().manifest, b"persisted");
    assert_eq!(plan.manifest_format(), 1);
    assert_eq!(plan.fingerprint(), &[5; 32]);
    assert_eq!(target(&plan, "only", "COMPLETED"), Some(&complete()));
    assert_eq!(target(&plan, "only", "elsewhere"), None);
    assert_eq!(TerminalKind::Complete.as_str(), "complete");
}
