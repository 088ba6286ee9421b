//! Step and decision nodes, the transitions that join them, and what each of
//! them contributes to the canonical manifest.

use crate::json::{
    json_array, json_bool, json_content, json_contents, json_insert, json_is_object, json_null,
    json_object, json_string, json_unsigned, Json,
};
use crate::plan::error::PlanError;
use crate::plan::pattern::ExitPattern;
use crate::tokens::{ComponentRevision, DeciderRevision, NodeId, StepName};
use vstd::prelude::*;
use vstd::string::*;

verus! {

/// The version of the durable input contract one decider reads.
#[derive(Clone, Copy, Debug, PartialEq, Eq, PartialOrd, Ord, Hash)]
pub struct DecisionInputVersion {
    value: u32,
}

impl View for DecisionInputVersion {
    type V = u32;

    closed spec fn view(&self) -> u32 {
        self.value
    }
}

impl DecisionInputVersion {
    #[verifier::type_invariant]
    spec fn well_formed(self) -> bool {
        self.value != 0
    }

    /// Constructs a nonzero durable input-contract version.
    pub fn new(value: u32) -> (r: Result<Self, PlanError>)
        ensures
            match r {
                Ok(version) => value != 0 && version@ == value,
                Err(error) => value == 0 && error is ZeroDecisionInputVersion,
            },
    {
        if value == 0 {
            Err(PlanError::ZeroDecisionInputVersion)
        } else {
            Ok(DecisionInputVersion { value })
        }
    }

    /// Returns the version.
    pub fn get(self) -> (r: u32)
        ensures
            r == self@,
            r != 0,
    {
        proof {
            use_type_invariant(self);
        }
        self.value
    }
}

/// The maximum number of step executions one logical step may start.
///
/// The default is `u32::MAX`: an effectively unrestricted step that remains a
/// finite typed value rather than an absent bound.
#[derive(Clone, Copy, Debug, PartialEq, Eq, PartialOrd, Ord, Hash)]
pub struct StartLimit {
    value: u32,
}

impl View for StartLimit {
    type V = u32;

    closed spec fn view(&self) -> u32 {
        self.value
    }
}

impl StartLimit {
    #[verifier::type_invariant]
    spec fn well_formed(self) -> bool {
        self.value != 0
    }

    /// The unrestricted default.
    pub fn unrestricted() -> (r: Self)
        ensures
            r@ == u32::MAX,
    {
        StartLimit { value: u32::MAX }
    }

    /// Constructs a nonzero start limit. A step that can never start is a
    /// definition mistake rather than a policy.
    pub fn new(value: u32) -> (r: Result<Self, PlanError>)
        ensures
            match r {
                Ok(limit) => value != 0 && limit@ == value,
                Err(error) => value == 0 && error is ZeroStartLimit,
            },
    {
        if value == 0 {
            Err(PlanError::ZeroStartLimit)
        } else {
            Ok(StartLimit { value })
        }
    }

    /// Returns the limit.
    pub fn get(self) -> (r: u32)
        ensures
            r == self@,
            r != 0,
    {
        proof {
            use_type_invariant(self);
        }
        self.value
    }
}

impl Default for StartLimit {
    fn default() -> (r: Self)
        ensures
            r@ == u32::MAX,
    {
        Self::unrestricted()
    }
}

/// Restart-relevant start controls for one logical step.
#[derive(Clone, Copy, Debug, PartialEq, Eq)]
pub struct StartControls {
    /// The maximum number of starts for one job instance.
    pub start_limit: StartLimit,
    /// Whether a restart path reruns an already completed step.
    pub allow_start_if_complete: bool,
}

impl StartControls {
    /// What the controls contribute to the manifest.
    pub open spec fn manifest(self) -> Json {
        Json::Object(
            Map::empty().insert(
                "allow_start_if_complete"@,
                Json::Bool(self.allow_start_if_complete),
            ).insert("start_limit"@, Json::Unsigned(self.start_limit@ as u64)),
        )
    }

    /// Constructs explicit start controls.
    pub fn new(start_limit: StartLimit, allow_start_if_complete: bool) -> (r: Self)
        ensures
            r.start_limit == start_limit,
            r.allow_start_if_complete == allow_start_if_complete,
    {
        StartControls { start_limit, allow_start_if_complete }
    }

    /// Returns the maximum number of starts for one job instance.
    pub fn start_limit(&self) -> (r: StartLimit)
        ensures
            r == self.start_limit,
    {
        self.start_limit
    }

    /// Returns whether a restart path reruns an already completed step.
    pub fn allow_start_if_complete(&self) -> (r: bool)
        ensures
            r == self.allow_start_if_complete,
    {
        self.allow_start_if_complete
    }

    fn manifest_value(self) -> (r: serde_json::Value)
        ensures
            json_content(r) == self.manifest(),
    {
        let mut members: serde_json::Value = json_object();
        json_insert(
            &mut members,
            "allow_start_if_complete",
            json_bool(self.allow_start_if_complete),
        );
        json_insert(&mut members, "start_limit", json_unsigned(self.start_limit.get() as u64));
        members
    }
}

impl Default for StartControls {
    fn default() -> (r: Self)
        ensures
            r.start_limit@ == u32::MAX,
            !r.allow_start_if_complete,
    {
        StartControls { start_limit: StartLimit::unrestricted(), allow_start_if_complete: false }
    }
}

/// A node that ends the job without starting further work.
#[derive(Clone, Copy, Debug, PartialEq, Eq, PartialOrd, Ord, Hash, Structural)]
#[non_exhaustive]
pub enum TerminalKind {
    /// The job completes.
    Complete,
    /// The job fails.
    Fail,
    /// The job stops and remains restartable.
    Stop,
}

impl TerminalKind {
    /// The stable manifest and telemetry name.
    pub open spec fn name(self) -> Seq<char> {
        match self {
            TerminalKind::Complete => "complete"@,
            TerminalKind::Fail => "fail"@,
            TerminalKind::Stop => "stop"@,
        }
    }

    /// Returns the stable manifest and telemetry name.
    pub fn as_str(self) -> (r: &'static str)
        ensures
            r@ == self.name(),
    {
        match self {
            TerminalKind::Complete => "complete",
            TerminalKind::Fail => "fail",
            TerminalKind::Stop => "stop",
        }
    }
}

/// The destination one transition selects.
#[derive(Debug, PartialEq, Eq, PartialOrd, Ord, Hash)]
pub enum FlowTarget {
    /// Another graph node starts next.
    Node(NodeId),
    /// The job ends at a terminal.
    Terminal(TerminalKind),
}

/// The content of a destination.
pub enum TargetView {
    Node(Seq<char>),
    Terminal(TerminalKind),
}

impl TargetView {
    /// What the destination contributes to the manifest.
    pub open spec fn manifest(self) -> Json {
        match self {
            TargetView::Node(id) => Json::Object(Map::empty().insert("node"@, Json::Text(id))),
            TargetView::Terminal(kind) => Json::Object(
                Map::empty().insert("terminal"@, Json::Text(kind.name())),
            ),
        }
    }

    /// The rank of the destination's kind: nodes before terminals.
    pub open spec fn rank(self) -> int {
        match self {
            TargetView::Node(_) => 0,
            TargetView::Terminal(_) => 1,
        }
    }

    /// The text by which destinations of one kind are ordered.
    pub open spec fn key(self) -> Seq<char> {
        match self {
            TargetView::Node(id) => id,
            TargetView::Terminal(kind) => kind.name(),
        }
    }
}

impl View for FlowTarget {
    type V = TargetView;

    open spec fn view(&self) -> TargetView {
        match self {
            FlowTarget::Node(id) => TargetView::Node(id@),
            FlowTarget::Terminal(kind) => TargetView::Terminal(*kind),
        }
    }
}

impl FlowTarget {
    fn manifest_value(&self) -> (r: serde_json::Value)
        ensures
            json_content(r) == self@.manifest(),
    {
        let mut members: serde_json::Value = json_object();
        match self {
            FlowTarget::Node(id) => {
                json_insert(&mut members, "node", json_string(id.as_str()));
            },
            FlowTarget::Terminal(kind) => {
                json_insert(&mut members, "terminal", json_string(kind.as_str()));
            },
        }
        members
    }

    pub(crate) fn rank_of(&self) -> (r: u8)
        ensures
            r == self@.rank(),
    {
        match self {
            FlowTarget::Node(_) => 0,
            FlowTarget::Terminal(_) => 1,
        }
    }

    pub(crate) fn key_of(&self) -> (r: &str)
        ensures
            r@ == self@.key(),
    {
        match self {
            FlowTarget::Node(id) => id.as_str(),
            FlowTarget::Terminal(kind) => kind.as_str(),
        }
    }
}

impl Clone for FlowTarget {
    fn clone(&self) -> (r: Self)
        ensures
            r == *self,
    {
        match self {
            FlowTarget::Node(id) => FlowTarget::Node(id.clone()),
            FlowTarget::Terminal(kind) => FlowTarget::Terminal(*kind),
        }
    }
}

/// A nonzero number of items per chunk.
#[derive(Clone, Copy, Debug, PartialEq, Eq, PartialOrd, Ord, Hash)]
pub struct ChunkSize {
    value: u32,
}

impl View for ChunkSize {
    type V = u32;

    closed spec fn view(&self) -> u32 {
        self.value
    }
}

impl ChunkSize {
    #[verifier::type_invariant]
    spec fn well_formed(self) -> bool {
        self.value != 0
    }

    /// Constructs a nonzero size; nothing for zero.
    pub fn new(value: u32) -> (r: Option<Self>)
        ensures
            match r {
                Some(size) => value != 0 && size@ == value,
                None => value == 0,
            },
    {
        if value == 0 {
            None
        } else {
            Some(ChunkSize { value })
        }
    }

    /// Returns the size.
    pub fn get(self) -> (r: u32)
        ensures
            r == self@,
            r != 0,
    {
        proof {
            use_type_invariant(self);
        }
        self.value
    }
}

/// `serde_json::Value::clone` gives an equal value.
pub assume_specification[ <serde_json::Value as Clone>::clone ](
    value: &serde_json::Value,
) -> (r: serde_json::Value)
    ensures
        r == *value,
;

/// The restart-relevant component revisions and state schemas of a chunk step,
/// held as the manifest that declares them.
#[derive(Debug, PartialEq, Eq)]
pub struct ChunkComponentRevisions {
    /// The declaring manifest.
    pub manifest: serde_json::Value,
}

impl Clone for ChunkComponentRevisions {
    fn clone(&self) -> (r: Self)
        ensures
            r == *self,
    {
        ChunkComponentRevisions { manifest: self.manifest.clone() }
    }
}

/// The executable kind and restart-relevant declaration of one step node.
#[derive(Debug, PartialEq, Eq)]
#[non_exhaustive]
pub enum StepComponents {
    /// A single-invocation tasklet body.
    Tasklet(ComponentRevision),
    /// A restartable reader, processor, and writer pipeline.
    Chunk {
        /// The committed chunk size.
        size: ChunkSize,
        /// The restart-relevant component revisions and state schemas.
        revisions: Box<ChunkComponentRevisions>,
    },
}

impl Clone for StepComponents {
    fn clone(&self) -> (r: Self)
        ensures
            r == *self,
    {
        match self {
            StepComponents::Tasklet(revision) => StepComponents::Tasklet(revision.clone()),
            StepComponents::Chunk { size, revisions } => {
                let copied: ChunkComponentRevisions = (&**revisions).clone();
                StepComponents::Chunk { size: *size, revisions: Box::new(copied) }
            },
        }
    }
}

impl StepComponents {
    /// The manifest name of the step's kind.
    pub open spec fn kind(self) -> Seq<char> {
        match self {
            StepComponents::Tasklet(_) => "tasklet"@,
            StepComponents::Chunk { .. } => "chunk"@,
        }
    }

    /// What the declaration contributes to the manifest.
    pub open spec fn manifest(self) -> Json {
        match self {
            StepComponents::Tasklet(revision) => Json::Object(
                Map::empty().insert("component"@, Json::Text(revision@)).insert(
                    "delivery_mode"@,
                    Json::Text("best_effort"@),
                ).insert("transaction_boundary"@, Json::Text("tasklet_completion"@)),
            ),
            StepComponents::Chunk { size, revisions } => match json_content(revisions.manifest) {
                Json::Object(members) => Json::Object(
                    members.insert("size"@, Json::Unsigned(size@ as u64)).insert(
                        "transaction_boundary"@,
                        Json::Text("chunk"@),
                    ),
                ),
                other => other,
            },
        }
    }

    fn kind_name(&self) -> (r: &'static str)
        ensures
            r@ == self.kind(),
    {
        match self {
            StepComponents::Tasklet(_) => "tasklet",
            StepComponents::Chunk { .. } => "chunk",
        }
    }

    fn manifest_value(&self) -> (r: serde_json::Value)
        ensures
            json_content(r) == self.manifest(),
    {
        match self {
            StepComponents::Tasklet(revision) => {
                let mut members: serde_json::Value = json_object();
                json_insert(&mut members, "component", json_string(revision.as_str()));
                json_insert(&mut members, "delivery_mode", json_string("best_effort"));
                json_insert(
                    &mut members,
                    "transaction_boundary",
                    json_string("tasklet_completion"),
                );
                members
            },
            StepComponents::Chunk { size, revisions } => {
                let mut chunk: serde_json::Value = revisions.manifest.clone();
                if json_is_object(&chunk) {
                    json_insert(&mut chunk, "size", json_unsigned(size.get() as u64));
                    json_insert(&mut chunk, "transaction_boundary", json_string("chunk"));
                }
                chunk
            },
        }
    }
}

/// How long a retry waits.
#[derive(Debug, PartialEq, Eq)]
pub struct FaultBackoff {
    /// The first wait in milliseconds.
    pub initial_millis: u128,
    /// The stable name of the growth rule.
    pub kind: String,
    /// The longest wait in milliseconds.
    pub maximum_millis: u128,
    /// The growth factor.
    pub multiplier: u64,
}

impl Clone for FaultBackoff {
    fn clone(&self) -> (r: Self)
        ensures
            r == *self,
    {
        FaultBackoff {
            initial_millis: self.initial_millis,
            kind: self.kind.clone(),
            maximum_millis: self.maximum_millis,
            multiplier: self.multiplier,
        }
    }
}

/// What one failure category leads to in one phase.
#[derive(Debug, PartialEq, Eq)]
pub struct FaultRule {
    /// The stable name of the failure category.
    pub category: String,
    /// The stable name of the phase.
    pub phase: String,
    /// Whether the failure is retried.
    pub retryable: bool,
    /// The stable name of the skip disposition, if the failure is skipped.
    pub skip: Option<String>,
}

impl Clone for FaultRule {
    fn clone(&self) -> (r: Self)
        ensures
            r == *self,
    {
        FaultRule {
            category: self.category.clone(),
            phase: self.phase.clone(),
            retryable: self.retryable,
            skip: match &self.skip {
                Some(name) => Some(name.clone()),
                None => None,
            },
        }
    }
}

/// The fault policy that a step's fingerprint captures.
#[derive(Debug, PartialEq, Eq)]
pub struct FaultPolicy {
    /// How long a retry waits.
    pub backoff: FaultBackoff,
    /// The revision of the failure classifier.
    pub classifier_revision: String,
    /// The classifier's rules, in order.
    pub rules: Vec<FaultRule>,
    /// The maximum number of retries.
    pub retry_limit: u64,
    /// The maximum number of retained retry states.
    pub retry_state_limit: u64,
    /// The maximum number of skips.
    pub skip_limit: u64,
}

/// Milliseconds as an unsigned 64-bit number, or its maximum when they exceed it.
pub open spec fn saturated_millis(millis: u128) -> u64 {
    if millis <= u64::MAX {
        millis as u64
    } else {
        u64::MAX
    }
}

fn saturate_millis(millis: u128) -> (r: u64)
    ensures
        r == saturated_millis(millis),
{
    if millis <= 0xffff_ffff_ffff_ffff {
        millis as u64
    } else {
        u64::MAX
    }
}

impl FaultRule {
    /// What the rule contributes to the manifest.
    pub open spec fn manifest(self) -> Json {
        Json::Object(
            Map::empty().insert("category"@, Json::Text(self.category@)).insert(
                "phase"@,
                Json::Text(self.phase@),
            ).insert("retryable"@, Json::Bool(self.retryable)).insert(
                "skip"@,
                match self.skip {
                    Some(name) => Json::Text(name@),
                    None => Json::Null,
                },
            ),
        )
    }

    fn manifest_value(&self) -> (r: serde_json::Value)
        ensures
            json_content(r) == self.manifest(),
    {
        let mut members: serde_json::Value = json_object();
        json_insert(&mut members, "category", json_string(self.category.as_str()));
        json_insert(&mut members, "phase", json_string(self.phase.as_str()));
        json_insert(&mut members, "retryable", json_bool(self.retryable));
        match &self.skip {
            Some(name) => json_insert(&mut members, "skip", json_string(name.as_str())),
            None => json_insert(&mut members, "skip", json_null()),
        }
        members
    }
}

/// The manifests of some rules, in order.
pub open spec fn rule_manifests(rules: Seq<FaultRule>) -> Seq<Json> {
    rules.map_values(|rule: FaultRule| rule.manifest())
}

impl Clone for FaultPolicy {
    fn clone(&self) -> (r: Self)
        ensures
            r.same(*self),
            r.manifest() == self.manifest(),
    {
        let rules: Vec<FaultRule> = self.rules.clone();
        assert(rules@ =~= self.rules@);
        FaultPolicy {
            backoff: self.backoff.clone(),
            classifier_revision: self.classifier_revision.clone(),
            rules,
            retry_limit: self.retry_limit,
            retry_state_limit: self.retry_state_limit,
            skip_limit: self.skip_limit,
        }
    }
}

impl FaultPolicy {
    /// The two policies have the same content.
    pub open spec fn same(self, other: FaultPolicy) -> bool {
        &&& self.rules@ == other.rules@
        &&& self == (FaultPolicy { rules: self.rules, ..other })
    }

    /// What the policy contributes to the manifest.
    pub open spec fn manifest(self) -> Json {
        let backoff = Json::Object(
            Map::empty().insert(
                "initial_ms"@,
                Json::Unsigned(saturated_millis(self.backoff.initial_millis)),
            ).insert("kind"@, Json::Text(self.backoff.kind@)).insert(
                "maximum_ms"@,
                Json::Unsigned(saturated_millis(self.backoff.maximum_millis)),
            ).insert("multiplier"@, Json::Unsigned(self.backoff.multiplier)),
        );
        let classifier = Json::Object(
            Map::empty().insert("revision"@, Json::Text(self.classifier_revision@)).insert(
                "rules"@,
                Json::Array(rule_manifests(self.rules@)),
            ),
        );
        Json::Object(
            Map::empty().insert("backoff"@, backoff).insert("classifier"@, classifier).insert(
                "retry_limit"@,
                Json::Unsigned(self.retry_limit),
            ).insert("retry_state_limit"@, Json::Unsigned(self.retry_state_limit)).insert(
                "skip_limit"@,
                Json::Unsigned(self.skip_limit),
            ),
        )
    }
}

/// The manifest value of a fault policy.
fn fault_manifest_value(policy: &FaultPolicy) -> (r: serde_json::Value)
    ensures
        json_content(r) == policy.manifest(),
{
    let mut rules: Vec<serde_json::Value> = Vec::new();
    let mut i: usize = 0;
    while i < policy.rules.len()
        invariant
            i <= policy.rules.len(),
            json_contents(rules@) =~= rule_manifests(policy.rules@.take(i as int)),
        decreases policy.rules.len() - i,
    {
        let value: serde_json::Value = policy.rules[i].manifest_value();
        let ghost before = rules@;
        rules.push(value);
        proof {
            assert(json_contents(rules@) =~= json_contents(before).push(json_content(value)));
            assert(rule_manifests(policy.rules@.take(i + 1)) =~= rule_manifests(
                policy.rules@.take(i as int),
            ).push(policy.rules@[i as int].manifest()));
        }
        i = i + 1;
    }
    assert(policy.rules@.take(policy.rules@.len() as int) =~= policy.rules@);
    let mut backoff: serde_json::Value = json_object();
    json_insert(
        &mut backoff,
        "initial_ms",
        json_unsigned(saturate_millis(policy.backoff.initial_millis)),
    );
    json_insert(&mut backoff, "kind", json_string(policy.backoff.kind.as_str()));
    json_insert(
        &mut backoff,
        "maximum_ms",
        json_unsigned(saturate_millis(policy.backoff.maximum_millis)),
    );
    json_insert(&mut backoff, "multiplier", json_unsigned(policy.backoff.multiplier));
    let mut classifier: serde_json::Value = json_object();
    json_insert(&mut classifier, "revision", json_string(policy.classifier_revision.as_str()));
    json_insert(&mut classifier, "rules", json_array(rules));
    let mut members: serde_json::Value = json_object();
    json_insert(&mut members, "backoff", backoff);
    json_insert(&mut members, "classifier", classifier);
    json_insert(&mut members, "retry_limit", json_unsigned(policy.retry_limit));
    json_insert(&mut members, "retry_state_limit", json_unsigned(policy.retry_state_limit));
    json_insert(&mut members, "skip_limit", json_unsigned(policy.skip_limit));
    members
}

/// One executable node of a compiled plan.
#[derive(Debug, PartialEq, Eq)]
pub struct StepNode {
    /// The stable node identifier.
    pub id: NodeId,
    /// The durable step name.
    pub step_name: StepName,
    /// The executable component declaration.
    pub components: StepComponents,
    /// The restart-relevant start controls.
    pub start: StartControls,
    /// The declared fault policy.
    pub fault: Option<FaultPolicy>,
    /// The authoritative listener revisions in registration order.
    pub listeners: Vec<ComponentRevision>,
}

/// The texts of some revisions, as manifest values.
pub open spec fn revision_texts(revisions: Seq<ComponentRevision>) -> Seq<Json> {
    revisions.map_values(|revision: ComponentRevision| Json::Text(revision@))
}

impl Clone for StepNode {
    fn clone(&self) -> (r: Self)
        ensures
            r.same(*self),
            r.manifest() == self.manifest(),
    {
        let listeners: Vec<ComponentRevision> = self.listeners.clone();
        assert(listeners@ =~= self.listeners@);
        StepNode {
            id: self.id.clone(),
            step_name: self.step_name.clone(),
            components: self.components.clone(),
            start: self.start,
            fault: match &self.fault {
                Some(policy) => Some(policy.clone()),
                None => None,
            },
            listeners,
        }
    }
}

impl StepNode {
    /// The two nodes have the same content.
    pub open spec fn same(self, other: StepNode) -> bool {
        &&& self.id == other.id
        &&& self.step_name == other.step_name
        &&& self.components == other.components
        &&& self.start == other.start
        &&& match (self.fault, other.fault) {
            (Some(policy), Some(known)) => policy.same(known),
            (None, None) => true,
            _ => false,
        }
        &&& self.listeners@ == other.listeners@
    }

    /// What the node contributes to the manifest.
    pub open spec fn manifest(self) -> Json {
        let step = Json::Object(
            Map::empty().insert("declaration"@, self.components.manifest()).insert(
                "kind"@,
                Json::Text(self.components.kind()),
            ).insert("name"@, Json::Text(self.step_name@)),
        );
        Json::Object(
            Map::empty().insert("id"@, Json::Text(self.id@)).insert(
                "kind"@,
                Json::Text("step"@),
            ).insert("listeners"@, Json::Array(revision_texts(self.listeners@))).insert(
                "policy"@,
                match self.fault {
                    Some(policy) => policy.manifest(),
                    None => Json::Null,
                },
            ).insert("start"@, self.start.manifest()).insert("step"@, step),
        )
    }

    /// Declares one step node with default start controls, no fault policy and
    /// no listeners.
    pub fn new(id: NodeId, step_name: StepName, components: StepComponents) -> (r: Self)
        ensures
            r.id == id,
            r.step_name == step_name,
            r.components == components,
            r.start.start_limit@ == u32::MAX,
            !r.start.allow_start_if_complete,
            r.fault is None,
            r.listeners@.len() == 0,
    {
        StepNode {
            id,
            step_name,
            components,
            start: StartControls::default(),
            fault: None,
            listeners: Vec::new(),
        }
    }

    /// Declares explicit start controls.
    pub fn with_start_controls(self, start: StartControls) -> (r: Self)
        ensures
            r == (StepNode { start, ..self }),
    {
        let mut node: StepNode = self;
        node.start = start;
        node
    }

    /// Declares the fault policy this step's fingerprint captures.
    pub fn with_fault_policy(self, policy: FaultPolicy) -> (r: Self)
        ensures
            r == (StepNode { fault: Some(policy), ..self }),
    {
        let mut node: StepNode = self;
        node.fault = Some(policy);
        node
    }

    /// Declares one authoritative listener revision in registration order.
    pub fn with_listener_revision(self, revision: ComponentRevision) -> (r: Self)
        ensures
            r.listeners@ == self.listeners@.push(revision),
            r == (StepNode { listeners: r.listeners, ..self }),
    {
        let mut node: StepNode = self;
        node.listeners.push(revision);
        node
    }

    /// Borrows the stable node identifier.
    pub fn id(&self) -> (r: &NodeId)
        ensures
            *r == self.id,
    {
        &self.id
    }

    /// Borrows the durable step name.
    pub fn step_name(&self) -> (r: &StepName)
        ensures
            *r == self.step_name,
    {
        &self.step_name
    }

    /// Borrows the executable component declaration.
    pub fn components(&self) -> (r: &StepComponents)
        ensures
            *r == self.components,
    {
        &self.components
    }

    /// Returns the restart-relevant start controls.
    pub fn start_controls(&self) -> (r: StartControls)
        ensures
            r == self.start,
    {
        self.start
    }

    /// Borrows the declared fault policy.
    pub fn fault_policy(&self) -> (r: Option<&FaultPolicy>)
        ensures
            match r {
                Some(policy) => self.fault == Some(*policy),
                None => self.fault is None,
            },
    {
        match &self.fault {
            Some(policy) => Some(policy),
            None => None,
        }
    }

    /// Borrows the authoritative listener revisions in registration order.
    pub fn listener_revisions(&self) -> (r: &[ComponentRevision])
        ensures
            r@ == self.listeners@,
    {
        self.listeners.as_slice()
    }

    fn manifest_value(&self) -> (r: serde_json::Value)
        ensures
            json_content(r) == self.manifest(),
    {
        let mut listeners: Vec<serde_json::Value> = Vec::new();
        let mut i: usize = 0;
        while i < self.listeners.len()
            invariant
                i <= self.listeners.len(),
                json_contents(listeners@) =~= revision_texts(self.listeners@.take(i as int)),
            decreases self.listeners.len() - i,
        {
            let value: serde_json::Value = json_string(self.listeners[i].as_str());
            let ghost before = listeners@;
            listeners.push(value);
            proof {
                assert(json_contents(listeners@) =~= json_contents(before).push(
                    json_content(value),
                ));
                assert(revision_texts(self.listeners@.take(i + 1)) =~= revision_texts(
                    self.listeners@.take(i as int),
                ).push(Json::Text(self.listeners@[i as int]@)));
            }
            i = i + 1;
        }
        assert(self.listeners@.take(self.listeners@.len() as int) =~= self.listeners@);
        let mut step: serde_json::Value = json_object();
        json_insert(&mut step, "declaration", self.components.manifest_value());
        json_insert(&mut step, "kind", json_string(self.components.kind_name()));
        json_insert(&mut step, "name", json_string(self.step_name.as_str()));
        let mut members: serde_json::Value = json_object();
        json_insert(&mut members, "id", json_string(self.id.as_str()));
        json_insert(&mut members, "kind", json_string("step"));
        json_insert(&mut members, "listeners", json_array(listeners));
        match &self.fault {
            Some(policy) => json_insert(&mut members, "policy", fault_manifest_value(policy)),
            None => json_insert(&mut members, "policy", json_null()),
        }
        json_insert(&mut members, "start", self.start.manifest_value());
        json_insert(&mut members, "step", step);
        members
    }
}

/// One deterministic decision node of a compiled plan.
#[derive(Debug, PartialEq, Eq)]
pub struct DecisionNode {
    /// The stable node identifier.
    pub id: NodeId,
    /// The application-owned decider revision.
    pub revision: DeciderRevision,
    /// The durable input-contract version.
    pub input_version: DecisionInputVersion,
}

impl Clone for DecisionNode {
    fn clone(&self) -> (r: Self)
        ensures
            r == *self,
    {
        DecisionNode {
            id: self.id.clone(),
            revision: self.revision.clone(),
            input_version: self.input_version,
        }
    }
}

impl DecisionNode {
    /// What the node contributes to the manifest.
    pub open spec fn manifest(self) -> Json {
        let decision = Json::Object(
            Map::empty().insert(
                "input_version"@,
                Json::Unsigned(self.input_version@ as u64),
            ).insert("revision"@, Json::Text(self.revision@)),
        );
        Json::Object(
            Map::empty().insert("decision"@, decision).insert("id"@, Json::Text(self.id@)).insert(
                "kind"@,
                Json::Text("decision"@),
            ),
        )
    }

    /// Declares one decision node.
    pub fn new(id: NodeId, revision: DeciderRevision, input_version: DecisionInputVersion) -> (r:
        Self)
        ensures
            r == (DecisionNode { id, revision, input_version }),
    {
        DecisionNode { id, revision, input_version }
    }

    /// Borrows the stable node identifier.
    pub fn id(&self) -> (r: &NodeId)
        ensures
            *r == self.id,
    {
        &self.id
    }

    /// Borrows the application-owned decider revision.
    pub fn revision(&self) -> (r: &DeciderRevision)
        ensures
            *r == self.revision,
    {
        &self.revision
    }

    /// Returns the durable input-contract version.
    pub fn input_version(&self) -> (r: DecisionInputVersion)
        ensures
            r == self.input_version,
    {
        self.input_version
    }

    fn manifest_value(&self) -> (r: serde_json::Value)
        ensures
            json_content(r) == self.manifest(),
    {
        let mut decision: serde_json::Value = json_object();
        json_insert(
            &mut decision,
            "input_version",
            json_unsigned(self.input_version.get() as u64),
        );
        json_insert(&mut decision, "revision", json_string(self.revision.as_str()));
        let mut members: serde_json::Value = json_object();
        json_insert(&mut members, "decision", decision);
        json_insert(&mut members, "id", json_string(self.id.as_str()));
        json_insert(&mut members, "kind", json_string("decision"));
        members
    }
}

/// One node of a declared flow graph.
#[derive(Debug, PartialEq, Eq)]
#[non_exhaustive]
pub enum FlowNode {
    /// A tasklet or chunk step.
    Step(Box<StepNode>),
    /// A deterministic decision.
    Decision(DecisionNode),
}

impl Clone for FlowNode {
    fn clone(&self) -> (r: Self)
        ensures
            r.same(*self),
            r.name() == self.name(),
            r.manifest() == self.manifest(),
    {
        match self {
            FlowNode::Step(node) => {
                let copied: StepNode = (&**node).clone();
                FlowNode::Step(Box::new(copied))
            },
            FlowNode::Decision(node) => FlowNode::Decision(node.clone()),
        }
    }
}

impl FlowNode {
    /// The two nodes have the same content.
    pub open spec fn same(self, other: FlowNode) -> bool {
        match (self, other) {
            (FlowNode::Step(node), FlowNode::Step(known)) => node.same(*known),
            (FlowNode::Decision(node), FlowNode::Decision(known)) => node == known,
            _ => false,
        }
    }

    /// The node's stable identifier.
    pub open spec fn name(self) -> Seq<char> {
        match self {
            FlowNode::Step(node) => node.id@,
            FlowNode::Decision(node) => node.id@,
        }
    }

    /// What the node contributes to the manifest.
    pub open spec fn manifest(self) -> Json {
        match self {
            FlowNode::Step(node) => node.manifest(),
            FlowNode::Decision(node) => node.manifest(),
        }
    }

    /// Declares a step node.
    pub fn step(node: StepNode) -> (r: Self)
        ensures
            r == FlowNode::Step(Box::new(node)),
    {
        FlowNode::Step(Box::new(node))
    }

    /// Declares a decision node.
    pub fn decision(node: DecisionNode) -> (r: Self)
        ensures
            r == FlowNode::Decision(node),
    {
        FlowNode::Decision(node)
    }

    /// Borrows the node's stable identifier.
    pub fn id(&self) -> (r: &NodeId)
        ensures
            r@ == self.name(),
    {
        match self {
            FlowNode::Step(node) => node.id(),
            FlowNode::Decision(node) => node.id(),
        }
    }

    pub(crate) fn manifest_value(&self) -> (r: serde_json::Value)
        ensures
            json_content(r) == self.manifest(),
    {
        match self {
            FlowNode::Step(node) => node.manifest_value(),
            FlowNode::Decision(node) => node.manifest_value(),
        }
    }
}

/// One declared transition edge.
#[derive(Debug, PartialEq, Eq)]
pub struct FlowTransition {
    /// The source node identifier.
    pub source: NodeId,
    /// The selecting pattern.
    pub pattern: ExitPattern,
    /// The selected target.
    pub target: FlowTarget,
}

/// The content of a transition.
pub struct EdgeView {
    pub source: Seq<char>,
    pub pattern: Seq<char>,
    pub target: TargetView,
}

impl View for FlowTransition {
    type V = EdgeView;

    open spec fn view(&self) -> EdgeView {
        EdgeView { source: self.source@, pattern: self.pattern@, target: self.target@ }
    }
}

impl Clone for FlowTransition {
    fn clone(&self) -> (r: Self)
        ensures
            r == *self,
            r@ == self@,
    {
        FlowTransition {
            source: self.source.clone(),
            pattern: self.pattern.clone(),
            target: self.target.clone(),
        }
    }
}

impl EdgeView {
    /// What the transition contributes to the manifest.
    pub open spec fn manifest(self) -> Json {
        Json::Object(
            Map::empty().insert("pattern"@, Json::Text(self.pattern)).insert(
                "source"@,
                Json::Text(self.source),
            ).insert("target"@, self.target.manifest()),
        )
    }
}

impl FlowTransition {
    /// Declares one directed transition selected by an exit pattern.
    pub fn new(source: NodeId, pattern: ExitPattern, target: FlowTarget) -> (r: Self)
        ensures
            r == (FlowTransition { source, pattern, target }),
    {
        FlowTransition { source, pattern, target }
    }

    /// Borrows the source node identifier.
    pub fn source(&self) -> (r: &NodeId)
        ensures
            *r == self.source,
    {
        &self.source
    }

    /// Borrows the selecting pattern.
    pub fn pattern(&self) -> (r: &ExitPattern)
        ensures
            *r == self.pattern,
    {
        &self.pattern
    }

    /// Borrows the selected target.
    pub fn target(&self) -> (r: &FlowTarget)
        ensures
            *r == self.target,
    {
        &self.target
    }

    pub(crate) fn manifest_value(&self) -> (r: serde_json::Value)
        ensures
            json_content(r) == self@.manifest(),
    {
        let mut members: serde_json::Value = json_object();
        json_insert(&mut members, "pattern", json_string(self.pattern.as_str()));
        json_insert(&mut members, "source", json_string(self.source.as_str()));
        json_insert(&mut members, "target", self.target.manifest_value());
        members
    }
}

} // verus!
