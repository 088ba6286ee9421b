//! Why a flow graph cannot be compiled, and why an outcome cannot be routed.

use crate::plan::pattern::ExitPattern;
use crate::text::{concat3, copy_text, decimal, decimal_text};
use crate::tokens::{ExitCode, NodeId};
use vstd::prelude::*;
use vstd::string::*;

verus! {

/// A definition token or manifest that the definition layer rejected.
#[derive(Clone, Debug, PartialEq, Eq)]
pub struct DefinitionError {
    /// The definition layer's own description.
    pub message: String,
}

/// A flow graph that cannot be compiled into an executable plan.
#[derive(Clone, Debug, PartialEq, Eq)]
#[non_exhaustive]
pub enum PlanError {
    /// No entry node was declared.
    MissingEntryNode,
    /// Two nodes declared the same logical identifier.
    DuplicateNodeId {
        /// Repeated identifier.
        node: NodeId,
    },
    /// A transition referenced a node the graph does not declare.
    UndefinedNode {
        /// Missing identifier.
        node: NodeId,
    },
    /// A node declared no outgoing transition.
    MissingTransition {
        /// Identifier of the node without a transition.
        node: NodeId,
    },
    /// Two equally specific patterns can match one exit outcome.
    AmbiguousTransition {
        /// Identifier of the node with the ambiguity.
        node: NodeId,
        /// First conflicting pattern.
        first: ExitPattern,
        /// Second conflicting pattern.
        second: ExitPattern,
    },
    /// A node cannot be reached from the entry node.
    UnreachableNode {
        /// Unreachable identifier.
        node: NodeId,
    },
    /// The graph contains a cycle.
    CyclicGraph {
        /// Identifier revisited on one path.
        node: NodeId,
    },
    /// The graph declared more nodes than a plan accepts.
    TooManyNodes {
        /// Maximum accepted node count.
        max: usize,
    },
    /// The graph declared more transitions than a plan accepts.
    TooManyTransitions {
        /// Maximum accepted transition count.
        max: usize,
    },
    /// One node declared more outgoing transitions than a plan accepts.
    TooManyOutgoingTransitions {
        /// Identifier of the node with too many transitions.
        node: NodeId,
        /// Maximum accepted outgoing transition count.
        max: usize,
    },
    /// An exit pattern violated its bounded format.
    InvalidPattern {
        /// Maximum accepted pattern length in UTF-8 bytes.
        max_bytes: usize,
    },
    /// A start limit of zero can never start its step.
    ZeroStartLimit,
    /// A decision input-contract version of zero is not a version.
    ZeroDecisionInputVersion,
    /// A logical identifier or revision token was invalid.
    Token(DefinitionError),
    /// The canonical manifest could not be encoded.
    Manifest(DefinitionError),
}

/// The content of a [`PlanError`].
pub enum PlanErrorView {
    MissingEntryNode,
    DuplicateNodeId(Seq<char>),
    UndefinedNode(Seq<char>),
    MissingTransition(Seq<char>),
    AmbiguousTransition(Seq<char>, Seq<char>, Seq<char>),
    UnreachableNode(Seq<char>),
    CyclicGraph(Seq<char>),
    TooManyNodes(nat),
    TooManyTransitions(nat),
    TooManyOutgoingTransitions(Seq<char>, nat),
    InvalidPattern(nat),
    ZeroStartLimit,
    ZeroDecisionInputVersion,
    Token(Seq<char>),
    Manifest(Seq<char>),
}

impl View for PlanError {
    type V = PlanErrorView;

    open spec fn view(&self) -> PlanErrorView {
        match self {
            PlanError::MissingEntryNode => PlanErrorView::MissingEntryNode,
            PlanError::DuplicateNodeId { node } => PlanErrorView::DuplicateNodeId(node@),
            PlanError::UndefinedNode { node } => PlanErrorView::UndefinedNode(node@),
            PlanError::MissingTransition { node } => PlanErrorView::MissingTransition(node@),
            PlanError::AmbiguousTransition { node, first, second } =>
                PlanErrorView::AmbiguousTransition(node@, first@, second@),
            PlanError::UnreachableNode { node } => PlanErrorView::UnreachableNode(node@),
            PlanError::CyclicGraph { node } => PlanErrorView::CyclicGraph(node@),
            PlanError::TooManyNodes { max } => PlanErrorView::TooManyNodes(*max as nat),
            PlanError::TooManyTransitions { max } => PlanErrorView::TooManyTransitions(
                *max as nat,
            ),
            PlanError::TooManyOutgoingTransitions { node, max } =>
                PlanErrorView::TooManyOutgoingTransitions(node@, *max as nat),
            PlanError::InvalidPattern { max_bytes } => PlanErrorView::InvalidPattern(
                *max_bytes as nat,
            ),
            PlanError::ZeroStartLimit => PlanErrorView::ZeroStartLimit,
            PlanError::ZeroDecisionInputVersion => PlanErrorView::ZeroDecisionInputVersion,
            PlanError::Token(error) => PlanErrorView::Token(error.message@),
            PlanError::Manifest(error) => PlanErrorView::Manifest(error.message@),
        }
    }
}

impl PlanErrorView {
    /// The displayed text.
    pub open spec fn text(self) -> Seq<char> {
        match self {
            PlanErrorView::MissingEntryNode => "flow graph has no entry node"@,
            PlanErrorView::DuplicateNodeId(node) => "node "@ + node
                + " is declared more than once"@,
            PlanErrorView::UndefinedNode(node) => "node "@ + node + " is not declared"@,
            PlanErrorView::MissingTransition(node) => "node "@ + node
                + " has no outgoing transition"@,
            PlanErrorView::AmbiguousTransition(node, first, second) => "node "@ + node
                + " patterns "@ + first + " and "@ + second
                + " are equally specific and overlap"@,
            PlanErrorView::UnreachableNode(node) => "node "@ + node
                + " is unreachable from the entry node"@,
            PlanErrorView::CyclicGraph(node) => "node "@ + node + " closes a cycle"@,
            PlanErrorView::TooManyNodes(max) => "flow graph exceeds "@ + decimal(max)
                + " nodes"@,
            PlanErrorView::TooManyTransitions(max) => "flow graph exceeds "@ + decimal(max)
                + " transitions"@,
            PlanErrorView::TooManyOutgoingTransitions(node, max) => "node "@ + node
                + " exceeds "@ + decimal(max) + " outgoing transitions"@,
            PlanErrorView::InvalidPattern(max) => "exit pattern must be 1 to "@ + decimal(max)
                + " bytes without control characters"@,
            PlanErrorView::ZeroStartLimit => "start limit must be nonzero"@,
            PlanErrorView::ZeroDecisionInputVersion =>
                "decision input version must be nonzero"@,
            PlanErrorView::Token(error) => "flow graph token is invalid: "@ + error,
            PlanErrorView::Manifest(error) => "flow manifest could not be encoded: "@ + error,
        }
    }
}

impl PlanError {
    /// The displayed text.
    pub fn to_text(&self) -> (r: String)
        ensures
            r@ == self@.text(),
    {
        match self {
            PlanError::MissingEntryNode => copy_text("flow graph has no entry node"),
            PlanError::DuplicateNodeId { node } => concat3(
                "node ",
                node.as_str(),
                " is declared more than once",
            ),
            PlanError::UndefinedNode { node } => concat3(
                "node ",
                node.as_str(),
                " is not declared",
            ),
            PlanError::MissingTransition { node } => concat3(
                "node ",
                node.as_str(),
                " has no outgoing transition",
            ),
            PlanError::AmbiguousTransition { node, first, second } => {
                let mut out: String = concat3("node ", node.as_str(), " patterns ");
                out.append(first.as_str());
                out.append(" and ");
                out.append(second.as_str());
                out.append(" are equally specific and overlap");
                out
            },
            PlanError::UnreachableNode { node } => concat3(
                "node ",
                node.as_str(),
                " is unreachable from the entry node",
            ),
            PlanError::CyclicGraph { node } => concat3("node ", node.as_str(), " closes a cycle"),
            PlanError::TooManyNodes { max } => concat3(
                "flow graph exceeds ",
                decimal_text(*max as u64).as_str(),
                " nodes",
            ),
            PlanError::TooManyTransitions { max } => concat3(
                "flow graph exceeds ",
                decimal_text(*max as u64).as_str(),
                " transitions",
            ),
            PlanError::TooManyOutgoingTransitions { node, max } => {
                let mut out: String = concat3("node ", node.as_str(), " exceeds ");
                out.append(decimal_text(*max as u64).as_str());
                out.append(" outgoing transitions");
                out
            },
            PlanError::InvalidPattern { max_bytes } => concat3(
                "exit pattern must be 1 to ",
                decimal_text(*max_bytes as u64).as_str(),
                " bytes without control characters",
            ),
            PlanError::ZeroStartLimit => copy_text("start limit must be nonzero"),
            PlanError::ZeroDecisionInputVersion => copy_text(
                "decision input version must be nonzero",
            ),
            PlanError::Token(error) => {
                let mut out: String = copy_text("flow graph token is invalid: ");
                out.append(error.message.as_str());
                out
            },
            PlanError::Manifest(error) => {
                let mut out: String = copy_text("flow manifest could not be encoded: ");
                out.append(error.message.as_str());
                out
            },
        }
    }
}

impl From<DefinitionError> for PlanError {
    fn from(error: DefinitionError) -> (r: Self) {
        PlanError::Token(error)
    }
}

impl vstd::std_specs::convert::FromSpecImpl<DefinitionError> for PlanError {
    open spec fn obeys_from_spec() -> bool {
        true
    }

    open spec fn from_spec(error: DefinitionError) -> Self {
        PlanError::Token(error)
    }
}

/// A compiled plan that cannot route one observed exit outcome.
#[derive(Clone, Debug, PartialEq, Eq)]
#[non_exhaustive]
pub enum FlowSelectionError {
    /// The requested node is not part of this plan.
    UnknownNode {
        /// Requested identifier.
        node: NodeId,
    },
    /// No declared pattern matches the produced exit outcome.
    UnmappedExitOutcome {
        /// Node whose outcome could not be routed.
        node: NodeId,
        /// Produced exit code.
        code: ExitCode,
    },
}

impl FlowSelectionError {
    /// The displayed text.
    pub open spec fn text(self) -> Seq<char> {
        match self {
            FlowSelectionError::UnknownNode { node } => "node "@ + node@
                + " is not part of the compiled plan"@,
            FlowSelectionError::UnmappedExitOutcome { node, code } => "node "@ + node@
                + " declares no transition for exit outcome "@ + code@,
        }
    }

    /// The displayed text.
    pub fn to_text(&self) -> (r: String)
        ensures
            r@ == self.text(),
    {
        match self {
            FlowSelectionError::UnknownNode { node } => concat3(
                "node ",
                node.as_str(),
                " is not part of the compiled plan",
            ),
            FlowSelectionError::UnmappedExitOutcome { node, code } => {
                let mut out: String = concat3(
                    "node ",
                    node.as_str(),
                    " declares no transition for exit outcome ",
                );
                out.append(code.as_str());
                out
            },
        }
    }
}

/// What each plan error says: the fault, and the node, patterns or limit that it is
/// about.
pub proof fn plan_errors_say_this(error: &PlanError, r: String)
    requires
        call_ensures(PlanError::to_text, (error,), r),
    ensures
        error is MissingEntryNode ==> r@ == "flow graph has no entry node"@,
        error matches PlanError::DuplicateNodeId { node } ==> r@ == "node "@ + node@
            + " is declared more than once"@,
        error matches PlanError::UndefinedNode { node } ==> r@ == "node "@ + node@
            + " is not declared"@,
        error matches PlanError::MissingTransition { node } ==> r@ == "node "@ + node@
            + " has no outgoing transition"@,
        error matches PlanError::AmbiguousTransition { node, first, second } ==> r@ == "node "@
            + node@ + " patterns "@ + first@ + " and "@ + second@
            + " are equally specific and overlap"@,
        error matches PlanError::UnreachableNode { node } ==> r@ == "node "@ + node@
            + " is unreachable from the entry node"@,
        error matches PlanError::CyclicGraph { node } ==> r@ == "node "@ + node@
            + " closes a cycle"@,
        error matches PlanError::TooManyNodes { max } ==> r@ == "flow graph exceeds "@ + decimal(
            *max as nat,
        ) + " nodes"@,
        error matches PlanError::TooManyTransitions { max } ==> r@ == "flow graph exceeds "@
            + decimal(*max as nat) + " transitions"@,
        error matches PlanError::TooManyOutgoingTransitions { node, max } ==> r@ == "node "@ + node@
            + " exceeds "@ + decimal(*max as nat) + " outgoing transitions"@,
        error matches PlanError::InvalidPattern { max_bytes } ==> r@
            == "exit pattern must be 1 to "@
            + decimal(*max_bytes as nat) + " bytes without control characters"@,
        error is ZeroStartLimit ==> r@ == "start limit must be nonzero"@,
        error is ZeroDecisionInputVersion ==> r@ == "decision input version must be nonzero"@,
        error matches PlanError::Token(cause) ==> r@ == "flow graph token is invalid: "@
            + cause.message@,
        error matches PlanError::Manifest(cause) ==> r@ == "flow manifest could not be encoded: "@
            + cause.message@,
{
}

/// What each routing error says.
pub proof fn routing_errors_say_this(error: &FlowSelectionError, r: String)
    requires
        call_ensures(FlowSelectionError::to_text, (error,), r),
    ensures
        error matches FlowSelectionError::UnknownNode { node } ==> r@ == "node "@ + node@
            + " is not part of the compiled plan"@,
        error matches FlowSelectionError::UnmappedExitOutcome { node, code } ==> r@ == "node "@
            + node@ + " declares no transition for exit outcome "@ + code@,
{
}

} // verus!
