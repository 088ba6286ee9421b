//! The text tokens that name nodes, jobs, steps, revisions, exit outcomes and
//! component streams. Each is a distinct type over one piece of text.

use crate::text::{copy_text, same_text};
use vstd::prelude::*;

verus! {

/// A stable logical identifier for one flow-graph node.
///
/// Logical identity survives display-name changes. Runtime and database
/// identifiers are never node identifiers.
#[derive(Debug, PartialEq, Eq, PartialOrd, Ord, Hash)]
pub struct NodeId {
    text: String,
}

impl View for NodeId {
    type V = Seq<char>;

    closed spec fn view(&self) -> Seq<char> {
        self.text@
    }
}

impl NodeId {
    /// Wraps the given text.
    pub fn new(value: &str) -> (r: Self)
        ensures
            r@ == value@,
    {
        NodeId { text: copy_text(value) }
    }

    /// Borrows the text.
    pub fn as_str(&self) -> (r: &str)
        ensures
            r@ == self@,
    {
        self.text.as_str()
    }

    /// Reports whether two tokens hold the same text.
    pub fn same(&self, other: &Self) -> (r: bool)
        ensures
            r == (self@ == other@),
    {
        same_text(self.as_str(), other.as_str())
    }
}

impl Clone for NodeId {
    fn clone(&self) -> (r: Self)
        ensures
            r@ == self@,
            r == *self,
    {
        NodeId { text: self.text.clone() }
    }
}

/// An application-owned revision token for one deterministic decider.
#[derive(Debug, PartialEq, Eq, PartialOrd, Ord, Hash)]
pub struct DeciderRevision {
    text: String,
}

impl View for DeciderRevision {
    type V = Seq<char>;

    closed spec fn view(&self) -> Seq<char> {
        self.text@
    }
}

impl DeciderRevision {
    /// Wraps the given text.
    pub fn new(value: &str) -> (r: Self)
        ensures
            r@ == value@,
    {
        DeciderRevision { text: copy_text(value) }
    }

    /// Borrows the text.
    pub fn as_str(&self) -> (r: &str)
        ensures
            r@ == self@,
    {
        self.text.as_str()
    }

    /// Reports whether two tokens hold the same text.
    pub fn same(&self, other: &Self) -> (r: bool)
        ensures
            r == (self@ == other@),
    {
        same_text(self.as_str(), other.as_str())
    }
}

impl Clone for DeciderRevision {
    fn clone(&self) -> (r: Self)
        ensures
            r@ == self@,
            r == *self,
    {
        DeciderRevision { text: self.text.clone() }
    }
}

/// The durable name of a job.
#[derive(Debug, PartialEq, Eq, PartialOrd, Ord, Hash)]
pub struct JobName {
    text: String,
}

impl View for JobName {
    type V = Seq<char>;

    closed spec fn view(&self) -> Seq<char> {
        self.text@
    }
}

impl JobName {
    /// Wraps the given text.
    pub fn new(value: &str) -> (r: Self)
        ensures
            r@ == value@,
    {
        JobName { text: copy_text(value) }
    }

    /// Borrows the text.
    pub fn as_str(&self) -> (r: &str)
        ensures
            r@ == self@,
    {
        self.text.as_str()
    }

    /// Reports whether two tokens hold the same text.
    pub fn same(&self, other: &Self) -> (r: bool)
        ensures
            r == (self@ == other@),
    {
        same_text(self.as_str(), other.as_str())
    }
}

impl Clone for JobName {
    fn clone(&self) -> (r: Self)
        ensures
            r@ == self@,
            r == *self,
    {
        JobName { text: self.text.clone() }
    }
}

/// The durable name of a step.
#[derive(Debug, PartialEq, Eq, PartialOrd, Ord, Hash)]
pub struct StepName {
    text: String,
}

impl View for StepName {
    type V = Seq<char>;

    closed spec fn view(&self) -> Seq<char> {
        self.text@
    }
}

impl StepName {
    /// Wraps the given text.
    pub fn new(value: &str) -> (r: Self)
        ensures
            r@ == value@,
    {
        StepName { text: copy_text(value) }
    }

    /// Borrows the text.
    pub fn as_str(&self) -> (r: &str)
        ensures
            r@ == self@,
    {
        self.text.as_str()
    }

    /// Reports whether two tokens hold the same text.
    pub fn same(&self, other: &Self) -> (r: bool)
        ensures
            r == (self@ == other@),
    {
        same_text(self.as_str(), other.as_str())
    }
}

impl Clone for StepName {
    fn clone(&self) -> (r: Self)
        ensures
            r@ == self@,
            r == *self,
    {
        StepName { text: self.text.clone() }
    }
}

/// An application-owned revision token for one component.
#[derive(Debug, PartialEq, Eq, PartialOrd, Ord, Hash)]
pub struct ComponentRevision {
    text: String,
}

impl View for ComponentRevision {
    type V = Seq<char>;

    closed spec fn view(&self) -> Seq<char> {
        self.text@
    }
}

impl ComponentRevision {
    /// Wraps the given text.
    pub fn new(value: &str) -> (r: Self)
        ensures
            r@ == value@,
    {
        ComponentRevision { text: copy_text(value) }
    }

    /// Borrows the text.
    pub fn as_str(&self) -> (r: &str)
        ensures
            r@ == self@,
    {
        self.text.as_str()
    }

    /// Reports whether two tokens hold the same text.
    pub fn same(&self, other: &Self) -> (r: bool)
        ensures
            r == (self@ == other@),
    {
        same_text(self.as_str(), other.as_str())
    }
}

impl Clone for ComponentRevision {
    fn clone(&self) -> (r: Self)
        ensures
            r@ == self@,
            r == *self,
    {
        ComponentRevision { text: self.text.clone() }
    }
}

/// An application-owned revision token for a whole definition.
#[derive(Debug, PartialEq, Eq, PartialOrd, Ord, Hash)]
pub struct DefinitionRevision {
    text: String,
}

impl View for DefinitionRevision {
    type V = Seq<char>;

    closed spec fn view(&self) -> Seq<char> {
        self.text@
    }
}

impl DefinitionRevision {
    /// Wraps the given text.
    pub fn new(value: &str) -> (r: Self)
        ensures
            r@ == value@,
    {
        DefinitionRevision { text: copy_text(value) }
    }

    /// Borrows the text.
    pub fn as_str(&self) -> (r: &str)
        ensures
            r@ == self@,
    {
        self.text.as_str()
    }

    /// Reports whether two tokens hold the same text.
    pub fn same(&self, other: &Self) -> (r: bool)
        ensures
            r == (self@ == other@),
    {
        same_text(self.as_str(), other.as_str())
    }
}

impl Clone for DefinitionRevision {
    fn clone(&self) -> (r: Self)
        ensures
            r@ == self@,
            r == *self,
    {
        DefinitionRevision { text: self.text.clone() }
    }
}

/// The exit outcome that a finished node reports.
#[derive(Debug, PartialEq, Eq, PartialOrd, Ord, Hash)]
pub struct ExitCode {
    text: String,
}

impl View for ExitCode {
    type V = Seq<char>;

    closed spec fn view(&self) -> Seq<char> {
        self.text@
    }
}

impl ExitCode {
    /// Wraps the given text.
    pub fn new(value: &str) -> (r: Self)
        ensures
            r@ == value@,
    {
        ExitCode { text: copy_text(value) }
    }

    /// Borrows the text.
    pub fn as_str(&self) -> (r: &str)
        ensures
            r@ == self@,
    {
        self.text.as_str()
    }

    /// Reports whether two tokens hold the same text.
    pub fn same(&self, other: &Self) -> (r: bool)
        ensures
            r == (self@ == other@),
    {
        same_text(self.as_str(), other.as_str())
    }
}

impl Clone for ExitCode {
    fn clone(&self) -> (r: Self)
        ensures
            r@ == self@,
            r == *self,
    {
        ExitCode { text: self.text.clone() }
    }
}

/// The namespace under which one component keeps its durable state.
#[derive(Debug, PartialEq, Eq, PartialOrd, Ord, Hash)]
pub struct ComponentStreamIdentity {
    text: String,
}

impl View for ComponentStreamIdentity {
    type V = Seq<char>;

    closed spec fn view(&self) -> Seq<char> {
        self.text@
    }
}

impl ComponentStreamIdentity {
    /// Wraps the given text.
    pub fn new(value: &str) -> (r: Self)
        ensures
            r@ == value@,
    {
        ComponentStreamIdentity { text: copy_text(value) }
    }

    /// Borrows the text.
    pub fn as_str(&self) -> (r: &str)
        ensures
            r@ == self@,
    {
        self.text.as_str()
    }

    /// Reports whether two tokens hold the same text.
    pub fn same(&self, other: &Self) -> (r: bool)
        ensures
            r == (self@ == other@),
    {
        same_text(self.as_str(), other.as_str())
    }
}

impl Clone for ComponentStreamIdentity {
    fn clone(&self) -> (r: Self)
        ensures
            r@ == self@,
            r == *self,
    {
        ComponentStreamIdentity { text: self.text.clone() }
    }
}

/// A token is its text: it is kept as given, and two tokens are the same exactly if
/// their texts are.
pub proof fn a_node_identifier_is_its_text(
    value: &str,
    token: NodeId,
    text: &str,
    other: &NodeId,
    same: bool,
)
    requires
        call_ensures(NodeId::new, (value,), token),
        call_ensures(NodeId::as_str, (&token,), text),
        call_ensures(NodeId::same, (&token, other), same),
    ensures
        text@ == value@,
        same <==> other@ == value@,
{
}

/// The same of [`DeciderRevision`].
pub proof fn a_decider_revision_is_its_text(
    value: &str,
    token: DeciderRevision,
    text: &str,
    other: &DeciderRevision,
    same: bool,
)
    requires
        call_ensures(DeciderRevision::new, (value,), token),
        call_ensures(DeciderRevision::as_str, (&token,), text),
        call_ensures(DeciderRevision::same, (&token, other), same),
    ensures
        text@ == value@,
        same <==> other@ == value@,
{
}

/// The same of [`JobName`].
pub proof fn a_job_name_is_its_text(
    value: &str,
    token: JobName,
    text: &str,
    other: &JobName,
    same: bool,
)
    requires
        call_ensures(JobName::new, (value,), token),
        call_ensures(JobName::as_str, (&token,), text),
        call_ensures(JobName::same, (&token, other), same),
    ensures
        text@ == value@,
        same <==> other@ == value@,
{
}

/// The same of [`StepName`].
pub proof fn a_step_name_is_its_text(
    value: &str,
    token: StepName,
    text: &str,
    other: &StepName,
    same: bool,
)
    requires
        call_ensures(StepName::new, (value,), token),
        call_ensures(StepName::as_str, (&token,), text),
        call_ensures(StepName::same, (&token, other), same),
    ensures
        text@ == value@,
        same <==> other@ == value@,
{
}

/// The same of [`ComponentRevision`].
pub proof fn a_component_revision_is_its_text(
    value: &str,
    token: ComponentRevision,
    text: &str,
    other: &ComponentRevision,
    same: bool,
)
    requires
        call_ensures(ComponentRevision::new, (value,), token),
        call_ensures(ComponentRevision::as_str, (&token,), text),
        call_ensures(ComponentRevision::same, (&token, other), same),
    ensures
        text@ == value@,
        same <==> other@ == value@,
{
}

/// The same of [`DefinitionRevision`].
pub proof fn a_definition_revision_is_its_text(
    value: &str,
    token: DefinitionRevision,
    text: &str,
    other: &DefinitionRevision,
    same: bool,
)
    requires
        call_ensures(DefinitionRevision::new, (value,), token),
        call_ensures(DefinitionRevision::as_str, (&token,), text),
        call_ensures(DefinitionRevision::same, (&token, other), same),
    ensures
        text@ == value@,
        same <==> other@ == value@,
{
}

/// The same of [`ExitCode`].
pub proof fn an_exit_code_is_its_text(
    value: &str,
    token: ExitCode,
    text: &str,
    other: &ExitCode,
    same: bool,
)
    requires
        call_ensures(ExitCode::new, (value,), token),
        call_ensures(ExitCode::as_str, (&token,), text),
        call_ensures(ExitCode::same, (&token, other), same),
    ensures
        text@ == value@,
        same <==> other@ == value@,
{
}

/// The same of [`ComponentStreamIdentity`].
pub proof fn a_stream_identity_is_its_text(
    value: &str,
    token: ComponentStreamIdentity,
    text: &str,
    other: &ComponentStreamIdentity,
    same: bool,
)
    requires
        call_ensures(ComponentStreamIdentity::new, (value,), token),
        call_ensures(ComponentStreamIdentity::as_str, (&token,), text),
        call_ensures(ComponentStreamIdentity::same, (&token, other), same),
    ensures
        text@ == value@,
        same <==> other@ == value@,
{
}

} // verus!
