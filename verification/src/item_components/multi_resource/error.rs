//! Failures opening one resource of a set.

use crate::runtime::FailureCategory;
use crate::text::{concat2, copy_text, decimal, decimal_text};
use vstd::prelude::*;

verus! {

/// A redacted failure opening one resource by ordinal.
///
/// Carries only the resource's ordinal position and a stable
/// [`FailureCategory`], never the underlying I/O error's payload, path, or
/// message.
#[derive(Clone, Copy, Debug, PartialEq, Eq, Structural)]
pub struct MultiResourceOpenError {
    resource_ordinal: u32,
    category: FailureCategory,
}

impl MultiResourceOpenError {
    /// The ordinal of the resource that failed to open.
    pub closed spec fn ordinal_view(self) -> u32 {
        self.resource_ordinal
    }

    /// The stable category.
    pub closed spec fn category_view(self) -> FailureCategory {
        self.category
    }

    /// Constructs a value-redacted user-component open failure for the resource
    /// at `resource_ordinal`.
    pub fn new(resource_ordinal: u32) -> (r: Self)
        ensures
            r.ordinal_view() == resource_ordinal,
            r.category_view() == FailureCategory::UserComponent,
    {
        MultiResourceOpenError { resource_ordinal, category: FailureCategory::UserComponent }
    }

    /// Constructs an open failure that declares its own stable category.
    pub fn with_category(resource_ordinal: u32, category: FailureCategory) -> (r: Self)
        ensures
            r.ordinal_view() == resource_ordinal,
            r.category_view() == category,
    {
        MultiResourceOpenError { resource_ordinal, category }
    }

    /// Returns the zero-based ordinal of the resource that failed to open.
    pub fn resource_ordinal(self) -> (r: u32)
        ensures
            r == self.ordinal_view(),
    {
        self.resource_ordinal
    }

    /// Returns the stable category supplied by the opener.
    pub fn category(self) -> (r: FailureCategory)
        ensures
            r == self.category_view(),
    {
        self.category
    }

    /// The displayed text.
    pub fn to_text(&self) -> (r: String)
        ensures
            r@ == "multi-resource open failed at resource ordinal "@ + decimal(
                self.ordinal_view() as nat,
            ),
    {
        concat2(
            "multi-resource open failed at resource ordinal ",
            decimal_text(self.resource_ordinal as u64).as_str(),
        )
    }
}

/// A validation failure building a multi-resource writer.
#[derive(Clone, Copy, Debug, PartialEq, Eq, Structural)]
#[non_exhaustive]
pub enum WriterConfigError {
    /// A multi-resource writer requires at least one output resource.
    EmptyResourceSet,
}

impl WriterConfigError {
    /// The displayed text.
    pub fn to_text(&self) -> (r: String)
        ensures
            r@ == "multi-resource writer requires a nonempty resource set"@,
    {
        copy_text("multi-resource writer requires a nonempty resource set")
    }
}

/// An open failure names its resource and keeps its category.
pub proof fn an_open_failure_names_its_resource(
    ordinal: u32,
    category: FailureCategory,
    plain: MultiResourceOpenError,
    declared: MultiResourceOpenError,
    r: u32,
    kept: FailureCategory,
)
    requires
        call_ensures(MultiResourceOpenError::new, (ordinal,), plain),
        call_ensures(MultiResourceOpenError::with_category, (ordinal, category), declared),
        call_ensures(MultiResourceOpenError::resource_ordinal, (declared,), r),
        call_ensures(MultiResourceOpenError::category, (declared,), kept),
    ensures
        r == ordinal,
        kept == category,
        plain.ordinal_view() == ordinal,
        plain.category_view() == FailureCategory::UserComponent,
{
}

/// What each failure says.
pub proof fn resource_failures_say_this(
    error: &MultiResourceOpenError,
    r: String,
    config: &WriterConfigError,
    c: String,
)
    requires
        call_ensures(MultiResourceOpenError::to_text, (error,), r),
        call_ensures(WriterConfigError::to_text, (config,), c),
    ensures
        r@ == "multi-resource open failed at resource ordinal "@ + decimal(
            error.ordinal_view() as nat,
        ),
        c@ == "multi-resource writer requires a nonempty resource set"@,
{
}

} // verus!
