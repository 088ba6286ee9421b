//! Object keys, version tokens, metadata and failures.

use crate::runtime::FailureCategory;
use crate::text::{
    byte_len, concat3, contains_control, copy_text, decimal, decimal_text, has_control, same_text,
};
use vstd::prelude::*;
use vstd::utf8::{encode_scalar, encode_utf8};

verus! {

/// The largest accepted number of UTF-8 bytes in an object key.
pub const MAX_OBJECT_KEY_BYTES: usize = 1024;

/// A validation failure building an [`ObjectIdentity`].
#[derive(Clone, Copy, Debug, PartialEq, Eq, Structural)]
#[non_exhaustive]
pub enum ObjectStoreConfigError {
    /// An object key was empty.
    EmptyKey,
    /// An object key exceeded its UTF-8 byte limit.
    KeyTooLong {
        /// Maximum accepted UTF-8 bytes.
        max_bytes: usize,
    },
    /// An object key contained a control character.
    MalformedKey,
}

impl ObjectStoreConfigError {
    /// The displayed text.
    pub open spec fn text(self) -> Seq<char> {
        match self {
            ObjectStoreConfigError::EmptyKey => "object key must not be empty"@,
            ObjectStoreConfigError::KeyTooLong { max_bytes } => {
                "object key exceeds "@ + decimal(max_bytes as nat) + " UTF-8 bytes"@
            },
            ObjectStoreConfigError::MalformedKey => "object key contains a control character"@,
        }
    }

    /// The displayed text.
    pub fn to_text(&self) -> (r: String)
        ensures
            r@ == self.text(),
    {
        match self {
            ObjectStoreConfigError::EmptyKey => copy_text("object key must not be empty"),
            ObjectStoreConfigError::KeyTooLong { max_bytes } => {
                concat3(
                    "object key exceeds ",
                    decimal_text(*max_bytes as u64).as_str(),
                    " UTF-8 bytes",
                )
            },
            ObjectStoreConfigError::MalformedKey => copy_text(
                "object key contains a control character",
            ),
        }
    }
}

/// What a key is rejected for, if it is.
pub open spec fn key_fault(key: Seq<char>) -> Option<ObjectStoreConfigError> {
    if key.len() == 0 {
        Some(ObjectStoreConfigError::EmptyKey)
    } else if encode_utf8(key).len() > MAX_OBJECT_KEY_BYTES {
        Some(ObjectStoreConfigError::KeyTooLong { max_bytes: MAX_OBJECT_KEY_BYTES })
    } else if has_control(key) {
        Some(ObjectStoreConfigError::MalformedKey)
    } else {
        None
    }
}

/// A stable object key (including any bucket/container prefix the caller chooses
/// to encode into it).
#[derive(Debug, PartialEq, Eq, PartialOrd, Ord, Hash)]
pub struct ObjectIdentity {
    key: String,
}

impl View for ObjectIdentity {
    type V = Seq<char>;

    closed spec fn view(&self) -> Seq<char> {
        self.key@
    }
}

impl ObjectIdentity {
    #[verifier::type_invariant]
    spec fn well_formed(self) -> bool {
        key_fault(self.key@) is None
    }

    /// Validates a stable object key: it must not be empty, longer than 1024
    /// UTF-8 bytes, or hold a control character.
    pub fn new(key: &str) -> (r: Result<Self, ObjectStoreConfigError>)
        ensures
            match r {
                Ok(identity) => key_fault(key@) is None && identity@ == key@,
                Err(error) => key_fault(key@) == Some(error),
            },
    {
        let length: usize = byte_len(key);
        proof {
            assert(length == 0 ==> key@.len() == 0) by {
                if key@.len() > 0 {
                    assert(encode_scalar(key@[0] as u32).len() > 0);
                }
            }
        }
        if length == 0 {
            return Err(ObjectStoreConfigError::EmptyKey);
        }
        if length > MAX_OBJECT_KEY_BYTES {
            return Err(ObjectStoreConfigError::KeyTooLong { max_bytes: MAX_OBJECT_KEY_BYTES });
        }
        if contains_control(key) {
            return Err(ObjectStoreConfigError::MalformedKey);
        }
        Ok(ObjectIdentity { key: copy_text(key) })
    }

    /// Borrows the validated key.
    pub fn as_str(&self) -> (r: &str)
        ensures
            r@ == self@,
            key_fault(r@) is None,
    {
        proof {
            use_type_invariant(self);
        }
        self.key.as_str()
    }
}

impl Clone for ObjectIdentity {
    fn clone(&self) -> (r: Self)
        ensures
            r == *self,
            r@ == self@,
    {
        proof {
            use_type_invariant(self);
        }
        ObjectIdentity { key: self.key.clone() }
    }
}

/// An opaque, provider-supplied stable version token (`ETag`, version ID,
/// generation, ...).
///
/// A backend without a stable per-object version identity cannot construct one
/// honestly; [`ObjectMetadata::version_token`] is `None` in that case.
#[derive(Debug, PartialEq, Eq, Hash)]
pub struct ObjectVersionToken {
    token: String,
}

impl View for ObjectVersionToken {
    type V = Seq<char>;

    closed spec fn view(&self) -> Seq<char> {
        self.token@
    }
}

impl ObjectVersionToken {
    /// Wraps an opaque, backend-supplied version token.
    pub fn new(token: &str) -> (r: Self)
        ensures
            r@ == token@,
    {
        ObjectVersionToken { token: copy_text(token) }
    }

    /// Borrows the opaque token.
    pub fn as_str(&self) -> (r: &str)
        ensures
            r@ == self@,
    {
        self.token.as_str()
    }

    /// Reports whether two tokens are the same.
    pub fn same(&self, other: &Self) -> (r: bool)
        ensures
            r == (self@ == other@),
    {
        same_text(self.as_str(), other.as_str())
    }
}

impl Clone for ObjectVersionToken {
    fn clone(&self) -> (r: Self)
        ensures
            r == *self,
            r@ == self@,
    {
        ObjectVersionToken { token: self.token.clone() }
    }
}

/// An optional token by its text.
pub open spec fn token_text(token: Option<ObjectVersionToken>) -> Option<Seq<char>> {
    match token {
        Some(token) => Some(token@),
        None => None,
    }
}

/// Copies an optional token.
pub fn copy_token(token: &Option<ObjectVersionToken>) -> (r: Option<ObjectVersionToken>)
    ensures
        token_text(r) == token_text(*token),
{
    match token {
        Some(token) => Some(token.clone()),
        None => None,
    }
}

/// Metadata for one object.
#[derive(Debug, PartialEq, Eq)]
pub struct ObjectMetadata {
    size: u64,
    version_token: Option<ObjectVersionToken>,
}

impl ObjectMetadata {
    /// The size in bytes.
    pub closed spec fn size_view(&self) -> u64 {
        self.size
    }

    /// The version token.
    pub closed spec fn token_view(&self) -> Option<Seq<char>> {
        token_text(self.version_token)
    }

    /// Constructs object metadata.
    pub fn new(size: u64, version_token: Option<ObjectVersionToken>) -> (r: Self)
        ensures
            r.size_view() == size,
            r.token_view() == token_text(version_token),
    {
        ObjectMetadata { size, version_token }
    }

    /// Returns the object's size in bytes.
    pub fn size(&self) -> (r: u64)
        ensures
            r == self.size_view(),
    {
        self.size
    }

    /// Borrows the object's stable version token, when the backend supplies one.
    pub fn version_token(&self) -> (r: Option<&ObjectVersionToken>)
        ensures
            match r {
                Some(token) => self.token_view() == Some(token@),
                None => self.token_view() is None,
            },
    {
        match &self.version_token {
            Some(token) => Some(token),
            None => None,
        }
    }

    /// A copy of the version token.
    pub fn copied_token(&self) -> (r: Option<ObjectVersionToken>)
        ensures
            token_text(r) == self.token_view(),
    {
        copy_token(&self.version_token)
    }
}

impl Clone for ObjectMetadata {
    fn clone(&self) -> (r: Self)
        ensures
            r.size_view() == self.size_view(),
            r.token_view() == self.token_view(),
    {
        ObjectMetadata { size: self.size, version_token: copy_token(&self.version_token) }
    }
}

/// A redacted object-store failure: a stable category, never the underlying
/// provider error's payload or message.
#[derive(Clone, Copy, Debug, PartialEq, Eq, Structural)]
pub struct ObjectStoreError {
    /// The stable category.
    pub category: FailureCategory,
}

impl ObjectStoreError {
    /// Constructs a value-redacted user-component failure.
    pub fn new() -> (r: Self)
        ensures
            r.category == FailureCategory::UserComponent,
    {
        ObjectStoreError { category: FailureCategory::UserComponent }
    }

    /// Constructs a failure that declares its own stable category.
    pub fn with_category(category: FailureCategory) -> (r: Self)
        ensures
            r.category == category,
    {
        ObjectStoreError { category }
    }

    /// Returns the stable category.
    pub fn category(self) -> (r: FailureCategory)
        ensures
            r == self.category,
    {
        self.category
    }

    /// The displayed text.
    pub fn to_text(&self) -> (r: String)
        ensures
            r@ == "object store operation failed"@,
    {
        copy_text("object store operation failed")
    }
}

impl Default for ObjectStoreError {
    fn default() -> (r: Self)
        ensures
            r.category == FailureCategory::UserComponent,
    {
        Self::new()
    }
}

/// A key is refused exactly if it is empty, has more than 1024 bytes, or holds a
/// control character, and is kept as it is otherwise.
pub proof fn object_keys_are_bounded(key: &str, r: Result<ObjectIdentity, ObjectStoreConfigError>)
    requires
        call_ensures(ObjectIdentity::new, (key,), r),
    ensures
        r is Ok <==> 0 < key@.len() && encode_utf8(key@).len() <= 1024 && !has_control(key@),
        r matches Ok(identity) ==> identity@ == key@,
        key@.len() == 0 ==> r->Err_0 == ObjectStoreConfigError::EmptyKey,
        key@.len() > 0 && encode_utf8(key@).len() > 1024 ==> r->Err_0 == (
        ObjectStoreConfigError::KeyTooLong { max_bytes: 1024 }),
        key@.len() > 0 && encode_utf8(key@).len() <= 1024 && has_control(key@) ==> r->Err_0
            == ObjectStoreConfigError::MalformedKey,
{
}

/// Metadata gives back the size and the token that it was made with.
pub proof fn metadata_gives_back_what_it_holds(
    size: u64,
    token: Option<ObjectVersionToken>,
    metadata: ObjectMetadata,
    r: u64,
    borrowed: Option<&ObjectVersionToken>,
    copied: Option<ObjectVersionToken>,
)
    requires
        call_ensures(ObjectMetadata::new, (size, token), metadata),
        call_ensures(ObjectMetadata::size, (&metadata,), r),
        call_ensures(ObjectMetadata::version_token, (&metadata,), borrowed),
        call_ensures(ObjectMetadata::copied_token, (&metadata,), copied),
    ensures
        r == size,
        token is Some <==> borrowed is Some,
        token is Some <==> copied is Some,
        token is Some ==> borrowed->0@ == token->0@ && copied->0@ == token->0@,
{
}

/// What each refused key says.
pub proof fn refused_keys_say_this(error: &ObjectStoreConfigError, r: String)
    requires
        call_ensures(ObjectStoreConfigError::to_text, (error,), r),
    ensures
        error is EmptyKey ==> r@ == "object key must not be empty"@,
        error matches ObjectStoreConfigError::KeyTooLong { max_bytes } ==> r@
            == "object key exceeds "@ + decimal(*max_bytes as nat) + " UTF-8 bytes"@,
        error is MalformedKey ==> r@ == "object key contains a control character"@,
{
}

} // verus!
