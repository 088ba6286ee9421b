//! Resource identities and the fingerprint of an ordered resource set.

use crate::digest::{sha256, sha256_digest};
use crate::hex::{hex_bytes, hex_decode, hex_encode, hex_round_trip, hex_text, is_hex, to_array_32};
use crate::text::{
    append_bytes, byte_len, concat3, contains_control, copy_text, decimal, decimal_text, encoding_injective,
    has_control, is_control_char, same_bytes,
};
use vstd::array::array_as_slice;
use vstd::prelude::*;
use vstd::utf8::*;

verus! {

/// The largest accepted number of UTF-8 bytes in a resource identity.
pub const MAX_RESOURCE_IDENTITY_BYTES: usize = 1024;

/// A validation failure building a [`ResourceIdentity`] or [`ResourceSet`].
#[derive(Clone, Copy, Debug, PartialEq, Eq, Structural)]
#[non_exhaustive]
pub enum MultiResourceConfigError {
    /// A resource identity was empty.
    EmptyResourceIdentity,
    /// A resource identity exceeded its UTF-8 byte limit.
    ResourceIdentityTooLong {
        /// Maximum accepted UTF-8 bytes.
        max_bytes: usize,
    },
    /// A resource identity contained a control character.
    MalformedResourceIdentity,
}

impl MultiResourceConfigError {
    /// The displayed text.
    pub open spec fn text(self) -> Seq<char> {
        match self {
            MultiResourceConfigError::EmptyResourceIdentity => {
                "resource identity must not be empty"@
            },
            MultiResourceConfigError::ResourceIdentityTooLong { max_bytes } => {
                "resource identity exceeds "@ + decimal(max_bytes as nat) + " UTF-8 bytes"@
            },
            MultiResourceConfigError::MalformedResourceIdentity => {
                "resource identity contains a control character"@
            },
        }
    }

    /// The displayed text.
    pub fn to_text(&self) -> (r: String)
        ensures
            r@ == self.text(),
    {
        match self {
            MultiResourceConfigError::EmptyResourceIdentity => {
                copy_text("resource identity must not be empty")
            },
            MultiResourceConfigError::ResourceIdentityTooLong { max_bytes } => {
                concat3(
                    "resource identity exceeds ",
                    decimal_text(*max_bytes as u64).as_str(),
                    " UTF-8 bytes",
                )
            },
            MultiResourceConfigError::MalformedResourceIdentity => {
                copy_text("resource identity contains a control character")
            },
        }
    }
}

/// A stable, caller-declared identity for one physical resource within an
/// ordered resource set.
///
/// Never derive this from filesystem iteration order, an object-store listing's
/// provider-dependent order, or any other runtime-unstable source: supply these
/// in the exact logical order the resource set represents.
#[derive(Debug, PartialEq, Eq, PartialOrd, Ord, Hash)]
pub struct ResourceIdentity {
    text: String,
}

impl View for ResourceIdentity {
    type V = Seq<char>;

    closed spec fn view(&self) -> Seq<char> {
        self.text@
    }
}

/// What an identity text is rejected for, if it is.
pub open spec fn identity_fault(value: Seq<char>) -> Option<MultiResourceConfigError> {
    if value.len() == 0 {
        Some(MultiResourceConfigError::EmptyResourceIdentity)
    } else if encode_utf8(value).len() > MAX_RESOURCE_IDENTITY_BYTES {
        Some(
            MultiResourceConfigError::ResourceIdentityTooLong {
                max_bytes: MAX_RESOURCE_IDENTITY_BYTES,
            },
        )
    } else if has_control(value) {
        Some(MultiResourceConfigError::MalformedResourceIdentity)
    } else {
        None
    }
}

impl ResourceIdentity {
    #[verifier::type_invariant]
    spec fn well_formed(self) -> bool {
        identity_fault(self.text@) is None
    }

    /// Validates a stable resource identity: it must not be empty, longer than
    /// 1024 UTF-8 bytes, or hold a control character.
    pub fn new(value: &str) -> (r: Result<Self, MultiResourceConfigError>)
        ensures
            match r {
                Ok(identity) => identity_fault(value@) is None && identity@ == value@,
                Err(error) => identity_fault(value@) == Some(error),
            },
    {
        let length: usize = byte_len(value);
        proof {
            assert(length == 0 ==> value@.len() == 0) by {
                if value@.len() > 0 {
                    assert(encode_scalar(value@[0] as u32).len() > 0);
                }
            }
        }
        if length == 0 {
            return Err(MultiResourceConfigError::EmptyResourceIdentity);
        }
        if length > MAX_RESOURCE_IDENTITY_BYTES {
            return Err(
                MultiResourceConfigError::ResourceIdentityTooLong {
                    max_bytes: MAX_RESOURCE_IDENTITY_BYTES,
                },
            );
        }
        if contains_control(value) {
            return Err(MultiResourceConfigError::MalformedResourceIdentity);
        }
        Ok(ResourceIdentity { text: copy_text(value) })
    }

    /// Borrows the validated identity.
    pub fn as_str(&self) -> (r: &str)
        ensures
            r@ == self@,
            identity_fault(r@) is None,
    {
        proof {
            use_type_invariant(self);
        }
        self.text.as_str()
    }
}

impl Clone for ResourceIdentity {
    fn clone(&self) -> (r: Self)
        ensures
            r == *self,
            r@ == self@,
    {
        proof {
            use_type_invariant(self);
        }
        ResourceIdentity { text: self.text.clone() }
    }
}

/// The identity texts of a sequence of resources.
pub open spec fn identity_texts(resources: Seq<ResourceIdentity>) -> Seq<Seq<char>> {
    resources.map_values(|identity: ResourceIdentity| identity@)
}

/// Each identity's UTF-8 bytes followed by a zero byte.
pub open spec fn framed(texts: Seq<Seq<char>>) -> Seq<u8>
    decreases texts.len(),
{
    if texts.len() == 0 {
        Seq::empty()
    } else {
        framed(texts.drop_last()) + encode_utf8(texts.last()).push(0)
    }
}

/// The bytes that a resource-set revision is the digest of.
pub open spec fn revision_input(texts: Seq<Seq<char>>) -> Seq<u8> {
    encode_utf8("oxide-batch.resource-set"@).push(0) + framed(texts)
}

/// A content fingerprint over one ordered resource-identity sequence.
///
/// Safe to display: this is a hash of logical identities, never resource
/// content.
#[derive(Clone, Copy, PartialEq, Eq, Hash)]
pub struct ResourceSetRevision {
    digest: [u8; 32],
}

impl View for ResourceSetRevision {
    type V = Seq<u8>;

    closed spec fn view(&self) -> Seq<u8> {
        self.digest@
    }
}

impl ResourceSetRevision {
    /// Computes the revision of an ordered resource-identity sequence.
    pub fn of(resources: &[ResourceIdentity]) -> (r: Self)
        ensures
            r@ == sha256(revision_input(identity_texts(resources@))),
            r@.len() == 32,
    {
        let mut input: Vec<u8> = Vec::new();
        append_bytes(&mut input, "oxide-batch.resource-set".as_bytes());
        input.push(0);
        let ghost prefix = encode_utf8("oxide-batch.resource-set"@).push(0);
        let ghost texts = identity_texts(resources@);
        assert(input@ =~= prefix + framed(texts.take(0)));
        let mut i: usize = 0;
        while i < resources.len()
            invariant
                i <= resources.len(),
                texts == identity_texts(resources@),
                input@ == prefix + framed(texts.take(i as int)),
            decreases resources.len() - i,
        {
            let ghost before = input@;
            append_bytes(&mut input, resources[i].as_str().as_bytes());
            input.push(0);
            proof {
                let more = texts.take(i + 1);
                assert(more.drop_last() =~= texts.take(i as int));
                assert(more.last() == resources@[i as int]@);
                assert(input@ =~= before + encode_utf8(more.last()).push(0));
                assert(input@ =~= prefix + framed(more));
            }
            i = i + 1;
        }
        assert(texts.take(i as int) =~= texts);
        ResourceSetRevision { digest: sha256_digest(input.as_slice()) }
    }

    /// Writes the revision as lower-case hexadecimal digits.
    pub fn to_hex(self) -> (r: String)
        ensures
            r@ == hex_text(self@),
    {
        hex_encode(array_as_slice(&self.digest))
    }

    /// Reads a revision back from hexadecimal digits; anything but 64 of them is
    /// refused.
    pub fn from_hex(hex: &str) -> (r: Option<Self>)
        ensures
            match r {
                Some(revision) => {
                    &&& is_hex(encode_utf8(hex@))
                    &&& hex_bytes(encode_utf8(hex@)).len() == 32
                    &&& revision@ == hex_bytes(encode_utf8(hex@))
                },
                None => !is_hex(encode_utf8(hex@)) || hex_bytes(encode_utf8(hex@)).len() != 32,
            },
    {
        match hex_decode(hex) {
            Some(bytes) => match to_array_32(bytes.as_slice()) {
                Some(digest) => Some(ResourceSetRevision { digest }),
                None => None,
            },
            None => None,
        }
    }

    /// The text shown in diagnostics.
    pub fn to_text(self) -> (r: String)
        ensures
            r@ == "ResourceSetRevision("@ + hex_text(self@) + ")"@,
    {
        concat3("ResourceSetRevision(", self.to_hex().as_str(), ")")
    }

    /// Reports whether two revisions are the same.
    pub fn same(&self, other: &Self) -> (r: bool)
        ensures
            r == (self@ == other@),
    {
        same_bytes(array_as_slice(&self.digest), array_as_slice(&other.digest))
    }
}

/// An ordered, fingerprinted set of resources forming one logical
/// multi-resource input or output.
pub struct ResourceSet {
    resources: Vec<ResourceIdentity>,
    revision: ResourceSetRevision,
}

impl ResourceSet {
    #[verifier::type_invariant]
    spec fn well_formed(self) -> bool {
        self.revision@ == sha256(revision_input(identity_texts(self.resources@)))
    }

    /// The identities, in declared order.
    pub closed spec fn identities(&self) -> Seq<ResourceIdentity> {
        self.resources@
    }

    /// The content revision.
    pub closed spec fn revision_view(&self) -> Seq<u8> {
        self.revision@
    }

    /// Builds a resource set from an explicit, caller-ordered sequence.
    pub fn new(resources: Vec<ResourceIdentity>) -> (r: Self)
        ensures
            r.identities() == resources@,
            r.revision_view() == sha256(revision_input(identity_texts(resources@))),
    {
        let revision = ResourceSetRevision::of(resources.as_slice());
        ResourceSet { resources, revision }
    }

    /// Borrows the ordered resource identities.
    pub fn resources(&self) -> (r: &[ResourceIdentity])
        ensures
            r@ == self.identities(),
    {
        self.resources.as_slice()
    }

    /// Returns this resource set's content revision.
    pub fn revision(&self) -> (r: ResourceSetRevision)
        ensures
            r@ == self.revision_view(),
            r@ == sha256(revision_input(identity_texts(self.identities()))),
    {
        proof {
            use_type_invariant(self);
        }
        self.revision
    }

    /// Returns the number of resources in this set.
    pub fn len(&self) -> (r: usize)
        ensures
            r == self.identities().len(),
    {
        self.resources.len()
    }

    /// Returns whether this resource set has no resources.
    pub fn is_empty(&self) -> (r: bool)
        ensures
            r == (self.identities().len() == 0),
    {
        self.resources.len() == 0
    }
}

impl Clone for ResourceSet {
    fn clone(&self) -> (r: Self)
        ensures
            r.identities() == self.identities(),
            r.revision_view() == self.revision_view(),
    {
        proof {
            use_type_invariant(self);
        }
        let mut copied: Vec<ResourceIdentity> = Vec::new();
        let mut i: usize = 0;
        assert(copied@ =~= self.resources@.take(0));
        while i < self.resources.len()
            invariant
                i <= self.resources@.len(),
                copied@ == self.resources@.take(i as int),
            decreases self.resources.len() - i,
        {
            copied.push(self.resources[i].clone());
            assert(copied@ =~= self.resources@.take(i + 1));
            i = i + 1;
        }
        assert(self.resources@.take(i as int) =~= self.resources@);
        ResourceSet { resources: copied, revision: self.revision }
    }
}

/// The bytes of a text without control characters hold no zero byte.
proof fn no_zero_byte(text: Seq<char>)
    requires
        !has_control(text),
    ensures
        forall|i: int| 0 <= i < encode_utf8(text).len() ==> #[trigger] encode_utf8(text)[i] != 0,
    decreases text.len(),
{
    if text.len() > 0 {
        let rest = text.drop_first();
        assert(!has_control(rest)) by {
            assert forall|i: int| 0 <= i < rest.len() implies !is_control_char(
                #[trigger] rest[i],
            ) by {
                assert(rest[i] == text[i + 1]);
            }
        }
        no_zero_byte(rest);
        let c = text[0] as u32;
        let first = encode_scalar(c);
        char_is_scalar(text[0]);
        assert(!is_control_char(text[0]));
        assert(c > 0x1f);
        if c <= 0x7f {
            assert(leading_byte_width_1(c) != 0) by (bit_vector)
                requires
                    0x1f < c <= 0x7f,
            ;
        } else {
            assert(leading_byte_width_2(c) != 0) by (bit_vector);
            assert(leading_byte_width_3(c) != 0) by (bit_vector);
            assert(leading_byte_width_4(c) != 0) by (bit_vector);
            assert(last_continuation_byte(c) != 0) by (bit_vector);
            assert(second_last_continuation_byte(c) != 0) by (bit_vector);
            assert(third_last_continuation_byte(c) != 0) by (bit_vector);
        }
        assert forall|i: int| 0 <= i < encode_utf8(text).len() implies #[trigger] encode_utf8(
            text,
        )[i] != 0 by {
            if i >= first.len() {
                assert(encode_utf8(text)[i] == encode_utf8(rest)[i - first.len()]);
            } else {
                assert(encode_utf8(text)[i] == first[i]);
            }
        }
    }
}

/// Every text of the sequence is free of control characters.
pub open spec fn all_printable(texts: Seq<Seq<char>>) -> bool {
    forall|i: int| 0 <= i < texts.len() ==> !has_control(#[trigger] texts[i])
}

/// Two identity sequences frame to the same bytes only if they hold the same
/// identities in the same order: inserting, removing, renaming or reordering a
/// resource changes what the revision is the digest of.
pub proof fn framing_is_injective(a: Seq<Seq<char>>, b: Seq<Seq<char>>)
    requires
        all_printable(a),
        all_printable(b),
        revision_input(a) == revision_input(b),
    ensures
        a == b,
{
    let prefix = encode_utf8("oxide-batch.resource-set"@).push(0);
    assert(revision_input(a).skip(prefix.len() as int) =~= framed(a));
    assert(revision_input(b).skip(prefix.len() as int) =~= framed(b));
    frames_injective(a, b);
}

proof fn frames_injective(a: Seq<Seq<char>>, b: Seq<Seq<char>>)
    requires
        all_printable(a),
        all_printable(b),
        framed(a) == framed(b),
    ensures
        a == b,
    decreases a.len(),
{
    let bytes = framed(a);
    if a.len() == 0 {
        if b.len() > 0 {
            assert(framed(b).len() > 0);
        }
        assert(a =~= b);
    } else if b.len() == 0 {
        assert(bytes.len() > 0);
    } else {
        let x = encode_utf8(a.last());
        let y = encode_utf8(b.last());
        let before_a = framed(a.drop_last());
        let before_b = framed(b.drop_last());
        no_zero_byte(a.last());
        no_zero_byte(b.last());
        frame_ends_with_zero(a.drop_last());
        frame_ends_with_zero(b.drop_last());
        // The last frame starts after the last zero byte before the final one.
        if before_a.len() < before_b.len() {
            assert(bytes[before_b.len() - 1] == 0);
            assert(bytes[before_b.len() - 1] == x[before_b.len() - 1 - before_a.len()]);
        }
        if before_b.len() < before_a.len() {
            assert(bytes[before_a.len() - 1] == 0);
            assert(bytes[before_a.len() - 1] == y[before_a.len() - 1 - before_b.len()]);
        }
        assert(bytes.take(before_a.len() as int) =~= before_a);
        assert(bytes.take(before_b.len() as int) =~= before_b);
        assert(bytes.skip(before_a.len() as int).drop_last() =~= x);
        assert(bytes.skip(before_b.len() as int).drop_last() =~= y);
        encoding_injective(a.last(), b.last());
        frames_injective(a.drop_last(), b.drop_last());
        assert(a =~= a.drop_last().push(a.last()));
        assert(b =~= b.drop_last().push(b.last()));
    }
}

proof fn frame_ends_with_zero(texts: Seq<Seq<char>>)
    ensures
        framed(texts).len() > 0 ==> framed(texts).last() == 0,
{
}

/// A revision is 32 bytes long.
pub proof fn revision_length(revision: ResourceSetRevision)
    ensures
        revision@.len() == 32,
{
}

/// Writing a revision in hexadecimal and reading it back gives the revision.
pub proof fn revision_hex_round_trip(revision: ResourceSetRevision)
    ensures
        is_hex(encode_utf8(hex_text(revision@))),
        hex_bytes(encode_utf8(hex_text(revision@))) == revision@,
{
    hex_round_trip(revision@);
}

/// An identity is refused exactly if it is empty, has more than 1024 bytes, or
/// holds a control character, and keeps its text otherwise.
pub proof fn identities_are_bounded(
    value: &str,
    r: Result<ResourceIdentity, MultiResourceConfigError>,
)
    requires
        call_ensures(ResourceIdentity::new, (value,), r),
    ensures
        r is Ok <==> 0 < value@.len() && encode_utf8(value@).len() <= 1024 && !has_control(value@),
        r matches Ok(identity) ==> identity@ == value@,
        value@.len() == 0 ==> r->Err_0 == MultiResourceConfigError::EmptyResourceIdentity,
        value@.len() > 0 && encode_utf8(value@).len() > 1024 ==> r->Err_0 == (
        MultiResourceConfigError::ResourceIdentityTooLong { max_bytes: 1024 }),
        value@.len() > 0 && encode_utf8(value@).len() <= 1024 && has_control(value@) ==> r->Err_0
            == MultiResourceConfigError::MalformedResourceIdentity,
{
}

/// A revision is the digest of the prefix, a zero byte, and each identity with a
/// zero byte behind it.
pub proof fn a_revision_covers_every_identity(texts: Seq<Seq<char>>, text: Seq<char>)
    ensures
        revision_input(Seq::<Seq<char>>::empty()) == encode_utf8("oxide-batch.resource-set"@)
            + seq![0u8],
        revision_input(texts.push(text)) == revision_input(texts) + encode_utf8(text) + seq![0u8],
{
    assert(texts.push(text).drop_last() =~= texts);
    assert(revision_input(Seq::<Seq<char>>::empty()) =~= encode_utf8("oxide-batch.resource-set"@)
        + seq![0u8]);
    assert(revision_input(texts.push(text)) =~= revision_input(texts) + encode_utf8(text)
        + seq![0u8]);
}

/// A set keeps its resources in order, under the revision of that very sequence.
pub proof fn a_set_keeps_its_order(
    resources: Vec<ResourceIdentity>,
    set: ResourceSet,
    listed: &[ResourceIdentity],
    revision: ResourceSetRevision,
    of: ResourceSetRevision,
)
    requires
        call_ensures(ResourceSet::new, (resources,), set),
        call_ensures(ResourceSet::resources, (&set,), listed),
        call_ensures(ResourceSet::revision, (&set,), revision),
        call_ensures(ResourceSetRevision::of, (listed,), of),
    ensures
        listed@ == resources@,
        revision@ == of@,
{
}

/// A revision that was written in hexadecimal is read back as itself, and nothing
/// but 32 bytes is read.
pub proof fn a_revision_is_read_back(
    revision: ResourceSetRevision,
    hex: String,
    text: &str,
    r: Option<ResourceSetRevision>,
)
    requires
        call_ensures(ResourceSetRevision::to_hex, (revision,), hex),
        call_ensures(ResourceSetRevision::from_hex, (text,), r),
    ensures
        text@ == hex@ ==> r is Some && r->0@ == revision@,
        r is Some ==> encode_utf8(text@).len() == 64,
{
    hex_round_trip(revision@);
    revision_length(revision);
}

/// What each refused identity says.
pub proof fn refused_identities_say_this(error: &MultiResourceConfigError, r: String)
    requires
        call_ensures(MultiResourceConfigError::to_text, (error,), r),
    ensures
        error is EmptyResourceIdentity ==> r@ == "resource identity must not be empty"@,
        error matches MultiResourceConfigError::ResourceIdentityTooLong { max_bytes } ==> r@
            == "resource identity exceeds "@ + decimal(*max_bytes as nat) + " UTF-8 bytes"@,
        error is MalformedResourceIdentity ==> r@
            == "resource identity contains a control character"@,
{
}

/// A set has as many resources as it was built of, and two revisions are the same
/// exactly if their bytes are.
pub proof fn a_set_counts_its_resources(
    resources: Vec<ResourceIdentity>,
    set: ResourceSet,
    count: usize,
    empty: bool,
    a: &ResourceSetRevision,
    b: &ResourceSetRevision,
    same: bool,
)
    requires
        call_ensures(ResourceSet::new, (resources,), set),
        call_ensures(ResourceSet::len, (&set,), count),
        call_ensures(ResourceSet::is_empty, (&set,), empty),
        call_ensures(ResourceSetRevision::same, (a, b), same),
    ensures
        count == resources@.len(),
        empty <==> resources@.len() == 0,
        same <==> a@ == b@,
{
}

} // verus!
