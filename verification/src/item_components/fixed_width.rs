//! Restartable fixed-width components.
//!
//! Field widths are byte-oriented: a declared width of `n` selects exactly `n`
//! bytes of the record's raw line, and each selected span is then decoded as
//! UTF-8 independently. A field boundary inside a multi-byte character is a
//! classified failure, never misread text.

use super::file_output::CommittedOutput;
use super::lines::{
    bounded_line, consumed_by, first_newline, first_newline_is_first, line_content, BoundedLine,
    LineReader, LineView, CARRIAGE_RETURN, LINE_FEED,
};
use super::position::{number_json, number_of_bytes, ReaderPositionSchema};
use crate::item_stream::{StreamOpenError, StreamOpenOutcome, StreamUpdateError};
use crate::json::json_text;
use crate::runtime::{FailureCategory, ReadOutcome, ReaderError, WriterError};
use crate::text::{append_bytes, byte_len, copy_text, same_text, utf8_text};
use vstd::prelude::*;
use vstd::std_specs::convert::FromSpec;
use vstd::slice::slice_subrange;
use vstd::utf8::{
    decode_utf8, decode_utf8_encode_utf8, encode_utf8, encode_utf8_decode_utf8,
    encode_utf8_valid_utf8, valid_utf8,
};

verus! {

/// The largest single record this module accepts by default: 1 MiB.
pub const DEFAULT_MAX_RECORD_BYTES: usize = 1048576;

/// The schema of a reader's position.
pub const READER_SCHEMA: &'static str = "oxide-batch.fixed-width-reader-position";

/// The codec of a reader's position.
pub const READER_CODEC: &'static str = "oxide-batch.fixed-width-reader-position-codec";

/// The schema of a writer's position.
pub const WRITER_SCHEMA: &'static str = "oxide-batch.fixed-width-writer-position";

/// The codec of a writer's position.
pub const WRITER_CODEC: &'static str = "oxide-batch.fixed-width-writer-position-codec";

/// The record terminator [`FixedWidthWriter`] emits; a reader accepts either on
/// input regardless of this setting.
#[derive(Clone, Copy, Debug, PartialEq, Eq, Structural)]
#[non_exhaustive]
pub enum FixedWidthTerminator {
    /// Bare `\n`.
    Lf,
    /// `\r\n`.
    CrLf,
}

impl FixedWidthTerminator {
    /// The bytes of the terminator.
    pub open spec fn text(self) -> Seq<u8> {
        match self {
            FixedWidthTerminator::Lf => seq![LINE_FEED],
            FixedWidthTerminator::CrLf => seq![CARRIAGE_RETURN, LINE_FEED],
        }
    }

    /// Appends the terminator to a buffer.
    fn terminate(self, buffer: &mut Vec<u8>)
        ensures
            final(buffer)@ == old(buffer)@ + self.text(),
    {
        match self {
            FixedWidthTerminator::Lf => {},
            FixedWidthTerminator::CrLf => {
                buffer.push(CARRIAGE_RETURN);
            },
        }
        buffer.push(LINE_FEED);
        assert(buffer@ =~= old(buffer)@ + self.text());
    }
}

/// One byte-width field in a [`FixedWidthLayout`].
#[derive(Debug, PartialEq, Eq)]
pub struct FixedWidthField {
    name: Option<String>,
    width: usize,
}

impl FixedWidthField {
    /// The declared name.
    pub closed spec fn name_view(&self) -> Option<Seq<char>> {
        match self.name {
            Some(name) => Some(name@),
            None => None,
        }
    }

    /// The declared byte width.
    pub closed spec fn width_view(&self) -> usize {
        self.width
    }

    /// Declares an unnamed field of `width` bytes.
    pub fn new(width: usize) -> (r: Self)
        ensures
            r.name_view() is None,
            r.width_view() == width,
    {
        FixedWidthField { name: None, width }
    }

    /// Declares a named field of `width` bytes, addressable through
    /// [`FixedWidthRecord::field`].
    pub fn named(name: &str, width: usize) -> (r: Self)
        ensures
            r.name_view() == Some(name@),
            r.width_view() == width,
    {
        FixedWidthField { name: Some(copy_text(name)), width }
    }

    /// Returns the field's declared byte width.
    pub fn width(&self) -> (r: usize)
        ensures
            r == self.width_view(),
    {
        self.width
    }

    /// Borrows the field's declared name, if any.
    pub fn name(&self) -> (r: Option<&str>)
        ensures
            match r {
                Some(name) => self.name_view() == Some(name@),
                None => self.name_view() is None,
            },
    {
        match &self.name {
            Some(name) => Some(name.as_str()),
            None => None,
        }
    }
}

impl Clone for FixedWidthField {
    fn clone(&self) -> (r: Self)
        ensures
            r.name_view() == self.name_view(),
            r.width_view() == self.width_view(),
    {
        FixedWidthField {
            name: match &self.name {
                Some(name) => Some(copy_text(name.as_str())),
                None => None,
            },
            width: self.width,
        }
    }
}

/// The summed width of the first `count` fields.
pub open spec fn offset_of(fields: Seq<FixedWidthField>, count: nat) -> nat
    decreases count,
{
    if count == 0 {
        0
    } else {
        offset_of(fields, (count - 1) as nat) + fields[count - 1].width_view() as nat
    }
}

/// The byte width of one record.
pub open spec fn total_width(fields: Seq<FixedWidthField>) -> nat {
    offset_of(fields, fields.len())
}

/// Offsets grow with the number of fields.
proof fn offsets_grow(fields: Seq<FixedWidthField>, i: nat, j: nat)
    requires
        i <= j,
    ensures
        offset_of(fields, i) <= offset_of(fields, j),
    decreases j,
{
    if i < j {
        offsets_grow(fields, i, (j - 1) as nat);
    }
}

/// A bounded fixed-width record layout.
pub struct FixedWidthLayout {
    fields: Vec<FixedWidthField>,
    record_width: usize,
    terminator: FixedWidthTerminator,
    max_record_bytes: usize,
}

impl FixedWidthLayout {
    #[verifier::type_invariant]
    spec fn well_formed(self) -> bool {
        self.fields@.len() > 0 && self.record_width == total_width(self.fields@)
    }

    /// The field declarations, in order.
    pub closed spec fn field_seq(&self) -> Seq<FixedWidthField> {
        self.fields@
    }

    /// The terminator that a writer emits.
    pub closed spec fn output_terminator(&self) -> FixedWidthTerminator {
        self.terminator
    }

    /// The largest accepted record.
    pub closed spec fn bound(&self) -> usize {
        self.max_record_bytes
    }

    /// Builds a layout from ordered field widths. There must be at least one: a
    /// layout without fields could never distinguish a valid record from a
    /// malformed one.
    pub fn new(fields: Vec<FixedWidthField>) -> (r: Self)
        requires
            fields@.len() > 0,
            total_width(fields@) <= usize::MAX,
        ensures
            r.field_seq() == fields@,
            r.output_terminator() == FixedWidthTerminator::Lf,
            r.bound() == DEFAULT_MAX_RECORD_BYTES,
    {
        let mut record_width: usize = 0;
        let mut i: usize = 0;
        while i < fields.len()
            invariant
                i <= fields@.len(),
                record_width == offset_of(fields@, i as nat),
                total_width(fields@) <= usize::MAX,
            decreases fields.len() - i,
        {
            proof {
                offsets_grow(fields@, (i + 1) as nat, fields@.len());
            }
            record_width = record_width + fields[i].width();
            i = i + 1;
        }
        FixedWidthLayout {
            fields,
            record_width,
            terminator: FixedWidthTerminator::Lf,
            max_record_bytes: DEFAULT_MAX_RECORD_BYTES,
        }
    }

    /// Sets the record terminator [`FixedWidthWriter`] emits.
    pub fn with_terminator(self, terminator: FixedWidthTerminator) -> (r: Self)
        ensures
            r.field_seq() == self.field_seq(),
            r.output_terminator() == terminator,
            r.bound() == self.bound(),
    {
        proof {
            use_type_invariant(&self);
        }
        let FixedWidthLayout { fields, record_width, terminator: _, max_record_bytes } = self;
        FixedWidthLayout { fields, record_width, terminator, max_record_bytes }
    }

    /// Sets the largest single record's raw byte span the reader accepts before
    /// failing closed.
    pub fn with_max_record_bytes(self, max_record_bytes: usize) -> (r: Self)
        ensures
            r.field_seq() == self.field_seq(),
            r.output_terminator() == self.output_terminator(),
            r.bound() == max_record_bytes,
    {
        proof {
            use_type_invariant(&self);
        }
        let FixedWidthLayout { fields, record_width, terminator, max_record_bytes: _ } = self;
        FixedWidthLayout { fields, record_width, terminator, max_record_bytes }
    }

    /// Borrows the ordered field declarations.
    pub fn fields(&self) -> (r: &[FixedWidthField])
        ensures
            r@ == self.field_seq(),
    {
        self.fields.as_slice()
    }

    /// Returns the exact byte width one well-formed record occupies, excluding
    /// its terminator.
    pub fn record_width(&self) -> (r: usize)
        ensures
            r == total_width(self.field_seq()),
    {
        proof {
            use_type_invariant(self);
        }
        self.record_width
    }

    /// The declared names, if any field has one.
    fn names(&self) -> (r: Option<Vec<Option<String>>>)
        ensures
            match r {
                Some(names) => layout_names(self.field_seq()) == Some(name_texts(names@)),
                None => layout_names(self.field_seq()) is None,
            },
    {
        let mut names: Vec<Option<String>> = Vec::new();
        let mut named: bool = false;
        let mut i: usize = 0;
        assert(name_texts(names@) =~= Seq::<Option<Seq<char>>>::empty());
        while i < self.fields.len()
            invariant
                i <= self.fields@.len(),
                name_texts(names@) == Seq::new(i as nat, |j: int| self.fields@[j].name_view()),
                named == exists|j: int|
                    0 <= j < i && (#[trigger] self.fields@[j]).name_view() is Some,
            decreases self.fields.len() - i,
        {
            let ghost before = names@;
            let name: Option<String> = match self.fields[i].name() {
                Some(name) => {
                    named = true;
                    assert(self.fields@[i as int].name_view() is Some);
                    Some(copy_text(name))
                },
                None => None,
            };
            names.push(name);
            proof {
                assert(name_texts(names@) =~= name_texts(before).push(
                    self.fields@[i as int].name_view(),
                ));
                assert(name_texts(names@) =~= Seq::new(
                    (i + 1) as nat,
                    |j: int| self.fields@[j].name_view(),
                ));
            }
            i = i + 1;
        }
        if named {
            Some(names)
        } else {
            None
        }
    }
}

impl Clone for FixedWidthLayout {
    fn clone(&self) -> (r: Self)
        ensures
            r.field_seq().len() == self.field_seq().len(),
            forall|i: int|
                0 <= i < self.field_seq().len() ==> (#[trigger] r.field_seq()[i]).width_view()
                    == self.field_seq()[i].width_view() && r.field_seq()[i].name_view()
                    == self.field_seq()[i].name_view(),
            r.output_terminator() == self.output_terminator(),
            r.bound() == self.bound(),
    {
        proof {
            use_type_invariant(self);
        }
        let mut fields: Vec<FixedWidthField> = Vec::new();
        let mut i: usize = 0;
        while i < self.fields.len()
            invariant
                i <= self.fields@.len(),
                fields@.len() == i,
                offset_of(fields@, i as nat) == offset_of(self.fields@, i as nat),
                forall|j: int|
                    0 <= j < i ==> (#[trigger] fields@[j]).width_view()
                        == self.fields@[j].width_view() && fields@[j].name_view()
                        == self.fields@[j].name_view(),
            decreases self.fields.len() - i,
        {
            let ghost before = fields@;
            fields.push(self.fields[i].clone());
            proof {
                offset_is_local(before, fields@, i as nat);
            }
            i = i + 1;
        }
        FixedWidthLayout {
            fields,
            record_width: self.record_width,
            terminator: self.terminator,
            max_record_bytes: self.max_record_bytes,
        }
    }
}

/// An offset depends on the fields before it alone.
proof fn offset_is_local(a: Seq<FixedWidthField>, b: Seq<FixedWidthField>, count: nat)
    requires
        count <= a.len(),
        count <= b.len(),
        forall|i: int| 0 <= i < count ==> (#[trigger] a[i]).width_view() == b[i].width_view(),
    ensures
        offset_of(a, count) == offset_of(b, count),
    decreases count,
{
    if count > 0 {
        offset_is_local(a, b, (count - 1) as nat);
        assert(a[count - 1].width_view() == b[count - 1].width_view());
    }
}

/// Optional names by their content.
pub open spec fn name_texts(names: Seq<Option<String>>) -> Seq<Option<Seq<char>>> {
    names.map_values(
        |name: Option<String>|
            match name {
                Some(name) => Some(name@),
                None => None,
            },
    )
}

/// The names that a layout gives its records: those of its fields, unless no
/// field has one.
pub open spec fn layout_names(fields: Seq<FixedWidthField>) -> Option<Seq<Option<Seq<char>>>> {
    if exists|j: int| 0 <= j < fields.len() && (#[trigger] fields[j]).name_view() is Some {
        Some(Seq::new(fields.len(), |j: int| fields[j].name_view()))
    } else {
        None
    }
}

/// The texts of some strings.
pub open spec fn texts_of(fields: Seq<String>) -> Seq<Seq<char>> {
    fields.map_values(|field: String| field@)
}

/// The index of the first name that is `name`, or the length if there is none.
pub open spec fn name_index(names: Seq<Option<Seq<char>>>, name: Seq<char>) -> nat
    decreases names.len(),
{
    if names.len() == 0 || names[0] == Some(name) {
        0
    } else {
        1 + name_index(names.drop_first(), name)
    }
}

proof fn name_index_found(names: Seq<Option<Seq<char>>>, name: Seq<char>, i: nat)
    requires
        i <= names.len(),
        forall|j: int| 0 <= j < i ==> #[trigger] names[j] != Some(name),
        i < names.len() ==> names[i as int] == Some(name),
    ensures
        name_index(names, name) == i,
    decreases names.len(),
{
    if names.len() > 0 && i > 0 {
        let rest = names.drop_first();
        assert(names[0] != Some(name));
        assert forall|j: int| 0 <= j < i - 1 implies #[trigger] rest[j] != Some(name) by {
            assert(rest[j] == names[j + 1]);
        }
        if i < names.len() {
            assert(rest[i - 1] == names[i as int]);
        }
        name_index_found(rest, name, (i - 1) as nat);
    }
}

/// One decoded fixed-width record.
#[derive(Debug, PartialEq, Eq)]
pub struct FixedWidthRecord {
    fields: Vec<String>,
    names: Option<Vec<Option<String>>>,
}

impl FixedWidthRecord {
    /// The fields, in layout order.
    pub closed spec fn field_texts(&self) -> Seq<Seq<char>> {
        texts_of(self.fields@)
    }

    /// The names that the layout gave the fields.
    pub closed spec fn field_names(&self) -> Option<Seq<Option<Seq<char>>>> {
        match self.names {
            Some(names) => Some(name_texts(names@)),
            None => None,
        }
    }

    /// Builds a record from owned fields, with no name lookup.
    pub fn new(fields: Vec<String>) -> (r: Self)
        ensures
            r.field_texts() == texts_of(fields@),
            r.field_names() is None,
    {
        FixedWidthRecord { fields, names: None }
    }

    /// Borrows the record's fields in layout order.
    pub fn fields(&self) -> (r: &[String])
        ensures
            texts_of(r@) == self.field_texts(),
    {
        self.fields.as_slice()
    }

    /// Consumes the record, returning its owned fields.
    pub fn into_fields(self) -> (r: Vec<String>)
        ensures
            texts_of(r@) == self.field_texts(),
    {
        self.fields
    }

    /// Borrows the field at `index`, if present.
    pub fn get(&self, index: usize) -> (r: Option<&str>)
        ensures
            match r {
                Some(text) => index < self.field_texts().len() && text@
                    == self.field_texts()[index as int],
                None => index >= self.field_texts().len(),
            },
    {
        if index < self.fields.len() {
            Some(self.fields[index].as_str())
        } else {
            None
        }
    }

    /// Borrows the field named by the layout, if the layout named it: the first
    /// one, where several have the name.
    pub fn field(&self, name: &str) -> (r: Option<&str>)
        ensures
            match self.field_names() {
                None => r is None,
                Some(names) => {
                    let index = name_index(names, name@);
                    if index < names.len() && index < self.field_texts().len() {
                        r is Some && r->0@ == self.field_texts()[index as int]
                    } else {
                        r is None
                    }
                },
            },
    {
        let names: &Vec<Option<String>> = match &self.names {
            Some(names) => names,
            None => return None,
        };
        let ghost texts = name_texts(names@);
        let mut i: usize = 0;
        while i < names.len()
            invariant
                i <= names@.len(),
                texts == name_texts(names@),
                forall|j: int| 0 <= j < i ==> #[trigger] texts[j] != Some(name@),
                self.field_names() == Some(texts),
            decreases names.len() - i,
        {
            match &names[i] {
                Some(candidate) => {
                    if same_text(candidate.as_str(), name) {
                        proof {
                            assert(texts[i as int] == Some(name@));
                            name_index_found(texts, name@, i as nat);
                        }
                        return self.get(i);
                    }
                    assert(texts[i as int] == Some(candidate@));
                },
                None => {
                    assert(texts[i as int] is None);
                },
            }
            i = i + 1;
        }
        proof {
            name_index_found(texts, name@, i as nat);
        }
        None
    }

    /// Returns the field count.
    pub fn len(&self) -> (r: usize)
        ensures
            r == self.field_texts().len(),
    {
        self.fields.len()
    }

    /// Returns whether the record has no fields.
    pub fn is_empty(&self) -> (r: bool)
        ensures
            r == (self.field_texts().len() == 0),
    {
        self.fields.len() == 0
    }
}

impl Clone for FixedWidthRecord {
    fn clone(&self) -> (r: Self)
        ensures
            r.field_texts() == self.field_texts(),
            r.field_names() == self.field_names(),
    {
        let fields: Vec<String> = self.fields.clone();
        assert(fields@ =~= self.fields@);
        FixedWidthRecord { fields, names: copy_names(&self.names) }
    }
}

impl From<Vec<String>> for FixedWidthRecord {
    fn from(fields: Vec<String>) -> (r: Self)
        ensures
            r.field_texts() == texts_of(fields@),
            r.field_names() is None,
    {
        FixedWidthRecord { fields, names: None }
    }
}

impl vstd::std_specs::convert::FromSpecImpl<Vec<String>> for FixedWidthRecord {
    open spec fn obeys_from_spec() -> bool {
        true
    }

    closed spec fn from_spec(fields: Vec<String>) -> Self {
        FixedWidthRecord { fields, names: None }
    }
}

/// A record that is made from fields has those fields, and no names.
pub proof fn record_of_fields(fields: Vec<String>)
    ensures
        <FixedWidthRecord as FromSpec<Vec<String>>>::from_spec(fields).field_texts() == texts_of(
            fields@,
        ),
        <FixedWidthRecord as FromSpec<Vec<String>>>::from_spec(fields).field_names() is None,
{
}

/// The bytes of a line that the field numbered `i` selects.
pub open spec fn field_span(bytes: Seq<u8>, fields: Seq<FixedWidthField>, i: nat) -> Seq<u8> {
    bytes.subrange(offset_of(fields, i) as int, offset_of(fields, i + 1) as int)
}

/// The line is exactly as wide as the layout, and each field's span is UTF-8 on
/// its own.
pub open spec fn decodes(bytes: Seq<u8>, fields: Seq<FixedWidthField>) -> bool {
    &&& bytes.len() == total_width(fields)
    &&& forall|i: nat| i < fields.len() ==> valid_utf8(#[trigger] field_span(bytes, fields, i))
}

/// The fields of a line.
pub open spec fn decoded_fields(bytes: Seq<u8>, fields: Seq<FixedWidthField>) -> Seq<Seq<char>> {
    Seq::new(fields.len(), |i: int| decode_utf8(field_span(bytes, fields, i as nat)))
}

/// The failure of a line that was consumed and cannot be used.
pub open spec fn skippable_failure() -> ReaderError {
    ReaderError { category: FailureCategory::UserComponent, checkpoint_advanced: true }
}

/// The decisions of a restartable reader over a fixed-width source.
///
/// The restart position is the byte offset after the last consumed record.
pub struct FixedWidthReader {
    layout: FixedWidthLayout,
    names: Option<Vec<Option<String>>>,
    position: u64,
    seeked: bool,
}

/// Copies the names that a record carries.
fn copy_names(names: &Option<Vec<Option<String>>>) -> (r: Option<Vec<Option<String>>>)
    ensures
        match (*names, r) {
            (Some(a), Some(b)) => name_texts(a@) == name_texts(b@),
            (None, None) => true,
            _ => false,
        },
{
    match names {
        None => None,
        Some(names) => {
            let mut copied: Vec<Option<String>> = Vec::new();
            let mut i: usize = 0;
            assert(name_texts(copied@) =~= name_texts(names@).take(0));
            while i < names.len()
                invariant
                    i <= names@.len(),
                    name_texts(copied@) == name_texts(names@).take(i as int),
                decreases names.len() - i,
            {
                let ghost before = copied@;
                let name: Option<String> = match &names[i] {
                    Some(name) => Some(copy_text(name.as_str())),
                    None => None,
                };
                copied.push(name);
                assert(name_texts(copied@) =~= name_texts(before).push(
                    name_texts(names@)[i as int],
                ));
                assert(name_texts(copied@) =~= name_texts(names@).take(i + 1));
                i = i + 1;
            }
            assert(name_texts(names@).take(i as int) =~= name_texts(names@));
            Some(copied)
        },
    }
}

impl FixedWidthReader {
    #[verifier::type_invariant]
    spec fn well_formed(self) -> bool {
        match self.names {
            Some(names) => layout_names(self.layout.field_seq()) == Some(name_texts(names@)),
            None => layout_names(self.layout.field_seq()) is None,
        }
    }

    /// The layout's fields.
    pub closed spec fn field_seq(&self) -> Seq<FixedWidthField> {
        self.layout.field_seq()
    }

    /// The largest accepted record.
    pub closed spec fn bound(&self) -> usize {
        self.layout.bound()
    }

    /// The byte offset after the last consumed record.
    pub closed spec fn offset(&self) -> u64 {
        self.position
    }

    /// The attempt's first read has been made.
    pub closed spec fn has_seeked(&self) -> bool {
        self.seeked
    }

    /// The offset to seek to before the attempt's first read, unless that is the
    /// start of the source.
    pub fn seek_target(&mut self) -> (r: Option<u64>)
        ensures
            r == (if !old(self).has_seeked() && old(self).offset() != 0 {
                Some(old(self).offset())
            } else {
                None::<u64>
            }),
            final(self).has_seeked(),
            final(self).field_seq() == old(self).field_seq(),
            final(self).bound() == old(self).bound(),
            final(self).offset() == old(self).offset(),
    {
        proof {
            use_type_invariant(&*self);
        }
        if self.seeked {
            return None;
        }
        self.seeked = true;
        if self.position == 0 {
            return None;
        }
        Some(self.position)
    }

    /// The byte offset after the last consumed record.
    pub fn position(&self) -> (r: u64)
        ensures
            r == self.offset(),
    {
        self.position
    }

    /// The failure that a failed seek is reported as.
    pub fn seek_failed(&self) -> (r: ReaderError)
        ensures
            r == (ReaderError {
                category: FailureCategory::UserComponent,
                checkpoint_advanced: false,
            }),
    {
        ReaderError::new()
    }

    /// Starts the next line.
    pub fn next_line(&self) -> (r: LineReader)
        ensures
            r.wf(),
            r.bound() == self.bound(),
            r.taken().len() == 0,
    {
        LineReader::new(self.layout.max_record_bytes)
    }

    /// The failure that a failed read is reported as.
    pub fn read_failed(&self) -> (r: ReaderError)
        ensures
            r == (ReaderError {
                category: FailureCategory::TransientInfrastructure,
                checkpoint_advanced: false,
            }),
    {
        ReaderError::with_category(FailureCategory::TransientInfrastructure)
    }

    /// Decodes one line.
    fn decode_line(&self, bytes: &[u8]) -> (r: Option<FixedWidthRecord>)
        ensures
            match r {
                Some(record) => {
                    &&& decodes(bytes@, self.field_seq())
                    &&& record.field_texts() == decoded_fields(bytes@, self.field_seq())
                    &&& record.field_names() == layout_names(self.field_seq())
                },
                None => !decodes(bytes@, self.field_seq()),
            },
    {
        proof {
            use_type_invariant(self);
        }
        let ghost declared = self.field_seq();
        let length: usize = bytes.len();
        if length != self.layout.record_width() {
            return None;
        }
        let mut fields: Vec<String> = Vec::new();
        let mut offset: usize = 0;
        let mut i: usize = 0;
        assert(texts_of(fields@) =~= decoded_fields(bytes@, declared).take(0));
        while i < self.layout.fields.len()
            invariant
                i <= self.layout.fields@.len(),
                declared == self.layout.fields@,
                declared == self.field_seq(),
                length == bytes@.len(),
                bytes@.len() == total_width(declared),
                offset == offset_of(declared, i as nat),
                texts_of(fields@) == decoded_fields(bytes@, declared).take(i as int),
                forall|j: nat| j < i ==> valid_utf8(#[trigger] field_span(bytes@, declared, j)),
            decreases self.layout.fields.len() - i,
        {
            proof {
                offsets_grow(declared, (i + 1) as nat, declared.len());
            }
            let end: usize = offset + self.layout.fields[i].width();
            let span: &[u8] = slice_subrange(bytes, offset, end);
            assert(span@ == field_span(bytes@, declared, i as nat));
            let text: String = match utf8_text(span) {
                Some(text) => text,
                None => return None,
            };
            let ghost before = fields@;
            fields.push(text);
            proof {
                assert(texts_of(fields@) =~= texts_of(before).push(
                    decoded_fields(bytes@, declared)[i as int],
                ));
                assert(texts_of(fields@) =~= decoded_fields(bytes@, declared).take(i + 1));
            }
            offset = end;
            i = i + 1;
        }
        proof {
            assert(decoded_fields(bytes@, declared).take(i as int) =~= decoded_fields(
                bytes@,
                declared,
            ));
        }
        Some(FixedWidthRecord { fields, names: copy_names(&self.names) })
    }

    /// Takes a line: it is consumed, and it is a record if it is exactly as wide
    /// as the layout and every field decodes.
    pub fn line_read(&mut self, line: BoundedLine) -> (r: Result<
        ReadOutcome<FixedWidthRecord>,
        ReaderError,
    >)
        requires
            match line@ {
                LineView::Eof => true,
                LineView::Line { consumed, .. } => old(self).offset() + consumed <= u64::MAX,
                LineView::TooLong { consumed } => old(self).offset() + consumed <= u64::MAX,
            },
        ensures
            final(self).field_seq() == old(self).field_seq(),
            final(self).bound() == old(self).bound(),
            final(self).has_seeked() == old(self).has_seeked(),
            match line@ {
                LineView::Eof => {
                    &&& final(self).offset() == old(self).offset()
                    &&& r == Ok::<ReadOutcome<FixedWidthRecord>, ReaderError>(
                        ReadOutcome::EndOfInput,
                    )
                },
                LineView::TooLong { consumed } => {
                    &&& final(self).offset() == old(self).offset() + consumed
                    &&& r == Err::<ReadOutcome<FixedWidthRecord>, ReaderError>(skippable_failure())
                },
                LineView::Line { bytes, consumed } => {
                    &&& final(self).offset() == old(self).offset() + consumed
                    &&& if decodes(bytes, old(self).field_seq()) {
                        &&& r is Ok && r->Ok_0 is Item
                        &&& r->Ok_0->Item_0.field_texts() == decoded_fields(
                            bytes,
                            old(self).field_seq(),
                        )
                        &&& r->Ok_0->Item_0.field_names() == layout_names(old(self).field_seq())
                    } else {
                        r == Err::<ReadOutcome<FixedWidthRecord>, ReaderError>(
                            skippable_failure(),
                        )
                    }
                },
            },
    {
        proof {
            use_type_invariant(&*self);
        }
        match line {
            BoundedLine::Eof => Ok(ReadOutcome::EndOfInput),
            BoundedLine::TooLong { consumed } => {
                self.position = self.position + consumed;
                Err(ReaderError::new().with_checkpoint_advanced())
            },
            BoundedLine::Line { bytes, consumed } => {
                self.position = self.position + consumed;
                match self.decode_line(bytes.as_slice()) {
                    Some(record) => Ok(ReadOutcome::Item(record)),
                    None => Err(ReaderError::new().with_checkpoint_advanced()),
                }
            },
        }
    }

    /// Opens the stream at the committed offset, or at the start.
    pub fn open(&mut self, inherited: Option<&[u8]>) -> (r: Result<
        StreamOpenOutcome,
        StreamOpenError,
    >)
        ensures
            final(self).field_seq() == old(self).field_seq(),
            final(self).bound() == old(self).bound(),
            final(self).has_seeked() == old(self).has_seeked(),
            match inherited {
                None => {
                    &&& final(self).offset() == 0
                    &&& r == Ok::<StreamOpenOutcome, StreamOpenError>(StreamOpenOutcome::Initial)
                },
                Some(bytes) => match number_of_bytes(bytes@, "byte"@) {
                    Some(position) => {
                        &&& final(self).offset() == position
                        &&& r == Ok::<StreamOpenOutcome, StreamOpenError>(
                            StreamOpenOutcome::Restored,
                        )
                    },
                    None => {
                        &&& final(self).offset() == old(self).offset()
                        &&& r == Err::<StreamOpenOutcome, StreamOpenError>(
                            StreamOpenError { category: FailureCategory::UserComponent },
                        )
                    },
                },
            },
    {
        proof {
            use_type_invariant(&*self);
        }
        match inherited {
            None => {
                self.position = 0;
                Ok(StreamOpenOutcome::Initial)
            },
            Some(bytes) => match ReaderPositionSchema.decode(bytes) {
                Ok(position) => {
                    self.position = position;
                    Ok(StreamOpenOutcome::Restored)
                },
                Err(_) => Err(StreamOpenError::new()),
            },
        }
    }

    /// Prepares the candidate state.
    pub fn update(&self) -> (r: Result<Vec<u8>, StreamUpdateError>)
        ensures
            r is Ok,
            r->Ok_0@ == json_text(number_json("byte"@, self.offset())),
            number_of_bytes(r->Ok_0@, "byte"@) == Some(self.offset()),
    {
        match ReaderPositionSchema.encode(self.position) {
            Ok(bytes) => Ok(bytes),
            Err(_) => Err(StreamUpdateError::new()),
        }
    }
}

/// Builds a reader at the start of a source.
pub fn fixed_width_reader(layout: FixedWidthLayout) -> (r: FixedWidthReader)
    ensures
        r.field_seq() == layout.field_seq(),
        r.bound() == layout.bound(),
        r.offset() == 0,
        !r.has_seeked(),
{
    let names = layout.names();
    FixedWidthReader { layout, names, position: 0, seeked: false }
}

/// A record has one field per declared field, each of exactly the declared byte
/// width.
pub open spec fn fits(texts: Seq<Seq<char>>, fields: Seq<FixedWidthField>) -> bool {
    &&& texts.len() == fields.len()
    &&& forall|i: int|
        0 <= i < texts.len() ==> encode_utf8(#[trigger] texts[i]).len() == fields[i].width_view()
}

/// The bytes of some texts, one after the other.
pub open spec fn concatenated(texts: Seq<Seq<char>>) -> Seq<u8>
    decreases texts.len(),
{
    if texts.len() == 0 {
        Seq::empty()
    } else {
        concatenated(texts.drop_last()) + encode_utf8(texts.last())
    }
}

/// The bytes of a batch of records.
pub open spec fn batch_bytes(
    records: Seq<FixedWidthRecord>,
    terminator: FixedWidthTerminator,
) -> Seq<u8>
    decreases records.len(),
{
    if records.len() == 0 {
        Seq::empty()
    } else {
        batch_bytes(records.drop_last(), terminator) + concatenated(records.last().field_texts())
            + terminator.text()
    }
}

/// The decisions of a restartable fixed-width writer.
pub struct FixedWidthWriter {
    /// The record layout.
    pub layout: FixedWidthLayout,
    /// The committed progress.
    pub output: CommittedOutput,
}

impl FixedWidthWriter {
    /// The layout's fields.
    pub open spec fn field_seq(&self) -> Seq<FixedWidthField> {
        self.layout.field_seq()
    }

    /// The terminator of each record.
    pub open spec fn output_terminator(&self) -> FixedWidthTerminator {
        self.layout.output_terminator()
    }

    /// Appends one record to a buffer.
    fn encode_record(&self, record: &FixedWidthRecord, buffer: &mut Vec<u8>) -> (r: bool)
        ensures
            r == fits(record.field_texts(), self.field_seq()),
            r ==> final(buffer)@ == old(buffer)@ + concatenated(record.field_texts())
                + self.output_terminator().text(),
    {
        let ghost texts = record.field_texts();
        if record.fields.len() != self.layout.fields.len() {
            return false;
        }
        let mut i: usize = 0;
        assert(buffer@ =~= old(buffer)@ + concatenated(texts.take(0)));
        while i < record.fields.len()
            invariant
                i <= record.fields@.len(),
                texts == texts_of(record.fields@),
                texts == record.field_texts(),
                self.layout.fields@ == self.field_seq(),
                record.fields@.len() == self.layout.fields@.len(),
                buffer@ == old(buffer)@ + concatenated(texts.take(i as int)),
                forall|j: int|
                    0 <= j < i ==> encode_utf8(#[trigger] texts[j]).len()
                        == self.layout.fields@[j].width_view(),
            decreases record.fields.len() - i,
        {
            let field: &str = record.fields[i].as_str();
            if byte_len(field) != self.layout.fields[i].width() {
                assert(encode_utf8(texts[i as int]).len()
                    != self.layout.fields@[i as int].width_view());
                return false;
            }
            append_bytes(buffer, field.as_bytes());
            proof {
                assert(texts.take(i + 1).drop_last() =~= texts.take(i as int));
                assert(texts[i as int] == field@);
                assert(buffer@ =~= old(buffer)@ + concatenated(texts.take(i + 1)));
            }
            i = i + 1;
        }
        assert(texts.take(i as int) =~= texts);
        self.layout.terminator.terminate(buffer);
        true
    }

    /// The bytes of a batch. A record that does not fit the layout fails the
    /// whole batch: a field is never padded or cut to fit.
    pub fn encode_batch(&self, records: &[FixedWidthRecord]) -> (r: Result<Vec<u8>, WriterError>)
        ensures
            ({
                let all_fit = forall|i: int|
                    0 <= i < records@.len() ==> fits(
                        (#[trigger] records@[i]).field_texts(),
                        self.field_seq(),
                    );
                match r {
                    Ok(bytes) => all_fit && bytes@ == batch_bytes(
                        records@,
                        self.output_terminator(),
                    ),
                    Err(error) => !all_fit && error == (WriterError {
                        category: FailureCategory::UserComponent,
                        rolled_back_output: None,
                    }),
                }
            }),
    {
        let mut buffer: Vec<u8> = Vec::new();
        let mut i: usize = 0;
        assert(buffer@ =~= batch_bytes(records@.take(0), self.output_terminator()));
        while i < records.len()
            invariant
                i <= records@.len(),
                buffer@ == batch_bytes(records@.take(i as int), self.output_terminator()),
                forall|j: int|
                    0 <= j < i ==> fits((#[trigger] records@[j]).field_texts(), self.field_seq()),
            decreases records.len() - i,
        {
            let fitted: bool = self.encode_record(&records[i], &mut buffer);
            if !fitted {
                assert(!fits(records@[i as int].field_texts(), self.field_seq()));
                return Err(WriterError::new());
            }
            proof {
                assert(records@.take(i + 1).drop_last() =~= records@.take(i as int));
            }
            i = i + 1;
        }
        assert(records@.take(i as int) =~= records@);
        Ok(buffer)
    }
}

/// Builds a writer for a fresh file.
pub fn fixed_width_writer(layout: FixedWidthLayout) -> (r: FixedWidthWriter)
    ensures
        r.layout == layout,
        r.output.committed_bytes == 0,
{
    FixedWidthWriter { layout, output: CommittedOutput::new() }
}

/// The concatenation of fitting texts, split at the layout's offsets.
proof fn spans_of_concatenation(texts: Seq<Seq<char>>, fields: Seq<FixedWidthField>, count: nat)
    requires
        fits(texts, fields),
        count <= texts.len(),
    ensures
        concatenated(texts.take(count as int)).len() == offset_of(fields, count),
        forall|i: nat|
            i < count ==> #[trigger] field_span(
                concatenated(texts.take(count as int)),
                fields,
                i,
            ) == encode_utf8(texts[i as int]),
    decreases count,
{
    if count > 0 {
        let before = (count - 1) as nat;
        spans_of_concatenation(texts, fields, before);
        let whole = concatenated(texts.take(count as int));
        let part = concatenated(texts.take(before as int));
        assert(texts.take(count as int).drop_last() =~= texts.take(before as int));
        assert(texts.take(count as int).last() == texts[count - 1]);
        assert(whole == part + encode_utf8(texts[count - 1]));
        assert forall|i: nat| i < count implies #[trigger] field_span(whole, fields, i)
            == encode_utf8(texts[i as int]) by {
            if i < before {
                offsets_grow(fields, i, i + 1);
                offsets_grow(fields, i + 1, before);
                assert(field_span(whole, fields, i) =~= field_span(part, fields, i));
            } else {
                assert(field_span(whole, fields, i) =~= encode_utf8(texts[count - 1]));
            }
        }
    }
}

/// A record that fits its layout is written as a line that decodes to the same
/// fields.
pub proof fn written_record_decodes(texts: Seq<Seq<char>>, fields: Seq<FixedWidthField>)
    requires
        fits(texts, fields),
    ensures
        decodes(concatenated(texts), fields),
        decoded_fields(concatenated(texts), fields) == texts,
{
    spans_of_concatenation(texts, fields, texts.len());
    let bytes = concatenated(texts);
    assert(texts.take(texts.len() as int) =~= texts);
    assert forall|i: nat| i < fields.len() implies valid_utf8(
        #[trigger] field_span(bytes, fields, i),
    ) by {
        encode_utf8_valid_utf8(texts[i as int]);
    }
    assert forall|i: int| 0 <= i < texts.len() implies #[trigger] decoded_fields(bytes, fields)[i]
        == texts[i] by {
        assert(field_span(bytes, fields, i as nat) == encode_utf8(texts[i]));
        encode_utf8_decode_utf8(texts[i]);
    }
    assert(decoded_fields(bytes, fields) =~= texts);
}

/// A written record, whatever follows it in the file, is read back as the same
/// line, unless a field holds a line feed or the record ends with a carriage
/// return, which a reader would take for part of the terminator.
pub proof fn written_record_reads_back(
    texts: Seq<Seq<char>>,
    terminator: FixedWidthTerminator,
    rest: Seq<u8>,
    max_bytes: nat,
)
    requires
        forall|i: int|
            0 <= i < concatenated(texts).len() ==> #[trigger] concatenated(texts)[i] != LINE_FEED,
        concatenated(texts).len() > 0 ==> concatenated(texts).last() != CARRIAGE_RETURN,
        concatenated(texts).len() <= max_bytes,
    ensures
        bounded_line(concatenated(texts) + terminator.text() + rest, max_bytes) == (
        LineView::Line {
            bytes: concatenated(texts),
            consumed: concatenated(texts).len() + terminator.text().len(),
        }),
{
    let bytes = concatenated(texts);
    let input = bytes + terminator.text() + rest;
    let end = (bytes.len() + terminator.text().len() - 1) as nat;
    first_newline_is_first(input);
    let n = first_newline(input);
    assert(input[end as int] == terminator.text().last());
    assert forall|i: int| 0 <= i < end implies #[trigger] input[i] != LINE_FEED by {
        if i < bytes.len() {
            assert(input[i] == bytes[i]);
        } else {
            assert(input[i] == terminator.text()[i - bytes.len()]);
        }
    }
    assert(n == end) by {
        if n < end {
            assert(input[n as int] == LINE_FEED);
        }
        if end < n {
            assert(input[end as int] != LINE_FEED);
        }
    }
    if bytes.len() > 0 {
        assert(input[bytes.len() - 1] == bytes.last());
    }
    assert(line_content(input) =~= bytes);
}

/// Fields lie one behind the other, each as wide as it is declared, and a record
/// is as wide as its fields together.
pub proof fn fields_lie_one_behind_the_other(fields: Seq<FixedWidthField>, i: nat)
    requires
        i < fields.len(),
    ensures
        offset_of(fields, 0) == 0,
        offset_of(fields, i + 1) == offset_of(fields, i) + fields[i as int].width_view(),
        total_width(fields) == offset_of(fields, fields.len()),
        offset_of(fields, i + 1) <= total_width(fields),
{
    offsets_grow(fields, i + 1, fields.len());
}

/// A line that decodes is its fields' bytes, one behind the other, each of the
/// declared width: nothing is lost, trimmed or moved.
pub proof fn a_decoded_line_is_its_fields(bytes: Seq<u8>, fields: Seq<FixedWidthField>)
    requires
        decodes(bytes, fields),
    ensures
        decoded_fields(bytes, fields).len() == fields.len(),
        fits(decoded_fields(bytes, fields), fields),
        concatenated(decoded_fields(bytes, fields)) == bytes,
{
    let texts = decoded_fields(bytes, fields);
    decoded_prefix(bytes, fields, fields.len());
    assert(texts.take(texts.len() as int) =~= texts);
    assert(bytes.take(bytes.len() as int) =~= bytes);
    assert forall|i: int| 0 <= i < texts.len() implies encode_utf8(#[trigger] texts[i]).len()
        == fields[i].width_view() by {
        let span = field_span(bytes, fields, i as nat);
        assert(valid_utf8(span));
        offsets_grow(fields, (i + 1) as nat, fields.len());
        decode_utf8_encode_utf8(span);
    }
}

proof fn decoded_prefix(bytes: Seq<u8>, fields: Seq<FixedWidthField>, count: nat)
    requires
        decodes(bytes, fields),
        count <= fields.len(),
    ensures
        offset_of(fields, count) <= bytes.len(),
        concatenated(decoded_fields(bytes, fields).take(count as int)) == bytes.take(
            offset_of(fields, count) as int,
        ),
    decreases count,
{
    offsets_grow(fields, count, fields.len());
    let texts = decoded_fields(bytes, fields);
    if count == 0 {
        assert(concatenated(texts.take(0)) =~= bytes.take(0));
    } else {
        let before = (count - 1) as nat;
        decoded_prefix(bytes, fields, before);
        let span = field_span(bytes, fields, before);
        assert(valid_utf8(span));
        decode_utf8_encode_utf8(span);
        assert(texts.take(count as int).drop_last() =~= texts.take(before as int));
        assert(texts.take(count as int).last() == decode_utf8(span));
        assert(bytes.take(offset_of(fields, count) as int) =~= bytes.take(
            offset_of(fields, before) as int,
        ) + span);
    }
}

/// A line of any other width than the record's never decodes.
pub proof fn only_full_lines_decode(bytes: Seq<u8>, fields: Seq<FixedWidthField>)
    ensures
        bytes.len() != total_width(fields) ==> !decodes(bytes, fields),
{
}

/// A line that was read is passed over, whatever it holds. It is a record exactly
/// if it decodes; otherwise, and if it is too long, it can be skipped.
pub proof fn every_record_is_passed_over(
    reader: &mut FixedWidthReader,
    line: BoundedLine,
    r: Result<ReadOutcome<FixedWidthRecord>, ReaderError>,
)
    requires
        call_ensures(FixedWidthReader::line_read, (reader, line), r),
        old(reader).offset() + consumed_by(line@) <= u64::MAX,
    ensures
        final(reader).offset() == old(reader).offset() + consumed_by(line@),
        final(reader).field_seq() == old(reader).field_seq(),
        line@ is Eof <==> r == Ok::<ReadOutcome<FixedWidthRecord>, ReaderError>(
            ReadOutcome::EndOfInput,
        ),
        line@ is TooLong ==> r is Err,
        line@ matches LineView::Line { bytes, .. } ==> (r is Ok <==> decodes(
            bytes,
            old(reader).field_seq(),
        )),
        r matches Ok(ReadOutcome::Item(record)) ==> (line@ matches LineView::Line { bytes, .. }
            && concatenated(record.field_texts()) == bytes && fits(
            record.field_texts(),
            old(reader).field_seq(),
        )),
        r matches Err(error) ==> error.category == FailureCategory::UserComponent
            && error.checkpoint_advanced,
{
    match line@ {
        LineView::Line { bytes, .. } => {
            if decodes(bytes, old(reader).field_seq()) {
                a_decoded_line_is_its_fields(bytes, old(reader).field_seq());
            }
        },
        _ => {},
    }
}

/// A batch is written exactly if every record fits the layout, each record as its
/// fields' bytes and the terminator; nothing is padded or cut.
pub proof fn a_batch_is_its_records(
    writer: &FixedWidthWriter,
    records: &[FixedWidthRecord],
    r: Result<Vec<u8>, WriterError>,
)
    requires
        call_ensures(FixedWidthWriter::encode_batch, (writer, records), r),
    ensures
        r is Ok <==> forall|i: int|
            0 <= i < records@.len() ==> fits(
                (#[trigger] records@[i]).field_texts(),
                writer.field_seq(),
            ),
        r matches Err(error) ==> error.category == FailureCategory::UserComponent
            && error.rolled_back_output is None,
        r matches Ok(bytes) ==> bytes@ == batch_bytes(records@, writer.output_terminator()),
        records@.len() == 0 ==> r is Ok && r->Ok_0@.len() == 0,
{
}

/// The records of a batch follow each other, each closed by a line feed or by a
/// carriage return and a line feed.
pub proof fn records_follow_each_other(
    records: Seq<FixedWidthRecord>,
    record: FixedWidthRecord,
    texts: Seq<Seq<char>>,
    text: Seq<char>,
)
    ensures
        batch_bytes(records.push(record), FixedWidthTerminator::Lf) == batch_bytes(
            records,
            FixedWidthTerminator::Lf,
        ) + concatenated(record.field_texts()) + seq!['\n' as u8],
        batch_bytes(records.push(record), FixedWidthTerminator::CrLf) == batch_bytes(
            records,
            FixedWidthTerminator::CrLf,
        ) + concatenated(record.field_texts()) + seq!['\r' as u8, '\n' as u8],
        concatenated(Seq::<Seq<char>>::empty()).len() == 0,
        concatenated(texts.push(text)) == concatenated(texts) + encode_utf8(text),
{
    assert(records.push(record).drop_last() =~= records);
    assert(texts.push(text).drop_last() =~= texts);
}

/// A field that is asked for by name is the first one that the layout gave that
/// name; there is none if the layout gave no such name.
pub proof fn a_field_is_found_by_its_name(
    record: &FixedWidthRecord,
    name: &str,
    r: Option<&str>,
    i: int,
)
    requires
        call_ensures(FixedWidthRecord::field, (record, name), r),
    ensures
        record.field_names() is None ==> r is None,
        record.field_names() matches Some(names) && 0 <= i < names.len() && i
            < record.field_texts().len() && names[i] == Some(name@) && (forall|j: int|
            0 <= j < i ==> #[trigger] names[j] != Some(name@)) ==> r is Some && r->0@
            == record.field_texts()[i],
        record.field_names() matches Some(names) && (forall|j: int|
            0 <= j < names.len() ==> #[trigger] names[j] != Some(name@)) ==> r is None,
{
    match record.field_names() {
        Some(names) => {
            if 0 <= i < names.len() && names[i] == Some(name@) && (forall|j: int|
                0 <= j < i ==> #[trigger] names[j] != Some(name@)) {
                name_index_found(names, name@, i as nat);
            }
            if forall|j: int| 0 <= j < names.len() ==> #[trigger] names[j] != Some(name@) {
                name_index_found(names, name@, names.len());
            }
        },
        None => {},
    }
}

/// Records carry the layout's names field by field, if any field has one.
pub proof fn names_stand_at_their_fields(fields: Seq<FixedWidthField>, i: int)
    requires
        0 <= i < fields.len(),
    ensures
        fields[i].name_view() is Some ==> layout_names(fields) is Some,
        layout_names(fields) matches Some(names) ==> names.len() == fields.len() && names[i]
            == fields[i].name_view(),
        layout_names(fields) is None ==> fields[i].name_view() is None,
{
}

/// A reader seeks once, before its first read, and only to a position that is not
/// the start.
pub proof fn a_fixed_width_reader_seeks_once(reader: &mut FixedWidthReader, r: Option<u64>)
    requires
        call_ensures(FixedWidthReader::seek_target, (reader,), r),
    ensures
        r is Some <==> !old(reader).has_seeked() && old(reader).offset() > 0,
        r matches Some(offset) ==> offset == old(reader).offset(),
        final(reader).has_seeked(),
        final(reader).offset() == old(reader).offset(),
{
}

/// A reader that is opened with what another one had prepared goes on where that
/// one was.
pub proof fn a_fixed_width_restart_goes_on(
    before: &FixedWidthReader,
    prepared: Result<Vec<u8>, StreamUpdateError>,
    reader: &mut FixedWidthReader,
    inherited: Option<&[u8]>,
    r: Result<StreamOpenOutcome, StreamOpenError>,
)
    requires
        call_ensures(FixedWidthReader::update, (before,), prepared),
        call_ensures(FixedWidthReader::open, (reader, inherited), r),
    ensures
        prepared is Ok,
        inherited matches Some(bytes) && bytes@ == prepared->Ok_0@ ==> final(reader).offset()
            == before.offset() && r == Ok::<StreamOpenOutcome, StreamOpenError>(
            StreamOpenOutcome::Restored,
        ),
        inherited is None ==> final(reader).offset() == 0 && r == Ok::<
            StreamOpenOutcome,
            StreamOpenError,
        >(StreamOpenOutcome::Initial),
        r is Err ==> final(reader).offset() == old(reader).offset(),
{
}

/// A reader starts at the first byte and a writer with nothing committed, both over
/// the layout's fields and under its bound.
pub proof fn a_layout_is_kept(
    layout: FixedWidthLayout,
    reader: FixedWidthReader,
    line: LineReader,
    writer: FixedWidthWriter,
)
    requires
        call_ensures(fixed_width_reader, (layout,), reader),
        call_ensures(FixedWidthReader::next_line, (&reader,), line),
        call_ensures(fixed_width_writer, (layout,), writer),
    ensures
        reader.field_seq() == layout.field_seq(),
        reader.offset() == 0 && !reader.has_seeked(),
        line.bound() == layout.bound() && line.taken().len() == 0,
        writer.layout == layout,
        writer.output.committed_bytes == 0,
{
}

/// A layout's fields are kept in order; a bare line feed and a mebibyte are its
/// defaults, and each is set without touching the other.
pub proof fn a_layout_is_set_part_by_part(
    fields: Vec<FixedWidthField>,
    layout: FixedWidthLayout,
    terminator: FixedWidthTerminator,
    ended: FixedWidthLayout,
    bound: usize,
    bounded: FixedWidthLayout,
    width: usize,
)
    requires
        call_ensures(FixedWidthLayout::new, (fields,), layout),
        call_ensures(FixedWidthLayout::with_terminator, (layout, terminator), ended),
        call_ensures(FixedWidthLayout::with_max_record_bytes, (ended, bound), bounded),
        call_ensures(FixedWidthLayout::record_width, (&bounded,), width),
    ensures
        layout.output_terminator() == FixedWidthTerminator::Lf,
        layout.bound() == 1024 * 1024,
        ended.bound() == layout.bound() && ended.output_terminator() == terminator,
        bounded.bound() == bound && bounded.output_terminator() == terminator,
        bounded.field_seq() == fields@,
        width == offset_of(fields@, fields@.len()),
{
}

/// A field is declared by its width, with a name or without.
pub proof fn a_field_is_declared_by_its_width(
    name: &str,
    width: usize,
    bare: FixedWidthField,
    named: FixedWidthField,
)
    requires
        call_ensures(FixedWidthField::new, (width,), bare),
        call_ensures(FixedWidthField::named, (name, width), named),
    ensures
        bare.width_view() == width && bare.name_view() is None,
        named.width_view() == width && named.name_view() == Some(name@),
{
}

/// The names under which positions are stored, which a restart finds them by.
pub proof fn fixed_width_positions_are_stored_under_these_names()
    ensures
        READER_SCHEMA@ == "oxide-batch.fixed-width-reader-position"@,
        READER_CODEC@ == "oxide-batch.fixed-width-reader-position-codec"@,
        WRITER_SCHEMA@ == "oxide-batch.fixed-width-writer-position"@,
        WRITER_CODEC@ == "oxide-batch.fixed-width-writer-position-codec"@,
{
}

/// A failed seek or read moves nothing; a failed read may pass.
pub proof fn a_failed_fixed_width_source_moves_nothing(
    reader: &FixedWidthReader,
    seek: ReaderError,
    read: ReaderError,
)
    requires
        call_ensures(FixedWidthReader::seek_failed, (reader,), seek),
        call_ensures(FixedWidthReader::read_failed, (reader,), read),
    ensures
        seek.category == FailureCategory::UserComponent && !seek.checkpoint_advanced,
        read.category == FailureCategory::TransientInfrastructure && !read.checkpoint_advanced,
{
}

/// A record shows the fields that it was made of: all of them in order, each by its
/// index, and as many as there are.
pub proof fn a_fixed_width_record_shows_its_fields(
    fields: Vec<String>,
    record: FixedWidthRecord,
    listed: &[String],
    index: usize,
    field: Option<&str>,
    count: usize,
    empty: bool,
    owned: Vec<String>,
)
    requires
        call_ensures(FixedWidthRecord::new, (fields,), record),
        call_ensures(FixedWidthRecord::fields, (&record,), listed),
        call_ensures(FixedWidthRecord::get, (&record, index), field),
        call_ensures(FixedWidthRecord::len, (&record,), count),
        call_ensures(FixedWidthRecord::is_empty, (&record,), empty),
        call_ensures(FixedWidthRecord::into_fields, (record,), owned),
    ensures
        listed@.len() == fields@.len() && owned@.len() == fields@.len(),
        count == fields@.len(),
        empty <==> fields@.len() == 0,
        field is Some <==> index < fields@.len(),
        index < fields@.len() ==> field->0@ == fields@[index as int]@ && listed@[index as int]@
            == fields@[index as int]@ && owned@[index as int]@ == fields@[index as int]@,
{
    let texts = texts_of(fields@);
    assert(texts.len() == fields@.len());
    assert(texts_of(listed@).len() == listed@.len());
    assert(texts_of(owned@).len() == owned@.len());
    if index < fields@.len() {
        assert(texts[index as int] == fields@[index as int]@);
        assert(texts_of(listed@)[index as int] == listed@[index as int]@);
        assert(texts_of(owned@)[index as int] == owned@[index as int]@);
    }
}

} // verus!
