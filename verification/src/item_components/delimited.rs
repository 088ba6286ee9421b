//! Restartable delimited/CSV components, over the `csv` crate.

use super::file_output::CommittedOutput;
use crate::item_stream::{StreamOpenError, StreamOpenOutcome, StreamUpdateError};
use crate::json::{
    json_from_slice, json_insert, json_object, json_parse, json_text, json_to_vec, json_unsigned,
    plain, read_unsigned, readable_depth, unsigned_member, Json,
};
use crate::runtime::{FailureCategory, ReadOutcome, ReaderError, StateCodecError, WriterError};
use crate::text::{copy_text, same_text};
use super::fixed_width::texts_of;
use vstd::prelude::*;
use vstd::std_specs::convert::FromSpec;

verus! {

/// The largest single record this module accepts by default: 1 MiB.
pub const DEFAULT_MAX_RECORD_BYTES: usize = 1048576;

/// The schema of a reader's position.
pub const READER_SCHEMA: &'static str = "oxide-batch.delimited-reader-position";

/// The codec of a reader's position.
pub const READER_CODEC: &'static str = "oxide-batch.delimited-reader-position-codec";

/// The schema of a writer's position.
pub const WRITER_SCHEMA: &'static str = "oxide-batch.delimited-writer-position";

/// The codec of a writer's position.
pub const WRITER_CODEC: &'static str = "oxide-batch.delimited-writer-position-codec";

/// The record terminator [`DelimitedWriter`] emits.
///
/// A reader never needs this: it recognizes both `\r\n` and bare `\n` on input.
#[derive(Clone, Copy, Debug, PartialEq, Eq, Structural)]
#[non_exhaustive]
pub enum DelimitedTerminator {
    /// Bare `\n`.
    Lf,
    /// `\r\n`.
    CrLf,
}

/// A bounded delimited/CSV dialect configuration.
#[derive(Clone, Copy, Debug, PartialEq, Eq, Structural)]
pub struct DelimitedDialect {
    /// The field delimiter.
    pub delimiter: u8,
    /// The quote character.
    pub quote: u8,
    /// An optional non-doubled escape byte.
    pub escape: Option<u8>,
    /// Whether a doubled quote escapes a literal quote.
    pub double_quote: bool,
    /// Whether the first record is a header row.
    pub has_headers: bool,
    /// Whether records may differ in their number of fields.
    pub flexible: bool,
    /// The terminator that a writer emits.
    pub terminator: DelimitedTerminator,
    /// The largest accepted record.
    pub max_record_bytes: usize,
}

/// The standard comma-separated dialect.
pub open spec fn standard_dialect() -> DelimitedDialect {
    DelimitedDialect {
        delimiter: 44,
        quote: 34,
        escape: None,
        double_quote: true,
        has_headers: false,
        flexible: false,
        terminator: DelimitedTerminator::Lf,
        max_record_bytes: DEFAULT_MAX_RECORD_BYTES,
    }
}

impl DelimitedDialect {
    /// Standard comma-separated dialect: `,` delimiter, `"` quote, doubled-quote
    /// escaping, no header row, ragged rows rejected, `\n` output terminator, and
    /// [`DEFAULT_MAX_RECORD_BYTES`].
    pub fn csv() -> (r: Self)
        ensures
            r == standard_dialect(),
    {
        DelimitedDialect {
            delimiter: 44,
            quote: 34,
            escape: None,
            double_quote: true,
            has_headers: false,
            flexible: false,
            terminator: DelimitedTerminator::Lf,
            max_record_bytes: DEFAULT_MAX_RECORD_BYTES,
        }
    }

    /// Sets the field delimiter byte.
    pub fn with_delimiter(self, delimiter: u8) -> (r: Self)
        ensures
            r == (DelimitedDialect { delimiter, ..self }),
    {
        DelimitedDialect { delimiter, ..self }
    }

    /// Sets the quote byte.
    pub fn with_quote(self, quote: u8) -> (r: Self)
        ensures
            r == (DelimitedDialect { quote, ..self }),
    {
        DelimitedDialect { quote, ..self }
    }

    /// Sets an optional non-doubled escape byte (e.g. `\`).
    pub fn with_escape(self, escape: Option<u8>) -> (r: Self)
        ensures
            r == (DelimitedDialect { escape, ..self }),
    {
        DelimitedDialect { escape, ..self }
    }

    /// Sets whether a doubled quote (`""`) escapes a literal quote.
    pub fn with_double_quote(self, enabled: bool) -> (r: Self)
        ensures
            r == (DelimitedDialect { double_quote: enabled, ..self }),
    {
        DelimitedDialect { double_quote: enabled, ..self }
    }

    /// Sets whether the first record is a header row, excluded from items and
    /// available through [`DelimitedRecord::field`].
    pub fn with_headers(self, enabled: bool) -> (r: Self)
        ensures
            r == (DelimitedDialect { has_headers: enabled, ..self }),
    {
        DelimitedDialect { has_headers: enabled, ..self }
    }

    /// Sets whether records with a field count different from the first are
    /// accepted rather than classified as malformed.
    pub fn with_flexible(self, enabled: bool) -> (r: Self)
        ensures
            r == (DelimitedDialect { flexible: enabled, ..self }),
    {
        DelimitedDialect { flexible: enabled, ..self }
    }

    /// Sets the record terminator [`DelimitedWriter`] emits.
    pub fn with_terminator(self, terminator: DelimitedTerminator) -> (r: Self)
        ensures
            r == (DelimitedDialect { terminator, ..self }),
    {
        DelimitedDialect { terminator, ..self }
    }

    /// Sets the largest single record's parsed byte span the reader accepts.
    pub fn with_max_record_bytes(self, max_record_bytes: usize) -> (r: Self)
        ensures
            r == (DelimitedDialect { max_record_bytes, ..self }),
    {
        DelimitedDialect { max_record_bytes, ..self }
    }
}

impl Default for DelimitedDialect {
    fn default() -> (r: Self)
        ensures
            r == standard_dialect(),
    {
        Self::csv()
    }
}

/// The index of the first header that is `name`, or the length if there is none.
pub open spec fn header_index(headers: Seq<Seq<char>>, name: Seq<char>) -> nat
    decreases headers.len(),
{
    if headers.len() == 0 || headers[0] == name {
        0
    } else {
        1 + header_index(headers.drop_first(), name)
    }
}

proof fn header_index_found(headers: Seq<Seq<char>>, name: Seq<char>, i: nat)
    requires
        i <= headers.len(),
        forall|j: int| 0 <= j < i ==> #[trigger] headers[j] != name,
        i < headers.len() ==> headers[i as int] == name,
    ensures
        header_index(headers, name) == i,
    decreases headers.len(),
{
    if headers.len() > 0 && i > 0 {
        let rest = headers.drop_first();
        assert(headers[0] != name);
        assert forall|j: int| 0 <= j < i - 1 implies #[trigger] rest[j] != name by {
            assert(rest[j] == headers[j + 1]);
        }
        if i < headers.len() {
            assert(rest[i - 1] == headers[i as int]);
        }
        header_index_found(rest, name, (i - 1) as nat);
    }
}

/// One decoded delimited/CSV record.
#[derive(Debug, PartialEq, Eq)]
pub struct DelimitedRecord {
    fields: Vec<String>,
    headers: Option<Vec<String>>,
}

/// The content of an optional list of texts.
pub open spec fn optional_texts(texts: Option<Vec<String>>) -> Option<Seq<Seq<char>>> {
    match texts {
        Some(texts) => Some(texts_of(texts@)),
        None => None,
    }
}

impl DelimitedRecord {
    /// The fields, in file order.
    pub closed spec fn field_texts(&self) -> Seq<Seq<char>> {
        texts_of(self.fields@)
    }

    /// The header row, if headers were enabled.
    pub closed spec fn header_texts(&self) -> Option<Seq<Seq<char>>> {
        optional_texts(self.headers)
    }

    /// Builds a record from owned fields, with no header row.
    pub fn new(fields: Vec<String>) -> (r: Self)
        ensures
            r.field_texts() == texts_of(fields@),
            r.header_texts() is None,
    {
        DelimitedRecord { fields, headers: None }
    }

    /// Borrows the record's fields in file order.
    pub fn fields(&self) -> (r: &[String])
        ensures
            texts_of(r@) == self.field_texts(),
    {
        self.fields.as_slice()
    }

    /// Consumes the record, returning its owned fields.
    pub fn into_fields(self) -> (r: Vec<String>)
        ensures
            texts_of(r@) == self.field_texts(),
    {
        self.fields
    }

    /// Borrows the field at `index`, if present.
    pub fn get(&self, index: usize) -> (r: Option<&str>)
        ensures
            match r {
                Some(text) => index < self.field_texts().len() && text@
                    == self.field_texts()[index as int],
                None => index >= self.field_texts().len(),
            },
    {
        if index < self.fields.len() {
            Some(self.fields[index].as_str())
        } else {
            None
        }
    }

    /// Borrows the field named by the dialect's header row, if headers were
    /// enabled and `name` is a known header: that of the first header of the
    /// name.
    pub fn field(&self, name: &str) -> (r: Option<&str>)
        ensures
            match self.header_texts() {
                None => r is None,
                Some(headers) => {
                    let index = header_index(headers, name@);
                    if index < headers.len() && index < self.field_texts().len() {
                        r is Some && r->0@ == self.field_texts()[index as int]
                    } else {
                        r is None
                    }
                },
            },
    {
        let headers: &Vec<String> = match &self.headers {
            Some(headers) => headers,
            None => return None,
        };
        let ghost texts = texts_of(headers@);
        let mut i: usize = 0;
        while i < headers.len()
            invariant
                i <= headers@.len(),
                texts == texts_of(headers@),
                forall|j: int| 0 <= j < i ==> #[trigger] texts[j] != name@,
                self.header_texts() == Some(texts),
            decreases headers.len() - i,
        {
            if same_text(headers[i].as_str(), name) {
                proof {
                    assert(texts[i as int] == name@);
                    header_index_found(texts, name@, i as nat);
                }
                return self.get(i);
            }
            assert(texts[i as int] == headers@[i as int]@);
            i = i + 1;
        }
        proof {
            header_index_found(texts, name@, i as nat);
        }
        None
    }

    /// Returns the field count.
    pub fn len(&self) -> (r: usize)
        ensures
            r == self.field_texts().len(),
    {
        self.fields.len()
    }

    /// Returns whether the record has no fields.
    pub fn is_empty(&self) -> (r: bool)
        ensures
            r == (self.field_texts().len() == 0),
    {
        self.fields.len() == 0
    }
}

impl Clone for DelimitedRecord {
    fn clone(&self) -> (r: Self)
        ensures
            r.field_texts() == self.field_texts(),
            r.header_texts() == self.header_texts(),
    {
        let fields: Vec<String> = self.fields.clone();
        assert(fields@ =~= self.fields@);
        DelimitedRecord { fields, headers: copy_texts(&self.headers) }
    }
}

impl From<Vec<String>> for DelimitedRecord {
    fn from(fields: Vec<String>) -> (r: Self)
        ensures
            r.field_texts() == texts_of(fields@),
            r.header_texts() is None,
    {
        DelimitedRecord { fields, headers: None }
    }
}

impl vstd::std_specs::convert::FromSpecImpl<Vec<String>> for DelimitedRecord {
    open spec fn obeys_from_spec() -> bool {
        true
    }

    closed spec fn from_spec(fields: Vec<String>) -> Self {
        DelimitedRecord { fields, headers: None }
    }
}

/// A record that is made from fields has those fields, and no header row.
pub proof fn record_of_fields(fields: Vec<String>)
    ensures
        <DelimitedRecord as FromSpec<Vec<String>>>::from_spec(fields).field_texts() == texts_of(
            fields@,
        ),
        <DelimitedRecord as FromSpec<Vec<String>>>::from_spec(fields).header_texts() is None,
{
}

/// A stable, restartable byte/line/record parser position.
#[derive(Clone, Copy, Debug, PartialEq, Eq, Structural)]
pub struct StoredPosition {
    /// The byte offset.
    pub byte: u64,
    /// The line number, counted from one.
    pub line: u64,
    /// The number of records read.
    pub record: u64,
}

/// The position of a fresh, unread parser.
pub open spec fn start_position() -> StoredPosition {
    StoredPosition { byte: 0, line: 1, record: 0 }
}

impl StoredPosition {
    /// The position of a fresh, unread parser: byte 0, line 1, no records read
    /// yet.
    pub fn start() -> (r: Self)
        ensures
            r == start_position(),
    {
        StoredPosition { byte: 0, line: 1, record: 0 }
    }
}

/// A parser position as JSON.
pub open spec fn position_json(position: StoredPosition) -> Json {
    Json::Object(
        map![
            "byte"@ => Json::Unsigned(position.byte),
            "line"@ => Json::Unsigned(position.line),
            "record"@ => Json::Unsigned(position.record),
        ],
    )
}

/// The parser position that durable bytes spell.
pub open spec fn position_of_bytes(bytes: Seq<u8>) -> Option<StoredPosition> {
    match json_parse(bytes) {
        None => None,
        Some(json) => match (
            unsigned_member(json, "byte"@),
            unsigned_member(json, "line"@),
            unsigned_member(json, "record"@),
        ) {
            (Some(byte), Some(line), Some(record)) => Some(StoredPosition { byte, line, record }),
            _ => None,
        },
    }
}

/// The codec of a reader's parser position.
#[derive(Clone, Copy, Debug, PartialEq, Eq, Structural)]
pub struct DelimitedPositionSchema;

impl DelimitedPositionSchema {
    /// Writes a position, which [`Self::decode`] reads back.
    pub fn encode(&self, value: &StoredPosition) -> (r: Result<Vec<u8>, StateCodecError>)
        ensures
            r is Ok,
            r->Ok_0@ == json_text(position_json(*value)),
            position_of_bytes(r->Ok_0@) == Some(*value),
    {
        let mut json: serde_json::Value = json_object();
        json_insert(&mut json, "byte", json_unsigned(value.byte));
        json_insert(&mut json, "line", json_unsigned(value.line));
        json_insert(&mut json, "record", json_unsigned(value.record));
        proof {
            reveal_strlit("byte");
            reveal_strlit("line");
            reveal_strlit("record");
            assert("byte"@[0] == 'b' && "byte"@.len() == 4);
            assert("line"@[0] == 'l' && "line"@.len() == 4);
            assert("record"@[0] == 'r' && "record"@.len() == 6);
            reveal_with_fuel(plain, 2);
            assert(plain(position_json(*value), readable_depth()));
        }
        match json_to_vec(&json) {
            Ok(bytes) => Ok(bytes),
            Err(_) => Err(StateCodecError::InvalidPayload),
        }
    }

    /// Reads a position.
    pub fn decode(&self, payload: &[u8]) -> (r: Result<StoredPosition, StateCodecError>)
        ensures
            match r {
                Ok(position) => position_of_bytes(payload@) == Some(position),
                Err(error) => position_of_bytes(payload@) is None && error
                    == StateCodecError::InvalidPayload,
            },
    {
        let value: serde_json::Value = match json_from_slice(payload) {
            Ok(value) => value,
            Err(_) => return Err(StateCodecError::InvalidPayload),
        };
        let byte: u64 = match read_unsigned(&value, "byte") {
            Some(byte) => byte,
            None => return Err(StateCodecError::InvalidPayload),
        };
        let line: u64 = match read_unsigned(&value, "line") {
            Some(line) => line,
            None => return Err(StateCodecError::InvalidPayload),
        };
        let record: u64 = match read_unsigned(&value, "record") {
            Some(record) => record,
            None => return Err(StateCodecError::InvalidPayload),
        };
        Ok(StoredPosition { byte, line, record })
    }
}

/// `csv::Error`, carried as an opaque value.
#[verifier::external_type_specification]
#[verifier::external_body]
pub struct ExCsvError(csv::Error);

/// Whether a CSV error comes from the source rather than from the record.
pub uninterp spec fn csv_io_error(error: csv::Error) -> bool;

/// Calls `csv::Error::is_io_error`: whether reading or writing the underlying
/// stream failed. It is part of the error.
#[verifier::external_body]
fn csv_is_io_error(error: &csv::Error) -> (r: bool)
    ensures
        r == csv_io_error(*error),
{
    error.is_io_error()
}

/// The category of a CSV error: the source may recover, a malformed record does
/// not.
pub open spec fn csv_category(error: csv::Error) -> FailureCategory {
    if csv_io_error(error) {
        FailureCategory::TransientInfrastructure
    } else {
        FailureCategory::UserComponent
    }
}

/// Classifies a CSV error.
pub fn classify_csv_error(error: &csv::Error) -> (r: FailureCategory)
    ensures
        r == csv_category(*error),
{
    if csv_is_io_error(error) {
        FailureCategory::TransientInfrastructure
    } else {
        FailureCategory::UserComponent
    }
}

/// What the parser made of one record.
pub enum ParsedRecord {
    /// A record, and the header row if the parser has one.
    Record {
        /// The position of the record's first byte, if the parser tells it. A
        /// header row may have been read on the way to the record.
        start: Option<StoredPosition>,
        /// The fields, in file order.
        fields: Vec<String>,
        /// The header row.
        headers: Option<Vec<String>>,
    },
    /// The end of the input.
    End,
    /// The source or the record failed.
    Failed(FailureCategory),
}

/// The decisions of a restartable reader over a delimited/CSV source.
///
/// The restart position is the parser's own byte/line/record triple. It is never
/// inferred from a line count, so a quoted multiline field cannot bring the
/// position out of step with the record boundary.
pub struct DelimitedReader {
    headers: Option<Vec<String>>,
    max_record_bytes: usize,
    position: StoredPosition,
    seeked: bool,
}

/// Copies an optional list of texts.
fn copy_texts(texts: &Option<Vec<String>>) -> (r: Option<Vec<String>>)
    ensures
        optional_texts(r) == optional_texts(*texts),
{
    match texts {
        None => None,
        Some(texts) => {
            let mut copied: Vec<String> = Vec::new();
            let mut i: usize = 0;
            assert(texts_of(copied@) =~= texts_of(texts@).take(0));
            while i < texts.len()
                invariant
                    i <= texts@.len(),
                    texts_of(copied@) == texts_of(texts@).take(i as int),
                decreases texts.len() - i,
            {
                let ghost before = copied@;
                copied.push(copy_text(texts[i].as_str()));
                assert(texts_of(copied@) =~= texts_of(before).push(texts_of(texts@)[i as int]));
                assert(texts_of(copied@) =~= texts_of(texts@).take(i + 1));
                i = i + 1;
            }
            assert(texts_of(texts@).take(i as int) =~= texts_of(texts@));
            Some(copied)
        },
    }
}

/// The bytes between two positions, none if the second comes first.
pub open spec fn span_between(before: StoredPosition, after: StoredPosition) -> int {
    if after.byte >= before.byte {
        after.byte - before.byte
    } else {
        0
    }
}

impl DelimitedReader {
    /// The header row, once it is known.
    pub closed spec fn header_texts(&self) -> Option<Seq<Seq<char>>> {
        optional_texts(self.headers)
    }

    /// The largest accepted record.
    pub closed spec fn bound(&self) -> usize {
        self.max_record_bytes
    }

    /// The parser position after the last consumed record.
    pub closed spec fn stored(&self) -> StoredPosition {
        self.position
    }

    /// The attempt's first read has been made.
    pub closed spec fn has_seeked(&self) -> bool {
        self.seeked
    }

    /// The position to seek to before the attempt's first read.
    ///
    /// A fresh attempt never seeks, not even to byte zero: a parser that was
    /// sought no longer treats its first record and header row specially.
    pub fn seek_target(&mut self) -> (r: Option<StoredPosition>)
        ensures
            r == (if !old(self).has_seeked() && old(self).stored().byte != 0 {
                Some(old(self).stored())
            } else {
                None::<StoredPosition>
            }),
            final(self).has_seeked(),
            final(self).header_texts() == old(self).header_texts(),
            final(self).bound() == old(self).bound(),
            final(self).stored() == old(self).stored(),
    {
        if self.seeked {
            return None;
        }
        self.seeked = true;
        if self.position.byte == 0 {
            return None;
        }
        Some(self.position)
    }

    /// The failure that a failed seek is reported as.
    pub fn seek_failed(&self) -> (r: ReaderError)
        ensures
            r == (ReaderError {
                category: FailureCategory::UserComponent,
                checkpoint_advanced: false,
            }),
    {
        ReaderError::new()
    }

    /// Takes what the parser made of one record, and its position before and
    /// after it. A header row that was read on the way is not charged to the
    /// record.
    pub fn record_read(
        &mut self,
        before: StoredPosition,
        after: StoredPosition,
        parsed: ParsedRecord,
    ) -> (r: Result<ReadOutcome<DelimitedRecord>, ReaderError>)
        ensures
            final(self).bound() == old(self).bound(),
            final(self).has_seeked() == old(self).has_seeked(),
            match parsed {
                ParsedRecord::Record { start, fields, headers } => {
                    let first = match start {
                        Some(start) => start,
                        None => before,
                    };
                    &&& final(self).stored() == after
                    &&& if span_between(first, after) > old(self).bound() {
                        &&& final(self).header_texts() == old(self).header_texts()
                        &&& r == Err::<ReadOutcome<DelimitedRecord>, ReaderError>(
                            ReaderError {
                                category: FailureCategory::UserComponent,
                                checkpoint_advanced: true,
                            },
                        )
                    } else {
                        &&& final(self).header_texts() == (match old(self).header_texts() {
                            Some(known) => Some(known),
                            None => optional_texts(headers),
                        })
                        &&& r is Ok && r->Ok_0 is Item
                        &&& r->Ok_0->Item_0.field_texts() == texts_of(fields@)
                        &&& r->Ok_0->Item_0.header_texts() == final(self).header_texts()
                    }
                },
                ParsedRecord::End => {
                    &&& final(self).stored() == old(self).stored()
                    &&& final(self).header_texts() == old(self).header_texts()
                    &&& r == Ok::<ReadOutcome<DelimitedRecord>, ReaderError>(
                        ReadOutcome::EndOfInput,
                    )
                },
                ParsedRecord::Failed(category) => {
                    let advanced = after.byte > before.byte;
                    &&& final(self).stored() == (if advanced {
                        after
                    } else {
                        old(self).stored()
                    })
                    &&& final(self).header_texts() == old(self).header_texts()
                    &&& r == Err::<ReadOutcome<DelimitedRecord>, ReaderError>(
                        ReaderError {
                            category,
                            checkpoint_advanced: advanced,
                        },
                    )
                },
            },
    {
        match parsed {
            ParsedRecord::Record { start, fields, headers } => {
                let first: StoredPosition = match start {
                    Some(start) => start,
                    None => before,
                };
                self.position = after;
                let span: u64 = after.byte.saturating_sub(first.byte);
                if span > self.max_record_bytes as u64 {
                    return Err(ReaderError::new().with_checkpoint_advanced());
                }
                if self.headers.is_none() {
                    self.headers = headers;
                }
                let known: Option<Vec<String>> = copy_texts(&self.headers);
                Ok(ReadOutcome::Item(DelimitedRecord { fields, headers: known }))
            },
            ParsedRecord::End => Ok(ReadOutcome::EndOfInput),
            ParsedRecord::Failed(category) => {
                let mut error: ReaderError = ReaderError::with_category(category);
                if after.byte > before.byte {
                    self.position = after;
                    error = error.with_checkpoint_advanced();
                }
                Err(error)
            },
        }
    }

    /// Opens the stream at the committed position, or at the start.
    pub fn open(&mut self, inherited: Option<&[u8]>) -> (r: Result<
        StreamOpenOutcome,
        StreamOpenError,
    >)
        ensures
            final(self).header_texts() == old(self).header_texts(),
            final(self).bound() == old(self).bound(),
            final(self).has_seeked() == old(self).has_seeked(),
            match inherited {
                None => {
                    &&& final(self).stored() == start_position()
                    &&& r == Ok::<StreamOpenOutcome, StreamOpenError>(StreamOpenOutcome::Initial)
                },
                Some(bytes) => match position_of_bytes(bytes@) {
                    Some(position) => {
                        &&& final(self).stored() == position
                        &&& r == Ok::<StreamOpenOutcome, StreamOpenError>(
                            StreamOpenOutcome::Restored,
                        )
                    },
                    None => {
                        &&& final(self).stored() == old(self).stored()
                        &&& r == Err::<StreamOpenOutcome, StreamOpenError>(
                            StreamOpenError { category: FailureCategory::UserComponent },
                        )
                    },
                },
            },
    {
        match inherited {
            None => {
                self.position = StoredPosition::start();
                Ok(StreamOpenOutcome::Initial)
            },
            Some(bytes) => match DelimitedPositionSchema.decode(bytes) {
                Ok(position) => {
                    self.position = position;
                    Ok(StreamOpenOutcome::Restored)
                },
                Err(_) => Err(StreamOpenError::new()),
            },
        }
    }

    /// Prepares the candidate state.
    pub fn update(&self) -> (r: Result<Vec<u8>, StreamUpdateError>)
        ensures
            r is Ok,
            r->Ok_0@ == json_text(position_json(self.stored())),
            position_of_bytes(r->Ok_0@) == Some(self.stored()),
    {
        match DelimitedPositionSchema.encode(&self.position) {
            Ok(bytes) => Ok(bytes),
            Err(_) => Err(StreamUpdateError::new()),
        }
    }
}

/// Builds a reader at the start of a source.
pub fn delimited_reader(dialect: DelimitedDialect) -> (r: DelimitedReader)
    ensures
        r.header_texts() is None,
        r.bound() == dialect.max_record_bytes,
        r.stored() == start_position(),
        !r.has_seeked(),
{
    DelimitedReader {
        headers: None,
        max_record_bytes: dialect.max_record_bytes,
        position: StoredPosition::start(),
        seeked: false,
    }
}

/// A `csv::Writer` over a buffer in memory.
#[verifier::external_body]
pub struct CsvBuffer {
    writer: csv::Writer<Vec<u8>>,
}

/// The records that a CSV writer has taken.
pub uninterp spec fn csv_records(writer: CsvBuffer) -> Seq<Seq<Seq<char>>>;

/// The dialect that a CSV writer was made for.
pub uninterp spec fn csv_dialect(writer: CsvBuffer) -> DelimitedDialect;

/// The bytes that a CSV writer of a dialect produces for some records.
pub uninterp spec fn csv_text(
    dialect: DelimitedDialect,
    records: Seq<Seq<Seq<char>>>,
) -> Seq<u8>;

/// Calls `csv::WriterBuilder::from_writer` on a buffer in memory, with the
/// dialect's delimiter, quote, escape, doubled quotes, ragged-row tolerance and
/// terminator. The writer has taken no record yet.
#[verifier::external_body]
fn csv_writer(dialect: DelimitedDialect) -> (r: CsvBuffer)
    ensures
        csv_dialect(r) == dialect,
        csv_records(r) == Seq::<Seq<Seq<char>>>::empty(),
{
    let mut builder = csv::WriterBuilder::new();
    builder.delimiter(dialect.delimiter).quote(dialect.quote);
    builder.double_quote(dialect.double_quote).flexible(dialect.flexible);
    match dialect.terminator {
        DelimitedTerminator::Lf => builder.terminator(csv::Terminator::Any(b'\n')),
        DelimitedTerminator::CrLf => builder.terminator(csv::Terminator::CRLF),
    };
    if let Some(escape) = dialect.escape {
        builder.escape(escape);
    }
    CsvBuffer { writer: builder.from_writer(Vec::new()) }
}

/// A record that a writer of a dialect takes after the given ones: unless the
/// dialect is flexible, it has as many fields as the first.
pub open spec fn takes(
    dialect: DelimitedDialect,
    records: Seq<Seq<Seq<char>>>,
    fields: Seq<Seq<char>>,
) -> bool {
    dialect.flexible || records.len() == 0 || fields.len() == records[0].len()
}

/// Calls `csv::Writer::write_record`. It succeeds exactly if the writer takes
/// the record, which is then the writer's last one; a buffer in memory gives no
/// other reason to fail. A writer that refused a record is dropped, for it holds
/// the fields of that record.
#[verifier::external_body]
fn csv_write_record(writer: CsvBuffer, fields: &[String]) -> (r: Result<CsvBuffer, csv::Error>)
    ensures
        r is Ok == takes(csv_dialect(writer), csv_records(writer), texts_of(fields@)),
        match r {
            Ok(after) => {
                &&& csv_dialect(after) == csv_dialect(writer)
                &&& csv_records(after) == csv_records(writer).push(texts_of(fields@))
            },
            Err(_) => true,
        },
{
    let mut writer = writer;
    writer.writer.write_record(fields)?;
    Ok(writer)
}

/// Calls `csv::Writer::into_inner`, which flushes the writer and gives its
/// buffer back. A buffer in memory gives no reason to fail. The bytes depend on
/// the dialect and the records alone; how records are quoted is not stated.
#[verifier::external_body]
fn csv_into_inner(writer: CsvBuffer) -> (r: Option<Vec<u8>>)
    ensures
        r is Some,
        r->0@ == csv_text(csv_dialect(writer), csv_records(writer)),
{
    match writer.writer.into_inner() {
        Ok(bytes) => Some(bytes),
        Err(_) => None,
    }
}

/// The fields of some records.
pub open spec fn record_texts(records: Seq<DelimitedRecord>) -> Seq<Seq<Seq<char>>> {
    records.map_values(|record: DelimitedRecord| record.field_texts())
}

/// Records that one writer of a dialect takes, one after the other.
pub open spec fn all_taken(dialect: DelimitedDialect, records: Seq<Seq<Seq<char>>>) -> bool {
    dialect.flexible || forall|i: int|
        0 <= i < records.len() ==> (#[trigger] records[i]).len() == records[0].len()
}

/// The decisions of a restartable delimited/CSV writer.
#[derive(Clone, Copy, Debug, PartialEq, Eq, Structural)]
pub struct DelimitedWriter {
    /// The dialect.
    pub dialect: DelimitedDialect,
    /// The committed progress.
    pub output: CommittedOutput,
}

impl DelimitedWriter {
    /// The bytes of a batch. Unless the dialect is flexible, a batch whose
    /// records differ in their number of fields fails as a whole.
    pub fn encode_batch(&self, records: &[DelimitedRecord]) -> (r: Result<Vec<u8>, WriterError>)
        ensures
            match r {
                Ok(bytes) => all_taken(self.dialect, record_texts(records@)) && bytes@
                    == csv_text(self.dialect, record_texts(records@)),
                Err(error) => !all_taken(self.dialect, record_texts(records@)) && error == (
                WriterError {
                    category: FailureCategory::UserComponent,
                    rolled_back_output: None,
                }),
            },
    {
        let ghost texts = record_texts(records@);
        let mut writer: CsvBuffer = csv_writer(self.dialect);
        let mut i: usize = 0;
        assert(csv_records(writer) =~= texts.take(0));
        while i < records.len()
            invariant
                i <= records@.len(),
                texts == record_texts(records@),
                csv_dialect(writer) == self.dialect,
                csv_records(writer) == texts.take(i as int),
                all_taken(self.dialect, texts.take(i as int)),
            decreases records.len() - i,
        {
            let ghost prior = texts.take(i as int);
            let ghost more = texts.take(i + 1);
            proof {
                assert(texts[i as int] == records@[i as int].field_texts());
                assert(more =~= prior.push(texts[i as int]));
                assert(more[i as int] == texts[i as int]);
                assert(i > 0 ==> more[0] == prior[0]);
            }
            match csv_write_record(writer, records[i].fields()) {
                Ok(after) => {
                    writer = after;
                    proof {
                        assert forall|j: int| 0 <= j < more.len() && !self.dialect.flexible
                            implies (
                        #[trigger] more[j]).len() == more[0].len() by {
                            if j < i {
                                assert(more[j] == prior[j]);
                            }
                        }
                    }
                },
                Err(_) => {
                    proof {
                        assert(texts[0] == prior[0]);
                        assert(texts[i as int].len() != texts[0].len());
                    }
                    return Err(WriterError::new());
                },
            }
            i = i + 1;
        }
        assert(texts.take(i as int) =~= texts);
        match csv_into_inner(writer) {
            Some(bytes) => Ok(bytes),
            None => Err(WriterError::new()),
        }
    }
}

/// Builds a writer for a fresh file.
pub fn delimited_writer(dialect: DelimitedDialect) -> (r: DelimitedWriter)
    ensures
        r.dialect == dialect,
        r.output.committed_bytes == 0,
{
    DelimitedWriter { dialect, output: CommittedOutput::new() }
}

/// The standard dialect: comma, double quote, quotes escaped by doubling them
/// alone, no header row, no ragged rows, a bare line feed, a mebibyte per record.
pub proof fn the_standard_dialect_is_this(r: DelimitedDialect)
    requires
        call_ensures(DelimitedDialect::csv, (), r) || call_ensures(
            <DelimitedDialect as Default>::default,
            (),
            r,
        ),
    ensures
        r.delimiter == ',' as u8,
        r.quote == '"' as u8,
        r.escape is None,
        r.double_quote,
        !r.has_headers,
        !r.flexible,
        r.terminator == DelimitedTerminator::Lf,
        r.max_record_bytes == 1024 * 1024,
{
}

/// Each setting of a dialect is set without touching another one.
pub proof fn bytes_of_a_dialect_are_set_alone(
    dialect: DelimitedDialect,
    byte: u8,
    escape: Option<u8>,
    d: DelimitedDialect,
    q: DelimitedDialect,
    e: DelimitedDialect,
)
    requires
        call_ensures(DelimitedDialect::with_delimiter, (dialect, byte), d),
        call_ensures(DelimitedDialect::with_quote, (dialect, byte), q),
        call_ensures(DelimitedDialect::with_escape, (dialect, escape), e),
    ensures
        d.delimiter == byte && d == (DelimitedDialect { delimiter: d.delimiter, ..dialect }),
        q.quote == byte && q == (DelimitedDialect { quote: q.quote, ..dialect }),
        e.escape == escape && e == (DelimitedDialect { escape: e.escape, ..dialect }),
{
}

/// The same of the settings that are on or off.
pub proof fn switches_of_a_dialect_are_set_alone(
    dialect: DelimitedDialect,
    enabled: bool,
    d: DelimitedDialect,
    h: DelimitedDialect,
    f: DelimitedDialect,
)
    requires
        call_ensures(DelimitedDialect::with_double_quote, (dialect, enabled), d),
        call_ensures(DelimitedDialect::with_headers, (dialect, enabled), h),
        call_ensures(DelimitedDialect::with_flexible, (dialect, enabled), f),
    ensures
        d.double_quote == enabled && d == (DelimitedDialect {
            double_quote: d.double_quote,
            ..dialect
        }),
        h.has_headers == enabled && h == (DelimitedDialect {
            has_headers: h.has_headers,
            ..dialect
        }),
        f.flexible == enabled && f == (DelimitedDialect { flexible: f.flexible, ..dialect }),
{
}

/// The same of the terminator and of the bound.
pub proof fn limits_of_a_dialect_are_set_alone(
    dialect: DelimitedDialect,
    terminator: DelimitedTerminator,
    bound: usize,
    t: DelimitedDialect,
    b: DelimitedDialect,
    reader: DelimitedReader,
)
    requires
        call_ensures(DelimitedDialect::with_terminator, (dialect, terminator), t),
        call_ensures(DelimitedDialect::with_max_record_bytes, (dialect, bound), b),
        call_ensures(delimited_reader, (b,), reader),
    ensures
        t.terminator == terminator && t == (DelimitedDialect {
            terminator: t.terminator,
            ..dialect
        }),
        b.max_record_bytes == bound && b == (DelimitedDialect {
            max_record_bytes: b.max_record_bytes,
            ..dialect
        }),
        reader.bound() == bound,
        reader.stored().byte == 0,
        reader.header_texts() is None,
{
}

/// A field that is asked for by name is the one under the first header of that
/// name; without headers, or without such a header, there is none.
pub proof fn a_field_is_found_by_its_header(
    record: &DelimitedRecord,
    name: &str,
    r: Option<&str>,
    i: int,
)
    requires
        call_ensures(DelimitedRecord::field, (record, name), r),
    ensures
        record.header_texts() is None ==> r is None,
        record.header_texts() matches Some(headers) && 0 <= i < headers.len() && headers[i] == name@
            && (forall|j: int| 0 <= j < i ==> #[trigger] headers[j] != name@) ==> (if i
            < record.field_texts().len() {
            r is Some && r->0@ == record.field_texts()[i]
        } else {
            r is None
        }),
        record.header_texts() matches Some(headers) && (forall|j: int|
            0 <= j < headers.len() ==> #[trigger] headers[j] != name@) ==> r is None,
{
    match record.header_texts() {
        Some(headers) => {
            if 0 <= i < headers.len() && headers[i] == name@ && (forall|j: int|
                0 <= j < i ==> #[trigger] headers[j] != name@) {
                header_index_found(headers, name@, i as nat);
            }
            if forall|j: int| 0 <= j < headers.len() ==> #[trigger] headers[j] != name@ {
                header_index_found(headers, name@, headers.len());
            }
        },
        None => {},
    }
}

/// A position is told by its JSON: two positions that are written alike are one.
pub proof fn a_position_is_told_by_its_json(a: StoredPosition, b: StoredPosition)
    requires
        position_json(a) == position_json(b),
    ensures
        a == b,
        unsigned_member(position_json(a), "byte"@) == Some(a.byte),
        unsigned_member(position_json(a), "line"@) == Some(a.line),
        unsigned_member(position_json(a), "record"@) == Some(a.record),
{
    reveal_strlit("byte");
    reveal_strlit("line");
    reveal_strlit("record");
    assert("byte"@[0] == 'b' && "byte"@.len() == 4);
    assert("line"@[0] == 'l' && "line"@.len() == 4);
    assert("record"@[0] == 'r' && "record"@.len() == 6);
    assert(unsigned_member(position_json(a), "byte"@) == Some(a.byte));
    assert(unsigned_member(position_json(b), "byte"@) == Some(b.byte));
    assert(unsigned_member(position_json(a), "line"@) == Some(a.line));
    assert(unsigned_member(position_json(b), "line"@) == Some(b.line));
    assert(unsigned_member(position_json(a), "record"@) == Some(a.record));
    assert(unsigned_member(position_json(b), "record"@) == Some(b.record));
}

/// A position that lacks one of its three numbers is refused, and what was written
/// is read back.
pub proof fn stored_positions_are_read_back(
    value: &StoredPosition,
    written: Result<Vec<u8>, StateCodecError>,
    payload: &[u8],
    read: Result<StoredPosition, StateCodecError>,
    json: Json,
)
    requires
        call_ensures(DelimitedPositionSchema::encode, (&DelimitedPositionSchema, value), written),
        call_ensures(DelimitedPositionSchema::decode, (&DelimitedPositionSchema, payload), read),
    ensures
        written is Ok,
        payload@ == written->Ok_0@ ==> read == Ok::<StoredPosition, StateCodecError>(*value),
        json_parse(payload@) is None ==> read is Err,
        json_parse(payload@) == Some(json) ==> (read is Ok <==> unsigned_member(
            json,
            "byte"@,
        ) is Some && unsigned_member(json, "line"@) is Some && unsigned_member(
            json,
            "record"@,
        ) is Some),
{
}

/// A record's position is taken over however long the record was. It is refused
/// exactly if its own bytes, without a header row before it, exceed the bound, and
/// can then be skipped; otherwise its fields are handed out as they were parsed.
pub proof fn a_parsed_record_is_passed_over(
    reader: &mut DelimitedReader,
    before: StoredPosition,
    after: StoredPosition,
    start: Option<StoredPosition>,
    fields: Vec<String>,
    headers: Option<Vec<String>>,
    r: Result<ReadOutcome<DelimitedRecord>, ReaderError>,
)
    requires
        call_ensures(
            DelimitedReader::record_read,
            (reader, before, after, ParsedRecord::Record { start, fields, headers }),
            r,
        ),
    ensures
        final(reader).stored() == after,
        start matches Some(first) ==> (r is Err <==> after.byte > first.byte + old(reader).bound()),
        start is None ==> (r is Err <==> after.byte > before.byte + old(reader).bound()),
        r matches Err(error) ==> error.category == FailureCategory::UserComponent
            && error.checkpoint_advanced,
        r matches Ok(outcome) ==> (outcome matches ReadOutcome::Item(record) && texts_of(fields@)
            == record.field_texts() && record.header_texts() == final(reader).header_texts()),
        r is Ok && old(reader).header_texts() is None ==> final(reader).header_texts()
            == optional_texts(headers),
        old(reader).header_texts() is Some ==> final(reader).header_texts()
            == old(reader).header_texts(),
{
}

/// A failed record keeps its category, and moves the position exactly if the
/// parser went on; the end of input moves nothing.
pub proof fn a_failed_record_moves_with_the_parser(
    reader: &mut DelimitedReader,
    before: StoredPosition,
    after: StoredPosition,
    parsed: ParsedRecord,
    r: Result<ReadOutcome<DelimitedRecord>, ReaderError>,
)
    requires
        call_ensures(DelimitedReader::record_read, (reader, before, after, parsed), r),
    ensures
        parsed is End ==> r == Ok::<ReadOutcome<DelimitedRecord>, ReaderError>(
            ReadOutcome::EndOfInput,
        ) && final(reader).stored() == old(reader).stored(),
        parsed matches ParsedRecord::Failed(category) ==> r is Err && r->Err_0.category == category,
        parsed is Failed && after.byte <= before.byte ==> final(reader).stored()
            == old(reader).stored() && !r->Err_0.checkpoint_advanced,
        parsed is Failed && after.byte > before.byte ==> final(reader).stored() == after
            && r->Err_0.checkpoint_advanced,
        !(parsed is Record) ==> final(reader).header_texts() == old(reader).header_texts(),
{
}

/// A reader seeks once, before its first read, and only to a position that is not
/// the start.
pub proof fn a_delimited_reader_seeks_once(reader: &mut DelimitedReader, r: Option<StoredPosition>)
    requires
        call_ensures(DelimitedReader::seek_target, (reader,), r),
    ensures
        r is Some <==> !old(reader).has_seeked() && old(reader).stored().byte > 0,
        r matches Some(position) ==> position == old(reader).stored(),
        final(reader).has_seeked(),
        final(reader).stored() == old(reader).stored(),
{
}

/// A reader that is opened with what another one had prepared goes on where that
/// one was; without inherited state it starts at the first byte of the first line.
pub proof fn a_delimited_restart_goes_on(
    before: &DelimitedReader,
    prepared: Result<Vec<u8>, StreamUpdateError>,
    reader: &mut DelimitedReader,
    inherited: Option<&[u8]>,
    r: Result<StreamOpenOutcome, StreamOpenError>,
)
    requires
        call_ensures(DelimitedReader::update, (before,), prepared),
        call_ensures(DelimitedReader::open, (reader, inherited), r),
    ensures
        prepared is Ok,
        inherited matches Some(bytes) && bytes@ == prepared->Ok_0@ ==> final(reader).stored()
            == before.stored() && r == Ok::<StreamOpenOutcome, StreamOpenError>(
            StreamOpenOutcome::Restored,
        ),
        inherited is None ==> final(reader).stored() == (StoredPosition {
            byte: 0,
            line: 1,
            record: 0,
        }) && r == Ok::<StreamOpenOutcome, StreamOpenError>(StreamOpenOutcome::Initial),
        r is Err ==> final(reader).stored() == old(reader).stored(),
{
}

/// A batch is refused exactly if the dialect is strict and two of its records
/// differ in their number of fields.
pub proof fn ragged_batches_are_refused(
    writer: &DelimitedWriter,
    records: &[DelimitedRecord],
    r: Result<Vec<u8>, WriterError>,
    i: int,
    j: int,
)
    requires
        call_ensures(DelimitedWriter::encode_batch, (writer, records), r),
    ensures
        writer.dialect.flexible ==> r is Ok,
        records@.len() <= 1 ==> r is Ok,
        0 <= i < records@.len() && 0 <= j < records@.len() && !writer.dialect.flexible
            && records@[i].field_texts().len() != records@[j].field_texts().len() ==> r is Err,
        (forall|k: int|
            0 <= k < records@.len() ==> (#[trigger] records@[k]).field_texts().len()
                == records@[0].field_texts().len()) ==> r is Ok,
        r matches Ok(bytes) ==> bytes@ == csv_text(
            writer.dialect,
            Seq::new(records@.len(), |k: int| records@[k].field_texts()),
        ),
        r matches Err(error) ==> error.category == FailureCategory::UserComponent
            && error.rolled_back_output is None,
{
    let texts = record_texts(records@);
    assert(texts =~= Seq::new(records@.len(), |k: int| records@[k].field_texts()));
    if 0 <= i < records@.len() && 0 <= j < records@.len() {
        assert(texts[i].len() == records@[i].field_texts().len());
        assert(texts[j].len() == records@[j].field_texts().len());
    }
    if forall|k: int|
        0 <= k < records@.len() ==> (#[trigger] records@[k]).field_texts().len()
            == records@[0].field_texts().len() {
        assert forall|k: int| 0 <= k < texts.len() implies (#[trigger] texts[k]).len()
            == texts[0].len() by {
            assert(texts[k] == records@[k].field_texts());
            assert(texts[0] == records@[0].field_texts());
        }
    }
}

/// A failing source may recover, and a malformed record does not.
pub proof fn csv_failures_keep_their_meaning(error: &csv::Error, r: FailureCategory)
    requires
        call_ensures(classify_csv_error, (error,), r),
    ensures
        csv_io_error(*error) ==> r == FailureCategory::TransientInfrastructure,
        !csv_io_error(*error) ==> r == FailureCategory::UserComponent,
{
}

/// The names under which positions are stored, which a restart finds them by.
pub proof fn delimited_positions_are_stored_under_these_names()
    ensures
        READER_SCHEMA@ == "oxide-batch.delimited-reader-position"@,
        READER_CODEC@ == "oxide-batch.delimited-reader-position-codec"@,
        WRITER_SCHEMA@ == "oxide-batch.delimited-writer-position"@,
        WRITER_CODEC@ == "oxide-batch.delimited-writer-position-codec"@,
{
}

/// A failed seek is the component's own failure and moves nothing.
pub proof fn a_failed_delimited_seek_moves_nothing(reader: &DelimitedReader, r: ReaderError)
    requires
        call_ensures(DelimitedReader::seek_failed, (reader,), r),
    ensures
        r.category == FailureCategory::UserComponent,
        !r.checkpoint_advanced,
{
}

/// A record shows the fields that it was made of: all of them in order, each by its
/// index, and as many as there are.
pub proof fn a_delimited_record_shows_its_fields(
    fields: Vec<String>,
    record: DelimitedRecord,
    listed: &[String],
    index: usize,
    field: Option<&str>,
    count: usize,
    empty: bool,
    owned: Vec<String>,
)
    requires
        call_ensures(DelimitedRecord::new, (fields,), record),
        call_ensures(DelimitedRecord::fields, (&record,), listed),
        call_ensures(DelimitedRecord::get, (&record, index), field),
        call_ensures(DelimitedRecord::len, (&record,), count),
        call_ensures(DelimitedRecord::is_empty, (&record,), empty),
        call_ensures(DelimitedRecord::into_fields, (record,), owned),
    ensures
        listed@.len() == fields@.len() && owned@.len() == fields@.len(),
        count == fields@.len(),
        empty <==> fields@.len() == 0,
        field is Some <==> index < fields@.len(),
        index < fields@.len() ==> field->0@ == fields@[index as int]@ && listed@[index as int]@
            == fields@[index as int]@ && owned@[index as int]@ == fields@[index as int]@,
{
    let texts = texts_of(fields@);
    assert(texts.len() == fields@.len());
    assert(texts_of(listed@).len() == listed@.len());
    assert(texts_of(owned@).len() == owned@.len());
    if index < fields@.len() {
        assert(texts[index as int] == fields@[index as int]@);
        assert(texts_of(listed@)[index as int] == listed@[index as int]@);
        assert(texts_of(owned@)[index as int] == owned@[index as int]@);
    }
}

} // verus!
