//! Restartable JSON Lines components: one JSON value per line.
//!
//! A malformed line is always consumed through its line boundary before the
//! parse is attempted, so the next record's boundary is known whether or not the
//! line parses.

use super::file_output::CommittedOutput;
use super::lines::{
    bounded_line, consumed_by, first_newline, first_newline_is_first, line_content, BoundedLine,
    LineReader, LineView, CARRIAGE_RETURN, LINE_FEED,
};
use super::position::{number_json, number_of_bytes, ReaderPositionSchema};
use crate::item_stream::{StreamOpenError, StreamOpenOutcome, StreamUpdateError};
use crate::json::{
    json_content, json_from_slice, json_parse, json_text, json_to_vec, no_low_bytes, plain,
    readable_depth,
};
use crate::runtime::{FailureCategory, ReadOutcome, ReaderError, WriterError};
use vstd::prelude::*;

verus! {

/// The largest single line this module accepts by default: 1 MiB.
pub const DEFAULT_MAX_RECORD_BYTES: usize = 1048576;

/// The schema of a reader's position.
pub const READER_SCHEMA: &'static str = "oxide-batch.jsonl-reader-position";

/// The codec of a reader's position.
pub const READER_CODEC: &'static str = "oxide-batch.jsonl-reader-position-codec";

/// The schema of a writer's position.
pub const WRITER_SCHEMA: &'static str = "oxide-batch.jsonl-writer-position";

/// The codec of a writer's position.
pub const WRITER_CODEC: &'static str = "oxide-batch.jsonl-writer-position-codec";

/// The record terminator [`JsonLinesWriter`] emits; a reader accepts either on
/// input regardless of this setting.
#[derive(Clone, Copy, Debug, PartialEq, Eq, Structural)]
#[non_exhaustive]
pub enum JsonLinesTerminator {
    /// Bare `\n`.
    Lf,
    /// `\r\n`.
    CrLf,
}

impl JsonLinesTerminator {
    /// The bytes of the terminator.
    pub open spec fn text(self) -> Seq<u8> {
        match self {
            JsonLinesTerminator::Lf => seq![LINE_FEED],
            JsonLinesTerminator::CrLf => seq![CARRIAGE_RETURN, LINE_FEED],
        }
    }

    /// Appends the terminator to a line.
    fn terminate(self, line: &mut Vec<u8>)
        ensures
            final(line)@ == old(line)@ + self.text(),
    {
        match self {
            JsonLinesTerminator::Lf => {},
            JsonLinesTerminator::CrLf => {
                line.push(CARRIAGE_RETURN);
            },
        }
        line.push(LINE_FEED);
        assert(line@ =~= old(line)@ + self.text());
    }
}

/// A bounded JSON Lines format configuration.
#[derive(Clone, Copy, Debug)]
pub struct JsonLinesFormat {
    max_record_bytes: usize,
    terminator: JsonLinesTerminator,
}

impl JsonLinesFormat {
    /// The largest accepted line.
    pub closed spec fn bound(self) -> usize {
        self.max_record_bytes
    }

    /// The terminator that a writer emits.
    pub closed spec fn output_terminator(self) -> JsonLinesTerminator {
        self.terminator
    }

    /// The default format: [`DEFAULT_MAX_RECORD_BYTES`], `\n` output terminator.
    pub fn new() -> (r: Self)
        ensures
            r.bound() == DEFAULT_MAX_RECORD_BYTES,
            r.output_terminator() == JsonLinesTerminator::Lf,
    {
        JsonLinesFormat {
            max_record_bytes: DEFAULT_MAX_RECORD_BYTES,
            terminator: JsonLinesTerminator::Lf,
        }
    }

    /// Sets the largest single line's raw byte span (excluding terminator) the
    /// reader accepts before failing closed.
    pub fn with_max_record_bytes(self, max_record_bytes: usize) -> (r: Self)
        ensures
            r.bound() == max_record_bytes,
            r.output_terminator() == self.output_terminator(),
    {
        JsonLinesFormat { max_record_bytes, terminator: self.terminator }
    }

    /// Sets the record terminator [`JsonLinesWriter`] emits.
    pub fn with_terminator(self, terminator: JsonLinesTerminator) -> (r: Self)
        ensures
            r.bound() == self.bound(),
            r.output_terminator() == terminator,
    {
        JsonLinesFormat { max_record_bytes: self.max_record_bytes, terminator }
    }
}

impl Default for JsonLinesFormat {
    fn default() -> (r: Self)
        ensures
            r.bound() == DEFAULT_MAX_RECORD_BYTES,
            r.output_terminator() == JsonLinesTerminator::Lf,
    {
        Self::new()
    }
}

/// The decisions of a restartable reader over a JSON Lines source.
///
/// The restart position is the byte offset after the last consumed line. A
/// failed seek or a read that fails partway through a line never advances it,
/// and makes the next call seek to it again before anything is read.
#[derive(Clone, Copy, Debug, PartialEq, Eq, Structural)]
pub struct JsonLinesReader {
    /// The largest accepted line.
    pub max_record_bytes: usize,
    /// The byte offset after the last consumed line.
    pub position: u64,
    /// The source's own position is not known to be that offset.
    pub needs_seek: bool,
}

/// The failure of a line that was consumed and cannot be used.
pub open spec fn skippable_failure() -> ReaderError {
    ReaderError { category: FailureCategory::UserComponent, checkpoint_advanced: true }
}

impl JsonLinesReader {
    /// The offset to seek to before anything is read, if a seek is due.
    pub fn seek_target(&self) -> (r: Option<u64>)
        ensures
            r == (if self.needs_seek {
                Some(self.position)
            } else {
                None::<u64>
            }),
    {
        if self.needs_seek {
            Some(self.position)
        } else {
            None
        }
    }

    /// Takes what came of the seek.
    pub fn sought(&mut self, succeeded: bool) -> (r: Result<(), ReaderError>)
        ensures
            *final(self) == (JsonLinesReader {
                needs_seek: old(self).needs_seek && !succeeded,
                ..*old(self)
            }),
            r == (if succeeded {
                Ok::<(), ReaderError>(())
            } else {
                Err::<(), ReaderError>(
                    ReaderError {
                        category: FailureCategory::TransientInfrastructure,
                        checkpoint_advanced: false,
                    },
                )
            }),
    {
        if !succeeded {
            return Err(ReaderError::with_category(FailureCategory::TransientInfrastructure));
        }
        self.needs_seek = false;
        Ok(())
    }

    /// Starts the next line.
    pub fn next_line(&self) -> (r: LineReader)
        ensures
            r.wf(),
            r.bound() == self.max_record_bytes,
            r.taken().len() == 0,
    {
        LineReader::new(self.max_record_bytes)
    }

    /// Takes that reading failed partway through a line.
    pub fn read_failed(&mut self) -> (r: ReaderError)
        ensures
            *final(self) == (JsonLinesReader { needs_seek: true, ..*old(self) }),
            r == (ReaderError {
                category: FailureCategory::TransientInfrastructure,
                checkpoint_advanced: false,
            }),
    {
        self.needs_seek = true;
        ReaderError::with_category(FailureCategory::TransientInfrastructure)
    }

    /// Takes a line: it is consumed, and its value is the item if it holds one
    /// JSON value.
    pub fn line_read(&mut self, line: BoundedLine) -> (r: Result<
        ReadOutcome<serde_json::Value>,
        ReaderError,
    >)
        requires
            match line@ {
                LineView::Eof => true,
                LineView::Line { consumed, .. } => old(self).position + consumed <= u64::MAX,
                LineView::TooLong { consumed } => old(self).position + consumed <= u64::MAX,
            },
        ensures
            match line@ {
                LineView::Eof => {
                    &&& *final(self) == *old(self)
                    &&& r == Ok::<ReadOutcome<serde_json::Value>, ReaderError>(
                        ReadOutcome::EndOfInput,
                    )
                },
                LineView::TooLong { consumed } => {
                    &&& *final(self) == (JsonLinesReader {
                        position: (old(self).position + consumed) as u64,
                        ..*old(self)
                    })
                    &&& r == Err::<ReadOutcome<serde_json::Value>, ReaderError>(
                        skippable_failure(),
                    )
                },
                LineView::Line { bytes, consumed } => {
                    &&& *final(self) == (JsonLinesReader {
                        position: (old(self).position + consumed) as u64,
                        ..*old(self)
                    })
                    &&& match json_parse(bytes) {
                        Some(content) => r is Ok && r->Ok_0 is Item && json_content(
                            r->Ok_0->Item_0,
                        ) == content,
                        None => r == Err::<ReadOutcome<serde_json::Value>, ReaderError>(
                            skippable_failure(),
                        ),
                    }
                },
            },
    {
        match line {
            BoundedLine::Eof => Ok(ReadOutcome::EndOfInput),
            BoundedLine::TooLong { consumed } => {
                self.position = self.position + consumed;
                Err(ReaderError::new().with_checkpoint_advanced())
            },
            BoundedLine::Line { bytes, consumed } => {
                self.position = self.position + consumed;
                match json_from_slice(bytes.as_slice()) {
                    Ok(value) => Ok(ReadOutcome::Item(value)),
                    Err(_) => Err(ReaderError::new().with_checkpoint_advanced()),
                }
            },
        }
    }

    /// Opens the stream at the committed offset, or at the start.
    pub fn open(&mut self, inherited: Option<&[u8]>) -> (r: Result<
        StreamOpenOutcome,
        StreamOpenError,
    >)
        ensures
            match inherited {
                None => {
                    &&& *final(self) == (JsonLinesReader { position: 0, ..*old(self) })
                    &&& r == Ok::<StreamOpenOutcome, StreamOpenError>(StreamOpenOutcome::Initial)
                },
                Some(bytes) => match number_of_bytes(bytes@, "byte"@) {
                    Some(position) => {
                        &&& *final(self) == (JsonLinesReader { position, ..*old(self) })
                        &&& r == Ok::<StreamOpenOutcome, StreamOpenError>(
                            StreamOpenOutcome::Restored,
                        )
                    },
                    None => {
                        &&& *final(self) == *old(self)
                        &&& r == Err::<StreamOpenOutcome, StreamOpenError>(
                            StreamOpenError { category: FailureCategory::UserComponent },
                        )
                    },
                },
            },
    {
        match inherited {
            None => {
                self.position = 0;
                Ok(StreamOpenOutcome::Initial)
            },
            Some(bytes) => match ReaderPositionSchema.decode(bytes) {
                Ok(position) => {
                    self.position = position;
                    Ok(StreamOpenOutcome::Restored)
                },
                Err(_) => Err(StreamOpenError::new()),
            },
        }
    }

    /// Prepares the candidate state.
    pub fn update(&self) -> (r: Result<Vec<u8>, StreamUpdateError>)
        ensures
            r is Ok,
            r->Ok_0@ == json_text(number_json("byte"@, self.position)),
            number_of_bytes(r->Ok_0@, "byte"@) == Some(self.position),
    {
        match ReaderPositionSchema.encode(self.position) {
            Ok(bytes) => Ok(bytes),
            Err(_) => Err(StreamUpdateError::new()),
        }
    }
}

/// Builds a reader at the start of a source.
pub fn jsonl_reader(format: JsonLinesFormat) -> (r: JsonLinesReader)
    ensures
        r == (JsonLinesReader {
            max_record_bytes: format.bound(),
            position: 0,
            needs_seek: true,
        }),
{
    JsonLinesReader { max_record_bytes: format.max_record_bytes, position: 0, needs_seek: true }
}

/// The decisions of a restartable writer of JSON Lines.
#[derive(Clone, Copy, Debug, PartialEq, Eq, Structural)]
pub struct JsonLinesWriter {
    /// The terminator of each line.
    pub terminator: JsonLinesTerminator,
    /// The committed progress.
    pub output: CommittedOutput,
}

impl JsonLinesWriter {
    /// The line of one value: its JSON text and the terminator.
    pub fn encode_line(&self, value: &serde_json::Value) -> (r: Result<Vec<u8>, WriterError>)
        ensures
            r is Ok,
            r->Ok_0@ == json_text(json_content(*value)) + self.terminator.text(),
            line_text(json_text(json_content(*value))),
            plain(json_content(*value), readable_depth()) ==> json_parse(
                json_text(json_content(*value)),
            ) == Some(json_content(*value)),
    {
        match json_to_vec(value) {
            Ok(bytes) => {
                let mut line: Vec<u8> = bytes;
                self.terminator.terminate(&mut line);
                Ok(line)
            },
            Err(_) => Err(WriterError::new()),
        }
    }
}

/// Builds a writer for a fresh file.
pub fn jsonl_writer(format: JsonLinesFormat) -> (r: JsonLinesWriter)
    ensures
        r.terminator == format.output_terminator(),
        r.output.committed_bytes == 0,
{
    JsonLinesWriter { terminator: format.terminator, output: CommittedOutput::new() }
}

/// A text that can stand on one line.
pub open spec fn line_text(text: Seq<u8>) -> bool {
    text.len() > 0 && no_low_bytes(text)
}

/// A value written as a line, whatever follows it in the file, is read back as
/// the same line: the reader sees exactly the value's text and consumes exactly
/// what the writer wrote for it.
pub proof fn written_line_reads_back(
    text: Seq<u8>,
    terminator: JsonLinesTerminator,
    rest: Seq<u8>,
    max_bytes: nat,
)
    requires
        line_text(text),
        text.len() <= max_bytes,
    ensures
        bounded_line(text + terminator.text() + rest, max_bytes) == (LineView::Line {
            bytes: text,
            consumed: text.len() + terminator.text().len(),
        }),
{
    let input = text + terminator.text() + rest;
    let end = (text.len() + terminator.text().len() - 1) as nat;
    first_newline_is_first(input);
    let n = first_newline(input);
    assert(input[end as int] == terminator.text().last());
    assert forall|i: int| 0 <= i < end implies #[trigger] input[i] != LINE_FEED by {
        if i < text.len() {
            assert(input[i] == text[i]);
        } else {
            assert(input[i] == terminator.text()[i - text.len()]);
        }
    }
    assert(n == end) by {
        if n < end {
            assert(input[n as int] == LINE_FEED);
        }
        if end < n {
            assert(input[end as int] != LINE_FEED);
        }
    }
    assert(input[text.len() - 1] == text.last());
    assert(line_content(input) =~= text);
}

/// A line that was read is passed over, whatever it holds, and only the end of
/// input passes over nothing. Its value is the item if the line is one JSON
/// value; otherwise, and if the line is too long, it can be skipped.
pub proof fn every_line_is_passed_over(
    reader: &mut JsonLinesReader,
    line: BoundedLine,
    r: Result<ReadOutcome<serde_json::Value>, ReaderError>,
)
    requires
        call_ensures(JsonLinesReader::line_read, (reader, line), r),
        old(reader).position + consumed_by(line@) <= u64::MAX,
    ensures
        final(reader).position == old(reader).position + consumed_by(line@),
        final(reader).needs_seek == old(reader).needs_seek,
        final(reader).max_record_bytes == old(reader).max_record_bytes,
        line@ is Eof <==> r == Ok::<ReadOutcome<serde_json::Value>, ReaderError>(
            ReadOutcome::EndOfInput,
        ),
        line@ matches LineView::Line { bytes, .. } ==> (r is Ok <==> json_parse(bytes) is Some),
        line@ is TooLong ==> r is Err,
        r matches Ok(ReadOutcome::Item(value)) ==> (line@ matches LineView::Line { bytes, .. }
            && json_parse(bytes) == Some(json_content(value))),
        r matches Err(error) ==> error.category == FailureCategory::UserComponent
            && error.checkpoint_advanced,
{
}

/// A failed read or seek never moves the position, and the next call seeks to it
/// before anything is read. Such a failure may pass.
pub proof fn a_failed_source_is_sought_again(
    reader: &mut JsonLinesReader,
    r: ReaderError,
    after: &JsonLinesReader,
    target: Option<u64>,
)
    requires
        call_ensures(JsonLinesReader::read_failed, (reader,), r),
        *after == *final(reader),
        call_ensures(JsonLinesReader::seek_target, (after,), target),
    ensures
        final(reader).position == old(reader).position,
        target == Some(old(reader).position),
        r.category == FailureCategory::TransientInfrastructure,
        !r.checkpoint_advanced,
{
}

/// A seek that succeeded is not asked for again, and one that failed is.
pub proof fn a_seek_is_asked_for_until_it_succeeds(
    reader: &mut JsonLinesReader,
    succeeded: bool,
    r: Result<(), ReaderError>,
    after: &JsonLinesReader,
    target: Option<u64>,
)
    requires
        call_ensures(JsonLinesReader::sought, (reader, succeeded), r),
        *after == *final(reader),
        call_ensures(JsonLinesReader::seek_target, (after,), target),
        old(reader).needs_seek,
    ensures
        final(reader).position == old(reader).position,
        r is Ok <==> succeeded,
        target == (if succeeded {
            None
        } else {
            Some(old(reader).position)
        }),
        r matches Err(error) ==> error.category == FailureCategory::TransientInfrastructure
            && !error.checkpoint_advanced,
{
}

/// A reader that is opened with what another one had prepared goes on where that
/// one was; without inherited state it starts at the beginning, and what spells no
/// position is refused and changes nothing.
pub proof fn a_restart_goes_on_at_the_prepared_position(
    before: &JsonLinesReader,
    prepared: Result<Vec<u8>, StreamUpdateError>,
    reader: &mut JsonLinesReader,
    inherited: Option<&[u8]>,
    r: Result<StreamOpenOutcome, StreamOpenError>,
)
    requires
        call_ensures(JsonLinesReader::update, (before,), prepared),
        call_ensures(JsonLinesReader::open, (reader, inherited), r),
    ensures
        prepared is Ok,
        inherited matches Some(bytes) && bytes@ == prepared->Ok_0@ ==> final(reader).position
            == before.position && r == Ok::<StreamOpenOutcome, StreamOpenError>(
            StreamOpenOutcome::Restored,
        ),
        inherited is None ==> final(reader).position == 0 && r == Ok::<
            StreamOpenOutcome,
            StreamOpenError,
        >(StreamOpenOutcome::Initial),
        r is Err ==> *final(reader) == *old(reader),
{
}

/// A written line is the value's JSON text and the terminator: a line feed, or a
/// carriage return and a line feed.
pub proof fn a_line_ends_with_its_terminator(
    writer: &JsonLinesWriter,
    value: &serde_json::Value,
    r: Result<Vec<u8>, WriterError>,
)
    requires
        call_ensures(JsonLinesWriter::encode_line, (writer, value), r),
    ensures
        r is Ok,
        writer.terminator == JsonLinesTerminator::Lf ==> r->Ok_0@ == json_text(
            json_content(*value),
        ) + seq!['\n' as u8],
        writer.terminator == JsonLinesTerminator::CrLf ==> r->Ok_0@ == json_text(
            json_content(*value),
        ) + seq!['\r' as u8, '\n' as u8],
{
}

/// The default format: lines of at most a mebibyte, written with a bare line
/// feed.
pub proof fn the_default_format_is_this(r: JsonLinesFormat)
    requires
        call_ensures(JsonLinesFormat::new, (), r),
    ensures
        r.bound() == 1024 * 1024,
        r.output_terminator() == JsonLinesTerminator::Lf,
{
}

/// A reader starts at the first byte and seeks there before it reads; its lines
/// have the format's bound.
pub proof fn a_line_reader_keeps_its_bound(
    format: JsonLinesFormat,
    bound: usize,
    bounded: JsonLinesFormat,
    reader: JsonLinesReader,
    line: LineReader,
)
    requires
        call_ensures(JsonLinesFormat::with_max_record_bytes, (format, bound), bounded),
        call_ensures(jsonl_reader, (bounded,), reader),
        call_ensures(JsonLinesReader::next_line, (&reader,), line),
    ensures
        reader.position == 0 && reader.needs_seek,
        line.bound() == bound,
        line.taken().len() == 0,
        bounded.output_terminator() == format.output_terminator(),
{
}

/// A writer starts with nothing committed, and ends its lines as its format says.
pub proof fn a_line_writer_keeps_its_terminator(
    format: JsonLinesFormat,
    terminator: JsonLinesTerminator,
    ended: JsonLinesFormat,
    writer: JsonLinesWriter,
)
    requires
        call_ensures(JsonLinesFormat::with_terminator, (format, terminator), ended),
        call_ensures(jsonl_writer, (ended,), writer),
    ensures
        writer.terminator == terminator,
        writer.output.committed_bytes == 0,
        ended.bound() == format.bound(),
{
}

/// The names under which positions are stored, which a restart finds them by.
pub proof fn line_positions_are_stored_under_these_names()
    ensures
        READER_SCHEMA@ == "oxide-batch.jsonl-reader-position"@,
        READER_CODEC@ == "oxide-batch.jsonl-reader-position-codec"@,
        WRITER_SCHEMA@ == "oxide-batch.jsonl-writer-position"@,
        WRITER_CODEC@ == "oxide-batch.jsonl-writer-position-codec"@,
{
}

} // verus!
