//! Writing a top-level JSON array, and reading it back.
//!
//! Items are appended as they come, each with a comma before it unless it is the
//! first of the array. The closing bracket is written only when the step attempt
//! has committed; until then the array stays open for a later attempt.

use super::file_output::{reconcile_length, reconciliation, Reconciliation};
use super::json_array::{
    after_space, buffered, closes, element_from, framing, least, read_call, ArrayOutcome, Element,
    Frame, Progress, CLOSE, COMMA, INITIAL_GROWTH_BYTES, OPEN,
};
use crate::item_stream::{
    StreamOpenError, StreamOpenOutcome, StreamRuntimeOutcome, StreamUpdateError,
};
use crate::json::{
    ends_value, json_content, json_first, json_from_slice, json_insert, json_object, json_parse,
    json_text, json_to_vec, json_unsigned, plain, read_unsigned, readable_depth, starts_value,
    streams_back, unsigned_member, FirstValue, Json,
};
use crate::runtime::{FailureCategory, StateCodecError, StopToken, WriteOutcome, WriterError};
use vstd::prelude::*;

verus! {

/// The schema of a writer's position.
pub const WRITER_SCHEMA: &'static str = "oxide-batch.json-array-writer-position";

/// The codec of a writer's position.
pub const WRITER_CODEC: &'static str = "oxide-batch.json-array-writer-position-codec";

/// A writer's committed byte length and element count: both are needed to resume
/// comma state correctly.
#[derive(Clone, Copy, Debug, PartialEq, Eq, Structural)]
pub struct WriterPosition {
    /// The committed length of the file.
    pub committed_bytes: u64,
    /// The committed number of elements.
    pub committed_items: u64,
}

/// The position of a freshly created output: just the opening bracket.
pub open spec fn start_position() -> WriterPosition {
    WriterPosition { committed_bytes: 1, committed_items: 0 }
}

/// A position as JSON.
pub open spec fn position_json(position: WriterPosition) -> Json {
    Json::Object(
        map![
            "committed_bytes"@ => Json::Unsigned(position.committed_bytes),
            "committed_items"@ => Json::Unsigned(position.committed_items),
        ],
    )
}

/// The position that durable bytes spell.
pub open spec fn position_of_bytes(bytes: Seq<u8>) -> Option<WriterPosition> {
    match json_parse(bytes) {
        None => None,
        Some(json) => match (
            unsigned_member(json, "committed_bytes"@),
            unsigned_member(json, "committed_items"@),
        ) {
            (Some(committed_bytes), Some(committed_items)) => Some(
                WriterPosition { committed_bytes, committed_items },
            ),
            _ => None,
        },
    }
}

/// The codec of a writer's position.
#[derive(Clone, Copy, Debug, PartialEq, Eq, Structural)]
pub struct ArrayPositionSchema;

impl ArrayPositionSchema {
    /// Writes a position, which [`Self::decode`] reads back.
    pub fn encode(&self, value: &WriterPosition) -> (r: Result<Vec<u8>, StateCodecError>)
        ensures
            r is Ok,
            r->Ok_0@ == json_text(position_json(*value)),
            position_of_bytes(r->Ok_0@) == Some(*value),
    {
        let mut json: serde_json::Value = json_object();
        json_insert(&mut json, "committed_bytes", json_unsigned(value.committed_bytes));
        json_insert(&mut json, "committed_items", json_unsigned(value.committed_items));
        proof {
            reveal_strlit("committed_bytes");
            reveal_strlit("committed_items");
            assert("committed_bytes"@[0] == 'c' && "committed_bytes"@[10] == 'b');
            assert("committed_items"@[0] == 'c' && "committed_items"@[10] == 'i');
            reveal_with_fuel(plain, 2);
            assert(plain(position_json(*value), readable_depth()));
        }
        match json_to_vec(&json) {
            Ok(bytes) => Ok(bytes),
            Err(_) => Err(StateCodecError::InvalidPayload),
        }
    }

    /// Reads a position.
    pub fn decode(&self, payload: &[u8]) -> (r: Result<WriterPosition, StateCodecError>)
        ensures
            match r {
                Ok(position) => position_of_bytes(payload@) == Some(position),
                Err(error) => position_of_bytes(payload@) is None && error
                    == StateCodecError::InvalidPayload,
            },
    {
        let value: serde_json::Value = match json_from_slice(payload) {
            Ok(value) => value,
            Err(_) => return Err(StateCodecError::InvalidPayload),
        };
        let committed_bytes: u64 = match read_unsigned(&value, "committed_bytes") {
            Some(number) => number,
            None => return Err(StateCodecError::InvalidPayload),
        };
        let committed_items: u64 = match read_unsigned(&value, "committed_items") {
            Some(number) => number,
            None => return Err(StateCodecError::InvalidPayload),
        };
        Ok(WriterPosition { committed_bytes, committed_items })
    }
}

/// How the output file is to be opened.
#[derive(Clone, Copy, Debug, PartialEq, Eq, Structural)]
pub enum ArrayOpenPlan {
    /// Empty the file and write the opening bracket: no committed state exists,
    /// so whatever the file holds is not authoritative.
    Start,
    /// Reconcile the file to this committed position.
    Resume(WriterPosition),
}

/// The position that a plan leads to.
pub open spec fn plan_position(plan: ArrayOpenPlan) -> WriterPosition {
    match plan {
        ArrayOpenPlan::Start => start_position(),
        ArrayOpenPlan::Resume(position) => position,
    }
}

/// A user-component write failure.
pub open spec fn write_failure() -> WriterError {
    WriterError { category: FailureCategory::UserComponent, rolled_back_output: None }
}

/// The decisions of a restartable JSON-array writer.
#[derive(Clone, Copy, Debug, PartialEq, Eq, Structural)]
pub struct JsonArrayWriter {
    /// The committed progress.
    pub position: WriterPosition,
}

/// The text of an item as it is appended: with a comma before it unless it is
/// the first of the array.
pub open spec fn item_bytes(text: Seq<u8>, first: bool) -> Seq<u8> {
    if first {
        text
    } else {
        seq![COMMA] + text
    }
}

impl JsonArrayWriter {
    /// Whether a write call is over before anything is written: stop was
    /// requested, or there is nothing to write.
    pub fn begins(&self, stop: &StopToken, count: usize) -> (r: Option<WriteOutcome>)
        ensures
            r == (if stop.requested {
                Some(WriteOutcome::Stopped)
            } else if count == 0 {
                Some(WriteOutcome::Written)
            } else {
                None::<WriteOutcome>
            }),
    {
        if stop.is_stop_requested() {
            return Some(WriteOutcome::Stopped);
        }
        if count == 0 {
            return Some(WriteOutcome::Written);
        }
        None
    }

    /// The bytes of the item numbered `index` of a batch.
    pub fn encode_item(&self, index: usize, value: &serde_json::Value) -> (r: Result<
        Vec<u8>,
        WriterError,
    >)
        ensures
            r is Ok,
            r->Ok_0@ == item_bytes(
                json_text(json_content(*value)),
                self.position.committed_items == 0 && index == 0,
            ),
            plain(json_content(*value), readable_depth()) ==> element_text(
                json_text(json_content(*value)),
                json_content(*value),
            ),
    {
        let text: Vec<u8> = match json_to_vec(value) {
            Ok(text) => text,
            Err(_) => return Err(WriterError::new()),
        };
        if self.position.committed_items == 0 && index == 0 {
            return Ok(text);
        }
        let mut bytes: Vec<u8> = Vec::new();
        bytes.push(COMMA);
        let mut text: Vec<u8> = text;
        bytes.append(&mut text);
        Ok(bytes)
    }

    /// Ends a write call whose `count` items reached the file up to `position`,
    /// or did not.
    pub fn written(&mut self, position: Option<u64>, count: usize) -> (r: Result<
        WriteOutcome,
        WriterError,
    >)
        ensures
            match position {
                Some(length) => {
                    &&& final(self).position.committed_bytes == length
                    &&& final(self).position.committed_items
                        == (if old(self).position.committed_items + count > u64::MAX {
                        u64::MAX as int
                    } else {
                        old(self).position.committed_items + count
                    })
                    &&& r == Ok::<WriteOutcome, WriterError>(WriteOutcome::Written)
                },
                None => {
                    &&& *final(self) == *old(self)
                    &&& r == Err::<WriteOutcome, WriterError>(write_failure())
                },
            },
    {
        match position {
            Some(length) => {
                self.position = WriterPosition {
                    committed_bytes: length,
                    committed_items: self.position.committed_items.saturating_add(count as u64),
                };
                Ok(WriteOutcome::Written)
            },
            None => Err(WriterError::new()),
        }
    }

    /// How the output file is to be opened.
    pub fn open(&self, inherited: Option<&[u8]>) -> (r: Result<ArrayOpenPlan, StreamOpenError>)
        ensures
            match inherited {
                None => r == Ok::<ArrayOpenPlan, StreamOpenError>(ArrayOpenPlan::Start),
                Some(bytes) => match position_of_bytes(bytes@) {
                    Some(position) => r == Ok::<ArrayOpenPlan, StreamOpenError>(
                        ArrayOpenPlan::Resume(position),
                    ),
                    None => r == Err::<ArrayOpenPlan, StreamOpenError>(
                        StreamOpenError { category: FailureCategory::UserComponent },
                    ),
                },
            },
    {
        match inherited {
            None => Ok(ArrayOpenPlan::Start),
            Some(bytes) => match ArrayPositionSchema.decode(bytes) {
                Ok(position) => Ok(ArrayOpenPlan::Resume(position)),
                Err(_) => Err(StreamOpenError::new()),
            },
        }
    }

    /// What is to be done to a resumed file, whose length could be read or not:
    /// bytes that were never committed are cut off, and a file that is shorter
    /// than committed is refused.
    pub fn reconcile(&self, position: WriterPosition, actual: Option<u64>) -> (r: Result<
        Reconciliation,
        StreamOpenError,
    >)
        ensures
            r == reconciliation(position.committed_bytes, actual),
    {
        reconcile_length(position.committed_bytes, actual)
    }

    /// Ends the opening after the plan was carried out, or could not be.
    pub fn opened(&mut self, plan: ArrayOpenPlan, succeeded: bool) -> (r: Result<
        StreamOpenOutcome,
        StreamOpenError,
    >)
        ensures
            if succeeded {
                &&& final(self).position == plan_position(plan)
                &&& r == Ok::<StreamOpenOutcome, StreamOpenError>(
                    if plan is Resume {
                        StreamOpenOutcome::Restored
                    } else {
                        StreamOpenOutcome::Initial
                    },
                )
            } else {
                &&& *final(self) == *old(self)
                &&& r == Err::<StreamOpenOutcome, StreamOpenError>(
                    StreamOpenError { category: FailureCategory::UserComponent },
                )
            },
    {
        if !succeeded {
            return Err(StreamOpenError::new());
        }
        match plan {
            ArrayOpenPlan::Start => {
                self.position = WriterPosition { committed_bytes: 1, committed_items: 0 };
                Ok(StreamOpenOutcome::Initial)
            },
            ArrayOpenPlan::Resume(position) => {
                self.position = position;
                Ok(StreamOpenOutcome::Restored)
            },
        }
    }

    /// Prepares the candidate state.
    pub fn update(&self) -> (r: Result<Vec<u8>, StreamUpdateError>)
        ensures
            r is Ok,
            r->Ok_0@ == json_text(position_json(self.position)),
            position_of_bytes(r->Ok_0@) == Some(self.position),
    {
        match ArrayPositionSchema.encode(&self.position) {
            Ok(bytes) => Ok(bytes),
            Err(_) => Err(StreamUpdateError::new()),
        }
    }

    /// The offset at which the closing bracket is to be written: that of the
    /// committed end, and only if the attempt has committed.
    pub fn close(&self, outcome: StreamRuntimeOutcome) -> (r: Option<u64>)
        ensures
            r == (if outcome == StreamRuntimeOutcome::Committed {
                Some(self.position.committed_bytes)
            } else {
                None::<u64>
            }),
    {
        match outcome {
            StreamRuntimeOutcome::Committed => Some(self.position.committed_bytes),
            _ => None,
        }
    }
}

/// Builds a writer for a file that has not been opened yet.
pub fn json_array_writer() -> (r: JsonArrayWriter)
    ensures
        r.position == (WriterPosition { committed_bytes: 0, committed_items: 0 }),
{
    JsonArrayWriter { position: WriterPosition { committed_bytes: 0, committed_items: 0 } }
}

/// The text of an element that a reader finds again.
pub open spec fn element_text(text: Seq<u8>, content: Json) -> bool {
    text.len() > 0 && starts_value(text[0]) && streams_back(text, content)
}

/// An open array with the given element texts.
pub open spec fn open_array(texts: Seq<Seq<u8>>) -> Seq<u8>
    decreases texts.len(),
{
    if texts.len() == 0 {
        seq![OPEN]
    } else {
        open_array(texts.drop_last()) + item_bytes(texts.last(), texts.len() == 1)
    }
}

/// A complete array with the given element texts.
pub open spec fn complete_array(texts: Seq<Seq<u8>>) -> Seq<u8> {
    open_array(texts).push(CLOSE)
}

/// An array that is longer by some elements starts with the shorter one.
proof fn open_array_prefix(texts: Seq<Seq<u8>>, k: nat)
    requires
        k <= texts.len(),
    ensures
        open_array(texts.take(k as int)).len() <= open_array(texts).len(),
        open_array(texts).take(open_array(texts.take(k as int)).len() as int) == open_array(
            texts.take(k as int),
        ),
    decreases texts.len() - k,
{
    let part = open_array(texts.take(k as int));
    if k == texts.len() {
        assert(texts.take(k as int) =~= texts);
        assert(open_array(texts).take(part.len() as int) =~= part);
    } else {
        let more = texts.take(k as int + 1);
        open_array_prefix(texts, k + 1);
        assert(more.drop_last() =~= texts.take(k as int));
        assert(open_array(more) == part + item_bytes(more.last(), more.len() == 1));
        assert(open_array(texts).take(part.len() as int) =~= open_array(texts).take(
            open_array(more).len() as int,
        ).take(part.len() as int));
        assert(open_array(more).take(part.len() as int) =~= part);
    }
}

/// What a reader keeps after reading the first `k` elements.
pub open spec fn frame_after(texts: Seq<Seq<u8>>, k: nat) -> Frame {
    if k == 0 {
        Frame { position: 0, progress: None }
    } else {
        let end = open_array(texts.take(k as int)).len() as u64;
        Frame {
            position: end,
            progress: Some(Progress { at: end, expect_separator: true, done: false }),
        }
    }
}

/// In a source that holds an element's text and then its end, the element is
/// found, in whatever steps the buffer grows.
pub(crate) proof fn element_is_found(
    source: Seq<u8>,
    start: nat,
    text: Seq<u8>,
    content: Json,
    target: nat,
    bound: nat,
)
    requires
        element_text(text, content),
        text.len() <= bound,
        0 < target <= bound,
        start + text.len() < source.len(),
        source.subrange(start as int, start as int + text.len()) == text,
        ends_value(source[(start + text.len()) as int]),
        framing(source, start + text.len()) is Delimited,
    ensures
        element_from(source, start, target, bound) == Some(
            Element { content, end: start + text.len() },
        ),
    decreases bound - target,
{
    let end = start + text.len();
    let held = buffered(source, start, target);
    if target < text.len() {
        assert(held =~= text.take(target as int));
        assert(source[(start + target) as int] == text[target as int]);
        assert(start + target <= source.len());
        match json_first(held) {
            FirstValue::Value { offset, .. } => {
                assert(!ends_value(text[target as int]));
                assert(after_space(source, start + offset) == start + offset);
                assert(framing(source, start + offset) is NeedMore);
            },
            _ => {},
        }
        element_is_found(source, start, text, content, least(2 * target, bound), bound);
    } else {
        let rest = source.subrange(end as int, least(start + target, source.len()) as int);
        assert(held =~= text + rest);
        if rest.len() > 0 {
            assert(rest[0] == source[end as int]);
        }
    }
}

/// What a writer wrote, a reader reads back: over a complete array, whose
/// elements fit the reader's bound, the reader gives each element in order and
/// then the end of input. `texts` are the elements' texts and `contents` their
/// contents.
pub proof fn written_array_reads_back(
    texts: Seq<Seq<u8>>,
    contents: Seq<Json>,
    bound: nat,
    k: nat,
)
    requires
        texts.len() == contents.len(),
        forall|i: int| 0 <= i < texts.len() ==> element_text(#[trigger] texts[i], contents[i]),
        forall|i: int| 0 <= i < texts.len() ==> (#[trigger] texts[i]).len() <= bound,
        complete_array(texts).len() <= u64::MAX,
        k <= texts.len(),
    ensures
        k < texts.len() ==> read_call(frame_after(texts, k), complete_array(texts), bound) == (
            ArrayOutcome::Item(contents[k as int]),
            frame_after(texts, k + 1),
        ),
        k == texts.len() ==> read_call(
            frame_after(texts, k),
            complete_array(texts),
            bound,
        ).0 is End,
{
    let source = complete_array(texts);
    let part = open_array(texts.take(k as int));
    open_array_prefix(texts, k);
    let at = part.len();
    assert(part.len() > 0 && part[0] == OPEN) by {
        open_array_prefix(texts.take(k as int), 0);
        assert(texts.take(k as int).take(0) =~= Seq::<Seq<u8>>::empty());
        assert(part.take(1)[0] == OPEN);
    }
    assert(source[0] == OPEN) by {
        assert(open_array(texts).take(at as int)[0] == open_array(texts)[0]);
    }
    if k == texts.len() {
        assert(texts.take(k as int) =~= texts);
        assert(source[at as int] == CLOSE);
        assert(after_space(source, at) == at);
        assert(after_space(source, at + 1) == at + 1);
        assert(closes(source, at));
        if k == 0 {
            assert(at == 1);
            assert(after_space(source, 0) == 0);
        }
    } else {
        let text = texts[k as int];
        let content = contents[k as int];
        let more = texts.take(k as int + 1);
        let longer = open_array(more);
        open_array_prefix(texts, k + 1);
        assert(more.drop_last() =~= texts.take(k as int));
        assert(more.last() == text);
        assert(longer == part + item_bytes(text, k == 0));
        let start: nat = if k == 0 {
            at
        } else {
            at + 1
        };
        let end = longer.len();
        assert(end == start + text.len());
        assert forall|i: int| 0 <= i < end implies source[i] == longer[i] by {
            assert(open_array(texts).take(end as int)[i] == open_array(texts)[i]);
        }
        assert(source.subrange(start as int, end as int) =~= text);
        assert(source[start as int] == text[0]);
        assert(source[end as int] == COMMA || source[end as int] == CLOSE) by {
            if k + 1 < texts.len() {
                let next = texts.take(k as int + 2);
                open_array_prefix(texts, k + 2);
                assert(next.drop_last() =~= more);
                assert(open_array(next)[end as int] == COMMA);
                assert(open_array(texts).take(open_array(next).len() as int)[end as int]
                    == open_array(texts)[end as int]);
            } else {
                assert(more =~= texts);
            }
        }
        assert(end < source.len());
        let target = least(INITIAL_GROWTH_BYTES as nat, bound);
        assert(after_space(source, end) == end);
        element_is_found(source, start, text, content, target, bound);
        assert(after_space(source, start) == start);
        if k == 0 {
            assert(texts.take(0) =~= Seq::<Seq<u8>>::empty());
            assert(at == 1);
            assert(after_space(source, 0) == 0);
        } else {
            assert(source[at as int] == COMMA) by {
                assert(longer[at as int] == COMMA);
            }
            assert(after_space(source, at) == at);
        }
    }
}

/// Appending a batch to an array with some elements gives the array of all of
/// them: committed elements decide whether the batch starts with a comma.
pub proof fn batch_extends_the_array(texts: Seq<Seq<u8>>, text: Seq<u8>)
    ensures
        open_array(texts.push(text)) == open_array(texts) + item_bytes(text, texts.len() == 0),
{
    assert(texts.push(text).drop_last() =~= texts);
}

/// A comma stands before every element but the array's very first one, whether it
/// is written in the first batch or in a later one.
pub proof fn commas_separate_the_elements(
    writer: &JsonArrayWriter,
    index: usize,
    value: &serde_json::Value,
    r: Result<Vec<u8>, WriterError>,
)
    requires
        call_ensures(JsonArrayWriter::encode_item, (writer, index, value), r),
    ensures
        r is Ok,
        writer.position.committed_items + index == 0 ==> r->Ok_0@ == json_text(
            json_content(*value),
        ),
        writer.position.committed_items + index > 0 ==> r->Ok_0@ == seq![',' as u8] + json_text(
            json_content(*value),
        ),
{
}

/// A write that is to stop stops, one without items is over, and any other one
/// begins.
pub proof fn a_requested_stop_comes_before_the_items(
    writer: &JsonArrayWriter,
    stop: &StopToken,
    count: usize,
    r: Option<WriteOutcome>,
)
    requires
        call_ensures(JsonArrayWriter::begins, (writer, stop, count), r),
    ensures
        stop.requested <==> r == Some(WriteOutcome::Stopped),
        !stop.requested && count == 0 <==> r == Some(WriteOutcome::Written),
        !stop.requested && count > 0 <==> r is None,
{
}

/// Written items count, and the file's length is what was reached. A failed write
/// commits nothing.
pub proof fn written_elements_count(
    writer: &mut JsonArrayWriter,
    position: Option<u64>,
    count: usize,
    r: Result<WriteOutcome, WriterError>,
)
    requires
        call_ensures(JsonArrayWriter::written, (writer, position, count), r),
    ensures
        r is Ok <==> position is Some,
        position matches Some(length) ==> final(writer).position.committed_bytes == length && r
            == Ok::<WriteOutcome, WriterError>(WriteOutcome::Written),
        position is Some && old(writer).position.committed_items + count <= u64::MAX
            ==> final(writer).position.committed_items
                == old(writer).position.committed_items + count,
        position is None ==> *final(writer) == *old(writer),
        r matches Err(error) ==> error.category == FailureCategory::UserComponent
            && error.rolled_back_output is None,
{
}

/// A position is told by its JSON.
pub proof fn an_array_position_is_told_by_its_json(a: WriterPosition, b: WriterPosition)
    ensures
        position_json(a) == position_json(b) ==> a == b,
        unsigned_member(position_json(a), "committed_bytes"@) == Some(a.committed_bytes),
        unsigned_member(position_json(a), "committed_items"@) == Some(a.committed_items),
{
    reveal_strlit("committed_bytes");
    reveal_strlit("committed_items");
    assert("committed_bytes"@[10] == 'b');
    assert("committed_items"@[10] == 'i');
    assert(unsigned_member(position_json(a), "committed_bytes"@) == Some(a.committed_bytes));
    assert(unsigned_member(position_json(b), "committed_bytes"@) == Some(b.committed_bytes));
    assert(unsigned_member(position_json(a), "committed_items"@) == Some(a.committed_items));
    assert(unsigned_member(position_json(b), "committed_items"@) == Some(b.committed_items));
}

/// A writer that is opened with what another one had prepared resumes there;
/// without inherited state it starts with just the opening bracket. A failed
/// opening changes nothing.
pub proof fn an_array_is_resumed_where_it_was_committed(
    before: &JsonArrayWriter,
    prepared: Result<Vec<u8>, StreamUpdateError>,
    reopened: &JsonArrayWriter,
    inherited: Option<&[u8]>,
    plan: Result<ArrayOpenPlan, StreamOpenError>,
    writer: &mut JsonArrayWriter,
    succeeded: bool,
    r: Result<StreamOpenOutcome, StreamOpenError>,
)
    requires
        call_ensures(JsonArrayWriter::update, (before,), prepared),
        call_ensures(JsonArrayWriter::open, (reopened, inherited), plan),
        plan is Ok,
        call_ensures(JsonArrayWriter::opened, (writer, plan->Ok_0, succeeded), r),
    ensures
        prepared is Ok,
        r is Ok <==> succeeded,
        !succeeded ==> *final(writer) == *old(writer),
        succeeded && inherited is None ==> final(writer).position.committed_bytes == 1
            && final(writer).position.committed_items == 0 && r
                == Ok::<StreamOpenOutcome, StreamOpenError>(
            StreamOpenOutcome::Initial,
        ),
        succeeded && inherited is Some && inherited->0@ == prepared->Ok_0@
            ==> final(writer).position
            == before.position && r == Ok::<StreamOpenOutcome, StreamOpenError>(
            StreamOpenOutcome::Restored,
        ),
{
}

/// The array is closed behind its last committed element, and only once the
/// attempt has committed.
pub proof fn only_a_committed_array_is_closed(
    writer: &JsonArrayWriter,
    outcome: StreamRuntimeOutcome,
    r: Option<u64>,
)
    requires
        call_ensures(JsonArrayWriter::close, (writer, outcome), r),
    ensures
        r is Some <==> outcome is Committed,
        r matches Some(offset) ==> offset == writer.position.committed_bytes,
{
}

/// A resumed file is cut exactly if it is longer than committed, and refused if it
/// is shorter or its length is not known.
pub proof fn an_array_file_is_reconciled_to_its_committed_length(
    writer: &JsonArrayWriter,
    position: WriterPosition,
    actual: Option<u64>,
    r: Result<Reconciliation, StreamOpenError>,
)
    requires
        call_ensures(JsonArrayWriter::reconcile, (writer, position, actual), r),
    ensures
        actual is None ==> r is Err && r->Err_0.category == FailureCategory::UserComponent,
        actual matches Some(length) && length < position.committed_bytes ==> r is Err
            && r->Err_0.category == FailureCategory::Invariant,
        actual == Some(position.committed_bytes) ==> r == Ok::<Reconciliation, StreamOpenError>(
            Reconciliation::Keep,
        ),
        actual matches Some(length) && length > position.committed_bytes ==> r == Ok::<
            Reconciliation,
            StreamOpenError,
        >(Reconciliation::Truncate),
{
}

/// The names under which positions are stored, which a restart finds them by.
pub proof fn array_writer_positions_are_stored_under_these_names()
    ensures
        WRITER_SCHEMA@ == "oxide-batch.json-array-writer-position"@,
        WRITER_CODEC@ == "oxide-batch.json-array-writer-position-codec"@,
{
}

/// A position that was written is read back, and one that lacks a number is
/// refused.
pub proof fn array_positions_are_read_back(
    value: &WriterPosition,
    written: Result<Vec<u8>, StateCodecError>,
    payload: &[u8],
    read: Result<WriterPosition, StateCodecError>,
    json: Json,
)
    requires
        call_ensures(ArrayPositionSchema::encode, (&ArrayPositionSchema, value), written),
        call_ensures(ArrayPositionSchema::decode, (&ArrayPositionSchema, payload), read),
    ensures
        written is Ok,
        payload@ == written->Ok_0@ ==> read == Ok::<WriterPosition, StateCodecError>(*value),
        json_parse(payload@) is None ==> read is Err,
        json_parse(payload@) == Some(json) ==> (read is Ok <==> unsigned_member(
            json,
            "committed_bytes"@,
        ) is Some && unsigned_member(json, "committed_items"@) is Some),
{
}

} // verus!
