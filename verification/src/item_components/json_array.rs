//! Restartable streaming components over a top-level JSON array.
//!
//! One array element is one item. This module owns only the framing around `[`,
//! `,`, `]` and JSON white space; every value's own bytes are parsed by
//! `serde_json`. A value is accepted only once the bytes after it are proven to
//! be white space followed by `,` or `]`.
//!
//! [`JsonArrayReader`] decides and its caller acts: it asks for a seek or for
//! the next chunk of the source, and says how much of a chunk it has consumed.
//! There is one failure mode, and it is fail-closed: after any failure the reader
//! goes back to the last proven boundary, and its checkpoint does not move.

use super::position::{number_json, number_of_bytes, ReaderPositionSchema};
use crate::item_stream::{StreamOpenError, StreamOpenOutcome, StreamUpdateError};
use crate::json::{
    json_content, json_first, json_stream_first, json_text, FirstStep, FirstValue, Json,
};
use crate::runtime::{FailureCategory, ReadOutcome, ReaderError};
use crate::text::append_bytes;
use vstd::prelude::*;
use vstd::slice::slice_subrange;

verus! {

/// The largest single element this module accepts by default: 1 MiB.
pub const DEFAULT_MAX_VALUE_BYTES: usize = 1048576;

/// The first buffer growth step for a fresh element, before doubling.
pub const INITIAL_GROWTH_BYTES: usize = 256;

/// The schema of a reader's position.
pub const READER_SCHEMA: &'static str = "oxide-batch.json-array-reader-position";

/// The codec of a reader's position.
pub const READER_CODEC: &'static str = "oxide-batch.json-array-reader-position-codec";

/// A bounded JSON-array format configuration.
#[derive(Clone, Copy, Debug)]
pub struct JsonArrayFormat {
    max_value_bytes: usize,
}

impl JsonArrayFormat {
    /// The largest accepted element.
    pub closed spec fn bound(self) -> usize {
        self.max_value_bytes
    }

    /// The default format: [`DEFAULT_MAX_VALUE_BYTES`].
    pub fn new() -> (r: Self)
        ensures
            r.bound() == DEFAULT_MAX_VALUE_BYTES,
    {
        JsonArrayFormat { max_value_bytes: DEFAULT_MAX_VALUE_BYTES }
    }

    /// Sets the largest single element's raw byte span the reader accepts before
    /// failing closed.
    pub fn with_max_value_bytes(self, max_value_bytes: usize) -> (r: Self)
        ensures
            r.bound() == max_value_bytes,
    {
        JsonArrayFormat { max_value_bytes }
    }
}

impl Default for JsonArrayFormat {
    fn default() -> (r: Self)
        ensures
            r.bound() == DEFAULT_MAX_VALUE_BYTES,
    {
        Self::new()
    }
}

/// JSON white space.
pub open spec fn is_space(byte: u8) -> bool {
    byte == 0x20 || byte == 0x09 || byte == 0x0a || byte == 0x0d
}

/// `[`.
pub const OPEN: u8 = 0x5b;

/// `]`.
pub const CLOSE: u8 = 0x5d;

/// `,`.
pub const COMMA: u8 = 0x2c;

/// The first offset from `i` on at which `source` holds no white space.
pub open spec fn after_space(source: Seq<u8>, i: nat) -> nat
    decreases source.len() - i,
{
    if i < source.len() && is_space(source[i as int]) {
        after_space(source, i + 1)
    } else {
        i
    }
}

/// There is only white space in between.
pub(crate) proof fn after_space_skips(source: Seq<u8>, i: nat, j: nat)
    requires
        i <= j <= source.len(),
        forall|k: int| i <= k < j ==> is_space(#[trigger] source[k]),
    ensures
        after_space(source, i) == after_space(source, j),
    decreases j - i,
{
    if i < j {
        assert(is_space(source[i as int]));
        after_space_skips(source, i + 1, j);
    }
}

/// An element, and the offset of its end.
pub struct Element {
    pub content: Json,
    pub end: nat,
}

/// How a value that ends at `end` is framed.
pub enum ValueFraming {
    /// White space and a `,` or `]` follow.
    Delimited,
    /// Another byte follows directly, which may still belong to the value.
    NeedMore,
    /// Something else follows.
    Invalid,
}

/// The framing of a value that ends at `end`.
pub open spec fn framing(source: Seq<u8>, end: nat) -> ValueFraming {
    let next = after_space(source, end);
    if next < source.len() && (source[next as int] == COMMA || source[next as int] == CLOSE) {
        ValueFraming::Delimited
    } else if next < source.len() && next == end {
        ValueFraming::NeedMore
    } else {
        ValueFraming::Invalid
    }
}

/// The smaller of two numbers.
pub open spec fn least(a: nat, b: nat) -> nat {
    if a <= b {
        a
    } else {
        b
    }
}

/// The buffer of `target` bytes from `start` on, or as many as there are.
pub open spec fn buffered(source: Seq<u8>, start: nat, target: nat) -> Seq<u8> {
    source.subrange(start as int, least(start + target, source.len()) as int)
}

/// The element that starts at `start`, looked for in buffers of `target` bytes
/// and more: the buffer grows, up to `bound`, while the value is cut short or
/// may still go on.
pub open spec fn element_from(source: Seq<u8>, start: nat, target: nat, bound: nat) -> Option<
    Element,
>
    decreases bound - target,
{
    let whole = start + target <= source.len();
    match json_first(buffered(source, start, target)) {
        FirstValue::Value { content, offset } => match framing(source, start + offset) {
            ValueFraming::Delimited => Some(Element { content, end: start + offset }),
            ValueFraming::NeedMore => if whole && 0 < target < bound {
                element_from(source, start, least(2 * target, bound), bound)
            } else {
                None
            },
            ValueFraming::Invalid => None,
        },
        FirstValue::Truncated => if whole && 0 < target < bound {
            element_from(source, start, least(2 * target, bound), bound)
        } else {
            None
        },
        FirstValue::Unusable => None,
    }
}

/// The element that starts at `start`, if it has at most `bound` bytes and is
/// framed.
pub open spec fn element_at(source: Seq<u8>, start: nat, bound: nat) -> Option<Element> {
    if bound == 0 {
        None
    } else {
        element_from(source, start, least(INITIAL_GROWTH_BYTES as nat, bound), bound)
    }
}

/// How far a reader is within the array.
pub struct Progress {
    /// The offset of the last proven boundary.
    pub at: u64,
    /// A separator or the closing bracket comes next.
    pub expect_separator: bool,
    /// The array was closed.
    pub done: bool,
}

/// What a reader keeps between two calls.
pub struct Frame {
    /// The checkpoint: the offset after the last element.
    pub position: u64,
    /// The progress, unless the source's own position is not confirmed.
    pub progress: Option<Progress>,
}

/// What one read call gives.
pub enum ArrayOutcome {
    Item(Json),
    End,
    Stopped,
    Failed(ReaderError),
}

/// The failure of a malformed array. It never moves the checkpoint.
pub open spec fn malformed() -> ReaderError {
    ReaderError { category: FailureCategory::UserComponent, checkpoint_advanced: false }
}

/// The failure of a source that cannot be read or sought.
pub open spec fn unreadable() -> ReaderError {
    ReaderError { category: FailureCategory::TransientInfrastructure, checkpoint_advanced: false }
}

/// After the closing bracket at `at` there is only white space.
pub open spec fn closes(source: Seq<u8>, at: nat) -> bool {
    after_space(source, at + 1) >= source.len()
}

/// The end of the array.
pub open spec fn ended(frame: Frame) -> (ArrayOutcome, Frame) {
    (
        ArrayOutcome::End,
        Frame {
            progress: Some(Progress { at: 0, expect_separator: false, done: true }),
            ..frame
        },
    )
}

/// Reading the element that starts at `start`. A failure leaves the frame as it
/// was.
pub open spec fn read_element(frame: Frame, source: Seq<u8>, start: nat, bound: nat) -> (
    ArrayOutcome,
    Frame,
) {
    match element_at(source, start, bound) {
        Some(element) => (
            ArrayOutcome::Item(element.content),
            Frame {
                position: element.end as u64,
                progress: Some(
                    Progress { at: element.end as u64, expect_separator: true, done: false },
                ),
            },
        ),
        None => (ArrayOutcome::Failed(malformed()), frame),
    }
}

/// Reading on at the separator or closing bracket that is looked for from `from`
/// on.
pub open spec fn read_after_element(frame: Frame, source: Seq<u8>, from: nat, bound: nat) -> (
    ArrayOutcome,
    Frame,
) {
    let at = after_space(source, from);
    if at >= source.len() {
        (ArrayOutcome::Failed(malformed()), frame)
    } else if source[at as int] == CLOSE {
        if closes(source, at) {
            ended(frame)
        } else {
            (ArrayOutcome::Failed(malformed()), frame)
        }
    } else if source[at as int] == COMMA {
        read_after_comma(frame, source, at + 1, bound)
    } else {
        (ArrayOutcome::Failed(malformed()), frame)
    }
}

/// Reading on after a separator.
pub open spec fn read_after_comma(frame: Frame, source: Seq<u8>, from: nat, bound: nat) -> (
    ArrayOutcome,
    Frame,
) {
    let start = after_space(source, from);
    if start >= source.len() {
        (ArrayOutcome::Failed(malformed()), frame)
    } else {
        read_element(frame, source, start, bound)
    }
}

/// Reading on after the opening bracket.
pub open spec fn read_after_open(frame: Frame, source: Seq<u8>, from: nat, bound: nat) -> (
    ArrayOutcome,
    Frame,
) {
    let start = after_space(source, from);
    if start >= source.len() {
        (ArrayOutcome::Failed(malformed()), frame)
    } else if source[start as int] == CLOSE {
        if closes(source, start) {
            ended(frame)
        } else {
            (ArrayOutcome::Failed(malformed()), frame)
        }
    } else {
        read_element(
            Frame {
                progress: Some(
                    Progress { at: start as u64, expect_separator: false, done: false },
                ),
                ..frame
            },
            source,
            start,
            bound,
        )
    }
}

/// Reading from the start of the source.
pub open spec fn read_from_start(frame: Frame, source: Seq<u8>, from: nat, bound: nat) -> (
    ArrayOutcome,
    Frame,
) {
    let at = after_space(source, from);
    if at < source.len() && source[at as int] == OPEN {
        read_after_open(frame, source, at + 1, bound)
    } else {
        (ArrayOutcome::Failed(malformed()), frame)
    }
}

/// What a read call gives, and what the reader keeps, when nothing is wrong with
/// the source itself.
pub open spec fn read_call(frame: Frame, source: Seq<u8>, bound: nat) -> (ArrayOutcome, Frame) {
    match frame.progress {
        None => if frame.position == 0 {
            read_from_start(frame, source, 0, bound)
        } else {
            read_after_element(
                Frame {
                    progress: Some(
                        Progress { at: frame.position, expect_separator: true, done: false },
                    ),
                    ..frame
                },
                source,
                frame.position as nat,
                bound,
            )
        },
        Some(progress) => if progress.done {
            (ArrayOutcome::End, frame)
        } else if progress.expect_separator {
            read_after_element(frame, source, progress.at as nat, bound)
        } else {
            read_element(frame, source, progress.at as nat, bound)
        },
    }
}

/// What to do next within one read call.
pub enum ArrayAction {
    /// The call is over.
    Return(Result<ReadOutcome<serde_json::Value>, ReaderError>),
    /// Seek the source to this offset.
    Seek(u64),
    /// Read the next chunk of the source.
    Fill,
}

/// What a reader is doing.
enum Phase {
    Idle,
    Starting,
    Bracket,
    First,
    ClosingFirst,
    Separator,
    AfterComma,
    ClosingLast,
    Growing { buffer: Vec<u8>, start: u64, target: usize },
    Framing {
        buffer: Vec<u8>,
        start: u64,
        target: usize,
        whole: bool,
        value: serde_json::Value,
        offset: usize,
        spaced: bool,
    },
    Rewinding { value: serde_json::Value, to: u64 },
    Restoring { error: ReaderError },
}

/// What a reader is doing, by its content.
pub enum PhaseView {
    Idle,
    Starting,
    Bracket,
    First,
    ClosingFirst,
    Separator,
    AfterComma,
    ClosingLast,
    Growing { buffer: Seq<u8>, start: nat, target: nat },
    Framing {
        buffer: Seq<u8>,
        start: nat,
        target: nat,
        whole: bool,
        content: Json,
        offset: nat,
        spaced: bool,
    },
    Rewinding { content: Json, to: u64 },
    Restoring { error: ReaderError },
}

/// A reader within a call.
pub struct ReaderView {
    pub frame: Frame,
    pub phase: PhaseView,
    /// The source's own position.
    pub at: nat,
    pub bound: nat,
}

/// The source is one that the reader may be reading: what it has buffered is
/// what the source holds.
pub open spec fn consistent(v: ReaderView, source: Seq<u8>) -> bool {
    match v.phase {
        PhaseView::Growing { buffer, start, target } => {
            &&& v.at == start + buffer.len()
            &&& v.at <= source.len()
            &&& buffer == source.subrange(start as int, v.at as int)
        },
        PhaseView::Framing { buffer, start, target, whole, content, offset, spaced } => {
            &&& buffer == buffered(source, start, target)
            &&& start + buffer.len() <= v.at <= source.len()
            &&& whole == (start + target <= source.len())
            &&& json_first(buffer) == (FirstValue::Value { content, offset })
            &&& spaced == (start + offset < v.at)
            &&& forall|k: int| start + offset <= k < v.at ==> is_space(#[trigger] source[k])
        },
        _ => true,
    }
}

/// What the call under way gives in the end, if nothing is wrong with the source
/// itself.
pub open spec fn call_result(v: ReaderView, source: Seq<u8>) -> (ArrayOutcome, Frame) {
    match v.phase {
        PhaseView::Idle | PhaseView::Starting => read_call(v.frame, source, v.bound),
        PhaseView::Bracket => read_from_start(v.frame, source, v.at, v.bound),
        PhaseView::First => read_after_open(v.frame, source, v.at, v.bound),
        PhaseView::ClosingFirst | PhaseView::ClosingLast => if after_space(source, v.at)
            >= source.len() {
            ended(v.frame)
        } else {
            (ArrayOutcome::Failed(malformed()), v.frame)
        },
        PhaseView::Separator => read_after_element(v.frame, source, v.at, v.bound),
        PhaseView::AfterComma => read_after_comma(v.frame, source, v.at, v.bound),
        PhaseView::Growing { start, target, .. } => settled(
            v.frame,
            element_from(source, start, target, v.bound),
        ),
        PhaseView::Framing { start, target, .. } => settled(
            v.frame,
            element_from(source, start, target, v.bound),
        ),
        PhaseView::Rewinding { content, to } => (
            ArrayOutcome::Item(content),
            Frame {
                position: to,
                progress: Some(Progress { at: to, expect_separator: true, done: false }),
            },
        ),
        PhaseView::Restoring { error } => (ArrayOutcome::Failed(error), v.frame),
    }
}

/// The end of a call that looked for an element.
pub open spec fn settled(frame: Frame, element: Option<Element>) -> (ArrayOutcome, Frame) {
    match element {
        Some(element) => (
            ArrayOutcome::Item(element.content),
            Frame {
                position: element.end as u64,
                progress: Some(
                    Progress { at: element.end as u64, expect_separator: true, done: false },
                ),
            },
        ),
        None => (ArrayOutcome::Failed(malformed()), frame),
    }
}

/// How many more chunks the reader may look at in this phase without consuming a
/// byte of them. Together with what is left of the source it bounds the chunks
/// that a call asks for.
pub open spec fn looks_left(phase: PhaseView) -> nat {
    match phase {
        PhaseView::First | PhaseView::AfterComma => 2,
        PhaseView::Framing { whole, .. } => if whole {
            2
        } else {
            0
        },
        PhaseView::Growing { .. } => 1,
        _ => 0,
    }
}

/// The element that is looked for, if one is, may end at `end`: after its own
/// start, and at most `bound` bytes after it.
pub open spec fn ends_within(v: ReaderView, end: nat) -> bool {
    match v.phase {
        PhaseView::Growing { start, .. } => start < end <= start + v.bound,
        PhaseView::Framing { start, .. } => start < end <= start + v.bound,
        _ => false,
    }
}

/// The outcome that a returned result stands for.
pub open spec fn outcome_of(
    result: Result<ReadOutcome<serde_json::Value>, ReaderError>,
) -> ArrayOutcome {
    match result {
        Ok(ReadOutcome::Item(value)) => ArrayOutcome::Item(json_content(value)),
        Ok(ReadOutcome::EndOfInput) => ArrayOutcome::End,
        Ok(ReadOutcome::Stopped) => ArrayOutcome::Stopped,
        Err(error) => ArrayOutcome::Failed(error),
    }
}

/// The next chunk of a source that is read from `at`: some bytes, or none at
/// the end.
pub open spec fn is_next_chunk(source: Seq<u8>, at: nat, chunk: Seq<u8>) -> bool {
    if chunk.len() == 0 {
        at >= source.len()
    } else {
        at + chunk.len() <= source.len() && chunk == source.subrange(
            at as int,
            at as int + chunk.len(),
        )
    }
}

/// A step of the call keeps what the call gives in the end: the step's action
/// returns it, or the reader goes on towards it.
pub open spec fn keeps_result(
    before: ReaderView,
    after: ReaderView,
    action: ArrayAction,
    source: Seq<u8>,
) -> bool {
    match action {
        ArrayAction::Return(result) => {
            &&& after.phase is Idle
            &&& call_result(before, source) == (outcome_of(result), after.frame)
        },
        _ => {
            &&& consistent(after, source)
            &&& call_result(after, source) == call_result(before, source)
        },
    }
}

/// A reader that is about to read an element is within the source.
pub open spec fn lies_within(v: ReaderView, source: Seq<u8>) -> bool {
    v.frame.progress matches Some(progress) ==> progress.done || progress.expect_separator || v.at
        <= source.len()
}

/// What leading white space in a chunk means for the source.
proof fn space_step(source: Seq<u8>, at: nat, chunk: Seq<u8>, n: nat)
    requires
        is_next_chunk(source, at, chunk),
        n <= chunk.len(),
        forall|k: int| 0 <= k < n ==> is_space(#[trigger] chunk[k]),
        n < chunk.len() ==> !is_space(chunk[n as int]),
    ensures
        after_space(source, at) == after_space(source, at + n),
        chunk.len() == 0 ==> after_space(source, at) >= source.len(),
        n < chunk.len() ==> after_space(source, at) == at + n && at + n < source.len()
            && source[(at + n) as int] == chunk[n as int],
{
    if chunk.len() > 0 {
        assert forall|k: int| at <= k < at + n implies is_space(#[trigger] source[k]) by {
            assert(source[k] == chunk[k - at]);
        }
        after_space_skips(source, at, at + n);
        if n < chunk.len() {
            assert(source[(at + n) as int] == chunk[n as int]);
        }
    }
}

/// The number of leading white space bytes.
fn space_run(bytes: &[u8]) -> (r: usize)
    ensures
        r <= bytes@.len(),
        forall|k: int| 0 <= k < r ==> is_space(#[trigger] bytes@[k]),
        r < bytes@.len() ==> !is_space(bytes@[r as int]),
{
    let mut i: usize = 0;
    while i < bytes.len() && (bytes[i] == 0x20 || bytes[i] == 0x09 || bytes[i] == 0x0a || bytes[i]
        == 0x0d)
        invariant
            i <= bytes@.len(),
            forall|k: int| 0 <= k < i ==> is_space(#[trigger] bytes@[k]),
        decreases bytes.len() - i,
    {
        i = i + 1;
    }
    i
}

/// A restartable reader over a top-level JSON-array source.
pub struct JsonArrayReader {
    max_value_bytes: usize,
    position: u64,
    consumed_absolute: u64,
    expect_separator: bool,
    done: bool,
    started: bool,
    phase: Phase,
    // The source's own position.
    offset: u64,
}

impl View for JsonArrayReader {
    type V = ReaderView;

    closed spec fn view(&self) -> ReaderView {
        ReaderView {
            frame: self.frame(),
            phase: self.phase_view(),
            at: self.offset as nat,
            bound: self.max_value_bytes as nat,
        }
    }
}

impl JsonArrayReader {
    spec fn frame(&self) -> Frame {
        Frame {
            position: self.position,
            progress: if !self.started {
                None
            } else if self.done {
                Some(Progress { at: 0, expect_separator: false, done: true })
            } else {
                Some(
                    Progress {
                        at: self.consumed_absolute,
                        expect_separator: self.expect_separator,
                        done: false,
                    },
                )
            },
        }
    }

    spec fn phase_view(&self) -> PhaseView {
        match self.phase {
            Phase::Idle => PhaseView::Idle,
            Phase::Starting => PhaseView::Starting,
            Phase::Bracket => PhaseView::Bracket,
            Phase::First => PhaseView::First,
            Phase::ClosingFirst => PhaseView::ClosingFirst,
            Phase::Separator => PhaseView::Separator,
            Phase::AfterComma => PhaseView::AfterComma,
            Phase::ClosingLast => PhaseView::ClosingLast,
            Phase::Growing { buffer, start, target } => PhaseView::Growing {
                buffer: buffer@,
                start: start as nat,
                target: target as nat,
            },
            Phase::Framing { buffer, start, target, whole, value, offset, spaced } => {
                PhaseView::Framing {
                    buffer: buffer@,
                    start: start as nat,
                    target: target as nat,
                    whole,
                    content: json_content(value),
                    offset: offset as nat,
                    spaced,
                }
            },
            Phase::Rewinding { value, to } => PhaseView::Rewinding {
                content: json_content(value),
                to,
            },
            Phase::Restoring { error } => PhaseView::Restoring { error },
        }
    }

    /// The state is one that the calls lead to.
    pub closed spec fn wf(&self) -> bool {
        match self.phase {
            Phase::Idle => self.started && !self.done ==> self.offset == self.consumed_absolute,
            Phase::Starting | Phase::Bracket | Phase::First | Phase::ClosingFirst => !self.started
                && !self.done,
            Phase::Growing { buffer, start, target } => {
                &&& self.started && !self.done
                &&& buffer@.len() < target <= self.max_value_bytes
                &&& start + buffer@.len() == self.offset
            },
            Phase::Framing { buffer, start, target, whole, value, offset, spaced } => {
                &&& self.started && !self.done
                &&& 0 < target <= self.max_value_bytes
                &&& 0 < offset <= buffer@.len() <= target
                &&& whole == (buffer@.len() == target)
                &&& start + buffer@.len() <= self.offset
                &&& spaced == (start + offset < self.offset)
            },
            _ => self.started && !self.done,
        }
    }

    /// The reader waits for a chunk.
    pub open spec fn fills(&self) -> bool {
        self@.phase is Bracket || self@.phase is First || self@.phase is ClosingFirst
            || self@.phase is Separator || self@.phase is AfterComma || self@.phase is ClosingLast
            || self@.phase is Growing || self@.phase is Framing
    }

    /// The offset that the reader waits to be sought to, if it does.
    pub open spec fn seek_target(&self) -> Option<u64> {
        match self@.phase {
            PhaseView::Starting => Some(self@.frame.position),
            PhaseView::Rewinding { to, .. } => Some(to),
            PhaseView::Restoring { .. } => Some(self@.frame.progress->0.at),
            _ => None,
        }
    }

    /// The action is the one that the reader waits for.
    pub open spec fn awaits(&self, action: ArrayAction) -> bool {
        match action {
            ArrayAction::Return(_) => self@.phase is Idle,
            ArrayAction::Seek(to) => self.seek_target() == Some(to),
            ArrayAction::Fill => self.fills(),
        }
    }

    /// Gives a failed call up: goes back to the last proven boundary.
    fn restore(&mut self, error: ReaderError) -> (r: ArrayAction)
        requires
            old(self).started,
            !old(self).done,
        ensures
            final(self).wf(),
            final(self).awaits(r),
            final(self)@ == (ReaderView { phase: PhaseView::Restoring { error }, ..old(self)@ }),
            r == ArrayAction::Seek(old(self).consumed_absolute),
    {
        self.phase = Phase::Restoring { error };
        ArrayAction::Seek(self.consumed_absolute)
    }

    /// Starts looking for the element at `start`.
    fn begin_element(&mut self, start: u64) -> (r: ArrayAction)
        requires
            old(self).started,
            !old(self).done,
            old(self).offset == start,
        ensures
            final(self).wf(),
            final(self).awaits(r),
            !(r is Return),
            r is Seek <==> old(self)@.bound == 0,
            r is Fill ==> final(self)@.phase is Growing,
            !(final(self)@.phase is Rewinding),
            final(self)@.frame == old(self)@.frame,
            final(self)@.bound == old(self)@.bound,
            final(self)@.at == old(self)@.at,
            forall|source: Seq<u8>|
                start <= source.len() ==> #[trigger] consistent(final(self)@, source)
                    && call_result(final(self)@, source) == read_element(
                    old(self)@.frame,
                    source,
                    start as nat,
                    old(self)@.bound,
                ),
    {
        if self.max_value_bytes == 0 {
            return self.restore(ReaderError::new());
        }
        let mut target: usize = INITIAL_GROWTH_BYTES;
        if self.max_value_bytes < target {
            target = self.max_value_bytes;
        }
        self.phase = Phase::Growing { buffer: Vec::new(), start, target };
        assert forall|source: Seq<u8>| start <= source.len() implies #[trigger] consistent(
            self@,
            source,
        ) && call_result(self@, source) == read_element(
            old(self)@.frame,
            source,
            start as nat,
            old(self)@.bound,
        ) by {
            assert(source.subrange(start as int, start as int) =~= Seq::<u8>::empty());
        }
        ArrayAction::Fill
    }

    /// Looks for the element in a larger buffer, if that may help.
    fn need_more(&mut self, buffer: Vec<u8>, start: u64, target: usize, whole: bool) -> (r:
        ArrayAction)
        requires
            old(self).started,
            !old(self).done,
            0 < target <= old(self).max_value_bytes,
            whole == (buffer@.len() == target),
            start + buffer@.len() == old(self).offset,
        ensures
            final(self).wf(),
            final(self).awaits(r),
            !(r is Return),
            final(self)@.frame == old(self)@.frame,
            final(self)@.bound == old(self)@.bound,
            final(self)@.at == old(self)@.at,
            if whole && target < old(self)@.bound {
                &&& r is Fill
                &&& final(self)@.phase == (PhaseView::Growing {
                    buffer: buffer@,
                    start: start as nat,
                    target: least((2 * target) as nat, old(self)@.bound),
                })
            } else {
                &&& final(self)@.phase == (PhaseView::Restoring { error: malformed() })
            },
    {
        if whole && target < self.max_value_bytes {
            let mut next: usize = self.max_value_bytes;
            if target <= self.max_value_bytes / 2 {
                next = 2 * target;
            }
            self.phase = Phase::Growing { buffer, start, target: next };
            ArrayAction::Fill
        } else {
            self.restore(ReaderError::new())
        }
    }

    /// Looks for the element in a full buffer.
    fn attempt(&mut self, buffer: Vec<u8>, start: u64, target: usize, whole: bool) -> (r:
        ArrayAction)
        requires
            old(self).started,
            !old(self).done,
            0 < target <= old(self).max_value_bytes,
            buffer@.len() <= target,
            whole == (buffer@.len() == target),
            start + buffer@.len() == old(self).offset,
        ensures
            final(self).wf(),
            final(self).awaits(r),
            !(r is Return),
            r is Fill ==> match final(self)@.phase {
                PhaseView::Growing { .. } => whole,
                PhaseView::Framing { whole: kept, .. } => kept == whole,
                _ => false,
            },
            final(self)@.phase matches PhaseView::Rewinding { to, .. } ==> start < to <= start
                + old(self)@.bound,
            final(self)@.frame == old(self)@.frame,
            final(self)@.bound == old(self)@.bound,
            final(self)@.at == old(self)@.at,
            forall|source: Seq<u8>|
                buffer@ == buffered(source, start as nat, target as nat) && start + buffer@.len()
                    <= source.len() && whole == (start + target <= source.len())
                    ==> #[trigger] consistent(final(self)@, source) && call_result(
                    final(self)@,
                    source,
                ) == settled(
                    old(self)@.frame,
                    element_from(source, start as nat, target as nat, old(self)@.bound),
                ),
    {
        let ghost bytes = buffer@;
        let ghost at = self.offset as nat;
        match json_stream_first(buffer.as_slice()) {
            FirstStep::Unusable => self.restore(ReaderError::new()),
            FirstStep::Truncated => {
                let action = self.need_more(buffer, start, target, whole);
                assert forall|source: Seq<u8>|
                    bytes == buffered(source, start as nat, target as nat) && start + bytes.len()
                        <= source.len() && whole == (start + target
                        <= source.len()) implies #[trigger] consistent(self@, source)
                    && call_result(self@, source) == settled(
                    old(self)@.frame,
                    element_from(source, start as nat, target as nat, old(self)@.bound),
                ) by {
                    assert(source.subrange(start as int, at as int) =~= bytes);
                }
                action
            },
            FirstStep::Value(value, offset) => {
                let suffix: &[u8] = slice_subrange(buffer.as_slice(), offset, buffer.len());
                let run: usize = space_run(suffix);
                let end: u64 = start + offset as u64;
                let ghost content = json_content(value);
                if run < suffix.len() {
                    let byte: u8 = suffix[run];
                    proof {
                        assert forall|source: Seq<u8>|
                            bytes == buffered(source, start as nat, target as nat) && start
                                + bytes.len() <= source.len() implies #[trigger] after_space(
                            source,
                            end as nat,
                        ) == end + run && source[end + run] == byte && end + run < source.len() by {
                            assert forall|k: int| end <= k < end + run implies is_space(
                                #[trigger] source[k],
                            ) by {
                                assert(bytes[k - start] == source[k]);
                                assert(suffix@[k - end] == bytes[k - start]);
                            }
                            assert(bytes[offset + run] == source[end + run]);
                            assert(suffix@[run as int] == bytes[offset + run]);
                            after_space_skips(source, end as nat, (end + run) as nat);
                        }
                    }
                    if byte == COMMA || byte == CLOSE {
                        self.phase = Phase::Rewinding { value, to: end };
                        assert forall|source: Seq<u8>|
                            bytes == buffered(source, start as nat, target as nat) && start
                                + bytes.len() <= source.len() && whole == (start + target
                                <= source.len()) implies #[trigger] consistent(self@, source)
                            && call_result(self@, source) == settled(
                            old(self)@.frame,
                            element_from(source, start as nat, target as nat, old(self)@.bound),
                        ) by {
                            assert(after_space(source, end as nat) == end + run);
                        }
                        return ArrayAction::Seek(end);
                    }
                    let action = if run == 0 {
                        self.need_more(buffer, start, target, whole)
                    } else {
                        self.restore(ReaderError::new())
                    };
                    assert forall|source: Seq<u8>|
                        bytes == buffered(source, start as nat, target as nat) && start
                            + bytes.len() <= source.len() && whole == (start + target
                            <= source.len()) implies #[trigger] consistent(self@, source)
                        && call_result(self@, source) == settled(
                        old(self)@.frame,
                        element_from(source, start as nat, target as nat, old(self)@.bound),
                    ) by {
                        assert(after_space(source, end as nat) == end + run);
                        assert(source.subrange(start as int, at as int) =~= bytes);
                    }
                    action
                } else {
                    let spaced: bool = offset < buffer.len();
                    self.phase = Phase::Framing {
                        buffer,
                        start,
                        target,
                        whole,
                        value,
                        offset,
                        spaced,
                    };
                    assert forall|source: Seq<u8>|
                        bytes == buffered(source, start as nat, target as nat) && start
                            + bytes.len() <= source.len() && whole == (start + target
                            <= source.len()) implies #[trigger] consistent(self@, source)
                        && call_result(self@, source) == settled(
                        old(self)@.frame,
                        element_from(source, start as nat, target as nat, old(self)@.bound),
                    ) by {
                        assert forall|k: int| end <= k < at implies is_space(
                            #[trigger] source[k],
                        ) by {
                            assert(bytes[k - start] == source[k]);
                            assert(suffix@[k - end] == bytes[k - start]);
                        }
                    }
                    ArrayAction::Fill
                }
            },
        }
    }

    /// Begins a read call.
    pub fn read(&mut self) -> (r: ArrayAction)
        requires
            old(self).wf(),
            old(self)@.phase is Idle,
        ensures
            final(self).wf(),
            final(self).awaits(r),
            final(self)@.frame == old(self)@.frame,
            final(self)@.at == old(self)@.at,
            final(self)@.bound == old(self)@.bound,
            match old(self)@.frame.progress {
                None => r == ArrayAction::Seek(old(self)@.frame.position)
                    && final(self)@.phase is Starting,
                Some(progress) => {
                    &&& r is Return <==> progress.done
                    &&& r is Seek <==> !progress.done && !progress.expect_separator
                        && old(self)@.bound == 0
                },
            },
            forall|source: Seq<u8>|
                lies_within(old(self)@, source) ==> #[trigger] keeps_result(
                    old(self)@,
                    final(self)@,
                    r,
                    source,
                ),
    {
        if !self.started {
            self.done = false;
            self.phase = Phase::Starting;
            return ArrayAction::Seek(self.position);
        }
        if self.done {
            return ArrayAction::Return(Ok(ReadOutcome::EndOfInput));
        }
        if self.expect_separator {
            self.phase = Phase::Separator;
            return ArrayAction::Fill;
        }
        let action = self.begin_element(self.consumed_absolute);
        assert forall|source: Seq<u8>| lies_within(old(self)@, source)
            implies #[trigger] keeps_result(
            old(self)@,
            self@,
            action,
            source,
        ) by {
            assert(consistent(self@, source));
        }
        action
    }

    /// Takes what came of the seek that the last action asked for.
    pub fn sought(&mut self, succeeded: bool) -> (r: ArrayAction)
        requires
            old(self).wf(),
            old(self).seek_target() is Some,
        ensures
            final(self).wf(),
            final(self).awaits(r),
            final(self)@.bound == old(self)@.bound,
            if succeeded {
                &&& r is Fill <==> old(self)@.phase is Starting
                &&& !(r is Seek)
                &&& final(self)@.at == old(self).seek_target()->0
                &&& forall|source: Seq<u8>| #[trigger]
                    keeps_result(old(self)@, final(self)@, r, source)
            } else {
                &&& r == ArrayAction::Return(Err(unreadable()))
                &&& final(self)@.frame == (Frame { progress: None, ..old(self)@.frame })
            },
    {
        let mut phase: Phase = Phase::Idle;
        std::mem::swap(&mut phase, &mut self.phase);
        if !succeeded {
            self.started = false;
            return ArrayAction::Return(
                Err(ReaderError::with_category(FailureCategory::TransientInfrastructure)),
            );
        }
        match phase {
            Phase::Rewinding { value, to } => {
                self.offset = to;
                self.consumed_absolute = to;
                self.position = to;
                self.expect_separator = true;
                ArrayAction::Return(Ok(ReadOutcome::Item(value)))
            },
            Phase::Restoring { error } => {
                self.offset = self.consumed_absolute;
                ArrayAction::Return(Err(error))
            },
            _ => {
                self.offset = self.position;
                if self.position == 0 {
                    self.phase = Phase::Bracket;
                } else {
                    self.consumed_absolute = self.position;
                    self.expect_separator = true;
                    self.started = true;
                    self.phase = Phase::Separator;
                }
                ArrayAction::Fill
            },
        }
    }

    /// Takes that the chunk could not be read. Within the array the reader goes
    /// back to the last proven boundary; before it, the next call starts over.
    pub fn fill_failed(&mut self) -> (r: ArrayAction)
        requires
            old(self).wf(),
            old(self).fills(),
        ensures
            final(self).wf(),
            final(self).awaits(r),
            final(self)@.frame == old(self)@.frame,
            final(self)@.bound == old(self)@.bound,
            if old(self)@.frame.progress is None {
                r == ArrayAction::Return(Err(unreadable()))
            } else {
                &&& r is Seek
                &&& final(self)@.phase == (PhaseView::Restoring { error: unreadable() })
            },
    {
        let error = ReaderError::with_category(FailureCategory::TransientInfrastructure);
        if self.started {
            self.restore(error)
        } else {
            self.phase = Phase::Idle;
            ArrayAction::Return(Err(error))
        }
    }

    /// A chunk for the buffer in which an element is looked for.
    fn fill_buffer(&mut self, available: &[u8]) -> (r: (usize, ArrayAction))
        requires
            old(self).wf(),
            old(self)@.phase is Growing,
            old(self)@.at + available@.len() <= u64::MAX,
        ensures
            final(self).wf(),
            final(self).awaits(r.1),
            final(self)@.bound == old(self)@.bound,
            r.0 <= available@.len(),
            final(self)@.at == old(self)@.at + r.0,
            r.1 is Fill && r.0 == 0 ==> looks_left(final(self)@.phase) < looks_left(
                old(self)@.phase,
            ),
            final(self)@.phase matches PhaseView::Rewinding { to, .. } ==> ends_within(
                old(self)@,
                to as nat,
            ),
            forall|source: Seq<u8>| #[trigger]
                is_next_chunk(source, old(self)@.at, available@) && consistent(old(self)@, source)
                    ==> keeps_result(old(self)@, final(self)@, r.1, source),
    {
        let ghost before = self@;
        let ghost at = self.offset as nat;
        let ghost chunk = available@;
        let length: usize = available.len();
        let mut phase: Phase = Phase::Idle;
        std::mem::swap(&mut phase, &mut self.phase);
        let (buffer, start, target) = match phase {
            Phase::Growing { buffer, start, target } => (buffer, start, target),
            _ => (Vec::new(), 0, 0),
        };
        let ghost held = buffer@;
        if length == 0 {
            let action = self.attempt(buffer, start, target, false);
            assert forall|source: Seq<u8>| #[trigger]
                is_next_chunk(source, at, chunk) && consistent(
                    before,
                    source,
                ) implies keeps_result(before, self@, action, source) by {
                assert(buffered(source, start as nat, target as nat) =~= held);
                assert(consistent(self@, source));
            }
            return (0, action);
        }
        let mut buffer: Vec<u8> = buffer;
        let mut take: usize = target - buffer.len();
        if length < take {
            take = length;
        }
        append_bytes(&mut buffer, slice_subrange(available, 0, take));
        self.offset = self.offset + take as u64;
        let ghost grown = buffer@;
        let action: ArrayAction;
        if buffer.len() == target {
            action = self.attempt(buffer, start, target, true);
        } else {
            self.phase = Phase::Growing { buffer, start, target };
            action = ArrayAction::Fill;
        }
        assert forall|source: Seq<u8>| #[trigger]
            is_next_chunk(source, at, chunk) && consistent(
                before,
                source,
            ) implies keeps_result(before, self@, action, source) by {
            assert(source.subrange(start as int, at as int + take) =~= grown);
            if grown.len() == target {
                assert(buffered(source, start as nat, target as nat) =~= grown);
            }
            assert(consistent(self@, source));
        }
        (take, action)
    }

    /// A chunk behind the buffer, in which a value's framing is looked for.
    fn fill_after_value(&mut self, available: &[u8]) -> (r: (usize, ArrayAction))
        requires
            old(self).wf(),
            old(self)@.phase is Framing,
            old(self)@.at + available@.len() <= u64::MAX,
        ensures
            final(self).wf(),
            final(self).awaits(r.1),
            final(self)@.bound == old(self)@.bound,
            r.0 <= available@.len(),
            final(self)@.at == old(self)@.at + r.0,
            r.1 is Fill && r.0 == 0 ==> looks_left(final(self)@.phase) < looks_left(
                old(self)@.phase,
            ),
            final(self)@.phase matches PhaseView::Rewinding { to, .. } ==> ends_within(
                old(self)@,
                to as nat,
            ),
            forall|source: Seq<u8>| #[trigger]
                is_next_chunk(source, old(self)@.at, available@) && consistent(old(self)@, source)
                    ==> keeps_result(old(self)@, final(self)@, r.1, source),
    {
        let ghost before = self@;
        let ghost at = self.offset as nat;
        let ghost chunk = available@;
        let length: usize = available.len();
        let mut phase: Phase = Phase::Idle;
        std::mem::swap(&mut phase, &mut self.phase);
        match phase {
            Phase::Framing { buffer, start, target, whole, value, offset, spaced } => {
                let run: usize = space_run(available);
                let end: u64 = start + offset as u64;
                let ghost held = buffer@;
                let ghost content = json_content(value);
                self.offset = self.offset + run as u64;
                proof {
                    assert forall|source: Seq<u8>| #[trigger]
                        is_next_chunk(source, at, chunk) && consistent(
                            before,
                            source,
                        ) implies after_space(source, end as nat) == after_space(
                        source,
                        (at + run) as nat,
                    ) by {
                        space_step(source, at, chunk, run as nat);
                        after_space_skips(source, end as nat, at);
                    }
                }
                if run == length {
                    if length == 0 {
                        let action = self.restore(ReaderError::new());
                        assert forall|source: Seq<u8>| #[trigger]
                            is_next_chunk(source, at, chunk) && consistent(
                                before,
                                source,
                            ) implies keeps_result(before, self@, action, source) by {
                            space_step(source, at, chunk, 0);
                        }
                        return (0, action);
                    }
                    self.phase = Phase::Framing {
                        buffer,
                        start,
                        target,
                        whole,
                        value,
                        offset,
                        spaced: true,
                    };
                    assert forall|source: Seq<u8>| #[trigger]
                        is_next_chunk(source, at, chunk) && consistent(
                            before,
                            source,
                        ) implies keeps_result(before, self@, ArrayAction::Fill, source) by {
                        assert forall|k: int| end <= k < at + run implies is_space(
                            #[trigger] source[k],
                        ) by {
                            if k >= at {
                                assert(source[k] == chunk[k - at]);
                            }
                        }
                        assert(consistent(self@, source));
                    }
                    return (run, ArrayAction::Fill);
                }
                let byte: u8 = available[run];
                proof {
                    assert forall|source: Seq<u8>| #[trigger]
                        is_next_chunk(source, at, chunk) && consistent(
                            before,
                            source,
                        ) implies after_space(source, end as nat) == at + run && at + run
                        < source.len() && source[at + run] == byte by {
                        space_step(source, at, chunk, run as nat);
                    }
                }
                let action: ArrayAction;
                if byte == COMMA || byte == CLOSE {
                    self.phase = Phase::Rewinding { value, to: end };
                    action = ArrayAction::Seek(end);
                } else if spaced || run > 0 {
                    action = self.restore(ReaderError::new());
                } else {
                    action = self.need_more(buffer, start, target, whole);
                }
                assert forall|source: Seq<u8>| #[trigger]
                    is_next_chunk(source, at, chunk) && consistent(
                        before,
                        source,
                    ) implies keeps_result(before, self@, action, source) by {
                    assert(after_space(source, end as nat) == at + run);
                    if !(spaced || run > 0) {
                        assert(source.subrange(start as int, at as int) =~= held);
                    }
                    assert(consistent(self@, source));
                }
                (run, action)
            },
            _ => (0, ArrayAction::Fill),
        }
    }

    /// A chunk in which white space is skipped before the array's next framing byte.
    fn fill_frame(&mut self, available: &[u8]) -> (r: (usize, ArrayAction))
        requires
            old(self).wf(),
            old(self).fills(),
            !(old(self)@.phase is Growing),
            !(old(self)@.phase is Framing),
            old(self)@.at + available@.len() <= u64::MAX,
        ensures
            final(self).wf(),
            final(self).awaits(r.1),
            final(self)@.bound == old(self)@.bound,
            r.0 <= available@.len(),
            final(self)@.at == old(self)@.at + r.0,
            r.1 is Fill && r.0 == 0 ==> looks_left(final(self)@.phase) < looks_left(
                old(self)@.phase,
            ),
            final(self)@.phase matches PhaseView::Rewinding { to, .. } ==> ends_within(
                old(self)@,
                to as nat,
            ),
            forall|source: Seq<u8>| #[trigger]
                is_next_chunk(source, old(self)@.at, available@) && consistent(old(self)@, source)
                    ==> keeps_result(old(self)@, final(self)@, r.1, source),
    {
        let ghost before = self@;
        let ghost at = self.offset as nat;
        let ghost chunk = available@;
        let length: usize = available.len();
        let mut phase: Phase = Phase::Idle;
        std::mem::swap(&mut phase, &mut self.phase);
        let run: usize = space_run(available);
        self.offset = self.offset + run as u64;
        proof {
            assert forall|source: Seq<u8>| #[trigger]
                is_next_chunk(source, at, chunk) implies {
                &&& after_space(source, at) == after_space(source, (at + run) as nat)
                &&& chunk.len() == 0 ==> after_space(source, at) >= source.len()
                &&& run < chunk.len() ==> after_space(source, at) == at + run && at + run
                    < source.len() && source[at + run] == chunk[run as int]
            } by {
                space_step(source, at, chunk, run as nat);
            }
        }
        if run == length && length > 0 {
            self.phase = phase;
            assert forall|source: Seq<u8>| #[trigger]
                is_next_chunk(source, at, chunk) implies keeps_result(
                before,
                self@,
                ArrayAction::Fill,
                source,
            ) by {}
            return (run, ArrayAction::Fill);
        }
        let at_end: bool = run == length;
        let byte: u8 = if at_end {
            0
        } else {
            available[run]
        };
        let mut consumed: usize = run;
        let action: ArrayAction;
        match phase {
            Phase::Bracket => {
                if !at_end && byte == OPEN {
                    consumed = run + 1;
                    self.offset = self.offset + 1;
                    self.phase = Phase::First;
                    action = ArrayAction::Fill;
                } else {
                    action = ArrayAction::Return(Err(ReaderError::new()));
                }
            },
            Phase::First => {
                if at_end {
                    action = ArrayAction::Return(Err(ReaderError::new()));
                } else if byte == CLOSE {
                    consumed = run + 1;
                    self.offset = self.offset + 1;
                    self.phase = Phase::ClosingFirst;
                    action = ArrayAction::Fill;
                } else {
                    self.started = true;
                    self.expect_separator = false;
                    self.consumed_absolute = self.offset;
                    action = self.begin_element(self.offset);
                }
            },
            Phase::ClosingFirst => {
                if at_end {
                    self.started = true;
                    self.done = true;
                    action = ArrayAction::Return(Ok(ReadOutcome::EndOfInput));
                } else {
                    action = ArrayAction::Return(Err(ReaderError::new()));
                }
            },
            Phase::Separator => {
                if !at_end && byte == CLOSE {
                    consumed = run + 1;
                    self.offset = self.offset + 1;
                    self.phase = Phase::ClosingLast;
                    action = ArrayAction::Fill;
                } else if !at_end && byte == COMMA {
                    consumed = run + 1;
                    self.offset = self.offset + 1;
                    self.phase = Phase::AfterComma;
                    action = ArrayAction::Fill;
                } else {
                    action = self.restore(ReaderError::new());
                }
            },
            Phase::AfterComma => {
                if at_end {
                    action = self.restore(ReaderError::new());
                } else {
                    action = self.begin_element(self.offset);
                }
            },
            _ => {
                if at_end {
                    self.done = true;
                    action = ArrayAction::Return(Ok(ReadOutcome::EndOfInput));
                } else {
                    action = self.restore(ReaderError::new());
                }
            },
        }
        assert forall|source: Seq<u8>| #[trigger]
            is_next_chunk(source, at, chunk) && consistent(
                before,
                source,
            ) implies keeps_result(before, self@, action, source) by {
            assert(at + run <= source.len() ==> consistent(self@, source));
        }
        (consumed, action)
    }

    /// Takes the next chunk of the source, which is empty exactly at the end of
    /// the source. Returns how many of its bytes are consumed, and what to do
    /// next. An element that it accepts, which it rewinds to the end of, has at
    /// most `bound` bytes.
    pub fn filled(&mut self, available: &[u8]) -> (r: (usize, ArrayAction))
        requires
            old(self).wf(),
            old(self).fills(),
            old(self)@.at + available@.len() <= u64::MAX,
        ensures
            final(self).wf(),
            final(self).awaits(r.1),
            final(self)@.bound == old(self)@.bound,
            r.0 <= available@.len(),
            final(self)@.at == old(self)@.at + r.0,
            r.1 is Fill && r.0 == 0 ==> looks_left(final(self)@.phase) < looks_left(
                old(self)@.phase,
            ),
            final(self)@.phase matches PhaseView::Rewinding { to, .. } ==> ends_within(
                old(self)@,
                to as nat,
            ),
            forall|source: Seq<u8>| #[trigger]
                is_next_chunk(source, old(self)@.at, available@) && consistent(old(self)@, source)
                    ==> keeps_result(old(self)@, final(self)@, r.1, source),
    {
        match &self.phase {
            Phase::Growing { .. } => self.fill_buffer(available),
            Phase::Framing { .. } => self.fill_after_value(available),
            _ => self.fill_frame(available),
        }
    }

    /// Opens the stream at the committed offset, or at the start. It takes effect
    /// at the attempt's first read.
    pub fn open(&mut self, inherited: Option<&[u8]>) -> (r: Result<
        StreamOpenOutcome,
        StreamOpenError,
    >)
        requires
            old(self).wf(),
            old(self)@.phase is Idle,
        ensures
            final(self).wf(),
            match inherited {
                None => {
                    &&& final(self)@ == (ReaderView {
                        frame: Frame { position: 0, ..old(self)@.frame },
                        ..old(self)@
                    })
                    &&& r == Ok::<StreamOpenOutcome, StreamOpenError>(StreamOpenOutcome::Initial)
                },
                Some(bytes) => match number_of_bytes(bytes@, "byte"@) {
                    Some(position) => {
                        &&& final(self)@ == (ReaderView {
                            frame: Frame { position, ..old(self)@.frame },
                            ..old(self)@
                        })
                        &&& r == Ok::<StreamOpenOutcome, StreamOpenError>(
                            StreamOpenOutcome::Restored,
                        )
                    },
                    None => {
                        &&& final(self)@ == old(self)@
                        &&& r == Err::<StreamOpenOutcome, StreamOpenError>(
                            StreamOpenError { category: FailureCategory::UserComponent },
                        )
                    },
                },
            },
    {
        match inherited {
            None => {
                self.position = 0;
                Ok(StreamOpenOutcome::Initial)
            },
            Some(bytes) => match ReaderPositionSchema.decode(bytes) {
                Ok(position) => {
                    self.position = position;
                    Ok(StreamOpenOutcome::Restored)
                },
                Err(_) => Err(StreamOpenError::new()),
            },
        }
    }

    /// Prepares the candidate state.
    pub fn update(&self) -> (r: Result<Vec<u8>, StreamUpdateError>)
        ensures
            r is Ok,
            r->Ok_0@ == json_text(number_json("byte"@, self@.frame.position)),
            number_of_bytes(r->Ok_0@, "byte"@) == Some(self@.frame.position),
    {
        match ReaderPositionSchema.encode(self.position) {
            Ok(bytes) => Ok(bytes),
            Err(_) => Err(StreamUpdateError::new()),
        }
    }
}

/// Builds a reader at the start of a source.
pub fn json_array_reader(format: JsonArrayFormat) -> (r: JsonArrayReader)
    ensures
        r.wf(),
        r@ == (ReaderView {
            frame: Frame { position: 0, progress: None },
            phase: PhaseView::Idle,
            at: 0,
            bound: format.bound() as nat,
        }),
{
    JsonArrayReader {
        max_value_bytes: format.max_value_bytes,
        position: 0,
        consumed_absolute: 0,
        expect_separator: false,
        done: false,
        started: false,
        phase: Phase::Idle,
        offset: 0,
    }
}

/// A failed call never moves the checkpoint: a skip policy cannot resynchronise
/// past a malformed element. A retry attempts the same one again: the next call
/// fails in the same way, and leaves the reader as this one has.
pub proof fn failure_keeps_the_checkpoint(frame: Frame, source: Seq<u8>, bound: nat)
    requires
        source.len() <= u64::MAX,
    ensures
        ({
            let (outcome, kept) = read_call(frame, source, bound);
            outcome matches ArrayOutcome::Failed(error) ==> {
                &&& error == malformed()
                &&& kept.position == frame.position
                &&& read_call(kept, source, bound) == (outcome, kept)
            }
        }),
{
}

/// Whether a reader was restarted at its checkpoint makes no difference: it reads
/// on exactly as one that was not.
pub proof fn restart_reads_on(position: u64, source: Seq<u8>, bound: nat)
    requires
        position > 0,
    ensures
        read_call(Frame { position, progress: None }, source, bound) == read_call(
            Frame {
                position,
                progress: Some(Progress { at: position, expect_separator: true, done: false }),
            },
            source,
            bound,
        ),
{
}

/// A call that begins is to give what the source holds behind the checkpoint. It
/// begins with a seek to the checkpoint unless the source's position is known, and
/// past the closing bracket the input is over.
pub proof fn a_call_begins_at_the_checkpoint(
    reader: &mut JsonArrayReader,
    r: ArrayAction,
    source: Seq<u8>,
)
    requires
        call_ensures(JsonArrayReader::read, (reader,), r),
        old(reader)@.phase is Idle,
        lies_within(old(reader)@, source),
    ensures
        old(reader)@.frame.progress is None ==> r == ArrayAction::Seek(old(reader)@.frame.position),
        old(reader)@.frame.progress matches Some(progress) ==> (progress.done <==> r
            == ArrayAction::Return(Ok(ReadOutcome::EndOfInput))),
        final(reader)@.frame == old(reader)@.frame,
        !(r is Return) ==> call_result(final(reader)@, source) == read_call(
            old(reader)@.frame,
            source,
            old(reader)@.bound,
        ),
        r matches ArrayAction::Return(result) ==> read_call(
            old(reader)@.frame,
            source,
            old(reader)@.bound,
        ) == (outcome_of(result), final(reader)@.frame),
{
    let kept = keeps_result(old(reader)@, final(reader)@, r, source);
}

/// However the source is cut into chunks, a call ends with what it was to give: an
/// item with its content, the end of input, or a failure.
pub proof fn a_chunk_does_not_change_the_answer(
    reader: &mut JsonArrayReader,
    available: &[u8],
    r: (usize, ArrayAction),
    source: Seq<u8>,
)
    requires
        call_ensures(JsonArrayReader::filled, (reader, available), r),
        is_next_chunk(source, old(reader)@.at, available@),
        consistent(old(reader)@, source),
    ensures
        ({
            let answer = call_result(old(reader)@, source);
            &&& r.0 <= available@.len()
            &&& final(reader)@.at == old(reader)@.at + r.0
            &&& !(r.1 is Return) ==> call_result(final(reader)@, source) == answer
            &&& r.1 matches ArrayAction::Return(Ok(ReadOutcome::Item(value))) ==> answer.0
                == ArrayOutcome::Item(json_content(value))
            &&& r.1 matches ArrayAction::Return(Ok(ReadOutcome::EndOfInput)) ==> answer.0
                == ArrayOutcome::End
            &&& r.1 matches ArrayAction::Return(Err(error)) ==> answer.0 == ArrayOutcome::Failed(
                error,
            )
            &&& r.1 is Return ==> answer.1 == final(reader)@.frame && final(reader)@.phase is Idle
        }),
{
    assert(keeps_result(old(reader)@, final(reader)@, r.1, source));
}

/// A seek does not change the answer either. One that fails does: it may pass, the
/// checkpoint stays, and the next call seeks there again.
pub proof fn a_failed_seek_keeps_the_checkpoint(
    reader: &mut JsonArrayReader,
    succeeded: bool,
    r: ArrayAction,
    source: Seq<u8>,
)
    requires
        call_ensures(JsonArrayReader::sought, (reader, succeeded), r),
    ensures
        ({
            let answer = call_result(old(reader)@, source);
            &&& succeeded && !(r is Return) ==> call_result(final(reader)@, source) == answer
            &&& succeeded && r is Return ==> answer
                == (outcome_of(r->Return_0), final(reader)@.frame)
            &&& !succeeded ==> {
                &&& r is Return && r->Return_0 is Err
                &&& r->Return_0->Err_0.category == FailureCategory::TransientInfrastructure
                &&& !r->Return_0->Err_0.checkpoint_advanced
                &&& final(reader)@.frame.position == old(reader)@.frame.position
                &&& final(reader)@.frame.progress is None
            }
        }),
{
    if succeeded {
        assert(keeps_result(old(reader)@, final(reader)@, r, source));
    }
}

/// A chunk that cannot be read keeps the checkpoint and the progress; such a
/// failure may pass.
pub proof fn a_failed_chunk_keeps_the_checkpoint(reader: &mut JsonArrayReader, r: ArrayAction)
    requires
        call_ensures(JsonArrayReader::fill_failed, (reader,), r),
    ensures
        final(reader)@.frame == old(reader)@.frame,
        r matches ArrayAction::Return(result) ==> result == Err::<
            ReadOutcome<serde_json::Value>,
            ReaderError,
        >(
            ReaderError {
                category: FailureCategory::TransientInfrastructure,
                checkpoint_advanced: false,
            },
        ),
        r is Return <==> old(reader)@.frame.progress is None,
        r is Seek ==> (final(reader)@.phase matches PhaseView::Restoring { error } && error.category
            == FailureCategory::TransientInfrastructure && !error.checkpoint_advanced),
{
}

/// A malformed array is the input's own fault, and a source that cannot be read may
/// recover; neither moves the checkpoint.
pub proof fn array_failures_keep_their_meaning()
    ensures
        malformed().category == FailureCategory::UserComponent,
        unreadable().category == FailureCategory::TransientInfrastructure,
        !malformed().checkpoint_advanced && !unreadable().checkpoint_advanced,
{
}

/// A reader that is opened with what another one had prepared goes on where that
/// one was; without inherited state it starts at the first byte, and what spells no
/// position changes nothing.
pub proof fn an_array_restart_goes_on(
    before: &JsonArrayReader,
    prepared: Result<Vec<u8>, StreamUpdateError>,
    reader: &mut JsonArrayReader,
    inherited: Option<&[u8]>,
    r: Result<StreamOpenOutcome, StreamOpenError>,
)
    requires
        call_ensures(JsonArrayReader::update, (before,), prepared),
        call_ensures(JsonArrayReader::open, (reader, inherited), r),
    ensures
        prepared is Ok,
        inherited matches Some(bytes) && bytes@ == prepared->Ok_0@
            ==> final(reader)@.frame.position == before@.frame.position && r
                == Ok::<StreamOpenOutcome, StreamOpenError>(
            StreamOpenOutcome::Restored,
        ),
        inherited is None ==> final(reader)@.frame.position == 0 && r == Ok::<
            StreamOpenOutcome,
            StreamOpenError,
        >(StreamOpenOutcome::Initial),
        r is Err ==> final(reader)@ == old(reader)@,
{
}

/// An element has at most a mebibyte unless another bound is set, and a reader
/// starts at the first byte with the bound of its format.
pub proof fn an_array_reader_keeps_its_bound(
    default: JsonArrayFormat,
    bound: usize,
    format: JsonArrayFormat,
    r: JsonArrayReader,
)
    requires
        call_ensures(JsonArrayFormat::new, (), default),
        call_ensures(JsonArrayFormat::with_max_value_bytes, (default, bound), format),
        call_ensures(json_array_reader, (format,), r),
    ensures
        default.bound() == 1024 * 1024,
        r@.bound == bound,
        r@.frame.position == 0,
        r@.frame.progress is None,
{
}

/// The names under which positions are stored, which a restart finds them by.
pub proof fn array_reader_positions_are_stored_under_these_names()
    ensures
        READER_SCHEMA@ == "oxide-batch.json-array-reader-position"@,
        READER_CODEC@ == "oxide-batch.json-array-reader-position-codec"@,
{
}

} // verus!
