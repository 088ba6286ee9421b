//! Reading lines from a source that hands out its bytes in chunks.
//!
//! A line ends at a line feed, and a carriage return directly before it belongs
//! to the terminator. However the bytes are cut into chunks, the same line comes
//! out; and no more than the configured bound is ever retained.

use crate::text::append_bytes;
use vstd::prelude::*;
use vstd::slice::slice_subrange;

verus! {

/// One bounded read of a line.
#[derive(Debug, PartialEq, Eq)]
pub enum BoundedLine {
    /// A line was read, excluding its terminator.
    Line {
        /// The bytes of the line.
        bytes: Vec<u8>,
        /// The bytes through and including the terminator.
        consumed: u64,
    },
    /// The source was already exhausted; nothing was read.
    Eof,
    /// The line's bytes before its terminator exceeded the bound.
    TooLong {
        /// The bytes through and including the terminator (or the end of input),
        /// so that the caller still makes progress.
        consumed: u64,
    },
}

/// The content of a [`BoundedLine`].
pub enum LineView {
    Line { bytes: Seq<u8>, consumed: nat },
    Eof,
    TooLong { consumed: nat },
}

impl View for BoundedLine {
    type V = LineView;

    open spec fn view(&self) -> LineView {
        match self {
            BoundedLine::Line { bytes, consumed } => LineView::Line {
                bytes: bytes@,
                consumed: *consumed as nat,
            },
            BoundedLine::Eof => LineView::Eof,
            BoundedLine::TooLong { consumed } => LineView::TooLong { consumed: *consumed as nat },
        }
    }
}

/// The line feed.
pub const LINE_FEED: u8 = 10;

/// The carriage return.
pub const CARRIAGE_RETURN: u8 = 13;

/// The index of the first line feed, or the length if there is none.
pub open spec fn first_newline(input: Seq<u8>) -> nat
    decreases input.len(),
{
    if input.len() == 0 || input[0] == LINE_FEED {
        0
    } else {
        1 + first_newline(input.drop_first())
    }
}

/// The first line's bytes, without its terminator.
pub open spec fn line_content(input: Seq<u8>) -> Seq<u8> {
    let end = first_newline(input) as int;
    if 0 < end < input.len() && input[end - 1] == CARRIAGE_RETURN {
        input.take(end - 1)
    } else {
        input.take(end)
    }
}

/// The bytes of the first line with its terminator.
pub open spec fn line_span(input: Seq<u8>) -> nat {
    if first_newline(input) < input.len() {
        first_newline(input) + 1
    } else {
        input.len()
    }
}

/// What reading one line of at most `max_bytes` bytes from `input` gives.
pub open spec fn bounded_line(input: Seq<u8>, max_bytes: nat) -> LineView {
    if input.len() == 0 {
        LineView::Eof
    } else if line_content(input).len() > max_bytes {
        LineView::TooLong { consumed: line_span(input) }
    } else {
        LineView::Line { bytes: line_content(input), consumed: line_span(input) }
    }
}

/// The bytes that a read has consumed.
pub open spec fn consumed_by(line: LineView) -> nat {
    match line {
        LineView::Line { consumed, .. } => consumed,
        LineView::TooLong { consumed } => consumed,
        LineView::Eof => 0,
    }
}

/// There is no line feed before the first one, and there is one there unless it
/// is the end.
pub proof fn first_newline_is_first(input: Seq<u8>)
    ensures
        first_newline(input) <= input.len(),
        first_newline(input) < input.len() ==> input[first_newline(input) as int] == LINE_FEED,
        forall|i: int| 0 <= i < first_newline(input) ==> #[trigger] input[i] != LINE_FEED,
    decreases input.len(),
{
    if input.len() > 0 && input[0] != LINE_FEED {
        let rest = input.drop_first();
        first_newline_is_first(rest);
        assert forall|i: int| 0 <= i < first_newline(input) implies #[trigger] input[i]
            != LINE_FEED by {
            if i > 0 {
                assert(input[i] == rest[i - 1]);
            }
        }
        if first_newline(rest) < rest.len() {
            assert(rest[first_newline(rest) as int] == input[first_newline(rest) as int + 1]);
        }
    }
}

/// An index that is preceded by no line feed, and at which there is one or the
/// input ends, is the first newline.
proof fn is_first_newline(input: Seq<u8>, n: nat)
    requires
        n <= input.len(),
        n < input.len() ==> input[n as int] == LINE_FEED,
        forall|i: int| 0 <= i < n ==> #[trigger] input[i] != LINE_FEED,
    ensures
        first_newline(input) == n,
{
    first_newline_is_first(input);
    let m = first_newline(input);
    if m < n {
        assert(input[m as int] == LINE_FEED);
    }
    if n < m {
        assert(input[n as int] != LINE_FEED);
    }
}

/// A line that ends within `input` is the same line whatever follows: where a
/// source is cut into chunks does not matter.
pub proof fn complete_line_is_final(input: Seq<u8>, rest: Seq<u8>, max_bytes: nat)
    requires
        first_newline(input) < input.len(),
    ensures
        bounded_line(input + rest, max_bytes) == bounded_line(input, max_bytes),
{
    first_newline_is_first(input);
    let n = first_newline(input);
    let all = input + rest;
    assert forall|i: int| 0 <= i < n implies #[trigger] all[i] != LINE_FEED by {
        assert(all[i] == input[i]);
    }
    is_first_newline(all, n);
    assert(line_content(all) =~= line_content(input));
}

/// Reading a line takes at least one byte unless the input is at its end, and
/// never more than there are.
pub proof fn reading_a_line_makes_progress(input: Seq<u8>)
    requires
        input.len() > 0,
    ensures
        0 < line_span(input) <= input.len(),
        line_content(input).len() <= line_span(input),
{
    first_newline_is_first(input);
}

/// Copies `segment` to the end of `buf` unless the line is already too long or
/// would get too long. The buffer never holds more than `max_bytes` bytes.
fn copy_bounded(buf: &mut Vec<u8>, segment: &[u8], max_bytes: usize, too_long: bool) -> (r: bool)
    requires
        old(buf)@.len() <= max_bytes,
    ensures
        final(buf)@.len() <= max_bytes,
        r == (too_long || old(buf)@.len() + segment@.len() > max_bytes),
        !r ==> final(buf)@ == old(buf)@ + segment@,
        r && !too_long ==> final(buf)@.len() == 0,
        too_long ==> final(buf)@ == old(buf)@,
{
    if too_long {
        return true;
    }
    let budget: usize = max_bytes - buf.len();
    if segment.len() <= budget {
        append_bytes(buf, segment);
        false
    } else {
        buf.clear();
        true
    }
}

/// A line that is being put together from chunks.
pub struct LineReader {
    max_bytes: usize,
    buf: Vec<u8>,
    consumed: u64,
    too_long: bool,
    pending_cr: bool,
    // The bytes taken so far.
    fed: Ghost<Seq<u8>>,
}

impl LineReader {
    /// The bound on the line's bytes.
    pub closed spec fn bound(&self) -> usize {
        self.max_bytes
    }

    /// The bytes taken so far.
    pub closed spec fn taken(&self) -> Seq<u8> {
        self.fed@
    }

    /// The bytes kept for the line: all that were taken, but for a carriage
    /// return that may turn out to belong to the terminator.
    spec fn kept(&self) -> Seq<u8> {
        if self.pending_cr {
            self.fed@.drop_last()
        } else {
            self.fed@
        }
    }

    /// The state is one that feeding chunks leads to.
    pub closed spec fn wf(&self) -> bool {
        &&& self.consumed == self.fed@.len()
        &&& forall|i: int| 0 <= i < self.fed@.len() ==> #[trigger] self.fed@[i] != LINE_FEED
        &&& self.pending_cr == (self.fed@.len() > 0 && self.fed@.last() == CARRIAGE_RETURN)
        &&& self.too_long == (self.kept().len() > self.max_bytes)
        &&& !self.too_long ==> self.buf@ == self.kept()
        &&& self.buf@.len() <= self.max_bytes
    }

    /// Starts a line of at most `max_bytes` bytes.
    pub fn new(max_bytes: usize) -> (r: Self)
        ensures
            r.wf(),
            r.bound() == max_bytes,
            r.taken().len() == 0,
    {
        let r = LineReader {
            max_bytes,
            buf: Vec::new(),
            consumed: 0,
            too_long: false,
            pending_cr: false,
            fed: Ghost(Seq::empty()),
        };
        assert(r.buf@ =~= r.kept());
        r
    }

    /// The finished line.
    fn finish(&mut self) -> (r: BoundedLine)
        requires
            old(self).too_long || old(self).buf@.len() <= old(self).max_bytes,
        ensures
            final(self).taken() == old(self).taken(),
            final(self).bound() == old(self).bound(),
            old(self).too_long ==> r@ == (LineView::TooLong {
                consumed: old(self).consumed as nat,
            }),
            !old(self).too_long ==> r@ == (LineView::Line {
                bytes: old(self).buf@,
                consumed: old(self).consumed as nat,
            }),
    {
        if self.too_long {
            BoundedLine::TooLong { consumed: self.consumed }
        } else {
            let mut bytes: Vec<u8> = Vec::new();
            bytes.append(&mut self.buf);
            BoundedLine::Line { bytes, consumed: self.consumed }
        }
    }

    /// Takes the next chunk of the source, which is empty exactly at the end of
    /// the input. Returns how many of its bytes are consumed, and the line if it
    /// is complete; otherwise the whole chunk is consumed.
    pub fn feed(&mut self, available: &[u8]) -> (r: (usize, Option<BoundedLine>))
        requires
            old(self).wf(),
            old(self).taken().len() + available@.len() <= u64::MAX,
        ensures
            final(self).bound() == old(self).bound(),
            ({
                let input = old(self).taken() + available@;
                match r.1 {
                    Some(line) => {
                        &&& available@.len() == 0 || first_newline(input) < input.len()
                        &&& line@ == bounded_line(input, old(self).bound() as nat)
                        &&& old(self).taken().len() + r.0 == line_span(input)
                    },
                    None => {
                        &&& available@.len() > 0
                        &&& first_newline(input) == input.len()
                        &&& r.0 == available@.len()
                        &&& final(self).wf()
                        &&& final(self).taken() == input
                    },
                }
            }),
    {
        let ghost before = self.fed@;
        let ghost input = self.fed@ + available@;
        let carriage_return: [u8; 1] = [CARRIAGE_RETURN];
        if available.len() == 0 {
            proof {
                assert(input =~= before);
                is_first_newline(before, before.len());
                assert(line_content(before) =~= before);
            }
            if self.consumed == 0 {
                return (0, Some(BoundedLine::Eof));
            }
            if self.pending_cr {
                self.too_long = copy_bounded(
                    &mut self.buf,
                    vstd::array::array_as_slice(&carriage_return),
                    self.max_bytes,
                    self.too_long,
                );
                proof {
                    if !self.too_long {
                        assert(self.buf@ =~= before);
                    }
                }
            }
            return (0, Some(self.finish()));
        }
        if self.pending_cr {
            if available[0] == LINE_FEED {
                proof {
                    let n = before.len();
                    assert(input[n as int] == available@[0]);
                    assert forall|i: int| 0 <= i < n implies #[trigger] input[i] != LINE_FEED by {
                        assert(input[i] == before[i]);
                    }
                    is_first_newline(input, n);
                    assert(input[n - 1] == before.last());
                    assert(line_content(input) =~= before.drop_last());
                }
                self.consumed = self.consumed + 1;
                return (1, Some(self.finish()));
            }
            self.too_long = copy_bounded(
                &mut self.buf,
                vstd::array::array_as_slice(&carriage_return),
                self.max_bytes,
                self.too_long,
            );
            self.pending_cr = false;
            proof {
                if !self.too_long {
                    assert(self.buf@ =~= before);
                }
            }
        }
        // Here everything taken so far is kept for the line.
        let mut newline: usize = 0;
        while newline < available.len() && available[newline] != LINE_FEED
            invariant
                newline <= available.len(),
                forall|i: int| 0 <= i < newline ==> #[trigger] available@[i] != LINE_FEED,
            decreases available.len() - newline,
        {
            newline = newline + 1;
        }
        proof {
            let n = before.len() + newline as nat;
            assert forall|i: int| 0 <= i < n implies #[trigger] input[i] != LINE_FEED by {
                if i < before.len() {
                    assert(input[i] == before[i]);
                } else {
                    assert(input[i] == available@[i - before.len()]);
                }
            }
            if newline < available@.len() {
                assert(input[n as int] == available@[newline as int]);
            }
            is_first_newline(input, n);
        }
        if newline < available.len() {
            let mut payload_end: usize = newline;
            if newline > 0 && available[newline - 1] == CARRIAGE_RETURN {
                payload_end = newline - 1;
            }
            let ghost kept = self.buf@;
            self.too_long = copy_bounded(
                &mut self.buf,
                slice_subrange(available, 0, payload_end),
                self.max_bytes,
                self.too_long,
            );
            self.consumed = self.consumed + (newline as u64 + 1);
            proof {
                let content = before + available@.subrange(0, payload_end as int);
                let n = before.len() + newline as nat;
                if newline > 0 {
                    assert(input[n - 1] == available@[newline - 1]);
                } else if before.len() > 0 {
                    assert(input[n - 1] == before.last());
                }
                assert(line_content(input) =~= content);
            }
            return (newline + 1, Some(self.finish()));
        }
        let length: usize = available.len();
        if available[length - 1] == CARRIAGE_RETURN {
            self.too_long = copy_bounded(
                &mut self.buf,
                slice_subrange(available, 0, length - 1),
                self.max_bytes,
                self.too_long,
            );
            self.pending_cr = true;
            proof {
                assert(input.drop_last() =~= before + available@.subrange(0, length - 1));
            }
        } else {
            self.too_long = copy_bounded(
                &mut self.buf,
                available,
                self.max_bytes,
                self.too_long,
            );
        }
        self.consumed = self.consumed + length as u64;
        self.fed = Ghost(input);
        (length, None)
    }
}

/// A line is what precedes its terminator, a line feed or a carriage return and a
/// line feed; at the end of the input it needs none. It is kept if it has at most
/// the bound's bytes, and passed over with its terminator otherwise.
pub proof fn a_line_precedes_its_terminator(content: Seq<u8>, rest: Seq<u8>, bound: nat)
    requires
        forall|i: int| 0 <= i < content.len() ==> #[trigger] content[i] != '\n' as u8,
    ensures
        ({
            let n = content.len();
            let bare = bounded_line(content + seq!['\n' as u8] + rest, bound);
            let full = bounded_line(content + seq!['\r' as u8, '\n' as u8] + rest, bound);
            let last = bounded_line(content, bound);
            &&& n == 0 || content[n - 1] != '\r' as u8 ==> bare == (if n <= bound {
                LineView::Line { bytes: content, consumed: n + 1 }
            } else {
                LineView::TooLong { consumed: n + 1 }
            })
            &&& full == (if n <= bound {
                LineView::Line { bytes: content, consumed: n + 2 }
            } else {
                LineView::TooLong { consumed: n + 2 }
            })
            &&& n == 0 ==> last == LineView::Eof
            &&& n > 0 ==> last == (if n <= bound {
                LineView::Line { bytes: content, consumed: n }
            } else {
                LineView::TooLong { consumed: n }
            })
        }),
{
    let n = content.len();
    let bare = content + seq!['\n' as u8] + rest;
    let full = content + seq!['\r' as u8, '\n' as u8] + rest;
    assert forall|i: int| 0 <= i < n implies #[trigger] bare[i] != LINE_FEED by {
        assert(bare[i] == content[i]);
    }
    is_first_newline(bare, n);
    assert(line_content(bare) =~= if n > 0 && content[n - 1] == CARRIAGE_RETURN {
        content.drop_last()
    } else {
        content
    });
    assert forall|i: int| 0 <= i < n + 1 implies #[trigger] full[i] != LINE_FEED by {
        if i < n {
            assert(full[i] == content[i]);
        }
    }
    is_first_newline(full, n + 1);
    assert(line_content(full) =~= content);
    is_first_newline(content, n);
    assert(line_content(content) =~= content);
}

/// However a source is cut, feeding its chunks gives its first line once the
/// line's terminator or the end of the source has come, and takes every byte up to
/// there and none behind it.
pub proof fn feeding_gives_the_first_line(
    reader: &mut LineReader,
    available: &[u8],
    r: (usize, Option<BoundedLine>),
    later: Seq<u8>,
)
    requires
        call_ensures(LineReader::feed, (reader, available), r),
        available@.len() == 0 ==> later.len() == 0,
    ensures
        ({
            let source = old(reader).taken() + available@ + later;
            let held = old(reader).taken() + available@;
            &&& r.1 matches Some(line) ==> line@ == bounded_line(source, old(reader).bound() as nat)
            &&& r.1 is Some ==> (consumed_by(r.1->0@) == old(reader).taken().len() + r.0
                || r.1->0@ is Eof)
            &&& r.1 is None ==> available@.len() > 0 && r.0 == available@.len()
                && final(reader).taken() == held && final(reader).bound() == old(reader).bound()
            &&& r.1 is None ==> forall|i: int|
                0 <= i < held.len() ==> #[trigger] held[i] != '\n' as u8
        }),
{
    let held = old(reader).taken() + available@;
    first_newline_is_first(held);
    if r.1 is Some {
        if available@.len() > 0 {
            complete_line_is_final(held, later, old(reader).bound() as nat);
        } else {
            assert(held + later =~= held);
        }
    }
}

} // verus!
