//! What a reader makes of the text of a JSON array, with any white space that
//! JSON allows in it.

use super::json_array::{
    after_space, after_space_skips, buffered, closes, element_at, element_from, framing, is_space,
    least, malformed, read_after_element, read_call, read_from_start, ArrayOutcome, Element, Frame,
    Progress, CLOSE, COMMA, INITIAL_GROWTH_BYTES, OPEN,
};
use super::json_array_output::{element_is_found, element_text};
use crate::json::{ends_value, json_first, FirstValue, Json};
use crate::runtime::FailureCategory;
use vstd::prelude::*;

verus! {

/// JSON white space: a space, a tab, a line feed or a carriage return.
pub open spec fn blank_byte(byte: u8) -> bool {
    byte == ' ' as u8 || byte == '\t' as u8 || byte == '\n' as u8 || byte == '\r' as u8
}

/// Every byte is JSON white space.
pub open spec fn blank(bytes: Seq<u8>) -> bool {
    forall|i: int| 0 <= i < bytes.len() ==> blank_byte(#[trigger] bytes[i])
}

/// A byte is skipped between the tokens of an array exactly if it is one of
/// JSON's four white space bytes.
pub proof fn white_space_is_these_four(byte: u8)
    ensures
        is_space(byte) <==> blank_byte(byte),
        OPEN == '[' as u8,
        CLOSE == ']' as u8,
        COMMA == ',' as u8,
{
}

/// Skipping goes over white space and stops at the first other byte, or at the
/// end.
pub proof fn skipping_stops_at_the_next_token(source: Seq<u8>, i: nat, j: nat)
    requires
        i <= j <= source.len(),
        forall|k: int| i <= k < j ==> blank_byte(#[trigger] source[k]),
        j < source.len() ==> !blank_byte(source[j as int]),
    ensures
        after_space(source, i) == j,
{
    assert forall|k: int| i <= k < j implies is_space(#[trigger] source[k]) by {
        assert(blank_byte(source[k]));
    }
    after_space_skips(source, i, j);
}

/// An element's text, with the white space before and after it.
pub struct SpacedElement {
    pub before: Seq<u8>,
    pub text: Seq<u8>,
    pub after: Seq<u8>,
}

/// Only white space surrounds the elements.
pub open spec fn well_spaced(elements: Seq<SpacedElement>) -> bool {
    forall|i: int|
        0 <= i < elements.len() ==> blank((#[trigger] elements[i]).before) && blank(
            elements[i].after,
        )
}

/// An array that starts with some white space and has some elements, up to the
/// white space after the last of them.
pub open spec fn spaced_open(lead: Seq<u8>, elements: Seq<SpacedElement>) -> Seq<u8>
    decreases elements.len(),
{
    if elements.len() == 0 {
        lead + seq!['[' as u8]
    } else {
        let element = elements.last();
        let separator = if elements.len() == 1 {
            Seq::<u8>::empty()
        } else {
            seq![',' as u8]
        };
        spaced_open(lead, elements.drop_last()) + separator + element.before + element.text
            + element.after
    }
}

/// A complete array: the elements, white space, the closing bracket and white
/// space.
pub open spec fn spaced_array(
    lead: Seq<u8>,
    elements: Seq<SpacedElement>,
    inner: Seq<u8>,
    trail: Seq<u8>,
) -> Seq<u8> {
    spaced_open(lead, elements) + inner + seq![']' as u8] + trail
}

/// Where the text of the `k`-th element ends, counted from one.
pub open spec fn end_of_element(lead: Seq<u8>, elements: Seq<SpacedElement>, k: nat) -> nat {
    (spaced_open(lead, elements.take(k as int)).len() - elements[k - 1].after.len()) as nat
}

/// What a reader keeps behind the `k`-th element.
pub open spec fn frame_behind(lead: Seq<u8>, elements: Seq<SpacedElement>, k: nat) -> Frame {
    if k == 0 {
        Frame { position: 0, progress: None }
    } else {
        let end = end_of_element(lead, elements, k) as u64;
        Frame {
            position: end,
            progress: Some(Progress { at: end, expect_separator: true, done: false }),
        }
    }
}

proof fn spaced_open_prefix(lead: Seq<u8>, elements: Seq<SpacedElement>, k: nat)
    requires
        k <= elements.len(),
    ensures
        spaced_open(lead, elements.take(k as int)).is_prefix_of(spaced_open(lead, elements)),
    decreases elements.len() - k,
{
    let part = spaced_open(lead, elements.take(k as int));
    if k == elements.len() {
        assert(elements.take(k as int) =~= elements);
    } else {
        let more = elements.take(k as int + 1);
        spaced_open_prefix(lead, elements, k + 1);
        assert(more.drop_last() =~= elements.take(k as int));
        let longer = spaced_open(lead, more);
        let whole = spaced_open(lead, elements);
        assert(part.is_prefix_of(longer)) by {
            assert(longer.subrange(0, part.len() as int) =~= part);
        }
        assert(whole.subrange(0, part.len() as int) =~= part) by {
            assert forall|i: int| 0 <= i < part.len() implies whole[i] == part[i] by {
                assert(whole.subrange(0, longer.len() as int)[i] == longer[i]);
                assert(longer.subrange(0, part.len() as int)[i] == part[i]);
            }
        }
    }
}

/// The bytes of an array up to its `k`-th element are those of the whole.
proof fn spaced_array_prefix(
    lead: Seq<u8>,
    elements: Seq<SpacedElement>,
    inner: Seq<u8>,
    trail: Seq<u8>,
    k: nat,
)
    requires
        k <= elements.len(),
    ensures
        ({
            let part = spaced_open(lead, elements.take(k as int));
            let source = spaced_array(lead, elements, inner, trail);
            &&& part.len() + inner.len() + 1 + trail.len() <= source.len()
            &&& forall|i: int| 0 <= i < part.len() ==> #[trigger] source[i] == part[i]
            &&& part.len() > lead.len()
            &&& part[lead.len() as int] == '[' as u8
            &&& forall|i: int| 0 <= i < lead.len() ==> #[trigger] part[i] == lead[i]
        }),
{
    let part = spaced_open(lead, elements.take(k as int));
    let whole = spaced_open(lead, elements);
    let source = spaced_array(lead, elements, inner, trail);
    spaced_open_prefix(lead, elements, k);
    assert forall|i: int| 0 <= i < part.len() implies #[trigger] source[i] == part[i] by {
        assert(whole.subrange(0, part.len() as int)[i] == part[i]);
    }
    let head = lead + seq!['[' as u8];
    spaced_open_prefix(lead, elements.take(k as int), 0);
    assert(elements.take(k as int).take(0) =~= Seq::<SpacedElement>::empty());
    assert(spaced_open(lead, elements.take(k as int).take(0)) == head);
    assert forall|i: int| 0 <= i < head.len() implies #[trigger] part[i] == head[i] by {
        assert(part.subrange(0, head.len() as int)[i] == head[i]);
    }
    assert(part[lead.len() as int] == head[lead.len() as int]);
    assert forall|i: int| 0 <= i < lead.len() implies #[trigger] part[i] == lead[i] by {
        assert(part[i] == head[i]);
    }
}

/// Behind an element there is white space, and then a comma if another one
/// follows, or else the closing bracket.
proof fn behind_an_element(
    lead: Seq<u8>,
    elements: Seq<SpacedElement>,
    inner: Seq<u8>,
    trail: Seq<u8>,
    k: nat,
) -> (q: nat)
    requires
        0 < k <= elements.len(),
        well_spaced(elements),
        blank(inner),
    ensures
        ({
            let source = spaced_array(lead, elements, inner, trail);
            let end = end_of_element(lead, elements, k);
            &&& end <= q < source.len()
            &&& after_space(source, end) == q
            &&& source[q as int] == (if k < elements.len() {
                ',' as u8
            } else {
                ']' as u8
            })
            &&& k < elements.len() ==> q == spaced_open(lead, elements.take(k as int)).len()
            &&& k == elements.len() ==> q == spaced_open(lead, elements).len() + inner.len()
            &&& ends_value(source[end as int])
            &&& framing(source, end) is Delimited
        }),
{
    let source = spaced_array(lead, elements, inner, trail);
    let part = spaced_open(lead, elements.take(k as int));
    let end = end_of_element(lead, elements, k);
    let after = elements[k - 1].after;
    spaced_array_prefix(lead, elements, inner, trail, k);
    assert(elements.take(k as int).last() == elements[k - 1]);
    assert(blank(after));
    assert forall|i: int| end <= i < part.len() implies blank_byte(#[trigger] source[i]) by {
        assert(source[i] == part[i]);
        assert(part[i] == after[i - end]);
        assert(blank_byte(after[i - end]));
    }
    let q: nat = if k < elements.len() {
        part.len()
    } else {
        part.len() + inner.len()
    };
    if k < elements.len() {
        let more = elements.take(k as int + 1);
        spaced_array_prefix(lead, elements, inner, trail, k + 1);
        assert(more.drop_last() =~= elements.take(k as int));
        assert(spaced_open(lead, more)[q as int] == ',' as u8);
        assert(source[q as int] == spaced_open(lead, more)[q as int]);
    } else {
        assert(elements.take(k as int) =~= elements);
        assert forall|i: int| part.len() <= i < q implies blank_byte(#[trigger] source[i]) by {
            assert(source[i] == inner[i - part.len()]);
            assert(blank_byte(inner[i - part.len()]));
        }
    }
    assert forall|i: int| end <= i < q implies blank_byte(#[trigger] source[i]) by {
        if i < part.len() {
            assert(blank_byte(source[i]));
        }
    }
    skipping_stops_at_the_next_token(source, end, q);
    if end < q {
        assert(blank_byte(source[end as int]));
    }
    q
}

/// White space precedes the opening bracket.
proof fn before_the_elements(
    lead: Seq<u8>,
    elements: Seq<SpacedElement>,
    inner: Seq<u8>,
    trail: Seq<u8>,
)
    requires
        blank(lead),
    ensures
        ({
            let source = spaced_array(lead, elements, inner, trail);
            &&& lead.len() < source.len()
            &&& after_space(source, 0) == lead.len()
            &&& source[lead.len() as int] == '[' as u8
            &&& spaced_open(lead, elements.take(0)).len() == lead.len() + 1
        }),
{
    let source = spaced_array(lead, elements, inner, trail);
    let part = spaced_open(lead, elements.take(0));
    let open_at = lead.len();
    spaced_array_prefix(lead, elements, inner, trail, 0);
    assert(elements.take(0) =~= Seq::<SpacedElement>::empty());
    assert(source[open_at as int] == part[open_at as int]);
    assert forall|i: int| 0 <= i < open_at implies blank_byte(#[trigger] source[i]) by {
        assert(source[i] == part[i]);
        assert(blank_byte(lead[i]));
    }
    skipping_stops_at_the_next_token(source, 0, open_at);
}

/// Only white space follows the closing bracket; in an empty array only white
/// space precedes it.
proof fn behind_the_elements(
    lead: Seq<u8>,
    elements: Seq<SpacedElement>,
    inner: Seq<u8>,
    trail: Seq<u8>,
)
    requires
        blank(lead),
        blank(inner),
        blank(trail),
    ensures
        ({
            let source = spaced_array(lead, elements, inner, trail);
            let close = spaced_open(lead, elements).len() + inner.len();
            &&& close < source.len()
            &&& source[close as int] == ']' as u8
            &&& after_space(source, close + 1) >= source.len()
            &&& elements.len() == 0 ==> after_space(source, lead.len() + 1) == close
        }),
{
    let source = spaced_array(lead, elements, inner, trail);
    let whole = spaced_open(lead, elements);
    let close = whole.len() + inner.len();
    assert(source[close as int] == ']' as u8);
    assert forall|i: int| close + 1 <= i < source.len()
        implies blank_byte(#[trigger] source[i]) by {
        assert(source[i] == trail[i - close - 1]);
        assert(blank_byte(trail[i - close - 1]));
    }
    skipping_stops_at_the_next_token(source, close + 1, source.len());
    if elements.len() == 0 {
        let from = lead.len() + 1;
        assert(whole.len() == from);
        assert forall|i: int| from <= i < close implies blank_byte(#[trigger] source[i]) by {
            assert(source[i] == inner[i - from]);
            assert(blank_byte(inner[i - from]));
        }
        skipping_stops_at_the_next_token(source, from, close);
    }
}

/// Where the text of the element behind the `k`-th one starts.
spec fn start_of_element(lead: Seq<u8>, elements: Seq<SpacedElement>, k: nat) -> nat {
    let gap = if k == 0 {
        0nat
    } else {
        1nat
    };
    spaced_open(lead, elements.take(k as int)).len() + gap + elements[k as int].before.len()
}

/// The element behind the `k`-th one is found: white space precedes its text.
proof fn the_next_element_is_found(
    lead: Seq<u8>,
    elements: Seq<SpacedElement>,
    inner: Seq<u8>,
    trail: Seq<u8>,
    content: Json,
    bound: nat,
    k: nat,
)
    requires
        well_spaced(elements),
        blank(inner),
        k < elements.len(),
        element_text(elements[k as int].text, content),
        elements[k as int].text.len() <= bound,
        spaced_array(lead, elements, inner, trail).len() <= u64::MAX,
    ensures
        ({
            let source = spaced_array(lead, elements, inner, trail);
            let start = start_of_element(lead, elements, k);
            let from = (start - elements[k as int].before.len()) as nat;
            let end = end_of_element(lead, elements, k + 1);
            &&& after_space(source, from) == start
            &&& start < end <= source.len()
            &&& source[start as int] == elements[k as int].text[0]
            &&& element_at(source, start, bound) == Some(Element { content, end })
        }),
{
    let source = spaced_array(lead, elements, inner, trail);
    let part = spaced_open(lead, elements.take(k as int));
    let element = elements[k as int];
    let more = elements.take(k as int + 1);
    let longer = spaced_open(lead, more);
    spaced_array_prefix(lead, elements, inner, trail, k + 1);
    assert(more.drop_last() =~= elements.take(k as int));
    assert(more.last() == element);
    let start = start_of_element(lead, elements, k);
    let from = (start - element.before.len()) as nat;
    let end = end_of_element(lead, elements, k + 1);
    assert(end == start + element.text.len());
    assert(blank(element.before));
    assert forall|i: int| from <= i < start implies blank_byte(#[trigger] source[i]) by {
        assert(source[i] == longer[i]);
        assert(longer[i] == element.before[i - from]);
        assert(blank_byte(element.before[i - from]));
    }
    assert forall|i: int| start <= i < end implies #[trigger] source[i]
        == element.text[i - start] by {
        assert(source[i] == longer[i]);
    }
    assert(source[start as int] == element.text[0]);
    skipping_stops_at_the_next_token(source, from, start);
    assert(source.subrange(start as int, end as int) =~= element.text);
    let q = behind_an_element(lead, elements, inner, trail, k + 1);
    element_is_found(
        source,
        start,
        element.text,
        content,
        least(INITIAL_GROWTH_BYTES as nat, bound),
        bound,
    );
}

/// White space before the opening bracket, around the elements and separators,
/// before the closing bracket and after it makes no difference: a reader gives
/// each element in order and then the end of input. The elements' texts are ones
/// that the reader's bound allows, with the given contents.
pub proof fn white_space_makes_no_difference(
    lead: Seq<u8>,
    elements: Seq<SpacedElement>,
    inner: Seq<u8>,
    trail: Seq<u8>,
    contents: Seq<Json>,
    bound: nat,
    k: nat,
)
    requires
        blank(lead),
        well_spaced(elements),
        blank(inner),
        blank(trail),
        elements.len() == contents.len(),
        forall|i: int|
            0 <= i < elements.len() ==> element_text((#[trigger] elements[i]).text, contents[i])
                && elements[i].text.len() <= bound,
        spaced_array(lead, elements, inner, trail).len() <= u64::MAX,
        k <= elements.len(),
    ensures
        k < elements.len() ==> read_call(
            frame_behind(lead, elements, k),
            spaced_array(lead, elements, inner, trail),
            bound,
        ) == (ArrayOutcome::Item(contents[k as int]), frame_behind(lead, elements, k + 1)),
        k == elements.len() ==> read_call(
            frame_behind(lead, elements, k),
            spaced_array(lead, elements, inner, trail),
            bound,
        ).0 is End,
{
    let source = spaced_array(lead, elements, inner, trail);
    before_the_elements(lead, elements, inner, trail);
    if k == elements.len() {
        behind_the_elements(lead, elements, inner, trail);
        if k > 0 {
            let q = behind_an_element(lead, elements, inner, trail, k);
            assert(closes(source, q));
        } else {
            assert(closes(source, after_space(source, lead.len() + 1)));
        }
    } else {
        assert(element_text(elements[k as int].text, contents[k as int]));
        the_next_element_is_found(lead, elements, inner, trail, contents[k as int], bound, k);
        if k > 0 {
            let q = behind_an_element(lead, elements, inner, trail, k);
        }
    }
}

/// An accepted element is a value that the bytes from its start on hold, within
/// the bound, and that white space and then a comma or the closing bracket
/// follow.
pub proof fn an_accepted_element_is_framed(
    source: Seq<u8>,
    start: nat,
    target: nat,
    bound: nat,
)
    requires
        0 < target <= bound,
        start <= source.len(),
    ensures
        element_from(source, start, target, bound) matches Some(element) ==> {
            &&& exists|n: nat|
                target <= n <= bound && #[trigger] json_first(buffered(source, start, n))
                    == (FirstValue::Value {
                    content: element.content,
                    offset: (element.end - start) as nat,
                })
            &&& after_space(source, element.end) < source.len()
            &&& (source[after_space(source, element.end) as int] == ',' as u8
                || source[after_space(source, element.end) as int] == ']' as u8)
        },
    decreases bound - target,
{
    match json_first(buffered(source, start, target)) {
        FirstValue::Value { content, offset } => {
            if framing(source, start + offset) is NeedMore && target < bound {
                an_accepted_element_is_framed(source, start, least(2 * target, bound), bound);
            }
        },
        FirstValue::Truncated => {
            if target < bound {
                an_accepted_element_is_framed(source, start, least(2 * target, bound), bound);
            }
        },
        FirstValue::Unusable => {},
    }
}

/// Behind an element only a comma leads to another one, and only the closing
/// bracket, with nothing but white space after it, ends the input. Everything else
/// is malformed.
pub proof fn only_tokens_go_on(frame: Frame, source: Seq<u8>, from: nat, bound: nat)
    requires
        from <= source.len(),
    ensures
        ({
            let at = after_space(source, from);
            let outcome = read_after_element(frame, source, from, bound).0;
            &&& outcome is Item ==> at < source.len() && source[at as int] == ',' as u8
            &&& outcome is End ==> {
                &&& at < source.len() && source[at as int] == ']' as u8
                &&& forall|i: int| at < i < source.len() ==> blank_byte(#[trigger] source[i])
            }
            &&& outcome matches ArrayOutcome::Failed(error) ==> error.category
                == FailureCategory::UserComponent && !error.checkpoint_advanced
        }),
{
    let at = after_space(source, from);
    skipped_is_blank(source, from);
    if at < source.len() && source[at as int] == CLOSE && closes(source, at) {
        skipped_is_blank(source, at + 1);
    }
}

/// An array starts with the opening bracket.
pub proof fn only_a_bracket_opens(frame: Frame, source: Seq<u8>, bound: nat)
    ensures
        ({
            let at = after_space(source, 0);
            at >= source.len() || source[at as int] != '[' as u8 ==> read_from_start(
                frame,
                source,
                0,
                bound,
            ) == (ArrayOutcome::Failed(malformed()), frame)
        }),
        malformed().category == FailureCategory::UserComponent,
        !malformed().checkpoint_advanced,
{
}

/// What is skipped is white space, and what follows it is not.
pub proof fn skipped_is_blank(source: Seq<u8>, i: nat)
    ensures
        i <= after_space(source, i),
        forall|k: int| i <= k < after_space(source, i) ==> blank_byte(#[trigger] source[k]),
        after_space(source, i) < source.len() ==> !blank_byte(
            source[after_space(source, i) as int],
        ),
        i <= source.len() ==> after_space(source, i) <= source.len(),
    decreases source.len() - i,
{
    if i < source.len() && is_space(source[i as int]) {
        skipped_is_blank(source, i + 1);
    }
}

} // verus!
