//! Text as a sequence of characters: lines, and what a piece of text does to
//! a cursor.

use vstd::prelude::*;
use vstd::utf8::{encode_scalar, encode_utf8};

verus! {

/// The part of a text before its first line break.
pub open spec fn first_line(text: Seq<char>) -> Seq<char>
    decreases text.len(),
{
    if text.len() == 0 || text[0] == '\n' {
        Seq::empty()
    } else {
        seq![text[0]] + first_line(text.drop_first())
    }
}

/// The text without its carriage returns.
pub open spec fn without_returns(text: Seq<char>) -> Seq<char>
    decreases text.len(),
{
    if text.len() == 0 {
        Seq::empty()
    } else if text.last() == '\r' {
        without_returns(text.drop_last())
    } else {
        without_returns(text.drop_last()).push(text.last())
    }
}

/// The number of line breaks in a text.
pub open spec fn newline_count(text: Seq<char>) -> nat
    decreases text.len(),
{
    if text.len() == 0 {
        0
    } else if text.last() == '\n' {
        newline_count(text.drop_last()) + 1
    } else {
        newline_count(text.drop_last())
    }
}

/// The number of characters after the last line break of a text, or in all of
/// it where it has none.
pub open spec fn tail_len(text: Seq<char>) -> nat
    decreases text.len(),
{
    if text.len() == 0 || text.last() == '\n' {
        0
    } else {
        tail_len(text.drop_last()) + 1
    }
}

/// The number of lines of a text. A line ends at a line break or at the end
/// of the text; a line break at the very end starts no further line.
pub open spec fn line_total(text: Seq<char>) -> nat {
    if text.len() > 0 && text.last() != '\n' {
        newline_count(text) + 1
    } else {
        newline_count(text)
    }
}

/// The number of characters in the last line of a text; zero where it has no
/// line.
pub open spec fn last_line_len(text: Seq<char>) -> nat {
    if text.len() > 0 && text.last() == '\n' {
        tail_len(text.drop_last())
    } else {
        tail_len(text)
    }
}

/// How many rows a cursor moves down when the text is typed: one for each
/// line after the first.
pub open spec fn row_displacement(text: Seq<char>) -> nat {
    if line_total(text) == 0 {
        0
    } else {
        (line_total(text) - 1) as nat
    }
}

/// The first line of a text without its ending: the part before the first
/// line break, and where a carriage return stands right before that line
/// break, the part before the carriage return. A carriage return at the end
/// of a text that no line break follows belongs to the line.
pub open spec fn first_line_content(text: Seq<char>) -> Seq<char> {
    let head = first_line(text);
    if head.len() < text.len() && head.len() > 0 && head.last() == '\r' {
        head.drop_last()
    } else {
        head
    }
}

/// Line number `n` of a text, counted from zero, without its ending; none
/// where the text has fewer lines.
pub open spec fn nth_line(text: Seq<char>, n: nat) -> Option<Seq<char>>
    decreases n,
{
    let head = first_line(text);
    if text.len() == 0 {
        None
    } else if n == 0 {
        Some(first_line_content(text))
    } else if head.len() == text.len() {
        None
    } else {
        nth_line(text.skip(head.len() as int + 1), (n - 1) as nat)
    }
}

/// The number of bytes that a character takes in UTF-8.
pub open spec fn utf8_width(c: char) -> nat {
    if (c as u32) < 0x80 {
        1
    } else if (c as u32) < 0x800 {
        2
    } else if (c as u32) < 0x10000 {
        3
    } else {
        4
    }
}

/// The number of bytes that a text takes in UTF-8.
pub open spec fn byte_len(text: Seq<char>) -> nat
    decreases text.len(),
{
    if text.len() == 0 {
        0
    } else {
        byte_len(text.drop_last()) + utf8_width(text.last())
    }
}

/// A character's width is the length of its UTF-8 encoding.
pub proof fn lemma_width_is_encoded_len(c: char)
    ensures
        utf8_width(c) == encode_scalar(c as u32).len(),
{
}

/// The byte length of a text is the width of its first character and the
/// byte length of the rest.
pub proof fn lemma_byte_len_from_front(text: Seq<char>)
    requires
        text.len() > 0,
    ensures
        byte_len(text) == utf8_width(text[0]) + byte_len(text.drop_first()),
    decreases text.len(),
{
    let front = text.drop_last();
    let back = text.drop_first();
    if text.len() == 1 {
        assert(byte_len(front) == 0);
        assert(byte_len(back) == 0);
        assert(text.last() == text[0]);
    } else {
        lemma_byte_len_from_front(front);
        assert(front.drop_first() =~= back.drop_last());
        assert(front[0] == text[0]);
        assert(back.last() == text.last());
        assert(byte_len(back) == byte_len(back.drop_last()) + utf8_width(back.last()));
    }
}

/// The byte length of a text is the length of its UTF-8 encoding.
pub proof fn lemma_byte_len_is_encoded_len(text: Seq<char>)
    ensures
        byte_len(text) == encode_utf8(text).len(),
    decreases text.len(),
{
    if text.len() > 0 {
        lemma_byte_len_from_front(text);
        lemma_width_is_encoded_len(text[0]);
        lemma_byte_len_is_encoded_len(text.drop_first());
    }
}

/// In a text without carriage returns, a line without its ending is the part
/// before the line break.
pub proof fn lemma_line_without_returns(text: Seq<char>)
    requires
        !text.contains('\r'),
    ensures
        first_line_content(text) == first_line(text),
{
    let head = first_line(text);
    lemma_first_line_is_prefix(text);
    if head.len() > 0 && head.last() == '\r' {
        assert(text[head.len() - 1] == '\r');
        assert(text.contains('\r'));
    }
}

/// The first line of a text is a prefix of the text.
pub proof fn lemma_first_line_is_prefix(text: Seq<char>)
    ensures
        first_line(text).len() <= text.len(),
        first_line(text) == text.take(first_line(text).len() as int),
    decreases text.len(),
{
    if text.len() == 0 || text[0] == '\n' {
        assert(text.take(0) =~= Seq::empty());
    } else {
        let rest = text.drop_first();
        lemma_first_line_is_prefix(rest);
        let n = first_line(rest).len() as int;
        assert(text.take(n + 1) =~= seq![text[0]] + rest.take(n));
    }
}

/// The first line of a text is its longest prefix without a line break.
pub proof fn lemma_first_line(text: Seq<char>, end: int)
    requires
        0 <= end <= text.len(),
        forall|j: int| 0 <= j < end ==> text[j] != '\n',
        end == text.len() || text[end] == '\n',
    ensures
        first_line(text) == text.take(end),
    decreases text.len(),
{
    if end == 0 {
        assert(text.take(0) =~= Seq::empty());
    } else {
        let rest = text.drop_first();
        assert forall|j: int| 0 <= j < end - 1 implies rest[j] != '\n' by {
            assert(rest[j] == text[j + 1]);
        }
        lemma_first_line(rest, end - 1);
        assert(text.take(end) =~= seq![text[0]] + rest.take(end - 1));
    }
}

/// The characters of a string, in order.
pub fn chars_of(text: &str) -> (chars: Vec<char>)
    ensures
        chars@ == text@,
{
    let mut chars: Vec<char> = Vec::new();
    for c in it: text.chars()
        invariant
            chars@ == it.seq().take(it.index() as int),
            it.seq() == text@,
    {
        chars.push(c);
        assert(chars@ =~= it.seq().take(it.index() + 1));
    }
    assert(chars@ =~= text@);
    chars
}

/// The characters of a text that are no carriage returns.
pub fn strip_returns(chars: &[char]) -> (kept: Vec<char>)
    ensures
        kept@ == without_returns(chars@),
{
    let mut kept: Vec<char> = Vec::new();
    let mut i: usize = 0;
    while i < chars.len()
        invariant
            i <= chars.len(),
            kept@ == without_returns(chars@.take(i as int)),
        decreases chars.len() - i,
    {
        proof {
            assert(chars@.take(i + 1).drop_last() =~= chars@.take(i as int));
        }
        if chars[i] != '\r' {
            kept.push(chars[i]);
        }
        i += 1;
    }
    assert(chars@.take(chars@.len() as int) =~= chars@);
    kept
}

/// What typing a text does to a cursor: how many rows it moves down, and how
/// many characters the last line of the text has.
pub fn displacement(chars: &[char]) -> (moved: (usize, usize))
    ensures
        moved.0 == row_displacement(chars@),
        moved.1 == last_line_len(chars@),
{
    let mut newlines: usize = 0;
    let mut tail: usize = 0;
    let mut earlier_tail: usize = 0;
    let mut i: usize = 0;
    while i < chars.len()
        invariant
            i <= chars.len(),
            newlines == newline_count(chars@.take(i as int)),
            tail == tail_len(chars@.take(i as int)),
            i > 0 ==> earlier_tail == tail_len(chars@.take(i - 1)),
            newlines <= i,
            tail <= i,
        decreases chars.len() - i,
    {
        proof {
            assert(chars@.take(i + 1).drop_last() =~= chars@.take(i as int));
        }
        earlier_tail = tail;
        if chars[i] == '\n' {
            newlines += 1;
            tail = 0;
        } else {
            tail += 1;
        }
        i += 1;
    }
    proof {
        assert(chars@.take(chars@.len() as int) =~= chars@);
        if i > 0 {
            assert(chars@.take(i - 1) =~= chars@.drop_last());
        }
    }
    if i == 0 {
        (0, 0)
    } else if chars[i - 1] == '\n' {
        (newlines - 1, earlier_tail)
    } else {
        (newlines, tail)
    }
}

/// The number of bytes that a character takes in UTF-8.
pub fn width_of(c: char) -> (width: u8)
    ensures
        width == utf8_width(c),
{
    let code = c as u32;
    if code < 0x80 {
        1
    } else if code < 0x800 {
        2
    } else if code < 0x10000 {
        3
    } else {
        4
    }
}

/// The length in bytes of line number `row` of a text; none where the text
/// has fewer lines.
pub fn line_byte_len(chars: &[char], row: usize) -> (len: Option<u128>)
    ensures
        match nth_line(chars@, row as nat) {
            Some(line) => len == Some(byte_len(line) as u128) && byte_len(line) <= 4 * chars@.len(),
            None => len is None,
        },
{
    let mut start: usize = 0;
    let mut left: usize = row;
    assert(chars@.skip(0) =~= chars@);
    loop
        invariant
            start <= chars.len(),
            left <= row,
            nth_line(chars@, row as nat) == nth_line(chars@.skip(start as int), left as nat),
        decreases left,
    {
        let ghost rest = chars@.skip(start as int);
        if start == chars.len() {
            return None;
        }
        let mut end: usize = start;
        let mut bytes: u128 = 0;
        while end < chars.len() && chars[end] != '\n'
            invariant
                start <= end <= chars.len(),
                forall|j: int| start <= j < end ==> chars@[j] != '\n',
                bytes == byte_len(chars@.subrange(start as int, end as int)),
                bytes <= 4 * (end - start),
            decreases chars.len() - end,
        {
            proof {
                assert(chars@.subrange(start as int, end + 1).drop_last() =~= chars@.subrange(
                    start as int,
                    end as int,
                ));
            }
            bytes = bytes + width_of(chars[end]) as u128;
            end += 1;
        }
        proof {
            assert forall|j: int| 0 <= j < end - start implies rest[j] != '\n' by {
                assert(rest[j] == chars@[start + j]);
            }
            lemma_first_line(rest, end - start);
            assert(rest.take(end - start) =~= chars@.subrange(start as int, end as int));
        }
        if left == 0 {
            if end < chars.len() && end > start && chars[end - 1] == '\r' {
                proof {
                    assert(rest.take(end - start).last() == chars@[end - 1]);
                }
                return Some(bytes - 1);
            }
            return Some(bytes);
        }
        if end == chars.len() {
            return None;
        }
        proof {
            assert(rest.skip(end - start + 1) =~= chars@.skip(end + 1));
        }
        start = end + 1;
        left -= 1;
    }
}

} // verus!
