//! Zero-based positions in a file, with columns counted in UTF-16 code units,
//! and the mapping from byte offsets to such positions.
use vstd::prelude::*;
use vstd::string::*;
use vstd::utf8::*;

verus! {

/// A zero-based line and column.
#[derive(Clone, Copy, Debug, PartialEq, Eq, Structural)]
pub struct Position {
    pub line: usize,
    pub character: usize,
}

/// A half-open span between two positions.
#[derive(Clone, Copy, Debug, PartialEq, Eq, Structural)]
pub struct Range {
    pub start: Position,
    pub end: Position,
}

/// The byte offsets just past each line feed of `b`, in increasing order.
pub open spec fn newline_ends(b: Seq<u8>) -> Seq<usize>
    decreases b.len(),
{
    if b.len() == 0 {
        seq![]
    } else {
        let rest = newline_ends(b.drop_last());
        if b.last() == 10u8 {
            rest.push(b.len() as usize)
        } else {
            rest
        }
    }
}

/// The offset at which each line of `b` starts: zero, then one past each line feed.
pub open spec fn line_starts_of(b: Seq<u8>) -> Seq<usize> {
    seq![0usize] + newline_ends(b)
}

pub open spec fn is_continuation(x: u8) -> bool {
    0x80 <= x < 0xC0
}

/// How many UTF-16 code units the byte at `i` accounts for: one for the first byte
/// of each character, and one more, at its second byte, for a four-byte character
/// (the only kind that needs a surrogate pair).
pub open spec fn units_at(b: Seq<u8>, i: int) -> nat {
    if !is_continuation(b[i]) {
        1
    } else if i > 0 && b[i - 1] >= 0xF0 {
        1
    } else {
        0
    }
}

/// The number of UTF-16 code units of the UTF-8 text between byte offsets `lo` and `hi`.
pub open spec fn utf16_units(b: Seq<u8>, lo: int, hi: int) -> nat
    decreases hi - lo,
{
    if hi <= lo {
        0
    } else {
        utf16_units(b, lo, hi - 1) + units_at(b, hi - 1)
    }
}

pub open spec fn min_int(a: int, b: int) -> int {
    if a <= b {
        a
    } else {
        b
    }
}

/// `p` is the position of byte offset `o` (taken as at most the text's length)
/// in `text`, whose line-start table is `starts`.
pub open spec fn is_position_of(text: Seq<u8>, starts: Seq<usize>, o: int, p: (usize, usize)) -> bool {
    let off = min_int(o, text.len() as int);
    let l = p.0 as int;
    &&& 0 <= l < starts.len()
    &&& starts[l] <= off
    &&& (l + 1 == starts.len() || starts[l + 1] > off)
    &&& p.1 == utf16_units(text, starts[l] as int, off)
}

proof fn lemma_newline_ends_bounded(b: Seq<u8>)
    requires
        b.len() <= usize::MAX,
    ensures
        forall|k: int| 0 <= k < newline_ends(b).len() ==> 0 < #[trigger] newline_ends(b)[k] <= b.len(),
    decreases b.len(),
{
    if b.len() > 0 {
        lemma_newline_ends_bounded(b.drop_last());
        let rest = newline_ends(b.drop_last());
        assert forall|k: int| 0 <= k < newline_ends(b).len() implies 0 < #[trigger] newline_ends(b)[k] <= b.len() by {
            if k < rest.len() {
                assert(newline_ends(b)[k] == rest[k]);
            }
        }
    }
}

/// Every entry of the line-start table lies within the text.
pub proof fn lemma_line_starts_bounded(b: Seq<u8>)
    requires
        b.len() <= usize::MAX,
    ensures
        line_starts_of(b).len() >= 1,
        line_starts_of(b)[0] == 0,
        forall|k: int| 0 <= k < line_starts_of(b).len() ==> #[trigger] line_starts_of(b)[k] <= b.len(),
{
    lemma_newline_ends_bounded(b);
    assert forall|k: int| 0 <= k < line_starts_of(b).len() implies #[trigger] line_starts_of(b)[k] <= b.len() by {
        if k > 0 {
            assert(line_starts_of(b)[k] == newline_ends(b)[k - 1]);
        }
    }
}

proof fn lemma_utf16_units_bounded(b: Seq<u8>, lo: int, hi: int)
    ensures
        utf16_units(b, lo, hi) <= if hi <= lo { 0 } else { hi - lo },
    decreases hi - lo,
{
    if hi > lo {
        lemma_utf16_units_bounded(b, lo, hi - 1);
    }
}

/// The number of UTF-16 code units of a character sequence: two for a character
/// outside the basic multilingual plane (a surrogate pair), one for any other.
pub open spec fn utf16_len(cs: Seq<char>) -> nat
    decreases cs.len(),
{
    if cs.len() == 0 {
        0
    } else {
        (if cs[0] as u32 >= 0x10000 { 2nat } else { 1nat }) + utf16_len(cs.drop_first())
    }
}

proof fn lemma_encoding_bytes(s: u32)
    ensures
        !is_continuation(leading_byte_width_1(s)) && leading_byte_width_1(s) < 0xF0,
        !is_continuation(leading_byte_width_2(s)) && leading_byte_width_2(s) < 0xF0,
        !is_continuation(leading_byte_width_3(s)) && leading_byte_width_3(s) < 0xF0,
        !is_continuation(leading_byte_width_4(s)) && leading_byte_width_4(s) >= 0xF0,
        is_continuation(last_continuation_byte(s)),
        is_continuation(second_last_continuation_byte(s)),
        is_continuation(third_last_continuation_byte(s)),
{
    assert(((s & 0x7Fu32) as u8) < 0x80u8) by (bit_vector);
    assert(0xC0u8 <= (0xC0u8 | ((s >> 6u32) & 0x1Fu32) as u8) && (0xC0u8 | ((s >> 6u32) & 0x1Fu32) as u8)
        < 0xE0u8) by (bit_vector);
    assert(0xE0u8 <= (0xE0u8 | ((s >> 12u32) & 0x0Fu32) as u8) && (0xE0u8 | ((s >> 12u32) & 0x0Fu32) as u8)
        < 0xF0u8) by (bit_vector);
    assert(0xF0u8 <= (0xF0u8 | ((s >> 18u32) & 0x7u32) as u8)) by (bit_vector);
    assert(0x80u8 <= (0x80u8 | (s & 0x3Fu32) as u8) && (0x80u8 | (s & 0x3Fu32) as u8) < 0xC0u8) by (bit_vector);
    assert(0x80u8 <= (0x80u8 | ((s >> 6u32) & 0x3Fu32) as u8) && (0x80u8 | ((s >> 6u32) & 0x3Fu32) as u8)
        < 0xC0u8) by (bit_vector);
    assert(0x80u8 <= (0x80u8 | ((s >> 12u32) & 0x3Fu32) as u8) && (0x80u8 | ((s >> 12u32) & 0x3Fu32) as u8)
        < 0xC0u8) by (bit_vector);
}

proof fn lemma_utf16_units_split(b: Seq<u8>, lo: int, mid: int, hi: int)
    requires
        lo <= mid <= hi,
    ensures
        utf16_units(b, lo, hi) == utf16_units(b, lo, mid) + utf16_units(b, mid, hi),
    decreases hi - mid,
{
    if hi > mid {
        lemma_utf16_units_split(b, lo, mid, hi - 1);
    }
}

proof fn lemma_utf16_units_of_char(b: Seq<u8>, lo: int, c: char)
    requires
        0 <= lo,
        lo + encode_scalar(c as u32).len() <= b.len(),
        b.subrange(lo, lo + encode_scalar(c as u32).len()) == encode_scalar(c as u32),
    ensures
        utf16_units(b, lo, lo + encode_scalar(c as u32).len()) == if c as u32 >= 0x10000 { 2nat } else { 1nat },
{
    let v = c as u32;
    let e = encode_scalar(v);
    char_is_scalar(c);
    lemma_encoding_bytes(v);
    assert(forall|k: int| 0 <= k < e.len() ==> b[lo + k] == #[trigger] e[k]) by {
        assert forall|k: int| 0 <= k < e.len() implies b[lo + k] == #[trigger] e[k] by {
            assert(b.subrange(lo, lo + e.len())[k] == b[lo + k]);
        }
    }
    assert(utf16_units(b, lo, lo) == 0);
    if has_width_1_encoding(v) {
        assert(e[0] == leading_byte_width_1(v));
        assert(b[lo] == e[0]);
        assert(units_at(b, lo) == 1);
        assert(utf16_units(b, lo, lo + 1) == 1);
    } else if has_width_2_encoding(v) {
        assert(e[0] == leading_byte_width_2(v));
        assert(b[lo] == e[0]);
        assert(e[1] == last_continuation_byte(v));
        assert(b[lo + 1] == e[1]);
        assert(units_at(b, lo) == 1);
        assert(units_at(b, lo + 1) == 0);
        assert(utf16_units(b, lo, lo + 1) == 1);
        assert(utf16_units(b, lo, lo + 2) == 1);
    } else if has_width_3_encoding(v) {
        assert(e[0] == leading_byte_width_3(v));
        assert(b[lo] == e[0]);
        assert(e[1] == second_last_continuation_byte(v));
        assert(b[lo + 1] == e[1]);
        assert(e[2] == last_continuation_byte(v));
        assert(b[lo + 2] == e[2]);
        assert(units_at(b, lo) == 1);
        assert(units_at(b, lo + 1) == 0);
        assert(units_at(b, lo + 2) == 0);
        assert(utf16_units(b, lo, lo + 1) == 1);
        assert(utf16_units(b, lo, lo + 2) == 1);
        assert(utf16_units(b, lo, lo + 3) == 1);
    } else {
        assert(e[0] == leading_byte_width_4(v));
        assert(b[lo] == e[0]);
        assert(e[1] == third_last_continuation_byte(v));
        assert(b[lo + 1] == e[1]);
        assert(e[2] == second_last_continuation_byte(v));
        assert(b[lo + 2] == e[2]);
        assert(e[3] == last_continuation_byte(v));
        assert(b[lo + 3] == e[3]);
        assert(units_at(b, lo) == 1);
        assert(units_at(b, lo + 1) == 1);
        assert(units_at(b, lo + 2) == 0);
        assert(units_at(b, lo + 3) == 0);
        assert(utf16_units(b, lo, lo + 1) == 1);
        assert(utf16_units(b, lo, lo + 2) == 2);
        assert(utf16_units(b, lo, lo + 3) == 2);
        assert(utf16_units(b, lo, lo + 4) == 2);
    }
}

/// The UTF-8 bytes of characters `cs`, wherever they stand in the text, count as
/// many UTF-16 code units as `cs` has.
pub proof fn lemma_utf16_units_of_chars(b: Seq<u8>, lo: int, cs: Seq<char>)
    requires
        0 <= lo,
        lo + encode_utf8(cs).len() <= b.len(),
        b.subrange(lo, lo + encode_utf8(cs).len()) == encode_utf8(cs),
    ensures
        utf16_units(b, lo, lo + encode_utf8(cs).len()) == utf16_len(cs),
    decreases cs.len(),
{
    if cs.len() > 0 {
        let e = encode_scalar(cs[0] as u32);
        let rest = encode_utf8(cs.drop_first());
        assert(encode_utf8(cs) == e + rest);
        let mid = lo + e.len();
        let hi = lo + encode_utf8(cs).len();
        assert(b.subrange(lo, mid) =~= e) by {
            assert(b.subrange(lo, mid) =~= b.subrange(lo, hi).subrange(0, e.len() as int));
        }
        assert(b.subrange(mid, hi) =~= rest) by {
            assert(b.subrange(mid, hi) =~= b.subrange(lo, hi).subrange(e.len() as int, (e.len() + rest.len()) as int));
        }
        lemma_utf16_units_of_char(b, lo, cs[0]);
        lemma_utf16_units_of_chars(b, mid, cs.drop_first());
        lemma_utf16_units_split(b, lo, mid, hi);
    }
}

/// The column of a byte offset on a character boundary is the number of UTF-16
/// code units of the characters between the start of its line and the offset.
pub proof fn lemma_column_is_utf16_length(text: Seq<u8>, starts: Seq<usize>, o: int, p: (usize, usize), cs: Seq<char>)
    requires
        0 <= o <= text.len(),
        is_position_of(text, starts, o, p),
        text.subrange(starts[p.0 as int] as int, o) == encode_utf8(cs),
    ensures
        p.1 == utf16_len(cs),
{
    let lo = starts[p.0 as int] as int;
    assert(encode_utf8(cs).len() == o - lo);
    lemma_utf16_units_of_chars(text, lo, cs);
}

/// The one-column range that starts at a one-based line and column.
pub fn range_from_line_col(line: usize, col: usize) -> (r: Range)
    ensures
        r.start.line == if line == 0 { 0 } else { line - 1 },
        r.start.character == if col == 0 { 0 } else { col - 1 },
        r.end.line == r.start.line,
        r.end.character == r.start.character + 1,
{
    let line0 = line.saturating_sub(1);
    let col0 = col.saturating_sub(1);
    Range {
        start: Position { line: line0, character: col0 },
        end: Position { line: line0, character: col0 + 1 },
    }
}

/// The byte offset at which each line of `text` starts.
pub fn build_line_starts(text: &str) -> (r: Vec<usize>)
    ensures
        r@ == line_starts_of(text.spec_bytes()),
{
    let b = text.as_bytes();
    let mut starts: Vec<usize> = vec![0];
    let mut i: usize = 0;
    while i < b.len()
        invariant
            i <= b@.len(),
            b@ == text.spec_bytes(),
            starts@ == line_starts_of(b@.subrange(0, i as int)),
        decreases b@.len() - i,
    {
        let ghost prev = b@.subrange(0, i as int);
        assert(b@.subrange(0, i + 1).drop_last() =~= prev);
        if b[i] == 10u8 {
            starts.push(i + 1);
            assert(starts@ =~= line_starts_of(b@.subrange(0, i + 1)));
        } else {
            assert(starts@ =~= line_starts_of(b@.subrange(0, i + 1)));
        }
        i += 1;
    }
    assert(b@.subrange(0, b@.len() as int) =~= b@);
    starts
}

/// The line and UTF-16 column of a byte offset; offsets past the end count as the end.
pub fn offset_to_line_col(text: &str, line_starts: &[usize], offset: usize) -> (r: (usize, usize))
    requires
        line_starts@ == line_starts_of(text.spec_bytes()),
    ensures
        is_position_of(text.spec_bytes(), line_starts@, offset as int, r),
{
    let b = text.as_bytes();
    let n = b.len();
    proof {
        lemma_line_starts_bounded(b@);
    }
    let offset = if offset < b.len() { offset } else { b.len() };
    let mut line: usize = 0;
    let mut idx: usize = 0;
    while idx < line_starts.len() && line_starts[idx] <= offset
        invariant
            line_starts@ == line_starts_of(b@),
            b@ == text.spec_bytes(),
            offset <= b@.len(),
            idx <= line_starts@.len(),
            idx == 0 ==> line == 0,
            idx > 0 ==> line == idx - 1,
            line < line_starts@.len(),
            line_starts@[line as int] <= offset,
        decreases line_starts@.len() - idx,
    {
        line = idx;
        idx += 1;
    }
    let line_start = line_starts[line];
    let mut col: usize = 0;
    let mut j: usize = line_start;
    while j < offset
        invariant
            line_start <= j <= offset <= b@.len(),
            col == utf16_units(b@, line_start as int, j as int),
        decreases offset - j,
    {
        proof {
            lemma_utf16_units_bounded(b@, line_start as int, j as int);
        }
        let x = b[j];
        if x < 0x80u8 || x >= 0xC0u8 {
            col += 1;
        } else if j > 0 && b[j - 1] >= 0xF0u8 {
            col += 1;
        }
        j += 1;
    }
    (line, col)
}

/// The range between byte offsets `offset` and `offset + length`, each clamped to the text.
pub fn offset_range(text: &str, line_starts: &[usize], offset: usize, length: usize) -> (r: Range)
    requires
        line_starts@ == line_starts_of(text.spec_bytes()),
    ensures
        is_position_of(text.spec_bytes(), line_starts@, offset as int, (r.start.line, r.start.character)),
        is_position_of(text.spec_bytes(), line_starts@, offset + length, (r.end.line, r.end.character)),
{
    let n = text.as_bytes().len();
    let (start_line, start_col) = offset_to_line_col(text, line_starts, offset);
    let end_offset = offset.saturating_add(length);
    let (end_line, end_col) = offset_to_line_col(text, line_starts, end_offset);
    Range {
        start: Position { line: start_line, character: start_col },
        end: Position { line: end_line, character: end_col },
    }
}

} // verus!
