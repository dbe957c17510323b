//! Conversion from byte offsets to line and column coordinates.

use crate::text::lemma_encode_concat;
use vstd::prelude::*;
use vstd::utf8::*;

verus! {

/// A zero-based line and column in a source text.
#[derive(Clone, Copy, Debug, PartialEq, Eq, Structural)]
pub struct Position {
    pub line: usize,
    pub character: usize,
}

/// A half-open span of a source text.
#[derive(Clone, Copy, Debug, PartialEq, Eq, Structural)]
pub struct Range {
    pub start: Position,
    pub end: Position,
}

/// The coordinates reached after reading the first `n` bytes of `bytes`:
/// a line feed starts a new line at column zero, every other byte that
/// begins a scalar advances the column by one, and the bytes that continue
/// a scalar leave the coordinates alone.
pub open spec fn scan(bytes: Seq<u8>, n: nat) -> (nat, nat)
    recommends
        n <= bytes.len(),
    decreases n,
{
    if n == 0 {
        (0, 0)
    } else {
        let before = scan(bytes, (n - 1) as nat);
        let b = bytes[n - 1];
        if b == 0x0au8 {
            (before.0 + 1, 0)
        } else if is_continuation_byte(b) {
            before
        } else {
            (before.0, before.1 + 1)
        }
    }
}

/// The number of bytes that a conversion of `offset` reads: offsets past
/// the end of the text stop at its end.
pub open spec fn clamp(bytes: Seq<u8>, offset: nat) -> nat {
    if offset <= bytes.len() {
        offset
    } else {
        bytes.len()
    }
}

/// The coordinates of the byte offset `offset` in the text encoded as `bytes`.
pub open spec fn position_at(bytes: Seq<u8>, offset: nat) -> (nat, nat) {
    scan(bytes, clamp(bytes, offset))
}

/// Lexicographic order on coordinates: first by line, then by column.
pub open spec fn lex_le(a: (nat, nat), b: (nat, nat)) -> bool {
    a.0 < b.0 || (a.0 == b.0 && a.1 <= b.1)
}

impl Position {
    /// The coordinates as mathematical integers.
    pub open spec fn place(self) -> (nat, nat) {
        (self.line as nat, self.character as nat)
    }

    /// The first position of any text.
    pub fn origin() -> (p: Position)
        ensures
            p.place() == (0nat, 0nat),
    {
        Position { line: 0, character: 0 }
    }
}

/// Neither coordinate exceeds the number of bytes read.
pub proof fn lemma_scan_bounded(bytes: Seq<u8>, n: nat)
    ensures
        scan(bytes, n).0 <= n,
        scan(bytes, n).1 <= n,
    decreases n,
{
    if n > 0 {
        lemma_scan_bounded(bytes, (n - 1) as nat);
    }
}

/// Reading further never moves the coordinates backwards.
pub proof fn lemma_scan_monotonic(bytes: Seq<u8>, m: nat, n: nat)
    requires
        m <= n,
    ensures
        lex_le(scan(bytes, m), scan(bytes, n)),
    decreases n,
{
    if m < n {
        lemma_scan_monotonic(bytes, m, (n - 1) as nat);
    }
}

/// The conversion is monotonic: of two offsets into one text, the smaller
/// never converts to the lexicographically greater position.
pub proof fn lemma_position_monotonic(bytes: Seq<u8>, first: nat, second: nat)
    requires
        first < second,
    ensures
        lex_le(position_at(bytes, first), position_at(bytes, second)),
{
    lemma_scan_monotonic(bytes, clamp(bytes, first), clamp(bytes, second));
}

/// Of two offsets into one text, the one that is not greater converts to
/// the position that is not greater.
pub proof fn lemma_position_ordered(bytes: Seq<u8>, first: nat, second: nat)
    requires
        first <= second,
    ensures
        lex_le(position_at(bytes, first), position_at(bytes, second)),
{
    lemma_scan_monotonic(bytes, clamp(bytes, first), clamp(bytes, second));
}

/// The coordinates reached after reading the characters of `text`: a line
/// feed starts a new line at column zero, and every other character
/// advances the column by one.
pub open spec fn end_of(text: Seq<char>) -> (nat, nat)
    decreases text.len(),
{
    if text.len() == 0 {
        (0, 0)
    } else {
        let before = end_of(text.drop_last());
        if text.last() == '\n' {
            (before.0 + 1, 0)
        } else {
            (before.0, before.1 + 1)
        }
    }
}

/// What is read of the first `n` bytes does not depend on the bytes after
/// them.
proof fn lemma_scan_prefix(a: Seq<u8>, b: Seq<u8>, n: nat)
    requires
        n <= a.len(),
    ensures
        scan(a + b, n) == scan(a, n),
    decreases n,
{
    if n > 0 {
        lemma_scan_prefix(a, b, (n - 1) as nat);
        assert((a + b)[n - 1] == a[n - 1]);
    }
}

/// Bytes that continue a scalar leave the coordinates alone.
proof fn lemma_scan_continuation(bytes: Seq<u8>, n: nat, more: nat)
    requires
        n + more <= bytes.len(),
        forall|i: int| n <= i < n + more ==> is_continuation_byte(#[trigger] bytes[i]),
    ensures
        scan(bytes, n + more) == scan(bytes, n),
    decreases more,
{
    if more > 0 {
        lemma_scan_continuation(bytes, n, (more - 1) as nat);
    }
}

/// A text of one character is encoded as that character is.
proof fn lemma_encode_single(c: char)
    ensures
        encode_utf8(seq![c]) == encode_scalar(c as u32),
{
    let one = seq![c];
    assert(one[0] == c);
    assert(one.drop_first() =~= Seq::<char>::empty());
    assert(encode_utf8(one.drop_first()) =~= Seq::<u8>::empty());
    assert(encode_utf8(one) =~= encode_scalar(c as u32));
}

/// The encoding of a character begins with a byte that begins a scalar
/// and goes on with bytes that continue one; it begins with the line feed
/// byte exactly when the character is the line feed.
proof fn lemma_scalar_bytes(c: char)
    ensures
        encode_scalar(c as u32).len() >= 1,
        !is_continuation_byte(encode_scalar(c as u32)[0]),
        forall|i: int|
            1 <= i < encode_scalar(c as u32).len() ==> is_continuation_byte(
                #[trigger] encode_scalar(c as u32)[i],
            ),
        (encode_scalar(c as u32)[0] == 0x0au8) == (c == '\n'),
{
    let one = seq![c];
    let e = encode_scalar(c as u32);
    lemma_encode_single(c);
    encode_utf8_first_scalar(one);
    char_is_scalar(c);
    assert(decode_first_scalar(e) == c as u32);
    if e[0] == 0x0au8 {
        assert((0x0au8 & 0x7F) as u32 == 10u32) by (bit_vector);
        assert(c as u32 == 10u32);
    }
    if c == '\n' {
        assert((10u32 & 0x7F) as u8 == 0x0au8) by (bit_vector);
    }
}

/// Reading a text by its bytes gives the coordinates that reading it by
/// its characters gives.
proof fn lemma_scan_counts_scalars(text: Seq<char>)
    ensures
        scan(encode_utf8(text), encode_utf8(text).len()) == end_of(text),
    decreases text.len(),
{
    if text.len() > 0 {
        let init = text.drop_last();
        let c = text.last();
        let a = encode_utf8(init);
        let e = encode_scalar(c as u32);
        lemma_scan_counts_scalars(init);
        assert(text =~= init + seq![c]);
        lemma_encode_concat(init, seq![c]);
        lemma_encode_single(c);
        let bytes = a + e;
        lemma_scalar_bytes(c);
        lemma_scan_prefix(a, e, a.len());
        assert(bytes[a.len() as int] == e[0]);
        assert forall|i: int| a.len() + 1 <= i < a.len() + e.len() implies is_continuation_byte(
            #[trigger] bytes[i],
        ) by {
            assert(bytes[i] == e[i - a.len()]);
        }
        lemma_scan_continuation(bytes, a.len() + 1, (e.len() - 1) as nat);
    }
}

/// Columns count scalars, not bytes: the offset at which the first `k`
/// characters of a text end converts to the coordinates reached by
/// reading those characters one by one.
pub proof fn lemma_position_counts_scalars(text: Seq<char>, k: int)
    requires
        0 <= k <= text.len(),
    ensures
        position_at(encode_utf8(text), encode_utf8(text.take(k)).len()) == end_of(text.take(k)),
{
    let head = text.take(k);
    let tail = text.skip(k);
    assert(text =~= head + tail);
    lemma_encode_concat(head, tail);
    lemma_scan_prefix(encode_utf8(head), encode_utf8(tail), encode_utf8(head).len());
    lemma_scan_counts_scalars(head);
}

/// Converts the byte offset `offset` of `text` to a position. Offsets at
/// or past the end of the text convert to the position of its end.
pub fn position_in(bytes: &[u8], offset: usize) -> (p: Position)
    ensures
        p.place() == position_at(bytes@, offset as nat),
{
    let limit: usize = if offset <= bytes.len() {
        offset
    } else {
        bytes.len()
    };
    let mut line: usize = 0;
    let mut character: usize = 0;
    let mut i: usize = 0;
    while i < limit
        invariant
            i <= limit <= bytes.len(),
            (line as nat, character as nat) == scan(bytes@, i as nat),
        decreases limit - i,
    {
        proof {
            lemma_scan_bounded(bytes@, i as nat);
        }
        let b: u8 = bytes[i];
        if b == 0x0au8 {
            line = line + 1;
            character = 0;
        } else if !(0x80u8 <= b && b <= 0xbfu8) {
            character = character + 1;
        }
        i = i + 1;
    }
    Position { line, character }
}

} // verus!
