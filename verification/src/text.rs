//! Reading a source text by its UTF-8 bytes: comparison, substring search,
//! lines, and slices that begin and end between scalars.

use vstd::prelude::*;
use vstd::slice::*;
use vstd::string::*;
use vstd::utf8::*;

verus! {

/// `needle` stands in `hay` at the byte offset `at`.
pub open spec fn occurs_at(hay: Seq<u8>, needle: Seq<u8>, at: int) -> bool {
    &&& 0 <= at
    &&& at + needle.len() <= hay.len()
    &&& hay.subrange(at, at + needle.len()) == needle
}

/// The least offset at or after `from` at which `needle` stands in `hay`.
pub open spec fn first_occurrence_from(hay: Seq<u8>, needle: Seq<u8>, from: int) -> Option<int>
    decreases hay.len() + 1 - from,
{
    if from < 0 || from + needle.len() > hay.len() {
        None
    } else if occurs_at(hay, needle, from) {
        Some(from)
    } else {
        first_occurrence_from(hay, needle, from + 1)
    }
}

/// The least offset at which `needle` stands in `hay`, if it stands there
/// at all. The empty needle stands at offset zero.
pub open spec fn first_occurrence(hay: Seq<u8>, needle: Seq<u8>) -> Option<int> {
    first_occurrence_from(hay, needle, 0)
}

/// What a search from `from` finds is an occurrence with none between
/// `from` and it; what it misses does not occur at or after `from`.
pub proof fn lemma_first_occurrence_from(hay: Seq<u8>, needle: Seq<u8>, from: int)
    requires
        0 <= from,
    ensures
        match first_occurrence_from(hay, needle, from) {
            Some(at) => from <= at && occurs_at(hay, needle, at) && forall|k: int|
                from <= k < at ==> !occurs_at(hay, needle, k),
            None => forall|k: int| from <= k ==> !occurs_at(hay, needle, k),
        },
    decreases hay.len() + 1 - from,
{
    if from + needle.len() <= hay.len() && !occurs_at(hay, needle, from) {
        lemma_first_occurrence_from(hay, needle, from + 1);
    }
}

/// Whether two byte strings are equal.
pub fn bytes_equal(a: &[u8], b: &[u8]) -> (r: bool)
    ensures
        r == (a@ == b@),
{
    if a.len() != b.len() {
        return false;
    }
    let mut i: usize = 0;
    while i < a.len()
        invariant
            i <= a@.len(),
            a@.len() == b@.len(),
            forall|k: int| 0 <= k < i ==> a@[k] == b@[k],
        decreases a@.len() - i,
    {
        if a[i] != b[i] {
            return false;
        }
        i = i + 1;
    }
    proof {
        assert(a@ =~= b@);
    }
    true
}

/// Whether two texts are equal.
pub fn text_equals(a: &str, b: &str) -> (r: bool)
    ensures
        r == (a@ == b@),
{
    proof {
        encode_utf8_decode_utf8(a@);
        encode_utf8_decode_utf8(b@);
    }
    bytes_equal(a.as_bytes(), b.as_bytes())
}

/// Whether `needle` stands in `hay` at the offset `at`.
pub(crate) fn matches_at(hay: &[u8], needle: &[u8], at: usize) -> (r: bool)
    requires
        at + needle@.len() <= hay@.len(),
    ensures
        r == occurs_at(hay@, needle@, at as int),
{
    let hay_len: usize = hay.len();
    let mut k: usize = 0;
    while k < needle.len()
        invariant
            k <= needle@.len(),
            at + needle@.len() <= hay@.len(),
            hay_len == hay@.len(),
            forall|t: int| 0 <= t < k ==> hay@[at + t] == needle@[t],
        decreases needle@.len() - k,
    {
        if hay[at + k] != needle[k] {
            proof {
                assert(hay@.subrange(at as int, at + needle@.len())[k as int] != needle@[k as int]);
            }
            return false;
        }
        k = k + 1;
    }
    proof {
        assert(hay@.subrange(at as int, at + needle@.len()) =~= needle@);
    }
    true
}

/// Finds the first occurrence of `needle` in `hay`.
pub fn find(hay: &[u8], needle: &[u8]) -> (r: Option<usize>)
    ensures
        match r {
            Some(at) => first_occurrence(hay@, needle@) == Some(at as int) && at + needle@.len()
                <= hay@.len(),
            None => first_occurrence(hay@, needle@) is None,
        },
{
    if needle.len() > hay.len() {
        return None;
    }
    let last: usize = hay.len() - needle.len();
    let mut i: usize = 0;
    while i < last
        invariant
            i <= last,
            last == hay@.len() - needle@.len(),
            first_occurrence(hay@, needle@) == first_occurrence_from(hay@, needle@, i as int),
        decreases last - i,
    {
        if matches_at(hay, needle, i) {
            return Some(i);
        }
        i = i + 1;
    }
    if matches_at(hay, needle, last) {
        Some(last)
    } else {
        proof {
            assert(first_occurrence_from(hay@, needle@, last + 1) is None);
        }
        None
    }
}

/// The encoding of two texts joined is the two encodings joined.
pub proof fn lemma_encode_concat(a: Seq<char>, b: Seq<char>)
    ensures
        encode_utf8(a + b) == encode_utf8(a) + encode_utf8(b),
    decreases a.len(),
{
    if a.len() == 0 {
        assert(a + b =~= b);
        assert(encode_utf8(a) + encode_utf8(b) =~= encode_utf8(b));
    } else {
        assert((a + b).drop_first() =~= a.drop_first() + b);
        lemma_encode_concat(a.drop_first(), b);
        assert(encode_utf8(a + b) =~= encode_utf8(a) + encode_utf8(b));
    }
}

/// A text has at least as many bytes as characters.
pub proof fn lemma_encode_len(a: Seq<char>)
    ensures
        a.len() <= encode_utf8(a).len(),
    decreases a.len(),
{
    if a.len() > 0 {
        lemma_encode_len(a.drop_first());
    }
}

/// A scalar begins at the offset `at`, or the bytes end there.
pub open spec fn scalar_start(bytes: Seq<u8>, at: int) -> bool {
    &&& 0 <= at <= bytes.len()
    &&& at < bytes.len() ==> !is_continuation_byte(bytes[at])
}

/// In well-formed UTF-8 the offsets at which a scalar begins are the
/// character boundaries.
pub proof fn lemma_scalar_start_is_boundary(bytes: Seq<u8>, at: int)
    requires
        valid_utf8(bytes),
        scalar_start(bytes, at),
    ensures
        is_char_boundary(bytes, at),
{
    if at < bytes.len() {
        is_char_boundary_iff_not_is_continuation_byte(bytes, at);
    } else {
        is_char_boundary_start_end_of_seq(bytes);
    }
}

/// In well-formed UTF-8 a scalar begins after every ASCII byte.
pub proof fn lemma_scalar_starts_after_ascii(bytes: Seq<u8>, at: int)
    requires
        valid_utf8(bytes),
        0 <= at < bytes.len(),
        bytes[at] <= 0x7f,
    ensures
        scalar_start(bytes, at + 1),
{
    if at + 1 < bytes.len() {
        lemma_scalar_start_is_boundary(bytes, at);
        valid_utf8_split(bytes, at);
        let tail = bytes.subrange(at, bytes.len() as int);
        assert(valid_utf8(tail));
        assert(tail[0] == bytes[at]);
        assert(length_of_first_scalar(tail) == 1);
        let rest = pop_first_scalar(tail);
        assert(valid_utf8(rest));
        assert(rest.len() > 0);
        assert(rest[0] == bytes[at + 1]);
        assert(valid_first_scalar(rest));
    }
}

/// The part of `text` between two byte offsets at which scalars begin.
pub fn slice_text<'a>(text: &'a str, from: usize, to: usize) -> (r: &'a str)
    requires
        from <= to,
        scalar_start(text.spec_bytes(), from as int),
        scalar_start(text.spec_bytes(), to as int),
    ensures
        r.spec_bytes() == text.spec_bytes().subrange(from as int, to as int),
        r@ == decode_utf8(text.spec_bytes().subrange(from as int, to as int)),
{
    let ghost bytes = text.spec_bytes();
    proof {
        encode_utf8_valid_utf8(text@);
        lemma_scalar_start_is_boundary(bytes, to as int);
    }
    let (head, _) = text.split_at(to);
    proof {
        valid_utf8_split(bytes, to as int);
        assert(head.spec_bytes() =~= bytes.subrange(0, to as int));
        assert(scalar_start(head.spec_bytes(), from as int));
        lemma_scalar_start_is_boundary(head.spec_bytes(), from as int);
    }
    let (_, r) = head.split_at(from);
    proof {
        assert(r.spec_bytes() =~= bytes.subrange(from as int, to as int));
        encode_utf8_decode_utf8(r@);
    }
    r
}

/// The end of the content of a line that begins at `start` and whose line
/// feed stands at `feed`: a carriage return just before the line feed
/// belongs to the line ending.
pub open spec fn content_end(bytes: Seq<u8>, start: int, feed: int) -> int {
    if start < feed && bytes[feed - 1] == 0x0du8 {
        feed - 1
    } else {
        feed
    }
}

/// The lines found from the offset `at` on, where the line being read
/// began at `start`.
pub open spec fn lines_scan(bytes: Seq<u8>, start: int, at: int) -> Seq<(int, int)>
    decreases bytes.len() - at,
{
    if at < 0 || at >= bytes.len() {
        if start < bytes.len() {
            seq![(start, bytes.len() as int)]
        } else {
            Seq::empty()
        }
    } else if bytes[at] == 0x0au8 {
        seq![(start, content_end(bytes, start, at))] + lines_scan(bytes, at + 1, at + 1)
    } else {
        lines_scan(bytes, start, at + 1)
    }
}

/// The lines of a text, each as the byte offsets at which its content
/// begins and ends. A line ends at a line feed or at the end of the text;
/// the line feed, and a carriage return just before it, are not part of
/// the content. A text that ends with a line feed has no further line
/// after it.
pub open spec fn lines(bytes: Seq<u8>) -> Seq<(int, int)> {
    lines_scan(bytes, 0, 0)
}

/// The content of a line as text.
pub open spec fn line_text(bytes: Seq<u8>, span: (int, int)) -> Seq<char> {
    decode_utf8(bytes.subrange(span.0, span.1))
}

/// A span lies in the bytes, and a scalar begins at each of its ends.
pub open spec fn span_in(bytes: Seq<u8>, span: (int, int)) -> bool {
    &&& span.0 <= span.1
    &&& scalar_start(bytes, span.0)
    &&& scalar_start(bytes, span.1)
}

/// The spans of `spans` as pairs of integers.
pub open spec fn spans_view(spans: Seq<(usize, usize)>) -> Seq<(int, int)> {
    Seq::new(spans.len(), |i: int| (spans[i].0 as int, spans[i].1 as int))
}

/// The lines of a text.
pub fn line_spans(text: &str) -> (r: Vec<(usize, usize)>)
    ensures
        spans_view(r@) == lines(text.spec_bytes()),
        forall|i: int| 0 <= i < r@.len() ==> span_in(text.spec_bytes(), #[trigger] spans_view(r@)[i]),
{
    let bytes = text.as_bytes();
    proof {
        encode_utf8_valid_utf8(text@);
    }
    let mut spans: Vec<(usize, usize)> = Vec::new();
    let mut start: usize = 0;
    let mut at: usize = 0;
    while at < bytes.len()
        invariant
            start <= at <= bytes@.len(),
            bytes@ == text.spec_bytes(),
            valid_utf8(bytes@),
            scalar_start(bytes@, start as int),
            lines(bytes@) == spans_view(spans@) + lines_scan(bytes@, start as int, at as int),
            forall|i: int| 0 <= i < spans@.len() ==> span_in(bytes@, #[trigger] spans_view(spans@)[i]),
        decreases bytes@.len() - at,
    {
        if bytes[at] == 0x0au8 {
            let end: usize = if start < at && bytes[at - 1] == 0x0du8 {
                at - 1
            } else {
                at
            };
            let ghost before = spans@;
            spans.push((start, end));
            proof {
                lemma_scalar_starts_after_ascii(bytes@, at as int);
                assert(spans_view(spans@) =~= spans_view(before) + seq![
                    (start as int, content_end(bytes@, start as int, at as int)),
                ]);
                assert(span_in(bytes@, (start as int, end as int)));
                assert forall|i: int| 0 <= i < spans@.len() implies span_in(
                    bytes@,
                    #[trigger] spans_view(spans@)[i],
                ) by {
                    if i < before.len() {
                        assert(spans_view(spans@)[i] == spans_view(before)[i]);
                    }
                }
            }
            start = at + 1;
        }
        at = at + 1;
    }
    if start < bytes.len() {
        let ghost before = spans@;
        spans.push((start, bytes.len()));
        proof {
            assert(spans_view(spans@) =~= spans_view(before) + seq![
                (start as int, bytes@.len() as int),
            ]);
            assert forall|i: int| 0 <= i < spans@.len() implies span_in(
                bytes@,
                #[trigger] spans_view(spans@)[i],
            ) by {
                if i < before.len() {
                    assert(spans_view(spans@)[i] == spans_view(before)[i]);
                }
            }
        }
    } else {
        proof {
            assert(spans_view(spans@) + Seq::<(int, int)>::empty() =~= spans_view(spans@));
        }
    }
    spans
}

} // verus!
