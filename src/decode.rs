use vstd::prelude::*;
use vstd::slice::{slice_subrange, slice_to_vec};
use vstd::string::*;
use vstd::utf8::{
    decode_utf8, encode_utf8_valid_utf8, is_char_boundary_iff_not_is_continuation_byte,
    is_char_boundary_start_end_of_seq, pop_first_scalar, valid_utf8, valid_utf8_split,
};

use crate::{attributes_of, color_of, Color, Attributes, Span, Style};

verus! {

/// The byte that opens a styled run.
pub const START_BYTE: u8 = 1;

/// The byte that closes a styled run.
pub const END_BYTE: u8 = 2;

/// The style described by the first three bytes of `d`: foreground code,
/// background code and attribute bits. None if `d` is shorter than three
/// bytes or if any of the three is out of range.
pub open spec fn style_of_descriptor(d: Seq<u8>) -> Option<Style> {
    if d.len() < 3 {
        None
    } else {
        match (color_of(d[0]), color_of(d[1]), attributes_of(d[2])) {
            (Some(f), Some(b), Some(a)) => Some(
                Style { foreground: f, background: b, attributes: a },
            ),
            _ => None,
        }
    }
}

/// The position of the first `x` in `b` at or after `i`, or `b.len()` if
/// there is none.
pub open spec fn next_index(b: Seq<u8>, x: u8, i: int) -> int
    decreases b.len() - i,
{
    if i >= b.len() {
        b.len() as int
    } else if b[i] == x {
        i
    } else {
        next_index(b, x, i + 1)
    }
}

/// The runs of `b` from position `i` on, each as its raw text and its style.
///
/// Text up to the next START is a plain run with the default style (none is
/// made of no bytes). A START must be followed by a valid three-byte
/// descriptor and, after it, an END; the bytes between are the run's text.
/// Any START without both makes the whole result None.
pub open spec fn runs_from(b: Seq<u8>, i: int) -> Option<Seq<(Seq<u8>, Style)>>
    decreases b.len() - i,
    via runs_from_decreases
{
    if i < 0 || i >= b.len() {
        Some(seq![])
    } else {
        let s = next_index(b, START_BYTE, i);
        let plain = if s > i {
            seq![(b.subrange(i, s), Style::default_spec())]
        } else {
            seq![]
        };
        if s == b.len() {
            Some(plain)
        } else if s + 4 > b.len() {
            None
        } else {
            match style_of_descriptor(b.subrange(s + 1, s + 4)) {
                None => None,
                Some(st) => {
                    let e = next_index(b, END_BYTE, s + 4);
                    if e == b.len() {
                        None
                    } else {
                        match runs_from(b, e + 1) {
                            None => None,
                            Some(rest) => Some(plain + seq![(b.subrange(s + 4, e), st)] + rest),
                        }
                    }
                }
            }
        }
    }
}

#[via_fn]
proof fn runs_from_decreases(b: Seq<u8>, i: int) {
    if 0 <= i < b.len() {
        lemma_next_index_bounds(b, START_BYTE, i);
        let s = next_index(b, START_BYTE, i);
        if 0 <= s + 4 <= b.len() {
            lemma_next_index_bounds(b, END_BYTE, s + 4);
        }
    }
}

/// The runs with their texts read as characters.
pub open spec fn as_text(r: Seq<(Seq<u8>, Style)>) -> Seq<(Seq<char>, Style)> {
    r.map_values(|x: (Seq<u8>, Style)| (decode_utf8(x.0), x.1))
}

/// The spans that the bytes `b` decode to: all its runs, in order, when every
/// styled run is well formed; None otherwise.
pub open spec fn decoded(b: Seq<u8>) -> Option<Seq<(Seq<char>, Style)>> {
    match runs_from(b, 0) {
        Some(r) => Some(as_text(r)),
        None => None,
    }
}

/// The views of a sequence of spans.
pub open spec fn spans_view(v: Seq<Span>) -> Seq<(Seq<char>, Style)> {
    v.map_values(|s: Span| s@)
}

proof fn lemma_next_index_bounds(b: Seq<u8>, x: u8, i: int)
    requires
        0 <= i <= b.len(),
    ensures
        i <= next_index(b, x, i) <= b.len(),
        next_index(b, x, i) < b.len() ==> b[next_index(b, x, i)] == x,
    decreases b.len() - i,
{
    if i < b.len() && b[i] != x {
        lemma_next_index_bounds(b, x, i + 1);
    }
}

/// `k` is the first `x` at or after `i` when none comes before it in between.
pub(crate) proof fn lemma_next_index_is(b: Seq<u8>, x: u8, i: int, k: int)
    requires
        0 <= i <= k <= b.len(),
        k < b.len() ==> b[k] == x,
        forall|j: int| i <= j < k ==> b[j] != x,
    ensures
        next_index(b, x, i) == k,
    decreases k - i,
{
    if i < k {
        lemma_next_index_is(b, x, i + 1, k);
    }
}

/// Pushing a span for a run keeps the spans and the runs in step.
proof fn lemma_push(out: Seq<Span>, span: Span, acc: Seq<(Seq<u8>, Style)>, x: (Seq<u8>, Style))
    requires
        spans_view(out) == as_text(acc),
        span@ == (decode_utf8(x.0), x.1),
    ensures
        spans_view(out.push(span)) == as_text(acc.push(x)),
{
    assert(spans_view(out.push(span)) =~= spans_view(out).push(span@));
    assert(as_text(acc.push(x)) =~= as_text(acc).push((decode_utf8(x.0), x.1)));
}

/// Within valid UTF-8 from `i` on, the bytes from `i` up to a byte below 0x80
/// (or up to the end) are valid UTF-8.
proof fn lemma_window_prefix(b: Seq<u8>, i: int, j: int)
    requires
        0 <= i <= j <= b.len(),
        valid_utf8(b.subrange(i, b.len() as int)),
        j < b.len() ==> b[j] < 0x80,
    ensures
        valid_utf8(b.subrange(i, j)),
{
    let x = b.subrange(i, b.len() as int);
    let k = j - i;
    if k < x.len() {
        assert(x[k] == b[j]);
        is_char_boundary_iff_not_is_continuation_byte(x, k);
    } else {
        is_char_boundary_start_end_of_seq(x);
    }
    valid_utf8_split(x, k);
    assert(x.subrange(0, k) =~= b.subrange(i, j));
}

/// Within valid UTF-8 from `i` on, the bytes after a byte below 0x80 are
/// valid UTF-8.
proof fn lemma_window_suffix(b: Seq<u8>, i: int, j: int)
    requires
        0 <= i <= j < b.len(),
        valid_utf8(b.subrange(i, b.len() as int)),
        b[j] < 0x80,
    ensures
        valid_utf8(b.subrange(j + 1, b.len() as int)),
{
    let x = b.subrange(i, b.len() as int);
    let k = j - i;
    assert(x[k] == b[j]);
    is_char_boundary_iff_not_is_continuation_byte(x, k);
    valid_utf8_split(x, k);
    let y = x.subrange(k, x.len() as int);
    assert(valid_utf8(pop_first_scalar(y)));
    assert(pop_first_scalar(y) =~= b.subrange(j + 1, b.len() as int));
}

/// Relies on `memchr::memchr`: the position of the first occurrence of
/// `needle` in `haystack`, or none if it does not occur.
#[verifier::external_body]
fn find_byte(needle: u8, haystack: &[u8]) -> (r: Option<usize>)
    ensures
        match r {
            Some(k) => k < haystack@.len() && haystack@[k as int] == needle && forall|j: int|
                0 <= j < k ==> haystack@[j] != needle,
            None => forall|j: int| 0 <= j < haystack@.len() ==> haystack@[j] != needle,
        },
{
    memchr::memchr(needle, haystack)
}

/// Relies on `String::from_utf8`: it succeeds exactly on valid UTF-8, and the
/// string then holds the characters that the bytes encode.
#[verifier::external_body]
fn string_from_utf8(v: Vec<u8>) -> (r: Option<String>)
    ensures
        r is Some <==> valid_utf8(v@),
        r matches Some(s) ==> s@ == decode_utf8(v@),
{
    String::from_utf8(v).ok()
}

/// The first position of `x` in `b` at or after `i`, or `b.len()`.
fn next_position(b: &[u8], x: u8, i: usize) -> (r: usize)
    requires
        i <= b@.len(),
    ensures
        r == next_index(b@, x, i as int),
{
    let rest = slice_subrange(b, i, b.len());
    match find_byte(x, rest) {
        Some(k) => {
            proof {
                assert forall|j: int| i <= j < i + k implies b@[j] != x by {
                    assert(rest@[j - i] == b@[j]);
                }
                lemma_next_index_is(b@, x, i as int, i + k);
            }
            i + k
        },
        None => {
            proof {
                assert forall|j: int| i <= j < b@.len() implies b@[j] != x by {
                    assert(rest@[j - i] == b@[j]);
                }
                lemma_next_index_is(b@, x, i as int, b@.len() as int);
            }
            b.len()
        },
    }
}

/// The text of `b[from..to]`, if those bytes are valid UTF-8.
fn text_at(b: &[u8], from: usize, to: usize) -> (r: Option<String>)
    requires
        from <= to <= b@.len(),
    ensures
        r is Some <==> valid_utf8(b@.subrange(from as int, to as int)),
        r matches Some(s) ==> s@ == decode_utf8(b@.subrange(from as int, to as int)),
{
    string_from_utf8(slice_to_vec(slice_subrange(b, from, to)))
}

impl Span {
    /// Decodes `input` into its spans.
    ///
    /// Plain text between styled runs becomes a span with the default style.
    /// Decoding is all or nothing: a malformed styled run anywhere gives
    /// None.
    pub fn decode(input: &str) -> (r: Option<Vec<Span>>)
        ensures
            r is Some <==> decoded(input.spec_bytes()) is Some,
            r matches Some(v) ==> decoded(input.spec_bytes()) == Some(spans_view(v@)),
    {
        Self::decode_capacity(input, 3)
    }

    /// Decodes `input` into its spans, as `decode` does, with room for
    /// `capacity` spans reserved up front. The capacity changes only how
    /// often the result is reallocated, never the result.
    pub fn decode_capacity(input: &str, capacity: usize) -> (r: Option<Vec<Span>>)
        ensures
            r is Some <==> decoded(input.spec_bytes()) is Some,
            r matches Some(v) ==> decoded(input.spec_bytes()) == Some(spans_view(v@)),
    {
        let bytes = input.as_bytes();
        let ghost b = bytes@;
        let len = bytes.len();
        let mut out: Vec<Span> = Vec::with_capacity(capacity);
        let ghost mut acc: Seq<(Seq<u8>, Style)> = seq![];
        let mut i: usize = 0;
        proof {
            assert(runs_from(b, 0) matches Some(r) ==> acc + r =~= r);
            encode_utf8_valid_utf8(input@);
            assert(b.subrange(0, b.len() as int) =~= b);
        }
        while i < len
            invariant
                b == bytes@,
                b == input.spec_bytes(),
                len == b.len(),
                i <= len,
                runs_from(b, 0) == match runs_from(b, i as int) {
                    Some(r) => Some(acc + r),
                    None => None,
                },
                valid_utf8(b.subrange(i as int, len as int)),
                spans_view(out@) == as_text(acc),
            decreases len - i,
        {
            let ghost i0 = i as int;
            let ghost acc0 = acc;
            let s = next_position(bytes, START_BYTE, i);
            proof {
                lemma_next_index_bounds(b, START_BYTE, i0);
            }
            let ghost plain: Seq<(Seq<u8>, Style)> = if s > i {
                seq![(b.subrange(i0, s as int), Style::default_spec())]
            } else {
                seq![]
            };
            if s > i {
                proof {
                    lemma_window_prefix(b, i0, s as int);
                }
                // Cut next to ASCII bytes, the text of a `str` is valid UTF-8,
                // so the conversion below always succeeds.
                match text_at(bytes, i, s) {
                    Some(text) => {
                        let span = Span { text, style: Style::default() };
                        proof {
                            lemma_push(out@, span, acc, plain[0]);
                            acc = acc.push(plain[0]);
                        }
                        out.push(span);
                    },
                    None => {
                        return None;
                    },
                }
            }
            proof {
                assert(acc =~= acc0 + plain);
            }
            if s == len {
                return Some(out);
            }
            if len - s < 4 {
                return None;
            }
            let style = match Style::decode_desc_bytes(slice_subrange(bytes, s + 1, s + 4)) {
                Some(st) => st,
                None => {
                    return None;
                },
            };
            let text_start = s + 4;
            proof {
                lemma_window_suffix(b, i0, s + 3);
            }
            let e = next_position(bytes, END_BYTE, text_start);
            proof {
                lemma_next_index_bounds(b, END_BYTE, text_start as int);
            }
            if e == len {
                return None;
            }
            let ghost run: (Seq<u8>, Style) = (b.subrange(text_start as int, e as int), style);
            proof {
                lemma_window_prefix(b, text_start as int, e as int);
                lemma_window_suffix(b, text_start as int, e as int);
            }
            match text_at(bytes, text_start, e) {
                Some(text) => {
                    let span = Span { text, style };
                    proof {
                        lemma_push(out@, span, acc, run);
                        acc = acc.push(run);
                    }
                    out.push(span);
                },
                None => {
                    return None;
                },
            }
            proof {
                if let Some(rest) = runs_from(b, e + 1) {
                    assert(acc0 + (plain + seq![run] + rest) =~= acc + rest);
                }
            }
            i = e + 1;
        }
        proof {
            assert(acc + seq![] =~= acc);
        }
        Some(out)
    }
}

impl Style {
    /// Reads a style from the first three bytes of `bytes`: foreground code,
    /// background code and attribute bits. None if there are fewer than three
    /// bytes or any of them is out of range.
    pub fn decode_desc_bytes(bytes: &[u8]) -> (r: Option<Style>)
        ensures
            r == style_of_descriptor(bytes@),
    {
        if bytes.len() < 3 {
            return None;
        }
        let foreground = Color::parse(bytes[0]);
        let background = Color::parse(bytes[1]);
        let attributes = Attributes::parse(bytes[2]);
        match (foreground, background, attributes) {
            (Some(foreground), Some(background), Some(attributes)) => Some(
                Style { foreground, background, attributes },
            ),
            _ => None,
        }
    }

    /// Reads a style from the bytes of `s`, as `decode_desc_bytes` does.
    pub fn decode_desc(s: &str) -> (r: Option<Style>)
        ensures
            r == style_of_descriptor(s.spec_bytes()),
    {
        Self::decode_desc_bytes(s.as_bytes())
    }
}

} // verus!
