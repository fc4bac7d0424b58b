use vstd::prelude::*;
use vstd::utf8::{encode_scalar, encode_utf8, encode_utf8_decode_utf8};

use crate::decode::{
    as_text, decoded, lemma_next_index_is, next_index, runs_from, style_of_descriptor, END_BYTE,
    START_BYTE,
};
use crate::{lemma_attributes_round_trip, lemma_color_round_trip, Style};

verus! {

/// A style read back from its own descriptor is the same style: what
/// `Style::decode_desc_bytes` makes of the bytes of `Style::encode_desc_bytes`
/// is that style, for every style whose attribute bits are in range.
pub proof fn lemma_descriptor_round_trip(s: Style)
    requires
        s.attributes@ < 32,
    ensures
        style_of_descriptor(s.descriptor()) == Some(s),
{
    lemma_color_round_trip(s.foreground);
    lemma_color_round_trip(s.background);
    lemma_attributes_round_trip(s.attributes);
}

/// The string that `Style::style` makes of a text whose UTF-8 bytes hold
/// neither START nor END decodes, by `Span::decode`, to exactly one span: that
/// text with that style.
pub proof fn lemma_span_round_trip(s: Style, text: Seq<char>)
    requires
        s.attributes@ < 32,
        forall|j: int|
            0 <= j < encode_utf8(text).len() ==> encode_utf8(text)[j] != START_BYTE
                && encode_utf8(text)[j] != END_BYTE,
    ensures
        decoded(encode_utf8(s.styled(text))) == Some(seq![(text, s)]),
{
    let t = encode_utf8(text);
    let d = s.descriptor();
    lemma_encode_concat(seq![crate::START] + s.descriptor_chars() + text, seq![crate::END]);
    lemma_encode_concat(seq![crate::START] + s.descriptor_chars(), text);
    lemma_encode_concat(seq![crate::START], s.descriptor_chars());
    lemma_encode_ascii(seq![crate::START]);
    lemma_encode_ascii(seq![crate::END]);
    lemma_encode_ascii(s.descriptor_chars());
    let b = encode_utf8(s.styled(text));
    assert(b =~= seq![START_BYTE] + d + t + seq![END_BYTE]);
    assert(next_index(b, START_BYTE, 0) == 0);
    assert(b.subrange(1, 4) =~= d);
    lemma_descriptor_round_trip(s);
    let e: int = 4 + t.len() as int;
    assert forall|j: int| 4 <= j < e implies b[j] != END_BYTE by {
        assert(b[j] == t[j - 4]);
    }
    lemma_next_index_is(b, END_BYTE, 4, e);
    assert(runs_from(b, e + 1) == Some(Seq::<(Seq<u8>, Style)>::empty()));
    assert(b.subrange(4, e) =~= t);
    let r = seq![(t, s)];
    assert(runs_from(b, 0) =~= Some(seq![] + r + seq![]));
    encode_utf8_decode_utf8(text);
    assert(as_text(r) =~= seq![(text, s)]);
}

/// The UTF-8 encoding of two joined character sequences is the two encodings
/// joined.
proof fn lemma_encode_concat(a: Seq<char>, b: Seq<char>)
    ensures
        encode_utf8(a + b) == encode_utf8(a) + encode_utf8(b),
    decreases a.len(),
{
    if a.len() == 0 {
        assert(a + b =~= b);
        assert(encode_utf8(a) + encode_utf8(b) =~= encode_utf8(b));
    } else {
        assert((a + b).drop_first() =~= a.drop_first() + b);
        lemma_encode_concat(a.drop_first(), b);
        assert(encode_utf8(a + b) =~= encode_utf8(a) + encode_utf8(b));
    }
}

/// Characters below 128 are encoded as one byte each, of the same value.
proof fn lemma_encode_ascii(a: Seq<char>)
    requires
        forall|j: int| 0 <= j < a.len() ==> (a[j] as u32) < 128,
    ensures
        encode_utf8(a) =~= a.map_values(|c: char| c as u32 as u8),
    decreases a.len(),
{
    if a.len() > 0 {
        let v = a[0] as u32;
        assert(v < 128 ==> (v & 0x7F) == v) by (bit_vector);
        lemma_encode_ascii(a.drop_first());
        assert(encode_scalar(v) =~= seq![v as u8]);
        assert(a.map_values(|c: char| c as u32 as u8) =~= seq![v as u8] + a.drop_first().map_values(
            |c: char| c as u32 as u8,
        ));
    }
}

} // verus!
