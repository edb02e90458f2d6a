//! The order of UTF-8 encodings: comparing two encoded texts byte by byte
//! gives the order of the texts by code point.

use crate::text::text_le;
use vstd::prelude::*;
use vstd::utf8::{
    encode_scalar, encode_utf8, has_width_1_encoding, has_width_2_encoding, has_width_3_encoding,
    has_width_4_encoding, is_scalar, last_continuation_byte, leading_byte_width_1,
    leading_byte_width_2, leading_byte_width_3, leading_byte_width_4,
    second_last_continuation_byte, third_last_continuation_byte,
};

verus! {

/// Lexicographic order of byte strings: `a` comes no later than `b`.
pub open spec fn bytes_le(a: Seq<u8>, b: Seq<u8>) -> bool
    decreases a.len(),
{
    if a.len() == 0 {
        true
    } else if b.len() == 0 {
        false
    } else if a.first() != b.first() {
        a.first() < b.first()
    } else {
        bytes_le(a.drop_first(), b.drop_first())
    }
}

/// The leading byte of an encoding tells its width, and wider encodings
/// have greater leading bytes.
proof fn lemma_leading_bytes(c: u32)
    by (bit_vector)
    ensures
        has_width_1_encoding(c) ==> leading_byte_width_1(c) <= 0x7F,
        has_width_2_encoding(c) ==> 0xC0 <= leading_byte_width_2(c) <= 0xDF,
        has_width_3_encoding(c) ==> 0xE0 <= leading_byte_width_3(c) <= 0xEF,
        has_width_4_encoding(c) ==> 0xF0 <= leading_byte_width_4(c) <= 0xF7,
{
}

/// Of two scalars with one-byte encodings, the smaller has the smaller
/// byte.
proof fn lemma_width_1(c: u32, d: u32)
    by (bit_vector)
    requires
        has_width_1_encoding(c),
        has_width_1_encoding(d),
        c < d,
    ensures
        leading_byte_width_1(c) < leading_byte_width_1(d),
{
}

/// Of two scalars with two-byte encodings, the smaller has the smaller
/// byte where the encodings first differ.
proof fn lemma_width_2(c: u32, d: u32)
    by (bit_vector)
    requires
        has_width_2_encoding(c),
        has_width_2_encoding(d),
        c < d,
    ensures
        leading_byte_width_2(c) < leading_byte_width_2(d) || (leading_byte_width_2(c)
            == leading_byte_width_2(d) && last_continuation_byte(c) < last_continuation_byte(d)),
{
}

/// Of two scalars with three-byte encodings, the smaller has the smaller
/// byte where the encodings first differ.
proof fn lemma_width_3(c: u32, d: u32)
    by (bit_vector)
    requires
        has_width_3_encoding(c),
        has_width_3_encoding(d),
        c < d,
    ensures
        leading_byte_width_3(c) < leading_byte_width_3(d) || (leading_byte_width_3(c)
            == leading_byte_width_3(d) && (second_last_continuation_byte(c)
            < second_last_continuation_byte(d) || (second_last_continuation_byte(c)
            == second_last_continuation_byte(d) && last_continuation_byte(c)
            < last_continuation_byte(d)))),
{
}

/// Of two scalars with four-byte encodings, the smaller has the smaller
/// byte where the encodings first differ.
proof fn lemma_width_4(c: u32, d: u32)
    by (bit_vector)
    requires
        has_width_4_encoding(c),
        has_width_4_encoding(d),
        c < d,
    ensures
        leading_byte_width_4(c) < leading_byte_width_4(d) || (leading_byte_width_4(c)
            == leading_byte_width_4(d) && (third_last_continuation_byte(c)
            < third_last_continuation_byte(d) || (third_last_continuation_byte(c)
            == third_last_continuation_byte(d) && (second_last_continuation_byte(c)
            < second_last_continuation_byte(d) || (second_last_continuation_byte(c)
            == second_last_continuation_byte(d) && last_continuation_byte(c)
            < last_continuation_byte(d)))))),
{
}

/// Two byte strings that agree before a place where the first has the
/// smaller byte are in strict order.
proof fn lemma_first_difference(u: Seq<u8>, v: Seq<u8>, k: int)
    requires
        0 <= k < u.len(),
        k < v.len(),
        forall|i: int| 0 <= i < k ==> u[i] == v[i],
        u[k] < v[k],
    ensures
        bytes_le(u, v),
        !bytes_le(v, u),
    decreases k,
{
    if k > 0 {
        assert(u[0] == v[0]);
        let u1 = u.drop_first();
        let v1 = v.drop_first();
        assert forall|i: int| 0 <= i < k - 1 implies u1[i] == v1[i] by {
            assert(u1[i] == u[i + 1] && v1[i] == v[i + 1]);
        }
        lemma_first_difference(u1, v1, k - 1);
    }
}

/// The encoding of the smaller of two scalars, whatever follows it, comes
/// strictly before the encoding of the greater, whatever follows that.
proof fn lemma_scalar_order(c: u32, d: u32, x: Seq<u8>, y: Seq<u8>)
    requires
        is_scalar(c),
        is_scalar(d),
        c < d,
    ensures
        bytes_le(encode_scalar(c) + x, encode_scalar(d) + y),
        !bytes_le(encode_scalar(d) + y, encode_scalar(c) + x),
{
    let ec = encode_scalar(c);
    let ed = encode_scalar(d);
    let u = ec + x;
    let v = ed + y;
    lemma_leading_bytes(c);
    lemma_leading_bytes(d);
    assert(u[0] == ec[0] && v[0] == ed[0]);
    if has_width_1_encoding(d) {
        lemma_width_1(c, d);
        lemma_first_difference(u, v, 0);
    } else if has_width_2_encoding(d) {
        if has_width_2_encoding(c) {
            lemma_width_2(c, d);
            assert(u[1] == ec[1] && v[1] == ed[1]);
            if ec[0] < ed[0] {
                lemma_first_difference(u, v, 0);
            } else {
                lemma_first_difference(u, v, 1);
            }
        } else {
            lemma_first_difference(u, v, 0);
        }
    } else if has_width_3_encoding(d) {
        if has_width_3_encoding(c) {
            lemma_width_3(c, d);
            assert(u[1] == ec[1] && v[1] == ed[1]);
            assert(u[2] == ec[2] && v[2] == ed[2]);
            if ec[0] < ed[0] {
                lemma_first_difference(u, v, 0);
            } else if ec[1] < ed[1] {
                lemma_first_difference(u, v, 1);
            } else {
                lemma_first_difference(u, v, 2);
            }
        } else {
            lemma_first_difference(u, v, 0);
        }
    } else {
        if has_width_4_encoding(c) {
            lemma_width_4(c, d);
            assert(u[1] == ec[1] && v[1] == ed[1]);
            assert(u[2] == ec[2] && v[2] == ed[2]);
            assert(u[3] == ec[3] && v[3] == ed[3]);
            if ec[0] < ed[0] {
                lemma_first_difference(u, v, 0);
            } else if ec[1] < ed[1] {
                lemma_first_difference(u, v, 1);
            } else if ec[2] < ed[2] {
                lemma_first_difference(u, v, 2);
            } else {
                lemma_first_difference(u, v, 3);
            }
        } else {
            lemma_first_difference(u, v, 0);
        }
    }
}

/// A common beginning does not change the order of two byte strings.
proof fn lemma_common_prefix(p: Seq<u8>, x: Seq<u8>, y: Seq<u8>)
    ensures
        bytes_le(p + x, p + y) == bytes_le(x, y),
    decreases p.len(),
{
    if p.len() == 0 {
        assert(p + x =~= x);
        assert(p + y =~= y);
    } else {
        assert((p + x).first() == (p + y).first());
        assert((p + x).drop_first() =~= p.drop_first() + x);
        assert((p + y).drop_first() =~= p.drop_first() + y);
        lemma_common_prefix(p.drop_first(), x, y);
    }
}

/// Comparing the UTF-8 encodings of two texts byte by byte gives the order
/// of the texts by code point.
pub proof fn lemma_encoding_keeps_order(a: Seq<char>, b: Seq<char>)
    ensures
        bytes_le(encode_utf8(a), encode_utf8(b)) == text_le(a, b),
    decreases a.len(),
{
    if a.len() == 0 {
    } else if b.len() == 0 {
        assert(encode_scalar(a[0] as u32).len() > 0);
        assert(encode_utf8(a).len() > 0);
    } else {
        let c = a[0] as u32;
        let d = b[0] as u32;
        let x = encode_utf8(a.drop_first());
        let y = encode_utf8(b.drop_first());
        assert(is_scalar(c) && is_scalar(d)) by {
            vstd::utf8::char_is_scalar(a[0]);
            vstd::utf8::char_is_scalar(b[0]);
        }
        if a[0] == b[0] {
            lemma_common_prefix(encode_scalar(c), x, y);
            lemma_encoding_keeps_order(a.drop_first(), b.drop_first());
        } else {
            assert(c != d) by {
                vstd::utf8::char_u32_cast(a[0], c);
                vstd::utf8::char_u32_cast(b[0], d);
            }
            if c < d {
                lemma_scalar_order(c, d, x, y);
            } else {
                lemma_scalar_order(d, c, y, x);
            }
        }
    }
}

} // verus!
