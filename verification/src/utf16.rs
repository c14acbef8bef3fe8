//! UTF-16 encoding and decoding of text, as the wire format stores strings.
//!
//! A string field's payload is a sequence of 16-bit code units. Characters
//! below `0x10000` are one unit; the rest are a surrogate pair.

use vstd::bytes::{spec_u16_from_le_bytes, spec_u16_to_le_bytes};
use vstd::prelude::*;
use vstd::string::StrSliceExecFns;
use vstd::utf8::{char_is_scalar, char_u32_cast, decode_utf8, encode_scalar, encode_utf8, is_scalar,
    valid_utf8};

verus! {

/// The UTF-16 code units of one character.
pub open spec fn utf16_encode_char(c: char) -> Seq<u16> {
    let v = c as u32;
    if v < 0x10000 {
        seq![v as u16]
    } else {
        seq![
            (0xD800 + (v - 0x10000) / 0x400) as u16,
            (0xDC00 + (v - 0x10000) % 0x400) as u16,
        ]
    }
}

/// The UTF-16 code units of a character sequence.
pub open spec fn utf16_encode(s: Seq<char>) -> Seq<u16>
    decreases s.len(),
{
    if s.len() == 0 {
        Seq::empty()
    } else {
        utf16_encode_char(s[0]) + utf16_encode(s.drop_first())
    }
}

pub open spec fn is_high_surrogate(u: u16) -> bool {
    0xD800 <= u < 0xDC00
}

pub open spec fn is_low_surrogate(u: u16) -> bool {
    0xDC00 <= u < 0xE000
}

/// The scalar value of a surrogate pair.
pub open spec fn combine_surrogates(hi: u16, lo: u16) -> u32
    recommends
        is_high_surrogate(hi),
        is_low_surrogate(lo),
{
    (0x10000 + (hi - 0xD800) * 0x400 + (lo - 0xDC00)) as u32
}

/// The characters of a UTF-16 code-unit sequence, or `None` when a surrogate
/// is unpaired.
pub open spec fn utf16_decode(units: Seq<u16>) -> Option<Seq<char>>
    decreases units.len(),
{
    if units.len() == 0 {
        Some(Seq::empty())
    } else if !is_high_surrogate(units[0]) && !is_low_surrogate(units[0]) {
        match utf16_decode(units.drop_first()) {
            Some(rest) => Some(seq![(units[0] as u32) as char] + rest),
            None => None,
        }
    } else if is_high_surrogate(units[0]) && units.len() >= 2 && is_low_surrogate(units[1]) {
        match utf16_decode(units.skip(2)) {
            Some(rest) => Some(seq![combine_surrogates(units[0], units[1]) as char] + rest),
            None => None,
        }
    } else {
        None
    }
}

/// The little-endian bytes of a code-unit sequence.
pub open spec fn utf16_le_bytes(units: Seq<u16>) -> Seq<u8>
    decreases units.len(),
{
    if units.len() == 0 {
        Seq::empty()
    } else {
        spec_u16_to_le_bytes(units[0]) + utf16_le_bytes(units.drop_first())
    }
}

pub proof fn lemma_utf16_le_bytes_len(units: Seq<u16>)
    ensures
        utf16_le_bytes(units).len() == 2 * units.len(),
    decreases units.len(),
{
    vstd::bytes::lemma_auto_spec_u16_to_from_le_bytes();
    if units.len() > 0 {
        lemma_utf16_le_bytes_len(units.drop_first());
    }
}

/// Each code unit sits at its own two-byte slot of the flattened bytes.
pub proof fn lemma_utf16_le_bytes_index(units: Seq<u16>, i: int)
    requires
        0 <= i < units.len(),
    ensures
        utf16_le_bytes(units).subrange(2 * i, 2 * i + 2) == spec_u16_to_le_bytes(units[i]),
    decreases i,
{
    vstd::bytes::lemma_auto_spec_u16_to_from_le_bytes();
    lemma_utf16_le_bytes_len(units);
    lemma_utf16_le_bytes_len(units.drop_first());
    if i == 0 {
        assert(utf16_le_bytes(units).subrange(0, 2) =~= spec_u16_to_le_bytes(units[0]));
    } else {
        lemma_utf16_le_bytes_index(units.drop_first(), i - 1);
        assert(utf16_le_bytes(units).subrange(2 * i, 2 * i + 2) =~= utf16_le_bytes(
            units.drop_first(),
        ).subrange(2 * (i - 1), 2 * (i - 1) + 2));
    }
}

/// A character sequence encodes to at least one and at most two code units
/// per character.
pub proof fn lemma_utf16_encode_len(s: Seq<char>)
    ensures
        s.len() <= utf16_encode(s).len() <= 2 * s.len(),
    decreases s.len(),
{
    if s.len() > 0 {
        lemma_utf16_encode_len(s.drop_first());
    }
}

/// Flattening a sequence extended by one unit appends that unit's two bytes.
pub proof fn lemma_utf16_le_bytes_push(s: Seq<u16>, x: u16)
    ensures
        utf16_le_bytes(s.push(x)) == utf16_le_bytes(s) + spec_u16_to_le_bytes(x),
    decreases s.len(),
{
    if s.len() == 0 {
        assert(s.push(x).len() == 1 && s.push(x)[0] == x);
        assert(s.push(x).drop_first() =~= Seq::<u16>::empty());
        assert(utf16_le_bytes(s.push(x).drop_first()) == Seq::<u8>::empty());
        assert(utf16_le_bytes(s.push(x)) =~= utf16_le_bytes(s) + spec_u16_to_le_bytes(x));
    } else {
        lemma_utf16_le_bytes_push(s.drop_first(), x);
        assert(s.push(x)[0] == s[0]);
        assert(s.push(x).drop_first() =~= s.drop_first().push(x));
        assert(utf16_le_bytes(s.push(x)) =~= utf16_le_bytes(s) + spec_u16_to_le_bytes(x));
    }
}

/// Reading two-byte slots back from a buffer that holds the flattened bytes
/// of `units` at position `p` recovers `units`.
pub proof fn lemma_units_from_bytes(data: Seq<u8>, p: int, units: Seq<u16>)
    requires
        0 <= p,
        p + 2 * units.len() <= data.len(),
        data.subrange(p, p + 2 * units.len()) == utf16_le_bytes(units),
    ensures
        Seq::new(
            units.len(),
            |i: int| spec_u16_from_le_bytes(data.subrange(p + 2 * i, p + 2 * i + 2)),
        ) =~= units,
{
    lemma_utf16_le_bytes_len(units);
    assert forall|i: int| 0 <= i < units.len() implies spec_u16_from_le_bytes(
        data.subrange(p + 2 * i, p + 2 * i + 2),
    ) == units[i] by {
        lemma_utf16_le_bytes_index(units, i);
        assert(data.subrange(p + 2 * i, p + 2 * i + 2) =~= data.subrange(
            p,
            p + 2 * units.len(),
        ).subrange(2 * i, 2 * i + 2));
        vstd::bytes::lemma_auto_spec_u16_to_from_le_bytes();
    }
}

/// Flattening the code units parsed from two-byte slots of a buffer gives
/// back exactly those bytes.
pub proof fn lemma_bytes_from_units(data: Seq<u8>, p: int, n: int)
    requires
        0 <= p,
        0 <= n,
        p + 2 * n <= data.len(),
    ensures
        utf16_le_bytes(
            Seq::new(
                n as nat,
                |i: int| spec_u16_from_le_bytes(data.subrange(p + 2 * i, p + 2 * i + 2)),
            ),
        ) =~= data.subrange(p, p + 2 * n),
{
    let units = Seq::new(
        n as nat,
        |i: int| spec_u16_from_le_bytes(data.subrange(p + 2 * i, p + 2 * i + 2)),
    );
    lemma_utf16_le_bytes_len(units);
    vstd::bytes::lemma_auto_spec_u16_to_from_le_bytes();
    assert forall|j: int| 0 <= j < 2 * n implies utf16_le_bytes(units)[j] == data[p + j] by {
        let i = j / 2;
        assert(j == 2 * i || j == 2 * i + 1);
        lemma_utf16_le_bytes_index(units, i);
        let pair = data.subrange(p + 2 * i, p + 2 * i + 2);
        assert(pair.len() == 2);
        assert(spec_u16_to_le_bytes(units[i]) == pair);
        assert(utf16_le_bytes(units).subrange(2 * i, 2 * i + 2)[j - 2 * i] == utf16_le_bytes(
            units,
        )[j]);
        assert(pair[j - 2 * i] == data[p + j]);
    }
}

/// Encoding a sequence extended by one character appends that character's units.
pub proof fn lemma_utf16_encode_push(s: Seq<char>, c: char)
    ensures
        utf16_encode(s.push(c)) == utf16_encode(s) + utf16_encode_char(c),
    decreases s.len(),
{
    if s.len() == 0 {
        assert(s.push(c).len() == 1 && s.push(c)[0] == c);
        assert(s.push(c).drop_first() =~= Seq::<char>::empty());
        assert(utf16_encode(s.push(c).drop_first()) == Seq::<u16>::empty());
        assert(utf16_encode(s.push(c)) =~= utf16_encode(s) + utf16_encode_char(c));
    } else {
        lemma_utf16_encode_push(s.drop_first(), c);
        assert(s.push(c)[0] == s[0]);
        assert(s.push(c).drop_first() =~= s.drop_first().push(c));
        assert(utf16_encode(s.push(c)) =~= utf16_encode(s) + utf16_encode_char(c));
    }
}

/// Encoding and then decoding UTF-16 returns the original characters.
pub proof fn lemma_utf16_encode_decode(s: Seq<char>)
    ensures
        utf16_decode(utf16_encode(s)) == Some(s),
    decreases s.len(),
{
    if s.len() == 0 {
    } else {
        let c = s[0];
        let v = c as u32;
        char_is_scalar(c);
        let units = utf16_encode(s);
        let rest_units = utf16_encode(s.drop_first());
        lemma_utf16_encode_decode(s.drop_first());
        if v < 0x10000 {
            let u = (v as u16);
            assert(u == v);
            assert(units =~= seq![u] + rest_units);
            assert(units.drop_first() =~= rest_units);
            assert(!is_high_surrogate(u) && !is_low_surrogate(u));
            char_u32_cast(c, u as u32);
            assert(utf16_decode(units) == Some(seq![(u as u32) as char] + s.drop_first()));
            assert(seq![(u as u32) as char] + s.drop_first() =~= s);
        } else {
            let w = v - 0x10000;
            assert(0 <= w < 0x100000);
            let hi = (0xD800 + w / 0x400) as u16;
            let lo = (0xDC00 + w % 0x400) as u16;
            assert(0 <= w / 0x400 < 0x400 && 0 <= w % 0x400 < 0x400) by (nonlinear_arith)
                requires 0 <= w < 0x100000;
            assert(hi == 0xD800 + w / 0x400 && lo == 0xDC00 + w % 0x400);
            assert(is_high_surrogate(hi) && is_low_surrogate(lo));
            assert(units =~= seq![hi, lo] + rest_units);
            assert(units.skip(2) =~= rest_units);
            assert((hi - 0xD800) * 0x400 + (lo - 0xDC00) == w) by (nonlinear_arith)
                requires
                    hi == 0xD800 + w / 0x400,
                    lo == 0xDC00 + w % 0x400,
                    0 <= w;
            assert(combine_surrogates(hi, lo) == v);
            char_u32_cast(c, combine_surrogates(hi, lo));
            assert(utf16_decode(units) == Some(seq![combine_surrogates(hi, lo) as char] + s.drop_first()));
            assert(seq![combine_surrogates(hi, lo) as char] + s.drop_first() =~= s);
        }
    }
}

/// Decoding and then re-encoding UTF-16 returns the original code units:
/// a successful decode is lossless.
pub proof fn lemma_utf16_decode_encode(units: Seq<u16>)
    requires
        utf16_decode(units) is Some,
    ensures
        utf16_encode(utf16_decode(units).unwrap()) == units,
    decreases units.len(),
{
    if units.len() == 0 {
        assert(utf16_encode(Seq::<char>::empty()) =~= units);
    } else {
        let u = units[0];
        if !is_high_surrogate(u) && !is_low_surrogate(u) {
            let rest = utf16_decode(units.drop_first()).unwrap();
            lemma_utf16_decode_encode(units.drop_first());
            let c = (u as u32) as char;
            assert(c as u32 == u as u32);
            let s = seq![c] + rest;
            assert(s[0] == c && s.drop_first() =~= rest);
            assert(utf16_encode_char(c) =~= seq![u]);
            assert(utf16_encode(s) =~= units);
        } else {
            let lo = units[1];
            let rest = utf16_decode(units.skip(2)).unwrap();
            lemma_utf16_decode_encode(units.skip(2));
            let v = combine_surrogates(u, lo);
            assert(0x10000 <= v <= 0x10FFFF) by (nonlinear_arith)
                requires
                    v == 0x10000 + (u - 0xD800) * 0x400 + (lo - 0xDC00),
                    0xD800 <= u < 0xDC00,
                    0xDC00 <= lo < 0xE000;
            let c = v as char;
            assert(c as u32 == v);
            let s = seq![c] + rest;
            assert(s[0] == c && s.drop_first() =~= rest);
            let w = v - 0x10000;
            assert(w == (u - 0xD800) * 0x400 + (lo - 0xDC00));
            assert(w / 0x400 == u - 0xD800 && w % 0x400 == lo - 0xDC00) by (nonlinear_arith)
                requires
                    w == (u - 0xD800) * 0x400 + (lo - 0xDC00),
                    0xD800 <= u < 0xDC00,
                    0xDC00 <= lo < 0xE000;
            assert(utf16_encode_char(c) =~= seq![u, lo]);
            assert(utf16_encode(s) =~= utf16_encode_char(c) + utf16_encode(rest));
            assert(utf16_encode(s) =~= units);
        }
    }
}

/// The UTF-16 code units of a string, in order.
pub fn encode_utf16_units(text: &str) -> (units: Vec<u16>)
    ensures
        units@ == utf16_encode(text@),
{
    let n = text.unicode_len();
    let mut units: Vec<u16> = Vec::new();
    let mut i: usize = 0;
    proof {
        assert(text@.take(0) =~= Seq::<char>::empty());
    }
    while i < n
        invariant
            i <= n,
            n == text@.len(),
            units@ == utf16_encode(text@.take(i as int)),
        decreases n - i,
    {
        let c = text.get_char(i);
        let v = c as u32;
        proof {
            char_is_scalar(c);
        }
        if v < 0x10000 {
            units.push(v as u16);
        } else {
            assert(v <= 0x10FFFF);
            let w = v - 0x10000;
            assert(w >> 10 == w / 0x400 && (w & 0x3FF) == w % 0x400 && w >> 10 < 0x400 && (w
                & 0x3FF) < 0x400) by (bit_vector)
                requires w < 0x100000;
            let hi = 0xD800 + (w >> 10);
            let lo = 0xDC00 + (w & 0x3FF);
            units.push(hi as u16);
            units.push(lo as u16);
        }
        proof {
            lemma_utf16_encode_push(text@.take(i as int), c);
            assert(text@.take(i + 1) =~= text@.take(i as int).push(c));
            assert(units@ =~= utf16_encode(text@.take(i + 1)));
        }
        i += 1;
    }
    proof {
        assert(text@.take(n as int) =~= text@);
    }
    units
}

/// Appends the UTF-8 encoding of one Unicode scalar.
fn push_utf8_scalar(bytes: &mut Vec<u8>, v: u32)
    requires
        is_scalar(v),
    ensures
        final(bytes)@ == old(bytes)@ + encode_scalar(v),
{
    if v <= 0x7F {
        bytes.push((v & 0x7F) as u8);
        assert(bytes@ =~= old(bytes)@ + encode_scalar(v));
    } else if v <= 0x7FF {
        bytes.push(0xC0 | ((v >> 6) & 0x1F) as u8);
        bytes.push(0x80 | (v & 0x3F) as u8);
        assert(bytes@ =~= old(bytes)@ + encode_scalar(v));
    } else if v <= 0xFFFF {
        bytes.push(0xE0 | ((v >> 12) & 0x0F) as u8);
        bytes.push(0x80 | ((v >> 6) & 0x3F) as u8);
        bytes.push(0x80 | (v & 0x3F) as u8);
        assert(bytes@ =~= old(bytes)@ + encode_scalar(v));
    } else {
        bytes.push(0xF0 | ((v >> 18) & 0x7) as u8);
        bytes.push(0x80 | ((v >> 12) & 0x3F) as u8);
        bytes.push(0x80 | ((v >> 6) & 0x3F) as u8);
        bytes.push(0x80 | (v & 0x3F) as u8);
        assert(bytes@ =~= old(bytes)@ + encode_scalar(v));
    }
}

/// Appending one character's scalar to a UTF-8 encoding encodes the extended
/// character sequence.
pub(crate) proof fn lemma_encode_utf8_push(s: Seq<char>, c: char)
    ensures
        encode_utf8(s.push(c)) == encode_utf8(s) + encode_scalar(c as u32),
    decreases s.len(),
{
    if s.len() == 0 {
        assert(s.push(c).len() == 1 && s.push(c)[0] == c);
        assert(s.push(c).drop_first() =~= Seq::<char>::empty());
        assert(encode_utf8(s.push(c).drop_first()) == Seq::<u8>::empty());
        assert(encode_utf8(s.push(c)) =~= encode_utf8(s) + encode_scalar(c as u32));
    } else {
        lemma_encode_utf8_push(s.drop_first(), c);
        assert(s.push(c)[0] == s[0]);
        assert(s.push(c).drop_first() =~= s.drop_first().push(c));
        assert(encode_utf8(s.push(c)) =~= encode_utf8(s) + encode_scalar(c as u32));
    }
}

/// Relies on `String::from_utf8`: it returns `Ok` exactly on valid UTF-8
/// input, and the returned string holds that input's decoded characters.
#[verifier::external_body]
pub(crate) fn string_from_utf8(bytes: Vec<u8>) -> (r: Option<String>)
    ensures
        r is Some <==> valid_utf8(bytes@),
        (r matches Some(s) ==> s@ == decode_utf8(bytes@)),
{
    String::from_utf8(bytes).ok()
}

/// The string whose characters the UTF-16 code units encode, or `None` when
/// a surrogate is unpaired.
pub fn decode_utf16_units(units: &Vec<u16>) -> (r: Option<String>)
    ensures
        match r {
            Some(s) => utf16_decode(units@) == Some(s@),
            None => utf16_decode(units@) is None,
        },
{
    let n = units.len();
    let mut bytes: Vec<u8> = Vec::new();
    let ghost mut chars: Seq<char> = Seq::empty();
    let mut i: usize = 0;
    proof {
        assert(units@.skip(0) =~= units@);
        match utf16_decode(units@) {
            Some(rest) => {
                assert(Seq::<char>::empty() + rest =~= rest);
            },
            None => {},
        }
    }
    while i < n
        invariant
            i <= n,
            n == units@.len(),
            bytes@ == encode_utf8(chars),
            match utf16_decode(units@.skip(i as int)) {
                Some(rest) => utf16_decode(units@) == Some(chars + rest),
                None => utf16_decode(units@) is None,
            },
        decreases n - i,
    {
        let ghost pending = units@.skip(i as int);
        let u = units[i];
        assert(pending[0] == u);
        if u < 0xD800 || u >= 0xE000 {
            let v = u as u32;
            assert(is_scalar(v));
            push_utf8_scalar(&mut bytes, v);
            proof {
                let c = (v) as char;
                lemma_encode_utf8_push(chars, c);
                assert(chars.push(c) =~= chars + seq![c]);
                let prev = chars;
                chars = chars + seq![c];
                assert(pending.drop_first() =~= units@.skip(i + 1));
                match utf16_decode(units@.skip(i + 1)) {
                    Some(rest) => {
                        assert(utf16_decode(pending) == Some(seq![c] + rest));
                        assert(prev + (seq![c] + rest) =~= chars + rest);
                    },
                    None => {},
                }
            }
            i += 1;
        } else if u < 0xDC00 {
            if i + 1 >= n {
                assert(pending.len() == 1);
                assert(utf16_decode(pending) is None);
                return None;
            }
            let u2 = units[i + 1];
            assert(pending[1] == u2);
            if !(0xDC00 <= u2 && u2 < 0xE000) {
                assert(utf16_decode(pending) is None);
                return None;
            }
            let x = (u as u32) - 0xD800;
            assert(x << 10 == x * 0x400 && x << 10 < 0x100000) by (bit_vector)
                requires x < 0x400;
            let v = 0x10000 + (x << 10) + ((u2 as u32) - 0xDC00);
            assert(v == combine_surrogates(u, u2));
            assert(0x10000 <= v <= 0x10FFFF);
            assert(is_scalar(v));
            push_utf8_scalar(&mut bytes, v);
            proof {
                let c = v as char;
                lemma_encode_utf8_push(chars, c);
                assert(chars.push(c) =~= chars + seq![c]);
                let prev = chars;
                chars = chars + seq![c];
                assert(pending.skip(2) =~= units@.skip(i + 2));
                match utf16_decode(units@.skip(i + 2)) {
                    Some(rest) => {
                        assert(utf16_decode(pending) == Some(seq![c] + rest));
                        assert(prev + (seq![c] + rest) =~= chars + rest);
                    },
                    None => {},
                }
            }
            i += 2;
        } else {
            assert(utf16_decode(pending) is None);
            return None;
        }
    }
    proof {
        assert(units@.skip(n as int) =~= Seq::<u16>::empty());
        assert(utf16_decode(units@) == Some(chars));
        vstd::utf8::encode_utf8_valid_utf8(chars);
        vstd::utf8::encode_utf8_decode_utf8(chars);
    }
    match string_from_utf8(bytes) {
        Some(s) => Some(s),
        None => {
            proof {
                assert(false);
            }
            None
        },
    }
}

} // verus!
