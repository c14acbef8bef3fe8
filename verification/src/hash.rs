//! Fixed-length hash values, written inline on the wire as 16 or 20 raw
//! bytes, and parsed from hexadecimal text.

use vstd::prelude::*;
use vstd::string::StrSliceExecFns;

verus! {

/// An ASCII hexadecimal digit, upper or lower case.
pub open spec fn is_hex_digit(c: char) -> bool {
    ||| 0x30 <= c as u32 <= 0x39
    ||| 0x41 <= c as u32 <= 0x46
    ||| 0x61 <= c as u32 <= 0x66
}

/// The numeric value of a hexadecimal digit.
pub open spec fn spec_hex_val(c: char) -> u8
    recommends
        is_hex_digit(c),
{
    if 0x61 <= c as u32 {
        (c as u32 - 0x61 + 10) as u8
    } else if 0x41 <= c as u32 {
        (c as u32 - 0x41 + 10) as u8
    } else {
        (c as u32 - 0x30) as u8
    }
}

/// The byte spelled by two hexadecimal digits.
pub open spec fn spec_hex_byte(hi: char, lo: char) -> u8
    recommends
        is_hex_digit(hi),
        is_hex_digit(lo),
{
    (spec_hex_val(hi) * 16 + spec_hex_val(lo)) as u8
}

/// The `n` bytes spelled by `2 * n` hexadecimal digits.
pub open spec fn spec_hex_bytes(text: Seq<char>, n: int) -> Seq<u8>
    recommends
        text.len() == 2 * n,
{
    Seq::new(n as nat, |i: int| spec_hex_byte(text[2 * i], text[2 * i + 1]))
}

fn hex_val(c: char) -> (r: u8)
    requires
        is_hex_digit(c),
    ensures
        r == spec_hex_val(c),
        r < 16,
{
    let v = c as u32;
    if v >= 0x61 {
        (v - 0x61 + 10) as u8
    } else if v >= 0x41 {
        (v - 0x41 + 10) as u8
    } else {
        (v - 0x30) as u8
    }
}

/// The byte at character positions `i`, `i + 1` of a hexadecimal string.
fn hex_byte_at(s: &str, i: usize) -> (r: u8)
    requires
        i + 2 <= s@.len() <= usize::MAX,
        is_hex_digit(s@[i as int]),
        is_hex_digit(s@[i as int + 1]),
    ensures
        r == spec_hex_byte(s@[i as int], s@[i as int + 1]),
{
    let hi = hex_val(s.get_char(i));
    let lo = hex_val(s.get_char(i + 1));
    hi * 16 + lo
}

/// The lower-case hexadecimal digit for a nibble.
pub open spec fn spec_hex_digit_char(n: int) -> char
    recommends
        0 <= n < 16,
{
    if n < 10 {
        (0x30 + n) as char
    } else {
        (0x61 + n - 10) as char
    }
}

/// The lower-case hexadecimal spelling of a byte sequence: two digits per
/// byte, high nibble first.
pub open spec fn spec_hex_string(bytes: Seq<u8>) -> Seq<char> {
    Seq::new(
        2 * bytes.len(),
        |i: int|
            spec_hex_digit_char(
                if i % 2 == 0 {
                    bytes[i / 2] as int / 16
                } else {
                    bytes[i / 2] as int % 16
                },
            ),
    )
}

/// Spelling bytes in hexadecimal and parsing the digits back gives the
/// original bytes: the formatter and the parser invert each other.
pub proof fn lemma_hex_round_trip(bytes: Seq<u8>)
    ensures
        spec_hex_string(bytes).len() == 2 * bytes.len(),
        forall|i: int|
            0 <= i < 2 * bytes.len() ==> is_hex_digit(#[trigger] spec_hex_string(bytes)[i]),
        spec_hex_bytes(spec_hex_string(bytes), bytes.len() as int) == bytes,
{
    let text = spec_hex_string(bytes);
    assert forall|i: int| 0 <= i < 2 * bytes.len() implies is_hex_digit(#[trigger] text[i]) by {
        let b = bytes[i / 2] as int;
        assert(0 <= b / 16 < 16 && 0 <= b % 16 < 16);
    }
    assert forall|i: int| 0 <= i < bytes.len() implies spec_hex_byte(text[2 * i], text[2 * i + 1])
        == bytes[i] by {
        let b = bytes[i] as int;
        assert(0 <= b / 16 < 16 && 0 <= b % 16 < 16);
        assert(spec_hex_val(spec_hex_digit_char(b / 16)) == b / 16);
        assert(spec_hex_val(spec_hex_digit_char(b % 16)) == b % 16);
        assert((b / 16) * 16 + b % 16 == b);
    }
    assert(spec_hex_bytes(text, bytes.len() as int) =~= bytes);
}

/// The lower-case hexadecimal spelling of a byte slice.
fn hex_string(bytes: &[u8]) -> (r: String)
    ensures
        r@ == spec_hex_string(bytes@),
{
    let n = bytes.len();
    let mut out: Vec<u8> = Vec::new();
    let ghost mut chars: Seq<char> = Seq::empty();
    let mut i: usize = 0;
    proof {
        assert(chars =~= spec_hex_string(bytes@.take(0)));
    }
    while i < n
        invariant
            i <= n,
            n == bytes@.len(),
            chars == spec_hex_string(bytes@.take(i as int)),
            out@ == vstd::utf8::encode_utf8(chars),
        decreases n - i,
    {
        let b = bytes[i];
        let hi: u8 = b >> 4;
        let lo: u8 = b & 0xF;
        assert(hi == b / 16 && lo == b % 16 && hi < 16 && lo < 16) by (bit_vector)
            requires
                hi == b >> 4,
                lo == b & 0xF,
        ;
        let a_hi: u8 = if hi < 10 {
            0x30 + hi
        } else {
            0x61 + hi - 10
        };
        let a_lo: u8 = if lo < 10 {
            0x30 + lo
        } else {
            0x61 + lo - 10
        };
        out.push(a_hi);
        out.push(a_lo);
        proof {
            let c_hi = spec_hex_digit_char(hi as int);
            let c_lo = spec_hex_digit_char(lo as int);
            assert(c_hi as u32 == a_hi && c_lo as u32 == a_lo);
            assert((a_hi as u32) & 0x7F == a_hi && (a_lo as u32) & 0x7F == a_lo) by (bit_vector)
                requires a_hi < 0x80 && a_lo < 0x80;
            assert(vstd::utf8::encode_scalar(c_hi as u32) =~= seq![a_hi]);
            assert(vstd::utf8::encode_scalar(c_lo as u32) =~= seq![a_lo]);
            crate::utf16::lemma_encode_utf8_push(chars, c_hi);
            crate::utf16::lemma_encode_utf8_push(chars.push(c_hi), c_lo);
            chars = chars.push(c_hi).push(c_lo);
            assert(out@ =~= vstd::utf8::encode_utf8(chars));
            assert(chars =~= spec_hex_string(bytes@.take(i + 1)));
        }
        i += 1;
    }
    proof {
        assert(bytes@.take(n as int) =~= bytes@);
        vstd::utf8::encode_utf8_valid_utf8(chars);
        vstd::utf8::encode_utf8_decode_utf8(chars);
    }
    match crate::utf16::string_from_utf8(out) {
        Some(s) => s,
        None => {
            proof {
                assert(false);
            }
            String::new()
        },
    }
}

/// A 16-byte hash, stored inline.
#[derive(PartialEq, Eq, Copy, Clone, Hash, Debug)]
pub struct HASH16(pub(crate) [u8; 16]);

impl View for HASH16 {
    type V = Seq<u8>;

    closed spec fn view(&self) -> Seq<u8> {
        self.0@
    }
}

/// A 16-byte hash views as exactly 16 bytes.
pub proof fn lemma_hash16_len(h: HASH16)
    ensures
        h@.len() == 16,
{
}

impl HASH16 {
    /// Parses 32 hexadecimal digits into the 16 bytes they spell.
    #[verifier::rlimit(80)]
    pub fn new(hash: &str) -> (r: HASH16)
        requires
            hash@.len() == 32,
            forall|i: int| 0 <= i < 32 ==> is_hex_digit(#[trigger] hash@[i]),
        ensures
            r@ == spec_hex_bytes(hash@, 16),
    {
        let r = HASH16(
            [
                hex_byte_at(hash, 0),
                hex_byte_at(hash, 2),
                hex_byte_at(hash, 4),
                hex_byte_at(hash, 6),
                hex_byte_at(hash, 8),
                hex_byte_at(hash, 10),
                hex_byte_at(hash, 12),
                hex_byte_at(hash, 14),
                hex_byte_at(hash, 16),
                hex_byte_at(hash, 18),
                hex_byte_at(hash, 20),
                hex_byte_at(hash, 22),
                hex_byte_at(hash, 24),
                hex_byte_at(hash, 26),
                hex_byte_at(hash, 28),
                hex_byte_at(hash, 30),
            ],
        );
        proof {
            assert(r@ =~= spec_hex_bytes(hash@, 16));
        }
        r
    }

    /// The hash as an owned array of bytes.
    pub(crate) fn from_array(bytes: [u8; 16]) -> (r: HASH16)
        ensures
            r@ == bytes@,
    {
        HASH16(bytes)
    }

    /// The hash's bytes.
    pub fn raw(&self) -> (r: &[u8])
        ensures
            r@ == self@,
    {
        self.0.as_slice()
    }

    /// The hash spelled as 32 lower-case hexadecimal digits.
    pub fn to_hex(&self) -> (r: String)
        ensures
            r@ == spec_hex_string(self@),
    {
        hex_string(self.0.as_slice())
    }
}

/// A 20-byte hash, stored inline.
#[derive(PartialEq, Eq, Copy, Clone, Hash, Debug)]
pub struct HASH20(pub(crate) [u8; 20]);

impl View for HASH20 {
    type V = Seq<u8>;

    closed spec fn view(&self) -> Seq<u8> {
        self.0@
    }
}

/// A 20-byte hash views as exactly 20 bytes.
pub proof fn lemma_hash20_len(h: HASH20)
    ensures
        h@.len() == 20,
{
}

impl HASH20 {
    /// Parses 40 hexadecimal digits into the 20 bytes they spell.
    #[verifier::rlimit(80)]
    pub fn new(hash: &str) -> (r: HASH20)
        requires
            hash@.len() == 40,
            forall|i: int| 0 <= i < 40 ==> is_hex_digit(#[trigger] hash@[i]),
        ensures
            r@ == spec_hex_bytes(hash@, 20),
    {
        let r = HASH20(
            [
                hex_byte_at(hash, 0),
                hex_byte_at(hash, 2),
                hex_byte_at(hash, 4),
                hex_byte_at(hash, 6),
                hex_byte_at(hash, 8),
                hex_byte_at(hash, 10),
                hex_byte_at(hash, 12),
                hex_byte_at(hash, 14),
                hex_byte_at(hash, 16),
                hex_byte_at(hash, 18),
                hex_byte_at(hash, 20),
                hex_byte_at(hash, 22),
                hex_byte_at(hash, 24),
                hex_byte_at(hash, 26),
                hex_byte_at(hash, 28),
                hex_byte_at(hash, 30),
                hex_byte_at(hash, 32),
                hex_byte_at(hash, 34),
                hex_byte_at(hash, 36),
                hex_byte_at(hash, 38),
            ],
        );
        proof {
            assert(r@ =~= spec_hex_bytes(hash@, 20));
        }
        r
    }

    /// The hash as an owned array of bytes.
    pub(crate) fn from_array(bytes: [u8; 20]) -> (r: HASH20)
        ensures
            r@ == bytes@,
    {
        HASH20(bytes)
    }

    /// The hash's bytes.
    pub fn raw(&self) -> (r: &[u8])
        ensures
            r@ == self@,
    {
        self.0.as_slice()
    }

    /// The hash spelled as 40 lower-case hexadecimal digits.
    pub fn to_hex(&self) -> (r: String)
        ensures
            r@ == spec_hex_string(self@),
    {
        hex_string(self.0.as_slice())
    }
}

} // verus!
