//! Byte-level model of the wire: sequences of bytes, in-place overwrites,
//! and zero-filled extensions.

use vstd::prelude::*;

verus! {

/// A sequence of `n` zero bytes.
pub open spec fn zeros(n: nat) -> Seq<u8> {
    Seq::new(n, |i: int| 0u8)
}

/// `data` with `bytes` written over the range starting at `at`; everything
/// else is unchanged and the length stays the same.
pub open spec fn splice(data: Seq<u8>, at: int, bytes: Seq<u8>) -> Seq<u8>
    recommends
        0 <= at,
        at + bytes.len() <= data.len(),
{
    Seq::new(
        data.len(),
        |i: int|
            if at <= i < at + bytes.len() {
                bytes[i - at]
            } else {
                data[i]
            },
    )
}

/// Reading back exactly the spliced range gives the written bytes.
pub proof fn lemma_splice_subrange(data: Seq<u8>, at: int, bytes: Seq<u8>)
    requires
        0 <= at,
        at + bytes.len() <= data.len(),
    ensures
        splice(data, at, bytes).subrange(at, at + bytes.len() as int) == bytes,
{
    assert(splice(data, at, bytes).subrange(at, at + bytes.len() as int) =~= bytes);
}

/// A read from a range disjoint from the spliced range sees the old bytes.
pub proof fn lemma_splice_disjoint(data: Seq<u8>, at: int, bytes: Seq<u8>, lo: int, hi: int)
    requires
        0 <= at,
        at + bytes.len() <= data.len(),
        0 <= lo <= hi <= data.len(),
        hi <= at || at + bytes.len() <= lo,
    ensures
        splice(data, at, bytes).subrange(lo, hi) == data.subrange(lo, hi),
{
    assert(splice(data, at, bytes).subrange(lo, hi) =~= data.subrange(lo, hi));
}

/// Appending bytes does not disturb an existing range.
pub proof fn lemma_append_preserves(data: Seq<u8>, tail: Seq<u8>, lo: int, hi: int)
    requires
        0 <= lo <= hi <= data.len(),
    ensures
        (data + tail).subrange(lo, hi) == data.subrange(lo, hi),
{
    assert((data + tail).subrange(lo, hi) =~= data.subrange(lo, hi));
}

} // verus!
