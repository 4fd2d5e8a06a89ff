use vstd::prelude::*;

use crate::text::{radix_text, to_radix_text};

verus! {

/// Rolling hash of a byte sequence: `h = h * 31 + byte` over the bytes in order,
/// wrapped to 32 bits, starting from zero.
pub open spec fn rolling_hash(bytes: Seq<u8>) -> u32
    decreases bytes.len(),
{
    if bytes.len() == 0 {
        0
    } else {
        let prev = rolling_hash(bytes.drop_last());
        ((prev as int * 31 + bytes.last() as int) % 0x1_0000_0000) as u32
    }
}

/// Canonical text of the rolling hash of a string's UTF-8 bytes.
pub open spec fn hash_text(s: Seq<char>) -> Seq<char> {
    radix_text(rolling_hash(vstd::utf8::encode_utf8(s)) as nat, 36)
}

/// Rolling hash of `bytes` (see `rolling_hash`).
pub fn rolling_hash_bytes(bytes: &[u8]) -> (h: u32)
    ensures
        h == rolling_hash(bytes@),
{
    let mut h: u32 = 0;
    let mut i: usize = 0;
    while i < bytes.len()
        invariant
            i <= bytes@.len(),
            h == rolling_hash(bytes@.subrange(0, i as int)),
        decreases bytes@.len() - i,
    {
        proof {
            let next = bytes@.subrange(0, i as int + 1);
            assert(next.drop_last() =~= bytes@.subrange(0, i as int));
            assert(next.last() == bytes@[i as int]);
        }
        h = h.wrapping_mul(31).wrapping_add(bytes[i] as u32);
        i = i + 1;
    }
    assert(bytes@.subrange(0, bytes@.len() as int) =~= bytes@);
    h
}

/// Hash of a string as canonical text: the rolling hash of its UTF-8 bytes,
/// rendered in base 36.
pub fn simple_hash_str(s: &str) -> (r: String)
    ensures
        r@ == hash_text(s@),
{
    let bytes = s.as_bytes_vec();
    let h = rolling_hash_bytes(bytes.as_slice());
    to_radix_text(h as u64, 36)
}

} // verus!
