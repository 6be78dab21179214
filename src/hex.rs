//! Lowercase hexadecimal rendering of digest bytes.

use vstd::prelude::*;

verus! {

/// The ASCII character for a nibble value `n` in `0..16`: `0`-`9`, then `a`-`f`.
pub open spec fn nibble_char(n: u8) -> u8 {
    if n < 10 {
        (48 + n) as u8
    } else {
        (87 + n) as u8
    }
}

/// Whether `c` is one of the characters `0`-`9`, `a`-`f`.
pub open spec fn is_hex_char(c: u8) -> bool {
    (48 <= c <= 57) || (97 <= c <= 102)
}

/// Two lowercase hex characters per byte, high nibble first.
pub open spec fn hex_of(b: Seq<u8>) -> Seq<u8>
    decreases b.len(),
{
    if b.len() == 0 {
        Seq::empty()
    } else {
        hex_of(b.drop_last()) + seq![nibble_char(b.last() / 16), nibble_char(b.last() % 16)]
    }
}

/// Every character of a hex rendering is a hex digit, and there are two per byte.
pub proof fn lemma_hex_of_chars(b: Seq<u8>)
    ensures
        hex_of(b).len() == 2 * b.len(),
        forall|k: int| 0 <= k < hex_of(b).len() ==> is_hex_char(#[trigger] hex_of(b)[k]),
    decreases b.len(),
{
    if b.len() > 0 {
        lemma_hex_of_chars(b.drop_last());
        let h = hex_of(b);
        let p = hex_of(b.drop_last());
        assert forall|k: int| 0 <= k < h.len() implies is_hex_char(#[trigger] h[k]) by {
            if k >= p.len() {
                assert(b.last() / 16 < 16);
                assert(b.last() % 16 < 16);
            }
        }
    }
}

fn nibble(n: u8) -> (r: u8)
    requires
        n < 16,
    ensures
        r == nibble_char(n),
{
    if n < 10 {
        48 + n
    } else {
        87 + n
    }
}

/// Renders `bytes` as lowercase hexadecimal, two characters per byte.
pub fn to_hex(bytes: &[u8]) -> (r: Vec<u8>)
    ensures
        r@ == hex_of(bytes@),
{
    let mut out: Vec<u8> = Vec::new();
    let mut i: usize = 0;
    while i < bytes.len()
        invariant
            i <= bytes@.len(),
            out@ == hex_of(bytes@.subrange(0, i as int)),
        decreases bytes@.len() - i,
    {
        let b = bytes[i];
        out.push(nibble(b / 16));
        out.push(nibble(b % 16));
        proof {
            let s = bytes@.subrange(0, i as int + 1);
            assert(s.drop_last() =~= bytes@.subrange(0, i as int));
            assert(s.last() == b);
        }
        i = i + 1;
    }
    assert(bytes@.subrange(0, bytes@.len() as int) =~= bytes@);
    out
}

} // verus!
