//! Rows of bf16 elements as they cross between the device and the host.
//!
//! A bf16 element is the upper half of a 32-bit element and travels as two
//! bytes, the lower one first. Elements on the host are held by bit pattern.
use vstd::prelude::*;

verus! {

/// The 32-bit pattern of the bf16 element in two bytes.
pub open spec fn widened(lo: u8, hi: u8) -> u32 {
    ((lo + 256 * hi) * 65536) as u32
}

/// The lower byte of the bf16 element that a 32-bit pattern is cut to.
pub open spec fn low_byte(bits: u32) -> u8 {
    ((bits / 65536) % 256) as u8
}

/// The upper byte of the bf16 element that a 32-bit pattern is cut to.
pub open spec fn high_byte(bits: u32) -> u8 {
    (bits / 16777216) as u8
}

/// The patterns of the elements in a row of bytes. An odd byte at the end does
/// not make an element.
pub open spec fn widen(bytes: Seq<u8>) -> Seq<u32> {
    Seq::new(bytes.len() / 2, |i: int| widened(bytes[2 * i], bytes[2 * i + 1]))
}

/// The bytes of a row of elements, each cut to bf16.
pub open spec fn narrow(row: Seq<u32>) -> Seq<u8> {
    Seq::new(
        2 * row.len(),
        |i: int|
            if i % 2 == 0 {
                low_byte(row[i / 2])
            } else {
                high_byte(row[i / 2])
            },
    )
}

/// Widens the elements in a row of bytes.
pub fn bf16_bytes_to_f32_bits(bytes: &[u8]) -> (r: Vec<u32>)
    ensures
        r@ == widen(bytes@),
{
    let len: usize = bytes.len();
    let n: usize = len / 2;
    let mut out: Vec<u32> = Vec::with_capacity(n);
    let mut i: usize = 0;
    while i < n
        invariant
            len == bytes@.len(),
            n == len / 2,
            i <= n,
            out@.len() == i,
            forall|p: int| 0 <= p < i ==> #[trigger] out@[p] == widen(bytes@)[p],
        decreases n - i,
    {
        let lo: u32 = bytes[2 * i] as u32;
        let hi: u32 = bytes[2 * i + 1] as u32;
        out.push((lo + 256 * hi) * 65536);
        i = i + 1;
    }
    assert(out@ =~= widen(bytes@));
    out
}

/// Cuts a row of elements to bf16.
pub fn f32_bits_to_bf16_bytes(row: &[u32]) -> (r: Vec<u8>)
    ensures
        r@ == narrow(row@),
{
    let n: usize = row.len();
    let mut out: Vec<u8> = Vec::new();
    let mut i: usize = 0;
    while i < n
        invariant
            n == row@.len(),
            i <= n,
            out@.len() == 2 * i,
            forall|p: int| 0 <= p < 2 * i ==> #[trigger] out@[p] == narrow(row@)[p],
        decreases n - i,
    {
        let bits: u32 = row[i];
        out.push(((bits / 65536) % 256) as u8);
        out.push((bits / 16777216) as u8);
        i = i + 1;
    }
    assert(out@ =~= narrow(row@));
    out
}

/// Bytes that were widened are cut back to the same bytes.
pub proof fn law_narrow_undoes_widen(bytes: Seq<u8>)
    requires
        bytes.len() % 2 == 0,
    ensures
        narrow(widen(bytes)) == bytes,
{
    assert forall|i: int| 0 <= i < bytes.len() implies narrow(widen(bytes))[i] == bytes[i] by {
        let p = i / 2;
        let w = widen(bytes)[p];
        assert(w == (bytes[2 * p] + 256 * bytes[2 * p + 1]) * 65536);
        if i % 2 == 0 {
            assert(i == 2 * p);
        } else {
            assert(i == 2 * p + 1);
        }
    }
    assert(narrow(widen(bytes)) =~= bytes);
}

/// A row that was cut to bf16 comes back with its lower halves cleared, so that
/// cutting it again changes nothing.
pub proof fn law_widen_of_narrow_clears_lower_half(row: Seq<u32>)
    ensures
        widen(narrow(row)).len() == row.len(),
        forall|i: int|
            0 <= i < row.len() ==> #[trigger] widen(narrow(row))[i] == row[i] - row[i] % 65536,
        narrow(widen(narrow(row))) == narrow(row),
{
    assert forall|i: int| 0 <= i < row.len() implies #[trigger] widen(narrow(row))[i] == row[i]
        - row[i] % 65536 by {
        assert(narrow(row)[2 * i] == low_byte(row[i]));
        assert(narrow(row)[2 * i + 1] == high_byte(row[i]));
    }
    law_narrow_undoes_widen(narrow(row));
}

/// The element in two bytes is the upper half of its 32-bit pattern, the lower byte
/// first: of a row that is widened, and of one that is cut.
pub proof fn law_bytes_are_the_upper_half(bytes: Seq<u8>, row: Seq<u32>, i: int)
    ensures
        widen(bytes).len() == bytes.len() / 2,
        narrow(row).len() == 2 * row.len(),
        0 <= i < bytes.len() / 2 ==> widen(bytes)[i] == 65536 * bytes[2 * i] + 16777216 * bytes[2 * i
            + 1],
        0 <= i < row.len() ==> narrow(row)[2 * i] + 256 * narrow(row)[2 * i + 1] == row[i] / 65536,
{
    if 0 <= i < bytes.len() / 2 {
        assert(widen(bytes)[i] == (bytes[2 * i] + 256 * bytes[2 * i + 1]) * 65536);
    }
    if 0 <= i < row.len() {
        assert(narrow(row)[2 * i] == low_byte(row[i]));
        assert(narrow(row)[2 * i + 1] == high_byte(row[i]));
    }
}

} // verus!
