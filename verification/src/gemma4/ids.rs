//! Token ids on their way to the device.
use vstd::prelude::*;

verus! {

/// One byte of a word, the lowest first.
pub open spec fn byte_of(word: u32, i: int) -> u8 {
    if i == 0 {
        (word % 256) as u8
    } else if i == 1 {
        ((word / 256) % 256) as u8
    } else if i == 2 {
        ((word / 65536) % 256) as u8
    } else {
        (word / 16777216) as u8
    }
}

/// The bytes of a list of ids, four to each, the lowest first.
pub open spec fn id_bytes(ids: Seq<u32>) -> Seq<u8> {
    Seq::new(4 * ids.len(), |i: int| byte_of(ids[i / 4], i % 4))
}

/// The bytes of a list of ids. An id is a 32-bit word on the device; as a signed
/// one it has the same bytes.
pub fn ids_to_bytes(ids: &[u32]) -> (r: Vec<u8>)
    ensures
        r@ == id_bytes(ids@),
{
    let n: usize = ids.len();
    let mut out: Vec<u8> = Vec::new();
    let mut i: usize = 0;
    while i < n
        invariant
            n == ids@.len(),
            i <= n,
            out@.len() == 4 * i,
            forall|p: int| 0 <= p < 4 * i ==> #[trigger] out@[p] == id_bytes(ids@)[p],
        decreases n - i,
    {
        let word: u32 = ids[i];
        out.push((word % 256) as u8);
        out.push(((word / 256) % 256) as u8);
        out.push(((word / 65536) % 256) as u8);
        out.push((word / 16777216) as u8);
        i = i + 1;
    }
    assert(out@ =~= id_bytes(ids@));
    out
}

/// The word in four bytes, the lowest first.
pub open spec fn word_of(b0: u8, b1: u8, b2: u8, b3: u8) -> int {
    b0 + 256 * b1 + 65536 * b2 + 16777216 * b3
}

/// Every id is found again in its bytes.
pub proof fn law_ids_survive(ids: Seq<u32>, i: int)
    requires
        0 <= i < ids.len(),
    ensures
        id_bytes(ids).len() == 4 * ids.len(),
        word_of(
            id_bytes(ids)[4 * i],
            id_bytes(ids)[4 * i + 1],
            id_bytes(ids)[4 * i + 2],
            id_bytes(ids)[4 * i + 3],
        ) == ids[i],
{
    let b = id_bytes(ids);
    let w = ids[i];
    assert(b[4 * i] == byte_of(w, 0));
    assert(b[4 * i + 1] == byte_of(w, 1));
    assert(b[4 * i + 2] == byte_of(w, 2));
    assert(b[4 * i + 3] == byte_of(w, 3));
}

} // verus!
