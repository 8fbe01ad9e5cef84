//! What one append of a rotor codec leaves behind.
use vstd::prelude::*;

verus! {

/// Elements per multivector group: one rotor turns three of them.
pub const ROTOR4_V_GROUP_SIZE: usize = 3;

/// Bit width of the four-bit rotor codec.
pub const ROTOR4_V_BITS: u8 = 4;

/// The groups of a head, the last one padded where the head does not divide.
pub open spec fn groups_of(head_dim: int) -> int {
    (head_dim + ROTOR4_V_GROUP_SIZE - 1) / (ROTOR4_V_GROUP_SIZE as int)
}

/// The number of groups of a head.
pub fn n_groups_for(head_dim: usize) -> (r: usize)
    ensures
        r == groups_of(head_dim as int),
{
    let whole: usize = head_dim / ROTOR4_V_GROUP_SIZE;
    if head_dim % ROTOR4_V_GROUP_SIZE == 0 {
        whole
    } else {
        whole + 1
    }
}

/// The encoded payload of one append. Scales and norms are held by bit pattern.
#[derive(Debug)]
pub struct RotorBlocks {
    pub codes: Vec<u32>,
    pub scales: Vec<u32>,
    pub norms: Vec<u32>,
    /// Rows that were encoded: one per batch entry, head and position.
    pub n_tokens: usize,
}

/// The contents of a block.
#[verifier::ext_equal]
pub struct BlockView {
    pub codes: Seq<u32>,
    pub scales: Seq<u32>,
    pub norms: Seq<u32>,
    pub n_tokens: nat,
}

impl View for RotorBlocks {
    type V = BlockView;

    open spec fn view(&self) -> BlockView {
        BlockView {
            codes: self.codes@,
            scales: self.scales@,
            norms: self.norms@,
            n_tokens: self.n_tokens as nat,
        }
    }
}

/// The contents of a list of blocks.
pub open spec fn views(blocks: Seq<RotorBlocks>) -> Seq<BlockView> {
    Seq::new(blocks.len(), |i: int| blocks[i]@)
}

/// Copies a row of words.
pub fn copy_row(row: &Vec<u32>) -> (r: Vec<u32>)
    ensures
        r@ == row@,
{
    let mut out: Vec<u32> = Vec::with_capacity(row.len());
    extend_row(&mut out, row);
    out
}

/// Lays a row of words behind another.
pub fn extend_row(out: &mut Vec<u32>, row: &Vec<u32>)
    ensures
        final(out)@ == old(out)@ + row@,
{
    out.extend_from_slice(row.as_slice());
    assert(out@ =~= old(out)@ + row@);
}

impl RotorBlocks {
    /// A copy that shares nothing with the original.
    pub fn copy(&self) -> (r: RotorBlocks)
        ensures
            r@ == self@,
    {
        RotorBlocks {
            codes: copy_row(&self.codes),
            scales: copy_row(&self.scales),
            norms: copy_row(&self.norms),
            n_tokens: self.n_tokens,
        }
    }
}

/// The rows in the blocks together.
pub open spec fn tokens(blocks: Seq<BlockView>) -> nat
    decreases blocks.len(),
{
    if blocks.len() == 0 {
        0
    } else {
        tokens(blocks.drop_last()) + blocks.last().n_tokens
    }
}

/// The codes of all blocks, end to end.
pub open spec fn all_codes(blocks: Seq<BlockView>) -> Seq<u32>
    decreases blocks.len(),
{
    if blocks.len() == 0 {
        Seq::empty()
    } else {
        all_codes(blocks.drop_last()) + blocks.last().codes
    }
}

/// The scales of all blocks, end to end.
pub open spec fn all_scales(blocks: Seq<BlockView>) -> Seq<u32>
    decreases blocks.len(),
{
    if blocks.len() == 0 {
        Seq::empty()
    } else {
        all_scales(blocks.drop_last()) + blocks.last().scales
    }
}

/// The norms of all blocks, end to end.
pub open spec fn all_norms(blocks: Seq<BlockView>) -> Seq<u32>
    decreases blocks.len(),
{
    if blocks.len() == 0 {
        Seq::empty()
    } else {
        all_norms(blocks.drop_last()) + blocks.last().norms
    }
}

/// The words held by all blocks.
pub open spec fn words(blocks: Seq<BlockView>) -> nat
    decreases blocks.len(),
{
    if blocks.len() == 0 {
        0
    } else {
        words(blocks.drop_last()) + blocks.last().codes.len() + blocks.last().scales.len()
            + blocks.last().norms.len()
    }
}

/// Fewer blocks hold fewer words.
pub proof fn lemma_words_grow(blocks: Seq<BlockView>, n: int)
    requires
        0 <= n <= blocks.len(),
    ensures
        words(blocks.take(n)) <= words(blocks),
    decreases blocks.len() - n,
{
    if n < blocks.len() {
        lemma_words_grow(blocks, n + 1);
        assert(blocks.take(n + 1).drop_last() =~= blocks.take(n));
    } else {
        assert(blocks.take(n) =~= blocks);
    }
}

/// The groups of three cover a head, and with one fewer they would not.
pub proof fn law_groups_cover_the_head(head_dim: int)
    requires
        head_dim >= 0,
    ensures
        3 * groups_of(head_dim) >= head_dim,
        3 * (groups_of(head_dim) - 1) < head_dim || head_dim == 0,
        groups_of(0) == 0,
{
}

/// A single block is laid out as it is, and the blocks of two lists one list behind
/// the other, codes, scales and norms each on their own. Words and rows add up.
pub proof fn law_blocks_lie_end_to_end(a: Seq<BlockView>, b: Seq<BlockView>, block: BlockView)
    ensures
        all_codes(seq![block]) == block.codes,
        all_scales(seq![block]) == block.scales,
        all_norms(seq![block]) == block.norms,
        words(seq![block]) == block.codes.len() + block.scales.len() + block.norms.len(),
        tokens(seq![block]) == block.n_tokens,
        all_codes(a + b) == all_codes(a) + all_codes(b),
        all_scales(a + b) == all_scales(a) + all_scales(b),
        all_norms(a + b) == all_norms(a) + all_norms(b),
        words(a + b) == words(a) + words(b),
        tokens(a + b) == tokens(a) + tokens(b),
    decreases b.len(),
{
    reveal_with_fuel(all_codes, 2);
    reveal_with_fuel(all_scales, 2);
    reveal_with_fuel(all_norms, 2);
    reveal_with_fuel(words, 2);
    reveal_with_fuel(tokens, 2);
    let one = seq![block];
    assert(one.drop_last() =~= Seq::<BlockView>::empty());
    if b.len() == 0 {
        assert(a + b =~= a);
    } else {
        law_blocks_lie_end_to_end(a, b.drop_last(), block);
        assert((a + b).drop_last() =~= a + b.drop_last());
        assert((a + b).last() == b.last());
        assert(all_codes(a + b) =~= all_codes(a) + all_codes(b));
        assert(all_scales(a + b) =~= all_scales(a) + all_scales(b));
        assert(all_norms(a + b) =~= all_norms(a) + all_norms(b));
    }
}

} // verus!
