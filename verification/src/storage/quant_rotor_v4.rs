//! Four-bit rotor-quantized V.
//!
//! The payload lives on the host, one block per append, and is what a decode
//! and a spill go by. A packed ring on the device may stand beside it. The ring
//! either tracks the blocks or does not exist: whatever changes the blocks on
//! the host drops the ring, and the next append on the device builds it anew
//! from the blocks.
use vstd::prelude::*;

use crate::error::Error;
use crate::storage::rotor_blocks::{
    copy_row, extend_row, n_groups_for, BlockView, RotorBlocks, ROTOR4_V_BITS,
};
use crate::storage::seq_layout::{transpose_heads_seq, transpose_seq_heads};
use crate::storage::{rotor_blocks, seq_layout};

verus! {

/// The packed ring on the device, as far as the host knows of it.
#[derive(Clone, Copy, PartialEq, Eq, Structural, Debug)]
pub struct RotorGpuK {
    pub allocated: bool,
    /// The number under which the runtime keeps the ring.
    pub ring: u64,
    /// Bytes that the ring takes on the device.
    pub bytes: usize,
}

/// No ring.
pub open spec fn no_ring() -> RotorGpuK {
    RotorGpuK { allocated: false, ring: 0, bytes: 0 }
}

impl RotorGpuK {
    /// No ring.
    pub fn absent() -> (r: RotorGpuK)
        ensures
            r == no_ring(),
    {
        RotorGpuK { allocated: false, ring: 0, bytes: 0 }
    }
}

/// Accumulated V of one layer.
#[derive(Debug)]
pub struct QuantRotorV4 {
    /// Static rotor table, four words per group, by bit pattern. Made at the
    /// first append and never replaced.
    pub rotors: Vec<u32>,
    pub gpu: RotorGpuK,
    pub blocks: Vec<RotorBlocks>,
    /// Accumulated `[B, kv_h, S, D]`.
    pub shape: Vec<i32>,
    /// Sequence length that the store was provisioned for.
    pub max_seq: i32,
    /// Together with the head, the seed of the rotor table.
    pub layer_idx: u32,
    pub head_idx: u32,
    pub bits: u8,
}

/// The contents of a store.
#[verifier::ext_equal]
pub struct StoreView {
    pub rotors: Seq<u32>,
    pub gpu: RotorGpuK,
    pub blocks: Seq<BlockView>,
    pub shape: Seq<i32>,
    pub max_seq: i32,
    pub layer_idx: u32,
    pub head_idx: u32,
    pub bits: u8,
}

impl View for QuantRotorV4 {
    type V = StoreView;

    open spec fn view(&self) -> StoreView {
        StoreView {
            rotors: self.rotors@,
            gpu: self.gpu,
            blocks: rotor_blocks::views(self.blocks@),
            shape: self.shape@,
            max_seq: self.max_seq,
            layer_idx: self.layer_idx,
            head_idx: self.head_idx,
            bits: self.bits,
        }
    }
}

/// What a rotor table is made from.
#[derive(Clone, Copy, PartialEq, Eq, Structural, Debug)]
pub struct TableSeed {
    pub layer_idx: u32,
    pub head_idx: u32,
    pub n_groups: usize,
}

/// What an append hands to the codec.
#[derive(Debug)]
pub struct AppendInput {
    /// The rows of the slice, sequence-major.
    pub rows: Vec<u32>,
    pub head_dim: usize,
    /// The table to make first, where the store has none yet.
    pub table: Option<TableSeed>,
}

/// What the codec makes of a slice.
#[derive(Debug)]
pub struct Encoded {
    pub codes: Vec<u32>,
    pub scales: Vec<u32>,
    pub norms: Vec<u32>,
}

/// The extents of a slice, none negative, whose rows and elements can be
/// counted.
pub open spec fn countable(shape: Seq<i32>) -> bool {
    &&& shape.len() == 4
    &&& forall|i: int| 0 <= i < 4 ==> #[trigger] shape[i] >= 0
    &&& shape[0] * shape[1] <= usize::MAX
    &&& shape[0] * shape[1] * shape[2] <= usize::MAX
    &&& shape[0] * shape[1] * shape[2] * shape[3] <= usize::MAX
}

/// The number of elements in four extents.
pub open spec fn elements(shape: Seq<i32>) -> int {
    shape[0] * shape[1] * shape[2] * shape[3]
}

/// The shape of a store that takes a slice in: that of the slice, where the
/// store had none, else longer by the positions of the slice.
pub open spec fn grown(shape: Seq<i32>, new_shape: Seq<i32>) -> Seq<i32> {
    if shape.len() != 4 || shape[0] == 0 {
        new_shape
    } else {
        shape.update(2, (shape[2] + new_shape[2]) as i32)
    }
}

/// A store after a slice was encoded. The table stays once it is made, the block
/// comes last, and the ring goes.
pub open spec fn appended(
    store: StoreView,
    new_shape: Seq<i32>,
    table: Seq<u32>,
    codes: Seq<u32>,
    scales: Seq<u32>,
    norms: Seq<u32>,
) -> StoreView {
    StoreView {
        rotors: if store.rotors.len() == 0 {
            table
        } else {
            store.rotors
        },
        gpu: no_ring(),
        blocks: store.blocks.push(
            BlockView {
                codes,
                scales,
                norms,
                n_tokens: (new_shape[0] * new_shape[1] * new_shape[2]) as nat,
            },
        ),
        shape: grown(store.shape, new_shape),
        ..store
    }
}

/// Decoded rows of the first `n` blocks end to end, or the first failure.
pub open spec fn joined(decoded: Seq<Result<Vec<u32>, u64>>, n: int) -> Result<Seq<u32>, u64>
    decreases n,
{
    if n <= 0 {
        Ok(Seq::empty())
    } else {
        match joined(decoded, n - 1) {
            Err(code) => Err(code),
            Ok(rows) => match decoded[n - 1] {
                Err(code) => Err(code),
                Ok(row) => Ok(rows + row@),
            },
        }
    }
}

/// Rows cut, or padded with zeros, to a length.
pub open spec fn fitted(rows: Seq<u32>, len: int) -> Seq<u32> {
    Seq::new(
        len as nat,
        |i: int|
            if i < rows.len() {
                rows[i]
            } else {
                0
            },
    )
}

/// The head-major elements of a store whose blocks decode to `rows`.
pub open spec fn unpacked(shape: Seq<i32>, rows: Seq<u32>) -> Seq<u32> {
    seq_layout::swapped(
        fitted(rows, elements(shape)),
        shape[2] as int,
        shape[1] as int,
        shape[3] as int,
    )
}

/// What a store decodes to, from what the codec makes of each block.
pub open spec fn decoded_store(
    store: StoreView,
    decoded: Seq<Result<Vec<u32>, u64>>,
) -> Result<Seq<u32>, Error> {
    if store.shape.len() != 4 {
        Err(Error::MalformedShape(store.shape.len() as usize))
    } else if store.rotors.len() == 0 {
        Err(Error::RotorTableEmpty)
    } else if store.blocks.len() == 0 {
        Ok(fitted(Seq::empty(), elements(store.shape)))
    } else {
        match joined(decoded, decoded.len() as int) {
            Err(code) => Err(Error::RotorDecode(code)),
            Ok(rows) => Ok(unpacked(store.shape, rows)),
        }
    }
}

/// Where an append on the device writes.
#[derive(Clone, Copy, PartialEq, Eq, Structural, Debug)]
pub struct RingAt {
    pub kv_h: i32,
    pub head_dim: i32,
    pub prev_seq: i32,
    pub new_seq: i32,
    pub max_seq: i32,
}

/// The next thing that an append on the device does.
#[derive(Debug)]
pub enum RingStep {
    /// Build the ring from the blocks on the host.
    Seed { codes: Vec<u32>, scales: Vec<u32>, norms: Vec<u32>, at: RingAt },
    /// Write the encoded chunk behind what the ring holds.
    Append { at: RingAt },
    Done(Result<(), Error>),
}

/// A look into the ring.
#[derive(Clone, Copy, PartialEq, Eq, Structural, Debug)]
pub struct RingWindow {
    pub ring: u64,
    pub kv_seq: i32,
}

/// What is worth printing of a store.
#[derive(Debug)]
pub struct Summary {
    pub n_rotors: usize,
    pub gpu_resident: bool,
    pub n_blocks: usize,
    pub shape: Vec<i32>,
    pub max_seq: i32,
    pub layer_idx: u32,
    pub head_idx: u32,
    pub bits: u8,
}

/// The bytes of a store: its table once, its blocks, and its ring.
pub open spec fn footprint(store: StoreView) -> int {
    4 * store.rotors.len() + 4 * rotor_blocks::words(store.blocks) + store.gpu.bytes
}

/// Whether `keep` blocks are those that fit into `n` rows: they do, and with the
/// next one they would not.
pub open spec fn longest_fit(blocks: Seq<BlockView>, keep: int, n: int) -> bool {
    &&& 0 <= keep <= blocks.len()
    &&& rotor_blocks::tokens(blocks.take(keep)) <= n
    &&& keep < blocks.len() ==> rotor_blocks::tokens(blocks.take(keep + 1)) > n
}

/// Copies extents.
fn copy_shape(shape: &[i32]) -> (r: Vec<i32>)
    ensures
        r@ == shape@,
{
    let mut out: Vec<i32> = Vec::new();
    out.extend_from_slice(shape);
    assert(out@ =~= shape@);
    out
}

impl QuantRotorV4 {
    /// An empty store for `[B, kv_h, 0, D]`. Its table is made at the first
    /// append.
    pub fn new(init_shape: Vec<i32>, max_seq: i32, layer_idx: u32) -> (r: Self)
        ensures
            r@ == (StoreView {
                rotors: Seq::empty(),
                gpu: no_ring(),
                blocks: Seq::empty(),
                shape: init_shape@,
                max_seq,
                layer_idx,
                head_idx: 0,
                bits: ROTOR4_V_BITS,
            }),
    {
        let r: QuantRotorV4 = QuantRotorV4::with_rotors(Vec::new(), init_shape, max_seq, layer_idx);
        assert(r@ =~= StoreView {
            rotors: Seq::empty(),
            gpu: no_ring(),
            blocks: Seq::empty(),
            shape: init_shape@,
            max_seq,
            layer_idx,
            head_idx: 0,
            bits: ROTOR4_V_BITS,
        });
        r
    }

    /// An empty store that has its table.
    pub fn with_rotors(
        rotors: Vec<u32>,
        init_shape: Vec<i32>,
        max_seq: i32,
        layer_idx: u32,
    ) -> (r: Self)
        ensures
            r@ == (StoreView {
                rotors: rotors@,
                gpu: no_ring(),
                blocks: Seq::empty(),
                shape: init_shape@,
                max_seq,
                layer_idx,
                head_idx: 0,
                bits: ROTOR4_V_BITS,
            }),
    {
        let r: QuantRotorV4 = QuantRotorV4 {
            rotors,
            gpu: RotorGpuK::absent(),
            blocks: Vec::new(),
            shape: init_shape,
            max_seq,
            layer_idx,
            head_idx: 0,
            bits: ROTOR4_V_BITS,
        };
        assert(r@.blocks =~= Seq::<BlockView>::empty());
        r
    }

    /// A store over blocks that were read back. It is provisioned for what it
    /// holds, and starts without a ring.
    pub fn from_cpu_blocks(
        rotors: Vec<u32>,
        blocks: Vec<RotorBlocks>,
        shape: Vec<i32>,
        layer_idx: u32,
    ) -> (r: Self)
        ensures
            r@ == (StoreView {
                rotors: rotors@,
                gpu: no_ring(),
                blocks: rotor_blocks::views(blocks@),
                shape: shape@,
                max_seq: if shape@.len() >= 3 {
                    shape@[2]
                } else {
                    0
                },
                layer_idx,
                head_idx: 0,
                bits: ROTOR4_V_BITS,
            }),
    {
        let max_seq: i32 = if shape.len() >= 3 {
            shape[2]
        } else {
            0
        };
        QuantRotorV4 {
            rotors,
            gpu: RotorGpuK::absent(),
            blocks,
            shape,
            max_seq,
            layer_idx,
            head_idx: 0,
            bits: ROTOR4_V_BITS,
        }
    }

    /// What an append of a `[B, kv_h, S, D]` slice hands to the codec: its rows
    /// sequence-major, and the table to make where there is none yet.
    pub fn append_input(&self, f32_data: &[u32], new_shape: &[i32]) -> (r: Result<
        AppendInput,
        Error,
    >)
        requires
            new_shape@.len() == 4 ==> countable(new_shape@) && f32_data@.len() == elements(
                new_shape@,
            ),
        ensures
            match r {
                Err(e) => new_shape@.len() != 4 && e == Error::AppendRank(new_shape@.len() as usize),
                Ok(input) => {
                    &&& new_shape@.len() == 4
                    &&& input.rows@ == seq_layout::swapped(
                        f32_data@,
                        new_shape@[1] as int,
                        new_shape@[2] as int,
                        new_shape@[3] as int,
                    )
                    &&& input.head_dim == new_shape@[3]
                    &&& input.table == if self@.rotors.len() == 0 {
                        Some(
                            TableSeed {
                                layer_idx: self.layer_idx,
                                head_idx: self.head_idx,
                                n_groups: rotor_blocks::groups_of(new_shape@[3] as int) as usize,
                            },
                        )
                    } else {
                        None
                    }
                },
            },
    {
        if new_shape.len() != 4 {
            return Err(Error::AppendRank(new_shape.len()));
        }
        let b: usize = new_shape[0] as usize;
        let kv_h: usize = new_shape[1] as usize;
        let new_seq: usize = new_shape[2] as usize;
        let head_dim: usize = new_shape[3] as usize;
        let table: Option<TableSeed> = if self.rotors.len() == 0 {
            Some(
                TableSeed {
                    layer_idx: self.layer_idx,
                    head_idx: self.head_idx,
                    n_groups: n_groups_for(head_dim),
                },
            )
        } else {
            None
        };
        let rows: Vec<u32> = transpose_heads_seq(f32_data, b, kv_h, new_seq, head_dim);
        Ok(AppendInput { rows, head_dim, table })
    }

    /// Appends a slice that the codec has encoded. A table that was made for it
    /// is kept even where the codec refused the slice.
    pub fn append(
        &mut self,
        new_shape: &[i32],
        table: Vec<u32>,
        encoded: Result<Encoded, u64>,
    ) -> (r: Result<(), Error>)
        requires
            new_shape@.len() == 4 ==> countable(new_shape@) && grown_fits(
                old(self)@.shape,
                new_shape@,
            ),
        ensures
            if new_shape@.len() != 4 {
                r == Err::<(), Error>(Error::AppendRank(new_shape@.len() as usize))
                    && final(self)@ == old(self)@
            } else {
                match encoded {
                    Err(code) => {
                        &&& r == Err::<(), Error>(Error::RotorEncode(code))
                        &&& final(self)@ == (StoreView {
                            rotors: if old(self)@.rotors.len() == 0 {
                                table@
                            } else {
                                old(self)@.rotors
                            },
                            ..old(self)@
                        })
                    },
                    Ok(e) => {
                        &&& r is Ok
                        &&& final(self)@ == appended(
                            old(self)@,
                            new_shape@,
                            table@,
                            e.codes@,
                            e.scales@,
                            e.norms@,
                        )
                    },
                }
            },
    {
        if new_shape.len() != 4 {
            return Err(Error::AppendRank(new_shape.len()));
        }
        let b: usize = new_shape[0] as usize;
        let kv_h: usize = new_shape[1] as usize;
        let new_seq: usize = new_shape[2] as usize;
        let n_tokens: usize = b * kv_h * new_seq;
        if self.rotors.len() == 0 {
            self.rotors = table;
        }
        let e: Encoded = match encoded {
            Ok(e) => e,
            Err(code) => return Err(Error::RotorEncode(code)),
        };
        self.blocks.push(
            RotorBlocks { codes: e.codes, scales: e.scales, norms: e.norms, n_tokens },
        );
        self.gpu = RotorGpuK::absent();
        if self.shape.len() != 4 || self.shape[0] == 0 {
            self.shape = copy_shape(new_shape);
        } else {
            let seq: i32 = self.shape[2] + new_shape[2];
            self.shape.set(2, seq);
        }
        assert(self@.blocks =~= old(self)@.blocks.push(
            BlockView {
                codes: e.codes@,
                scales: e.scales@,
                norms: e.norms@,
                n_tokens: n_tokens as nat,
            },
        ));
        Ok(())
    }

    /// Empties the store. The table stays; the ring goes.
    pub fn reset(&mut self)
        ensures
            final(self)@ == (StoreView {
                blocks: Seq::empty(),
                gpu: no_ring(),
                shape: if old(self)@.shape.len() >= 4 {
                    old(self)@.shape.update(2, 0)
                } else {
                    old(self)@.shape
                },
                ..old(self)@
            }),
    {
        self.blocks.clear();
        self.gpu = RotorGpuK::absent();
        if self.shape.len() >= 4 {
            self.shape.set(2, 0);
        }
        assert(self@.blocks =~= Seq::<BlockView>::empty());
    }

    /// Drops the blocks from the first one on that does not fit into `n` rows,
    /// and lowers the recorded length to `n`. The table stays; the ring goes.
    pub fn truncate_to(&mut self, n: i32)
        ensures
            longest_fit(
                old(self)@.blocks,
                final(self)@.blocks.len() as int,
                if n < 0 {
                    0
                } else {
                    n as int
                },
            ),
            final(self)@ == (StoreView {
                blocks: old(self)@.blocks.take(final(self)@.blocks.len() as int),
                gpu: no_ring(),
                shape: if old(self)@.shape.len() >= 4 {
                    old(self)@.shape.update(
                        2,
                        if n < old(self)@.shape[2] {
                            n
                        } else {
                            old(self)@.shape[2]
                        },
                    )
                } else {
                    old(self)@.shape
                },
                ..old(self)@
            }),
    {
        let limit: usize = if n < 0 {
            0
        } else {
            n as usize
        };
        let count: usize = self.blocks.len();
        let mut acc: usize = 0;
        let mut keep: usize = 0;
        let ghost all = self@.blocks;
        assert(all.take(0) =~= Seq::<BlockView>::empty());
        while keep < count && self.blocks[keep].n_tokens <= limit - acc
            invariant
                keep <= count,
                count == self.blocks@.len(),
                all == rotor_blocks::views(self.blocks@),
                acc <= limit,
                acc == rotor_blocks::tokens(all.take(keep as int)),
            decreases count - keep,
        {
            assert(all.take(keep + 1).drop_last() =~= all.take(keep as int));
            acc = acc + self.blocks[keep].n_tokens;
            keep = keep + 1;
        }
        proof {
            if keep < count {
                assert(all.take(keep + 1).drop_last() =~= all.take(keep as int));
            }
        }
        self.blocks.truncate(keep);
        self.gpu = RotorGpuK::absent();
        if self.shape.len() >= 4 && n < self.shape[2] {
            self.shape.set(2, n);
        }
        assert(self@.blocks =~= all.take(keep as int));
        assert(self@.shape =~= if old(self)@.shape.len() >= 4 {
            old(self)@.shape.update(
                2,
                if n < old(self)@.shape[2] {
                    n
                } else {
                    old(self)@.shape[2]
                },
            )
        } else {
            old(self)@.shape
        });
    }

    /// A copy that shares nothing with the store. It starts without a ring:
    /// its blocks carry everything.
    pub fn try_deep_clone(&self) -> (r: Result<Self, Error>)
        ensures
            r matches Ok(copy) && copy@ == (StoreView { gpu: no_ring(), ..self@ }),
    {
        let mut blocks: Vec<RotorBlocks> = Vec::new();
        let count: usize = self.blocks.len();
        let mut i: usize = 0;
        while i < count
            invariant
                count == self.blocks@.len(),
                i <= count,
                blocks@.len() == i,
                forall|p: int| 0 <= p < i ==> (#[trigger] blocks@[p])@ == self.blocks@[p]@,
            decreases count - i,
        {
            blocks.push(self.blocks[i].copy());
            i = i + 1;
        }
        let copy: QuantRotorV4 = QuantRotorV4 {
            rotors: copy_row(&self.rotors),
            gpu: RotorGpuK::absent(),
            blocks,
            shape: copy_shape(self.shape.as_slice()),
            max_seq: self.max_seq,
            layer_idx: self.layer_idx,
            head_idx: self.head_idx,
            bits: self.bits,
        };
        assert(copy@.blocks =~= self@.blocks);
        Ok(copy)
    }

    /// The codes, scales and norms of all blocks end to end: what a ring is
    /// built from.
    pub fn flatten_blocks(&self) -> (r: (Vec<u32>, Vec<u32>, Vec<u32>))
        ensures
            r.0@ == rotor_blocks::all_codes(self@.blocks),
            r.1@ == rotor_blocks::all_scales(self@.blocks),
            r.2@ == rotor_blocks::all_norms(self@.blocks),
    {
        let mut codes: Vec<u32> = Vec::new();
        let mut scales: Vec<u32> = Vec::new();
        let mut norms: Vec<u32> = Vec::new();
        let count: usize = self.blocks.len();
        let mut i: usize = 0;
        let ghost all = self@.blocks;
        assert(all.take(0) =~= Seq::<BlockView>::empty());
        while i < count
            invariant
                count == self.blocks@.len(),
                i <= count,
                all == rotor_blocks::views(self.blocks@),
                codes@ == rotor_blocks::all_codes(all.take(i as int)),
                scales@ == rotor_blocks::all_scales(all.take(i as int)),
                norms@ == rotor_blocks::all_norms(all.take(i as int)),
            decreases count - i,
        {
            assert(all.take(i + 1).drop_last() =~= all.take(i as int));
            extend_row(&mut codes, &self.blocks[i].codes);
            extend_row(&mut scales, &self.blocks[i].scales);
            extend_row(&mut norms, &self.blocks[i].norms);
            i = i + 1;
        }
        assert(all.take(count as int) =~= all);
        (codes, scales, norms)
    }

    /// Starts the append of an encoded chunk on the device. A ring that is not
    /// live is built from the blocks first, where there is anything before the
    /// chunk.
    pub fn gpu_append(&self, kv_h: i32, head_dim: i32, prev_seq: i32, new_seq: i32) -> (r: RingStep)
        ensures
            ({
                let at = RingAt { kv_h, head_dim, prev_seq, new_seq, max_seq: self.max_seq };
                if !self.gpu.allocated && prev_seq > 0 {
                    r matches RingStep::Seed { codes, scales, norms, at: a } && a == at && codes@
                        == rotor_blocks::all_codes(self@.blocks) && scales@
                        == rotor_blocks::all_scales(self@.blocks) && norms@
                        == rotor_blocks::all_norms(self@.blocks)
                } else {
                    r == (RingStep::Append { at })
                }
            }),
    {
        let at: RingAt = RingAt { kv_h, head_dim, prev_seq, new_seq, max_seq: self.max_seq };
        if !self.gpu.allocated && prev_seq > 0 {
            let (codes, scales, norms) = self.flatten_blocks();
            RingStep::Seed { codes, scales, norms, at }
        } else {
            RingStep::Append { at }
        }
    }

    /// Goes on once the ring was built, or was not.
    pub fn gpu_seeded(&mut self, at: RingAt, ring: RotorGpuK, failed: Option<u64>) -> (r: RingStep)
        ensures
            final(self)@ == (StoreView { gpu: ring, ..old(self)@ }),
            r == match failed {
                Some(code) => RingStep::Done(Err(Error::Outside(code))),
                None => RingStep::Append { at },
            },
    {
        self.gpu = ring;
        match failed {
            Some(code) => RingStep::Done(Err(Error::Outside(code))),
            None => RingStep::Append { at },
        }
    }

    /// Goes on once the chunk was written, or was not.
    pub fn gpu_appended(&mut self, ring: RotorGpuK, failed: Option<u64>) -> (r: RingStep)
        ensures
            final(self)@ == (StoreView { gpu: ring, ..old(self)@ }),
            r == match failed {
                Some(code) => RingStep::Done(Err(Error::Outside(code))),
                None => RingStep::Done(Ok(())),
            },
    {
        self.gpu = ring;
        match failed {
            Some(code) => RingStep::Done(Err(Error::Outside(code))),
            None => RingStep::Done(Ok(())),
        }
    }

    /// The first `kv_seq` positions of the ring, where it is live.
    pub fn gpu_packed_view(&self, kv_seq: i32) -> (r: Option<RingWindow>)
        ensures
            r == if self.gpu.allocated {
                Some(RingWindow { ring: self.gpu.ring, kv_seq })
            } else {
                None
            },
    {
        if self.gpu.allocated {
            Some(RingWindow { ring: self.gpu.ring, kv_seq })
        } else {
            None
        }
    }

    /// The bytes of the store. The table counts once.
    pub fn byte_size(&self) -> (r: usize)
        requires
            footprint(self@) <= usize::MAX,
        ensures
            r == footprint(self@),
    {
        let count: usize = self.blocks.len();
        let ghost all = self@.blocks;
        assert(all.take(0) =~= Seq::<BlockView>::empty());
        let mut total: usize = self.rotors.len() * 4;
        let mut i: usize = 0;
        while i < count
            invariant
                count == self.blocks@.len(),
                i <= count,
                all == rotor_blocks::views(self.blocks@),
                total == 4 * self.rotors@.len() + 4 * rotor_blocks::words(all.take(i as int)),
                4 * self.rotors@.len() + 4 * rotor_blocks::words(all) <= usize::MAX,
            decreases count - i,
        {
            proof {
                assert(all.take(i + 1).drop_last() =~= all.take(i as int));
                rotor_blocks::lemma_words_grow(all, i + 1);
            }
            total = total + self.blocks[i].codes.len() * 4;
            total = total + self.blocks[i].scales.len() * 4;
            total = total + self.blocks[i].norms.len() * 4;
            i = i + 1;
        }
        assert(all.take(count as int) =~= all);
        total + self.gpu.bytes
    }

    /// Decodes the store into head-major elements, from what the codec makes of
    /// each block. A store that was never appended to has no table to decode by.
    /// Where the recorded length is not that of the blocks, the rows are cut or
    /// padded with zeros.
    pub fn dequant(&self, decoded: &Vec<Result<Vec<u32>, u64>>) -> (r: Result<Vec<u32>, Error>)
        requires
            self@.shape.len() == 4 ==> countable(self@.shape),
            self@.shape.len() == 4 && self@.blocks.len() > 0 && self@.rotors.len() > 0
                ==> decoded@.len() == self@.blocks.len(),
        ensures
            match (r, decoded_store(self@, decoded@)) {
                (Ok(rows), Ok(expected)) => rows@ == expected,
                (Err(e), Err(expected)) => e == expected,
                _ => false,
            },
    {
        if self.shape.len() != 4 {
            return Err(Error::MalformedShape(self.shape.len()));
        }
        let b: usize = self.shape[0] as usize;
        let kv_h: usize = self.shape[1] as usize;
        let s: usize = self.shape[2] as usize;
        let head_dim: usize = self.shape[3] as usize;
        let total: usize = b * kv_h * s * head_dim;
        let mut out: Vec<u32> = Vec::new();
        if self.rotors.len() == 0 {
            return Err(Error::RotorTableEmpty);
        }
        if self.blocks.len() == 0 {
            fit_rows(&mut out, total);
            return Ok(out);
        }
        let count: usize = decoded.len();
        let mut i: usize = 0;
        while i < count
            invariant
                count == decoded@.len(),
                i <= count,
                self@.shape.len() == 4,
                self@.blocks.len() > 0,
                self@.rotors.len() > 0,
                joined(decoded@, i as int) matches Ok(rows) && rows == out@,
            decreases count - i,
        {
            match &decoded[i] {
                Err(code) => {
                    proof {
                        lemma_first_failure(decoded@, i as int, *code);
                    }
                    return Err(Error::RotorDecode(*code));
                },
                Ok(row) => extend_row(&mut out, row),
            }
            i = i + 1;
        }
        fit_rows(&mut out, total);
        assert(b * s * kv_h * head_dim == b * kv_h * s * head_dim) by (nonlinear_arith);
        Ok(transpose_seq_heads(out.as_slice(), b, s, kv_h, head_dim))
    }

    /// What is worth printing of the store.
    pub fn summary(&self) -> (r: Summary)
        ensures
            r.n_rotors == self@.rotors.len() / 4,
            r.gpu_resident == self.gpu.allocated,
            r.n_blocks == self@.blocks.len(),
            r.shape@ == self@.shape,
            r.max_seq == self.max_seq,
            r.layer_idx == self.layer_idx,
            r.head_idx == self.head_idx,
            r.bits == self.bits,
    {
        Summary {
            n_rotors: self.rotors.len() / 4,
            gpu_resident: self.gpu.allocated,
            n_blocks: self.blocks.len(),
            shape: copy_shape(self.shape.as_slice()),
            max_seq: self.max_seq,
            layer_idx: self.layer_idx,
            head_idx: self.head_idx,
            bits: self.bits,
        }
    }
}

/// Whether the length of a store that takes a slice in can be counted.
pub open spec fn grown_fits(shape: Seq<i32>, new_shape: Seq<i32>) -> bool {
    shape.len() == 4 && shape[0] != 0 ==> i32::MIN <= shape[2] + new_shape[2] <= i32::MAX
}

/// Cuts rows, or pads them with zeros, to a length.
fn fit_rows(rows: &mut Vec<u32>, len: usize)
    ensures
        final(rows)@ == fitted(old(rows)@, len as int),
{
    let ghost before = rows@;
    rows.resize(len, 0);
    proof {
        assert forall|i: int| 0 <= i < len implies rows@[i] == fitted(before, len as int)[i] by {
            if before.len() < len && i < before.len() {
                assert(rows@.subrange(0, before.len() as int)[i] == before[i]);
            }
        }
        assert(rows@ =~= fitted(before, len as int));
    }
}

/// A failure stands, whatever comes after it.
proof fn lemma_first_failure(decoded: Seq<Result<Vec<u32>, u64>>, i: int, code: u64)
    requires
        0 <= i < decoded.len(),
        joined(decoded, i) is Ok,
        decoded[i] == Err::<Vec<u32>, u64>(code),
    ensures
        joined(decoded, decoded.len() as int) == Err::<Seq<u32>, u64>(code),
{
    assert(joined(decoded, i + 1) == Err::<Seq<u32>, u64>(code));
    lemma_failure_stands(decoded, i + 1, decoded.len() as int, code);
}

proof fn lemma_failure_stands(decoded: Seq<Result<Vec<u32>, u64>>, i: int, n: int, code: u64)
    requires
        0 <= i <= n,
        joined(decoded, i) == Err::<Seq<u32>, u64>(code),
    ensures
        joined(decoded, n) == Err::<Seq<u32>, u64>(code),
    decreases n - i,
{
    if i < n {
        lemma_failure_stands(decoded, i, n - 1, code);
    }
}

/// With a codec that loses nothing, one slice comes out of a store as it went in.
pub proof fn law_slice_round_trip(
    store: StoreView,
    data: Seq<u32>,
    shape: Seq<i32>,
    table: Seq<u32>,
    codes: Seq<u32>,
    scales: Seq<u32>,
    norms: Seq<u32>,
    decoded: Seq<Result<Vec<u32>, u64>>,
)
    requires
        store.blocks.len() == 0,
        grown(store.shape, shape) == shape,
        countable(shape),
        data.len() == elements(shape),
        table.len() > 0,
        decoded.len() == 1,
        decoded[0] matches Ok(rows) && rows@ == seq_layout::swapped(
            data,
            shape[1] as int,
            shape[2] as int,
            shape[3] as int,
        ),
    ensures
        decoded_store(appended(store, shape, table, codes, scales, norms), decoded) == Ok::<
            Seq<u32>,
            Error,
        >(data),
{
    let rows = seq_layout::swapped(data, shape[1] as int, shape[2] as int, shape[3] as int);
    assert(joined(decoded, 0) == Ok::<Seq<u32>, u64>(Seq::empty()));
    assert(Seq::<u32>::empty() + rows =~= rows);
    assert(joined(decoded, 1) == Ok::<Seq<u32>, u64>(rows));
    assert(fitted(rows, elements(shape)) =~= rows);
    seq_layout::law_swap_undoes_itself(
        data,
        shape[0] as int,
        shape[1] as int,
        shape[2] as int,
        shape[3] as int,
    );
}

/// The positions of the first `n` slices, given the length of each.
pub open spec fn span(lens: Seq<int>, n: int) -> int
    decreases n,
{
    if n <= 0 {
        0
    } else {
        span(lens, n - 1) + lens[n - 1]
    }
}

/// A store that holds slices of one request, of the given lengths, and nothing
/// else.
pub open spec fn holds(store: StoreView, lens: Seq<int>, heads: int, d: int) -> bool {
    &&& store.blocks.len() == lens.len()
    &&& lens.len() > 0 ==> store.rotors.len() > 0
    &&& store.shape.len() == 4
    &&& store.shape[0] == 1
    &&& store.shape[1] == heads
    &&& store.shape[2] == span(lens, lens.len() as int)
    &&& store.shape[3] == d
}

/// A store that holds slices of one request holds one more after an append, and a
/// store without extents holds the first one.
pub proof fn law_append_adds_a_slice(
    store: StoreView,
    lens: Seq<int>,
    new_shape: Seq<i32>,
    table: Seq<u32>,
    codes: Seq<u32>,
    scales: Seq<u32>,
    norms: Seq<u32>,
)
    requires
        new_shape.len() == 4,
        new_shape[0] == 1,
        new_shape[2] >= 0,
        holds(store, lens, new_shape[1] as int, new_shape[3] as int) || (lens.len() == 0
            && store.blocks.len() == 0 && (store.shape.len() != 4 || store.shape[0] == 0)),
        grown_fits(store.shape, new_shape),
        table.len() > 0,
    ensures
        holds(
            appended(store, new_shape, table, codes, scales, norms),
            lens.push(new_shape[2] as int),
            new_shape[1] as int,
            new_shape[3] as int,
        ),
{
    let more = lens.push(new_shape[2] as int);
    lemma_span_of_more(lens, new_shape[2] as int, lens.len() as int);
    assert(more[lens.len() as int] == new_shape[2]);
}

proof fn lemma_span_of_more(lens: Seq<int>, len: int, n: int)
    requires
        0 <= n <= lens.len(),
    ensures
        span(lens.push(len), n) == span(lens, n),
    decreases n,
{
    if n > 0 {
        lemma_span_of_more(lens, len, n - 1);
    }
}

/// What the codec makes of each block is the slice that was packed into it,
/// sequence-major.
pub open spec fn lossless(
    decoded: Seq<Result<Vec<u32>, u64>>,
    slices: Seq<Seq<u32>>,
    lens: Seq<int>,
    heads: int,
    d: int,
) -> bool {
    &&& slices.len() == decoded.len()
    &&& lens.len() == decoded.len()
    &&& forall|j: int|
        #![trigger decoded[j]]
        0 <= j < decoded.len() ==> {
            &&& lens[j] >= 0
            &&& slices[j].len() == heads * lens[j] * d
            &&& decoded[j] matches Ok(rows) && rows@ == seq_layout::swapped(
                slices[j],
                heads,
                lens[j],
                d,
            )
        }
}

/// Slices are not shorter together than the first few of them.
proof fn lemma_span_grows(lens: Seq<int>, i: int, n: int)
    requires
        0 <= i <= n <= lens.len(),
        forall|j: int| 0 <= j < lens.len() ==> #[trigger] lens[j] >= 0,
    ensures
        0 <= span(lens, i) <= span(lens, n),
    decreases n,
{
    if n > 0 {
        if i < n {
            lemma_span_grows(lens, i, n - 1);
        } else {
            lemma_span_grows(lens, n - 1, n - 1);
        }
    }
}

/// The rows of each slice stand behind those of the slices before it.
proof fn lemma_rows_of_slice(
    decoded: Seq<Result<Vec<u32>, u64>>,
    slices: Seq<Seq<u32>>,
    lens: Seq<int>,
    heads: int,
    d: int,
    n: int,
    i: int,
    p: int,
)
    requires
        lossless(decoded, slices, lens, heads, d),
        0 <= n <= decoded.len(),
        0 <= heads,
        0 <= d,
    ensures
        joined(decoded, n) matches Ok(rows) && {
            &&& rows.len() == heads * span(lens, n) * d
            &&& 0 <= i < n && 0 <= p < slices[i].len() ==> {
                &&& 0 <= heads * span(lens, i) * d + p < rows.len()
                &&& rows[heads * span(lens, i) * d + p] == seq_layout::swapped(
                    slices[i],
                    heads,
                    lens[i],
                    d,
                )[p]
            }
        },
    decreases n,
{
    if n > 0 {
        lemma_rows_of_slice(decoded, slices, lens, heads, d, n - 1, i, p);
        let before = joined(decoded, n - 1)->Ok_0;
        let row = decoded[n - 1]->Ok_0@;
        assert(heads * span(lens, n) * d == heads * span(lens, n - 1) * d + heads * lens[n - 1]
            * d) by (nonlinear_arith)
            requires
                span(lens, n) == span(lens, n - 1) + lens[n - 1],
        ;
        assert(joined(decoded, n) == Ok::<Seq<u32>, u64>(before + row));
        if i == n - 1 && 0 <= p < slices[i].len() {
            assert((before + row)[before.len() + p] == row[p]);
        }
    } else {
        assert(heads * 0 * d == 0) by (nonlinear_arith);
    }
}

/// With a codec that loses nothing, the slices of one request come out of a store
/// joined along their sequence axis, however many there are: each element of each
/// slice is found at its own head, behind the positions of the slices before it.
pub proof fn law_slices_read_back(
    store: StoreView,
    slices: Seq<Seq<u32>>,
    lens: Seq<int>,
    decoded: Seq<Result<Vec<u32>, u64>>,
    heads: int,
    d: int,
    i: int,
    h: int,
    s: int,
    k: int,
)
    requires
        holds(store, lens, heads, d),
        lossless(decoded, slices, lens, heads, d),
        0 <= i < decoded.len(),
        0 <= h < heads,
        0 <= s < lens[i],
        0 <= k < d,
    ensures
        decoded_store(store, decoded) matches Ok(out) && out[seq_layout::flat(
            0,
            h,
            span(lens, i) + s,
            k,
            heads,
            span(lens, lens.len() as int),
            d,
        )] == slices[i][seq_layout::flat(0, h, s, k, heads, lens[i], d)],
{
    let count = decoded.len() as int;
    let total = span(lens, count);
    let at = span(lens, i) + s;
    assert forall|j: int| 0 <= j < lens.len() implies #[trigger] lens[j] >= 0 by {
        assert(decoded[j] is Ok);
    }
    lemma_span_grows(lens, 0, i);
    lemma_span_grows(lens, i + 1, count);
    assert(decoded[i] is Ok);
    assert(slices[i].len() == 1 * heads * lens[i] * d) by (nonlinear_arith)
        requires
            slices[i].len() == heads * lens[i] * d,
    ;
    seq_layout::law_swap_exchanges_middle_axes(slices[i], 1, 0, h, s, k, heads, lens[i], d);
    let p = seq_layout::flat(0, s, h, k, lens[i], heads, d);
    lemma_rows_of_slice(decoded, slices, lens, heads, d, count, i, p);
    let rows = joined(decoded, count)->Ok_0;
    assert(elements(store.shape) == heads * total * d) by (nonlinear_arith)
        requires
            elements(store.shape) == 1 * heads * total * d,
    ;
    assert(fitted(rows, elements(store.shape)) =~= rows);
    assert(rows.len() == 1 * total * heads * d) by (nonlinear_arith)
        requires
            rows.len() == heads * total * d,
    ;
    seq_layout::law_swap_exchanges_middle_axes(rows, 1, 0, at, h, k, total, heads, d);
    assert(seq_layout::flat(0, at, h, k, total, heads, d) == heads * span(lens, i) * d + p)
        by (nonlinear_arith)
        requires
            seq_layout::flat(0, at, h, k, total, heads, d) == ((0 * total + at) * heads + h) * d + k,
            p == ((0 * lens[i] + s) * heads + h) * d + k,
            at == span(lens, i) + s,
    ;
}

/// What the codec makes of each block is the slice that was packed into it,
/// sequence-major, with every row put through `f`: the codec may lose something,
/// but it works row by row.
pub open spec fn row_coded(
    f: spec_fn(Seq<u32>) -> Seq<u32>,
    decoded: Seq<Result<Vec<u32>, u64>>,
    slices: Seq<Seq<u32>>,
    lens: Seq<int>,
    heads: int,
    d: int,
) -> bool {
    &&& slices.len() == decoded.len()
    &&& lens.len() == decoded.len()
    &&& forall|j: int|
        #![trigger decoded[j]]
        0 <= j < decoded.len() ==> {
            &&& lens[j] >= 0
            &&& slices[j].len() == heads * lens[j] * d
            &&& decoded[j] matches Ok(rows) && rows@ == seq_layout::by_rows(
                f,
                seq_layout::swapped(slices[j], heads, lens[j], d),
                d,
            )
        }
}

/// `whole` is the slices joined along their sequence axis, head by head.
pub open spec fn joins(
    whole: Seq<u32>,
    slices: Seq<Seq<u32>>,
    lens: Seq<int>,
    heads: int,
    d: int,
) -> bool {
    let total = span(lens, lens.len() as int);
    &&& whole.len() == heads * total * d
    &&& forall|i: int, h: int, s: int, k: int|
        0 <= i < lens.len() && 0 <= h < heads && 0 <= s < lens[i] && 0 <= k < d
            ==> #[trigger] slices[i][seq_layout::flat(0, h, s, k, heads, lens[i], d)]
            == whole[seq_layout::flat(0, h, span(lens, i) + s, k, heads, total, d)]
}

/// The slice that a position lies in.
proof fn lemma_slice_of(lens: Seq<int>, t: int, n: int) -> (i: int)
    requires
        0 <= n <= lens.len(),
        0 <= t < span(lens, n),
    ensures
        0 <= i < n,
        span(lens, i) <= t < span(lens, i) + lens[i],
    decreases n,
{
    if t < span(lens, n - 1) {
        lemma_slice_of(lens, t, n - 1)
    } else {
        n - 1
    }
}

/// A codec that works row by row loses nothing of the slices that its rows make.
proof fn lemma_row_coded_is_lossless(
    f: spec_fn(Seq<u32>) -> Seq<u32>,
    decoded: Seq<Result<Vec<u32>, u64>>,
    slices: Seq<Seq<u32>>,
    lens: Seq<int>,
    heads: int,
    d: int,
)
    requires
        row_coded(f, decoded, slices, lens, heads, d),
        0 <= heads,
        0 <= d,
    ensures
        lossless(
            decoded,
            Seq::new(slices.len(), |j: int| seq_layout::by_rows(f, slices[j], d)),
            lens,
            heads,
            d,
        ),
{
    let made = Seq::new(slices.len(), |j: int| seq_layout::by_rows(f, slices[j], d));
    assert forall|j: int|
        #![trigger decoded[j]]
        0 <= j < decoded.len() implies {
        &&& lens[j] >= 0
        &&& made[j].len() == heads * lens[j] * d
        &&& decoded[j] matches Ok(rows) && rows@ == seq_layout::swapped(
            made[j],
            heads,
            lens[j],
            d,
        )
    } by {
        assert(decoded[j] is Ok);
        assert(slices[j].len() == 1 * heads * lens[j] * d) by (nonlinear_arith)
            requires
                slices[j].len() == heads * lens[j] * d,
        ;
        seq_layout::law_swap_keeps_rows_whole(f, slices[j], 1, heads, lens[j], d);
    }
}

/// One element of a store behind a codec that works row by row: what the codec
/// makes of its own row, wherever the slices were cut.
proof fn lemma_element_read_back(
    f: spec_fn(Seq<u32>) -> Seq<u32>,
    store: StoreView,
    whole: Seq<u32>,
    slices: Seq<Seq<u32>>,
    lens: Seq<int>,
    decoded: Seq<Result<Vec<u32>, u64>>,
    heads: int,
    d: int,
    i: int,
    h: int,
    s: int,
    k: int,
)
    requires
        holds(store, lens, heads, d),
        row_coded(f, decoded, slices, lens, heads, d),
        joins(whole, slices, lens, heads, d),
        0 <= i < decoded.len(),
        0 <= h < heads,
        0 <= s < lens[i],
        0 <= k < d,
        span(lens, i) + s < span(lens, lens.len() as int),
        0 <= span(lens, i),
    ensures
        ({
            let at = seq_layout::flat(
                0,
                h,
                span(lens, i) + s,
                k,
                heads,
                span(lens, lens.len() as int),
                d,
            );
            decoded_store(store, decoded) matches Ok(out) && out[at] == seq_layout::by_rows(
                f,
                whole,
                d,
            )[at]
        }),
{
    let total = span(lens, lens.len() as int);
    let t = span(lens, i) + s;
    let made = Seq::new(slices.len(), |j: int| seq_layout::by_rows(f, slices[j], d));
    lemma_row_coded_is_lossless(f, decoded, slices, lens, heads, d);
    law_slices_read_back(store, made, lens, decoded, heads, d, i, h, s, k);
    assert(decoded[i] is Ok);
    assert(slices[i].len() == 1 * heads * lens[i] * d) by (nonlinear_arith)
        requires
            slices[i].len() == heads * lens[i] * d,
    ;
    assert(whole.len() == 1 * heads * total * d) by (nonlinear_arith)
        requires
            whole.len() == heads * total * d,
    ;
    seq_layout::lemma_by_rows_at(f, slices[i], 1, 0, h, s, k, heads, lens[i], d);
    seq_layout::lemma_by_rows_at(f, whole, 1, 0, h, t, k, heads, total, d);
    let from = seq_layout::flat(0, h, s, 0, heads, lens[i], d);
    let to = seq_layout::flat(0, h, t, 0, heads, total, d);
    let cut = slices[i].subrange(from, from + d);
    let uncut = whole.subrange(to, to + d);
    assert forall|q: int| 0 <= q < d implies cut[q] == uncut[q] by {
        assert(from + q == seq_layout::flat(0, h, s, q, heads, lens[i], d));
        assert(slices[i][seq_layout::flat(0, h, s, q, heads, lens[i], d)]
            == whole[seq_layout::flat(0, h, t, q, heads, total, d)]);
    }
    assert(cut =~= uncut);
}

/// A codec that works row by row, whatever it loses, gives back the whole sequence
/// row by row, head-major: where the sequence was cut into appends leaves no
/// trace in what a store decodes to.
pub proof fn law_cuts_leave_no_trace(
    f: spec_fn(Seq<u32>) -> Seq<u32>,
    store: StoreView,
    whole: Seq<u32>,
    slices: Seq<Seq<u32>>,
    lens: Seq<int>,
    decoded: Seq<Result<Vec<u32>, u64>>,
    heads: int,
    d: int,
)
    requires
        holds(store, lens, heads, d),
        row_coded(f, decoded, slices, lens, heads, d),
        joins(whole, slices, lens, heads, d),
        decoded.len() > 0,
        0 <= heads,
        0 <= d,
    ensures
        decoded_store(store, decoded) == Ok::<Seq<u32>, Error>(seq_layout::by_rows(f, whole, d)),
{
    let count = decoded.len() as int;
    let total = span(lens, count);
    let made = Seq::new(slices.len(), |j: int| seq_layout::by_rows(f, slices[j], d));
    assert forall|j: int| 0 <= j < lens.len() implies #[trigger] lens[j] >= 0 by {
        assert(decoded[j] is Ok);
    }
    lemma_row_coded_is_lossless(f, decoded, slices, lens, heads, d);
    lemma_rows_of_slice(decoded, made, lens, heads, d, count, 0, 0);
    let rows = joined(decoded, count)->Ok_0;
    let out = unpacked(store.shape, rows);
    let expected = seq_layout::by_rows(f, whole, d);
    assert(elements(store.shape) == heads * total * d) by (nonlinear_arith)
        requires
            elements(store.shape) == 1 * heads * total * d,
    ;
    assert forall|at: int| 0 <= at < whole.len() implies out[at] == expected[at] by {
        lemma_span_grows(lens, 0, count);
        assert(at < 1 * total * heads * d) by (nonlinear_arith)
            requires
                at < heads * total * d,
        ;
        seq_layout::lemma_source(at, 1, total, heads, d);
        let h = (at / d / total) % heads;
        let t = (at / d) % total;
        let k = at % d;
        assert(at == seq_layout::flat(0, h, t, k, heads, total, d));
        let i = lemma_slice_of(lens, t, count);
        lemma_span_grows(lens, 0, i);
        lemma_element_read_back(
            f,
            store,
            whole,
            slices,
            lens,
            decoded,
            heads,
            d,
            i,
            h,
            t - span(lens, i),
            k,
        );
    }
    assert(out =~= expected);
}

/// Two stores that took in one and the same sequence, cut into appends in
/// different ways, decode to the same elements, as long as the codec works row by
/// row.
pub proof fn law_stores_agree_however_cut(
    f: spec_fn(Seq<u32>) -> Seq<u32>,
    whole: Seq<u32>,
    a: StoreView,
    slices_a: Seq<Seq<u32>>,
    lens_a: Seq<int>,
    decoded_a: Seq<Result<Vec<u32>, u64>>,
    b: StoreView,
    slices_b: Seq<Seq<u32>>,
    lens_b: Seq<int>,
    decoded_b: Seq<Result<Vec<u32>, u64>>,
    heads: int,
    d: int,
)
    requires
        0 <= heads,
        0 <= d,
        holds(a, lens_a, heads, d),
        row_coded(f, decoded_a, slices_a, lens_a, heads, d),
        joins(whole, slices_a, lens_a, heads, d),
        decoded_a.len() > 0,
        holds(b, lens_b, heads, d),
        row_coded(f, decoded_b, slices_b, lens_b, heads, d),
        joins(whole, slices_b, lens_b, heads, d),
        decoded_b.len() > 0,
    ensures
        decoded_store(a, decoded_a) == decoded_store(b, decoded_b),
        decoded_store(a, decoded_a) is Ok,
        heads > 0 && d > 0 ==> a.shape == b.shape,
{
    law_cuts_leave_no_trace(f, a, whole, slices_a, lens_a, decoded_a, heads, d);
    law_cuts_leave_no_trace(f, b, whole, slices_b, lens_b, decoded_b, heads, d);
    let total_a = span(lens_a, lens_a.len() as int);
    let total_b = span(lens_b, lens_b.len() as int);
    if heads > 0 && d > 0 {
        assert(total_a == total_b) by (nonlinear_arith)
            requires
                heads * total_a * d == heads * total_b * d,
                heads > 0,
                d > 0,
        ;
        assert(a.shape =~= b.shape);
    }
}

/// One slice is itself joined.
proof fn lemma_one_slice_joins(whole: Seq<u32>, len: int, heads: int, d: int)
    requires
        whole.len() == heads * len * d,
    ensures
        joins(whole, seq![whole], seq![len], heads, d),
{
    reveal_with_fuel(span, 2);
}

/// Appending a sequence in two slices and appending it at once come to the same:
/// the stores have the same extents and decode to the same elements, as long as
/// the codec works row by row.
pub proof fn law_two_appends_are_one(
    f: spec_fn(Seq<u32>) -> Seq<u32>,
    store: StoreView,
    first: Seq<u32>,
    second: Seq<u32>,
    whole: Seq<u32>,
    shape1: Seq<i32>,
    shape2: Seq<i32>,
    shape: Seq<i32>,
    table: Seq<u32>,
    blocks: Seq<BlockView>,
    decoded: Seq<Result<Vec<u32>, u64>>,
    at_once: Seq<Result<Vec<u32>, u64>>,
)
    requires
        store.blocks.len() == 0,
        store.shape.len() != 4 || store.shape[0] == 0 || holds(
            store,
            Seq::empty(),
            shape[1] as int,
            shape[3] as int,
        ),
        table.len() > 0,
        blocks.len() == 3,
        shape.len() == 4,
        shape[0] == 1,
        shape[1] > 0,
        shape[3] > 0,
        shape1.len() == 4,
        shape2.len() == 4,
        shape1[2] >= 0,
        shape2[2] >= 0,
        shape1 == shape.update(2, shape1[2]),
        shape2 == shape.update(2, shape2[2]),
        shape[2] == shape1[2] + shape2[2],
        row_coded(
            f,
            decoded,
            seq![first, second],
            seq![shape1[2] as int, shape2[2] as int],
            shape[1] as int,
            shape[3] as int,
        ),
        row_coded(
            f,
            at_once,
            seq![whole],
            seq![shape[2] as int],
            shape[1] as int,
            shape[3] as int,
        ),
        joins(
            whole,
            seq![first, second],
            seq![shape1[2] as int, shape2[2] as int],
            shape[1] as int,
            shape[3] as int,
        ),
    ensures
        ({
            let (b0, b1, b2) = (blocks[0], blocks[1], blocks[2]);
            let once = appended(store, shape1, table, b0.codes, b0.scales, b0.norms);
            let twice = appended(once, shape2, table, b1.codes, b1.scales, b1.norms);
            let whole_store = appended(store, shape, table, b2.codes, b2.scales, b2.norms);
            &&& decoded_store(twice, decoded) == decoded_store(whole_store, at_once)
            &&& decoded_store(twice, decoded) is Ok
            &&& twice.shape == shape
            &&& whole_store.shape == shape
        }),
{
    let (b0, b1, b2) = (blocks[0], blocks[1], blocks[2]);
    let heads = shape[1] as int;
    let d = shape[3] as int;
    let none = Seq::<int>::empty();
    let once = appended(store, shape1, table, b0.codes, b0.scales, b0.norms);
    let twice = appended(once, shape2, table, b1.codes, b1.scales, b1.norms);
    let whole_store = appended(store, shape, table, b2.codes, b2.scales, b2.norms);
    law_append_adds_a_slice(store, none, shape1, table, b0.codes, b0.scales, b0.norms);
    law_append_adds_a_slice(store, none, shape, table, b2.codes, b2.scales, b2.norms);
    let one = none.push(shape1[2] as int);
    reveal_with_fuel(span, 3);
    law_append_adds_a_slice(once, one, shape2, table, b1.codes, b1.scales, b1.norms);
    let lens = seq![shape1[2] as int, shape2[2] as int];
    assert(one.push(shape2[2] as int) =~= lens);
    assert(none.push(shape[2] as int) =~= seq![shape[2] as int]);
    assert(at_once[0] is Ok);
    lemma_one_slice_joins(whole, shape[2] as int, heads, d);
    law_stores_agree_however_cut(
        f,
        whole,
        twice,
        seq![first, second],
        lens,
        decoded,
        whole_store,
        seq![whole],
        seq![shape[2] as int],
        at_once,
        heads,
        d,
    );
    assert(twice.shape =~= shape);
    assert(whole_store.shape =~= shape);
}

/// An append on the host leaves no ring behind, so that the next append on the
/// device starts from the blocks.
pub proof fn law_host_append_drops_ring(
    store: StoreView,
    shape: Seq<i32>,
    table: Seq<u32>,
    codes: Seq<u32>,
    scales: Seq<u32>,
    norms: Seq<u32>,
)
    ensures
        !appended(store, shape, table, codes, scales, norms).gpu.allocated,
        appended(store, shape, table, codes, scales, norms).blocks.len() == store.blocks.len() + 1,
{
}

/// A rotor table, once made, outlives every append.
pub proof fn law_table_is_static(
    store: StoreView,
    shape: Seq<i32>,
    table: Seq<u32>,
    codes: Seq<u32>,
    scales: Seq<u32>,
    norms: Seq<u32>,
)
    requires
        store.rotors.len() > 0,
    ensures
        appended(store, shape, table, codes, scales, norms).rotors == store.rotors,
{
}

/// A slice makes a store larger by four bytes for every word of its block, and by
/// its table where the store had none; the ring that goes is no longer counted.
pub proof fn law_append_grows_the_footprint(
    store: StoreView,
    new_shape: Seq<i32>,
    table: Seq<u32>,
    codes: Seq<u32>,
    scales: Seq<u32>,
    norms: Seq<u32>,
)
    ensures
        footprint(appended(store, new_shape, table, codes, scales, norms)) == footprint(store)
            - store.gpu.bytes + 4 * (codes.len() + scales.len() + norms.len()) + if store.rotors.len()
            == 0 {
            4 * table.len()
        } else {
            0
        },
        store.blocks.len() == 0 ==> footprint(store) == 4 * store.rotors.len() + store.gpu.bytes,
{
    let after = appended(store, new_shape, table, codes, scales, norms);
    let block = after.blocks.last();
    assert(after.blocks =~= store.blocks + seq![block]);
    rotor_blocks::law_blocks_lie_end_to_end(store.blocks, seq![block], block);
}

/// The blocks of a store decode to their rows end to end, or to the failure of the
/// first of them that fails.
pub proof fn law_first_failing_block_is_told(decoded: Seq<Result<Vec<u32>, u64>>, n: int)
    requires
        0 <= n <= decoded.len(),
    ensures
        match joined(decoded, n) {
            Ok(rows) => (forall|i: int| 0 <= i < n ==> (#[trigger] decoded[i]) is Ok) && rows.len()
                == total_len(decoded, n),
            Err(code) => exists|i: int|
                0 <= i < n && #[trigger] decoded[i] == Err::<Vec<u32>, u64>(code) && forall|j: int|
                    0 <= j < i ==> (#[trigger] decoded[j]) is Ok,
        },
    decreases n,
{
    if n > 0 {
        law_first_failing_block_is_told(decoded, n - 1);
        if let Ok(_) = joined(decoded, n - 1) {
            if let Err(code) = decoded[n - 1] {
                assert(decoded[n - 1] == Err::<Vec<u32>, u64>(code));
            }
        }
    }
}

/// The elements that the first `n` blocks decode to together.
pub open spec fn total_len(decoded: Seq<Result<Vec<u32>, u64>>, n: int) -> int
    decreases n,
{
    if n <= 0 {
        0
    } else {
        total_len(decoded, n - 1) + match decoded[n - 1] {
            Ok(row) => row@.len() as int,
            Err(_) => 0,
        }
    }
}

/// Whatever its blocks decode to, a store decodes to as many elements as its
/// recorded extents count, zero where no block reaches: position `t` of head `h` is
/// the element in row `t`, head `h` of the sequence-major rows.
pub proof fn law_decoded_store_has_its_extents(
    store: StoreView,
    decoded: Seq<Result<Vec<u32>, u64>>,
    b: int,
    h: int,
    t: int,
    j: int,
)
    requires
        store.shape.len() == 4,
        countable(store.shape),
        store.rotors.len() > 0,
        store.blocks.len() > 0,
        0 <= b < store.shape[0],
        0 <= h < store.shape[1],
        0 <= t < store.shape[2],
        0 <= j < store.shape[3],
    ensures
        match decoded_store(store, decoded) {
            Ok(out) => {
                let heads = store.shape[1] as int;
                let seq = store.shape[2] as int;
                let d = store.shape[3] as int;
                let at = ((b * seq + t) * heads + h) * d + j;
                let to = ((b * heads + h) * seq + t) * d + j;
                &&& out.len() == elements(store.shape)
                &&& 0 <= to < out.len()
                &&& joined(decoded, decoded.len() as int) matches Ok(rows) && out[to] == if at
                    < rows.len() {
                    rows[at]
                } else {
                    0
                }
            },
            Err(e) => joined(decoded, decoded.len() as int) matches Err(code) && e
                == Error::RotorDecode(code),
        },
{
    if let Ok(rows) = joined(decoded, decoded.len() as int) {
        let batch = store.shape[0] as int;
        let heads = store.shape[1] as int;
        let seq = store.shape[2] as int;
        let d = store.shape[3] as int;
        let data = fitted(rows, elements(store.shape));
        assert(batch * heads * seq * d >= 0) by (nonlinear_arith)
            requires
                batch >= 0,
                heads >= 0,
                seq >= 0,
                d >= 0,
        ;
        assert(batch * seq * heads * d == batch * heads * seq * d) by (nonlinear_arith);
        seq_layout::law_swap_exchanges_middle_axes(data, batch, b, t, h, j, seq, heads, d);
    }
}

/// What keeps a store from being decoded: a shape of another rank, or no table; and
/// without a block there is nothing but zeros in it.
pub proof fn law_undecodable_store_is_told(store: StoreView, decoded: Seq<Result<Vec<u32>, u64>>)
    ensures
        store.shape.len() != 4 ==> decoded_store(store, decoded) == Err::<Seq<u32>, Error>(
            Error::MalformedShape(store.shape.len() as usize),
        ),
        store.shape.len() == 4 && store.rotors.len() == 0 ==> decoded_store(store, decoded) == Err::<
            Seq<u32>,
            Error,
        >(Error::RotorTableEmpty),
        store.shape.len() == 4 && countable(store.shape) && store.rotors.len() > 0
            && store.blocks.len() == 0 ==> (decoded_store(store, decoded) matches Ok(out) && out.len()
            == elements(store.shape) && forall|i: int| 0 <= i < out.len() ==> #[trigger] out[i] == 0),
{
    if store.shape.len() == 4 && countable(store.shape) {
        let a = store.shape[0] as int;
        let b = store.shape[1] as int;
        let c = store.shape[2] as int;
        let d = store.shape[3] as int;
        assert(a * b * c * d >= 0) by (nonlinear_arith)
            requires
                a >= 0,
                b >= 0,
                c >= 0,
                d >= 0,
        ;
    }
}

/// The rows of a longer prefix are no fewer.
proof fn lemma_tokens_grow(blocks: Seq<BlockView>, m: int, n: int)
    requires
        0 <= m <= n <= blocks.len(),
    ensures
        rotor_blocks::tokens(blocks.take(m)) <= rotor_blocks::tokens(blocks.take(n)),
    decreases n - m,
{
    if m < n {
        lemma_tokens_grow(blocks, m, n - 1);
        assert(blocks.take(n).drop_last() =~= blocks.take(n - 1));
    }
}

/// A store that is cut to `n` rows keeps every prefix of its blocks that fits into
/// them, and no other: the first block that reaches past row `n` goes, and all that
/// follow it.
pub proof fn law_cut_keeps_what_fits(blocks: Seq<BlockView>, keep: int, n: int, m: int)
    requires
        longest_fit(blocks, keep, n),
        0 <= m <= blocks.len(),
    ensures
        0 <= keep <= blocks.len(),
        rotor_blocks::tokens(blocks.take(m)) <= n <==> m <= keep,
{
    if m <= keep {
        lemma_tokens_grow(blocks, m, keep);
    } else {
        lemma_tokens_grow(blocks, keep + 1, m);
    }
}

/// A ring that is dropped is not live and takes no bytes.
pub proof fn law_dropped_ring_takes_nothing(store: StoreView)
    ensures
        !no_ring().allocated,
        footprint(StoreView { gpu: no_ring(), ..store }) == footprint(store) - store.gpu.bytes,
{
}

/// An append lays its block behind those that are there, with one row to each batch
/// entry, head and position of the slice. The recorded extents are those of the
/// slice where there were none, else only the third one grows, by the positions of
/// the slice. What the store was made with stays.
pub proof fn law_append_lays_its_block_last(
    store: StoreView,
    new_shape: Seq<i32>,
    table: Seq<u32>,
    codes: Seq<u32>,
    scales: Seq<u32>,
    norms: Seq<u32>,
)
    requires
        countable(new_shape),
        grown_fits(store.shape, new_shape),
    ensures
        ({
            let after = appended(store, new_shape, table, codes, scales, norms);
            let last = after.blocks.last();
            &&& after.blocks.len() == store.blocks.len() + 1
            &&& after.blocks.drop_last() == store.blocks
            &&& last.codes == codes
            &&& last.scales == scales
            &&& last.norms == norms
            &&& last.n_tokens == new_shape[0] * new_shape[1] * new_shape[2]
            &&& after.shape.len() == 4
            &&& if store.shape.len() != 4 || store.shape[0] == 0 {
                after.shape == new_shape
            } else {
                &&& after.shape[0] == store.shape[0]
                &&& after.shape[1] == store.shape[1]
                &&& after.shape[2] == store.shape[2] + new_shape[2]
                &&& after.shape[3] == store.shape[3]
            }
            &&& after.max_seq == store.max_seq
            &&& after.layer_idx == store.layer_idx
            &&& after.head_idx == store.head_idx
            &&& after.bits == store.bits
        }),
{
    let a = new_shape[0] as int;
    let b = new_shape[1] as int;
    let c = new_shape[2] as int;
    assert(a * b * c >= 0) by (nonlinear_arith)
        requires
            a >= 0,
            b >= 0,
            c >= 0,
    ;
    let after = appended(store, new_shape, table, codes, scales, norms);
    assert(after.blocks.drop_last() =~= store.blocks);
}

} // verus!
