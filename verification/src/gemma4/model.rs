//! The forward passes of the model.
//!
//! A pass embeds its tokens, computes the input of every layer where the model
//! has such inputs, runs the layers in order, and reads off what was asked for.
//! A layer whose K/V come from another layer is handed what that layer left; all
//! others hold a cache where the pass has caches.
use vstd::prelude::*;

use crate::error::{Error, LayerType};
use crate::gemma4::decoder_layer::{DecoderLayer, LayerCall};
use crate::gemma4::ids::ids_to_bytes;
use crate::gemma4::program::{Factor, Op, Program, ProgramView, Weight};
use crate::gemma4::{attention, ids};
use crate::kvcache::request::{KvCache, Toggles};
use crate::kvcache::step::SharedKvOut;
use crate::tensor::{Device, Dims, Tensor};

verus! {

/// The extents of a model.
#[derive(Debug)]
pub struct Gemma4TextConfig {
    pub hidden_size: usize,
    pub num_hidden_layers: usize,
    pub hidden_size_per_layer_input: usize,
    /// The cap of the final logits, by bit pattern.
    pub final_logit_softcapping: u32,
    pub layer_types: Vec<LayerType>,
}

/// A model, but for its weights.
#[derive(Debug)]
pub struct Gemma4Text {
    pub cfg: Gemma4TextConfig,
    pub has_embed_tokens_per_layer: bool,
    pub has_per_layer_model_proj: bool,
    pub has_per_layer_proj_norm: bool,
    pub layers: Vec<DecoderLayer>,
    /// The layer whose K/V each layer attends: itself, or an earlier one.
    pub previous_kvs: Vec<usize>,
}

impl Gemma4Text {
    /// The number of layers.
    pub open spec fn depth(self) -> int {
        self.cfg.num_hidden_layers as int
    }

    /// Every layer is described, and its K/V come from a layer of the model.
    pub open spec fn valid(self) -> bool {
        &&& self.layers@.len() == self.depth()
        &&& self.previous_kvs@.len() == self.depth()
        &&& self.cfg.layer_types@.len() == self.depth()
        &&& 2 * self.depth() + 12 <= i32::MAX
        &&& forall|i: int|
            0 <= i < self.depth() ==> #[trigger] self.previous_kvs@[i] < self.depth()
    }

    /// Whether `n` caches, one per layer from the first on, reach every layer that
    /// holds one. A layer that shares K/V holds none.
    pub open spec fn served_by(self, n: int) -> bool {
        forall|i: int|
            0 <= i < self.depth() && (#[trigger] self.previous_kvs@[i]) == i ==> i < n
    }

    /// Whether the layers have inputs of their own.
    pub open spec fn has_layer_inputs(self) -> bool {
        self.has_embed_tokens_per_layer && self.has_per_layer_model_proj
            && self.has_per_layer_proj_norm
    }
}

/// The offset that positions are counted from: that of the first cache that
/// holds K/V which survive a spill, else that of the first cache, else zero. A
/// ring that was read back after a spill reports an offset without any K/V.
pub open spec fn base_offset(caches: Seq<KvCache>) -> i32 {
    match first_persistent(caches, 0) {
        Some(offset) => offset,
        None => if caches.len() == 0 {
            0
        } else {
            caches[0].offset
        },
    }
}

/// The offset of the first cache from `from` on that holds K/V which survive a
/// spill.
pub open spec fn first_persistent(caches: Seq<KvCache>, from: int) -> Option<i32>
    decreases caches.len() - from,
{
    if from < 0 || from >= caches.len() {
        None
    } else if caches[from].persistent {
        Some(caches[from].offset)
    } else {
        first_persistent(caches, from + 1)
    }
}

/// The offset that positions are counted from.
pub fn cache_base_offset(caches: Option<&[KvCache]>) -> (r: i32)
    ensures
        r == match caches {
            None => 0,
            Some(cs) => base_offset(cs@),
        },
{
    let cs: &[KvCache] = match caches {
        None => return 0,
        Some(cs) => cs,
    };
    let n: usize = cs.len();
    let mut i: usize = 0;
    while i < n
        invariant
            caches == Some(cs),
            n == cs@.len(),
            i <= n,
            first_persistent(cs@, 0) == first_persistent(cs@, i as int),
        decreases n - i,
    {
        if cs[i].has_persistent_cache() {
            return cs[i].offset();
        }
        i = i + 1;
    }
    if n == 0 {
        0
    } else {
        cs[0].offset()
    }
}

/// What a pass reads off in the end.
#[derive(Clone, Copy, PartialEq, Eq, Structural, Debug)]
pub enum Tail {
    /// The logits of the last position.
    LastLogits,
    /// The logits of every position.
    AllLogits,
    /// The logits of the last `k` positions.
    LastKLogits { k: i32 },
    /// The stream of the last `k` positions, in front of the final norm.
    Hidden { k: i32 },
    /// The same, with the K/V of the last layer of each kind.
    SharedHidden { k: i32 },
    /// Nothing but the scaled embedding of one token, in full precision.
    Embedding,
}

/// What a pass comes to.
#[derive(Clone, Copy, PartialEq, Eq, Debug)]
pub enum Forward {
    Logits(Tensor),
    Hidden(Tensor),
    /// The stream, the K/V of the last sliding layer, those of the last full
    /// layer, and the offset that positions were counted from.
    SharedHidden { hidden: Tensor, sliding: (Tensor, Tensor), full: (Tensor, Tensor), offset: i32 },
}

/// Where a pass stands: what it waits for.
#[derive(Clone, Copy, PartialEq, Eq, Structural, Debug)]
pub enum ForwardStage {
    /// The ids on the device.
    Ids,
    /// The embedded tokens.
    Embed,
    /// The inputs of the layers.
    LayerInputs,
    /// A layer.
    Layer { layer: usize },
    /// What is read off in the end.
    Tail,
}

/// A pass.
#[derive(Debug)]
pub struct ForwardRun {
    pub seq: i32,
    pub tail: Tail,
    pub device: Device,
    pub toggles: Toggles,
    /// The offset that positions are counted from.
    pub base_offset: i32,
    /// The offset of each cache, where the pass has caches.
    pub offsets: Option<Vec<i32>>,
    /// For each layer, whether the K that it attends comes out of a ring.
    pub kv_is_rotating: Vec<bool>,
    pub ids: Tensor,
    /// The residual stream.
    pub h: Tensor,
    /// The input of each layer, where the layers have inputs of their own.
    pub per_layer_inputs: Option<Vec<Tensor>>,
    /// What each layer left to others.
    pub stored_kvs: Vec<Option<SharedKvOut>>,
    pub stage: ForwardStage,
}

/// A pass, by contents.
#[verifier::ext_equal]
pub struct RunView {
    pub seq: i32,
    pub tail: Tail,
    pub device: Device,
    pub toggles: Toggles,
    pub base_offset: i32,
    pub offsets: Option<Seq<i32>>,
    pub kv_is_rotating: Seq<bool>,
    pub ids: Tensor,
    pub h: Tensor,
    pub per_layer_inputs: Option<Seq<Tensor>>,
    pub stored_kvs: Seq<Option<SharedKvOut>>,
    pub stage: ForwardStage,
}

impl View for ForwardRun {
    type V = RunView;

    open spec fn view(&self) -> RunView {
        RunView {
            seq: self.seq,
            tail: self.tail,
            device: self.device,
            toggles: self.toggles,
            base_offset: self.base_offset,
            offsets: match self.offsets {
                Some(v) => Some(v@),
                None => None,
            },
            kv_is_rotating: self.kv_is_rotating@,
            ids: self.ids,
            h: self.h,
            per_layer_inputs: match self.per_layer_inputs {
                Some(v) => Some(v@),
                None => None,
            },
            stored_kvs: self.stored_kvs@,
            stage: self.stage,
        }
    }
}

/// A pass that fits its model.
pub open spec fn fits(model: Gemma4Text, run: RunView) -> bool {
    &&& run.kv_is_rotating.len() == model.depth()
    &&& run.stored_kvs.len() == model.depth()
    &&& (run.offsets matches Some(o) ==> model.served_by(o.len() as int))
    &&& (run.per_layer_inputs matches Some(p) ==> p.len() == model.depth())
    &&& (run.stage matches ForwardStage::Layer { layer } ==> layer < model.depth())
    &&& match run.tail {
        Tail::LastKLogits { k } => 1 <= k <= run.seq,
        Tail::Hidden { k } => 1 <= k <= run.seq,
        Tail::SharedHidden { k } => 1 <= k <= run.seq,
        _ => run.seq > i32::MIN,
    }
}

/// The next thing that a pass does.
#[derive(Debug)]
pub enum ForwardStep {
    /// Bring ids to the device, as `len` signed 32-bit words.
    Upload { run: ForwardRun, bytes: Vec<u8>, len: i32 },
    /// Carry out a program.
    Run { run: ForwardRun, program: Program },
    /// Run a layer.
    Layer { run: ForwardRun, layer: usize, call: LayerCall },
    Done(Result<Forward, Error>),
}

/// The next thing that a pass does, by contents.
pub enum ForwardStepView {
    Upload { run: RunView, bytes: Seq<u8>, len: i32 },
    Run { run: RunView, program: ProgramView },
    Layer { run: RunView, layer: usize, call: LayerCall },
    Done(Result<Forward, Error>),
}

impl View for ForwardStep {
    type V = ForwardStepView;

    open spec fn view(&self) -> ForwardStepView {
        match self {
            ForwardStep::Upload { run, bytes, len } => ForwardStepView::Upload {
                run: run@,
                bytes: bytes@,
                len: *len,
            },
            ForwardStep::Run { run, program } => ForwardStepView::Run {
                run: run@,
                program: program@,
            },
            ForwardStep::Layer { run, layer, call } => ForwardStepView::Layer {
                run: run@,
                layer: *layer,
                call: *call,
            },
            ForwardStep::Done(result) => ForwardStepView::Done(*result),
        }
    }
}

/// For each layer, whether the K that it attends comes out of a ring: that is
/// for the cache of the layer whose K/V it attends to say.
pub open spec fn rings(model: Gemma4Text, caches: Option<Seq<KvCache>>) -> Seq<bool> {
    Seq::new(
        model.depth() as nat,
        |i: int|
            match caches {
                None => false,
                Some(cs) => model.previous_kvs@[i] < cs.len()
                    && cs[model.previous_kvs@[i] as int].rotating,
            },
    )
}

/// The offsets of the caches.
pub open spec fn offsets_of(caches: Seq<KvCache>) -> Seq<i32> {
    Seq::new(caches.len(), |i: int| caches[i].offset)
}

/// A tensor of which nothing is known yet.
pub open spec fn no_tensor() -> Tensor {
    Tensor {
        id: 0,
        shape: crate::tensor::Shape { rank: 0, d0: 0, d1: 0, d2: 0, d3: 0, last: 0 },
        dtype: crate::tensor::Dtype::I32,
    }
}

/// A pass before its first step.
pub open spec fn fresh(
    model: Gemma4Text,
    seq: i32,
    tail: Tail,
    caches: Option<Seq<KvCache>>,
    device: Device,
    toggles: Toggles,
) -> RunView {
    RunView {
        seq,
        tail,
        device,
        toggles,
        base_offset: match caches {
            None => 0,
            Some(cs) => base_offset(cs),
        },
        offsets: match caches {
            None => None,
            Some(cs) => Some(offsets_of(cs)),
        },
        kv_is_rotating: rings(model, caches),
        ids: no_tensor(),
        h: no_tensor(),
        per_layer_inputs: None,
        stored_kvs: Seq::new(model.depth() as nat, |i: int| None),
        stage: ForwardStage::Ids,
    }
}

/// The ids brought to the device.
pub open spec fn uploading(run: RunView, prompt: Seq<u32>) -> ForwardStepView {
    ForwardStepView::Upload {
        run: RunView { stage: ForwardStage::Ids, ..run },
        bytes: ids::id_bytes(prompt),
        len: prompt.len() as i32,
    }
}

/// The embedded tokens, scaled in their own element type: a constant in full
/// precision would widen the whole stream.
pub open spec fn embed_program(model: Gemma4Text, run: RunView) -> ProgramView {
    let hidden = model.cfg.hidden_size;
    ProgramView {
        inputs: seq![run.ids],
        ops: if run.tail is Embedding {
            seq![
                Op::Embed { weight: Weight::EmbedTokens, ids: 0 },
                Op::Reshape { x: 1, dims: Dims::D3(1, 1, hidden as i32) },
                Op::ScaleWide { x: 2, by: Factor::Sqrt(hidden) },
            ]
        } else {
            seq![
                Op::Embed { weight: Weight::EmbedTokens, ids: 0 },
                Op::ScaleLike { x: 1, by: Factor::Sqrt(hidden) },
                Op::Reshape { x: 2, dims: Dims::D3(1, run.seq, hidden as i32) },
            ]
        },
    }
}

/// The tokens embedded.
pub open spec fn embedding(model: Gemma4Text, run: RunView, on_device: Tensor) -> ForwardStepView {
    let ready = RunView { ids: on_device, stage: ForwardStage::Embed, ..run };
    ForwardStepView::Run { run: ready, program: embed_program(model, ready) }
}

/// The operations that every input of a layer starts from: the embedding of the
/// tokens for all layers and the projected stream, each scaled, summed, and
/// scaled again.
pub open spec fn layer_input_front(model: Gemma4Text, seq: i32) -> Seq<Op> {
    let n = model.cfg.num_hidden_layers;
    let d = model.cfg.hidden_size_per_layer_input;
    let split = Dims::D4(1, seq, n as i32, d as i32);
    seq![
        Op::Embed { weight: Weight::EmbedTokensPerLayer, ids: 0 },
        Op::ScaleLike { x: 2, by: Factor::Sqrt(d) },
        Op::Reshape { x: 3, dims: split },
        Op::Linear { weight: Weight::PerLayerModelProj, x: 1 },
        Op::ScaleLike { x: 5, by: Factor::InvSqrt(model.cfg.hidden_size) },
        Op::Reshape { x: 6, dims: split },
        Op::Norm { weight: Weight::PerLayerProjNorm, x: 7 },
        Op::Add { a: 8, b: 4 },
        Op::ScaleLike { x: 9, by: Factor::InvSqrt(2) },
    ]
}

/// The operations that cut the inputs of the first `n` layers out of the sum,
/// two to each.
pub open spec fn layer_input_cuts(model: Gemma4Text, seq: i32, n: int) -> Seq<Op> {
    let d = model.cfg.hidden_size_per_layer_input;
    Seq::new(
        (2 * n) as nat,
        |j: int|
            if j % 2 == 0 {
                Op::Plane { x: 10, i: (j / 2) as i32, seq, n: d as i32 }
            } else {
                Op::Reshape { x: (11 + j - 1) as usize, dims: Dims::D3(1, seq, d as i32) }
            },
    )
}

/// The inputs of all layers, position by position.
pub open spec fn layer_inputs_program(
    model: Gemma4Text,
    on_device: Tensor,
    h: Tensor,
    seq: i32,
) -> ProgramView {
    ProgramView {
        inputs: seq![on_device, h],
        ops: layer_input_front(model, seq) + layer_input_cuts(model, seq, model.depth()),
    }
}

/// The inputs of the layers computed, where the layers have any.
pub open spec fn preparing(model: Gemma4Text, run: RunView, h: Tensor) -> ForwardStepView {
    let ready = RunView { h, ..run };
    if !model.has_layer_inputs() {
        at_layer(model, RunView { per_layer_inputs: None, ..ready }, 0)
    } else {
        match run.ids.shape.at(0) {
            None => ForwardStepView::Done(Err(Error::NoStepAxis { shape: run.ids.shape })),
            Some(seq) => ForwardStepView::Run {
                run: RunView { stage: ForwardStage::LayerInputs, ..ready },
                program: layer_inputs_program(model, run.ids, h, seq),
            },
        }
    }
}

/// The input of each layer, out of what the program wrote.
pub open spec fn cut_inputs(model: Gemma4Text, results: Seq<Tensor>) -> Seq<Tensor> {
    Seq::new(model.depth() as nat, |i: int| results[10 + 2 * i])
}

/// The call of a layer. What another layer left comes with it where the layer
/// shares K/V; a cache comes with it only where it does not.
pub open spec fn layer_call(model: Gemma4Text, run: RunView, i: int) -> LayerCall {
    let source = model.previous_kvs@[i] as int;
    LayerCall {
        x: run.h,
        shared_kv: if source == i {
            None
        } else {
            run.stored_kvs[source]
        },
        per_layer_input: match run.per_layer_inputs {
            Some(p) => Some(p[i]),
            None => None,
        },
        offset: run.base_offset,
        cache: match run.offsets {
            Some(o) if source == i => Some(o[i]),
            _ => None,
        },
        kv_is_rotating: run.kv_is_rotating[i],
        device: run.device,
        toggles: run.toggles,
    }
}

/// The layers from `i` on, and then what is read off.
pub open spec fn at_layer(model: Gemma4Text, run: RunView, i: int) -> ForwardStepView {
    if i < model.depth() {
        ForwardStepView::Layer {
            run: RunView { stage: ForwardStage::Layer { layer: i as usize }, ..run },
            layer: i as usize,
            call: layer_call(model, run, i),
        }
    } else {
        reading(model, run)
    }
}

/// The bf16 K/V left by the last of the first `n` layers that is of a kind and
/// left any.
pub open spec fn last_bf16(
    types: Seq<LayerType>,
    stored: Seq<Option<SharedKvOut>>,
    want: LayerType,
    n: int,
) -> Option<(Tensor, Tensor)>
    decreases n,
{
    if n <= 0 {
        None
    } else {
        match stored[n - 1] {
            Some(SharedKvOut::Bf16(k, v)) if types[n - 1] == want => Some((k, v)),
            _ => last_bf16(types, stored, want, n - 1),
        }
    }
}

/// The K/V that a pass leaves to a drafter.
pub open spec fn picked(model: Gemma4Text, run: RunView) -> Result<
    ((Tensor, Tensor), (Tensor, Tensor)),
    Error,
> {
    let pick = |want: LayerType|
        last_bf16(model.cfg.layer_types@, run.stored_kvs, want, model.depth());
    match pick(LayerType::SlidingAttention) {
        None => Err(Error::NoLayerKv(LayerType::SlidingAttention)),
        Some(sliding) => match pick(LayerType::FullAttention) {
            None => Err(Error::NoLayerKv(LayerType::FullAttention)),
            Some(full) => Ok((sliding, full)),
        },
    }
}

/// The last `k` positions of the stream in register `x`.
pub open spec fn last_positions(model: Gemma4Text, seq: i32, k: i32, x: int) -> Seq<Op> {
    let hidden = model.cfg.hidden_size as i32;
    seq![
        Op::Positions { x: x as usize, from: (seq - k) as i32, to: seq, n: hidden },
        Op::Reshape { x: (x + 1) as usize, dims: Dims::D3(1, k, hidden) },
    ]
}

/// The head: logits of the normed stream in register `x`, capped.
pub open spec fn head_ops(model: Gemma4Text, x: int) -> Seq<Op> {
    seq![
        Op::AsLinear { weight: Weight::EmbedTokens, x: x as usize },
        Op::Softcap { x: (x + 1) as usize, cap: model.cfg.final_logit_softcapping },
    ]
}

/// The final norm of the stream in register 0.
pub open spec fn final_norm() -> Op {
    Op::Norm { weight: Weight::FinalNorm, x: 0 }
}

/// The logits of a stream in front of the final norm.
pub open spec fn head_program(model: Gemma4Text, hidden: Tensor) -> ProgramView {
    ProgramView { inputs: seq![hidden], ops: seq![final_norm()] + head_ops(model, 1) }
}

/// What is read off, from the stream `h`.
pub open spec fn tail_program(model: Gemma4Text, run: RunView) -> ProgramView {
    ProgramView {
        inputs: seq![run.h],
        ops: match run.tail {
            Tail::LastLogits => seq![final_norm()] + last_positions(model, run.seq, 1, 1)
                + head_ops(model, 3),
            Tail::AllLogits => seq![final_norm()] + head_ops(model, 1),
            Tail::LastKLogits { k } => seq![final_norm()] + last_positions(model, run.seq, k, 1)
                + head_ops(model, 3),
            Tail::Hidden { k } => last_positions(model, run.seq, k, 0),
            Tail::SharedHidden { k } => last_positions(model, run.seq, k, 0),
            Tail::Embedding => Seq::empty(),
        },
    }
}

/// What is read off behind the last layer. A pass that leaves K/V to a drafter
/// needs those of both kinds of layers.
pub open spec fn reading(model: Gemma4Text, run: RunView) -> ForwardStepView {
    let step = ForwardStepView::Run {
        run: RunView { stage: ForwardStage::Tail, ..run },
        program: tail_program(model, run),
    };
    if run.tail is SharedHidden {
        match picked(model, run) {
            Err(e) => ForwardStepView::Done(Err(e)),
            Ok(_) => step,
        }
    } else {
        step
    }
}

/// What a pass comes to, once its last program has run.
pub open spec fn ending(model: Gemma4Text, run: RunView, last: Tensor) -> ForwardStepView {
    match run.tail {
        Tail::Hidden { .. } => ForwardStepView::Done(Ok(Forward::Hidden(last))),
        Tail::SharedHidden { .. } => match picked(model, run) {
            Err(e) => ForwardStepView::Done(Err(e)),
            Ok((sliding, full)) => ForwardStepView::Done(
                Ok(Forward::SharedHidden { hidden: last, sliding, full, offset: run.base_offset }),
            ),
        },
        _ => ForwardStepView::Done(Ok(Forward::Logits(last))),
    }
}

/// How a pass goes on with the ids on the device.
pub open spec fn uploaded(
    model: Gemma4Text,
    run: RunView,
    on_device: Result<Tensor, u64>,
) -> ForwardStepView {
    match (run.stage, on_device) {
        (_, Err(code)) => ForwardStepView::Done(Err(Error::Outside(code))),
        (ForwardStage::Ids, Ok(t)) => embedding(model, run, t),
        _ => ForwardStepView::Done(Err(Error::Protocol)),
    }
}

/// How a pass goes on with what a program wrote.
pub open spec fn ran(
    model: Gemma4Text,
    run: RunView,
    results: Result<Seq<Tensor>, u64>,
) -> ForwardStepView {
    match (run.stage, results) {
        (_, Err(code)) => ForwardStepView::Done(Err(Error::Outside(code))),
        (ForwardStage::Embed, Ok(r)) if r.len() == 3 => if run.tail is Embedding {
            ForwardStepView::Done(Ok(Forward::Hidden(r[2])))
        } else {
            preparing(model, run, r[2])
        },
        (ForwardStage::LayerInputs, Ok(r)) if r.len() == 9 + 2 * model.depth() => at_layer(
            model,
            RunView { per_layer_inputs: Some(cut_inputs(model, r)), ..run },
            0,
        ),
        (ForwardStage::Tail, Ok(r)) if r.len() > 0 && r.len() == tail_program(
            model,
            run,
        ).ops.len() => ending(model, run, r.last()),
        _ => ForwardStepView::Done(Err(Error::Protocol)),
    }
}

/// How a pass goes on with the outcome of a layer: its output becomes the
/// stream, and what it left is kept.
pub open spec fn layered(
    model: Gemma4Text,
    run: RunView,
    outcome: Result<(Tensor, Option<SharedKvOut>), Error>,
) -> ForwardStepView {
    match (run.stage, outcome) {
        (_, Err(e)) => ForwardStepView::Done(Err(e)),
        (ForwardStage::Layer { layer }, Ok((h, new_kv))) => at_layer(
            model,
            RunView {
                h,
                stored_kvs: match new_kv {
                    Some(kv) => run.stored_kvs.update(layer as int, Some(kv)),
                    None => run.stored_kvs,
                },
                ..run
            },
            layer + 1,
        ),
        _ => ForwardStepView::Done(Err(Error::Protocol)),
    }
}

fn fail(e: Error) -> (r: ForwardStep)
    ensures
        r@ == ForwardStepView::Done(Err(e)),
{
    ForwardStep::Done(Err(e))
}

fn blank() -> (r: Tensor)
    ensures
        r == no_tensor(),
{
    Tensor {
        id: 0,
        shape: crate::tensor::Shape { rank: 0, d0: 0, d1: 0, d2: 0, d3: 0, last: 0 },
        dtype: crate::tensor::Dtype::I32,
    }
}

/// The caches of a pass, by contents.
pub open spec fn caches_view(caches: Option<&[KvCache]>) -> Option<Seq<KvCache>> {
    match caches {
        Some(cs) => Some(cs@),
        None => None,
    }
}

/// Whether a number of positions is between one and the length of a prompt.
pub open spec fn in_range(k: int, seq: int) -> bool {
    1 <= k <= seq
}

/// Whether the caches of a pass, where it has any, reach every layer that holds
/// one.
pub open spec fn caches_fit(model: Gemma4Text, caches: Option<&[KvCache]>) -> bool {
    caches matches Some(cs) ==> model.served_by(cs@.len() as int)
}

fn collect_offsets(cs: &[KvCache]) -> (r: Vec<i32>)
    ensures
        r@ == offsets_of(cs@),
{
    let n: usize = cs.len();
    let mut out: Vec<i32> = Vec::with_capacity(n);
    let mut i: usize = 0;
    while i < n
        invariant
            n == cs@.len(),
            i <= n,
            out@.len() == i,
            forall|p: int| 0 <= p < i ==> #[trigger] out@[p] == cs@[p].offset,
        decreases n - i,
    {
        out.push(cs[i].offset());
        i = i + 1;
    }
    assert(out@ =~= offsets_of(cs@));
    out
}

fn collect_rings(model: &Gemma4Text, caches: Option<&[KvCache]>) -> (r: Vec<bool>)
    requires
        model.valid(),
    ensures
        r@ == rings(*model, caches_view(caches)),
{
    let n: usize = model.cfg.num_hidden_layers;
    let mut out: Vec<bool> = Vec::with_capacity(n);
    let mut i: usize = 0;
    while i < n
        invariant
            model.valid(),
            n == model.depth(),
            i <= n,
            out@.len() == i,
            forall|p: int|
                0 <= p < i ==> #[trigger] out@[p] == rings(*model, caches_view(caches))[p],
        decreases n - i,
    {
        let source: usize = model.previous_kvs[i];
        let ring: bool = match caches {
            None => false,
            Some(cs) => source < cs.len() && cs[source].is_rotating(),
        };
        out.push(ring);
        i = i + 1;
    }
    assert(out@ =~= rings(*model, caches_view(caches)));
    out
}

fn begin(
    model: &Gemma4Text,
    seq: i32,
    tail: Tail,
    caches: Option<&[KvCache]>,
    device: Device,
    toggles: Toggles,
) -> (r: ForwardRun)
    requires
        model.valid(),
        caches_fit(*model, caches),
    ensures
        r@ == fresh(*model, seq, tail, caches_view(caches), device, toggles),
{
    let offsets: Option<Vec<i32>> = match caches {
        None => None,
        Some(cs) => Some(collect_offsets(cs)),
    };
    let n: usize = model.cfg.num_hidden_layers;
    let mut stored_kvs: Vec<Option<SharedKvOut>> = Vec::with_capacity(n);
    let mut i: usize = 0;
    while i < n
        invariant
            i <= n,
            stored_kvs@.len() == i,
            forall|p: int| 0 <= p < i ==> #[trigger] stored_kvs@[p] is None,
        decreases n - i,
    {
        stored_kvs.push(None);
        i = i + 1;
    }
    let run: ForwardRun = ForwardRun {
        seq,
        tail,
        device,
        toggles,
        base_offset: cache_base_offset(caches),
        offsets,
        kv_is_rotating: collect_rings(model, caches),
        ids: blank(),
        h: blank(),
        per_layer_inputs: None,
        stored_kvs,
        stage: ForwardStage::Ids,
    };
    assert(run@ =~= fresh(*model, seq, tail, caches_view(caches), device, toggles));
    run
}

fn upload(run: ForwardRun, prompt: &[u32]) -> (r: ForwardStep)
    ensures
        r@ == uploading(run@, prompt@),
{
    let mut run: ForwardRun = run;
    run.stage = ForwardStage::Ids;
    ForwardStep::Upload { run, bytes: ids_to_bytes(prompt), len: prompt.len() as i32 }
}

fn embed(model: &Gemma4Text, run: ForwardRun, on_device: Tensor) -> (r: ForwardStep)
    ensures
        r@ == embedding(*model, run@, on_device),
{
    let mut run: ForwardRun = run;
    run.ids = on_device;
    run.stage = ForwardStage::Embed;
    let hidden: usize = model.cfg.hidden_size;
    let ops: Vec<Op> = match run.tail {
        Tail::Embedding => vec![
            Op::Embed { weight: Weight::EmbedTokens, ids: 0 },
            Op::Reshape { x: 1, dims: Dims::D3(1, 1, hidden as i32) },
            Op::ScaleWide { x: 2, by: Factor::Sqrt(hidden) },
        ],
        _ => vec![
            Op::Embed { weight: Weight::EmbedTokens, ids: 0 },
            Op::ScaleLike { x: 1, by: Factor::Sqrt(hidden) },
            Op::Reshape { x: 2, dims: Dims::D3(1, run.seq, hidden as i32) },
        ],
    };
    let program: Program = Program { inputs: vec![on_device], ops };
    assert(program@ =~= embed_program(*model, run@));
    ForwardStep::Run { run, program }
}

/// The program of the inputs of all layers.
fn compute_per_layer_inputs(model: &Gemma4Text, on_device: Tensor, h: Tensor, seq: i32) -> (r: Program)
    requires
        model.valid(),
    ensures
        r@ == layer_inputs_program(*model, on_device, h, seq),
{
    let n: usize = model.cfg.num_hidden_layers;
    let d: usize = model.cfg.hidden_size_per_layer_input;
    let split: Dims = Dims::D4(1, seq, n as i32, d as i32);
    let mut ops: Vec<Op> = vec![
        Op::Embed { weight: Weight::EmbedTokensPerLayer, ids: 0 },
        Op::ScaleLike { x: 2, by: Factor::Sqrt(d) },
        Op::Reshape { x: 3, dims: split },
        Op::Linear { weight: Weight::PerLayerModelProj, x: 1 },
        Op::ScaleLike { x: 5, by: Factor::InvSqrt(model.cfg.hidden_size) },
        Op::Reshape { x: 6, dims: split },
        Op::Norm { weight: Weight::PerLayerProjNorm, x: 7 },
        Op::Add { a: 8, b: 4 },
        Op::ScaleLike { x: 9, by: Factor::InvSqrt(2) },
    ];
    assert(ops@ =~= layer_input_front(*model, seq) + layer_input_cuts(*model, seq, 0));
    let mut i: usize = 0;
    while i < n
        invariant
            model.valid(),
            n == model.depth(),
            d == model.cfg.hidden_size_per_layer_input,
            i <= n,
            ops@ == layer_input_front(*model, seq) + layer_input_cuts(*model, seq, i as int),
        decreases n - i,
    {
        ops.push(Op::Plane { x: 10, i: i as i32, seq, n: d as i32 });
        ops.push(Op::Reshape { x: 11 + 2 * i, dims: Dims::D3(1, seq, d as i32) });
        assert(ops@ =~= layer_input_front(*model, seq) + layer_input_cuts(*model, seq, i + 1));
        i = i + 1;
    }
    let program: Program = Program { inputs: vec![on_device, h], ops };
    assert(program@ =~= layer_inputs_program(*model, on_device, h, seq));
    program
}

fn prepare(model: &Gemma4Text, run: ForwardRun, h: Tensor) -> (r: ForwardStep)
    requires
        model.valid(),
        fits(*model, run@),
    ensures
        r@ == preparing(*model, run@, h),
{
    let mut run: ForwardRun = run;
    run.h = h;
    if !(model.has_embed_tokens_per_layer && model.has_per_layer_model_proj
        && model.has_per_layer_proj_norm) {
        run.per_layer_inputs = None;
        return go_layer(model, run, 0);
    }
    let seq: i32 = match run.ids.shape.dim(0) {
        Some(seq) => seq,
        None => return fail(Error::NoStepAxis { shape: run.ids.shape }),
    };
    let program: Program = compute_per_layer_inputs(model, run.ids, h, seq);
    run.stage = ForwardStage::LayerInputs;
    ForwardStep::Run { run, program }
}

fn cut(model: &Gemma4Text, results: &Vec<Tensor>) -> (r: Vec<Tensor>)
    requires
        model.valid(),
        results@.len() == 9 + 2 * model.depth(),
    ensures
        r@ == cut_inputs(*model, results@),
{
    let n: usize = model.cfg.num_hidden_layers;
    let mut out: Vec<Tensor> = Vec::with_capacity(n);
    let mut i: usize = 0;
    while i < n
        invariant
            model.valid(),
            n == model.depth(),
            results@.len() == 9 + 2 * n,
            i <= n,
            out@.len() == i,
            forall|p: int| 0 <= p < i ==> #[trigger] out@[p] == results@[10 + 2 * p],
        decreases n - i,
    {
        out.push(results[10 + 2 * i]);
        i = i + 1;
    }
    assert(out@ =~= cut_inputs(*model, results@));
    out
}

fn go_layer(model: &Gemma4Text, run: ForwardRun, i: usize) -> (r: ForwardStep)
    requires
        model.valid(),
        fits(*model, run@),
    ensures
        r@ == at_layer(*model, run@, i as int),
{
    if i >= model.cfg.num_hidden_layers {
        return read_off(model, run);
    }
    let source: usize = model.previous_kvs[i];
    let shared_kv: Option<SharedKvOut> = if source == i {
        None
    } else {
        run.stored_kvs[source]
    };
    let per_layer_input: Option<Tensor> = match &run.per_layer_inputs {
        Some(p) => Some(p[i]),
        None => None,
    };
    let cache: Option<i32> = match &run.offsets {
        Some(o) => if source == i {
            Some(o[i])
        } else {
            None
        },
        None => None,
    };
    let call: LayerCall = LayerCall {
        x: run.h,
        shared_kv,
        per_layer_input,
        offset: run.base_offset,
        cache,
        kv_is_rotating: run.kv_is_rotating[i],
        device: run.device,
        toggles: run.toggles,
    };
    assert(call == layer_call(*model, run@, i as int));
    let mut run: ForwardRun = run;
    run.stage = ForwardStage::Layer { layer: i };
    ForwardStep::Layer { run, layer: i, call }
}

fn pick(model: &Gemma4Text, stored: &Vec<Option<SharedKvOut>>, want: LayerType) -> (r: Option<
    (Tensor, Tensor),
>)
    requires
        model.valid(),
        stored@.len() == model.depth(),
    ensures
        r == last_bf16(model.cfg.layer_types@, stored@, want, model.depth()),
{
    let mut n: usize = model.cfg.num_hidden_layers;
    while n > 0
        invariant
            model.valid(),
            stored@.len() == model.depth(),
            n <= model.depth(),
            last_bf16(model.cfg.layer_types@, stored@, want, model.depth()) == last_bf16(
                model.cfg.layer_types@,
                stored@,
                want,
                n as int,
            ),
        decreases n,
    {
        if model.cfg.layer_types[n - 1] == want {
            if let Some(SharedKvOut::Bf16(k, v)) = stored[n - 1] {
                return Some((k, v));
            }
        }
        n = n - 1;
    }
    None
}

fn pick_both(model: &Gemma4Text, run: &ForwardRun) -> (r: Result<
    ((Tensor, Tensor), (Tensor, Tensor)),
    Error,
>)
    requires
        model.valid(),
        fits(*model, run@),
    ensures
        r == picked(*model, run@),
{
    let sliding: (Tensor, Tensor) = match pick(
        model,
        &run.stored_kvs,
        LayerType::SlidingAttention,
    ) {
        Some(kv) => kv,
        None => return Err(Error::NoLayerKv(LayerType::SlidingAttention)),
    };
    let full: (Tensor, Tensor) = match pick(model, &run.stored_kvs, LayerType::FullAttention) {
        Some(kv) => kv,
        None => return Err(Error::NoLayerKv(LayerType::FullAttention)),
    };
    Ok((sliding, full))
}

fn push_last(model: &Gemma4Text, ops: &mut Vec<Op>, seq: i32, k: i32, x: usize)
    requires
        x <= 1,
        i32::MIN <= seq - k <= i32::MAX,
    ensures
        final(ops)@ == old(ops)@ + last_positions(*model, seq, k, x as int),
{
    let hidden: i32 = model.cfg.hidden_size as i32;
    ops.push(Op::Positions { x, from: seq - k, to: seq, n: hidden });
    ops.push(Op::Reshape { x: x + 1, dims: Dims::D3(1, k, hidden) });
    assert(ops@ =~= old(ops)@ + last_positions(*model, seq, k, x as int));
}

fn push_head(model: &Gemma4Text, ops: &mut Vec<Op>, x: usize)
    requires
        x <= 3,
    ensures
        final(ops)@ == old(ops)@ + head_ops(*model, x as int),
{
    ops.push(Op::AsLinear { weight: Weight::EmbedTokens, x });
    ops.push(apply_softcap(model, x + 1));
    assert(ops@ =~= old(ops)@ + head_ops(*model, x as int));
}

/// The capped logits of the raw ones in register `x`.
pub fn apply_softcap(model: &Gemma4Text, x: usize) -> (r: Op)
    ensures
        r == (Op::Softcap { x, cap: model.cfg.final_logit_softcapping }),
{
    Op::Softcap { x, cap: model.cfg.final_logit_softcapping }
}

fn build_tail(model: &Gemma4Text, run: &ForwardRun) -> (r: Program)
    requires
        fits(*model, run@),
    ensures
        r@ == tail_program(*model, run@),
{
    let norm: Op = Op::Norm { weight: Weight::FinalNorm, x: 0 };
    let mut ops: Vec<Op> = Vec::new();
    match run.tail {
        Tail::LastLogits => {
            ops.push(norm);
            push_last(model, &mut ops, run.seq, 1, 1);
            push_head(model, &mut ops, 3);
        },
        Tail::AllLogits => {
            ops.push(norm);
            push_head(model, &mut ops, 1);
        },
        Tail::LastKLogits { k } => {
            ops.push(norm);
            push_last(model, &mut ops, run.seq, k, 1);
            push_head(model, &mut ops, 3);
        },
        Tail::Hidden { k } => {
            push_last(model, &mut ops, run.seq, k, 0);
        },
        Tail::SharedHidden { k } => {
            push_last(model, &mut ops, run.seq, k, 0);
        },
        Tail::Embedding => {},
    }
    let program: Program = Program { inputs: vec![run.h], ops };
    assert(program@.ops =~= tail_program(*model, run@).ops);
    assert(program@ =~= tail_program(*model, run@));
    program
}

fn read_off(model: &Gemma4Text, run: ForwardRun) -> (r: ForwardStep)
    requires
        model.valid(),
        fits(*model, run@),
    ensures
        r@ == reading(*model, run@),
{
    if let Tail::SharedHidden { .. } = run.tail {
        match pick_both(model, &run) {
            Ok(_) => {},
            Err(e) => return fail(e),
        }
    }
    let program: Program = build_tail(model, &run);
    let mut run: ForwardRun = run;
    run.stage = ForwardStage::Tail;
    ForwardStep::Run { run, program }
}

fn end(model: &Gemma4Text, run: &ForwardRun, last: Tensor) -> (r: ForwardStep)
    requires
        model.valid(),
        fits(*model, run@),
    ensures
        r@ == ending(*model, run@, last),
{
    match run.tail {
        Tail::Hidden { .. } => ForwardStep::Done(Ok(Forward::Hidden(last))),
        Tail::SharedHidden { .. } => match pick_both(model, run) {
            Err(e) => fail(e),
            Ok((sliding, full)) => ForwardStep::Done(
                Ok(Forward::SharedHidden { hidden: last, sliding, full, offset: run.base_offset }),
            ),
        },
        _ => ForwardStep::Done(Ok(Forward::Logits(last))),
    }
}

impl Gemma4Text {
    /// Starts a pass without caches for the logits of every position.
    pub fn forward_seq_logits_all(&self, ids: &[u32], device: Device, toggles: Toggles) -> (r:
        ForwardStep)
        requires
            self.valid(),
            ids@.len() <= i32::MAX,
        ensures
            r@ == if ids@.len() == 0 {
                ForwardStepView::Done(Err(Error::EmptyPrompt))
            } else {
                uploading(
                    fresh(*self, ids@.len() as i32, Tail::AllLogits, None, device, toggles),
                    ids@,
                )
            },
    {
        if ids.len() == 0 {
            return fail(Error::EmptyPrompt);
        }
        upload(begin(self, ids.len() as i32, Tail::AllLogits, None, device, toggles), ids)
    }

    /// Starts a pass over one token, without caches.
    pub fn forward_one(&self, token_id: u32, device: Device, toggles: Toggles) -> (r: ForwardStep)
        requires
            self.valid(),
        ensures
            r@ == uploading(
                fresh(*self, 1, Tail::LastLogits, None, device, toggles),
                seq![token_id],
            ),
    {
        let ids: Vec<u32> = vec![token_id];
        assert(ids@ =~= seq![token_id]);
        self.forward_seq(ids.as_slice(), device, toggles)
    }

    /// Starts a pass without caches for the logits of the last position.
    pub fn forward_seq(&self, ids: &[u32], device: Device, toggles: Toggles) -> (r: ForwardStep)
        requires
            self.valid(),
            ids@.len() <= i32::MAX,
        ensures
            r@ == uploading(
                fresh(*self, ids@.len() as i32, Tail::LastLogits, None, device, toggles),
                ids@,
            ),
    {
        self.forward_seq_with_cache(ids, None, device, toggles)
    }

    /// Starts a pass for the logits of the last position, with one cache per
    /// layer where there are any.
    pub fn forward_seq_with_cache(
        &self,
        ids: &[u32],
        caches: Option<&[KvCache]>,
        device: Device,
        toggles: Toggles,
    ) -> (r: ForwardStep)
        requires
            self.valid(),
            caches_fit(*self, caches),
            ids@.len() <= i32::MAX,
        ensures
            r@ == uploading(
                fresh(
                    *self,
                    ids@.len() as i32,
                    Tail::LastLogits,
                    caches_view(caches),
                    device,
                    toggles,
                ),
                ids@,
            ),
    {
        upload(begin(self, ids.len() as i32, Tail::LastLogits, caches, device, toggles), ids)
    }

    /// Starts a pass without caches for the logits of the last `k` positions.
    pub fn forward_seq_last_k(&self, ids: &[u32], k: usize, device: Device, toggles: Toggles) -> (r:
        ForwardStep)
        requires
            self.valid(),
            ids@.len() <= i32::MAX,
        ensures
            r@ == if !in_range(k as int, ids@.len() as int) {
                ForwardStepView::Done(Err(Error::LastKOutOfRange { k, seq: ids@.len() as usize }))
            } else {
                uploading(
                    fresh(
                        *self,
                        ids@.len() as i32,
                        Tail::LastKLogits { k: k as i32 },
                        None,
                        device,
                        toggles,
                    ),
                    ids@,
                )
            },
    {
        let seq: usize = ids.len();
        if k == 0 || k > seq {
            return fail(Error::LastKOutOfRange { k, seq });
        }
        upload(
            begin(self, seq as i32, Tail::LastKLogits { k: k as i32 }, None, device, toggles),
            ids,
        )
    }

    /// Starts a pass on the caches for the logits of the last `k` positions.
    pub fn forward_seq_last_k_with_cache(
        &self,
        ids: &[u32],
        k: usize,
        caches: &[KvCache],
        device: Device,
        toggles: Toggles,
    ) -> (r: ForwardStep)
        requires
            self.valid(),
            caches_fit(*self, Some(caches)),
            ids@.len() <= i32::MAX,
        ensures
            r@ == if !in_range(k as int, ids@.len() as int) {
                ForwardStepView::Done(Err(Error::LastKOutOfRange { k, seq: ids@.len() as usize }))
            } else {
                uploading(
                    fresh(
                        *self,
                        ids@.len() as i32,
                        Tail::LastKLogits { k: k as i32 },
                        Some(caches@),
                        device,
                        toggles,
                    ),
                    ids@,
                )
            },
    {
        let seq: usize = ids.len();
        if k == 0 || k > seq {
            return fail(Error::LastKOutOfRange { k, seq });
        }
        upload(
            begin(
                self,
                seq as i32,
                Tail::LastKLogits { k: k as i32 },
                Some(caches),
                device,
                toggles,
            ),
            ids,
        )
    }

    /// Starts a pass over ids that are on the device, for the logits of the last
    /// position.
    pub fn forward_arr(
        &self,
        ids_arr: Tensor,
        seq: i32,
        caches: Option<&[KvCache]>,
        device: Device,
        toggles: Toggles,
    ) -> (r: ForwardStep)
        requires
            self.valid(),
            caches_fit(*self, caches),
            seq > i32::MIN,
        ensures
            r@ == embedding(
                *self,
                fresh(*self, seq, Tail::LastLogits, caches_view(caches), device, toggles),
                ids_arr,
            ),
    {
        embed(self, begin(self, seq, Tail::LastLogits, caches, device, toggles), ids_arr)
    }

    /// Starts a pass over scaled embeddings that are on the device, for the
    /// logits of the last position. The ids serve the inputs of the layers alone.
    pub fn forward_arr_embeds(
        &self,
        embeds: Tensor,
        ids_arr: Tensor,
        seq: i32,
        caches: Option<&[KvCache]>,
        device: Device,
        toggles: Toggles,
    ) -> (r: ForwardStep)
        requires
            self.valid(),
            caches_fit(*self, caches),
            seq > i32::MIN,
        ensures
            r@ == preparing(
                *self,
                (RunView {
                    ids: ids_arr,
                    ..fresh(*self, seq, Tail::LastLogits, caches_view(caches), device, toggles)
                }),
                embeds,
            ),
    {
        let mut run: ForwardRun = begin(self, seq, Tail::LastLogits, caches, device, toggles);
        run.ids = ids_arr;
        prepare(self, run, embeds)
    }

    /// Starts a pass over ids that are on the device, for the logits of the last
    /// `k` positions.
    pub fn forward_arr_last_k(
        &self,
        ids_arr: Tensor,
        seq: i32,
        k: i32,
        caches: Option<&[KvCache]>,
        device: Device,
        toggles: Toggles,
    ) -> (r: ForwardStep)
        requires
            self.valid(),
            caches_fit(*self, caches),
        ensures
            r@ == if !in_range(k as int, seq as int) {
                ForwardStepView::Done(Err(Error::LastKOutOfRangeI32 { k, seq }))
            } else {
                embedding(
                    *self,
                    fresh(
                        *self,
                        seq,
                        Tail::LastKLogits { k },
                        caches_view(caches),
                        device,
                        toggles,
                    ),
                    ids_arr,
                )
            },
    {
        if k < 1 || k > seq {
            return fail(Error::LastKOutOfRangeI32 { k, seq });
        }
        embed(self, begin(self, seq, Tail::LastKLogits { k }, caches, device, toggles), ids_arr)
    }

    /// Starts a pass for the stream of the last `k` positions, in front of the
    /// final norm.
    pub fn forward_hidden_states(
        &self,
        ids: &[u32],
        k: usize,
        caches: Option<&[KvCache]>,
        device: Device,
        toggles: Toggles,
    ) -> (r: ForwardStep)
        requires
            self.valid(),
            caches_fit(*self, caches),
            ids@.len() <= i32::MAX,
        ensures
            r@ == if !in_range(k as int, ids@.len() as int) {
                ForwardStepView::Done(Err(Error::LastKOutOfRange { k, seq: ids@.len() as usize }))
            } else {
                uploading(
                    fresh(
                        *self,
                        ids@.len() as i32,
                        Tail::Hidden { k: k as i32 },
                        caches_view(caches),
                        device,
                        toggles,
                    ),
                    ids@,
                )
            },
    {
        let seq: usize = ids.len();
        if k == 0 || k > seq {
            return fail(Error::LastKOutOfRange { k, seq });
        }
        upload(
            begin(self, seq as i32, Tail::Hidden { k: k as i32 }, caches, device, toggles),
            ids,
        )
    }

    /// Starts a pass on the caches for the stream of the last `k` positions,
    /// with the K/V of the last layer of each kind for a drafter to attend.
    pub fn forward_hidden_states_shared_kv(
        &self,
        ids: &[u32],
        k: usize,
        caches: &[KvCache],
        device: Device,
        toggles: Toggles,
    ) -> (r: ForwardStep)
        requires
            self.valid(),
            caches_fit(*self, Some(caches)),
            ids@.len() <= i32::MAX,
        ensures
            r@ == if !in_range(k as int, ids@.len() as int) {
                ForwardStepView::Done(Err(Error::LastKOutOfRange { k, seq: ids@.len() as usize }))
            } else {
                uploading(
                    fresh(
                        *self,
                        ids@.len() as i32,
                        Tail::SharedHidden { k: k as i32 },
                        Some(caches@),
                        device,
                        toggles,
                    ),
                    ids@,
                )
            },
    {
        let seq: usize = ids.len();
        if k == 0 || k > seq {
            return fail(Error::LastKOutOfRange { k, seq });
        }
        upload(
            begin(
                self,
                seq as i32,
                Tail::SharedHidden { k: k as i32 },
                Some(caches),
                device,
                toggles,
            ),
            ids,
        )
    }

    /// Starts the scaled embedding of one token, in full precision.
    pub fn embed_token_raw(&self, tok: u32, device: Device, toggles: Toggles) -> (r: ForwardStep)
        requires
            self.valid(),
        ensures
            r@ == uploading(
                fresh(*self, 1, Tail::Embedding, None, device, toggles),
                seq![tok],
            ),
    {
        let ids: Vec<u32> = vec![tok];
        assert(ids@ =~= seq![tok]);
        upload(begin(self, 1, Tail::Embedding, None, device, toggles), ids.as_slice())
    }

    /// The final norm of a stream.
    pub fn apply_final_norm(&self, hidden: Tensor) -> (r: Program)
        ensures
            r@ == (ProgramView { inputs: seq![hidden], ops: seq![final_norm()] }),
    {
        let r: Program = Program {
            inputs: vec![hidden],
            ops: vec![Op::Norm { weight: Weight::FinalNorm, x: 0 }],
        };
        proof {
            assert(r.inputs@ =~= seq![hidden]);
            assert(r.ops@ =~= seq![final_norm()]);
        }
        r
    }

    /// The logits of a stream in front of the final norm: what a pass for the
    /// stream leaves off.
    pub fn logits_from_hidden(&self, hidden: Tensor) -> (r: Program)
        ensures
            r@ == head_program(*self, hidden),
    {
        let mut ops: Vec<Op> = vec![Op::Norm { weight: Weight::FinalNorm, x: 0 }];
        push_head(self, &mut ops, 1);
        let r: Program = Program { inputs: vec![hidden], ops };
        proof {
            assert(r.inputs@ =~= seq![hidden]);
            assert(r.ops@ =~= seq![final_norm()] + head_ops(*self, 1));
        }
        r
    }

    /// Goes on with the ids on the device.
    pub fn resume_upload(&self, run: ForwardRun, on_device: Result<Tensor, u64>) -> (r: ForwardStep)
        ensures
            r@ == uploaded(*self, run@, on_device),
    {
        let t: Tensor = match on_device {
            Ok(t) => t,
            Err(code) => return fail(Error::Outside(code)),
        };
        match run.stage {
            ForwardStage::Ids => embed(self, run, t),
            _ => fail(Error::Protocol),
        }
    }

    /// Goes on with what the program of the last step wrote.
    pub fn resume_run(&self, run: ForwardRun, results: Result<Vec<Tensor>, u64>) -> (r: ForwardStep)
        requires
            self.valid(),
            fits(*self, run@),
        ensures
            r@ == ran(*self, run@, attention::results_view(results)),
    {
        let regs: Vec<Tensor> = match results {
            Ok(regs) => regs,
            Err(code) => return fail(Error::Outside(code)),
        };
        match run.stage {
            ForwardStage::Embed => {
                if regs.len() != 3 {
                    return fail(Error::Protocol);
                }
                match run.tail {
                    Tail::Embedding => ForwardStep::Done(Ok(Forward::Hidden(regs[2]))),
                    _ => prepare(self, run, regs[2]),
                }
            },
            ForwardStage::LayerInputs => {
                if regs.len() != 9 + 2 * self.cfg.num_hidden_layers {
                    return fail(Error::Protocol);
                }
                let inputs: Vec<Tensor> = cut(self, &regs);
                let mut run: ForwardRun = run;
                run.per_layer_inputs = Some(inputs);
                go_layer(self, run, 0)
            },
            ForwardStage::Tail => {
                let expected: usize = build_tail(self, &run).ops.len();
                let n: usize = regs.len();
                if n == 0 || n != expected {
                    return fail(Error::Protocol);
                }
                end(self, &run, regs[n - 1])
            },
            _ => fail(Error::Protocol),
        }
    }

    /// Goes on with the outcome of a layer.
    pub fn resume_layer(
        &self,
        run: ForwardRun,
        outcome: Result<(Tensor, Option<SharedKvOut>), Error>,
    ) -> (r: ForwardStep)
        requires
            self.valid(),
            fits(*self, run@),
        ensures
            r@ == layered(*self, run@, outcome),
    {
        let (h, new_kv) = match outcome {
            Ok(pair) => pair,
            Err(e) => return fail(e),
        };
        match run.stage {
            ForwardStage::Layer { layer } => {
                let mut run: ForwardRun = run;
                run.h = h;
                if let Some(kv) = new_kv {
                    run.stored_kvs.set(layer, Some(kv));
                }
                go_layer(self, run, layer + 1)
            },
            _ => fail(Error::Protocol),
        }
    }
}

} // verus!
