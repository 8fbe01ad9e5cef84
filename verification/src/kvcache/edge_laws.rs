//! What ends a step early, and what a step has done by the time it asks.
use vstd::prelude::*;

use crate::error::{Error, Expected, Fused};
use crate::kvcache::consumer::{ConsumerRun, ConsumerStep};
use crate::kvcache::materialise::{TensorsRun, TensorsStep};
use crate::kvcache::over_store::{StoreRun, StoreStage, StoreStep};
use crate::kvcache::request::{Answer, Call, KvCache, Reply, Request};
use crate::kvcache::step::{Run, Share, Stage, Step};
use crate::kvcache::storage::KvStorage;
use crate::kvcache::{arms, consumer, laws, materialise, route_laws, sdpa};
use crate::tensor::Tensor;

verus! {

/// Whether an answer is of the kind that a step waits for. A run inside the step
/// answers for itself.
pub open spec fn is_awaited(stage: Stage, answer: Answer) -> bool {
    match stage {
        Stage::Start => false,
        Stage::Gather { .. } => answer is Two,
        Stage::MixedMirror { .. } => answer is Two,
        Stage::MixedFetch { .. } => answer is Mixed,
        Stage::RotKUpdateK => answer is RotK,
        Stage::RotKHostRows { .. } => answer is Host,
        Stage::RotKAppendV { .. } => answer is Done,
        Stage::PlanarAppend { .. } => answer is Done,
        Stage::RotorKAppend => answer is Done,
        Stage::RotorSymAppend => answer is Done,
        Stage::RotKDequantV { .. } => answer is One || answer is Host,
        Stage::RotKFwhtSupported { .. } => answer is Flag,
        Stage::PlanarProbe { .. } => answer is Three || answer is Absent,
        Stage::Flash => answer is One || answer is Absent,
        Stage::FusedQk => answer is One || answer is Absent,
        _ => answer is One,
    }
}

/// An answer of another kind than the one that a step waits for ends the step.
pub proof fn law_answer_of_another_kind_ends_a_step(cache: KvCache, run: Run, reply: Reply)
    requires
        !(run.stage is Store),
        !(run.stage is Unpack),
        !(reply.answer is Failed),
        !is_awaited(run.stage, reply.answer),
    ensures
        laws::turn(cache, run, reply).1 == Step::Done(Err(Error::Protocol)),
{
    reveal(laws::turn);
}

/// Whether an answer is of the kind that a run over a store waits for.
pub open spec fn is_awaited_by_store(stage: StoreStage, answer: Answer) -> bool {
    match stage {
        StoreStage::PlanarView { .. } => answer is Three || answer is Absent,
        StoreStage::RotorKView { .. } => answer is Three || answer is Absent,
        StoreStage::SymKView { .. } => answer is Three || answer is Absent,
        StoreStage::SymVView { .. } => answer is Three || answer is Absent,
        _ => answer is One,
    }
}

/// An answer of another kind than the one that a run over a store waits for ends
/// the run, and with it a step and a consumer; and so does a failure.
pub proof fn law_answer_of_another_kind_ends_a_store_run(
    cache: KvCache,
    run: StoreRun,
    answer: Answer,
    code: u64,
)
    ensures
        !(answer is Failed) && !is_awaited_by_store(run.stage, answer) ==> run.next(answer)
            == StoreStep::Done(Err(Error::Protocol)),
        consumer::resumed(cache, ConsumerRun::Store { run }, Answer::Failed(code))
            == ConsumerStep::Done(Err(Error::Outside(code))),
        !(answer is Failed) && !is_awaited_by_store(run.stage, answer) ==> consumer::resumed(
            cache,
            ConsumerRun::Store { run },
            answer,
        ) == ConsumerStep::Done(Err(Error::Protocol)),
{
}

/// A consumer that waits for its V window takes a tensor and nothing else.
pub proof fn law_consumer_waits_for_its_window(
    cache: KvCache,
    run: ConsumerRun,
    answer: Answer,
    code: u64,
)
    requires
        run is Values,
    ensures
        consumer::resumed(cache, run, Answer::Failed(code)) == ConsumerStep::Done(
            Err(Error::Outside(code)),
        ),
        !(answer is Failed) && !(answer is One) ==> consumer::resumed(cache, run, answer)
            == ConsumerStep::Done(Err(Error::Protocol)),
{
}

/// A materialisation takes a tensor wherever it stands, and host rows of packed K
/// besides. Anything else ends it, and so does a failure.
pub proof fn law_answer_of_another_kind_ends_a_materialisation(
    cache: KvCache,
    run: TensorsRun,
    answer: Answer,
    code: u64,
)
    ensures
        materialise::resumed(cache, run, Answer::Failed(code)) == TensorsStep::Done(
            Err(Error::Outside(code)),
        ),
        !(answer is Failed) && !(answer is One) && !(answer is Host) ==> materialise::resumed(
            cache,
            run,
            answer,
        ) == TensorsStep::Done(Err(Error::Protocol)),
        answer is Host && !(run is Keys && (cache.storage matches KvStorage::PlanarK {
            k: Some(_),
            ..
        })) ==> materialise::resumed(cache, run, answer) == TensorsStep::Done(Err(Error::Protocol)),
{
}

/// V is written behind the offset that a step started from, so by the time that V
/// is appended to its mirror the new positions are counted: where packed K is on
/// the device, where it is not, and behind a rotor K ring.
pub proof fn law_positions_are_counted_before_values(cache: KvCache, run: Run, reply: Reply)
    requires
        run.stage is PlanarProbe || run.stage is RotorKAppend,
    ensures
        ({
            let (after, next) = laws::turn(cache, run, reply);
            &&& route_laws::request_of(next) matches Some(r) ==> {
                &&& after.offset == cache.offset + run.call.new_k.shape.d2
                &&& r matches Request::UpdateDecodeFp16V { new_v, .. } && new_v == run.call.new_v.id
            }
        }),
{
    reveal(laws::turn);
}

/// What ends a step once its packed K is seen on the device: a store that is gone,
/// or of another kind, or of another rank, or positions that cannot be counted. The
/// offset stays.
pub proof fn law_packed_k_is_looked_at_again(
    cache: KvCache,
    run: Run,
    reply: Reply,
    max_seq: i32,
)
    requires
        run.stage == (Stage::PlanarProbe { max_seq }),
        reply.answer is Three,
    ensures
        ({
            let (after, next) = laws::turn(cache, run, reply);
            let counted = i32::MIN <= cache.offset + run.call.new_k.shape.d2 <= i32::MAX;
            &&& next is Done ==> after == cache
            &&& match cache.storage {
                KvStorage::PlanarK { k: Some(shape), .. } => if shape.rank != 4 {
                    next == Step::Done(Err(Error::StoreRank { path: Fused::PlanarK, shape }))
                } else if !counted {
                    next == Step::Done(
                        Err(
                            Error::OffsetOverflow {
                                offset: cache.offset,
                                new_seq: run.call.new_k.shape.d2,
                            },
                        ),
                    )
                } else {
                    route_laws::request_of(next) == Some(
                        Request::UpdateDecodeFp16V { new_v: run.call.new_v.id, max_seq },
                    )
                },
                KvStorage::PlanarK { k: None, .. } => next == Step::Done(
                    Err(Error::StoreAbsent { path: Fused::PlanarK }),
                ),
                _ => next == Step::Done(
                    Err(
                        Error::KvStorageMismatch {
                            expected: Expected::PlanarK,
                            got: cache.storage.spec_kind(),
                        },
                    ),
                ),
            }
        }),
{
    reveal(laws::turn);
}

/// An append to a rotor K ring that left another storage behind ends the step once
/// its positions are counted.
pub proof fn law_rotor_k_append_keeps_its_storage(cache: KvCache, run: Run, reply: Reply)
    requires
        run.stage is RotorKAppend,
        reply.answer is Done,
        i32::MIN <= cache.offset + run.call.new_k.shape.d2 <= i32::MAX,
    ensures
        ({
            let next = laws::turn(cache, run, reply).1;
            match reply.cache.storage {
                KvStorage::RotorKOnly3 { max_seq, .. } => route_laws::request_of(next) == Some(
                    Request::UpdateDecodeFp16V { new_v: run.call.new_v.id, max_seq },
                ),
                KvStorage::RotorKOnly4 { max_seq, .. } => route_laws::request_of(next) == Some(
                    Request::UpdateDecodeFp16V { new_v: run.call.new_v.id, max_seq },
                ),
                _ => next == Step::Done(
                    Err(
                        Error::KvStorageMismatch {
                            expected: Expected::RotorKOnly,
                            got: reply.cache.storage.spec_kind(),
                        },
                    ),
                ),
            }
        }),
{
    reveal(laws::turn);
}

/// Only a live unquantized K seed keeps a step off packed K exactly where there is
/// one, and without it the step would append there.
pub proof fn law_seed_alone_closes_packed_k(cache: KvCache, call: Call)
    requires
        call.new_k.shape.rank >= 3,
    ensures
        arms::seed_closes_planar(cache, call) <==> {
            let (_, now) = sdpa::starting(
                KvCache { decode_fp16_k: None, ..cache },
                sdpa::fresh(call, Share::Nothing),
            );
            cache.decode_fp16_k is Some && (route_laws::request_of(now) matches Some(r)
                && r is PlanarAppend)
        },
{
    route_laws::law_packed_k_step_starts(
        KvCache { decode_fp16_k: None, ..cache },
        call,
        Share::Nothing,
    );
}

/// A step over affine tuples that shares its mirrors needs the affine storage for
/// their length; on another it ends, though its output is in hand.
pub proof fn law_affine_share_needs_its_storage(
    cache: KvCache,
    run: Run,
    reply: Reply,
    out: Tensor,
)
    requires
        run.stage is MixedSdpa,
        run.share is Source,
        reply.answer == Answer::One(out),
        !(cache.storage is Mixed),
    ensures
        laws::turn(cache, run, reply) == (
            cache,
            Step::Done(
                Err(
                    Error::KvStorageMismatch {
                        expected: Expected::Mixed,
                        got: cache.storage.spec_kind(),
                    },
                ),
            ),
        ),
{
    reveal(laws::turn);
}

/// Host rows of V, on their way to the buffer and back from it, need the buffer:
/// without one the step ends, and says whether the buffer or the storage is wrong.
pub proof fn law_rotated_rows_need_their_buffer(
    cache: KvCache,
    run: Run,
    reply: Reply,
    rows: u64,
)
    requires
        run.stage is RotKHostRows || run.stage is RotKDequantV,
        reply.answer == Answer::Host(rows),
    ensures
        ({
            let (after, next) = laws::turn(cache, run, reply);
            &&& after == cache
            &&& match cache.storage {
                KvStorage::RotKTq4V { v: Some(shape) } => route_laws::request_of(next) == Some(
                    if run.stage is RotKHostRows {
                        Request::RotKAppendV {
                            rows: Some(rows),
                            shape: run.call.new_v.shape,
                            new_v: run.call.new_v.id,
                        }
                    } else {
                        Request::UploadRows { rows, shape }
                    },
                ),
                KvStorage::RotKTq4V { v: None } => next == Step::Done(
                    Err(Error::RotKValueBufferMissing),
                ),
                _ => next == Step::Done(
                    Err(Error::RotKStorageMismatch { got: cache.storage.spec_kind() }),
                ),
            }
        }),
{
    reveal(laws::turn);
}

} // verus!
