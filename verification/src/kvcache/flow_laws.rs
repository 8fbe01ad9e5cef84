//! Whole steps, told by their inputs: what is asked for, in which order, what the
//! step comes to and how it leaves the cache.
use vstd::prelude::*;

use crate::error::{Error, Expected};
use crate::kvcache::materialise::{TensorsRun, TensorsStep};
use crate::kvcache::quant::{KvQuant, MixedParams};
use crate::kvcache::request::{Answer, Call, KvCache, MixedTuple, Reply, Request};
use crate::kvcache::step::{Attended, Run, Share, Shared, SharedKv, SharedKvOut, Stage, Step};
use crate::kvcache::{laws, materialise, mixed, route_laws, sdpa};
use crate::tensor::{Dims, MaskMode, Tensor};

verus! {

/// What is shared of a K and a V that were attended plainly.
pub open spec fn pair_for(share: Share, k: Tensor, v: Tensor) -> Shared {
    match share {
        Share::Nothing => Shared::Nothing,
        Share::Source => Shared::Source(SharedKv::Bf16(k, v)),
        Share::Out => Shared::Out(SharedKvOut::Bf16(k, v)),
    }
}

/// Plain attention of a call over K and V.
pub open spec fn plainly(call: Call, q: u64, k: Tensor, v: Tensor, mode: MaskMode) -> Request {
    Request::Sdpa { q, k: k.id, v: v.id, scale: call.scale, mode, mask: call.mask }
}

/// The step of a ring: the codec's own update, then plain attention over all that
/// it gave back, under the mask mode of the call. What was attended is shared.
pub proof fn law_ring_step(
    cache: KvCache,
    call: Call,
    share: Share,
    replies: Seq<Reply>,
    k: Tensor,
    v: Tensor,
    out: Tensor,
)
    requires
        cache.rotating,
        replies.len() == 2,
        replies[0].answer == Answer::Two(k, v),
        replies[1].answer == Answer::One(out),
    ensures
        ({
            let (c, now) = sdpa::starting(cache, sdpa::fresh(call, share));
            &&& laws::asked(c, now, replies) == seq![
                Request::Update { new_k: call.new_k.id, new_v: call.new_v.id },
                plainly(call, call.queries.id, k, v, call.mask_mode),
            ]
            &&& laws::play(c, now, replies) == (
                written_whole(cache, replies[0].cache),
                Step::Done(Ok(Attended { out, shared: pair_for(share, k, v) })),
            )
        }),
{
    let now = Step::Ask {
        run: Run {
            call,
            share,
            stage: Stage::Gather { mode: call.mask_mode, own_offset: true },
        },
        request: Request::Update { new_k: call.new_k.id, new_v: call.new_v.id },
    };
    assert(sdpa::starting(cache, sdpa::fresh(call, share)) == (cache, now));
    let c = written_whole(cache, replies[0].cache);
    lemma_gathered(cache, c, now->run, now->request, call.mask_mode, replies, k, v, out);
}

/// A reply is taken: where the step stands after it is where it goes on.
pub proof fn lemma_takes(cache: KvCache, now: Step, after: KvCache, next: Step, replies: Seq<Reply>)
    requires
        now matches Step::Ask { run, .. } && replies.len() > 0 && laws::turn(
            cache,
            run,
            replies[0],
        ) == (after, next),
    ensures
        laws::play(cache, now, replies) == laws::play(after, next, replies.skip(1)),
        laws::asked(cache, now, replies) == seq![now->request] + laws::asked(
            after,
            next,
            replies.skip(1),
        ),
{
    lemma_one_reply(cache, now, replies);
    assert(replies.drop_first() =~= replies.skip(1));
}

/// From K and V as they were gathered to the end of the step.
proof fn lemma_gathered(
    cache: KvCache,
    after: KvCache,
    run: Run,
    request: Request,
    mode: MaskMode,
    replies: Seq<Reply>,
    k: Tensor,
    v: Tensor,
    out: Tensor,
)
    requires
        run.stage matches Stage::Gather { mode: m, own_offset } && m == mode && after == if own_offset {
            written_whole(cache, replies[0].cache)
        } else {
            KvCache {
                decode_fp16_k: replies[0].cache.decode_fp16_k,
                decode_fp16_v: replies[0].cache.decode_fp16_v,
                ..cache
            }
        },
        replies.len() == 2,
        replies[0].answer == Answer::Two(k, v),
        replies[1].answer == Answer::One(out),
    ensures
        ({
            let now = Step::Ask { run, request };
            &&& laws::asked(cache, now, replies) == seq![
                request,
                plainly(run.call, run.call.queries.id, k, v, mode),
            ]
            &&& laws::play(cache, now, replies) == (
                after,
                Step::Done(Ok(Attended { out, shared: pair_for(run.share, k, v) })),
            )
        }),
{
    let now = Step::Ask { run, request };
    let next = Step::Ask {
        run: Run { stage: Stage::Attend { k, v }, ..run },
        request: plainly(run.call, run.call.queries.id, k, v, mode),
    };
    assert(laws::turn(cache, run, replies[0]) == (after, next)) by {
        reveal(laws::turn);
    }
    lemma_takes(cache, now, after, next, replies);
    let rest = replies.skip(1);
    assert(rest[0] == replies[1]);
    let end = Step::Done(Ok(Attended { out, shared: pair_for(run.share, k, v) }));
    assert(laws::turn(after, next->run, rest[0]) == (after, end)) by {
        reveal(laws::turn);
    }
    lemma_takes(after, next, after, end, rest);
    assert(laws::asked(after, end, rest.skip(1)) =~= Seq::empty());
}

/// A cache after a call that wrote all of it that a call can write.
pub open spec fn written_whole(cache: KvCache, took: KvCache) -> KvCache {
    KvCache {
        storage: took.storage,
        persistent: took.persistent,
        decode_fp16_k: took.decode_fp16_k,
        decode_fp16_v: took.decode_fp16_v,
        offset: took.offset,
        ..cache
    }
}

/// A step that both kernels with an append of their own turned down ends with the
/// codec's own update, and attends plainly, as a ring does.
pub proof fn law_step_turned_down_is_updated(
    cache: KvCache,
    call: Call,
    share: Share,
    replies: Seq<Reply>,
    k: Tensor,
    v: Tensor,
    out: Tensor,
)
    requires
        ({
            let (_, now) = sdpa::starting(cache, sdpa::fresh(call, share));
            route_laws::request_of(now) matches Some(r) && r is Flash
        }),
        replies.len() == 4,
        replies[0].answer is Absent,
        replies[1].answer is Absent,
        replies[2].answer == Answer::Two(k, v),
        replies[3].answer == Answer::One(out),
    ensures
        ({
            let (c, now) = sdpa::starting(cache, sdpa::fresh(call, share));
            &&& laws::asked(c, now, replies) == seq![
                Request::Flash {
                    lock: share is Nothing,
                    queries: call.queries.id,
                    new_k: call.new_k.id,
                    new_v: call.new_v.id,
                    scale: call.scale,
                    mask: call.mask,
                },
                Request::FusedQk {
                    queries: call.queries.id,
                    new_k: call.new_k.id,
                    new_v: call.new_v.id,
                    scale: call.scale,
                    mask: call.mask,
                },
                Request::Update { new_k: call.new_k.id, new_v: call.new_v.id },
                plainly(call, call.queries.id, k, v, call.mask_mode),
            ]
            &&& laws::play(c, now, replies) == (
                written_whole(cache, replies[2].cache),
                Step::Done(Ok(Attended { out, shared: pair_for(share, k, v) })),
            )
        }),
{
    lemma_starts_with_flash(cache, call, share);
    lemma_turned_down(cache, call, share, replies, k, v, out);
}

/// The flash kernel of a call.
spec fn flashing(call: Call, share: Share) -> Step {
    Step::Ask {
        run: Run { call, share, stage: Stage::Flash },
        request: Request::Flash {
            lock: share is Nothing,
            queries: call.queries.id,
            new_k: call.new_k.id,
            new_v: call.new_v.id,
            scale: call.scale,
            mask: call.mask,
        },
    }
}

proof fn lemma_starts_with_flash(cache: KvCache, call: Call, share: Share)
    requires
        ({
            let (_, now) = sdpa::starting(cache, sdpa::fresh(call, share));
            route_laws::request_of(now) matches Some(r) && r is Flash
        }),
    ensures
        sdpa::starting(cache, sdpa::fresh(call, share)) == (cache, flashing(call, share)),
{
}

/// A step takes one reply.
pub proof fn lemma_one_reply(cache: KvCache, now: Step, replies: Seq<Reply>)
    requires
        now is Ask,
        replies.len() > 0,
    ensures
        now matches Step::Ask { run, request } && {
            let (after, next) = laws::turn(cache, run, replies[0]);
            let rest = replies.drop_first();
            &&& laws::play(cache, now, replies) == laws::play(after, next, rest)
            &&& laws::asked(cache, now, replies) == seq![request] + laws::asked(after, next, rest)
        },
{
}

proof fn lemma_turned_down(
    cache: KvCache,
    call: Call,
    share: Share,
    replies: Seq<Reply>,
    k: Tensor,
    v: Tensor,
    out: Tensor,
)
    requires
        replies.len() == 4,
        replies[0].answer is Absent,
        replies[1].answer is Absent,
        replies[2].answer == Answer::Two(k, v),
        replies[3].answer == Answer::One(out),
    ensures
        ({
            let now = flashing(call, share);
            &&& laws::asked(cache, now, replies) == seq![
                now->request,
                Request::FusedQk {
                    queries: call.queries.id,
                    new_k: call.new_k.id,
                    new_v: call.new_v.id,
                    scale: call.scale,
                    mask: call.mask,
                },
                Request::Update { new_k: call.new_k.id, new_v: call.new_v.id },
                plainly(call, call.queries.id, k, v, call.mask_mode),
            ]
            &&& laws::play(cache, now, replies) == (
                written_whole(cache, replies[2].cache),
                Step::Done(Ok(Attended { out, shared: pair_for(share, k, v) })),
            )
        }),
{
    let now = flashing(call, share);
    let fused = Step::Ask {
        run: Run { call, share, stage: Stage::FusedQk },
        request: Request::FusedQk {
            queries: call.queries.id,
            new_k: call.new_k.id,
            new_v: call.new_v.id,
            scale: call.scale,
            mask: call.mask,
        },
    };
    let update = Step::Ask {
        run: Run {
            call,
            share,
            stage: Stage::Gather { mode: call.mask_mode, own_offset: true },
        },
        request: Request::Update { new_k: call.new_k.id, new_v: call.new_v.id },
    };
    assert(laws::turn(cache, now->run, replies[0]) == (cache, fused)) by {
        reveal(laws::turn);
    }
    lemma_takes(cache, now, cache, fused, replies);
    let r1 = replies.skip(1);
    assert(r1[0] == replies[1]);
    assert(laws::turn(cache, fused->run, r1[0]) == (cache, update)) by {
        reveal(laws::turn);
    }
    lemma_takes(cache, fused, cache, update, r1);
    let r2 = r1.skip(1);
    assert(r2[0] == replies[2] && r2[1] == replies[3]);
    let c = written_whole(cache, replies[2].cache);
    lemma_gathered(cache, c, update->run, update->request, call.mask_mode, r2, k, v, out);
}

/// A step that ends in a kernel with an append of its own ends with the output of
/// that kernel. Where it shares, both mirrors are cut to the offset that the kernel
/// left, K first, and what was cut is shared.
pub proof fn law_step_of_a_kernel_with_mirrors(
    cache: KvCache,
    call: Call,
    share: Share,
    replies: Seq<Reply>,
    tried: bool,
    out: Tensor,
    mirror_k: Tensor,
    mirror_v: Tensor,
    k: Tensor,
    v: Tensor,
)
    requires
        ({
            let (_, now) = sdpa::starting(cache, sdpa::fresh(call, share));
            route_laws::request_of(now) matches Some(r) && r is Flash
        }),
        ({
            let at: int = if tried {
                1
            } else {
                0
            };
            let took = replies[at].cache;
            &&& replies.len() == at + 3
            &&& tried ==> replies[0].answer is Absent
            &&& replies[at].answer == Answer::One(out)
            &&& replies[at + 1].answer == Answer::One(k)
            &&& replies[at + 2].answer == Answer::One(v)
            &&& took.decode_fp16_k == Some(mirror_k)
            &&& took.decode_fp16_v == Some(mirror_v)
            &&& mirror_k.shape.rank == 4
            &&& mirror_v.shape.rank == 4
            &&& route_laws::alike_but_length(mirror_k.shape, call.new_k.shape)
            &&& route_laws::alike_but_length(mirror_v.shape, call.new_v.shape)
            &&& took.offset <= mirror_k.shape.d2
            &&& took.offset <= mirror_v.shape.d2
        }),
    ensures
        ({
            let (c, now) = sdpa::starting(cache, sdpa::fresh(call, share));
            let at: int = if tried {
                1
            } else {
                0
            };
            let n = replies[at].cache.offset;
            let asked = laws::asked(c, now, replies);
            &&& laws::play(c, now, replies) == (
                written_whole(cache, replies[at].cache),
                Step::Done(Ok(Attended { out, shared: pair_for(share, k, v) })),
            )
            &&& asked.len() == at + if share is Nothing {
                1int
            } else {
                3
            }
            &&& asked[at] is FusedQk == tried
            &&& asked[at] is Flash == !tried
            &&& !(share is Nothing) ==> {
                &&& asked[at + 1] == (Request::Slice {
                    x: mirror_k.id,
                    stop: Dims::D4(mirror_k.shape.d0, mirror_k.shape.d1, n, mirror_k.shape.d3),
                })
                &&& asked[at + 2] == (Request::Slice {
                    x: mirror_v.id,
                    stop: Dims::D4(mirror_v.shape.d0, mirror_v.shape.d1, n, mirror_v.shape.d3),
                })
            }
        }),
{
    lemma_starts_with_flash(cache, call, share);
    let now = flashing(call, share);
    if tried {
        let then = Step::Ask {
            run: Run { call, share, stage: Stage::FusedQk },
            request: Request::FusedQk {
                queries: call.queries.id,
                new_k: call.new_k.id,
                new_v: call.new_v.id,
                scale: call.scale,
                mask: call.mask,
            },
        };
        let rest = replies.drop_first();
        lemma_one_reply(cache, now, replies);
        assert(laws::turn(cache, now->run, replies[0]) == (cache, then)) by {
            reveal(laws::turn);
        }
        assert(rest[0] == replies[1] && rest[1] == replies[2] && rest[2] == replies[3]);
        lemma_kernel_ran(cache, then->run, then->request, rest, out, mirror_k, mirror_v, k, v);
    } else {
        lemma_kernel_ran(cache, now->run, now->request, replies, out, mirror_k, mirror_v, k, v);
    }
}

/// From a kernel with an append of its own on.
proof fn lemma_kernel_ran(
    cache: KvCache,
    run: Run,
    request: Request,
    replies: Seq<Reply>,
    out: Tensor,
    mirror_k: Tensor,
    mirror_v: Tensor,
    k: Tensor,
    v: Tensor,
)
    requires
        run.stage is Flash || run.stage is FusedQk,
        replies.len() == 3,
        replies[0].answer == Answer::One(out),
        replies[1].answer == Answer::One(k),
        replies[2].answer == Answer::One(v),
        replies[0].cache.decode_fp16_k == Some(mirror_k),
        replies[0].cache.decode_fp16_v == Some(mirror_v),
        mirror_k.shape.rank == 4,
        mirror_v.shape.rank == 4,
        route_laws::alike_but_length(mirror_k.shape, run.call.new_k.shape),
        route_laws::alike_but_length(mirror_v.shape, run.call.new_v.shape),
        replies[0].cache.offset <= mirror_k.shape.d2,
        replies[0].cache.offset <= mirror_v.shape.d2,
    ensures
        ({
            let now = Step::Ask { run, request };
            let n = replies[0].cache.offset;
            &&& laws::play(cache, now, replies) == (
                written_whole(cache, replies[0].cache),
                Step::Done(Ok(Attended { out, shared: pair_for(run.share, k, v) })),
            )
            &&& laws::asked(cache, now, replies) == if run.share is Nothing {
                seq![request]
            } else {
                seq![
                    request,
                    Request::Slice {
                        x: mirror_k.id,
                        stop: Dims::D4(mirror_k.shape.d0, mirror_k.shape.d1, n, mirror_k.shape.d3),
                    },
                    Request::Slice {
                        x: mirror_v.id,
                        stop: Dims::D4(mirror_v.shape.d0, mirror_v.shape.d1, n, mirror_v.shape.d3),
                    },
                ]
            }
        }),
{
    let now = Step::Ask { run, request };
    let c = written_whole(cache, replies[0].cache);
    let n = c.offset;
    let end = Step::Done(Ok(Attended { out, shared: pair_for(run.share, k, v) }));
    let k_stop = Dims::D4(mirror_k.shape.d0, mirror_k.shape.d1, n, mirror_k.shape.d3);
    let v_stop = Dims::D4(mirror_v.shape.d0, mirror_v.shape.d1, n, mirror_v.shape.d3);
    if run.share is Nothing {
        assert(laws::turn(cache, run, replies[0]) == (c, end)) by {
            reveal(laws::turn);
        }
        lemma_takes(cache, now, c, end, replies);
        assert(laws::asked(c, end, replies.skip(1)) =~= Seq::empty());
    } else {
        let cut_k = Step::Ask {
            run: Run { stage: Stage::MirrorK { out, v: mirror_v.id, v_stop }, ..run },
            request: Request::Slice { x: mirror_k.id, stop: k_stop },
        };
        let cut_v = Step::Ask {
            run: Run { stage: Stage::MirrorV { out, k }, ..run },
            request: Request::Slice { x: mirror_v.id, stop: v_stop },
        };
        route_laws::law_mirror_windows_are_prefixes(c, run.call.new_k, run.call.new_v);
        assert(laws::turn(cache, run, replies[0]) == (c, cut_k)) by {
            reveal(laws::turn);
        }
        lemma_takes(cache, now, c, cut_k, replies);
        let r1 = replies.skip(1);
        assert(r1[0] == replies[1]);
        assert(laws::turn(c, cut_k->run, r1[0]) == (c, cut_v)) by {
            reveal(laws::turn);
        }
        lemma_takes(c, cut_k, c, cut_v, r1);
        let r2 = r1.skip(1);
        assert(r2[0] == replies[2]);
        assert(laws::turn(c, cut_v->run, r2[0]) == (c, end)) by {
            reveal(laws::turn);
        }
        lemma_takes(c, cut_v, c, end, r2);
        assert(laws::asked(c, end, r2.skip(1)) =~= Seq::empty());
    }
}

/// A step in an open prefill of an affine cache: K and V are gathered and attended
/// plainly. Where the call brings a mask, that is the mask of the attention. Without
/// one, a chunk of more than one position is attended under the causal mask, and a
/// single position under none. A step of the rotated codec that shares is the one
/// exception: it takes the mask mode of its caller.
pub proof fn law_prefill_is_attended_causally(
    cache: KvCache,
    call: Call,
    share: Share,
    replies: Seq<Reply>,
    k: Tensor,
    v: Tensor,
    out: Tensor,
)
    requires
        !cache.rotating,
        cache.storage is Mixed || cache.storage is RotKTq4V,
        cache.in_prefill,
        call.new_k.shape.rank >= 3,
        route_laws::room_for(cache, call),
        replies.len() == 2,
        replies[0].answer == Answer::Two(k, v),
        replies[1].answer == Answer::One(out),
    ensures
        ({
            let (c, now) = sdpa::starting(cache, sdpa::fresh(call, share));
            let asked = laws::asked(c, now, replies);
            let own = cache.storage is Mixed || share is Nothing;
            &&& asked.len() == 2
            &&& asked[0] == (Request::PrefillRaw { new_k: call.new_k.id, new_v: call.new_v.id })
            &&& asked[1] matches Request::Sdpa { q, k: k2, v: v2, scale, mode, mask } && {
                &&& q == call.queries.id
                &&& k2 == k.id
                &&& v2 == v.id
                &&& scale == call.scale
                &&& mask == call.mask
                &&& own ==> {
                    &&& mode is Array <==> call.mask is Some
                    &&& mode is Causal <==> call.mask is None && call.new_k.shape.d2 > 1
                    &&& mode is Open <==> call.mask is None && call.new_k.shape.d2 <= 1
                }
                &&& !own ==> mode == call.mask_mode
            }
            &&& laws::play(c, now, replies) == (
                KvCache {
                    offset: (cache.offset + call.new_k.shape.d2) as i32,
                    decode_fp16_k: replies[0].cache.decode_fp16_k,
                    decode_fp16_v: replies[0].cache.decode_fp16_v,
                    ..cache
                },
                Step::Done(Ok(Attended { out, shared: pair_for(share, k, v) })),
            )
        }),
{
    let own = cache.storage is Mixed || share is Nothing;
    let mode = if !own {
        call.mask_mode
    } else if call.mask is Some {
        MaskMode::Array
    } else if call.new_k.shape.d2 > 1 {
        MaskMode::Causal
    } else {
        MaskMode::Open
    };
    let now = Step::Ask {
        run: Run { call, share, stage: Stage::Gather { mode, own_offset: false } },
        request: Request::PrefillRaw { new_k: call.new_k.id, new_v: call.new_v.id },
    };
    let moved = KvCache { offset: (cache.offset + call.new_k.shape.d2) as i32, ..cache };
    assert(sdpa::starting(cache, sdpa::fresh(call, share)) == (moved, now));
    let c = KvCache {
        decode_fp16_k: replies[0].cache.decode_fp16_k,
        decode_fp16_v: replies[0].cache.decode_fp16_v,
        ..moved
    };
    lemma_gathered(moved, c, now->run, now->request, mode, replies, k, v, out);
}

/// A step over affine tuples: both sides are appended to and fetched, and attended
/// as they are, with the codec of the storage and the rotation that K came with.
/// Shared are the tuples themselves with that codec, or both mirrors, appended to
/// up to the length that was provisioned; or nothing.
pub proof fn law_affine_step(
    cache: KvCache,
    call: Call,
    share: Share,
    replies: Seq<Reply>,
    params: MixedParams,
    max_seq: i32,
    k: MixedTuple,
    v: MixedTuple,
    rotation: Option<u64>,
    out: Tensor,
    mirror_k: Tensor,
    mirror_v: Tensor,
)
    requires
        !cache.rotating,
        cache.storage is Mixed,
        cache.storage->Mixed_params == params,
        !cache.in_prefill,
        call.new_k.shape.rank >= 3,
        route_laws::room_for(cache, call),
        replies.len() == 3,
        replies[0].answer == (Answer::Mixed { k, v, rotation }),
        replies[0].cache.storage is Mixed,
        replies[0].cache.storage->Mixed_max_seq == max_seq,
        replies[1].answer == Answer::One(out),
        replies[2].answer == Answer::Two(mirror_k, mirror_v),
    ensures
        ({
            let (c, now) = sdpa::starting(cache, sdpa::fresh(call, share));
            let asked = laws::asked(c, now, replies);
            let (last, end) = laws::play(c, now, replies);
            &&& asked.len() == if share is Source {
                3int
            } else {
                2
            }
            &&& asked[0] == (Request::MixedUpdateAndFetch {
                new_k: call.new_k.id,
                new_v: call.new_v.id,
            })
            &&& asked[1] == (Request::MixedSdpa {
                q: call.queries.id,
                k,
                v,
                scale: call.scale,
                mask: call.mask,
                params,
                rotation,
            })
            &&& share is Source ==> asked[2] == (Request::UpdateDecodeFp16 {
                new_k: call.new_k.id,
                new_v: call.new_v.id,
                max_seq,
            })
            &&& end matches Step::Done(Ok(a)) && a.out == out && match share {
                Share::Nothing => a.shared == Shared::Nothing,
                Share::Source => a.shared == Shared::Source(SharedKv::Bf16(mirror_k, mirror_v)),
                Share::Out => a.shared == Shared::Out(
                    SharedKvOut::MixedQuant {
                        k,
                        v,
                        k_rotation: rotation,
                        k_bits: params.k_bits,
                        v_bits: params.v_bits,
                        k_group_size: params.k_group_size,
                        v_group_size: params.v_group_size,
                    },
                ),
            }
            &&& last == KvCache {
                offset: (cache.offset + call.new_k.shape.d2) as i32,
                storage: replies[0].cache.storage,
                persistent: replies[0].cache.persistent,
                decode_fp16_k: if share is Source {
                    replies[2].cache.decode_fp16_k
                } else {
                    cache.decode_fp16_k
                },
                decode_fp16_v: if share is Source {
                    replies[2].cache.decode_fp16_v
                } else {
                    cache.decode_fp16_v
                },
                ..cache
            }
        }),
{
    let now = Step::Ask {
        run: Run { call, share, stage: Stage::MixedFetch { params } },
        request: Request::MixedUpdateAndFetch { new_k: call.new_k.id, new_v: call.new_v.id },
    };
    let moved = KvCache { offset: (cache.offset + call.new_k.shape.d2) as i32, ..cache };
    assert(sdpa::starting(cache, sdpa::fresh(call, share)) == (moved, now));
    let c = KvCache {
        storage: replies[0].cache.storage,
        persistent: replies[0].cache.persistent,
        ..moved
    };
    let attend = Step::Ask {
        run: Run { call, share, stage: Stage::MixedSdpa { k, v, rotation, params } },
        request: Request::MixedSdpa {
            q: call.queries.id,
            k,
            v,
            scale: call.scale,
            mask: call.mask,
            params,
            rotation,
        },
    };
    assert(laws::turn(moved, now->run, replies[0]) == (c, attend)) by {
        reveal(laws::turn);
    }
    lemma_takes(moved, now, c, attend, replies);
    let r1 = replies.skip(1);
    assert(r1[0] == replies[1]);
    let (after, next) = laws::turn(c, attend->run, r1[0]);
    lemma_takes(c, attend, after, next, r1);
    if share is Source {
        let append = Step::Ask {
            run: Run { call, share, stage: Stage::MixedMirror { out } },
            request: Request::UpdateDecodeFp16 {
                new_k: call.new_k.id,
                new_v: call.new_v.id,
                max_seq,
            },
        };
        assert((after, next) == (c, append)) by {
            reveal(laws::turn);
        }
        let r2 = r1.skip(1);
        assert(r2[0] == replies[2]);
        let last = KvCache {
            decode_fp16_k: replies[2].cache.decode_fp16_k,
            decode_fp16_v: replies[2].cache.decode_fp16_v,
            ..c
        };
        let end = Step::Done(
            Ok(Attended { out, shared: Shared::Source(SharedKv::Bf16(mirror_k, mirror_v)) }),
        );
        assert(laws::turn(c, append->run, r2[0]) == (last, end)) by {
            reveal(laws::turn);
        }
        lemma_takes(c, append, last, end, r2);
        assert(laws::asked(last, end, r2.skip(1)) =~= Seq::empty());
    } else {
        assert(after == c && next is Done) by {
            reveal(laws::turn);
        }
        assert(laws::asked(after, next, r1.skip(1)) =~= Seq::empty());
        assert(next matches Step::Done(Ok(a)) && a.out == out && match share {
            Share::Nothing => a.shared == Shared::Nothing,
            _ => a.shared == Shared::Out(
                SharedKvOut::MixedQuant {
                    k,
                    v,
                    k_rotation: rotation,
                    k_bits: params.k_bits,
                    v_bits: params.v_bits,
                    k_group_size: params.k_group_size,
                    v_group_size: params.v_group_size,
                },
            ),
        }) by {
            reveal(laws::turn);
        }
    }
}

/// A step put on the mixed-precision path runs with the codec of an affine
/// storage; on any other storage the mode alone decides whether it may run at all,
/// and only an open prefill lets it.
pub proof fn law_mixed_path_starts(cache: KvCache, call: Call)
    ensures
        ({
            let (c, now) = mixed::starting(cache, sdpa::fresh(call, Share::Nothing));
            let affine = cache.storage is Mixed || cache.quant is Mixed || cache.quant is RotK;
            let counted = call.new_k.shape.rank >= 3 && route_laws::room_for(cache, call);
            let moved = KvCache { offset: (cache.offset + call.new_k.shape.d2) as i32, ..cache };
            &&& !affine ==> (c, now) == (cache, Step::Done(Err(Error::NotMixedPath)))
            &&& affine && call.new_k.shape.rank < 3 ==> (c, now) == (
                cache,
                Step::Done(Err(Error::NoStepAxis { shape: call.new_k.shape })),
            )
            &&& affine && call.new_k.shape.rank >= 3 && !counted ==> (c, now) == (
                cache,
                Step::Done(
                    Err(
                        Error::OffsetOverflow { offset: cache.offset, new_seq: call.new_k.shape.d2 },
                    ),
                ),
            )
            &&& affine && counted ==> c == moved
            &&& affine && counted && cache.in_prefill ==> route_laws::request_of(now) == Some(
                Request::PrefillRaw { new_k: call.new_k.id, new_v: call.new_v.id },
            )
            &&& affine && counted && !cache.in_prefill && cache.storage is Mixed
                ==> route_laws::request_of(now) == Some(
                Request::MixedUpdateAndFetch { new_k: call.new_k.id, new_v: call.new_v.id },
            )
            &&& affine && counted && !cache.in_prefill && !(cache.storage is Mixed) ==> now
                == Step::Done(
                Err(
                    Error::KvStorageMismatch {
                        expected: Expected::Mixed,
                        got: cache.storage.spec_kind(),
                    },
                ),
            )
        }),
{
}

/// The modes that run on the affine codec, and their parameters: the mixed mode
/// says all four, the rotated mode those of V, with K in eight bits by groups of
/// sixty-four.
pub proof fn law_affine_modes(quant: KvQuant)
    ensures
        quant.spec_mixed_params() matches Some(p) ==> match quant {
            KvQuant::Mixed { k_bits, v_bits, k_group_size, v_group_size } => p.k_bits == k_bits
                && p.v_bits == v_bits && p.k_group_size == k_group_size && p.v_group_size
                == v_group_size,
            KvQuant::RotK { v_bits, v_group_size } => p.k_bits == 8 && p.v_bits == v_bits
                && p.k_group_size == 64 && p.v_group_size == v_group_size,
            _ => false,
        },
        quant.spec_mixed_params() is None ==> !(quant is Mixed) && !(quant is RotK),
{
}

/// A step that decodes packed K itself does what the decoding does, and attends
/// the K and V that it gives, with its own queries and under its own mask.
pub proof fn law_unpacked_k_is_attended(
    cache: KvCache,
    run: Run,
    inner: TensorsRun,
    reply: Reply,
)
    requires
        run.stage == (Stage::Unpack { run: inner }),
    ensures
        ({
            let (after, next) = laws::turn(cache, run, reply);
            &&& after == cache
            &&& match materialise::resumed(cache, inner, reply.answer) {
                TensorsStep::Ask { run: r, request } => {
                    &&& route_laws::request_of(next) == Some(request)
                    &&& next->run.stage == (Stage::Unpack { run: r })
                },
                TensorsStep::Done(Ok((k, v))) => route_laws::request_of(next) == Some(
                    plainly(run.call, run.call.queries.id, k, v, run.call.mask_mode),
                ),
                TensorsStep::Done(Err(e)) => next == Step::Done(Err(e)),
            }
        }),
{
    reveal(laws::turn);
}

} // verus!
