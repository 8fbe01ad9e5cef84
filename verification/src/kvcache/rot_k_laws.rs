//! Whole steps over rotated K, told by their inputs.
use vstd::prelude::*;

use crate::error::Error;
use crate::kvcache::request::{Answer, Call, KvCache, Reply, Request, RotKFetch};
use crate::kvcache::step::{Attended, Run, Share, Shared, Stage, Step};
use crate::kvcache::storage::KvStorage;
use crate::kvcache::{flow_laws, laws, rot_k, route_laws, sdpa};
use crate::tensor::{MaskMode, Shape, Tensor};

verus! {

/// Whether replies answer as listed.
pub open spec fn reply_with(replies: Seq<Reply>, answers: Seq<Answer>) -> bool {
    &&& replies.len() == answers.len()
    &&& forall|i: int| 0 <= i < answers.len() ==> (#[trigger] replies[i]).answer == answers[i]
}

/// The answers up to the V of a step over rotated K: K as it was fetched, the host
/// rows of the new V where there is no GPU, the append, and V decoded, on the
/// device or over host rows that are brought back.
pub open spec fn front_answers(
    call: Call,
    fetch: RotKFetch,
    rows: u64,
    decoded: Option<u64>,
    v: Tensor,
) -> Seq<Answer> {
    (if call.device is Gpu {
        seq![Answer::RotK(fetch), Answer::Done]
    } else {
        seq![Answer::RotK(fetch), Answer::Host(rows), Answer::Done]
    }) + match decoded {
        Some(d) => seq![Answer::Host(d), Answer::One(v)],
        None => seq![Answer::One(v)],
    }
}

/// The requests up to the V of a step over rotated K: the new K is appended, then
/// the new V, off host rows where there is no GPU, and all of V is decoded in the
/// element type of the new V; where that gave host rows they are brought back in
/// the shape of the buffer.
pub open spec fn front_requests(
    call: Call,
    rows: u64,
    decoded: Option<u64>,
    buffer: Shape,
) -> Seq<Request> {
    let append = |r: Option<u64>|
        Request::RotKAppendV { rows: r, shape: call.new_v.shape, new_v: call.new_v.id };
    let decode = Request::RotKDequantV { dtype: call.new_v.dtype };
    (if call.device is Gpu {
        seq![Request::RotKUpdateK { new_k: call.new_k.id }, append(None), decode]
    } else {
        seq![
            Request::RotKUpdateK { new_k: call.new_k.id },
            Request::HostRows { x: call.new_v.id },
            append(Some(rows)),
            decode,
        ]
    }) + match decoded {
        Some(d) => seq![Request::UploadRows { rows: d, shape: buffer }],
        None => Seq::empty(),
    }
}

/// The place of the append of V among the replies.
pub open spec fn append_at(call: Call) -> int {
    if call.device is Gpu {
        1
    } else {
        2
    }
}

/// The storage that a reply left, taken over.
spec fn stored(cache: KvCache, took: KvCache) -> KvCache {
    KvCache { storage: took.storage, persistent: took.persistent, ..cache }
}

/// Waiting for the append of V.
spec fn appending(call: Call, share: Share, fetch: RotKFetch, rows: Option<u64>) -> Step {
    Step::Ask {
        run: Run { call, share, stage: Stage::RotKAppendV { fetch } },
        request: Request::RotKAppendV { rows, shape: call.new_v.shape, new_v: call.new_v.id },
    }
}

/// Up to the append of V.
proof fn lemma_to_append(
    cache: KvCache,
    call: Call,
    share: Share,
    replies: Seq<Reply>,
    fetch: RotKFetch,
    rows: u64,
)
    requires
        replies.len() > 2,
        replies[0].answer == Answer::RotK(fetch),
        !(call.device is Gpu) ==> replies[1].answer == Answer::Host(rows),
        replies[0].cache.storage matches KvStorage::RotKTq4V { v: Some(_) },
    ensures
        ({
            let now = Step::Ask {
                run: Run { call, share, stage: Stage::RotKUpdateK },
                request: Request::RotKUpdateK { new_k: call.new_k.id },
            };
            let c = stored(cache, replies[0].cache);
            let at = append_at(call);
            let next = appending(
                call,
                share,
                fetch,
                if call.device is Gpu {
                    None
                } else {
                    Some(rows)
                },
            );
            &&& laws::play(cache, now, replies) == laws::play(c, next, replies.skip(at))
            &&& laws::asked(cache, now, replies) == (if call.device is Gpu {
                seq![now->request]
            } else {
                seq![now->request, Request::HostRows { x: call.new_v.id }]
            }) + laws::asked(c, next, replies.skip(at))
        }),
{
    let now = Step::Ask {
        run: Run { call, share, stage: Stage::RotKUpdateK },
        request: Request::RotKUpdateK { new_k: call.new_k.id },
    };
    let c = stored(cache, replies[0].cache);
    if call.device is Gpu {
        let next = appending(call, share, fetch, None);
        assert(laws::turn(cache, now->run, replies[0]) == (c, next)) by {
            reveal(laws::turn);
        }
        flow_laws::lemma_takes(cache, now, c, next, replies);
    } else {
        let host = Step::Ask {
            run: Run { call, share, stage: Stage::RotKHostRows { fetch } },
            request: Request::HostRows { x: call.new_v.id },
        };
        let next = appending(call, share, fetch, Some(rows));
        assert(laws::turn(cache, now->run, replies[0]) == (c, host)) by {
            reveal(laws::turn);
        }
        flow_laws::lemma_takes(cache, now, c, host, replies);
        let r1 = replies.skip(1);
        assert(r1[0] == replies[1]);
        assert(laws::turn(c, host->run, r1[0]) == (c, next)) by {
            reveal(laws::turn);
        }
        flow_laws::lemma_takes(c, host, c, next, r1);
        assert(r1.skip(1) =~= replies.skip(2));
    }
}

/// From the append of V to V in hand.
proof fn lemma_to_values(
    cache: KvCache,
    call: Call,
    share: Share,
    replies: Seq<Reply>,
    fetch: RotKFetch,
    rows: Option<u64>,
    decoded: Option<u64>,
    v: Tensor,
    buffer: Shape,
)
    requires
        replies.len() >= if decoded is Some {
            3int
        } else {
            2
        },
        replies[0].answer is Done,
        match decoded {
            Some(d) => replies[1].answer == Answer::Host(d) && replies[2].answer == Answer::One(v),
            None => replies[1].answer == Answer::One(v),
        },
        replies[0].cache.storage == (KvStorage::RotKTq4V { v: Some(buffer) }),
    ensures
        ({
            let now = appending(call, share, fetch, rows);
            let c = stored(cache, replies[0].cache);
            let run = Run { call, share, stage: Stage::RotKDequantV { fetch } };
            let next = rot_k::after_v(run, fetch, v);
            let decode = Request::RotKDequantV { dtype: call.new_v.dtype };
            match decoded {
                None => {
                    &&& laws::play(cache, now, replies) == laws::play(c, next, replies.skip(2))
                    &&& laws::asked(cache, now, replies) == seq![now->request, decode]
                        + laws::asked(c, next, replies.skip(2))
                },
                Some(d) => {
                    &&& laws::play(cache, now, replies) == laws::play(c, next, replies.skip(3))
                    &&& laws::asked(cache, now, replies) == seq![
                        now->request,
                        decode,
                        Request::UploadRows { rows: d, shape: buffer },
                    ] + laws::asked(c, next, replies.skip(3))
                },
            }
        }),
{
    let now = appending(call, share, fetch, rows);
    let c = stored(cache, replies[0].cache);
    let run = Run { call, share, stage: Stage::RotKDequantV { fetch } };
    let next = rot_k::after_v(run, fetch, v);
    let then = Step::Ask { run, request: Request::RotKDequantV { dtype: call.new_v.dtype } };
    assert(laws::turn(cache, now->run, replies[0]) == (c, then)) by {
        reveal(laws::turn);
    }
    flow_laws::lemma_takes(cache, now, c, then, replies);
    let r1 = replies.skip(1);
    assert(r1[0] == replies[1]);
    match decoded {
        None => {
            assert(laws::turn(c, run, r1[0]) == (c, next)) by {
                reveal(laws::turn);
            }
            flow_laws::lemma_takes(c, then, c, next, r1);
            assert(r1.skip(1) =~= replies.skip(2));
        },
        Some(d) => {
            let up = Step::Ask {
                run: Run { call, share, stage: Stage::RotKUpload { fetch } },
                request: Request::UploadRows { rows: d, shape: buffer },
            };
            assert(laws::turn(c, run, r1[0]) == (c, up)) by {
                reveal(laws::turn);
            }
            flow_laws::lemma_takes(c, then, c, up, r1);
            let r2 = r1.skip(1);
            assert(r2[0] == replies[2]);
            assert(laws::turn(c, up->run, r2[0]) == (c, next)) by {
                reveal(laws::turn);
            }
            flow_laws::lemma_takes(c, up, c, next, r2);
            assert(r2.skip(1) =~= replies.skip(3));
        },
    }
}

/// From the start to V in hand.
proof fn lemma_front(
    cache: KvCache,
    call: Call,
    share: Share,
    replies: Seq<Reply>,
    fetch: RotKFetch,
    rows: u64,
    decoded: Option<u64>,
    v: Tensor,
    buffer: Shape,
    tail: Seq<Answer>,
)
    requires
        !cache.rotating,
        cache.storage is RotKTq4V,
        !cache.in_prefill,
        call.new_k.shape.rank >= 3,
        route_laws::room_for(cache, call),
        reply_with(replies, front_answers(call, fetch, rows, decoded, v) + tail),
        replies[0].cache.storage matches KvStorage::RotKTq4V { v: Some(_) },
        replies[append_at(call)].cache.storage == (KvStorage::RotKTq4V { v: Some(buffer) }),
    ensures
        ({
            let (c, now) = sdpa::starting(cache, sdpa::fresh(call, share));
            let n = front_answers(call, fetch, rows, decoded, v).len() as int;
            let took = replies[append_at(call)].cache;
            let after = KvCache {
                offset: (cache.offset + call.new_k.shape.d2) as i32,
                storage: took.storage,
                persistent: took.persistent,
                ..cache
            };
            let next = rot_k::after_v(Run { call, share, stage: Stage::RotKDequantV { fetch } }, fetch, v);
            &&& laws::play(c, now, replies) == laws::play(after, next, replies.skip(n))
            &&& laws::asked(c, now, replies) == front_requests(call, rows, decoded, buffer)
                + laws::asked(after, next, replies.skip(n))
            &&& reply_with(replies.skip(n), tail)
        }),
{
    let front = front_answers(call, fetch, rows, decoded, v);
    let answers = front + tail;
    let moved = KvCache { offset: (cache.offset + call.new_k.shape.d2) as i32, ..cache };
    let now = Step::Ask {
        run: Run { call, share, stage: Stage::RotKUpdateK },
        request: Request::RotKUpdateK { new_k: call.new_k.id },
    };
    assert(sdpa::starting(cache, sdpa::fresh(call, share)) == (moved, now));
    assert(replies[0].answer == answers[0]);
    assert(replies[1].answer == answers[1]);
    let at = append_at(call);
    lemma_to_append(moved, call, share, replies, fetch, rows);
    let rest = replies.skip(at);
    assert(rest[0] == replies[at] && replies[at].answer == answers[at]);
    assert(rest[1] == replies[at + 1] && replies[at + 1].answer == answers[at + 1]);
    if decoded is Some {
        assert(rest[2] == replies[at + 2] && replies[at + 2].answer == answers[at + 2]);
    }
    let c1 = stored(moved, replies[0].cache);
    let r = if call.device is Gpu {
        None
    } else {
        Some(rows)
    };
    lemma_to_values(c1, call, share, rest, fetch, r, decoded, v, buffer);
    let n = front.len() as int;
    assert(rest.skip(n - at) =~= replies.skip(n));
    assert forall|i: int| 0 <= i < tail.len() implies (#[trigger] replies.skip(n)[i]).answer
        == tail[i] by {
        assert(replies[n + i].answer == answers[n + i]);
    }
}

/// A step over rotated K that shares nothing: K and V are appended, V is decoded,
/// and the queries attend the K tuple as it was fetched and that V, with K in eight
/// bits by groups of sixty-four and under the rotation that it came with.
pub proof fn law_rotated_step(
    cache: KvCache,
    call: Call,
    replies: Seq<Reply>,
    fetch: RotKFetch,
    rows: u64,
    decoded: Option<u64>,
    v: Tensor,
    buffer: Shape,
    out: Tensor,
)
    requires
        !cache.rotating,
        cache.storage is RotKTq4V,
        !cache.in_prefill,
        call.new_k.shape.rank >= 3,
        route_laws::room_for(cache, call),
        reply_with(
            replies,
            front_answers(call, fetch, rows, decoded, v) + seq![Answer::One(out)],
        ),
        replies[0].cache.storage matches KvStorage::RotKTq4V { v: Some(_) },
        replies[append_at(call)].cache.storage == (KvStorage::RotKTq4V { v: Some(buffer) }),
    ensures
        ({
            let (c, now) = sdpa::starting(cache, sdpa::fresh(call, Share::Nothing));
            let took = replies[append_at(call)].cache;
            &&& laws::asked(c, now, replies) == front_requests(call, rows, decoded, buffer).push(
                Request::RotKTq4VSdpa {
                    q: call.queries.id,
                    k: fetch.k,
                    v: v.id,
                    scale: call.scale,
                    mask: call.mask,
                    group_size: 64,
                    bits: 8,
                    rotation: fetch.rotation,
                },
            )
            &&& laws::play(c, now, replies) == (
                KvCache {
                    offset: (cache.offset + call.new_k.shape.d2) as i32,
                    storage: took.storage,
                    persistent: took.persistent,
                    ..cache
                },
                Step::Done(Ok(Attended { out, shared: Shared::Nothing })),
            )
        }),
{
    let tail = seq![Answer::One(out)];
    lemma_front(cache, call, Share::Nothing, replies, fetch, rows, decoded, v, buffer, tail);
    let n = front_answers(call, fetch, rows, decoded, v).len() as int;
    let took = replies[append_at(call)].cache;
    let after = KvCache {
        offset: (cache.offset + call.new_k.shape.d2) as i32,
        storage: took.storage,
        persistent: took.persistent,
        ..cache
    };
    let run = Run { call, share: Share::Nothing, stage: Stage::RotKDequantV { fetch } };
    let next = rot_k::after_v(run, fetch, v);
    let rest = replies.skip(n);
    assert(rest[0].answer == tail[0]);
    let end = Step::Done(Ok(Attended { out, shared: Shared::Nothing }));
    assert(laws::turn(after, next->run, rest[0]) == (after, end)) by {
        reveal(laws::turn);
    }
    flow_laws::lemma_takes(after, next, after, end, rest);
    assert(laws::asked(after, next, rest) =~= seq![next->request]);
    let (c, now) = sdpa::starting(cache, sdpa::fresh(call, Share::Nothing));
    assert(laws::asked(c, now, replies) =~= front_requests(call, rows, decoded, buffer).push(
        next->request,
    ));
}

/// How the queries of a step are turned to meet K as it is stored.
pub enum Turning {
    /// K came without a rotation.
    NotAtAll,
    /// By a product with the rotation matrix.
    Product { rotation: u64 },
    /// By a product, since the fused kernel does not take heads of this dimension.
    Unsupported { rotation: u64 },
    /// By a product, since the fused kernel failed.
    Failed { rotation: u64, code: u64 },
    /// By the fused kernel.
    Fused { rotation: u64 },
}

/// The rotation under which K is stored.
pub open spec fn rotation_of(turning: Turning) -> Option<u64> {
    match turning {
        Turning::NotAtAll => None,
        Turning::Product { rotation } => Some(rotation),
        Turning::Unsupported { rotation } => Some(rotation),
        Turning::Failed { rotation, .. } => Some(rotation),
        Turning::Fused { rotation } => Some(rotation),
    }
}

/// What is asked for to turn the queries of a call.
pub open spec fn turn_requests(turning: Turning, call: Call) -> Seq<Request> {
    let q = call.queries.id;
    let d = if call.queries.shape.rank == 0 {
        0
    } else {
        call.queries.shape.last
    };
    match turning {
        Turning::NotAtAll => Seq::empty(),
        Turning::Product { rotation } => seq![Request::RotateLastAxis { x: q, rotation }],
        Turning::Unsupported { rotation } => seq![
            Request::FwhtSupported { d },
            Request::RotateLastAxis { x: q, rotation },
        ],
        Turning::Failed { rotation, .. } => seq![
            Request::FwhtSupported { d },
            Request::FwhtRotate { x: q },
            Request::RotateLastAxis { x: q, rotation },
        ],
        Turning::Fused { .. } => seq![Request::FwhtSupported { d }, Request::FwhtRotate { x: q }],
    }
}

/// What is answered where the queries come out as `turned`.
pub open spec fn turn_answers(turning: Turning, turned: Tensor) -> Seq<Answer> {
    match turning {
        Turning::NotAtAll => Seq::empty(),
        Turning::Product { .. } => seq![Answer::One(turned)],
        Turning::Unsupported { .. } => seq![Answer::Flag(false), Answer::One(turned)],
        Turning::Failed { code, .. } => seq![
            Answer::Flag(true),
            Answer::Failed(code),
            Answer::One(turned),
        ],
        Turning::Fused { .. } => seq![Answer::Flag(true), Answer::One(turned)],
    }
}

/// Plain attention over decoded K, and its end.
proof fn lemma_attends(
    cache: KvCache,
    run: Run,
    q: u64,
    k: Tensor,
    v: Tensor,
    reply: Reply,
    out: Tensor,
)
    requires
        reply.answer == Answer::One(out),
    ensures
        ({
            let now = rot_k::attending_rotated(run, q, k, v);
            let mode = if run.call.mask is Some {
                MaskMode::Array
            } else {
                MaskMode::Causal
            };
            &&& laws::asked(cache, now, seq![reply]) == seq![
                flow_laws::plainly(run.call, q, k, v, mode),
            ]
            &&& laws::play(cache, now, seq![reply]) == (
                cache,
                Step::Done(Ok(Attended { out, shared: flow_laws::pair_for(run.share, k, v) })),
            )
        }),
{
    reveal(laws::turn);
    reveal_with_fuel(laws::play, 2);
    reveal_with_fuel(laws::asked, 2);
}

/// The product with the rotation matrix, and plain attention with what it gives.
proof fn lemma_product(
    cache: KvCache,
    run: Run,
    rotation: u64,
    k: Tensor,
    v: Tensor,
    turned: Tensor,
    replies: Seq<Reply>,
)
    requires
        replies.len() == 2,
        replies[0].answer == Answer::One(turned),
    ensures
        ({
            let now = rot_k::rotating(run, k, v, rotation);
            let next = rot_k::attending_rotated(run, turned.id, k, v);
            &&& laws::asked(cache, now, replies) == seq![
                Request::RotateLastAxis { x: run.call.queries.id, rotation },
            ] + laws::asked(cache, next, seq![replies[1]])
            &&& laws::play(cache, now, replies) == laws::play(cache, next, seq![replies[1]])
        }),
{
    let now = rot_k::rotating(run, k, v, rotation);
    let next = rot_k::attending_rotated(run, turned.id, k, v);
    assert(laws::turn(cache, now->run, replies[0]) == (cache, next)) by {
        reveal(laws::turn);
    }
    flow_laws::lemma_takes(cache, now, cache, next, replies);
    assert(replies.skip(1) =~= seq![replies[1]]);
}

/// From decoded K to plain attention over it.
proof fn lemma_turned(
    cache: KvCache,
    run: Run,
    replies: Seq<Reply>,
    turning: Turning,
    k: Tensor,
    v: Tensor,
    turned: Tensor,
    out: Tensor,
)
    requires
        turning is Product ==> !run.call.toggles.rot_k_fused,
        turning is Unsupported || turning is Failed || turning is Fused
            ==> run.call.toggles.rot_k_fused,
        reply_with(replies, turn_answers(turning, turned) + seq![Answer::One(out)]),
    ensures
        ({
            let now = rot_k::after_decode(run, k, v, rotation_of(turning));
            let q = if turning is NotAtAll {
                run.call.queries.id
            } else {
                turned.id
            };
            let mode = if run.call.mask is Some {
                MaskMode::Array
            } else {
                MaskMode::Causal
            };
            &&& laws::asked(cache, now, replies) == turn_requests(turning, run.call).push(
                flow_laws::plainly(run.call, q, k, v, mode),
            )
            &&& laws::play(cache, now, replies) == (
                cache,
                Step::Done(Ok(Attended { out, shared: flow_laws::pair_for(run.share, k, v) })),
            )
        }),
{
    let answers = turn_answers(turning, turned) + seq![Answer::One(out)];
    let n = answers.len() as int;
    assert(replies[0].answer == answers[0]);
    let end = replies[n - 1];
    assert(end.answer == answers[n - 1]);
    let now = rot_k::after_decode(run, k, v, rotation_of(turning));
    match turning {
        Turning::NotAtAll => {
            lemma_attends(cache, run, run.call.queries.id, k, v, end, out);
            assert(replies =~= seq![end]);
            assert(turn_requests(turning, run.call).push(
                flow_laws::plainly(
                    run.call,
                    run.call.queries.id,
                    k,
                    v,
                    rot_k::decode_mode(run.call.mask),
                ),
            ) =~= laws::asked(cache, now, replies));
        },
        Turning::Product { rotation } => {
            lemma_attends(cache, run, turned.id, k, v, end, out);
            lemma_product(cache, run, rotation, k, v, turned, replies);
        },
        _ => {
            let rotation = rotation_of(turning)->Some_0;
            let rest = replies.skip(1);
            assert(rest[0] == replies[1] && replies[1].answer == answers[1]);
            lemma_attends(cache, run, turned.id, k, v, end, out);
            if turning is Unsupported {
                let next = rot_k::rotating(run, k, v, rotation);
                assert(laws::turn(cache, now->run, replies[0]) == (cache, next)) by {
                    reveal(laws::turn);
                }
                flow_laws::lemma_takes(cache, now, cache, next, replies);
                lemma_product(cache, run, rotation, k, v, turned, rest);
            } else {
                let fused = Step::Ask {
                    run: Run { stage: Stage::RotKFwht { k, v, rotation }, ..run },
                    request: Request::FwhtRotate { x: run.call.queries.id },
                };
                assert(laws::turn(cache, now->run, replies[0]) == (cache, fused)) by {
                    reveal(laws::turn);
                }
                flow_laws::lemma_takes(cache, now, cache, fused, replies);
                let last = rest.skip(1);
                assert(last[0] == replies[2] && replies[2].answer == answers[2]);
                if turning is Failed {
                    let next = rot_k::rotating(run, k, v, rotation);
                    assert(laws::turn(cache, fused->run, rest[0]) == (cache, next)) by {
                        reveal(laws::turn);
                    }
                    flow_laws::lemma_takes(cache, fused, cache, next, rest);
                    lemma_product(cache, run, rotation, k, v, turned, last);
                } else {
                    let next = rot_k::attending_rotated(run, turned.id, k, v);
                    assert(laws::turn(cache, fused->run, rest[0]) == (cache, next)) by {
                        reveal(laws::turn);
                    }
                    flow_laws::lemma_takes(cache, fused, cache, next, rest);
                    assert(last =~= seq![end]);
                }
            }
        },
    }
}

/// A step over rotated K that shares: K and V are appended and both decoded, K by
/// the codec that it was fetched with; the queries are turned, where K came with a
/// rotation, by the fused kernel where it is switched on, takes the heads and does
/// not fail, else by a product with the rotation matrix; and the turned queries
/// attend plainly, under the mask of the call, or else the causal one. What was
/// attended is shared.
pub proof fn law_rotated_step_shared(
    cache: KvCache,
    call: Call,
    share: Share,
    replies: Seq<Reply>,
    fetch: RotKFetch,
    rows: u64,
    decoded: Option<u64>,
    v: Tensor,
    buffer: Shape,
    turning: Turning,
    k: Tensor,
    turned: Tensor,
    out: Tensor,
)
    requires
        !(share is Nothing),
        !cache.rotating,
        cache.storage is RotKTq4V,
        !cache.in_prefill,
        call.new_k.shape.rank >= 3,
        route_laws::room_for(cache, call),
        fetch.rotation == rotation_of(turning),
        turning is Product ==> !call.toggles.rot_k_fused,
        turning is Unsupported || turning is Failed || turning is Fused
            ==> call.toggles.rot_k_fused,
        reply_with(
            replies,
            front_answers(call, fetch, rows, decoded, v) + (seq![Answer::One(k)] + (turn_answers(
                turning,
                turned,
            ) + seq![Answer::One(out)])),
        ),
        replies[0].cache.storage matches KvStorage::RotKTq4V { v: Some(_) },
        replies[append_at(call)].cache.storage == (KvStorage::RotKTq4V { v: Some(buffer) }),
    ensures
        ({
            let (c, now) = sdpa::starting(cache, sdpa::fresh(call, share));
            let took = replies[append_at(call)].cache;
            let q = if turning is NotAtAll {
                call.queries.id
            } else {
                turned.id
            };
            let mode = if call.mask is Some {
                MaskMode::Array
            } else {
                MaskMode::Causal
            };
            &&& laws::asked(c, now, replies) == front_requests(call, rows, decoded, buffer) + (seq![
                Request::Dequantize {
                    tuple: fetch.k,
                    group_size: fetch.group_size,
                    bits: fetch.bits,
                },
            ] + turn_requests(turning, call).push(flow_laws::plainly(call, q, k, v, mode)))
            &&& laws::play(c, now, replies) == (
                KvCache {
                    offset: (cache.offset + call.new_k.shape.d2) as i32,
                    storage: took.storage,
                    persistent: took.persistent,
                    ..cache
                },
                Step::Done(Ok(Attended { out, shared: flow_laws::pair_for(share, k, v) })),
            )
        }),
{
    let last = turn_answers(turning, turned) + seq![Answer::One(out)];
    let tail = seq![Answer::One(k)] + last;
    lemma_front(cache, call, share, replies, fetch, rows, decoded, v, buffer, tail);
    let n = front_answers(call, fetch, rows, decoded, v).len() as int;
    let took = replies[append_at(call)].cache;
    let after = KvCache {
        offset: (cache.offset + call.new_k.shape.d2) as i32,
        storage: took.storage,
        persistent: took.persistent,
        ..cache
    };
    let run = Run { call, share, stage: Stage::RotKDequantV { fetch } };
    let next = rot_k::after_v(run, fetch, v);
    let rest = replies.skip(n);
    assert(rest[0].answer == tail[0]);
    let then = rot_k::after_decode(next->run, k, v, fetch.rotation);
    assert(laws::turn(after, next->run, rest[0]) == (after, then)) by {
        reveal(laws::turn);
    }
    flow_laws::lemma_takes(after, next, after, then, rest);
    let after_k = rest.skip(1);
    assert forall|i: int| 0 <= i < last.len() implies (#[trigger] after_k[i]).answer == last[i] by {
        assert(rest[i + 1].answer == tail[i + 1]);
    }
    lemma_turned(after, next->run, after_k, turning, k, v, turned, out);
}

/// Without a V buffer there is nothing to append V to: the step ends there, and
/// says which of the two is wrong, the buffer or the storage.
pub proof fn law_rotated_step_needs_its_buffer(
    cache: KvCache,
    call: Call,
    share: Share,
    reply: Reply,
    fetch: RotKFetch,
)
    requires
        !cache.rotating,
        cache.storage is RotKTq4V,
        !cache.in_prefill,
        call.new_k.shape.rank >= 3,
        route_laws::room_for(cache, call),
        call.device is Gpu,
        reply.answer == Answer::RotK(fetch),
    ensures
        ({
            let (c, now) = sdpa::starting(cache, sdpa::fresh(call, share));
            let end = laws::play(c, now, seq![reply]).1;
            match reply.cache.storage {
                KvStorage::RotKTq4V { v: Some(_) } => end is Ask,
                KvStorage::RotKTq4V { v: None } => end == Step::Done(
                    Err(Error::RotKValueBufferMissing),
                ),
                _ => end == Step::Done(
                    Err(Error::RotKStorageMismatch { got: reply.cache.storage.spec_kind() }),
                ),
            }
        }),
{
    reveal(laws::turn);
    reveal_with_fuel(laws::play, 2);
}

} // verus!
