//! What a run over a store asks for and comes to, told by the store, the call and
//! the answers.
use vstd::prelude::*;

use crate::error::{Error, Expected, Fused, Side};
use crate::kvcache::over_store::{StoreCall, StoreRun, StoreStage, StoreStep};
use crate::kvcache::request::{Answer, Geometry, KvCache, Packed, Request};
use crate::kvcache::storage::{KvStorage, RotorKStore};
use crate::kvcache::{gate, over_store};
use crate::tensor::{Dims, Shape, Tensor};

verus! {

/// A run over a store driven by a list of answers.
pub open spec fn play_store(now: StoreStep, answers: Seq<Answer>) -> StoreStep
    decreases answers.len(),
{
    match now {
        StoreStep::Ask { run, .. } if answers.len() > 0 => play_store(
            run.next(answers[0]),
            answers.drop_first(),
        ),
        _ => now,
    }
}

/// The requests of a run over a store that were answered, in order.
pub open spec fn store_asked(now: StoreStep, answers: Seq<Answer>) -> Seq<Request>
    decreases answers.len(),
{
    match now {
        StoreStep::Ask { run, request } if answers.len() > 0 => seq![request] + store_asked(
            run.next(answers[0]),
            answers.drop_first(),
        ),
        _ => Seq::empty(),
    }
}

/// Whether the extents of a kernel split the heads of decode-only queries evenly
/// over the K/V heads.
pub open spec fn splits_heads(g: Geometry, queries: Shape) -> bool {
    &&& queries.rank == 4
    &&& queries.d2 == 1
    &&& g.n_q_heads == queries.d1
    &&& g.kv_h > 0
    &&& g.heads_per_kv >= 0
    &&& g.heads_per_kv * g.kv_h == g.n_q_heads
}

/// Whether the extents of a kernel are those of a `[B, kv_h, S, D]` tensor, up to
/// its length.
pub open spec fn spans(g: Geometry, shape: Shape) -> bool {
    &&& shape.rank == 4
    &&& g.b == shape.d0
    &&& g.kv_h == shape.d1
    &&& g.head_dim == shape.d3
    &&& g.kv_seq == shape.d2 ==> g.b * g.kv_h * g.kv_seq * g.head_dim == shape.d0 * shape.d1
        * shape.d2 * shape.d3
}

proof fn lemma_even(n: i32, kv_h: i32)
    requires
        kv_h > 0,
        n >= 0,
        n as int % kv_h as int == 0,
    ensures
        0 <= n as int / kv_h as int <= n,
        (n as int / kv_h as int) * kv_h == n,
{
    vstd::arithmetic::div_mod::lemma_fundamental_div_mod(n as int, kv_h as int);
    let q = n as int / kv_h as int;
    assert(q * kv_h == kv_h * q) by (nonlinear_arith);
    assert(0 <= q <= n) by (nonlinear_arith)
        requires
            kv_h > 0,
            n >= 0,
            n == kv_h * q,
    ;
}

/// A kernel over a rotor K ring that is asked for on the way.
spec fn rotor_k_way(now: StoreStep, call: StoreCall, v: Tensor) -> bool {
    now matches StoreStep::Ask { run, request } ==> {
        &&& run.call == call
        &&& match run.stage {
            StoreStage::RotorKView { v: w, .. } => w == v && request is RotorView,
            StoreStage::RotorKTable { v: w, .. } => w == v && request is RotorTable,
            StoreStage::Kernel => request matches Request::RotorFlash { geometry, v: w, .. } && {
                &&& w == v.id
                &&& geometry.kv_seq == call.kv_seq
                &&& spans(geometry, v.shape)
                &&& splits_heads(geometry, call.queries.shape)
            },
            StoreStage::Cast => request is Astype,
            _ => false,
        }
    }
}

proof fn lemma_rotor_k_way(now: StoreStep, call: StoreCall, v: Tensor, answers: Seq<Answer>)
    requires
        rotor_k_way(now, call, v),
    ensures
        rotor_k_way(play_store(now, answers), call, v),
    decreases answers.len(),
{
    match now {
        StoreStep::Ask { run, .. } if answers.len() > 0 => {
            let q = call.queries.shape;
            if v.shape.d1 > 0 && q.d1 >= 0 && q.d1 as int % v.shape.d1 as int == 0 {
                lemma_even(q.d1, v.shape.d1);
            }
            lemma_rotor_k_way(run.next(answers[0]), call, v, answers.drop_first());
        },
        _ => {},
    }
}

/// Whenever a run over a rotor K ring comes to its flash kernel, whatever was
/// answered on the way, the kernel runs over the V prefix that the run was given,
/// which is of rank four, on its first, second and fourth extents and on the
/// length of the call: where V is that long, its elements are exactly those that
/// the kernel reads. The heads of the queries are split evenly over the K/V heads.
pub proof fn law_rotor_k_kernel_spans_the_values(
    cache: KvCache,
    call: StoreCall,
    v: Tensor,
    answers: Seq<Answer>,
)
    ensures
        play_store(over_store::rotor_k_begin(cache, call, v), answers) matches StoreStep::Ask {
            request: Request::RotorFlash { geometry, v: attended, .. },
            ..
        } ==> {
            &&& attended == v.id
            &&& v.shape.rank == 4
            &&& geometry.b == v.shape.d0
            &&& geometry.kv_h == v.shape.d1
            &&& geometry.head_dim == v.shape.d3
            &&& geometry.kv_seq == call.kv_seq
            &&& geometry.n_q_heads == call.queries.shape.d1
            &&& splits_heads(geometry, call.queries.shape)
            &&& v.shape.d2 == call.kv_seq ==> geometry.b * geometry.kv_h * geometry.kv_seq
                * geometry.head_dim == v.shape.d0 * v.shape.d1 * v.shape.d2 * v.shape.d3
        },
{
    lemma_rotor_k_way(over_store::rotor_k_begin(cache, call, v), call, v, answers);
}

/// A rotor K store of the given bit width.
pub open spec fn rotor_k_ring(bits: u8, k: Option<RotorKStore>, max_seq: i32) -> KvStorage {
    if bits == 3 {
        KvStorage::RotorKOnly3 { k, max_seq }
    } else {
        KvStorage::RotorKOnly4 { k, max_seq }
    }
}

/// Two rotor stores of the given bit width.
pub open spec fn rotor_rings(
    bits: u8,
    k: Option<RotorKStore>,
    v: Option<Shape>,
    max_seq: i32,
) -> KvStorage {
    if bits == 3 {
        KvStorage::RotorSym3 { k, v, max_seq }
    } else {
        KvStorage::RotorSym4 { k, v, max_seq }
    }
}

/// Whether every one of `kv_h` heads takes `n` of the query heads.
pub open spec fn shares_of(n: int, kv_h: i32, heads: i32) -> bool {
    n * kv_h == heads
}

/// Why queries cannot be attended over `kv_h` heads, where they cannot.
pub open spec fn refusal(path: Fused, queries: Shape, kv_h: i32) -> Option<Error> {
    if queries.rank != 4 {
        Some(Error::QueryRank { path, shape: queries })
    } else if queries.d2 != 1 {
        Some(Error::NotDecode { path, q_seq: queries.d2 })
    } else if kv_h <= 0 || queries.d1 < 0 || !(exists|n: int| shares_of(n, kv_h, queries.d1)) {
        Some(Error::HeadsNotDivisible { path, n_q_heads: queries.d1, kv_h })
    } else {
        None
    }
}

proof fn lemma_refusal(path: Fused, queries: Shape, kv_h: i32)
    requires
        queries.rank == 4,
        queries.d2 == 1,
        kv_h > 0,
        queries.d1 >= 0,
    ensures
        refusal(path, queries, kv_h) is None <==> queries.d1 as int % kv_h as int == 0,
{
    if queries.d1 as int % kv_h as int == 0 {
        lemma_even(queries.d1, kv_h);
        let n = queries.d1 as int / kv_h as int;
        assert(shares_of(n, kv_h, queries.d1));
    }
    if exists|n: int| shares_of(n, kv_h, queries.d1) {
        let n = choose|n: int| shares_of(n, kv_h, queries.d1);
        vstd::arithmetic::div_mod::lemma_mod_multiples_basic(n, kv_h as int);
    }
}

/// Flash-decode over a rotor K ring. The ring is looked at, at the length of the
/// call; its table is fetched; the kernel then runs on the ring under that table
/// and on V, and its output is the output of the run, in the element type of the
/// queries.
pub proof fn law_rotor_k_run(
    cache: KvCache,
    call: StoreCall,
    v: Tensor,
    bits: u8,
    ks: RotorKStore,
    max_seq: i32,
    codes: Tensor,
    scales: Tensor,
    norms: Tensor,
    rotors: Tensor,
    out: Tensor,
    cast: Tensor,
)
    requires
        bits == 3 || bits == 4,
        cache.storage == rotor_k_ring(bits, Some(ks), max_seq),
        v.shape.rank == 4,
        refusal(Fused::RotorK, call.queries.shape, v.shape.d1) is None,
    ensures
        ({
            let now = over_store::rotor_k_begin(cache, call, v);
            let answers = seq![
                Answer::Three(codes, scales, norms),
                Answer::One(rotors),
                Answer::One(out),
                Answer::One(cast),
            ];
            let asked = store_asked(now, answers);
            &&& asked.len() == if out.dtype == call.queries.dtype {
                3int
            } else {
                4
            }
            &&& asked[0] == (Request::RotorView { side: Side::K, kv_seq: call.kv_seq })
            &&& asked[1] == (Request::RotorTable { side: Side::K })
            &&& asked[2] matches Request::RotorFlash { bits: b, q, k, v: w, mask, geometry, scale }
                && {
                &&& b == bits
                &&& q == call.queries.id
                &&& k == (Packed { codes, scales, norms, rotors })
                &&& w == v.id
                &&& mask == call.mask
                &&& scale == call.scale
                &&& geometry.kv_seq == call.kv_seq
                &&& spans(geometry, v.shape)
                &&& splits_heads(geometry, call.queries.shape)
            }
            &&& out.dtype != call.queries.dtype ==> asked[3] == (Request::Astype {
                x: out.id,
                dtype: call.queries.dtype,
            })
            &&& play_store(now, answers) == StoreStep::Done(
                Ok(
                    if out.dtype == call.queries.dtype {
                        out
                    } else {
                        cast
                    },
                ),
            )
        }),
{
    reveal_with_fuel(play_store, 5);
    reveal_with_fuel(store_asked, 5);
    lemma_refusal(Fused::RotorK, call.queries.shape, v.shape.d1);
    lemma_even(call.queries.shape.d1, v.shape.d1);
    let answers = seq![
        Answer::Three(codes, scales, norms),
        Answer::One(rotors),
        Answer::One(out),
        Answer::One(cast),
    ];
    let a1 = answers.drop_first();
    let a2 = a1.drop_first();
    let a3 = a2.drop_first();
    assert(a1[0] == answers[1] && a2[0] == answers[2] && a3[0] == answers[3]);
}

/// What keeps a rotor K ring from being attended: another storage, a store that
/// is not there yet, a ring that is not live, a V or queries of another rank,
/// queries of more than one position, heads that cannot be split.
pub proof fn law_rotor_k_run_refuses(
    cache: KvCache,
    call: StoreCall,
    v: Tensor,
    codes: Tensor,
    scales: Tensor,
    norms: Tensor,
    rotors: Tensor,
)
    ensures
        ({
            let now = over_store::rotor_k_begin(cache, call, v);
            match cache.storage {
                KvStorage::RotorKOnly3 { k, .. } => k is Some == now is Ask,
                KvStorage::RotorKOnly4 { k, .. } => k is Some == now is Ask,
                _ => now == StoreStep::Done(
                    Err(
                        Error::KvStorageMismatch {
                            expected: Expected::RotorKOnly,
                            got: cache.storage.spec_kind(),
                        },
                    ),
                ),
            }
        }),
        cache.storage is RotorKOnly3 || cache.storage is RotorKOnly4 ==> {
            let now = over_store::rotor_k_begin(cache, call, v);
            let absent = StoreStep::Done(
                Err(Error::ViewAbsent { path: Fused::RotorK, kv_seq: call.kv_seq }),
            );
            &&& now is Done ==> now == absent
            &&& now is Ask ==> play_store(now, seq![Answer::Absent]) == absent
            &&& now is Ask ==> {
                let then = play_store(
                    now,
                    seq![Answer::Three(codes, scales, norms), Answer::One(rotors)],
                );
                if v.shape.rank != 4 {
                    then == StoreStep::Done(
                        Err(Error::ValueRank { path: Fused::RotorK, shape: v.shape }),
                    )
                } else {
                    match refusal(Fused::RotorK, call.queries.shape, v.shape.d1) {
                        Some(e) => then == StoreStep::Done(Err(e)),
                        None => then is Ask,
                    }
                }
            }
        },
{
    reveal_with_fuel(play_store, 3);
    let answers = seq![Answer::Three(codes, scales, norms), Answer::One(rotors)];
    assert(answers.drop_first()[0] == answers[1]);
    let q = call.queries.shape;
    if q.rank == 4 && q.d2 == 1 && v.shape.d1 > 0 && q.d1 >= 0 {
        lemma_refusal(Fused::RotorK, q, v.shape.d1);
    }
}

/// Flash-decode over both rotor rings. Both are looked at, at the length of the
/// call, K first; each gets the table of its own side; the kernel then runs on
/// the extents of the K store.
pub proof fn law_rotor_sym_run(
    cache: KvCache,
    call: StoreCall,
    bits: u8,
    ks: RotorKStore,
    vs: Shape,
    max_seq: i32,
    k: Packed,
    v: Packed,
    out: Tensor,
    cast: Tensor,
)
    requires
        bits == 3 || bits == 4,
        cache.storage == rotor_rings(bits, Some(ks), Some(vs), max_seq),
        ks.shape.rank == 4,
        refusal(Fused::RotorSym, call.queries.shape, ks.shape.d1) is None,
    ensures
        ({
            let now = over_store::rotor_sym_begin(cache, call);
            let answers = seq![
                Answer::Three(k.codes, k.scales, k.norms),
                Answer::Three(v.codes, v.scales, v.norms),
                Answer::One(k.rotors),
                Answer::One(v.rotors),
                Answer::One(out),
                Answer::One(cast),
            ];
            let asked = store_asked(now, answers);
            &&& asked.len() == if out.dtype == call.queries.dtype {
                5int
            } else {
                6
            }
            &&& asked[0] == (Request::RotorView { side: Side::K, kv_seq: call.kv_seq })
            &&& asked[1] == (Request::RotorView { side: Side::V, kv_seq: call.kv_seq })
            &&& asked[2] == (Request::RotorTable { side: Side::K })
            &&& asked[3] == (Request::RotorTable { side: Side::V })
            &&& asked[4] matches Request::RotorSymFlash {
                bits: b,
                q,
                k: k2,
                v: v2,
                mask,
                geometry,
                scale,
            } && {
                &&& b == bits
                &&& q == call.queries.id
                &&& k2 == k
                &&& v2 == v
                &&& mask == call.mask
                &&& scale == call.scale
                &&& geometry.kv_seq == call.kv_seq
                &&& spans(geometry, ks.shape)
                &&& splits_heads(geometry, call.queries.shape)
            }
            &&& out.dtype != call.queries.dtype ==> asked[5] == (Request::Astype {
                x: out.id,
                dtype: call.queries.dtype,
            })
            &&& play_store(now, answers) == StoreStep::Done(
                Ok(
                    if out.dtype == call.queries.dtype {
                        out
                    } else {
                        cast
                    },
                ),
            )
        }),
{
    reveal_with_fuel(play_store, 7);
    reveal_with_fuel(store_asked, 7);
    lemma_refusal(Fused::RotorSym, call.queries.shape, ks.shape.d1);
    lemma_even(call.queries.shape.d1, ks.shape.d1);
    let answers = seq![
        Answer::Three(k.codes, k.scales, k.norms),
        Answer::Three(v.codes, v.scales, v.norms),
        Answer::One(k.rotors),
        Answer::One(v.rotors),
        Answer::One(out),
        Answer::One(cast),
    ];
    let a1 = answers.drop_first();
    let a2 = a1.drop_first();
    let a3 = a2.drop_first();
    let a4 = a3.drop_first();
    let a5 = a4.drop_first();
    assert(a1[0] == answers[1] && a2[0] == answers[2] && a3[0] == answers[3] && a4[0] == answers[4]
        && a5[0] == answers[5]);
}

/// What keeps both rotor rings from being attended: another storage, one of the
/// two stores missing, one of the two rings not live, queries of another rank or
/// of more than one position, heads that cannot be split over those of the store.
pub proof fn law_rotor_sym_run_refuses(cache: KvCache, call: StoreCall, k: Packed, v: Packed)
    ensures
        ({
            let now = over_store::rotor_sym_begin(cache, call);
            match cache.storage {
                KvStorage::RotorSym3 { k: ks, v: vs, .. } => now is Ask == (ks is Some && vs is Some),
                KvStorage::RotorSym4 { k: ks, v: vs, .. } => now is Ask == (ks is Some && vs is Some),
                _ => now == StoreStep::Done(
                    Err(
                        Error::KvStorageMismatch {
                            expected: Expected::RotorSym,
                            got: cache.storage.spec_kind(),
                        },
                    ),
                ),
            }
        }),
        cache.storage is RotorSym3 || cache.storage is RotorSym4 ==> {
            let now = over_store::rotor_sym_begin(cache, call);
            let absent = StoreStep::Done(
                Err(Error::ViewAbsent { path: Fused::RotorSym, kv_seq: call.kv_seq }),
            );
            let live_k = Answer::Three(k.codes, k.scales, k.norms);
            let live_v = Answer::Three(v.codes, v.scales, v.norms);
            &&& now is Done ==> now == absent
            &&& now is Ask ==> {
                &&& play_store(now, seq![Answer::Absent, live_v]) == absent
                &&& play_store(now, seq![live_k, Answer::Absent]) == absent
                &&& play_store(now, seq![Answer::Absent, Answer::Absent]) == absent
            }
        },
        forall|ks: RotorKStore, vs: Shape, max_seq: i32, bits: u8|
            (bits == 3 || bits == 4) && cache.storage == #[trigger] rotor_rings(
                bits,
                Some(ks),
                Some(vs),
                max_seq,
            ) ==> {
                let then = play_store(
                    over_store::rotor_sym_begin(cache, call),
                    seq![
                        Answer::Three(k.codes, k.scales, k.norms),
                        Answer::Three(v.codes, v.scales, v.norms),
                        Answer::One(k.rotors),
                        Answer::One(v.rotors),
                    ],
                );
                let kv_h = if ks.shape.rank > 1 {
                    ks.shape.d1
                } else {
                    0
                };
                match refusal(Fused::RotorSym, call.queries.shape, kv_h) {
                    Some(e) => then == StoreStep::Done(Err(e)),
                    None => then is Ask,
                }
            },
{
    reveal_with_fuel(play_store, 5);
    let live_k = Answer::Three(k.codes, k.scales, k.norms);
    let live_v = Answer::Three(v.codes, v.scales, v.norms);
    assert(seq![Answer::Absent, live_v].drop_first()[0] == live_v);
    assert(seq![live_k, Answer::Absent].drop_first()[0] == Answer::Absent);
    assert(seq![Answer::Absent, Answer::Absent].drop_first()[0] == Answer::Absent);
    let answers = seq![live_k, live_v, Answer::One(k.rotors), Answer::One(v.rotors)];
    let a1 = answers.drop_first();
    let a2 = a1.drop_first();
    let a3 = a2.drop_first();
    assert(a1[0] == answers[1] && a2[0] == answers[2] && a3[0] == answers[3]);
    let q = call.queries.shape;
    assert forall|ks: RotorKStore, vs: Shape, max_seq: i32, bits: u8|
        (bits == 3 || bits == 4) && cache.storage == #[trigger] rotor_rings(
            bits,
            Some(ks),
            Some(vs),
            max_seq,
        ) implies ({
        let then = play_store(over_store::rotor_sym_begin(cache, call), answers);
        let kv_h = if ks.shape.rank > 1 {
            ks.shape.d1
        } else {
            0
        };
        match refusal(Fused::RotorSym, call.queries.shape, kv_h) {
            Some(e) => then == StoreStep::Done(Err(e)),
            None => then is Ask,
        }
    }) by {
        let kv_h = if ks.shape.rank > 1 {
            ks.shape.d1
        } else {
            0
        };
        if q.rank == 4 && q.d2 == 1 && kv_h > 0 && q.d1 >= 0 {
            lemma_refusal(Fused::RotorSym, q, kv_h);
        }
    }
}

/// Flash-decode over packed K in a single pass, which is taken where it is
/// switched on and the head dimension is a power of two: the packed buffers are
/// looked at, and the kernel runs on them and on V, on the extents of the store.
pub proof fn law_packed_k_run_in_one_pass(
    cache: KvCache,
    call: StoreCall,
    v: Tensor,
    shape: Shape,
    max_seq: i32,
    codes: Tensor,
    scales: Tensor,
    rot32: Tensor,
    out: Tensor,
    cast: Tensor,
)
    requires
        cache.storage == (KvStorage::PlanarK { k: Some(shape), max_seq }),
        shape.rank == 4,
        shape.d2 == call.kv_seq,
        refusal(Fused::PlanarK, call.queries.shape, shape.d1) is None,
        call.planar_flash_decode,
        shape.d3 > 0,
        gate::is_power_of_two(shape.d3 as int),
    ensures
        ({
            let now = over_store::planar_begin(cache, call, v);
            let answers = seq![
                Answer::Three(codes, scales, rot32),
                Answer::One(out),
                Answer::One(cast),
            ];
            let asked = store_asked(now, answers);
            &&& asked.len() == if out.dtype == call.queries.dtype {
                2int
            } else {
                3
            }
            &&& asked[0] == Request::PlanarView
            &&& asked[1] matches Request::PlanarFlash {
                q,
                codes: c,
                scales: s,
                rot32: r,
                v: w,
                mask,
                geometry,
                bits,
                scale,
            } && {
                &&& bits == 4
                &&& q == call.queries.id
                &&& c == codes.id
                &&& s == scales.id
                &&& r == rot32.id
                &&& w == v.id
                &&& mask == call.mask
                &&& scale == call.scale
                &&& geometry.kv_seq == call.kv_seq
                &&& spans(geometry, shape)
                &&& splits_heads(geometry, call.queries.shape)
            }
            &&& out.dtype != call.queries.dtype ==> asked[2] == (Request::Astype {
                x: out.id,
                dtype: call.queries.dtype,
            })
            &&& play_store(now, answers) == StoreStep::Done(
                Ok(
                    if out.dtype == call.queries.dtype {
                        out
                    } else {
                        cast
                    },
                ),
            )
        }),
{
    reveal_with_fuel(play_store, 4);
    reveal_with_fuel(store_asked, 4);
    lemma_refusal(Fused::PlanarK, call.queries.shape, shape.d1);
    lemma_even(call.queries.shape.d1, shape.d1);
    let answers = seq![Answer::Three(codes, scales, rot32), Answer::One(out), Answer::One(cast)];
    let a1 = answers.drop_first();
    let a2 = a1.drop_first();
    assert(a1[0] == answers[1] && a2[0] == answers[2]);
}

/// Flash-decode over packed K where the single pass is not taken. The scores come
/// first; the mask of the call goes onto them, where there is one; the softmax of
/// that is multiplied with V, grouped so that the query heads of one K/V head meet
/// that head, and the product comes back with one row to each query head.
pub proof fn law_packed_k_run_over_scores(
    cache: KvCache,
    call: StoreCall,
    v: Tensor,
    shape: Shape,
    max_seq: i32,
    codes: Tensor,
    scales: Tensor,
    rot32: Tensor,
    scores: Tensor,
    masked: Tensor,
    probs: Tensor,
    grouped: Tensor,
    values: Tensor,
    product: Tensor,
    out: Tensor,
    cast: Tensor,
)
    requires
        cache.storage == (KvStorage::PlanarK { k: Some(shape), max_seq }),
        shape.rank == 4,
        shape.d2 == call.kv_seq,
        refusal(Fused::PlanarK, call.queries.shape, shape.d1) is None,
        shape.d3 > 0,
        !call.planar_flash_decode || !gate::is_power_of_two(shape.d3 as int),
    ensures
        ({
            let now = over_store::planar_begin(cache, call, v);
            let answers = scored_answers(
                call.mask,
                Answer::Three(codes, scales, rot32),
                scores,
                masked,
                seq![probs, grouped, values, product, out, cast],
            );
            let asked = store_asked(now, answers);
            let at: int = if call.mask is Some {
                1
            } else {
                0
            };
            let heads = call.queries.shape.d1;
            &&& asked.len() == if out.dtype == call.queries.dtype {
                7 + at
            } else {
                8 + at
            }
            &&& asked[0] == Request::PlanarView
            &&& asked[1] matches Request::PlanarScores {
                q,
                codes: c,
                scales: s,
                rot32: r,
                geometry,
                bits,
                scale,
            } && {
                &&& bits == 4
                &&& q == call.queries.id
                &&& c == codes.id
                &&& s == scales.id
                &&& r == rot32.id
                &&& scale == call.scale
                &&& geometry.kv_seq == call.kv_seq
                &&& spans(geometry, shape)
                &&& splits_heads(geometry, call.queries.shape)
            }
            &&& call.mask matches Some(m) ==> asked[2] == (Request::Add { a: scores.id, b: m })
            &&& asked[2 + at] == (Request::SoftmaxPrecise {
                x: if call.mask is Some {
                    masked.id
                } else {
                    scores.id
                },
            })
            &&& asked[3 + at] matches Request::Reshape { x, dims: Dims::D5(b, kv_h, each, one, n) }
                && {
                &&& x == probs.id
                &&& b == shape.d0
                &&& kv_h == shape.d1
                &&& each * kv_h == heads
                &&& one == 1
                &&& n == call.kv_seq
            }
            &&& asked[4 + at] == (Request::Reshape {
                x: v.id,
                dims: Dims::D5(shape.d0, shape.d1, 1, call.kv_seq, shape.d3),
            })
            &&& asked[5 + at] == (Request::Matmul { a: grouped.id, b: values.id })
            &&& asked[6 + at] == (Request::Reshape {
                x: product.id,
                dims: Dims::D4(shape.d0, heads, 1, shape.d3),
            })
            &&& out.dtype != call.queries.dtype ==> asked[7 + at] == (Request::Astype {
                x: out.id,
                dtype: call.queries.dtype,
            })
            &&& play_store(now, answers) == StoreStep::Done(
                Ok(
                    if out.dtype == call.queries.dtype {
                        out
                    } else {
                        cast
                    },
                ),
            )
        }),
{
    lemma_refusal(Fused::PlanarK, call.queries.shape, shape.d1);
    lemma_even(call.queries.shape.d1, shape.d1);
    let view = Answer::Three(codes, scales, rot32);
    let rest = seq![probs, grouped, values, product, out, cast];
    let answers = scored_answers(call.mask, view, scores, masked, rest);
    let now = over_store::planar_begin(cache, call, v);
    let g = Geometry {
        b: shape.d0,
        kv_h: shape.d1,
        kv_seq: call.kv_seq,
        head_dim: shape.d3,
        n_q_heads: call.queries.shape.d1,
        heads_per_kv: (call.queries.shape.d1 as int / shape.d1 as int) as i32,
    };
    let a1 = answers.drop_first();
    let a2 = a1.drop_first();
    lemma_one_answer(now, answers);
    let s1 = over_store::planar_kernel(call, shape, v, codes, scales, rot32);
    lemma_one_answer(s1, a1);
    assert(a1[0] == Answer::One(scores));
    if let Some(m) = call.mask {
        let s2 = over_store::asking(
            call,
            StoreStage::PlanarMask { v, g },
            Request::Add { a: scores.id, b: m },
        );
        lemma_one_answer(s2, a2);
        assert(a2[0] == Answer::One(masked));
        assert(a2.drop_first() =~= ones(rest));
        lemma_scored_tail(call, v, g, masked, rest);
    } else {
        assert(a2 =~= ones(rest));
        lemma_scored_tail(call, v, g, scores, rest);
    }
}

/// A run over a store takes one answer.
proof fn lemma_one_answer(now: StoreStep, answers: Seq<Answer>)
    requires
        now is Ask,
        answers.len() > 0,
    ensures
        now matches StoreStep::Ask { run, request } && {
            let next = run.next(answers[0]);
            let rest = answers.drop_first();
            &&& play_store(now, answers) == play_store(next, rest)
            &&& store_asked(now, answers) == seq![request] + store_asked(next, rest)
        },
{
}

/// A tensor each.
pub open spec fn ones(tensors: Seq<Tensor>) -> Seq<Answer> {
    Seq::new(tensors.len(), |i: int| Answer::One(tensors[i]))
}

/// From the softmax of the scores on.
proof fn lemma_scored_tail(call: StoreCall, v: Tensor, g: Geometry, x: Tensor, rest: Seq<Tensor>)
    requires
        rest.len() == 6,
    ensures
        ({
            let now = over_store::asking(
                call,
                StoreStage::PlanarSoftmax { v, g },
                Request::SoftmaxPrecise { x: x.id },
            );
            let same = rest[4].dtype == call.queries.dtype;
            &&& play_store(now, ones(rest)) == StoreStep::Done(
                Ok(
                    if same {
                        rest[4]
                    } else {
                        rest[5]
                    },
                ),
            )
            &&& store_asked(now, ones(rest)) == seq![
                Request::SoftmaxPrecise { x: x.id },
                Request::Reshape {
                    x: rest[0].id,
                    dims: Dims::D5(g.b, g.kv_h, g.heads_per_kv, 1, g.kv_seq),
                },
                Request::Reshape {
                    x: v.id,
                    dims: Dims::D5(g.b, g.kv_h, 1, g.kv_seq, g.head_dim),
                },
                Request::Matmul { a: rest[1].id, b: rest[2].id },
                Request::Reshape {
                    x: rest[3].id,
                    dims: Dims::D4(g.b, g.n_q_heads, 1, g.head_dim),
                },
            ] + if same {
                Seq::empty()
            } else {
                seq![Request::Astype { x: rest[4].id, dtype: call.queries.dtype }]
            }
        }),
{
    reveal_with_fuel(play_store, 7);
    reveal_with_fuel(store_asked, 7);
    let answers = ones(rest);
    let a1 = answers.drop_first();
    let a2 = a1.drop_first();
    let a3 = a2.drop_first();
    let a4 = a3.drop_first();
    let a5 = a4.drop_first();
    assert(a1[0] == answers[1] && a2[0] == answers[2] && a3[0] == answers[3] && a4[0] == answers[4]
        && a5[0] == answers[5]);
}

/// The answers of a run over scores: the packed buffers, the scores, the masked
/// scores where there is a mask, and a tensor each from there on.
pub open spec fn scored_answers(
    mask: Option<u64>,
    view: Answer,
    scores: Tensor,
    masked: Tensor,
    rest: Seq<Tensor>,
) -> Seq<Answer> {
    (if mask is Some {
        seq![view, Answer::One(scores), Answer::One(masked)]
    } else {
        seq![view, Answer::One(scores)]
    }) + ones(rest)
}

/// What keeps packed K from being attended: another storage, a store that is not
/// there yet, buffers that are not on the device, a store of another rank or of
/// another length than the one reported, queries of another rank or of more than
/// one position, heads that cannot be split over those of the store.
pub proof fn law_packed_k_run_refuses(
    cache: KvCache,
    call: StoreCall,
    v: Tensor,
    codes: Tensor,
    scales: Tensor,
    rot32: Tensor,
)
    ensures
        ({
            let now = over_store::planar_begin(cache, call, v);
            match cache.storage {
                KvStorage::PlanarK { k: None, .. } => now == StoreStep::Done(
                    Err(Error::StoreAbsent { path: Fused::PlanarK }),
                ),
                KvStorage::PlanarK { k: Some(shape), .. } => {
                    let then = play_store(now, seq![Answer::Three(codes, scales, rot32)]);
                    &&& play_store(now, seq![Answer::Absent]) == StoreStep::Done(
                        Err(Error::ViewAbsent { path: Fused::PlanarK, kv_seq: call.kv_seq }),
                    )
                    &&& if shape.rank != 4 {
                        then == StoreStep::Done(
                            Err(Error::StoreRank { path: Fused::PlanarK, shape }),
                        )
                    } else if shape.d2 != call.kv_seq {
                        then == StoreStep::Done(
                            Err(
                                Error::SharedLenDesync {
                                    reported: call.kv_seq,
                                    actual: shape.d2,
                                },
                            ),
                        )
                    } else {
                        match refusal(Fused::PlanarK, call.queries.shape, shape.d1) {
                            Some(e) => then == StoreStep::Done(Err(e)),
                            None => then is Ask,
                        }
                    }
                },
                _ => now == StoreStep::Done(
                    Err(
                        Error::KvStorageMismatch {
                            expected: Expected::PlanarK,
                            got: cache.storage.spec_kind(),
                        },
                    ),
                ),
            }
        }),
{
    reveal_with_fuel(play_store, 2);
    if let KvStorage::PlanarK { k: Some(shape), .. } = cache.storage {
        let q = call.queries.shape;
        if q.rank == 4 && q.d2 == 1 && shape.d1 > 0 && q.d1 >= 0 {
            lemma_refusal(Fused::PlanarK, q, shape.d1);
        }
    }
}

/// A failing call ends a run over a store with the failure, wherever it stands, and
/// so does an answer of a kind that was not asked for.
pub proof fn law_store_run_ends_on_failure(run: StoreRun, code: u64)
    ensures
        run.next(Answer::Failed(code)) == StoreStep::Done(Err(Error::Outside(code))),
        run.next(Answer::Done) == StoreStep::Done(Err(Error::Protocol)),
        run.next(Answer::Host(code)) == StoreStep::Done(Err(Error::Protocol)),
        run.stage is Kernel || run.stage is Cast ==> run.next(Answer::Absent) == StoreStep::Done(
            Err(Error::Protocol),
        ),
{
}

} // verus!
