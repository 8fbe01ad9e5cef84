//! Attention of a layer over the K and V that another layer accumulated.
//!
//! Nothing is appended and no position is advanced: the producer has taken its
//! own step, and its consumers enter the same kernel with queries of their own.
use vstd::prelude::*;

use crate::error::{Error, Fused};
use crate::kvcache::arms::held_by_store;
use crate::kvcache::mirror::slice_decode_fp16_v;
use crate::kvcache::over_store::{
    check_shared_kv_len, planar_k_flash_over_store, rotor_k_flash_over_store,
    rotor_sym_flash_over_store, StoreCall, StoreRun, StoreStep,
};
use crate::kvcache::request::{Answer, KvCache, Request};
use crate::kvcache::storage::KvStorage;
use crate::kvcache::{arms, mirror, over_store};
use crate::tensor::Tensor;

verus! {

/// Where a consumer stands: the call whose answer it waits for.
#[derive(Clone, Copy, PartialEq, Eq, Debug)]
pub enum ConsumerRun {
    /// The V window.
    Values { path: Fused, call: StoreCall },
    /// Flash-decode over the store.
    Store { run: StoreRun },
}

/// The next thing that a consumer does.
#[derive(Clone, Copy, PartialEq, Eq, Debug)]
pub enum ConsumerStep {
    Ask { run: ConsumerRun, request: Request },
    Done(Result<Tensor, Error>),
}

/// The path through which a storage can be attended where it stands.
pub open spec fn store_path(storage: KvStorage) -> Option<Fused> {
    match storage {
        KvStorage::PlanarK { .. } => Some(Fused::PlanarK),
        KvStorage::RotorKOnly3 { .. } => Some(Fused::RotorK),
        KvStorage::RotorKOnly4 { .. } => Some(Fused::RotorK),
        KvStorage::RotorSym3 { .. } => Some(Fused::RotorSym),
        KvStorage::RotorSym4 { .. } => Some(Fused::RotorSym),
        _ => None,
    }
}

/// The path through which a storage can be attended where it stands.
pub fn store_path_of(storage: &KvStorage) -> (r: Option<Fused>)
    ensures
        r == store_path(*storage),
{
    match storage {
        KvStorage::PlanarK { .. } => Some(Fused::PlanarK),
        KvStorage::RotorKOnly3 { .. } => Some(Fused::RotorK),
        KvStorage::RotorKOnly4 { .. } => Some(Fused::RotorK),
        KvStorage::RotorSym3 { .. } => Some(Fused::RotorSym),
        KvStorage::RotorSym4 { .. } => Some(Fused::RotorSym),
        _ => None,
    }
}

/// A consumer does what flash-decode over the store does.
pub open spec fn following(inner: StoreStep) -> ConsumerStep {
    match inner {
        StoreStep::Ask { run, request } => ConsumerStep::Ask {
            run: ConsumerRun::Store { run },
            request,
        },
        StoreStep::Done(result) => ConsumerStep::Done(result),
    }
}

fn follow(inner: StoreStep) -> (r: ConsumerStep)
    ensures
        r == following(inner),
{
    match inner {
        StoreStep::Ask { run, request } => ConsumerStep::Ask {
            run: ConsumerRun::Store { run },
            request,
        },
        StoreStep::Done(result) => ConsumerStep::Done(result),
    }
}

/// How a consumer starts. The length that the producer reported, which the call
/// carries, must be the length of the store. V comes off its mirror, unless the
/// store holds it as well.
pub open spec fn starting(cache: KvCache, call: StoreCall) -> ConsumerStep {
    match store_path(cache.storage) {
        None => ConsumerStep::Done(Err(Error::NoConsumerPath { got: cache.storage.spec_kind() })),
        Some(path) => match arms::held(path, cache) {
            Err(e) => ConsumerStep::Done(Err(e)),
            Ok(kv_seq) => match over_store::len_agrees(call.kv_seq, kv_seq) {
                Err(e) => ConsumerStep::Done(Err(e)),
                Ok(_) => if path is RotorSym {
                    following(over_store::rotor_sym_begin(cache, call))
                } else {
                    match mirror::value_window(cache, kv_seq) {
                        Err(e) => ConsumerStep::Done(Err(e)),
                        Ok(w) => ConsumerStep::Ask {
                            run: ConsumerRun::Values { path, call },
                            request: Request::Slice { x: w.x, stop: w.stop },
                        },
                    }
                },
            },
        },
    }
}

/// How a consumer goes on with an answer.
pub open spec fn resumed(cache: KvCache, run: ConsumerRun, answer: Answer) -> ConsumerStep {
    match (run, answer) {
        (ConsumerRun::Store { run }, _) => following(run.next(answer)),
        (_, Answer::Failed(code)) => ConsumerStep::Done(Err(Error::Outside(code))),
        (ConsumerRun::Values { path: Fused::PlanarK, call }, Answer::One(v)) => following(
            over_store::planar_begin(cache, call, v),
        ),
        (ConsumerRun::Values { path: Fused::RotorK, call }, Answer::One(v)) => following(
            over_store::rotor_k_begin(cache, call, v),
        ),
        _ => ConsumerStep::Done(Err(Error::Protocol)),
    }
}

impl KvCache {
    /// Starts the attention of a consumer layer over the K and V held by this
    /// cache. The call carries the length that the producer reported.
    pub fn sdpa_shared(&self, call: StoreCall) -> (r: ConsumerStep)
        ensures
            r == starting(*self, call),
    {
        let path: Fused = match store_path_of(&self.storage) {
            Some(path) => path,
            None => {
                return ConsumerStep::Done(Err(Error::NoConsumerPath { got: self.storage.kind() }));
            },
        };
        let kv_seq: i32 = match held_by_store(path, self) {
            Ok(kv_seq) => kv_seq,
            Err(e) => return ConsumerStep::Done(Err(e)),
        };
        match check_shared_kv_len(call.kv_seq, kv_seq) {
            Ok(_) => {},
            Err(e) => return ConsumerStep::Done(Err(e)),
        }
        match path {
            Fused::RotorSym => follow(rotor_sym_flash_over_store(self, call)),
            _ => match slice_decode_fp16_v(self, kv_seq) {
                Err(e) => ConsumerStep::Done(Err(e)),
                Ok(w) => ConsumerStep::Ask {
                    run: ConsumerRun::Values { path, call },
                    request: Request::Slice { x: w.x, stop: w.stop },
                },
            },
        }
    }

    /// Goes on with the answer to the request that a consumer asked last.
    pub fn resume_shared(&self, run: ConsumerRun, answer: Answer) -> (r: ConsumerStep)
        ensures
            r == resumed(*self, run, answer),
    {
        match (run, answer) {
            (ConsumerRun::Store { run }, _) => {
                let next: StoreStep = run.resume(answer);
                follow(next)
            },
            (_, Answer::Failed(code)) => ConsumerStep::Done(Err(Error::Outside(code))),
            (ConsumerRun::Values { path: Fused::PlanarK, call }, Answer::One(v)) => follow(
                planar_k_flash_over_store(self, call, v),
            ),
            (ConsumerRun::Values { path: Fused::RotorK, call }, Answer::One(v)) => follow(
                rotor_k_flash_over_store(self, call, v),
            ),
            _ => ConsumerStep::Done(Err(Error::Protocol)),
        }
    }
}

} // verus!
