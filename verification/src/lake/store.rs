//! Append-only observation store with idempotency.

use vstd::prelude::*;

use crate::domain::observation::Observation;
use crate::domain::values::{IdempotencyKey, ObservationId};

verus! {

/// Position of the lake: the number of observations appended so far.
#[derive(Debug, Clone, Copy, PartialEq, Eq, Structural)]
pub struct LakeWatermark {
    pub position: usize,
}

/// Whether `o` carries an idempotency key equal to `k`.
pub open spec fn has_key(o: Observation, k: Seq<char>) -> bool {
    o.idempotency_key matches Some(x) && x@ == k
}

/// The append-only store of observations.
#[derive(Debug)]
pub struct LakeStore {
    observations: Vec<Observation>,
}

impl LakeStore {
    /// The stored observations, in append order.
    pub closed spec fn obs_seq(&self) -> Seq<Observation> {
        self.observations@
    }

    /// Some stored observation carries the idempotency key `k`.
    pub open spec fn holds_key(&self, k: Seq<char>) -> bool {
        exists|i: int| 0 <= i < self.obs_seq().len() && has_key(#[trigger] self.obs_seq()[i], k)
    }

    pub fn new() -> (r: Self)
        ensures
            r.obs_seq() == Seq::<Observation>::empty(),
    {
        LakeStore { observations: Vec::new() }
    }

    pub fn len(&self) -> (r: usize)
        ensures
            r == self.obs_seq().len(),
    {
        self.observations.len()
    }

    fn find_key(&self, k: &IdempotencyKey) -> (r: Option<usize>)
        ensures
            r is None <==> !self.holds_key(k@),
            r matches Some(i) ==> i < self.obs_seq().len() && has_key(self.obs_seq()[i as int], k@)
                && forall|j: int| 0 <= j < i ==> !has_key(#[trigger] self.obs_seq()[j], k@),
    {
        let mut i: usize = 0;
        while i < self.observations.len()
            invariant
                i <= self.observations@.len(),
                forall|j: int| 0 <= j < i ==> !has_key(#[trigger] self.obs_seq()[j], k@),
            decreases self.observations@.len() - i,
        {
            match &self.observations[i].idempotency_key {
                Some(x) => {
                    if x.0 == k.0 {
                        assert(has_key(self.obs_seq()[i as int], k@));
                        return Some(i);
                    }
                },
                None => {},
            }
            i = i + 1;
        }
        None
    }

    /// Append an observation. An observation whose idempotency key is
    /// already stored is not appended: the id of the first observation
    /// stored under that key is returned as the error. The lake is
    /// append-only: what was stored stays as it was.
    pub fn append(&mut self, obs: Observation) -> (r: Result<ObservationId, ObservationId>)
        ensures
            match obs.idempotency_key {
                Some(k) => old(self).holds_key(k@),
                None => false,
            } ==> {
                &&& final(self).obs_seq() == old(self).obs_seq()
                &&& r matches Err(existing) && exists|i: int|
                    0 <= i < old(self).obs_seq().len() && has_key(
                        old(self).obs_seq()[i],
                        obs.idempotency_key->0@,
                    ) && old(self).obs_seq()[i].id@ == existing@ && forall|j: int|
                        0 <= j < i ==> !has_key(
                            #[trigger] old(self).obs_seq()[j],
                            obs.idempotency_key->0@,
                        )
            },
            !match obs.idempotency_key {
                Some(k) => old(self).holds_key(k@),
                None => false,
            } ==> {
                &&& final(self).obs_seq() == old(self).obs_seq().push(obs)
                &&& r matches Ok(id) && id@ == obs.id@
            },
    {
        match &obs.idempotency_key {
            Some(k) => {
                match self.find_key(k) {
                    Some(i) => {
                        return Err(self.observations[i].id.duplicate());
                    },
                    None => {},
                }
            },
            None => {},
        }
        let id = obs.id.duplicate();
        self.observations.push(obs);
        Ok(id)
    }

    /// The current position, or `None` while the lake is empty.
    pub fn watermark(&self) -> (r: Option<LakeWatermark>)
        ensures
            self.obs_seq().len() == 0 ==> r is None,
            self.obs_seq().len() > 0 ==> (r matches Some(w) && w.position == self.obs_seq().len()),
    {
        if self.observations.len() == 0 {
            None
        } else {
            Some(LakeWatermark { position: self.observations.len() })
        }
    }

    /// The observations appended after `position`, in append order.
    pub fn since(&self, position: usize) -> (r: Vec<&Observation>)
        ensures
            r@.len() == if position < self.obs_seq().len() {
                self.obs_seq().len() - position
            } else {
                0
            },
            forall|k: int| 0 <= k < r@.len() ==> *r@[k] == self.obs_seq()[position + k],
    {
        let mut out: Vec<&Observation> = Vec::new();
        let mut i: usize = position;
        while i < self.observations.len()
            invariant
                position <= i,
                i >= self.observations@.len() ==> out@.len() == if position < self.observations@.len() {
                    self.observations@.len() - position
                } else {
                    0
                },
                i < self.observations@.len() ==> out@.len() == i - position,
                forall|k: int| 0 <= k < out@.len() ==> *out@[k] == self.obs_seq()[position + k],
            decreases self.observations@.len() - i,
        {
            out.push(&self.observations[i]);
            i = i + 1;
        }
        out
    }

    /// All stored observations, in append order.
    pub fn observations(&self) -> (r: &Vec<Observation>)
        ensures
            r@ == self.obs_seq(),
    {
        &self.observations
    }
}

} // verus!
