use vstd::prelude::*;
use crate::call_manager::{keeps_actors, CallLimits, CallManager};
use crate::externs::{Consensus, ConsensusFault, ExternError, Rand};
use crate::gas::{charge_spec, lemma_charge_monotone};
use crate::state_tree::{has_actor, ids_unique, lookup, ActorState};

verus! {

/// Why a syscall failed. The running code sees the error and goes on, except
/// for exhausted gas, which aborts it.
#[derive(Clone, Copy, Debug, PartialEq, Eq, Structural)]
pub enum SyscallError {
    OutOfGas,
    NotFound,
    AlreadyExists,
    /// An oracle of the embedder could not answer.
    Extern,
}

/// The gas a consensus-fault check reports, with a negative report as none.
pub open spec fn reported_gas(hint: i64) -> u64 {
    if hint < 0 {
        0
    } else {
        hint as u64
    }
}

/// A fresh actor: empty state, no calls made yet, no funds.
pub open spec fn new_actor(id: u64, code: u64) -> ActorState {
    ActorState { id, code, head: 0, sequence: 0, balance: 0 }
}

/// Gas used after looking up `id`, and the actor found.
pub open spec fn lookup_spec(lim: CallLimits, st: Seq<ActorState>, used: u64, id: u64) -> (
    u64,
    Result<ActorState, SyscallError>,
) {
    let c = charge_spec(lim.gas_limit, used, lim.prices.actor_lookup);
    if !c.1 {
        (c.0, Err(SyscallError::OutOfGas))
    } else {
        match lookup(st, id) {
            Some(a) => (c.0, Ok(a)),
            None => (c.0, Err(SyscallError::NotFound)),
        }
    }
}

/// The state and gas used after installing an actor under `id` with `code`.
/// Gas is charged first, whether or not the ID is free.
pub open spec fn create_actor_spec(
    lim: CallLimits,
    st: Seq<ActorState>,
    used: u64,
    id: u64,
    code: u64,
) -> (Seq<ActorState>, u64, Result<(), SyscallError>) {
    let c = charge_spec(lim.gas_limit, used, lim.prices.create_actor);
    if !c.1 {
        (st, c.0, Err(SyscallError::OutOfGas))
    } else if has_actor(st, id) {
        (st, c.0, Err(SyscallError::AlreadyExists))
    } else {
        (st.push(new_actor(id, code)), c.0, Ok(()))
    }
}

/// Installing an actor keeps every existing one and never lowers the gas used.
pub proof fn lemma_create_actor_frame(lim: CallLimits, st: Seq<ActorState>, used: u64, id: u64, code: u64)
    requires
        ids_unique(st),
        used <= lim.gas_limit,
    ensures
        keeps_actors(st, create_actor_spec(lim, st, used, id, code).0),
        used <= create_actor_spec(lim, st, used, id, code).1 <= lim.gas_limit,
{
    lemma_charge_monotone(lim.gas_limit, used, lim.prices.create_actor);
    let s2 = create_actor_spec(lim, st, used, id, code).0;
    assert forall|p: int, q: int|
        0 <= p < s2.len() && 0 <= q < s2.len() && #[trigger] s2[p].id == #[trigger] s2[q].id implies p == q by {
        if p < st.len() && q < st.len() {
            assert(st[p].id == st[q].id);
        } else if p < st.len() {
            assert(st[p].id == id);
        } else if q < st.len() {
            assert(st[q].id == id);
        }
    }
}

impl CallManager {
    /// The ID address of the actor at `id`, charging a look-up.
    pub fn resolve_address(&mut self, id: u64) -> (r: Result<u64, SyscallError>)
        requires
            old(self).wf(),
        ensures
            final(self).wf(),
            final(self).tree == old(self).tree,
            final(self).limits == old(self).limits,
            final(self).origin == old(self).origin,
            ({
                let l = lookup_spec(old(self).limits, old(self).tree@, old(self).gas.used, id);
                &&& final(self).gas.used == l.0
                &&& match l.1 {
                    Ok(a) => r == Ok::<u64, SyscallError>(a.id),
                    Err(e) => r == Err::<u64, SyscallError>(e),
                }
            }),
    {
        let price = self.limits.prices.actor_lookup;
        if !self.gas.charge(price) {
            return Err(SyscallError::OutOfGas);
        }
        match self.tree.get(id) {
            Some(a) => Ok(a.id),
            None => Err(SyscallError::NotFound),
        }
    }

    /// The code of the actor at `id`, charging a look-up.
    pub fn get_actor_code_cid(&mut self, id: u64) -> (r: Result<u64, SyscallError>)
        requires
            old(self).wf(),
        ensures
            final(self).wf(),
            final(self).tree == old(self).tree,
            final(self).limits == old(self).limits,
            final(self).origin == old(self).origin,
            ({
                let l = lookup_spec(old(self).limits, old(self).tree@, old(self).gas.used, id);
                &&& final(self).gas.used == l.0
                &&& match l.1 {
                    Ok(a) => r == Ok::<u64, SyscallError>(a.code),
                    Err(e) => r == Err::<u64, SyscallError>(e),
                }
            }),
    {
        let price = self.limits.prices.actor_lookup;
        if !self.gas.charge(price) {
            return Err(SyscallError::OutOfGas);
        }
        match self.tree.get(id) {
            Some(a) => Ok(a.code),
            None => Err(SyscallError::NotFound),
        }
    }

    /// Installs a new actor under `id` running `code`; fails if `id` is taken.
    pub fn create_actor(&mut self, id: u64, code: u64) -> (r: Result<(), SyscallError>)
        requires
            old(self).wf(),
        ensures
            final(self).wf(),
            final(self).limits == old(self).limits,
            final(self).origin == old(self).origin,
            Self::keeps_marks(old(self).tree, final(self).tree),
            (final(self).tree@, final(self).gas.used, r) == create_actor_spec(
                old(self).limits,
                old(self).tree@,
                old(self).gas.used,
                id,
                code,
            ),
    {
        let price = self.limits.prices.create_actor;
        if !self.gas.charge(price) {
            return Err(SyscallError::OutOfGas);
        }
        match self.tree.get(id) {
            Some(_) => Err(SyscallError::AlreadyExists),
            None => {
                self.tree.set(ActorState { id, code, head: 0, sequence: 0, balance: 0 });
                Ok(())
            },
        }
    }

    /// Ticket randomness from the embedder, after charging for the draw.
    pub fn get_randomness_from_tickets<E: Rand>(&mut self, externs: &E, tag: i64, round: i64, entropy: &Vec<u8>) -> (r: Result<Vec<u8>, SyscallError>)
        requires
            old(self).wf(),
        ensures
            final(self).wf(),
            final(self).tree == old(self).tree,
            final(self).limits == old(self).limits,
            final(self).origin == old(self).origin,
            ({
                let c = charge_spec(old(self).limits.gas_limit, old(self).gas.used, old(self).limits.prices.get_randomness);
                &&& final(self).gas.used == c.0
                &&& !c.1 ==> r == Err::<Vec<u8>, SyscallError>(SyscallError::OutOfGas)
                &&& c.1 ==> r.is_ok() || r == Err::<Vec<u8>, SyscallError>(SyscallError::Extern)
            }),
    {
        let price = self.limits.prices.get_randomness;
        if !self.gas.charge(price) {
            return Err(SyscallError::OutOfGas);
        }
        match externs.get_chain_randomness(tag, round, entropy) {
            Ok(v) => Ok(v),
            Err(_) => Err(SyscallError::Extern),
        }
    }

    /// Beacon randomness from the embedder, after charging for the draw.
    pub fn get_randomness_from_beacon<E: Rand>(&mut self, externs: &E, tag: i64, round: i64, entropy: &Vec<u8>) -> (r: Result<Vec<u8>, SyscallError>)
        requires
            old(self).wf(),
        ensures
            final(self).wf(),
            final(self).tree == old(self).tree,
            final(self).limits == old(self).limits,
            final(self).origin == old(self).origin,
            ({
                let c = charge_spec(old(self).limits.gas_limit, old(self).gas.used, old(self).limits.prices.get_randomness);
                &&& final(self).gas.used == c.0
                &&& !c.1 ==> r == Err::<Vec<u8>, SyscallError>(SyscallError::OutOfGas)
                &&& c.1 ==> r.is_ok() || r == Err::<Vec<u8>, SyscallError>(SyscallError::Extern)
            }),
    {
        let price = self.limits.prices.get_randomness;
        if !self.gas.charge(price) {
            return Err(SyscallError::OutOfGas);
        }
        match externs.get_beacon_randomness(tag, round, entropy) {
            Ok(v) => Ok(v),
            Err(_) => Err(SyscallError::Extern),
        }
    }

    /// Checks two headers for a consensus fault. The fixed price is charged
    /// before the check; the cost that the check reports is charged after it.
    pub fn verify_consensus_fault<E: Consensus>(&mut self, externs: &E, h1: &Vec<u8>, h2: &Vec<u8>, extra: &Vec<u8>) -> (r: Result<Option<ConsensusFault>, SyscallError>)
        requires
            old(self).wf(),
        ensures
            final(self).wf(),
            final(self).tree == old(self).tree,
            final(self).limits == old(self).limits,
            final(self).origin == old(self).origin,
            ({
                let c = charge_spec(old(self).limits.gas_limit, old(self).gas.used, old(self).limits.prices.verify_consensus_fault);
                &&& !c.1 ==> final(self).gas.used == c.0 && r == Err::<Option<ConsensusFault>, SyscallError>(SyscallError::OutOfGas)
                &&& c.1 ==> old(self).limits.prices.verify_consensus_fault + old(self).gas.used <= final(self).gas.used
                &&& c.1 && r == Err::<Option<ConsensusFault>, SyscallError>(SyscallError::Extern) ==> final(self).gas.used == c.0
                &&& c.1 && r == Err::<Option<ConsensusFault>, SyscallError>(SyscallError::OutOfGas) ==> final(self).gas.used == final(self).gas.limit
                &&& c.1 ==> r.is_ok() || r == Err::<Option<ConsensusFault>, SyscallError>(SyscallError::Extern)
                    || r == Err::<Option<ConsensusFault>, SyscallError>(SyscallError::OutOfGas)
            }),
    {
        let price = self.limits.prices.verify_consensus_fault;
        if !self.gas.charge(price) {
            return Err(SyscallError::OutOfGas);
        }
        let answer = externs.verify_consensus_fault(h1, h2, extra);
        self.charge_consensus_fault_answer(answer)
    }

    /// Takes the oracle's answer to a consensus-fault check: an error becomes
    /// `Extern` with no charge; otherwise the reported cost is charged, a
    /// negative report counting as nothing, and the fault is handed on if the
    /// charge fits.
    pub fn charge_consensus_fault_answer(&mut self, answer: Result<(Option<ConsensusFault>, i64), ExternError>) -> (r: Result<Option<ConsensusFault>, SyscallError>)
        requires
            old(self).wf(),
        ensures
            final(self).wf(),
            final(self).tree == old(self).tree,
            final(self).limits == old(self).limits,
            final(self).origin == old(self).origin,
            match answer {
                Err(_) => final(self).gas == old(self).gas && r == Err::<Option<ConsensusFault>, SyscallError>(SyscallError::Extern),
                Ok((fault, hint)) => {
                    let c = charge_spec(old(self).gas.limit, old(self).gas.used, reported_gas(hint));
                    &&& final(self).gas.used == c.0
                    &&& r == if c.1 {
                        Ok::<Option<ConsensusFault>, SyscallError>(fault)
                    } else {
                        Err::<Option<ConsensusFault>, SyscallError>(SyscallError::OutOfGas)
                    }
                },
            },
    {
        match answer {
            Err(_) => Err(SyscallError::Extern),
            Ok((fault, hint)) => {
                let extra_gas: u64 = if hint < 0 {
                    0
                } else {
                    hint as u64
                };
                if !self.gas.charge(extra_gas) {
                    return Err(SyscallError::OutOfGas);
                }
                Ok(fault)
            },
        }
    }
}

} // verus!
