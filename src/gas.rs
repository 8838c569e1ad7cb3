use vstd::prelude::*;

verus! {

/// Gas prices of one network version.
#[derive(Clone, Copy, Debug, PartialEq, Eq, Structural)]
pub struct PriceList {
    /// Fixed gas for including a message on chain.
    pub on_chain_message_base: u64,
    /// Gas per byte of a message's on-chain size.
    pub on_chain_message_per_byte: u64,
    /// Bytes added to the on-chain size of a message whose signature is not
    /// part of its encoding: a 65-byte signature, its type byte and three
    /// bytes of field framing.
    pub detached_signature_bytes: u64,
    /// Gas for each send issued by running code.
    pub send_base: u64,
    /// Gas for each update of an actor's state root.
    pub set_head: u64,
    /// Gas for each look-up of an actor by running code.
    pub actor_lookup: u64,
    /// Gas for installing a new actor.
    pub create_actor: u64,
    /// Gas for each draw of randomness.
    pub get_randomness: u64,
    /// Fixed gas for each consensus-fault check, before its own reported cost.
    pub verify_consensus_fault: u64,
}

pub open spec fn standard_prices() -> PriceList {
    PriceList {
        on_chain_message_base: 38863,
        on_chain_message_per_byte: 1300,
        detached_signature_bytes: 69,
        send_base: 29233,
        set_head: 1000,
        actor_lookup: 500,
        create_actor: 1108454,
        get_randomness: 1000,
        verify_consensus_fault: 495422,
    }
}

/// The price list in force at `network_version`; every supported version
/// shares one list.
pub fn price_list_by_network_version(network_version: u32) -> (r: PriceList)
    ensures
        r == standard_prices(),
{
    PriceList {
        on_chain_message_base: 38863,
        on_chain_message_per_byte: 1300,
        detached_signature_bytes: 69,
        send_base: 29233,
        set_head: 1000,
        actor_lookup: 500,
        create_actor: 1108454,
        get_randomness: 1000,
        verify_consensus_fault: 495422,
    }
}

/// Gas for including a message of `size` bytes, as an unbounded integer.
pub open spec fn inclusion_gas(p: PriceList, size: u64, detached_signature: bool) -> int {
    p.on_chain_message_base + p.on_chain_message_per_byte * (size + if detached_signature {
        p.detached_signature_bytes as int
    } else {
        0int
    })
}

/// Gas used after charging `amount` on top of `used` under `limit`, and
/// whether the charge fit. A charge that does not fit exhausts the limit.
pub open spec fn charge_spec(limit: u64, used: u64, amount: u64) -> (u64, bool) {
    if amount <= limit - used {
        ((used + amount) as u64, true)
    } else {
        (limit, false)
    }
}

/// Inclusion gas for a message, or `None` when it would exceed `limit`.
pub fn on_chain_message_gas(p: &PriceList, size: u64, detached_signature: bool, limit: u64) -> (r:
    Option<u64>)
    ensures
        match r {
            Some(g) => g == inclusion_gas(*p, size, detached_signature) && g <= limit,
            None => inclusion_gas(*p, size, detached_signature) > limit,
        },
{
    let extra: u128 = if detached_signature {
        p.detached_signature_bytes as u128
    } else {
        0
    };
    let bytes: u128 = size as u128 + extra;
    let per_byte: u128 = p.on_chain_message_per_byte as u128;
    match per_byte.checked_mul(bytes) {
        None => None,
        Some(storage) => {
            let base: u128 = p.on_chain_message_base as u128;
            if storage > limit as u128 || base > limit as u128 - storage {
                None
            } else {
                Some((base + storage) as u64)
            }
        },
    }
}

/// A running gas counter for one message.
#[derive(Clone, Copy, Debug)]
pub struct GasTracker {
    pub limit: u64,
    pub used: u64,
}

impl GasTracker {
    pub open spec fn wf(&self) -> bool {
        self.used <= self.limit
    }

    pub fn new(limit: u64, used: u64) -> (r: GasTracker)
        requires
            used <= limit,
        ensures
            r.wf(),
            r.limit == limit,
            r.used == used,
    {
        GasTracker { limit, used }
    }

    /// Charges `amount`; returns `false`, with the limit used up, when it does
    /// not fit.
    pub fn charge(&mut self, amount: u64) -> (r: bool)
        requires
            old(self).wf(),
        ensures
            final(self).wf(),
            final(self).limit == old(self).limit,
            (final(self).used, r) == charge_spec(old(self).limit, old(self).used, amount),
    {
        if amount <= self.limit - self.used {
            self.used = self.used + amount;
            true
        } else {
            self.used = self.limit;
            false
        }
    }

    /// Gas left under the limit.
    pub fn remaining(&self) -> (r: u64)
        requires
            self.wf(),
        ensures
            r == self.limit - self.used,
    {
        self.limit - self.used
    }
}

/// Charging never lowers the gas used and never passes the limit.
pub proof fn lemma_charge_monotone(limit: u64, used: u64, amount: u64)
    requires
        used <= limit,
    ensures
        used <= charge_spec(limit, used, amount).0 <= limit,
{
}

} // verus!
