use vstd::prelude::*;

verus! {

/// An oracle that could not answer.
#[derive(Clone, Copy, Debug, PartialEq, Eq, Structural)]
pub struct ExternError {
    pub code: u32,
}

/// The kind of a proven consensus fault.
#[derive(Clone, Copy, Debug, PartialEq, Eq, Structural)]
pub enum ConsensusFaultType {
    DoubleForkMining,
    ParentGrinding,
    TimeOffsetMining,
}

/// A consensus fault proven by two block headers.
#[derive(Clone, Copy, Debug, PartialEq, Eq, Structural)]
pub struct ConsensusFault {
    pub target: u64,
    pub epoch: i64,
    pub fault_type: ConsensusFaultType,
}

/// Randomness drawn from the chain, supplied by the embedder.
pub trait Rand {
    /// 32 bytes of ticket randomness for `round`, mixed with `tag` and `entropy`.
    fn get_chain_randomness(&self, tag: i64, round: i64, entropy: &Vec<u8>) -> Result<Vec<u8>, ExternError>;

    /// 32 bytes of beacon randomness for `round`, mixed with `tag` and `entropy`.
    fn get_beacon_randomness(&self, tag: i64, round: i64, entropy: &Vec<u8>) -> Result<Vec<u8>, ExternError>;
}

/// Consensus-fault verification, supplied by the embedder.
pub trait Consensus {
    /// The fault that two headers prove, if any, and the gas the check cost.
    fn verify_consensus_fault(&self, h1: &Vec<u8>, h2: &Vec<u8>, extra: &Vec<u8>) -> Result<
        (Option<ConsensusFault>, i64),
        ExternError,
    >;
}

/// Every oracle a machine needs.
pub trait Externs: Rand + Consensus {

}

} // verus!
