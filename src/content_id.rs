use vstd::prelude::*;
use cid::Cid;
use multihash::{Code, MultihashDigest};
use crate::state_tree::ActorState;

verus! {

/// Multicodec of DAG-CBOR blocks.
pub const DAG_CBOR: u64 = 0x71;

/// Multicodec of raw binary blocks.
pub const IPLD_RAW: u64 = 0x55;

/// The bytes of the version-1 CID, with a Blake2b-256 multihash, of `data`
/// under `codec`.
pub uninterp spec fn blake2b_cid_of(codec: u64, data: Seq<u8>) -> Seq<u8>;

/// The first six bytes of a version-1 Blake2b-256 CID under a codec below
/// 0x80: the version, the codec, the multihash code 0xb220 as a varint, and
/// the digest length 32.
pub open spec fn blake2b_cid_prefix(codec: u64) -> Seq<u8> {
    seq![0x01u8, codec as u8, 0xa0u8, 0xe4u8, 0x02u8, 0x20u8]
}

/// Relies on multihash's `Code::Blake2b256.digest`, cid's `Cid::new_v1` and
/// `Cid::to_bytes`: the CID bytes depend on the codec and the data alone, and
/// are the varint version, the varint codec, the varint multihash code, the
/// digest length and the 32-byte digest.
#[verifier::external_body]
fn blake2b_cid(codec: u64, data: &Vec<u8>) -> (r: Vec<u8>)
    ensures
        r@ == blake2b_cid_of(codec, data@),
        codec < 0x80 ==> r@.len() == 38 && r@.subrange(0, 6) == blake2b_cid_prefix(codec),
{
    Cid::new_v1(codec, Code::Blake2b256.digest(data)).to_bytes()
}

/// The DAG-CBOR encoding of an empty array.
pub open spec fn empty_array_cbor() -> Seq<u8> {
    seq![0x80u8]
}

/// The CID of the DAG-CBOR empty array.
pub fn empty_arr_cid() -> (r: Vec<u8>)
    ensures
        r@ == blake2b_cid_of(DAG_CBOR, empty_array_cbor()),
        r@.len() == 38,
        r@.subrange(0, 6) == blake2b_cid_prefix(DAG_CBOR),
{
    let empty: Vec<u8> = vec![0x80u8];
    assert(empty@ =~= empty_array_cbor());
    blake2b_cid(DAG_CBOR, &empty)
}

/// The `n` low bytes of `x`, least significant first.
pub open spec fn le_bytes(x: nat, n: nat) -> Seq<u8>
    decreases n,
{
    if n == 0 {
        Seq::empty()
    } else {
        seq![(x % 256) as u8] + le_bytes(x / 256, (n - 1) as nat)
    }
}

/// An actor as five little-endian 64-bit words.
pub open spec fn encode_actor(a: ActorState) -> Seq<u8> {
    le_bytes(a.id as nat, 8) + le_bytes(a.code as nat, 8) + le_bytes(a.head as nat, 8) + le_bytes(
        a.sequence as nat,
        8,
    ) + le_bytes(a.balance as nat, 8)
}

/// The actors encoded one after another, in order.
pub open spec fn encode_actors(s: Seq<ActorState>) -> Seq<u8>
    decreases s.len(),
{
    if s.len() == 0 {
        Seq::empty()
    } else {
        encode_actors(s.drop_last()) + encode_actor(s.last())
    }
}

/// The CID of a state whose actors are `s`.
pub open spec fn state_root_of(s: Seq<ActorState>) -> Seq<u8> {
    blake2b_cid_of(IPLD_RAW, encode_actors(s))
}

fn push_u64(out: &mut Vec<u8>, x: u64)
    ensures
        final(out)@ == old(out)@ + le_bytes(x as nat, 8),
{
    let mut v: u64 = x;
    let mut k: usize = 0;
    while k < 8
        invariant
            k <= 8,
            out@ + le_bytes(v as nat, (8 - k) as nat) == old(out)@ + le_bytes(x as nat, 8),
        decreases 8 - k,
    {
        let ghost before = out@;
        let ghost rest = le_bytes((v / 256) as nat, (8 - k - 1) as nat);
        assert(le_bytes(v as nat, (8 - k) as nat) == seq![(v % 256) as u8] + rest);
        out.push((v % 256) as u8);
        assert(before + (seq![(v % 256) as u8] + rest) =~= out@ + rest);
        v = v / 256;
        k += 1;
    }
    assert(out@ + le_bytes(v as nat, 0) =~= out@);
}

/// The encoding of `actors`.
pub fn encode_state(actors: &Vec<ActorState>) -> (r: Vec<u8>)
    ensures
        r@ == encode_actors(actors@),
{
    let mut out: Vec<u8> = Vec::new();
    let mut i: usize = 0;
    assert(actors@.subrange(0, 0) =~= Seq::<ActorState>::empty());
    while i < actors.len()
        invariant
            i <= actors@.len(),
            out@ == encode_actors(actors@.subrange(0, i as int)),
        decreases actors@.len() - i,
    {
        let a = actors[i];
        push_u64(&mut out, a.id);
        push_u64(&mut out, a.code);
        push_u64(&mut out, a.head);
        push_u64(&mut out, a.sequence);
        push_u64(&mut out, a.balance);
        let ghost next = actors@.subrange(0, i + 1);
        assert(next.drop_last() =~= actors@.subrange(0, i as int));
        assert(next.last() == a);
        assert(out@ =~= encode_actors(next));
        i += 1;
    }
    assert(actors@.subrange(0, actors@.len() as int) =~= actors@);
    out
}

/// The CID of the state made of `actors`.
pub fn state_root(actors: &Vec<ActorState>) -> (r: Vec<u8>)
    ensures
        r@ == state_root_of(actors@),
        r@.len() == 38,
        r@.subrange(0, 6) == blake2b_cid_prefix(IPLD_RAW),
{
    let bytes = encode_state(actors);
    blake2b_cid(IPLD_RAW, &bytes)
}

} // verus!
