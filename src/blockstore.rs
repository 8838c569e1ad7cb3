use vstd::prelude::*;
use crate::content_id::{state_root, state_root_of};
use crate::state_tree::ActorState;

verus! {

/// A flushed state, stored under its CID.
#[derive(Clone, Debug)]
pub struct Block {
    pub key: Vec<u8>,
    pub actors: Vec<ActorState>,
}

/// An append-only store of flushed states, each under its own CID.
#[derive(Clone, Debug)]
pub struct Blockstore {
    blocks: Vec<Block>,
}

/// The state last stored under `key`, if any.
pub open spec fn load_spec(blocks: Seq<Block>, key: Seq<u8>) -> Option<Seq<ActorState>>
    decreases blocks.len(),
{
    if blocks.len() == 0 {
        None
    } else if blocks.last().key@ == key {
        Some(blocks.last().actors@)
    } else {
        load_spec(blocks.drop_last(), key)
    }
}

/// Whether two byte strings are equal.
pub fn bytes_eq(a: &Vec<u8>, b: &Vec<u8>) -> (r: bool)
    ensures
        r == (a@ == b@),
{
    if a.len() != b.len() {
        return false;
    }
    let mut i: usize = 0;
    while i < a.len()
        invariant
            a@.len() == b@.len(),
            i <= a@.len(),
            forall|k: int| 0 <= k < i ==> a@[k] == b@[k],
        decreases a@.len() - i,
    {
        if a[i] != b[i] {
            return false;
        }
        i += 1;
    }
    assert(a@ =~= b@);
    true
}

fn copy_bytes(v: &Vec<u8>) -> (r: Vec<u8>)
    ensures
        r@ == v@,
{
    let mut out: Vec<u8> = Vec::new();
    let mut i: usize = 0;
    while i < v.len()
        invariant
            i <= v@.len(),
            out@ == v@.subrange(0, i as int),
        decreases v@.len() - i,
    {
        out.push(v[i]);
        i += 1;
        assert(out@ =~= v@.subrange(0, i as int));
    }
    assert(out@ =~= v@);
    out
}

fn copy_actors(v: &Vec<ActorState>) -> (r: Vec<ActorState>)
    ensures
        r@ == v@,
{
    let mut out: Vec<ActorState> = Vec::new();
    let mut i: usize = 0;
    while i < v.len()
        invariant
            i <= v@.len(),
            out@ == v@.subrange(0, i as int),
        decreases v@.len() - i,
    {
        out.push(v[i]);
        i += 1;
        assert(out@ =~= v@.subrange(0, i as int));
    }
    assert(out@ =~= v@);
    out
}

impl Blockstore {
    /// The stored blocks, oldest first.
    pub closed spec fn blocks(&self) -> Seq<Block> {
        self.blocks@
    }

    /// Every block is stored under the CID of its content.
    pub closed spec fn wf(&self) -> bool {
        forall|i: int| 0 <= i < self.blocks@.len() ==> (#[trigger] self.blocks@[i]).key@ == state_root_of(self.blocks@[i].actors@)
    }

    pub fn new() -> (r: Blockstore)
        ensures
            r.wf(),
            r.blocks() == Seq::<Block>::empty(),
    {
        Blockstore { blocks: Vec::new() }
    }

    /// Stores `actors` under their CID and returns it.
    pub fn put(&mut self, actors: Vec<ActorState>) -> (r: Vec<u8>)
        requires
            old(self).wf(),
        ensures
            final(self).wf(),
            r@ == state_root_of(actors@),
            final(self).blocks().len() == old(self).blocks().len() + 1,
            final(self).blocks().drop_last() == old(self).blocks(),
            final(self).blocks().last().key@ == r@,
            final(self).blocks().last().actors@ == actors@,
    {
        let root = state_root(&actors);
        let key = copy_bytes(&root);
        self.blocks.push(Block { key, actors });
        assert(self.blocks@.drop_last() =~= old(self).blocks@);
        root
    }

    /// The state last stored under `key`, if any.
    pub fn get(&self, key: &Vec<u8>) -> (r: Option<Vec<ActorState>>)
        ensures
            match r {
                Some(v) => load_spec(self.blocks(), key@) == Some(v@),
                None => load_spec(self.blocks(), key@).is_none(),
            },
    {
        let mut i: usize = self.blocks.len();
        assert(self.blocks@.subrange(0, i as int) =~= self.blocks@);
        while i > 0
            invariant
                i <= self.blocks@.len(),
                load_spec(self.blocks@, key@) == load_spec(self.blocks@.subrange(0, i as int), key@),
            decreases i,
        {
            let ghost pre = self.blocks@.subrange(0, i as int);
            assert(pre.last() == self.blocks@[i - 1]);
            if bytes_eq(&self.blocks[i - 1].key, key) {
                return Some(copy_actors(&self.blocks[i - 1].actors));
            }
            assert(pre.drop_last() =~= self.blocks@.subrange(0, i - 1));
            i -= 1;
        }
        None
    }
}

} // verus!
