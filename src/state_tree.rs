use vstd::prelude::*;

verus! {

/// The state of one actor: its ID address, the program that implements it,
/// the root of its private state, its call sequence number and its balance.
#[derive(Clone, Copy, Debug, PartialEq, Eq, Structural)]
pub struct ActorState {
    pub id: u64,
    pub code: u64,
    pub head: u64,
    pub sequence: u64,
    pub balance: u64,
}

/// No two entries share an ID.
pub open spec fn ids_unique(s: Seq<ActorState>) -> bool {
    forall|i: int, j: int|
        0 <= i < s.len() && 0 <= j < s.len() && #[trigger] s[i].id == #[trigger] s[j].id ==> i == j
}

pub open spec fn has_actor(s: Seq<ActorState>, id: u64) -> bool {
    exists|i: int| 0 <= i < s.len() && #[trigger] s[i].id == id
}

pub open spec fn actor_index(s: Seq<ActorState>, id: u64) -> int {
    choose|i: int| 0 <= i < s.len() && #[trigger] s[i].id == id
}

/// The entry stored under `id`, if any.
pub open spec fn lookup(s: Seq<ActorState>, id: u64) -> Option<ActorState> {
    if has_actor(s, id) {
        Some(s[actor_index(s, id)])
    } else {
        None
    }
}

/// Replaces the entry with the ID of `a`, or appends `a` when there is none.
pub open spec fn put_actor(s: Seq<ActorState>, a: ActorState) -> Seq<ActorState> {
    if has_actor(s, a.id) {
        s.update(actor_index(s, a.id), a)
    } else {
        s.push(a)
    }
}

/// How to take back one mutation of the tree.
#[derive(Clone, Copy, Debug)]
pub enum Undo {
    Created,
    Updated { index: usize, prev: ActorState },
}

pub open spec fn undo_applies(s: Seq<ActorState>, u: Undo) -> bool {
    match u {
        Undo::Created => s.len() > 0,
        Undo::Updated { index, .. } => index < s.len(),
    }
}

pub open spec fn apply_undo(s: Seq<ActorState>, u: Undo) -> Seq<ActorState> {
    match u {
        Undo::Created => s.drop_last(),
        Undo::Updated { index, prev } => s.update(index as int, prev),
    }
}

pub proof fn lemma_lookup_index(s: Seq<ActorState>, i: int)
    requires
        ids_unique(s),
        0 <= i < s.len(),
    ensures
        has_actor(s, s[i].id),
        actor_index(s, s[i].id) == i,
        lookup(s, s[i].id) == Some(s[i]),
{
    let id = s[i].id;
    assert(s[i].id == id);
    let j = actor_index(s, id);
    assert(s[j].id == id);
}

/// The actor mapping, with a journal of undo records. A mark is a length of the
/// journal; reverting to a mark restores the mapping as it stood at that mark.
pub struct StateTree {
    actors: Vec<ActorState>,
    journal: Vec<Undo>,
    history: Ghost<Seq<Seq<ActorState>>>,
}

impl View for StateTree {
    type V = Seq<ActorState>;

    closed spec fn view(&self) -> Seq<ActorState> {
        self.actors@
    }
}

impl StateTree {
    /// The current journal length.
    pub closed spec fn mark(&self) -> nat {
        self.journal@.len()
    }

    /// The mapping as it stood when the journal had length `i`.
    pub closed spec fn state_at(&self, i: nat) -> Seq<ActorState> {
        if i >= self.history@.len() {
            self.actors@
        } else {
            self.history@[i as int]
        }
    }

    pub closed spec fn wf(&self) -> bool {
        &&& self.journal@.len() == self.history@.len()
        &&& ids_unique(self.actors@)
        &&& forall|i: int| 0 <= i < self.history@.len() ==> ids_unique(#[trigger] self.history@[i])
        &&& forall|i: int|
            0 <= i < self.journal@.len() ==> undo_applies(
                self.state_at((i + 1) as nat),
                #[trigger] self.journal@[i],
            ) && apply_undo(self.state_at((i + 1) as nat), self.journal@[i])
                == self.history@[i]
    }

    pub proof fn lemma_current(&self)
        requires
            self.wf(),
        ensures
            self.state_at(self.mark()) == self@,
            ids_unique(self@),
    {
    }

    /// An empty tree with an empty journal.
    pub fn new() -> (r: StateTree)
        ensures
            r.wf(),
            r@ == Seq::<ActorState>::empty(),
            r.mark() == 0,
    {
        StateTree { actors: Vec::new(), journal: Vec::new(), history: Ghost(Seq::empty()) }
    }

    /// A tree holding `actors`, or `None` when two of them share an ID.
    pub fn from_actors(actors: Vec<ActorState>) -> (r: Option<StateTree>)
        ensures
            r.is_some() <==> ids_unique(actors@),
            r matches Some(t) ==> t.wf() && t@ == actors@ && t.mark() == 0,
    {
        let n = actors.len();
        let mut i: usize = 0;
        while i < n
            invariant
                n == actors@.len(),
                i <= n,
                forall|a: int, b: int|
                    0 <= a < i && 0 <= b < n && #[trigger] actors@[a].id == #[trigger] actors@[b].id
                        ==> a == b,
            decreases n - i,
        {
            let mut j: usize = 0;
            while j < n
                invariant
                    n == actors@.len(),
                    i < n,
                    j <= n,
                    forall|a: int, b: int|
                        0 <= a < i && 0 <= b < n && #[trigger] actors@[a].id
                            == #[trigger] actors@[b].id ==> a == b,
                    forall|b: int|
                        0 <= b < j && actors@[i as int].id == #[trigger] actors@[b].id ==> b == i,
                decreases n - j,
            {
                if j != i && actors[i].id == actors[j].id {
                    assert(!ids_unique(actors@)) by {
                        assert(actors@[i as int].id == actors@[j as int].id);
                    }
                    return None;
                }
                j += 1;
            }
            i += 1;
        }
        Some(StateTree { actors, journal: Vec::new(), history: Ghost(Seq::empty()) })
    }

    /// A copy of all entries, in storage order.
    pub fn actors(&self) -> (r: Vec<ActorState>)
        ensures
            r@ == self@,
    {
        let mut out: Vec<ActorState> = Vec::new();
        let mut i: usize = 0;
        while i < self.actors.len()
            invariant
                i <= self.actors@.len(),
                out@ == self.actors@.subrange(0, i as int),
            decreases self.actors@.len() - i,
        {
            out.push(self.actors[i]);
            i += 1;
            assert(out@ =~= self.actors@.subrange(0, i as int));
        }
        assert(out@ =~= self.actors@);
        out
    }

    fn find_index(&self, id: u64) -> (r: Option<usize>)
        requires
            self.wf(),
        ensures
            match r {
                Some(i) => i < self@.len() && self@[i as int].id == id && actor_index(self@, id)
                    == i,
                None => !has_actor(self@, id),
            },
    {
        let mut i: usize = 0;
        while i < self.actors.len()
            invariant
                self.wf(),
                i <= self.actors@.len(),
                forall|k: int| 0 <= k < i ==> #[trigger] self.actors@[k].id != id,
            decreases self.actors@.len() - i,
        {
            if self.actors[i].id == id {
                proof {
                    lemma_lookup_index(self@, i as int);
                }
                return Some(i);
            }
            i += 1;
        }
        None
    }

    /// The entry stored under `id`, if any.
    pub fn get(&self, id: u64) -> (r: Option<ActorState>)
        requires
            self.wf(),
        ensures
            r == lookup(self@, id),
    {
        match self.find_index(id) {
            Some(i) => Some(self.actors[i]),
            None => None,
        }
    }

    /// Stores `a` under its ID, recording how to take the change back.
    pub fn set(&mut self, a: ActorState)
        requires
            old(self).wf(),
        ensures
            final(self).wf(),
            final(self)@ == put_actor(old(self)@, a),
            final(self).mark() == old(self).mark() + 1,
            forall|i: nat| i <= old(self).mark() ==> #[trigger] final(self).state_at(i) == old(self).state_at(i),
    {
        let ghost before = self.actors@;
        let ghost old_self = *self;
        let idx = self.find_index(a.id);
        self.history = Ghost(self.history@.push(self.actors@));
        match idx {
            Some(i) => {
                let prev = self.actors[i];
                self.actors.set(i, a);
                self.journal.push(Undo::Updated { index: i, prev });
                assert(self.actors@.update(i as int, prev) =~= before);
                assert forall|p: int, q: int|
                    0 <= p < self.actors@.len() && 0 <= q < self.actors@.len()
                        && #[trigger] self.actors@[p].id == #[trigger] self.actors@[q].id implies p == q by {
                    if p != i && q != i {
                        assert(before[p].id == before[q].id);
                    } else if p == i && q != i {
                        assert(before[q].id == a.id);
                        assert(before[i as int].id == a.id);
                    } else if q == i && p != i {
                        assert(before[p].id == a.id);
                        assert(before[i as int].id == a.id);
                    }
                }
            },
            None => {
                self.actors.push(a);
                self.journal.push(Undo::Created);
                assert(self.actors@.drop_last() =~= before);
                assert forall|p: int, q: int|
                    0 <= p < self.actors@.len() && 0 <= q < self.actors@.len()
                        && #[trigger] self.actors@[p].id == #[trigger] self.actors@[q].id implies p == q by {
                    if p < before.len() && q < before.len() {
                        assert(before[p].id == before[q].id);
                    } else if p < before.len() {
                        assert(before[p].id == a.id);
                    } else if q < before.len() {
                        assert(before[q].id == a.id);
                    }
                }
            },
        }
        assert forall|i: nat| i <= old_self.mark() implies #[trigger] self.state_at(i) == old_self.state_at(i) by {
        }
        assert forall|i: int| 0 <= i < self.journal@.len() implies undo_applies(
            self.state_at((i + 1) as nat),
            #[trigger] self.journal@[i],
        ) && apply_undo(self.state_at((i + 1) as nat), self.journal@[i]) == self.history@[i] by {
            if i < old_self.journal@.len() {
                assert(self.journal@[i] == old_self.journal@[i]);
                assert(self.state_at((i + 1) as nat) == old_self.state_at((i + 1) as nat));
            }
        }
    }

    /// The current journal length, to revert to later.
    pub fn snapshot(&self) -> (r: usize)
        ensures
            r == self.mark(),
    {
        self.journal.len()
    }

    /// Takes back every mutation recorded after `mark`.
    pub fn revert_to(&mut self, mark: usize)
        requires
            old(self).wf(),
            mark <= old(self).mark(),
        ensures
            final(self).wf(),
            final(self)@ == old(self).state_at(mark as nat),
            final(self).mark() == mark,
            forall|i: nat| i <= mark ==> #[trigger] final(self).state_at(i) == old(self).state_at(i),
    {
        let ghost old_self = *self;
        while self.journal.len() > mark
            invariant
                self.wf(),
                mark <= self.journal@.len() <= old_self.journal@.len(),
                forall|i: nat| i <= self.mark() ==> #[trigger] self.state_at(i) == old_self.state_at(i),
            decreases self.journal@.len(),
        {
            let ghost cur = *self;
            let last = self.journal.len() - 1;
            let u = self.journal.pop().unwrap();
            assert(u == cur.journal@[last as int]);
            assert(cur.state_at((last + 1) as nat) == cur.actors@);
            match u {
                Undo::Created => {
                    self.actors.pop();
                    assert(self.actors@ =~= cur.actors@.drop_last());
                },
                Undo::Updated { index, prev } => {
                    self.actors.set(index, prev);
                },
            }
            self.history = Ghost(self.history@.drop_last());
            assert(self.actors@ == cur.history@[last as int]);
            assert forall|i: nat| i <= self.mark() implies #[trigger] self.state_at(i) == cur.state_at(i) by {
            }
            assert forall|i: int| 0 <= i < self.journal@.len() implies undo_applies(
                self.state_at((i + 1) as nat),
                #[trigger] self.journal@[i],
            ) && apply_undo(self.state_at((i + 1) as nat), self.journal@[i])
                == self.history@[i] by {
                assert(self.journal@[i] == cur.journal@[i]);
                assert(self.state_at((i + 1) as nat) == cur.state_at((i + 1) as nat));
            }
            assert(cur.history@[last as int] == cur.state_at(last as nat));
        }
        assert(self.state_at(self.mark()) == self@);
        assert(self.state_at(mark as nat) == old_self.state_at(mark as nat));
    }

    /// Forgets the journal: the current mapping can no longer be reverted.
    pub fn discard_journal(&mut self)
        requires
            old(self).wf(),
        ensures
            final(self).wf(),
            final(self)@ == old(self)@,
            final(self).mark() == 0,
    {
        self.journal = Vec::new();
        self.history = Ghost(Seq::empty());
    }
}

} // verus!
