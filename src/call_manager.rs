use vstd::prelude::*;
use crate::kernel::{create_actor_spec, lemma_create_actor_frame, SyscallError};
use crate::gas::{charge_spec, lemma_charge_monotone, GasTracker, PriceList};
use crate::state_tree::{
    has_actor, lemma_lookup_index, lookup, put_actor, ActorState, StateTree, ids_unique,
    actor_index,
};

verus! {

pub const EXIT_OK: u32 = 0;
pub const EXIT_SENDER_INVALID: u32 = 1;
pub const EXIT_SENDER_STATE_INVALID: u32 = 2;
pub const EXIT_INVALID_RECEIVER: u32 = 5;
pub const EXIT_INSUFFICIENT_FUNDS: u32 = 6;
pub const EXIT_OUT_OF_GAS: u32 = 7;
pub const EXIT_CALL_DEPTH_EXCEEDED: u32 = 8;
pub const EXIT_ILLEGAL_STATE: u32 = 11;
pub const EXIT_UNHANDLED_MESSAGE: u32 = 22;

/// One request that running code makes of the kernel.
#[derive(Clone, Copy, Debug, PartialEq, Eq, Structural)]
pub enum GuestOp {
    /// Consume this much gas.
    Charge(u64),
    /// Replace the running actor's state root.
    SetHead(u64),
    /// Install a new actor under `id`; an occupied ID leaves the state as it is.
    CreateActor { id: u64, code: u64 },
    /// Call another actor; whatever exit code comes back, the caller goes on.
    Send { to: u64, method: u64, value: u64 },
    /// Stop with this exit code; zero is success, anything else aborts.
    Exit(u32),
}

/// The code run for `method` of actors whose code is `code`.
#[derive(Clone, Debug)]
pub struct Program {
    pub code: u64,
    pub method: u64,
    pub ops: Vec<GuestOp>,
}

/// The loaded programs, by code and method, and the codes of the accounts
/// that may send messages.
#[derive(Clone, Debug)]
pub struct Engine {
    pub programs: Vec<Program>,
    pub account_codes: Vec<u64>,
}

/// What stays fixed while one message runs.
#[derive(Clone, Copy, Debug)]
pub struct CallLimits {
    pub max_depth: u64,
    pub gas_limit: u64,
    pub prices: PriceList,
}

/// The ops of the first program for `code` and `method`.
pub open spec fn find_program(progs: Seq<Program>, code: u64, method: u64) -> Option<Seq<GuestOp>>
    decreases progs.len(),
{
    if progs.len() == 0 {
        None
    } else if progs[0].code == code && progs[0].method == method {
        Some(progs[0].ops@)
    } else {
        find_program(progs.drop_first(), code, method)
    }
}

/// Moves `value` from `from` to `to`, or the exit code of the failure.
pub open spec fn transfer_spec(st: Seq<ActorState>, from: u64, to: u64, value: u64) -> Result<
    Seq<ActorState>,
    u32,
> {
    if !has_actor(st, from) {
        Err(EXIT_SENDER_INVALID)
    } else if !has_actor(st, to) {
        Err(EXIT_INVALID_RECEIVER)
    } else if lookup(st, from).unwrap().balance < value {
        Err(EXIT_INSUFFICIENT_FUNDS)
    } else if from == to {
        Ok(st)
    } else if lookup(st, to).unwrap().balance + value > u64::MAX {
        Err(EXIT_ILLEGAL_STATE)
    } else {
        let f = lookup(st, from).unwrap();
        let st1 = put_actor(st, ActorState { balance: (f.balance - value) as u64, ..f });
        let t = lookup(st1, to).unwrap();
        Ok(put_actor(st1, ActorState { balance: (t.balance + value) as u64, ..t }))
    }
}

/// The outcome of a call from `from` to `to` entered at `depth`: the state
/// after it, the gas used after it, and its exit code. An aborted call leaves
/// the state as it found it.
pub open spec fn send_spec(
    eng: Engine,
    lim: CallLimits,
    st: Seq<ActorState>,
    used: u64,
    from: u64,
    to: u64,
    method: u64,
    value: u64,
    depth: u64,
) -> (Seq<ActorState>, u64, u32)
    decreases lim.max_depth - depth + 1, 0int,
{
    if depth >= lim.max_depth {
        (st, used, EXIT_CALL_DEPTH_EXCEEDED)
    } else {
        match transfer_spec(st, from, to, value) {
            Err(e) => (st, used, e),
            Ok(st1) => {
                if method == 0 {
                    (st1, used, EXIT_OK)
                } else {
                    match find_program(eng.programs@, lookup(st1, to).unwrap().code, method) {
                        None => (st, used, EXIT_UNHANDLED_MESSAGE),
                        Some(ops) => {
                            let r = run_spec(eng, lim, st1, used, to, ops, 0, (depth + 1) as u64);
                            if r.2 == EXIT_OK {
                                r
                            } else {
                                (st, r.1, r.2)
                            }
                        },
                    }
                }
            },
        }
    }
}

/// The outcome of running `ops` from position `i` as actor `me` at `depth`.
pub open spec fn run_spec(
    eng: Engine,
    lim: CallLimits,
    st: Seq<ActorState>,
    used: u64,
    me: u64,
    ops: Seq<GuestOp>,
    i: nat,
    depth: u64,
) -> (Seq<ActorState>, u64, u32)
    decreases lim.max_depth - depth + 1, ops.len() - i + 1,
{
    if depth > lim.max_depth || i >= ops.len() {
        (st, used, EXIT_OK)
    } else {
        match ops[i as int] {
            GuestOp::Charge(n) => {
                let c = charge_spec(lim.gas_limit, used, n);
                if !c.1 {
                    (st, c.0, EXIT_OUT_OF_GAS)
                } else {
                    run_spec(eng, lim, st, c.0, me, ops, i + 1, depth)
                }
            },
            GuestOp::SetHead(h) => {
                let c = charge_spec(lim.gas_limit, used, lim.prices.set_head);
                if !c.1 {
                    (st, c.0, EXIT_OUT_OF_GAS)
                } else {
                    let a = lookup(st, me).unwrap();
                    run_spec(eng, lim, put_actor(st, ActorState { head: h, ..a }), c.0, me, ops, i + 1, depth)
                }
            },
            GuestOp::Send { to, method, value } => {
                let c = charge_spec(lim.gas_limit, used, lim.prices.send_base);
                if !c.1 {
                    (st, c.0, EXIT_OUT_OF_GAS)
                } else {
                    let r = send_spec(eng, lim, st, c.0, me, to, method, value, depth);
                    run_spec(eng, lim, r.0, r.1, me, ops, i + 1, depth)
                }
            },
            GuestOp::CreateActor { id, code } => {
                let k = create_actor_spec(lim, st, used, id, code);
                if k.2 == Err::<(), SyscallError>(SyscallError::OutOfGas) {
                    (st, k.1, EXIT_OUT_OF_GAS)
                } else {
                    run_spec(eng, lim, k.0, k.1, me, ops, i + 1, depth)
                }
            },
            GuestOp::Exit(code) => (st, used, code),
        }
    }
}

/// Whether a charge of `amount` on top of `used` fits under `limit`.
pub open spec fn charge_fits(limit: u64, used: u64, amount: u64) -> bool {
    used <= limit && amount <= limit - used
}

/// `s2` holds every actor of `s1` in the same place, with the same code and
/// sequence number, lists no ID twice, and may hold new actors after them;
/// balances and state roots may differ.
pub open spec fn keeps_actors(s1: Seq<ActorState>, s2: Seq<ActorState>) -> bool {
    &&& s1.len() <= s2.len()
    &&& ids_unique(s2)
    &&& forall|i: int|
        0 <= i < s1.len() ==> (#[trigger] s2[i]).id == s1[i].id && s2[i].code == s1[i].code
            && s2[i].sequence == s1[i].sequence
}

pub proof fn lemma_put_existing(s: Seq<ActorState>, a: ActorState)
    requires
        ids_unique(s),
        has_actor(s, a.id),
        a.code == lookup(s, a.id).unwrap().code,
        a.sequence == lookup(s, a.id).unwrap().sequence,
    ensures
        keeps_actors(s, put_actor(s, a)),
        ids_unique(put_actor(s, a)),
        put_actor(s, a) == s.update(actor_index(s, a.id), a),
        lookup(put_actor(s, a), a.id) == Some(a),
{
    let k = actor_index(s, a.id);
    let s2 = put_actor(s, a);
    assert forall|p: int, q: int|
        0 <= p < s2.len() && 0 <= q < s2.len() && #[trigger] s2[p].id == #[trigger] s2[q].id implies p == q by {
        assert(s2[p].id == s[p].id);
        assert(s2[q].id == s[q].id);
    }
    lemma_lookup_index(s2, k);
}

pub proof fn lemma_frame_keeps(s1: Seq<ActorState>, s2: Seq<ActorState>, id: u64)
    requires
        keeps_actors(s1, s2),
        ids_unique(s1),
    ensures
        has_actor(s1, id) ==> has_actor(s2, id) && lookup(s2, id).unwrap().sequence == lookup(
            s1,
            id,
        ).unwrap().sequence && lookup(s2, id).unwrap().code == lookup(s1, id).unwrap().code,
{
    if has_actor(s1, id) {
        let k = actor_index(s1, id);
        assert(s2[k].id == id);
        lemma_lookup_index(s1, k);
        lemma_lookup_index(s2, k);
    }
}

pub proof fn lemma_frame_trans(s1: Seq<ActorState>, s2: Seq<ActorState>, s3: Seq<ActorState>)
    requires
        keeps_actors(s1, s2),
        keeps_actors(s2, s3),
    ensures
        keeps_actors(s1, s3),
{
    assert forall|i: int| 0 <= i < s1.len() implies (#[trigger] s3[i]).id == s1[i].id && s3[i].code
        == s1[i].code && s3[i].sequence == s1[i].sequence by {
        assert(s2[i].id == s1[i].id);
    }
}

pub proof fn lemma_transfer_frame(st: Seq<ActorState>, from: u64, to: u64, value: u64)
    requires
        ids_unique(st),
    ensures
        transfer_spec(st, from, to, value) matches Ok(s) ==> keeps_actors(st, s) && ids_unique(s),
{
    if let Ok(s) = transfer_spec(st, from, to, value) {
        if from == to {
            assert(keeps_actors(st, s));
        } else {
            let f = lookup(st, from).unwrap();
            let a = ActorState { balance: (f.balance - value) as u64, ..f };
            lemma_put_existing(st, a);
            let st1 = put_actor(st, a);
            lemma_frame_keeps(st, st1, to);
            let t = lookup(st1, to).unwrap();
            let b = ActorState { balance: (t.balance + value) as u64, ..t };
            lemma_put_existing(st1, b);
            lemma_frame_trans(st, st1, s);
        }
    }
}

/// A call keeps every actor's place, code and sequence number, never lowers the
/// gas used, and never passes the gas limit.
pub proof fn lemma_send_frame(
    eng: Engine,
    lim: CallLimits,
    st: Seq<ActorState>,
    used: u64,
    from: u64,
    to: u64,
    method: u64,
    value: u64,
    depth: u64,
)
    requires
        ids_unique(st),
        used <= lim.gas_limit,
    ensures
        keeps_actors(st, send_spec(eng, lim, st, used, from, to, method, value, depth).0),
        used <= send_spec(eng, lim, st, used, from, to, method, value, depth).1 <= lim.gas_limit,
    decreases lim.max_depth - depth + 1, 0int,
{
    if depth < lim.max_depth {
        lemma_transfer_frame(st, from, to, value);
        if let Ok(st1) = transfer_spec(st, from, to, value) {
            if method != 0 {
                lemma_frame_keeps(st, st1, to);
                if let Some(ops) = find_program(eng.programs@, lookup(st1, to).unwrap().code, method) {
                    lemma_run_frame(eng, lim, st1, used, to, ops, 0, (depth + 1) as u64);
                    lemma_frame_trans(st, st1, run_spec(eng, lim, st1, used, to, ops, 0, (depth + 1) as u64).0);
                }
            }
        }
    }
}

/// Running ops keeps every actor's place, code and sequence number, never
/// lowers the gas used, and never passes the gas limit.
pub proof fn lemma_run_frame(
    eng: Engine,
    lim: CallLimits,
    st: Seq<ActorState>,
    used: u64,
    me: u64,
    ops: Seq<GuestOp>,
    i: nat,
    depth: u64,
)
    requires
        ids_unique(st),
        has_actor(st, me),
        used <= lim.gas_limit,
    ensures
        keeps_actors(st, run_spec(eng, lim, st, used, me, ops, i, depth).0),
        used <= run_spec(eng, lim, st, used, me, ops, i, depth).1 <= lim.gas_limit,
    decreases lim.max_depth - depth + 1, ops.len() - i + 1,
{
    if depth <= lim.max_depth && i < ops.len() {
        match ops[i as int] {
            GuestOp::Charge(n) => {
                lemma_charge_monotone(lim.gas_limit, used, n);
                let c = charge_spec(lim.gas_limit, used, n);
                if c.1 {
                    lemma_run_frame(eng, lim, st, c.0, me, ops, i + 1, depth);
                }
            },
            GuestOp::SetHead(h) => {
                lemma_charge_monotone(lim.gas_limit, used, lim.prices.set_head);
                let c = charge_spec(lim.gas_limit, used, lim.prices.set_head);
                if c.1 {
                    let a = lookup(st, me).unwrap();
                    let st1 = put_actor(st, ActorState { head: h, ..a });
                    lemma_put_existing(st, ActorState { head: h, ..a });
                    lemma_frame_keeps(st, st1, me);
                    lemma_run_frame(eng, lim, st1, c.0, me, ops, i + 1, depth);
                    lemma_frame_trans(st, st1, run_spec(eng, lim, st1, c.0, me, ops, i + 1, depth).0);
                }
            },
            GuestOp::Send { to, method, value } => {
                lemma_charge_monotone(lim.gas_limit, used, lim.prices.send_base);
                let c = charge_spec(lim.gas_limit, used, lim.prices.send_base);
                if c.1 {
                    lemma_send_frame(eng, lim, st, c.0, me, to, method, value, depth);
                    let r = send_spec(eng, lim, st, c.0, me, to, method, value, depth);
                    lemma_frame_keeps(st, r.0, me);
                    lemma_run_frame(eng, lim, r.0, r.1, me, ops, i + 1, depth);
                    lemma_frame_trans(st, r.0, run_spec(eng, lim, r.0, r.1, me, ops, i + 1, depth).0);
                }
            },
            GuestOp::CreateActor { id, code } => {
                lemma_create_actor_frame(lim, st, used, id, code);
                let k = create_actor_spec(lim, st, used, id, code);
                if k.2 != Err::<(), SyscallError>(SyscallError::OutOfGas) {
                    lemma_frame_keeps(st, k.0, me);
                    lemma_run_frame(eng, lim, k.0, k.1, me, ops, i + 1, depth);
                    lemma_frame_trans(st, k.0, run_spec(eng, lim, k.0, k.1, me, ops, i + 1, depth).0);
                }
            },
            GuestOp::Exit(_) => {},
        }
    }
}

pub proof fn lemma_put_other(s: Seq<ActorState>, a: ActorState, id: u64)
    requires
        ids_unique(s),
        has_actor(s, a.id),
        id != a.id,
    ensures
        lookup(put_actor(s, a), id) == lookup(s, id),
{
    let s2 = put_actor(s, a);
    let k = actor_index(s, a.id);
    assert(s[k].id == a.id);
    assert forall|p: int, q: int|
        0 <= p < s2.len() && 0 <= q < s2.len() && #[trigger] s2[p].id == #[trigger] s2[q].id implies p == q by {
        assert(s2[p].id == s[p].id);
        assert(s2[q].id == s[q].id);
    }
    if has_actor(s, id) {
        let j = actor_index(s, id);
        assert(s[j].id == id);
        assert(s2[j] == s[j]);
        lemma_lookup_index(s, j);
        lemma_lookup_index(s2, j);
    }
    if has_actor(s2, id) {
        let j = actor_index(s2, id);
        assert(s2[j].id == id);
        assert(s[j].id == id);
    }
}

/// Whether actors running `code` may send messages.
pub fn is_account_code(eng: &Engine, code: u64) -> (r: bool)
    ensures
        r == eng.account_codes@.contains(code),
{
    let mut i: usize = 0;
    while i < eng.account_codes.len()
        invariant
            i <= eng.account_codes@.len(),
            forall|k: int| 0 <= k < i ==> eng.account_codes@[k] != code,
        decreases eng.account_codes@.len() - i,
    {
        if eng.account_codes[i] == code {
            assert(eng.account_codes@[i as int] == code);
            return true;
        }
        i += 1;
    }
    false
}

/// The position of the program for `code` and `method`.
pub fn find_program_index(eng: &Engine, code: u64, method: u64) -> (r: Option<usize>)
    ensures
        match r {
            Some(k) => k < eng.programs@.len() && find_program(eng.programs@, code, method) == Some(
                eng.programs@[k as int].ops@,
            ),
            None => find_program(eng.programs@, code, method).is_none(),
        },
{
    let n = eng.programs.len();
    let mut i: usize = 0;
    assert(eng.programs@.subrange(0, n as int) =~= eng.programs@);
    while i < n
        invariant
            n == eng.programs@.len(),
            i <= n,
            find_program(eng.programs@, code, method) == find_program(
                eng.programs@.subrange(i as int, n as int),
                code,
                method,
            ),
        decreases n - i,
    {
        let ghost rest = eng.programs@.subrange(i as int, n as int);
        assert(rest[0] == eng.programs@[i as int]);
        if eng.programs[i].code == code && eng.programs[i].method == method {
            return Some(i);
        }
        assert(rest.drop_first() =~= eng.programs@.subrange(i + 1, n as int));
        i += 1;
    }
    None
}

/// The call-stack state of one message: the state tree it works on, its gas
/// counter, its limits and the account that sent the message.
pub struct CallManager {
    pub tree: StateTree,
    pub gas: GasTracker,
    pub limits: CallLimits,
    pub origin: u64,
}

impl CallManager {
    pub open spec fn wf(&self) -> bool {
        &&& self.tree.wf()
        &&& self.gas.wf()
        &&& self.gas.limit == self.limits.gas_limit
    }

    /// The mutations recorded after `mark` of `before` are all there is
    /// between the two trees up to that mark.
    pub open spec fn keeps_marks(before: StateTree, after: StateTree) -> bool {
        &&& after.mark() >= before.mark()
        &&& forall|i: nat| i <= before.mark() ==> #[trigger] after.state_at(i) == before.state_at(i)
    }

    pub fn new(tree: StateTree, limits: CallLimits, used: u64, origin: u64) -> (r: CallManager)
        requires
            tree.wf(),
            used <= limits.gas_limit,
        ensures
            r.wf(),
            r.tree == tree,
            r.gas.used == used,
            r.limits == limits,
            r.origin == origin,
    {
        CallManager { tree, gas: GasTracker::new(limits.gas_limit, used), limits, origin }
    }

    fn transfer(&mut self, from: u64, to: u64, value: u64) -> (r: Result<(), u32>)
        requires
            old(self).wf(),
        ensures
            final(self).wf(),
            final(self).gas == old(self).gas,
            final(self).limits == old(self).limits,
            final(self).origin == old(self).origin,
            Self::keeps_marks(old(self).tree, final(self).tree),
            match transfer_spec(old(self).tree@, from, to, value) {
                Ok(s) => r.is_ok() && final(self).tree@ == s,
                Err(e) => r == Err::<(), u32>(e) && final(self).tree@ == old(self).tree@,
            },
    {
        proof {
            self.tree.lemma_current();
        }
        let f = match self.tree.get(from) {
            None => return Err(EXIT_SENDER_INVALID),
            Some(a) => a,
        };
        let t = match self.tree.get(to) {
            None => return Err(EXIT_INVALID_RECEIVER),
            Some(a) => a,
        };
        if f.balance < value {
            return Err(EXIT_INSUFFICIENT_FUNDS);
        }
        if from == to {
            return Ok(());
        }
        if t.balance > u64::MAX - value {
            return Err(EXIT_ILLEGAL_STATE);
        }
        let ghost st = self.tree@;
        let debited = ActorState { balance: f.balance - value, ..f };
        proof {
            lemma_put_other(st, debited, to);
        }
        self.tree.set(debited);
        let t1 = self.tree.get(to).unwrap();
        self.tree.set(ActorState { balance: t1.balance + value, ..t1 });
        Ok(())
    }

    /// Calls `method` of `to` from `from` with `value`, at call depth `depth`.
    /// Returns the exit code; an aborted call leaves the tree as it was and
    /// keeps the gas it used.
    pub fn send(&mut self, eng: &Engine, from: u64, to: u64, method: u64, value: u64, depth: u64) -> (r: u32)
        requires
            old(self).wf(),
        ensures
            final(self).wf(),
            final(self).limits == old(self).limits,
            final(self).origin == old(self).origin,
            Self::keeps_marks(old(self).tree, final(self).tree),
            (final(self).tree@, final(self).gas.used, r) == send_spec(
                *eng,
                old(self).limits,
                old(self).tree@,
                old(self).gas.used,
                from,
                to,
                method,
                value,
                depth,
            ),
        decreases self.limits.max_depth - depth + 1, 0int,
    {
        if depth >= self.limits.max_depth {
            return EXIT_CALL_DEPTH_EXCEEDED;
        }
        let ghost st = self.tree@;
        let mark = self.tree.snapshot();
        proof {
            self.tree.lemma_current();
            lemma_transfer_frame(st, from, to, value);
        }
        match self.transfer(from, to, value) {
            Err(e) => {
                return e;
            },
            Ok(()) => {},
        }
        if method == 0 {
            return EXIT_OK;
        }
        proof {
            lemma_frame_keeps(st, self.tree@, to);
        }
        let code = self.tree.get(to).unwrap().code;
        match find_program_index(eng, code, method) {
            None => {
                self.tree.revert_to(mark);
                EXIT_UNHANDLED_MESSAGE
            },
            Some(k) => {
                let exit = self.run_frame(eng, to, &eng.programs[k].ops, depth + 1);
                if exit != EXIT_OK {
                    self.tree.revert_to(mark);
                }
                exit
            },
        }
    }

    fn run_frame(&mut self, eng: &Engine, me: u64, ops: &Vec<GuestOp>, depth: u64) -> (r: u32)
        requires
            old(self).wf(),
            has_actor(old(self).tree@, me),
            depth <= old(self).limits.max_depth,
        ensures
            final(self).wf(),
            final(self).limits == old(self).limits,
            final(self).origin == old(self).origin,
            Self::keeps_marks(old(self).tree, final(self).tree),
            (final(self).tree@, final(self).gas.used, r) == run_spec(
                *eng,
                old(self).limits,
                old(self).tree@,
                old(self).gas.used,
                me,
                ops@,
                0,
                depth,
            ),
        decreases self.limits.max_depth - depth + 1, 1int,
    {
        let ghost t0 = self.tree;
        let ghost u0 = self.gas.used;
        let ghost lim = self.limits;
        let ghost origin = self.origin;
        let mut i: usize = 0;
        while i < ops.len()
            invariant
                self.wf(),
                lim == old(self).limits,
                origin == old(self).origin,
                t0 == old(self).tree,
                u0 == old(self).gas.used,
                self.limits == lim,
                self.origin == origin,
                has_actor(self.tree@, me),
                depth <= lim.max_depth,
                i <= ops@.len(),
                Self::keeps_marks(t0, self.tree),
                run_spec(*eng, lim, t0@, u0, me, ops@, 0, depth) == run_spec(
                    *eng,
                    lim,
                    self.tree@,
                    self.gas.used,
                    me,
                    ops@,
                    i as nat,
                    depth,
                ),
            decreases ops@.len() - i,
        {
            match ops[i] {
                GuestOp::Charge(n) => {
                    if !self.gas.charge(n) {
                        return EXIT_OUT_OF_GAS;
                    }
                },
                GuestOp::SetHead(h) => {
                    let price = self.limits.prices.set_head;
                    if !self.gas.charge(price) {
                        return EXIT_OUT_OF_GAS;
                    }
                    let a = self.tree.get(me).unwrap();
                    let updated = ActorState { head: h, ..a };
                    proof {
                        self.tree.lemma_current();
                        lemma_put_existing(self.tree@, updated);
                        lemma_frame_keeps(self.tree@, put_actor(self.tree@, updated), me);
                    }
                    self.tree.set(updated);
                },
                GuestOp::Send { to, method, value } => {
                    let price = self.limits.prices.send_base;
                    if !self.gas.charge(price) {
                        return EXIT_OUT_OF_GAS;
                    }
                    let ghost before = self.tree@;
                    proof {
                        self.tree.lemma_current();
                        lemma_send_frame(*eng, lim, before, self.gas.used, me, to, method, value, depth);
                    }
                    let _ = self.send(eng, me, to, method, value, depth);
                    proof {
                        lemma_frame_keeps(before, self.tree@, me);
                    }
                },
                GuestOp::CreateActor { id, code } => {
                    let ghost before = self.tree@;
                    proof {
                        self.tree.lemma_current();
                        lemma_create_actor_frame(lim, before, self.gas.used, id, code);
                    }
                    if let Err(SyscallError::OutOfGas) = self.create_actor(id, code) {
                        return EXIT_OUT_OF_GAS;
                    }
                    proof {
                        lemma_frame_keeps(before, self.tree@, me);
                    }
                },
                GuestOp::Exit(code) => {
                    return code;
                },
            }
            i += 1;
        }
        EXIT_OK
    }
}

} // verus!
