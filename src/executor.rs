use vstd::prelude::*;
use crate::call_manager::{
    is_account_code, lemma_frame_keeps, lemma_send_frame, send_spec, CallLimits, CallManager, Engine,
    EXIT_INSUFFICIENT_FUNDS, EXIT_OUT_OF_GAS, EXIT_SENDER_INVALID, EXIT_SENDER_STATE_INVALID,
};
use crate::gas::{inclusion_gas, on_chain_message_gas, PriceList};
use crate::machine::Machine;
use crate::state_tree::{
    actor_index, has_actor, lemma_lookup_index, lookup, put_actor, ActorState, StateTree,
};

verus! {

/// The account that receives the premium share of gas fees.
pub const REWARD_ACTOR_ID: u64 = 2;

/// The account that holds the burnt base-fee share of gas fees.
pub const BURNT_FUNDS_ACTOR_ID: u64 = 99;

/// A message as it travels on chain.
#[derive(Clone, Debug)]
pub struct Message {
    pub from: u64,
    pub to: u64,
    pub sequence: u64,
    pub value: u64,
    pub method: u64,
    pub params: Vec<u8>,
    pub gas_limit: u64,
    pub gas_fee_cap: u64,
    pub gas_premium: u64,
}

/// Whether a message was signed and sent by an account, or made by the system.
#[derive(Clone, Copy, Debug, PartialEq, Eq, Structural)]
pub enum ApplyKind {
    Explicit,
    Implicit,
}

/// The receipt of one message.
#[derive(Clone, Debug)]
pub struct ApplyReturn {
    pub exit_code: u32,
    pub return_data: Vec<u8>,
    pub gas_used: u64,
}

/// A failure that stops the whole batch.
#[derive(Clone, Copy, Debug, PartialEq, Eq, Structural)]
pub enum ExecutionError {
    /// The executor's machine was already handed back.
    Poisoned,
    /// A fee or refund could not be paid: its recipient is missing, or a
    /// balance would pass the largest representable amount.
    FeeTransferFailed,
}

/// The limits under which `msg` runs on a machine with these settings.
pub open spec fn limits_for(max_depth: u64, prices: PriceList, msg: Message) -> CallLimits {
    CallLimits { max_depth, gas_limit: msg.gas_limit, prices }
}

/// Whether an explicit message passes every check made before it runs.
pub open spec fn accepted(eng: Engine, prices: PriceList, st: Seq<ActorState>, msg: Message, size: u64, detached: bool) -> bool {
    &&& inclusion_gas(prices, size, detached) <= msg.gas_limit
    &&& has_actor(st, msg.from)
    &&& eng.account_codes@.contains(lookup(st, msg.from).unwrap().code)
    &&& lookup(st, msg.from).unwrap().sequence == msg.sequence
    &&& msg.sequence < u64::MAX
    &&& lookup(st, msg.from).unwrap().balance >= msg.value + msg.gas_limit * msg.gas_fee_cap
}

/// The exit code of a message turned back before it runs.
pub open spec fn rejection_code(eng: Engine, prices: PriceList, st: Seq<ActorState>, msg: Message, size: u64, detached: bool) -> u32 {
    if inclusion_gas(prices, size, detached) > msg.gas_limit {
        EXIT_OUT_OF_GAS
    } else if !has_actor(st, msg.from) || !eng.account_codes@.contains(lookup(st, msg.from).unwrap().code) {
        EXIT_SENDER_INVALID
    } else if lookup(st, msg.from).unwrap().sequence != msg.sequence || msg.sequence == u64::MAX {
        EXIT_SENDER_STATE_INVALID
    } else {
        EXIT_INSUFFICIENT_FUNDS
    }
}

/// The state after the sender is charged the whole gas limit up front and its
/// sequence number advances.
pub open spec fn prepay_spec(st: Seq<ActorState>, msg: Message) -> Seq<ActorState> {
    let s = lookup(st, msg.from).unwrap();
    put_actor(
        st,
        ActorState {
            balance: (s.balance - msg.gas_limit * msg.gas_fee_cap) as u64,
            sequence: (s.sequence + 1) as u64,
            ..s
        },
    )
}

/// `st` with `amount` added to the balance of `id`; `None` when there is no
/// such actor or the balance would overflow.
pub open spec fn credit_spec(st: Seq<ActorState>, id: u64, amount: int) -> Option<Seq<ActorState>> {
    if !has_actor(st, id) {
        None
    } else {
        let a = lookup(st, id).unwrap();
        if a.balance + amount > u64::MAX {
            None
        } else {
            Some(put_actor(st, ActorState { balance: (a.balance + amount) as u64, ..a }))
        }
    }
}

/// The gas price that is burnt, and the gas price paid to the reward actor:
/// the base fee and then the premium, each as far as the fee cap allows.
pub open spec fn fee_rates(base_fee: u64, msg: Message) -> (int, int) {
    let burn = if base_fee <= msg.gas_fee_cap {
        base_fee as int
    } else {
        msg.gas_fee_cap as int
    };
    let room = msg.gas_fee_cap - burn;
    let tip = if msg.gas_premium <= room {
        msg.gas_premium as int
    } else {
        room
    };
    (burn, tip)
}

/// Refunds to the sender what it prepaid beyond the fees of the gas used,
/// burns the base-fee share and pays the premium share to the reward actor;
/// `false` when one of these payments fails.
pub open spec fn settle_spec(st: Seq<ActorState>, msg: Message, used: u64, base_fee: u64) -> (Seq<ActorState>, bool) {
    let rates = fee_rates(base_fee, msg);
    let refund = msg.gas_limit * msg.gas_fee_cap - used * (rates.0 + rates.1);
    match credit_spec(st, msg.from, refund) {
        None => (st, false),
        Some(s1) => match credit_spec(s1, BURNT_FUNDS_ACTOR_ID, used * rates.0) {
            None => (s1, false),
            Some(s2) => match credit_spec(s2, REWARD_ACTOR_ID, used * rates.1) {
                None => (s2, false),
                Some(s3) => (s3, true),
            },
        },
    }
}

/// Applying one message: the state after it, and its exit code and gas used,
/// or `None` when it failed fatally.
pub open spec fn apply_spec(
    eng: Engine,
    max_depth: u64,
    prices: PriceList,
    base_fee: u64,
    st: Seq<ActorState>,
    msg: Message,
    kind: ApplyKind,
    size: u64,
    detached: bool,
) -> (Seq<ActorState>, Option<(u32, u64)>) {
    let lim = limits_for(max_depth, prices, msg);
    match kind {
        ApplyKind::Implicit => {
            let r = send_spec(eng, lim, st, 0, msg.from, msg.to, msg.method, msg.value, 0);
            (r.0, Some((r.2, r.1)))
        },
        ApplyKind::Explicit => {
            if !accepted(eng, prices, st, msg, size, detached) {
                (st, Some((rejection_code(eng, prices, st, msg, size, detached), 0)))
            } else {
                let r = send_spec(
                    eng,
                    lim,
                    prepay_spec(st, msg),
                    inclusion_gas(prices, size, detached) as u64,
                    msg.from,
                    msg.to,
                    msg.method,
                    msg.value,
                    0,
                );
                let s = settle_spec(r.0, msg, r.1, base_fee);
                if s.1 {
                    (s.0, Some((r.2, r.1)))
                } else {
                    (s.0, None)
                }
            }
        },
    }
}

/// Everything of a machine but its actor states is as before.
pub open spec fn same_context(a: Machine, b: Machine) -> bool {
    &&& a.config == b.config
    &&& a.engine == b.engine
    &&& a.epoch == b.epoch
    &&& a.base_fee == b.base_fee
    &&& a.circ_supply == b.circ_supply
    &&& a.network_version == b.network_version
    &&& a.prices == b.prices
    &&& a.store == b.store
}

fn run_call(m: &mut Machine, lim: CallLimits, used: u64, msg: &Message) -> (r: (u32, u64))
    requires
        old(m).wf(),
        used <= lim.gas_limit,
    ensures
        final(m).wf(),
        final(m).tree.mark() == 0,
        same_context(*old(m), *final(m)),
        ({
            let s = send_spec(old(m).engine, lim, old(m).state(), used, msg.from, msg.to, msg.method, msg.value, 0);
            final(m).state() == s.0 && r == (s.2, s.1)
        }),
{
    let mut tree = StateTree::new();
    core::mem::swap(&mut tree, &mut m.tree);
    let mut cm = CallManager::new(tree, lim, used, msg.from);
    let exit = cm.send(&m.engine, msg.from, msg.to, msg.method, msg.value, 0);
    let gas_used = cm.gas.used;
    let mut t = cm.tree;
    t.discard_journal();
    m.tree = t;
    (exit, gas_used)
}

fn credit(m: &mut Machine, id: u64, amount: u128) -> (r: bool)
    requires
        old(m).wf(),
    ensures
        final(m).wf(),
        same_context(*old(m), *final(m)),
        match credit_spec(old(m).state(), id, amount as int) {
            None => !r && final(m).state() == old(m).state(),
            Some(s) => r && final(m).state() == s,
        },
{
    let a = match m.tree.get(id) {
        None => return false,
        Some(a) => a,
    };
    if amount > (u64::MAX - a.balance) as u128 {
        return false;
    }
    m.tree.set(ActorState { balance: a.balance + amount as u64, ..a });
    true
}

fn settle(m: &mut Machine, msg: &Message, used: u64, base_fee: u64) -> (r: bool)
    requires
        old(m).wf(),
        used <= msg.gas_limit,
    ensures
        final(m).wf(),
        same_context(*old(m), *final(m)),
        (final(m).state(), r) == settle_spec(old(m).state(), *msg, used, base_fee),
{
    let cap = msg.gas_fee_cap;
    let burn: u64 = if base_fee <= cap {
        base_fee
    } else {
        cap
    };
    let room = cap - burn;
    let tip: u64 = if msg.gas_premium <= room {
        msg.gas_premium
    } else {
        room
    };
    let used_w: u128 = used as u128;
    let limit_w: u128 = msg.gas_limit as u128;
    let cap_w: u128 = cap as u128;
    let rate_w: u128 = burn as u128 + tip as u128;
    assert(used_w * rate_w <= limit_w * cap_w && limit_w * cap_w <= 0xffff_ffff_ffff_ffffu128
        * 0xffff_ffff_ffff_ffffu128 && used_w * (burn as u128) <= limit_w * cap_w && used_w * (
    tip as u128) <= limit_w * cap_w) by (nonlinear_arith)
        requires
            used_w <= limit_w,
            limit_w <= 0xffff_ffff_ffff_ffffu128,
            cap_w <= 0xffff_ffff_ffff_ffffu128,
            rate_w <= cap_w,
            burn as u128 <= rate_w,
            tip as u128 <= rate_w,
    ;
    let refund: u128 = limit_w * cap_w - used_w * rate_w;
    if !credit(m, msg.from, refund) {
        return false;
    }
    if !credit(m, BURNT_FUNDS_ACTOR_ID, used_w * burn as u128) {
        return false;
    }
    credit(m, REWARD_ACTOR_ID, used_w * tip as u128)
}

/// Applies one message to the machine's state.
pub fn apply_message(m: &mut Machine, msg: &Message, kind: ApplyKind, size: u64, detached: bool) -> (r:
    Result<ApplyReturn, ExecutionError>)
    requires
        old(m).wf(),
    ensures
        final(m).wf(),
        same_context(*old(m), *final(m)),
        ({
            let out = apply_spec(
                old(m).engine,
                old(m).config.max_call_depth as u64,
                old(m).prices,
                old(m).base_fee,
                old(m).state(),
                *msg,
                kind,
                size,
                detached,
            );
            &&& final(m).state() == out.0
            &&& match out.1 {
                Some(o) => r matches Ok(ret) && ret.exit_code == o.0 && ret.gas_used == o.1
                    && ret.return_data@.len() == 0,
                None => r.is_err() && r != Err::<ApplyReturn, ExecutionError>(
                    ExecutionError::Poisoned,
                ),
            }
        }),
{
    let lim = CallLimits {
        max_depth: m.config.max_call_depth as u64,
        gas_limit: msg.gas_limit,
        prices: m.prices,
    };
    match kind {
        ApplyKind::Implicit => {
            let (exit, used) = run_call(m, lim, 0, msg);
            Ok(ApplyReturn { exit_code: exit, return_data: Vec::new(), gas_used: used })
        },
        ApplyKind::Explicit => {
            let ghost st = m.state();
            let incl = match on_chain_message_gas(&m.prices, size, detached, msg.gas_limit) {
                None => {
                    return Ok(ApplyReturn { exit_code: EXIT_OUT_OF_GAS, return_data: Vec::new(), gas_used: 0 });
                },
                Some(g) => g,
            };
            let s = match m.tree.get(msg.from) {
                None => {
                    return Ok(
                        ApplyReturn { exit_code: EXIT_SENDER_INVALID, return_data: Vec::new(), gas_used: 0 },
                    );
                },
                Some(a) => a,
            };
            if !is_account_code(&m.engine, s.code) {
                return Ok(
                    ApplyReturn { exit_code: EXIT_SENDER_INVALID, return_data: Vec::new(), gas_used: 0 },
                );
            }
            if s.sequence != msg.sequence || s.sequence == u64::MAX {
                return Ok(
                    ApplyReturn { exit_code: EXIT_SENDER_STATE_INVALID, return_data: Vec::new(), gas_used: 0 },
                );
            }
            let limit_wide: u128 = msg.gas_limit as u128;
            let cap: u128 = msg.gas_fee_cap as u128;
            assert(limit_wide * cap <= 0xffff_ffff_ffff_ffffu128 * 0xffff_ffff_ffff_ffffu128) by (nonlinear_arith)
                requires
                    limit_wide <= 0xffff_ffff_ffff_ffffu128,
                    cap <= 0xffff_ffff_ffff_ffffu128,
            ;
            let prepaid: u128 = limit_wide * cap;
            if (s.balance as u128) < msg.value as u128 + prepaid {
                return Ok(
                    ApplyReturn { exit_code: EXIT_INSUFFICIENT_FUNDS, return_data: Vec::new(), gas_used: 0 },
                );
            }
            let charged = ActorState {
                balance: s.balance - prepaid as u64,
                sequence: s.sequence + 1,
                ..s
            };
            proof {
                m.tree.lemma_current();
                let k = actor_index(st, msg.from);
                lemma_lookup_index(st, k);
                assert(put_actor(st, charged) == st.update(k, charged));
                let st1 = st.update(k, charged);
                assert forall|p: int, q: int|
                    0 <= p < st1.len() && 0 <= q < st1.len() && #[trigger] st1[p].id == #[trigger] st1[q].id implies p == q by {
                    assert(st1[p].id == st[p].id);
                    assert(st1[q].id == st[q].id);
                }
                lemma_lookup_index(st1, k);
            }
            m.tree.set(charged);
            let ghost st1 = m.state();
            proof {
                lemma_send_frame(m.engine, lim, st1, incl, msg.from, msg.to, msg.method, msg.value, 0);
            }
            let (exit, used) = run_call(m, lim, incl, msg);
            proof {
                lemma_frame_keeps(st1, m.state(), msg.from);
            }
            let base_fee = m.base_fee;
            if settle(m, msg, used, base_fee) {
                Ok(ApplyReturn { exit_code: exit, return_data: Vec::new(), gas_used: used })
            } else {
                Err(ExecutionError::FeeTransferFailed)
            }
        },
    }
}

/// Applies messages to a machine, one at a time, until it is handed back.
pub struct Executor {
    pub machine: Option<Machine>,
}

impl Executor {
    pub open spec fn wf(&self) -> bool {
        self.machine matches Some(m) ==> m.wf()
    }

    pub fn new(machine: Machine) -> (r: Executor)
        ensures
            r.machine == Some(machine),
    {
        Executor { machine: Some(machine) }
    }

    /// Applies `msg`, whose on-chain encoding is `size` bytes long; a
    /// `detached` signature adds its own bytes to that size.
    pub fn execute_message(&mut self, msg: &Message, kind: ApplyKind, size: u64, detached: bool) -> (r:
        Result<ApplyReturn, ExecutionError>)
        requires
            old(self).wf(),
        ensures
            final(self).wf(),
            match old(self).machine {
                None => final(self).machine.is_none() && r == Err::<ApplyReturn, ExecutionError>(
                    ExecutionError::Poisoned,
                ),
                Some(m) => {
                    let out = apply_spec(
                        m.engine,
                        m.config.max_call_depth as u64,
                        m.prices,
                        m.base_fee,
                        m.state(),
                        *msg,
                        kind,
                        size,
                        detached,
                    );
                    &&& final(self).machine matches Some(m2) && same_context(m, m2) && m2.state()
                        == out.0
                    &&& match out.1 {
                        Some(o) => r matches Ok(ret) && ret.exit_code == o.0 && ret.gas_used == o.1
                            && ret.return_data@.len() == 0,
                        None => r.is_err() && r != Err::<ApplyReturn, ExecutionError>(
                            ExecutionError::Poisoned,
                        ),
                    }
                },
            },
    {
        let mut slot: Option<Machine> = None;
        core::mem::swap(&mut slot, &mut self.machine);
        match slot {
            None => Err(ExecutionError::Poisoned),
            Some(mut m) => {
                let r = apply_message(&mut m, msg, kind, size, detached);
                self.machine = Some(m);
                r
            },
        }
    }

    /// Stores the current state and returns its root, or `None` once the
    /// machine was handed back.
    pub fn flush(&mut self) -> (r: Option<Vec<u8>>)
        requires
            old(self).wf(),
        ensures
            final(self).wf(),
            match old(self).machine {
                None => r.is_none() && final(self).machine.is_none(),
                Some(m) => (r matches Some(root) && root@ == crate::content_id::state_root_of(
                    m.state(),
                )) && (final(self).machine matches Some(m2) && m2.state() == m.state()
                    && m2.store.blocks().drop_last() == m.store.blocks()
                    && m2.store.blocks().len() == m.store.blocks().len() + 1
                    && m2.store.blocks().last().key@ == r.unwrap()@
                    && m2.store.blocks().last().actors@ == m.state() && m2.config == m.config
                    && m2.engine == m.engine && m2.epoch == m.epoch && m2.base_fee == m.base_fee
                    && m2.circ_supply == m.circ_supply && m2.network_version
                    == m.network_version && m2.prices == m.prices),
            },
    {
        let mut slot: Option<Machine> = None;
        core::mem::swap(&mut slot, &mut self.machine);
        match slot {
            None => None,
            Some(mut m) => {
                let root = m.flush();
                self.machine = Some(m);
                Some(root)
            },
        }
    }

    /// Hands the machine back; `None` if that was done before.
    pub fn consume(&mut self) -> (r: Option<Machine>)
        ensures
            r == old(self).machine,
            final(self).machine.is_none(),
    {
        let mut slot: Option<Machine> = None;
        core::mem::swap(&mut slot, &mut self.machine);
        slot
    }
}

} // verus!
