use vstd::prelude::*;
use crate::blockstore::{load_spec, Block};
use crate::call_manager::{
    charge_fits, find_program, keeps_actors, lemma_frame_keeps, lemma_put_existing, lemma_send_frame, run_spec,
    send_spec, transfer_spec, CallLimits, Engine, GuestOp, EXIT_CALL_DEPTH_EXCEEDED, EXIT_OK,
    EXIT_OUT_OF_GAS,
};
use crate::content_id::state_root_of;
use crate::executor::{
    accepted, apply_spec, credit_spec, fee_rates, limits_for, prepay_spec, ApplyKind, Message,
    BURNT_FUNDS_ACTOR_ID, REWARD_ACTOR_ID,
};
use crate::gas::{charge_spec, inclusion_gas, PriceList};
use crate::state_tree::{
    actor_index, has_actor, ids_unique, lemma_lookup_index, lookup, put_actor, ActorState,
};

verus! {

/// One message of a batch, with how it is applied and its on-chain size.
pub struct BatchItem {
    pub msg: Message,
    pub kind: ApplyKind,
    pub size: u64,
    pub detached: bool,
}

/// The state after applying `batch` in order, and the outcome of each message.
pub open spec fn apply_batch(
    eng: Engine,
    max_depth: u64,
    prices: PriceList,
    base_fee: u64,
    st: Seq<ActorState>,
    batch: Seq<BatchItem>,
) -> (Seq<ActorState>, Seq<Option<(u32, u64)>>)
    decreases batch.len(),
{
    if batch.len() == 0 {
        (st, Seq::empty())
    } else {
        let prev = apply_batch(eng, max_depth, prices, base_fee, st, batch.drop_last());
        let it = batch.last();
        let r = apply_spec(eng, max_depth, prices, base_fee, prev.0, it.msg, it.kind, it.size, it.detached);
        (r.0, prev.1.push(r.1))
    }
}

/// Two runs of one batch from equal settings and equal states give equal
/// receipts and equal state roots.
pub proof fn lemma_batch_deterministic(
    eng1: Engine,
    eng2: Engine,
    max_depth: u64,
    prices: PriceList,
    base_fee: u64,
    st1: Seq<ActorState>,
    st2: Seq<ActorState>,
    batch: Seq<BatchItem>,
)
    requires
        eng1 == eng2,
        st1 == st2,
    ensures
        apply_batch(eng1, max_depth, prices, base_fee, st1, batch) == apply_batch(eng2, max_depth, prices, base_fee, st2, batch),
        state_root_of(apply_batch(eng1, max_depth, prices, base_fee, st1, batch).0) == state_root_of(
            apply_batch(eng2, max_depth, prices, base_fee, st2, batch).0,
        ),
{
}

/// The gas used by a message never passes its gas limit.
pub proof fn lemma_gas_within_limit(
    eng: Engine,
    max_depth: u64,
    prices: PriceList,
    base_fee: u64,
    st: Seq<ActorState>,
    msg: Message,
    kind: ApplyKind,
    size: u64,
    detached: bool,
)
    requires
        ids_unique(st),
    ensures
        apply_spec(eng, max_depth, prices, base_fee, st, msg, kind, size, detached).1 matches Some(o) ==> o.1
            <= msg.gas_limit,
{
    let lim = limits_for(max_depth, prices, msg);
    match kind {
        ApplyKind::Implicit => {
            lemma_send_frame(eng, lim, st, 0, msg.from, msg.to, msg.method, msg.value, 0);
        },
        ApplyKind::Explicit => {
            if accepted(eng, prices, st, msg, size, detached) {
                lemma_prepay(st, msg);
                lemma_send_frame(
                    eng,
                    lim,
                    prepay_spec(st, msg),
                    inclusion_gas(prices, size, detached) as u64,
                    msg.from,
                    msg.to,
                    msg.method,
                    msg.value,
                    0,
                );
            }
        },
    }
}

/// Gas used only grows as a call runs, and stays within the limit.
pub proof fn lemma_gas_monotone(
    eng: Engine,
    lim: CallLimits,
    st: Seq<ActorState>,
    used: u64,
    from: u64,
    to: u64,
    method: u64,
    value: u64,
    depth: u64,
)
    requires
        ids_unique(st),
        used <= lim.gas_limit,
    ensures
        used <= send_spec(eng, lim, st, used, from, to, method, value, depth).1 <= lim.gas_limit,
{
    lemma_send_frame(eng, lim, st, used, from, to, method, value, depth);
}

/// A call that aborts leaves the actor states exactly as it found them; only
/// the gas it used stays spent.
pub proof fn lemma_revert_atomic(
    eng: Engine,
    lim: CallLimits,
    st: Seq<ActorState>,
    used: u64,
    from: u64,
    to: u64,
    method: u64,
    value: u64,
    depth: u64,
)
    ensures
        send_spec(eng, lim, st, used, from, to, method, value, depth).2 != EXIT_OK ==> send_spec(
            eng,
            lim,
            st,
            used,
            from,
            to,
            method,
            value,
            depth,
        ).0 == st,
{
}

/// A call entered at or beyond the depth limit aborts with the depth error,
/// changing nothing.
pub proof fn lemma_depth_exceeded(
    eng: Engine,
    lim: CallLimits,
    st: Seq<ActorState>,
    used: u64,
    from: u64,
    to: u64,
    method: u64,
    value: u64,
    depth: u64,
)
    requires
        depth >= lim.max_depth,
    ensures
        send_spec(eng, lim, st, used, from, to, method, value, depth) == (
            st,
            used,
            EXIT_CALL_DEPTH_EXCEEDED,
        ),
{
}

/// When a send made by running code aborts, the caller sees only its nonzero
/// exit code and goes on with its next op, on the state it had before the send.
pub proof fn lemma_abort_observed(
    eng: Engine,
    lim: CallLimits,
    st: Seq<ActorState>,
    used: u64,
    me: u64,
    ops: Seq<GuestOp>,
    i: nat,
    depth: u64,
)
    requires
        depth <= lim.max_depth,
        i < ops.len(),
        ops[i as int] is Send,
        charge_fits(lim.gas_limit, used, lim.prices.send_base),
        send_spec(
            eng,
            lim,
            st,
            (used + lim.prices.send_base) as u64,
            me,
            ops[i as int]->to,
            ops[i as int]->method,
            ops[i as int]->value,
            depth,
        ).2 != EXIT_OK,
    ensures
        run_spec(eng, lim, st, used, me, ops, i, depth) == run_spec(
            eng,
            lim,
            st,
            send_spec(
                eng,
                lim,
                st,
                (used + lim.prices.send_base) as u64,
                me,
                ops[i as int]->to,
                ops[i as int]->method,
                ops[i as int]->value,
                depth,
            ).1,
            me,
            ops,
            i + 1,
            depth,
        ),
{
    lemma_revert_atomic(
        eng,
        lim,
        st,
        (used + lim.prices.send_base) as u64,
        me,
        ops[i as int]->to,
        ops[i as int]->method,
        ops[i as int]->value,
        depth,
    );
}

proof fn lemma_prepay(st: Seq<ActorState>, msg: Message)
    requires
        ids_unique(st),
        has_actor(st, msg.from),
    ensures
        ids_unique(prepay_spec(st, msg)),
        has_actor(prepay_spec(st, msg), msg.from),
        lookup(prepay_spec(st, msg), msg.from).unwrap().sequence == (lookup(st, msg.from).unwrap().sequence
            + 1) as u64,
{
    let k = actor_index(st, msg.from);
    lemma_lookup_index(st, k);
    let s = lookup(st, msg.from).unwrap();
    let a = ActorState {
        balance: (s.balance - msg.gas_limit * msg.gas_fee_cap) as u64,
        sequence: (s.sequence + 1) as u64,
        ..s
    };
    let st1 = st.update(k, a);
    assert forall|p: int, q: int|
        0 <= p < st1.len() && 0 <= q < st1.len() && #[trigger] st1[p].id == #[trigger] st1[q].id implies p == q by {
        assert(st1[p].id == st[p].id);
        assert(st1[q].id == st[q].id);
    }
    lemma_lookup_index(st1, k);
}

/// Every accepted explicit message advances its sender's sequence number by
/// exactly one, whatever its call did.
pub proof fn lemma_nonce_advance(
    eng: Engine,
    max_depth: u64,
    prices: PriceList,
    base_fee: u64,
    st: Seq<ActorState>,
    msg: Message,
    size: u64,
    detached: bool,
)
    requires
        ids_unique(st),
        accepted(eng, prices, st, msg, size, detached),
        apply_spec(eng, max_depth, prices, base_fee, st, msg, ApplyKind::Explicit, size, detached).1.is_some(),
    ensures
        has_actor(apply_spec(eng, max_depth, prices, base_fee, st, msg, ApplyKind::Explicit, size, detached).0, msg.from),
        lookup(apply_spec(eng, max_depth, prices, base_fee, st, msg, ApplyKind::Explicit, size, detached).0, msg.from).unwrap().sequence
            == lookup(st, msg.from).unwrap().sequence + 1,
{
    let lim = limits_for(max_depth, prices, msg);
    let st1 = prepay_spec(st, msg);
    lemma_prepay(st, msg);
    let used0 = inclusion_gas(prices, size, detached) as u64;
    lemma_send_frame(eng, lim, st1, used0, msg.from, msg.to, msg.method, msg.value, 0);
    let r = send_spec(eng, lim, st1, used0, msg.from, msg.to, msg.method, msg.value, 0);
    lemma_frame_keeps(st1, r.0, msg.from);
    let rates = fee_rates(base_fee, msg);
    let refund = msg.gas_limit * msg.gas_fee_cap - r.1 * (rates.0 + rates.1);
    lemma_credit(r.0, msg.from, refund);
    let s1 = credit_spec(r.0, msg.from, refund).unwrap();
    lemma_frame_keeps(r.0, s1, msg.from);
    lemma_credit(s1, BURNT_FUNDS_ACTOR_ID, r.1 * rates.0);
    let s2 = credit_spec(s1, BURNT_FUNDS_ACTOR_ID, r.1 * rates.0).unwrap();
    lemma_frame_keeps(s1, s2, msg.from);
    lemma_credit(s2, REWARD_ACTOR_ID, r.1 * rates.1);
    let s3 = credit_spec(s2, REWARD_ACTOR_ID, r.1 * rates.1).unwrap();
    lemma_frame_keeps(s2, s3, msg.from);
}

proof fn lemma_credit(st: Seq<ActorState>, id: u64, amount: int)
    requires
        ids_unique(st),
    ensures
        credit_spec(st, id, amount) matches Some(s) ==> keeps_actors(st, s),
{
    if has_actor(st, id) {
        let a = lookup(st, id).unwrap();
        lemma_put_existing(st, ActorState { balance: (a.balance + amount) as u64, ..a });
    }
}

/// A message turned back before it runs changes no actor.
pub proof fn lemma_rejection_keeps_state(
    eng: Engine,
    max_depth: u64,
    prices: PriceList,
    base_fee: u64,
    st: Seq<ActorState>,
    msg: Message,
    size: u64,
    detached: bool,
)
    requires
        !accepted(eng, prices, st, msg, size, detached),
    ensures
        apply_spec(eng, max_depth, prices, base_fee, st, msg, ApplyKind::Explicit, size, detached).0 == st,
        apply_spec(eng, max_depth, prices, base_fee, st, msg, ApplyKind::Explicit, size, detached).1 matches Some(o)
            && o.1 == 0,
{
}

/// A state stored under its root by a flush is what loading that root gives
/// back, and it can be loaded into a machine again.
pub proof fn lemma_flush_round_trip(after: Seq<Block>, st: Seq<ActorState>)
    requires
        ids_unique(st),
        after.len() > 0,
        after.last().key@ == state_root_of(st),
        after.last().actors@ == st,
    ensures
        load_spec(after, state_root_of(st)) == Some(st),
        ids_unique(load_spec(after, state_root_of(st)).unwrap()),
{
}

proof fn lemma_put_same(s: Seq<ActorState>, id: u64)
    requires
        ids_unique(s),
        has_actor(s, id),
    ensures
        put_actor(s, lookup(s, id).unwrap()) == s,
{
    let k = actor_index(s, id);
    lemma_lookup_index(s, k);
    assert(s.update(k, s[k]) =~= s);
}

/// An accepted explicit message with method zero, no value and a zero fee cap
/// succeeds, uses exactly its inclusion gas, advances the sender's sequence
/// number by one and changes no balance.
pub proof fn lemma_zero_method_send(
    eng: Engine,
    max_depth: u64,
    prices: PriceList,
    base_fee: u64,
    st: Seq<ActorState>,
    msg: Message,
    size: u64,
    detached: bool,
)
    requires
        ids_unique(st),
        max_depth > 0,
        accepted(eng, prices, st, msg, size, detached),
        msg.method == 0,
        msg.value == 0,
        msg.gas_fee_cap == 0,
        has_actor(st, msg.to),
        has_actor(st, BURNT_FUNDS_ACTOR_ID),
        has_actor(st, REWARD_ACTOR_ID),
    ensures
        ({
            let out = apply_spec(eng, max_depth, prices, base_fee, st, msg, ApplyKind::Explicit, size, detached);
            &&& out.1 == Some((EXIT_OK, inclusion_gas(prices, size, detached) as u64))
            &&& inclusion_gas(prices, size, detached) >= prices.on_chain_message_base
            &&& lookup(out.0, msg.from).unwrap().sequence == lookup(st, msg.from).unwrap().sequence + 1
            &&& forall|id: u64| has_actor(st, id) ==> has_actor(out.0, id) && (#[trigger] lookup(out.0, id)).unwrap().balance == lookup(st, id).unwrap().balance
        }),
{
    let st1 = prepay_spec(st, msg);
    lemma_prepay(st, msg);
    let s = lookup(st, msg.from).unwrap();
    let a = ActorState { balance: (s.balance - msg.gas_limit * msg.gas_fee_cap) as u64, sequence: (s.sequence + 1) as u64, ..s };
    assert(a.balance == s.balance);
    assert forall|id: u64| has_actor(st, id) implies has_actor(st1, id) && (#[trigger] lookup(st1, id)).unwrap().balance == lookup(st, id).unwrap().balance by {
        if id != msg.from {
            let k = actor_index(st, msg.from);
            lemma_lookup_index(st, k);
            let st1b = st.update(k, a);
            assert forall|p: int, q: int|
                0 <= p < st1b.len() && 0 <= q < st1b.len() && #[trigger] st1b[p].id == #[trigger] st1b[q].id implies p == q by {
                assert(st1b[p].id == st[p].id);
                assert(st1b[q].id == st[q].id);
            }
            let j = actor_index(st, id);
            lemma_lookup_index(st, j);
            assert(st1b[j] == st[j]);
            lemma_lookup_index(st1b, j);
        }
    }
    // the transfer of nothing leaves the state as it is
    let lim = limits_for(max_depth, prices, msg);
    if msg.from != msg.to {
        lemma_put_same(st1, msg.from);
        lemma_put_same(st1, msg.to);
    }
    assert(transfer_spec(st1, msg.from, msg.to, 0) == Ok::<Seq<ActorState>, u32>(st1));
    // fees and refund are all zero
    let used = inclusion_gas(prices, size, detached) as u64;
    assert(send_spec(eng, lim, st1, used, msg.from, msg.to, msg.method, msg.value, 0) == (st1, used, EXIT_OK));
    let rates = fee_rates(base_fee, msg);
    assert(rates.0 == 0 && rates.1 == 0);
    assert(msg.gas_limit * msg.gas_fee_cap == 0);
    lemma_put_same(st1, msg.from);
    lemma_put_same(st1, BURNT_FUNDS_ACTOR_ID);
    lemma_put_same(st1, REWARD_ACTOR_ID);
    assert(credit_spec(st1, msg.from, 0) == Some(st1));
    assert(credit_spec(st1, BURNT_FUNDS_ACTOR_ID, 0) == Some(st1));
    assert(credit_spec(st1, REWARD_ACTOR_ID, 0) == Some(st1));
}

/// In a chain of calls where an actor's code calls itself again, only the call
/// entered at the depth limit fails with the depth error: every call below the
/// limit sees that failure as an ordinary exit code of its send and finishes
/// with success, unless gas runs out.
pub proof fn lemma_depth_chain(
    eng: Engine,
    lim: CallLimits,
    st: Seq<ActorState>,
    used: u64,
    me: u64,
    method: u64,
    depth: u64,
)
    requires
        depth < lim.max_depth,
        method != 0,
        has_actor(st, me),
        find_program(eng.programs@, lookup(st, me).unwrap().code, method) == Some(
            seq![GuestOp::Send { to: me, method, value: 0 }],
        ),
    ensures
        send_spec(eng, lim, st, used, me, me, method, 0, depth).2 == EXIT_OK || send_spec(
            eng,
            lim,
            st,
            used,
            me,
            me,
            method,
            0,
            depth,
        ).2 == EXIT_OUT_OF_GAS,
        send_spec(eng, lim, st, used, me, me, method, 0, lim.max_depth).2
            == EXIT_CALL_DEPTH_EXCEEDED,
{
    let ops = seq![GuestOp::Send { to: me, method, value: 0 }];
    assert(transfer_spec(st, me, me, 0) == Ok::<Seq<ActorState>, u32>(st));
    let c = charge_spec(lim.gas_limit, used, lim.prices.send_base);
    if c.1 {
        let r2 = send_spec(eng, lim, st, c.0, me, me, method, 0, (depth + 1) as u64);
        assert(run_spec(eng, lim, r2.0, r2.1, me, ops, 1, (depth + 1) as u64) == (r2.0, r2.1, EXIT_OK));
    }
}

} // verus!
