use fvm::blockstore::Blockstore;
use fvm::call_manager::{
    CallLimits, CallManager, Engine, GuestOp, Program, EXIT_CALL_DEPTH_EXCEEDED,
    EXIT_INSUFFICIENT_FUNDS, EXIT_OK, EXIT_OUT_OF_GAS, EXIT_SENDER_INVALID,
    EXIT_SENDER_STATE_INVALID, EXIT_UNHANDLED_MESSAGE,
};
use fvm::content_id::{empty_arr_cid, state_root};
use fvm::executor::{
    ApplyKind, ApplyReturn, ExecutionError, Executor, Message, BURNT_FUNDS_ACTOR_ID, REWARD_ACTOR_ID,
};
use fvm::gas::{on_chain_message_gas, price_list_by_network_version, GasTracker};
use fvm::machine::{InitializationError, Machine};
use fvm::state_tree::{ActorState, StateTree};
use fvm::Config;

const ACCOUNT_CODE: u64 = 1;
const CONTRACT_CODE: u64 = 9;

fn account(id: u64, balance: u64) -> ActorState {
    ActorState { id, code: ACCOUNT_CODE, head: 0, sequence: 0, balance }
}

fn store_with(actors: Vec<ActorState>) -> (Blockstore, Vec<u8>) {
    let mut bs = Blockstore::new();
    let mut st = StateTree::from_actors(actors).unwrap();
    let root = st.flush(&mut bs);
    (bs, root)
}

fn machine_with(config: Config, engine: Engine, actors: Vec<ActorState>) -> Machine {
    let (bs, root) = store_with(actors);
    Machine::new(config, engine, 0, 0, 0, 14, &root, bs).unwrap()
}

fn no_code() -> Engine {
    Engine { programs: vec![], account_codes: vec![ACCOUNT_CODE] }
}

fn message(from: u64, to: u64, sequence: u64, method: u64, value: u64, gas_limit: u64, fee_cap: u64) -> Message {
    Message {
        from,
        to,
        sequence,
        value,
        method,
        params: vec![],
        gas_limit,
        gas_fee_cap: fee_cap,
        gas_premium: 0,
    }
}

fn actor(ex: &Executor, id: u64) -> ActorState {
    ex.machine.as_ref().unwrap().tree.get(id).unwrap()
}

fn base_actors() -> Vec<ActorState> {
    vec![
        account(REWARD_ACTOR_ID, 0),
        account(BURNT_FUNDS_ACTOR_ID, 0),
        account(100, 1_000_000),
        account(101, 500),
    ]
}

#[test]
fn test_constructor() {
    let mut bs = Blockstore::new();
    let mut st = StateTree::new();
    let root = st.flush(&mut bs);
    let machine = Machine::new(Config::default(), no_code(), 0, 0, 0, 14, &root, bs).unwrap();
    let _ = Executor::new(machine);
}

#[test]
fn config_default_values() {
    let c = Config::default();
    assert_eq!(c.max_call_depth, 4096);
    assert_eq!(c.initial_pages, 0);
    assert_eq!(c.max_pages, 1024);
    assert!(!c.debug);
}

#[test]
fn machine_rejects_unknown_root() {
    let (bs, _root) = store_with(base_actors());
    let r = Machine::new(Config::default(), no_code(), 0, 0, 0, 14, &vec![1, 2, 3], bs);
    assert!(matches!(r, Err(InitializationError::StateRootNotFound)));
}

#[test]
fn machine_rejects_duplicate_ids() {
    let mut bs = Blockstore::new();
    let root = bs.put(vec![account(5, 1), account(5, 2)]);
    let r = Machine::new(Config::default(), no_code(), 0, 0, 0, 14, &root, bs);
    assert!(matches!(r, Err(InitializationError::CorruptState)));
}

#[test]
fn zero_method_send_succeeds() {
    let m = machine_with(Config::default(), no_code(), base_actors());
    let mut ex = Executor::new(m);
    let msg = message(100, 101, 0, 0, 0, 1_000_000, 0);
    let ret = ex.execute_message(&msg, ApplyKind::Explicit, 100, false).unwrap();
    assert_eq!(ret.exit_code, EXIT_OK);
    assert!(ret.return_data.is_empty());
    assert!(ret.gas_used > 0);
    assert_eq!(ret.gas_used, 38863 + 1300 * 100);
    assert_eq!(actor(&ex, 100).sequence, 1);
    assert_eq!(actor(&ex, 100).balance, 1_000_000);
    assert_eq!(actor(&ex, 101).balance, 500);
}

#[test]
fn gas_limit_below_inclusion_is_rejected() {
    let m = machine_with(Config::default(), no_code(), base_actors());
    let mut ex = Executor::new(m);
    let msg = message(100, 101, 0, 0, 0, 1000, 0);
    let ret = ex.execute_message(&msg, ApplyKind::Explicit, 100, false).unwrap();
    assert_eq!(ret.exit_code, EXIT_OUT_OF_GAS);
    assert_eq!(ret.gas_used, 0);
    assert_eq!(actor(&ex, 100).sequence, 0);
}

fn run_batch(bs: Blockstore, root: &Vec<u8>, msgs: &Vec<Message>) -> (Vec<u8>, Vec<u32>) {
    let m = Machine::new(Config::default(), no_code(), 0, 0, 0, 14, root, bs).unwrap();
    let mut ex = Executor::new(m);
    let mut codes = vec![];
    for msg in msgs {
        codes.push(ex.execute_message(msg, ApplyKind::Explicit, 60, false).unwrap().exit_code);
    }
    (ex.flush().unwrap(), codes)
}

#[test]
fn independent_machines_agree() {
    let (bs, root) = store_with(base_actors());
    let msgs = vec![
        message(100, 101, 0, 0, 25, 200_000, 1),
        message(100, 101, 1, 0, 7, 1_000_000, 0),
        message(101, 100, 3, 0, 1, 1_000_000, 0),
    ];
    let (root1, codes1) = run_batch(bs.clone(), &root, &msgs);
    let (root2, codes2) = run_batch(bs, &root, &msgs);
    assert_eq!(root1, root2);
    assert_eq!(codes1, codes2);
    assert_eq!(codes1, vec![EXIT_OK, EXIT_OK, EXIT_SENDER_STATE_INVALID]);
}

#[test]
fn flush_then_reload_round_trips() {
    let m = machine_with(Config::default(), no_code(), base_actors());
    let mut ex = Executor::new(m);
    let msg = message(100, 101, 0, 0, 40, 1_000_000, 0);
    ex.execute_message(&msg, ApplyKind::Explicit, 10, false).unwrap();
    let root = ex.flush().unwrap();
    let before = ex.machine.as_ref().unwrap().tree.actors();
    let bs = ex.consume().unwrap().consume();
    let again = Machine::new(Config::default(), no_code(), 0, 0, 0, 14, &root, bs).unwrap();
    assert_eq!(again.tree.actors(), before);
    assert_eq!(again.tree.get(101).unwrap().balance, 540);
}

fn contract_engine() -> Engine {
    Engine {
        programs: vec![
            Program { code: CONTRACT_CODE, method: 1, ops: vec![GuestOp::SetHead(42), GuestOp::Exit(16)] },
            Program {
                code: CONTRACT_CODE,
                method: 2,
                ops: vec![GuestOp::Send { to: 300, method: 2, value: 0 }, GuestOp::SetHead(5)],
            },
            Program { code: CONTRACT_CODE, method: 3, ops: vec![GuestOp::Charge(u64::MAX)] },
            Program {
                code: CONTRACT_CODE,
                method: 4,
                ops: vec![GuestOp::Send { to: 101, method: 0, value: 1_000_000_000 }, GuestOp::Exit(0)],
            },
        ],
        account_codes: vec![ACCOUNT_CODE],
    }
}

fn contract_actors() -> Vec<ActorState> {
    let mut v = base_actors();
    v.push(ActorState { id: 300, code: CONTRACT_CODE, head: 1, sequence: 0, balance: 10 });
    v
}

#[test]
fn aborted_call_reverts_state_and_keeps_nonce() {
    let m = machine_with(Config::default(), contract_engine(), contract_actors());
    let mut ex = Executor::new(m);
    let msg = message(100, 300, 0, 1, 30, 1_000_000, 0);
    let ret = ex.execute_message(&msg, ApplyKind::Explicit, 50, false).unwrap();
    assert_eq!(ret.exit_code, 16);
    assert_eq!(ret.gas_used, 38863 + 1300 * 50 + 1000);
    assert_eq!(actor(&ex, 300).head, 1);
    assert_eq!(actor(&ex, 300).balance, 10);
    assert_eq!(actor(&ex, 100).balance, 1_000_000);
    assert_eq!(actor(&ex, 100).sequence, 1);
}

#[test]
fn depth_limit_aborts_innermost_call_only() {
    let config = Config { max_call_depth: 3, ..Config::default() };
    let m = machine_with(config, contract_engine(), contract_actors());
    let mut ex = Executor::new(m);
    let msg = message(100, 300, 0, 2, 0, 10_000_000, 0);
    let ret = ex.execute_message(&msg, ApplyKind::Explicit, 0, false).unwrap();
    assert_eq!(ret.exit_code, EXIT_OK);
    assert_eq!(ret.gas_used, 38863 + 3 * 29233 + 3 * 1000);
    assert_eq!(actor(&ex, 300).head, 5);
}

#[test]
fn depth_exceeded_code_is_returned_to_direct_caller() {
    let config = Config { max_call_depth: 0, ..Config::default() };
    let m = machine_with(config, no_code(), base_actors());
    let mut ex = Executor::new(m);
    let msg = message(100, 101, 0, 0, 5, 1_000_000, 0);
    let ret = ex.execute_message(&msg, ApplyKind::Explicit, 0, false).unwrap();
    assert_eq!(ret.exit_code, EXIT_CALL_DEPTH_EXCEEDED);
    assert_eq!(actor(&ex, 101).balance, 500);
    assert_eq!(actor(&ex, 100).sequence, 1);
}

#[test]
fn out_of_gas_uses_whole_limit() {
    let m = machine_with(Config::default(), contract_engine(), contract_actors());
    let mut ex = Executor::new(m);
    let msg = Message { gas_premium: 2, ..message(100, 300, 0, 3, 0, 100_000, 2) };
    let ret = ex.execute_message(&msg, ApplyKind::Explicit, 0, false).unwrap();
    assert_eq!(ret.exit_code, EXIT_OUT_OF_GAS);
    assert_eq!(ret.gas_used, 100_000);
    assert_eq!(actor(&ex, 100).balance, 1_000_000 - 200_000);
    assert_eq!(actor(&ex, REWARD_ACTOR_ID).balance, 200_000);
}

#[test]
fn nested_insufficient_funds_is_observed_by_caller() {
    let m = machine_with(Config::default(), contract_engine(), contract_actors());
    let mut ex = Executor::new(m);
    let msg = message(100, 300, 0, 4, 0, 1_000_000, 0);
    let ret = ex.execute_message(&msg, ApplyKind::Explicit, 0, false).unwrap();
    assert_eq!(ret.exit_code, EXIT_OK);
    assert_eq!(actor(&ex, 101).balance, 500);
}

#[test]
fn unhandled_method_is_an_abort() {
    let m = machine_with(Config::default(), contract_engine(), contract_actors());
    let mut ex = Executor::new(m);
    let msg = message(100, 300, 0, 77, 3, 1_000_000, 0);
    let ret = ex.execute_message(&msg, ApplyKind::Explicit, 0, false).unwrap();
    assert_eq!(ret.exit_code, EXIT_UNHANDLED_MESSAGE);
    assert_eq!(actor(&ex, 300).balance, 10);
    assert_eq!(actor(&ex, 100).sequence, 1);
}

#[test]
fn rejections_leave_sender_alone() {
    let m = machine_with(Config::default(), no_code(), base_actors());
    let mut ex = Executor::new(m);
    let wrong_nonce = message(100, 101, 5, 0, 0, 1_000_000, 0);
    let r1 = ex.execute_message(&wrong_nonce, ApplyKind::Explicit, 0, false).unwrap();
    assert_eq!(r1.exit_code, EXIT_SENDER_STATE_INVALID);
    let too_poor = message(101, 100, 0, 0, 0, 1_000_000, 1);
    let r2 = ex.execute_message(&too_poor, ApplyKind::Explicit, 0, false).unwrap();
    assert_eq!(r2.exit_code, EXIT_INSUFFICIENT_FUNDS);
    let unknown = message(555, 100, 0, 0, 0, 1_000_000, 0);
    let r3 = ex.execute_message(&unknown, ApplyKind::Explicit, 0, false).unwrap();
    assert_eq!(r3.exit_code, EXIT_SENDER_INVALID);
    assert_eq!(actor(&ex, 100).sequence, 0);
    assert_eq!(actor(&ex, 101).sequence, 0);
    assert_eq!(r1.gas_used + r2.gas_used + r3.gas_used, 0);
}

#[test]
fn fees_are_split_and_unused_gas_is_refunded() {
    let (bs, root) = store_with(base_actors());
    let m = Machine::new(Config::default(), no_code(), 0, 2, 0, 14, &root, bs).unwrap();
    let mut ex = Executor::new(m);
    let msg = Message { gas_premium: 5, ..message(100, 101, 0, 0, 10, 200_000, 3) };
    let ret = ex.execute_message(&msg, ApplyKind::Explicit, 20, true).unwrap();
    let used = 38863 + 1300 * (20 + 69);
    assert_eq!(ret.gas_used, used);
    assert_eq!(actor(&ex, 100).balance, 1_000_000 - 10 - 3 * used);
    assert_eq!(actor(&ex, BURNT_FUNDS_ACTOR_ID).balance, 2 * used);
    assert_eq!(actor(&ex, REWARD_ACTOR_ID).balance, used);
    assert_eq!(actor(&ex, 101).balance, 510);
}

#[test]
fn missing_fee_actor_is_fatal() {
    let m = machine_with(Config::default(), no_code(), vec![account(100, 1000), account(101, 0)]);
    let mut ex = Executor::new(m);
    let msg = message(100, 101, 0, 0, 1, 100_000, 0);
    let r = ex.execute_message(&msg, ApplyKind::Explicit, 0, false);
    assert!(matches!(r, Err(ExecutionError::FeeTransferFailed)));
}

#[test]
fn implicit_message_skips_nonce_and_fees() {
    let m = machine_with(Config::default(), no_code(), base_actors());
    let mut ex = Executor::new(m);
    let msg = message(100, 101, 99, 0, 20, 10, 5);
    let ret: ApplyReturn = ex.execute_message(&msg, ApplyKind::Implicit, 1000, false).unwrap();
    assert_eq!(ret.exit_code, EXIT_OK);
    assert_eq!(ret.gas_used, 0);
    assert_eq!(actor(&ex, 100).sequence, 0);
    assert_eq!(actor(&ex, 101).balance, 520);
}

#[test]
fn consumed_executor_is_poisoned() {
    let m = machine_with(Config::default(), no_code(), base_actors());
    let mut ex = Executor::new(m);
    assert!(ex.consume().is_some());
    assert!(ex.consume().is_none());
    assert!(ex.flush().is_none());
    let msg = message(100, 101, 0, 0, 0, 1_000_000, 0);
    assert!(matches!(ex.execute_message(&msg, ApplyKind::Explicit, 0, false), Err(ExecutionError::Poisoned)));
}

#[test]
fn revert_restores_tree() {
    let mut t = StateTree::from_actors(vec![account(1, 10)]).unwrap();
    let mark = t.snapshot();
    t.set(account(2, 20));
    t.set(ActorState { balance: 99, ..account(1, 10) });
    assert_eq!(t.get(1).unwrap().balance, 99);
    t.revert_to(mark);
    assert_eq!(t.actors(), vec![account(1, 10)]);
    assert!(t.get(2).is_none());
}

#[test]
fn call_manager_depth_error_at_limit() {
    let t = StateTree::from_actors(base_actors()).unwrap();
    let limits = CallLimits { max_depth: 2, gas_limit: 100, prices: price_list_by_network_version(14) };
    let mut cm = CallManager::new(t, limits, 0, 100);
    assert_eq!(cm.send(&no_code(), 100, 101, 0, 1, 2), EXIT_CALL_DEPTH_EXCEEDED);
    assert_eq!(cm.send(&no_code(), 100, 101, 0, 1, 1), EXIT_OK);
    assert_eq!(cm.tree.get(101).unwrap().balance, 501);
}

#[test]
fn gas_tracker_clamps_on_exhaustion() {
    let mut g = GasTracker::new(100, 0);
    assert!(g.charge(60));
    assert_eq!(g.used, 60);
    assert!(!g.charge(41));
    assert_eq!(g.used, 100);
    assert_eq!(g.remaining(), 0);
}

#[test]
fn inclusion_gas_formula() {
    let p = price_list_by_network_version(14);
    assert_eq!(on_chain_message_gas(&p, 10, false, u64::MAX), Some(38863 + 13000));
    assert_eq!(on_chain_message_gas(&p, 10, true, u64::MAX), Some(38863 + 1300 * 79));
    assert_eq!(on_chain_message_gas(&p, 10, false, 51862), None);
    assert_eq!(on_chain_message_gas(&p, u64::MAX, true, u64::MAX), None);
}

#[test]
fn empty_array_cid_bytes() {
    let c = empty_arr_cid();
    assert_eq!(c.len(), 38);
    assert_eq!(&c[..6], &[0x01, 0x71, 0xa0, 0xe4, 0x02, 0x20]);
    assert_ne!(c, vec![0x80]);
}

#[test]
fn state_roots_depend_on_state() {
    let a = state_root(&vec![]);
    let b = state_root(&vec![account(1, 1)]);
    let c = state_root(&vec![account(1, 2)]);
    assert_eq!(a.len(), 38);
    assert_eq!(&a[..2], &[0x01, 0x55]);
    assert_ne!(a, b);
    assert_ne!(b, c);
    assert_eq!(b, state_root(&vec![account(1, 1)]));
}

#[test]
fn store_keys_are_content_ids() {
    let mut bs = Blockstore::new();
    let actors = vec![account(1, 1), account(2, 5)];
    let key = bs.put(actors.clone());
    assert_eq!(key, state_root(&actors));
    assert_eq!(bs.get(&key), Some(actors));
    assert_eq!(bs.get(&state_root(&vec![])), None);
}

#[test]
fn contract_cannot_send_messages() {
    let m = machine_with(Config::default(), contract_engine(), contract_actors());
    let mut ex = Executor::new(m);
    let msg = message(300, 101, 0, 0, 1, 1_000_000, 0);
    let ret = ex.execute_message(&msg, ApplyKind::Explicit, 0, false).unwrap();
    assert_eq!(ret.exit_code, EXIT_SENDER_INVALID);
    assert_eq!(actor(&ex, 300).sequence, 0);
    assert_eq!(actor(&ex, 101).balance, 500);
}
