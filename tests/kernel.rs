use fvm::call_manager::{CallLimits, CallManager, Engine, GuestOp, Program, EXIT_OK, EXIT_OUT_OF_GAS};
use fvm::executor::{ApplyKind, Executor, Message, BURNT_FUNDS_ACTOR_ID, REWARD_ACTOR_ID};
use fvm::externs::{Consensus, ConsensusFault, ConsensusFaultType, ExternError, Externs, Rand};
use fvm::gas::price_list_by_network_version;
use fvm::kernel::SyscallError;
use fvm::blockstore::Blockstore;
use fvm::machine::Machine;
use fvm::state_tree::{ActorState, StateTree};
use fvm::Config;

fn acct(id: u64, code: u64, balance: u64) -> ActorState {
    ActorState { id, code, head: 0, sequence: 0, balance }
}

fn manager(gas_limit: u64) -> CallManager {
    let t = StateTree::from_actors(vec![acct(1, 7, 10), acct(2, 8, 0)]).unwrap();
    let limits = CallLimits { max_depth: 16, gas_limit, prices: price_list_by_network_version(14) };
    CallManager::new(t, limits, 0, 1)
}

struct FixedExterns;

impl Rand for FixedExterns {
    fn get_chain_randomness(&self, _tag: i64, round: i64, _entropy: &Vec<u8>) -> Result<Vec<u8>, ExternError> {
        if round < 0 {
            Err(ExternError { code: 1 })
        } else {
            Ok(vec![round as u8; 32])
        }
    }

    fn get_beacon_randomness(&self, _tag: i64, round: i64, _entropy: &Vec<u8>) -> Result<Vec<u8>, ExternError> {
        Ok(vec![(round + 1) as u8; 32])
    }
}

impl Consensus for FixedExterns {
    fn verify_consensus_fault(
        &self,
        h1: &Vec<u8>,
        _h2: &Vec<u8>,
        _extra: &Vec<u8>,
    ) -> Result<(Option<ConsensusFault>, i64), ExternError> {
        if h1.is_empty() {
            Ok((None, -5))
        } else {
            Ok((Some(ConsensusFault { target: 1, epoch: 3, fault_type: ConsensusFaultType::ParentGrinding }), 100))
        }
    }
}

impl Externs for FixedExterns {}

#[test]
fn lookups_charge_and_resolve() {
    let mut cm = manager(10_000);
    assert_eq!(cm.resolve_address(2), Ok(2));
    assert_eq!(cm.get_actor_code_cid(1), Ok(7));
    assert_eq!(cm.get_actor_code_cid(9), Err(SyscallError::NotFound));
    assert_eq!(cm.gas.used, 1500);
}

#[test]
fn lookup_out_of_gas() {
    let mut cm = manager(400);
    assert_eq!(cm.resolve_address(1), Err(SyscallError::OutOfGas));
    assert_eq!(cm.gas.used, 400);
}

#[test]
fn create_actor_rejects_taken_id() {
    let mut cm = manager(10_000_000);
    assert_eq!(cm.create_actor(2, 5), Err(SyscallError::AlreadyExists));
    assert_eq!(cm.create_actor(3, 5), Ok(()));
    assert_eq!(cm.tree.get(3).unwrap(), acct(3, 5, 0));
    assert_eq!(cm.gas.used, 2 * 1108454);
}

#[test]
fn randomness_is_charged_and_passed_through() {
    let mut cm = manager(10_000);
    let r = cm.get_randomness_from_tickets(&FixedExterns, 0, 4, &vec![]).unwrap();
    assert_eq!(r, vec![4u8; 32]);
    assert_eq!(cm.get_randomness_from_tickets(&FixedExterns, 0, -1, &vec![]), Err(SyscallError::Extern));
    assert_eq!(cm.get_randomness_from_beacon(&FixedExterns, 0, 4, &vec![]).unwrap(), vec![5u8; 32]);
    assert_eq!(cm.gas.used, 3000);
}

#[test]
fn consensus_fault_gas_is_charged_after_the_check() {
    let mut cm = manager(10_000_000);
    let f = cm.verify_consensus_fault(&FixedExterns, &vec![1], &vec![2], &vec![]).unwrap();
    assert_eq!(f.unwrap().fault_type, ConsensusFaultType::ParentGrinding);
    assert_eq!(cm.gas.used, 495422 + 100);
    assert_eq!(cm.verify_consensus_fault(&FixedExterns, &vec![], &vec![2], &vec![]), Ok(None));
    assert_eq!(cm.gas.used, 2 * 495422 + 100);
}

#[test]
fn running_code_creates_actor_and_abort_removes_it() {
    let engine = Engine {
        programs: vec![
            Program { code: 9, method: 1, ops: vec![GuestOp::CreateActor { id: 50, code: 1 }] },
            Program { code: 9, method: 2, ops: vec![GuestOp::CreateActor { id: 51, code: 1 }, GuestOp::Exit(3)] },
        ],
        account_codes: vec![1],
    };
    let mut bs = Blockstore::new();
    let mut st = StateTree::from_actors(vec![
        acct(REWARD_ACTOR_ID, 1, 0),
        acct(BURNT_FUNDS_ACTOR_ID, 1, 0),
        acct(100, 1, 1000),
        acct(300, 9, 0),
    ]).unwrap();
    let root = st.flush(&mut bs);
    let m = Machine::new(Config::default(), engine, 0, 0, 0, 14, &root, bs).unwrap();
    let mut ex = Executor::new(m);
    let msg = |seq: u64, method: u64| Message {
        from: 100,
        to: 300,
        sequence: seq,
        value: 0,
        method,
        params: vec![],
        gas_limit: 10_000_000,
        gas_fee_cap: 0,
        gas_premium: 0,
    };
    let r1 = ex.execute_message(&msg(0, 1), ApplyKind::Explicit, 0, false).unwrap();
    assert_eq!(r1.exit_code, EXIT_OK);
    let r2 = ex.execute_message(&msg(1, 2), ApplyKind::Explicit, 0, false).unwrap();
    assert_eq!(r2.exit_code, 3);
    let tree = &ex.machine.as_ref().unwrap().tree;
    assert_eq!(tree.get(50).unwrap().code, 1);
    assert!(tree.get(51).is_none());
    let short = Message { gas_limit: 500_000, ..msg(2, 1) };
    let r3 = ex.execute_message(&short, ApplyKind::Explicit, 0, false).unwrap();
    assert_eq!(r3.exit_code, EXIT_OUT_OF_GAS);
    assert_eq!(r3.gas_used, 500_000);
}

#[test]
fn consensus_fault_answer_is_charged_exactly() {
    let mut cm = manager(1000);
    assert_eq!(cm.charge_consensus_fault_answer(Err(ExternError { code: 4 })), Err(SyscallError::Extern));
    assert_eq!(cm.gas.used, 0);
    assert_eq!(cm.charge_consensus_fault_answer(Ok((None, -3))), Ok(None));
    assert_eq!(cm.gas.used, 0);
    assert_eq!(cm.charge_consensus_fault_answer(Ok((None, 600))), Ok(None));
    assert_eq!(cm.gas.used, 600);
    assert_eq!(cm.charge_consensus_fault_answer(Ok((None, 401))), Err(SyscallError::OutOfGas));
    assert_eq!(cm.gas.used, 1000);
}

#[test]
fn consensus_fault_fixed_price_out_of_gas() {
    let mut cm = manager(1000);
    assert_eq!(cm.verify_consensus_fault(&FixedExterns, &vec![1], &vec![2], &vec![]), Err(SyscallError::OutOfGas));
    assert_eq!(cm.gas.used, 1000);
}

#[test]
fn call_chain_past_default_depth_limit() {
    let engine = Engine {
        programs: vec![Program {
            code: 9,
            method: 1,
            ops: vec![GuestOp::Send { to: 300, method: 1, value: 0 }, GuestOp::SetHead(8)],
        }],
        account_codes: vec![1],
    };
    let mut bs = Blockstore::new();
    let mut st = StateTree::from_actors(vec![
        acct(REWARD_ACTOR_ID, 1, 0),
        acct(BURNT_FUNDS_ACTOR_ID, 1, 0),
        acct(100, 1, 1000),
        acct(300, 9, 0),
    ])
    .unwrap();
    let root = st.flush(&mut bs);
    let m = Machine::new(Config::default(), engine, 0, 0, 0, 14, &root, bs).unwrap();
    let mut ex = Executor::new(m);
    let msg = Message {
        from: 100,
        to: 300,
        sequence: 0,
        value: 0,
        method: 1,
        params: vec![],
        gas_limit: u64::MAX / 2,
        gas_fee_cap: 0,
        gas_premium: 0,
    };
    let r = ex.execute_message(&msg, ApplyKind::Explicit, 0, false).unwrap();
    assert_eq!(r.exit_code, EXIT_OK);
    assert_eq!(r.gas_used, 38863 + 4096 * 29233 + 4096 * 1000);
    assert_eq!(ex.machine.as_ref().unwrap().tree.get(300).unwrap().head, 8);
}
