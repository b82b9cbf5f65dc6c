use ethexec::hash::{Address, H256};
use ethexec::state::{Account, State};
use ethexec::substate::{LogEntry, Substate};
use ethexec::uint::U256;

fn a(n: u128) -> Address {
    Address { hi: 0, lo: n }
}

fn h(n: u128) -> H256 {
    H256 { hi: 0, lo: n }
}

fn u(x: u64) -> U256 {
    U256::from_u64(x)
}

#[test]
fn accounts_come_with_the_first_change() {
    let mut state = State::new();
    assert!(!state.has_account(&a(1)));
    assert_eq!(state.balance(&a(1)), u(0));
    assert_eq!(state.nonce(&a(1)), u(0));
    assert_eq!(state.code(&a(1)), None);
    assert_eq!(state.storage_at(&a(1), &h(5)), H256::zero());
    state.add_balance(&a(1), &u(10));
    assert!(state.has_account(&a(1)));
    assert_eq!(state.code(&a(1)), Some(vec![]));
    state.sub_balance(&a(1), &u(4));
    assert_eq!(state.balance(&a(1)), u(6));
    state.inc_nonce(&a(1));
    state.inc_nonce(&a(1));
    assert_eq!(state.nonce(&a(1)), u(2));
    state.transfer_balance(&a(1), &a(2), &u(6));
    assert_eq!(state.balance(&a(1)), u(0));
    assert_eq!(state.balance(&a(2)), u(6));
    state.transfer_balance(&a(2), &a(2), &u(6));
    assert_eq!(state.balance(&a(2)), u(6));
}

#[test]
fn storage_and_code() {
    let mut state = State::new();
    state.set_storage(&a(1), h(1), h(11));
    state.set_storage(&a(1), h(2), h(22));
    state.set_storage(&a(1), h(1), h(33));
    assert_eq!(state.storage_at(&a(1), &h(1)), h(33));
    assert_eq!(state.storage_at(&a(1), &h(2)), h(22));
    assert_eq!(state.storage_at(&a(1), &h(3)), H256::zero());
    assert_eq!(state.storage_at(&a(2), &h(1)), H256::zero());
    state.init_code(&a(1), vec![1, 2, 3]);
    assert_eq!(state.code(&a(1)), Some(vec![1, 2, 3]));
    state.add_balance(&a(1), &u(5));
    state.new_contract(&a(1), u(9));
    assert_eq!(state.balance(&a(1)), u(9));
    assert_eq!(state.code(&a(1)), Some(vec![]));
    assert_eq!(state.storage_at(&a(1), &h(1)), H256::zero());
    state.kill_account(&a(1));
    assert!(!state.has_account(&a(1)));
    state.kill_account(&a(1));
    assert!(!state.has_account(&a(1)));
}

#[test]
fn checkpoints_nest() {
    let mut state = State::new();
    state.add_balance(&a(1), &u(100));
    state.snapshot();
    state.sub_balance(&a(1), &u(30));
    state.set_storage(&a(1), h(1), h(7));
    state.snapshot();
    state.kill_account(&a(1));
    state.add_balance(&a(2), &u(1));
    assert!(!state.has_account(&a(1)));
    state.revert_snapshot();
    assert_eq!(state.balance(&a(1)), u(70));
    assert_eq!(state.storage_at(&a(1), &h(1)), h(7));
    assert!(!state.has_account(&a(2)));
    state.snapshot();
    state.add_balance(&a(1), &u(5));
    state.clear_snapshot();
    assert_eq!(state.balance(&a(1)), u(75));
    state.revert_snapshot();
    assert_eq!(state.balance(&a(1)), u(100));
    assert_eq!(state.storage_at(&a(1), &h(1)), H256::zero());
}

#[test]
fn an_account_is_copied_with_all_it_holds() {
    let account = Account {
        balance: u(5),
        nonce: u(2),
        code: vec![1, 2],
        storage: vec![(h(1), h(2))],
    };
    let copy = account.duplicate();
    assert_eq!(copy.balance, u(5));
    assert_eq!(copy.nonce, u(2));
    assert_eq!(copy.code, vec![1, 2]);
    assert_eq!(copy.storage, vec![(h(1), h(2))]);
    let empty = Account::empty();
    assert_eq!(empty.balance, u(0));
    assert!(empty.code.is_empty());
}

#[test]
fn a_substate_takes_over_what_another_gathered() {
    let mut first = Substate::new();
    first.add_suicide(a(1));
    first.add_suicide(a(1));
    first.sstore_clears_count = u(3);
    first.contracts_created.push(a(7));
    first.logs.push(LogEntry { address: a(1), topics: vec![], data: vec![1] });
    let mut second = Substate::new();
    second.add_suicide(a(1));
    second.add_suicide(a(2));
    second.sstore_clears_count = u(4);
    second.contracts_created.push(a(8));
    second.logs.push(LogEntry { address: a(2), topics: vec![h(1)], data: vec![2] });
    first.accrue(second);
    assert_eq!(first.suicides, vec![a(1), a(2)]);
    assert!(first.has_suicide(&a(2)));
    assert!(!first.has_suicide(&a(3)));
    assert_eq!(first.sstore_clears_count, u(7));
    assert_eq!(first.contracts_created, vec![a(7), a(8)]);
    assert_eq!(first.logs.len(), 2);
    assert_eq!(first.logs[1].data, vec![2]);
    let mut full = Substate::new();
    full.sstore_clears_count = U256::max_value();
    let mut more = Substate::new();
    more.sstore_clears_count = u(1);
    full.accrue(more);
    assert_eq!(full.sstore_clears_count, U256::max_value());
}
