use std::sync::Arc;

use evm::backend::memory::{MemoryAccount, MemoryBackend, MemoryVicinity};
use evm::backend::{Apply, ApplyBackend, Backend, Basic, Log};
use evm::hash::keccak_word;
use evm::table::Table;
use evm::word::{Address, Word};

fn w(v: u64) -> Word {
    Word::from_u64(v)
}

fn addr(v: u64) -> Address {
    Address { l0: v, l1: 0, l2: 0 }
}

fn vicinity(block_number: u64, hashes: Vec<Word>) -> Arc<MemoryVicinity> {
    Arc::new(MemoryVicinity {
        gas_price: w(3),
        origin: addr(0xaa),
        chain_id: w(1),
        block_hashes: hashes,
        block_number: w(block_number),
        block_coinbase: addr(0xcc),
        block_timestamp: w(1_600_000_000),
        block_difficulty: w(17),
        block_gas_limit: w(8_000_000),
    })
}

fn empty_backend() -> MemoryBackend {
    MemoryBackend::new(vicinity(10, vec![w(109), w(108), w(107)]), Table::new())
}

fn modify(address: Address, balance: u64, storage: Vec<(Word, Word)>, reset: bool) -> Apply {
    Apply::Modify {
        address,
        basic: Basic { balance: w(balance), nonce: w(1) },
        code: None,
        storage,
        reset_storage: reset,
    }
}

#[test]
fn vicinity_is_reported() {
    let b = empty_backend();
    assert_eq!(b.gas_price(), w(3));
    assert_eq!(b.origin(), addr(0xaa));
    assert_eq!(b.chain_id(), w(1));
    assert_eq!(b.block_number(), w(10));
    assert_eq!(b.block_coinbase(), addr(0xcc));
    assert_eq!(b.block_timestamp(), w(1_600_000_000));
    assert_eq!(b.block_difficulty(), w(17));
    assert_eq!(b.block_gas_limit(), w(8_000_000));
}

#[test]
fn block_hash_covers_the_known_blocks_before_the_current() {
    let b = empty_backend();
    assert_eq!(b.block_hash(w(9)), w(109));
    assert_eq!(b.block_hash(w(8)), w(108));
    assert_eq!(b.block_hash(w(7)), w(107));
    assert_eq!(b.block_hash(w(6)), Word::zero());
    assert_eq!(b.block_hash(w(10)), Word::zero());
    assert_eq!(b.block_hash(w(11)), Word::zero());
    assert_eq!(b.block_hash(Word::max_value()), Word::zero());
}

#[test]
fn block_hash_reaches_back_256_blocks() {
    let hashes: Vec<Word> = (0..300u64).map(|i| w(1000 + i)).collect();
    let b = MemoryBackend::new(vicinity(1000, hashes), Table::new());
    assert_eq!(b.block_hash(w(999)), w(1000));
    assert_eq!(b.block_hash(w(744)), w(1255));
    assert_eq!(b.block_hash(w(743)), Word::zero());
}

#[test]
fn missing_account_reads_as_blank() {
    let b = empty_backend();
    assert!(!b.account_exists(addr(1)));
    assert_eq!(b.basic(addr(1)), Basic { balance: w(0), nonce: w(0) });
    assert_eq!(b.code(addr(1)), Vec::<u8>::new());
    assert_eq!(b.code_size(addr(1)), 0);
    assert_eq!(b.code_hash(addr(1)), keccak_word(&[]));
    assert_eq!(b.storage(addr(1), w(0)), Word::zero());
    assert_eq!(Basic::default(), Basic { balance: w(0), nonce: w(0) });
}

#[test]
fn applied_slots_are_read_back() {
    let mut b = empty_backend();
    b.apply(
        vec![modify(addr(1), 5, vec![(w(1), w(11)), (w(2), w(22)), (w(3), w(0))], false)],
        Vec::new(),
        false,
    );
    assert!(b.account_exists(addr(1)));
    assert_eq!(b.basic(addr(1)), Basic { balance: w(5), nonce: w(1) });
    assert_eq!(b.storage(addr(1), w(1)), w(11));
    assert_eq!(b.storage(addr(1), w(2)), w(22));
    assert_eq!(b.storage(addr(1), w(3)), Word::zero());
    let account = b.state().get(&addr(1)).unwrap();
    assert!(account.storage.contains_key(&w(1)));
    assert!(!account.storage.contains_key(&w(3)));
    assert_eq!(account.storage.len(), 2);
}

#[test]
fn zero_write_deletes_the_slot_and_later_writes_win() {
    let mut b = empty_backend();
    b.apply(vec![modify(addr(1), 5, vec![(w(1), w(11)), (w(2), w(22))], false)], Vec::new(), false);
    b.apply(
        vec![modify(addr(1), 5, vec![(w(1), w(0)), (w(2), w(7)), (w(2), w(8))], false)],
        Vec::new(),
        false,
    );
    assert_eq!(b.storage(addr(1), w(1)), Word::zero());
    assert_eq!(b.storage(addr(1), w(2)), w(8));
    let account = b.state().get(&addr(1)).unwrap();
    assert!(!account.storage.contains_key(&w(1)));
    assert_eq!(account.storage.len(), 1);
}

#[test]
fn reset_storage_clears_before_it_writes() {
    let mut b = empty_backend();
    b.apply(vec![modify(addr(1), 5, vec![(w(1), w(11)), (w(2), w(22))], false)], Vec::new(), false);
    b.apply(vec![modify(addr(1), 6, vec![(w(3), w(33))], true)], Vec::new(), false);
    assert_eq!(b.storage(addr(1), w(1)), Word::zero());
    assert_eq!(b.storage(addr(1), w(2)), Word::zero());
    assert_eq!(b.storage(addr(1), w(3)), w(33));
    assert_eq!(b.basic(addr(1)).balance, w(6));
}

#[test]
fn modify_clears_zero_slots_that_were_there() {
    let mut storage = Table::new();
    storage.insert(w(1), w(0));
    storage.insert(w(2), w(5));
    let mut state = Table::new();
    state.insert(addr(1), MemoryAccount { nonce: w(1), balance: w(1), storage, code: vec![1] });
    let mut b = MemoryBackend::new(vicinity(1, Vec::new()), state);
    b.apply(vec![modify(addr(1), 1, Vec::new(), false)], Vec::new(), false);
    let account = b.state().get(&addr(1)).unwrap();
    assert!(!account.storage.contains_key(&w(1)));
    assert!(account.storage.contains_key(&w(2)));
    assert_eq!(account.code, vec![1]);
}

#[test]
fn code_is_replaced_only_when_given() {
    let mut b = empty_backend();
    b.apply(
        vec![Apply::Modify {
            address: addr(2),
            basic: Basic { balance: w(0), nonce: w(0) },
            code: Some(vec![0x60, 0x00]),
            storage: Vec::new(),
            reset_storage: false,
        }],
        Vec::new(),
        true,
    );
    assert!(b.account_exists(addr(2)));
    assert_eq!(b.code(addr(2)), vec![0x60, 0x00]);
    assert_eq!(b.code_size(addr(2)), 2);
    assert_eq!(b.code_hash(addr(2)), keccak_word(&[0x60, 0x00]));
    b.apply(vec![modify(addr(2), 9, Vec::new(), false)], Vec::new(), true);
    assert_eq!(b.code(addr(2)), vec![0x60, 0x00]);
    assert_eq!(b.basic(addr(2)), Basic { balance: w(9), nonce: w(1) });
}

#[test]
fn blank_account_is_removed_only_when_asked() {
    let blank = || Apply::Modify {
        address: addr(3),
        basic: Basic { balance: w(0), nonce: w(0) },
        code: None,
        storage: vec![(w(1), w(1))],
        reset_storage: false,
    };
    let mut b = empty_backend();
    b.apply(vec![blank()], Vec::new(), false);
    assert!(b.account_exists(addr(3)));
    assert_eq!(b.storage(addr(3), w(1)), w(1));
    b.apply(vec![blank()], Vec::new(), true);
    assert!(!b.account_exists(addr(3)));
    assert_eq!(b.storage(addr(3), w(1)), Word::zero());
}

#[test]
fn delete_removes_the_account() {
    let mut b = empty_backend();
    b.apply(
        vec![
            modify(addr(1), 5, vec![(w(1), w(11))], false),
            modify(addr(2), 6, Vec::new(), false),
            Apply::Delete { address: addr(1) },
            Apply::Delete { address: addr(9) },
        ],
        Vec::new(),
        false,
    );
    assert!(!b.account_exists(addr(1)));
    assert!(b.account_exists(addr(2)));
    assert_eq!(b.state().len(), 1);
}

#[test]
fn logs_are_appended_in_order() {
    let mut b = empty_backend();
    let log = |n: u64| Log { address: addr(n), topics: vec![w(n)], data: vec![n as u8] };
    b.apply(Vec::new(), vec![log(1), log(2)], false);
    b.apply(Vec::new(), vec![log(3)], false);
    assert_eq!(b.logs(), &vec![log(1), log(2), log(3)]);
}

#[test]
fn table_keeps_one_value_per_key() {
    let mut t: Table<Word, Word> = Table::new();
    assert_eq!(t.len(), 0);
    t.insert(w(1), w(10));
    t.insert(w(2), w(20));
    t.insert(w(1), w(11));
    assert_eq!(t.len(), 2);
    assert_eq!(t.get(&w(1)), Some(&w(11)));
    assert_eq!(t.get(&w(3)), None);
    assert_eq!(t.remove(&w(1)), Some(w(11)));
    assert_eq!(t.remove(&w(1)), None);
    assert!(!t.contains_key(&w(1)));
    assert_eq!(t.entry(0), &(w(2), w(20)));
    t.insert(w(4), w(0));
    t.remove_zeros();
    assert_eq!(t.len(), 1);
    assert!(t.contains_key(&w(2)));
}

#[test]
fn accounts_are_equal_by_what_they_hold() {
    let account = |order: &[(u64, u64)], code: Vec<u8>| {
        let mut storage = Table::new();
        for (k, v) in order {
            storage.insert(w(*k), w(*v));
        }
        MemoryAccount { nonce: w(1), balance: w(2), storage, code }
    };
    let a = account(&[(1, 10), (2, 20)], vec![1, 2]);
    let b = account(&[(2, 20), (1, 10)], vec![1, 2]);
    assert!(a == b);
    assert_eq!(a, a.clone());
    assert!(a != account(&[(1, 10)], vec![1, 2]));
    assert!(a != account(&[(1, 10), (2, 21)], vec![1, 2]));
    assert!(a != account(&[(1, 10), (2, 20), (3, 30)], vec![1, 2]));
    assert!(a != account(&[(1, 10), (2, 20)], vec![1, 3]));
    assert!(a != account(&[(1, 10), (2, 20)], vec![1]));
    assert!(a.storage.same_as(&b.storage));
    assert!(MemoryAccount::default() != account(&[], Vec::new()));
    assert!(MemoryAccount::default() == MemoryAccount { nonce: w(0), balance: w(0), storage: Table::new(), code: Vec::new() });
}

#[test]
fn clones_say_the_same_and_live_apart() {
    let log = Log { address: addr(1), topics: vec![w(2), w(3)], data: vec![4, 5] };
    assert_eq!(log.clone(), log);
    let v = vicinity(10, vec![w(1), w(2)]);
    assert_eq!((*v).clone(), *v);
    let change = modify(addr(1), 5, vec![(w(1), w(11))], false);
    let mut first = empty_backend();
    first.apply(vec![change.clone(), change], vec![log.clone()], false);
    let mut second = first.clone();
    assert_eq!(second.storage(addr(1), w(1)), w(11));
    assert_eq!(second.basic(addr(1)), first.basic(addr(1)));
    assert_eq!(second.logs(), first.logs());
    assert_eq!(second.block_number(), first.block_number());
    second.apply(vec![Apply::Delete { address: addr(1) }], vec![log], false);
    assert!(first.account_exists(addr(1)));
    assert!(!second.account_exists(addr(1)));
    assert_eq!(first.logs().len(), 1);
    assert_eq!(second.logs().len(), 2);
    let t = first.state().clone();
    assert_eq!(t.len(), 1);
    assert_eq!(t.get(&addr(1)), first.state().get(&addr(1)));
}
