//! The lazy state cache against counting stub remote sources: cache-first
//! reads, the zero default for storage, the sentinel for out-of-range block
//! numbers, bulk commits, and failure propagation.

use std::cell::Cell;
use std::rc::Rc;

use evm_sim::fork_db::AccountRecord;
use evm_sim::fork_db::EthProvider;
use evm_sim::fork_db::ForkDB;
use evm_sim::fork_db::keccak_empty;
use evm_sim::primitives::Address;
use evm_sim::primitives::B256;
use evm_sim::primitives::U256;
use evm_sim::provider::AccountInfo;
use evm_sim::provider::StateError;

struct StubProvider {
    fetches: Rc<Cell<u32>>,
    account: Option<AccountInfo>,
    storage_value: Result<Option<U256>, StateError>,
    block_hash: Result<B256, StateError>,
    fail_accounts: bool,
}

impl StubProvider {
    fn new() -> (StubProvider, Rc<Cell<u32>>) {
        let fetches = Rc::new(Cell::new(0));
        let stub = StubProvider {
            fetches: fetches.clone(),
            account: None,
            storage_value: Ok(None),
            block_hash: Ok(B256 { w0: 0, w1: 0, w2: 0, w3: 0 }),
            fail_accounts: false,
        };
        (stub, fetches)
    }
}

impl EthProvider for StubProvider {
    fn get_basic(&self, _address: Address) -> Result<Option<AccountInfo>, StateError> {
        self.fetches.set(self.fetches.get() + 1);
        if self.fail_accounts {
            Err(StateError::Transport)
        } else {
            Ok(self.account.clone())
        }
    }

    fn get_storage(&self, _address: Address, _index: U256) -> Result<Option<U256>, StateError> {
        self.fetches.set(self.fetches.get() + 1);
        self.storage_value
    }

    fn get_block_hash(&self, _number: U256) -> Result<B256, StateError> {
        self.fetches.set(self.fetches.get() + 1);
        self.block_hash
    }
}

fn addr(byte: u8) -> Address {
    Address::from_bytes(&vec![byte; 20])
}

fn account(balance: u64, nonce: u64, code: Vec<u8>) -> AccountInfo {
    AccountInfo { balance: U256::from_u64(balance), nonce, code }
}

#[test]
fn cache_first_account() {
    let (mut stub, fetches) = StubProvider::new();
    stub.account = Some(account(7, 1, vec![1, 2, 3]));
    let mut db = ForkDB::new(stub);
    let a = addr(0x11);

    let first = db.basic(a).unwrap().unwrap();
    assert_eq!(fetches.get(), 1);
    assert_eq!(first.balance, U256::from_u64(7));
    assert_eq!(first.nonce, 1);
    assert_eq!(first.code, vec![1, 2, 3]);

    let second = db.basic(a).unwrap().unwrap();
    assert_eq!(fetches.get(), 1, "a cached account must not be fetched again");
    assert_eq!(second.balance, first.balance);
    assert_eq!(second.nonce, first.nonce);
    assert_eq!(second.code, first.code);
    assert_eq!(second.code_hash, first.code_hash);
}

#[test]
fn absent_account_not_cached() {
    let (stub, fetches) = StubProvider::new();
    let mut db = ForkDB::new(stub);
    let a = addr(0x22);

    assert!(db.basic(a).unwrap().is_none());
    assert!(db.basic(a).unwrap().is_none());
    assert_eq!(fetches.get(), 2, "an absent account is re-queried on every miss");
}

#[test]
fn storage_default_zero() {
    let (stub, fetches) = StubProvider::new();
    let mut db = ForkDB::new(stub);
    let a = addr(0x33);
    let k = U256::from_u64(9);

    let v = db.storage(a, k).unwrap();
    assert_eq!(v, U256::zero(), "a slot without a stored value reads as zero");
    assert_eq!(fetches.get(), 1);

    let v2 = db.storage(a, k).unwrap();
    assert_eq!(v2, U256::zero());
    assert_eq!(fetches.get(), 1, "the zero default must be cached too");
}

#[test]
fn storage_cached_value() {
    let (mut stub, fetches) = StubProvider::new();
    stub.storage_value = Ok(Some(U256::from_u64(42)));
    let mut db = ForkDB::new(stub);
    let a = addr(0x44);
    let k = U256::from_u64(1);

    assert_eq!(db.storage(a, k).unwrap(), U256::from_u64(42));
    assert_eq!(db.storage(a, k).unwrap(), U256::from_u64(42));
    assert_eq!(fetches.get(), 1);

    let k2 = U256::from_u64(2);
    assert_eq!(db.storage(a, k2).unwrap(), U256::from_u64(42));
    assert_eq!(fetches.get(), 2, "a different slot is its own cache entry");
}

#[test]
fn block_hash_sentinel() {
    let (stub, fetches) = StubProvider::new();
    let mut db = ForkDB::new(stub);
    let beyond = U256 { w0: 0, w1: 0, w2: 1, w3: 0 };

    let h = db.block_hash(beyond).unwrap();
    assert_eq!(h, keccak_empty());
    assert_eq!(fetches.get(), 0, "an out-of-range number never reaches the remote source");
}

#[test]
fn block_hash_cached() {
    let (mut stub, fetches) = StubProvider::new();
    let hash = B256 { w0: 5, w1: 6, w2: 7, w3: 8 };
    stub.block_hash = Ok(hash);
    let mut db = ForkDB::new(stub);
    let n = U256::from_u64(1234);

    assert_eq!(db.block_hash(n).unwrap(), hash);
    assert_eq!(db.block_hash(n).unwrap(), hash);
    assert_eq!(fetches.get(), 1);
}

#[test]
fn commit_overwrite() {
    let (mut stub, fetches) = StubProvider::new();
    stub.account = Some(account(1000, 2, vec![]));
    let mut db = ForkDB::new(stub);
    let a = addr(0x55);

    let before = db.basic(a).unwrap().unwrap();
    assert_eq!(before.balance, U256::from_u64(1000));
    assert_eq!(fetches.get(), 1);

    let replacement = AccountRecord {
        balance: U256::from_u64(500),
        nonce: 3,
        code: vec![],
        code_hash: keccak_empty(),
    };
    db.commit(vec![(a, replacement)]);

    let after = db.basic(a).unwrap().unwrap();
    assert_eq!(after.balance, U256::from_u64(500));
    assert_eq!(after.nonce, 3);
    assert_eq!(fetches.get(), 1, "a committed record is served without a fetch");
}

#[test]
fn commit_inserts_new_record() {
    let (stub, fetches) = StubProvider::new();
    let mut db = ForkDB::new(stub);
    let a = addr(0x66);
    let rec = AccountRecord {
        balance: U256::from_u64(12),
        nonce: 4,
        code: vec![0xFE],
        code_hash: B256 { w0: 1, w1: 2, w2: 3, w3: 4 },
    };
    db.commit(vec![(a, rec)]);

    let got = db.basic(a).unwrap().unwrap();
    assert_eq!(got.balance, U256::from_u64(12));
    assert_eq!(got.nonce, 4);
    assert_eq!(got.code, vec![0xFE]);
    assert_eq!(fetches.get(), 0);
}

#[test]
fn commit_leaves_other_entries_alone() {
    let (mut stub, fetches) = StubProvider::new();
    stub.account = Some(account(9, 1, vec![]));
    stub.storage_value = Ok(Some(U256::from_u64(77)));
    let mut db = ForkDB::new(stub);
    let a = addr(0x77);
    let b = addr(0x78);
    let k = U256::from_u64(0);

    db.basic(a).unwrap();
    db.storage(a, k).unwrap();
    assert_eq!(fetches.get(), 2);

    let rec = AccountRecord {
        balance: U256::from_u64(1),
        nonce: 1,
        code: vec![],
        code_hash: keccak_empty(),
    };
    db.commit(vec![(b, rec)]);

    let untouched = db.basic(a).unwrap().unwrap();
    assert_eq!(untouched.balance, U256::from_u64(9));
    assert_eq!(db.storage(a, k).unwrap(), U256::from_u64(77));
    assert_eq!(fetches.get(), 2, "a commit must not evict unrelated entries");
}

#[test]
fn transport_failure_surfaces() {
    let (mut stub, fetches) = StubProvider::new();
    stub.fail_accounts = true;
    let mut db = ForkDB::new(stub);
    let a = addr(0x88);

    assert!(matches!(db.basic(a), Err(StateError::Transport)));
    assert!(matches!(db.basic(a), Err(StateError::Transport)));
    assert_eq!(fetches.get(), 2, "a failure is never cached");
}

#[test]
fn storage_failure_surfaces() {
    let (mut stub, _fetches) = StubProvider::new();
    stub.storage_value = Err(StateError::Transport);
    let mut db = ForkDB::new(stub);
    assert!(matches!(db.storage(addr(0x99), U256::zero()), Err(StateError::Transport)));
}

#[test]
fn block_hash_failure_surfaces() {
    let (mut stub, _fetches) = StubProvider::new();
    stub.block_hash = Err(StateError::Transport);
    let mut db = ForkDB::new(stub);
    assert!(matches!(db.block_hash(U256::from_u64(1)), Err(StateError::Transport)));
}

#[test]
fn code_by_hash_serves_fetched_code() {
    let (mut stub, _fetches) = StubProvider::new();
    stub.account = Some(account(1, 1, vec![0x60, 0x0A]));
    let mut db = ForkDB::new(stub);

    let rec = db.basic(addr(0xAB)).unwrap().unwrap();
    let code = db.code_by_hash(rec.code_hash).unwrap();
    assert_eq!(code, vec![0x60, 0x0A]);
}

#[test]
fn code_by_hash_missing_fails() {
    let (stub, fetches) = StubProvider::new();
    let mut db = ForkDB::new(stub);
    let h = B256 { w0: 9, w1: 9, w2: 9, w3: 9 };
    assert!(matches!(db.code_by_hash(h), Err(StateError::CodeNotFound)));
    assert_eq!(fetches.get(), 0, "code is never fetched by hash");
}

#[test]
fn code_by_hash_ref_always_fails() {
    let (mut stub, _fetches) = StubProvider::new();
    stub.account = Some(account(1, 1, vec![0x01]));
    let mut db = ForkDB::new(stub);
    let rec = db.basic(addr(0xAC)).unwrap().unwrap();
    assert!(matches!(db.code_by_hash_ref(rec.code_hash), Err(StateError::CodeNotFound)));
}

#[test]
fn empty_code_hash_is_sentinel() {
    let (mut stub, _fetches) = StubProvider::new();
    stub.account = Some(account(1, 1, vec![]));
    let mut db = ForkDB::new(stub);
    let rec = db.basic(addr(0xAD)).unwrap().unwrap();
    assert_eq!(rec.code_hash, keccak_empty(), "the digest of empty code is the empty digest");
}

#[test]
fn code_hash_is_a_function_of_code() {
    let (mut stub1, _f1) = StubProvider::new();
    stub1.account = Some(account(1, 1, vec![1, 2, 3]));
    let mut db1 = ForkDB::new(stub1);
    let rec1 = db1.basic(addr(0xAE)).unwrap().unwrap();

    let (mut stub2, _f2) = StubProvider::new();
    stub2.account = Some(account(2, 9, vec![1, 2, 3]));
    let mut db2 = ForkDB::new(stub2);
    let rec2 = db2.basic(addr(0xAF)).unwrap().unwrap();

    assert_eq!(rec1.code_hash, rec2.code_hash);
    assert_ne!(rec1.code_hash, keccak_empty());
}

#[test]
fn basic_ref_does_not_memoize() {
    let (mut stub, fetches) = StubProvider::new();
    stub.account = Some(account(3, 1, vec![]));
    let db = ForkDB::new(stub);
    let a = addr(0xBA);

    let rec = db.basic_ref(a).unwrap().unwrap();
    assert_eq!(rec.balance, U256::from_u64(3));
    assert_eq!(fetches.get(), 1);
    let rec2 = db.basic_ref(a).unwrap().unwrap();
    assert_eq!(rec2.balance, U256::from_u64(3));
    assert_eq!(fetches.get(), 2, "the borrowed read path does not store records");
}

#[test]
fn storage_ref_does_not_memoize() {
    let (mut stub, fetches) = StubProvider::new();
    stub.storage_value = Ok(Some(U256::from_u64(5)));
    let mut db = ForkDB::new(stub);
    let a = addr(0xBB);
    let k = U256::from_u64(2);

    assert_eq!(db.storage_ref(a, k).unwrap(), U256::from_u64(5));
    assert_eq!(db.storage_ref(a, k).unwrap(), U256::from_u64(5));
    assert_eq!(fetches.get(), 2, "the borrowed read path does not store values");

    // Once the owning path has resolved the slot, the borrowed path serves
    // the overlay without a fetch.
    db.storage(a, k).unwrap();
    assert_eq!(fetches.get(), 3);
    assert_eq!(db.storage_ref(a, k).unwrap(), U256::from_u64(5));
    assert_eq!(fetches.get(), 3);
}

#[test]
fn block_hash_ref_passes_through() {
    let (mut stub, fetches) = StubProvider::new();
    let hash = B256 { w0: 4, w1: 3, w2: 2, w3: 1 };
    stub.block_hash = Ok(hash);
    let db = ForkDB::new(stub);
    assert_eq!(db.block_hash_ref(U256::from_u64(10)).unwrap(), hash);
    assert_eq!(db.block_hash_ref(U256::from_u64(10)).unwrap(), hash);
    assert_eq!(fetches.get(), 2, "the borrowed read path caches nothing");
}

#[test]
fn block_hash_ref_sentinel() {
    let (stub, fetches) = StubProvider::new();
    let db = ForkDB::new(stub);
    let beyond = U256 { w0: 7, w1: 0, w2: 0, w3: 0 };
    assert_eq!(db.block_hash_ref(beyond).unwrap(), keccak_empty());
    assert_eq!(fetches.get(), 0);
}

#[test]
fn end_to_end_scenario() {
    let (mut stub, fetches) = StubProvider::new();
    stub.account = Some(account(1000, 2, vec![]));
    let mut db = ForkDB::new(stub);
    let a = addr(0xAA);

    let first = db.basic(a).unwrap().unwrap();
    assert_eq!(first.balance, U256::from_u64(1000));
    assert_eq!(first.nonce, 2);
    assert_eq!(first.code, Vec::<u8>::new());

    let second = db.basic(a).unwrap().unwrap();
    assert_eq!(second.balance, U256::from_u64(1000));
    assert_eq!(fetches.get(), 1);

    db.commit(vec![(
        a,
        AccountRecord {
            balance: U256::from_u64(500),
            nonce: 3,
            code: vec![],
            code_hash: keccak_empty(),
        },
    )]);

    let after = db.basic(a).unwrap().unwrap();
    assert_eq!(after.balance, U256::from_u64(500));
    assert_eq!(after.nonce, 3);
    assert_eq!(fetches.get(), 1);
}
