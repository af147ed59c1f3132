//! The consumer-facing lazy state cache: account, storage and block-hash
//! queries answered from a local overlay first, with a fall back to a remote
//! source on a miss, memoizing what it learns; plus a bulk commit that
//! replaces account records wholesale.
//!
//! The overlay is owned exclusively by the cache. Entries are created on the
//! first miss-then-fetch and never deleted; only `commit` overwrites them.
//! Once a key is in the overlay, every later read returns the cached value
//! without consulting the remote source again (session-scoped consistency).

use vstd::prelude::*;
use sha3::Digest;
use crate::primitives::Address;
use crate::primitives::B256;
use crate::primitives::U256;
use crate::primitives::b256_from_bytes;
use crate::primitives::clone_bytes;
use crate::provider::AccountInfo;
use crate::provider::AccountInfoModel;
use crate::provider::StateError;
use crate::provider::account_result_model;
use crate::store::find_by_address;
use crate::store::find_by_b256;
use crate::store::find_by_u64;
use crate::store::lemma_get_absent;
use crate::store::lemma_get_push;
use crate::store::lemma_get_skip_step;
use crate::store::lemma_get_update;
use crate::store::lemma_unique_push;
use crate::store::lemma_unique_update;
use crate::store::spec_get;
use crate::store::unique_keys;

verus! {

/// The Keccak-256 digest of a byte string: 32 bytes, a function of the input
/// bytes alone.
pub uninterp spec fn keccak_of(data: Seq<u8>) -> Seq<u8>;

/// Relies on sha3's Keccak256: one update over the whole input followed by
/// finalize yields the 32-byte Keccak-256 digest of the input, a function of
/// the input bytes alone.
#[verifier::external_body]
fn keccak256(data: &Vec<u8>) -> (r: Vec<u8>)
    ensures
        r@ == keccak_of(data@),
        r@.len() == 32,
{
    let mut hasher = sha3::Keccak256::new();
    hasher.update(data.as_slice());
    hasher.finalize().to_vec()
}

/// The Keccak-256 digest of the empty byte string, spelled out. It serves as
/// the sentinel hash for block-hash queries beyond the 64-bit range.
pub open spec fn spec_keccak_empty() -> B256 {
    B256 {
        w0: 0xc5d2460186f7233c,
        w1: 0x927e7db2dcc703c0,
        w2: 0xe500b653ca82273b,
        w3: 0x7bfad8045d85a470,
    }
}

/// Builds the sentinel hash: the Keccak-256 digest of the empty byte string.
pub fn keccak_empty() -> (r: B256)
    ensures
        r == spec_keccak_empty(),
{
    B256 {
        w0: 0xc5d2460186f7233c,
        w1: 0x927e7db2dcc703c0,
        w2: 0xe500b653ca82273b,
        w3: 0x7bfad8045d85a470,
    }
}

/// An account as the overlay stores it: what the remote source reported plus
/// the digest of its code, attached when the record was created.
#[derive(Debug)]
pub struct AccountRecord {
    pub balance: U256,
    pub nonce: u64,
    pub code: Vec<u8>,
    pub code_hash: B256,
}

/// The mathematical reading of an `AccountRecord`.
pub ghost struct AccountRecordModel {
    pub balance: U256,
    pub nonce: u64,
    pub code: Seq<u8>,
    pub code_hash: B256,
}

impl View for AccountRecord {
    type V = AccountRecordModel;

    open spec fn view(&self) -> AccountRecordModel {
        AccountRecordModel {
            balance: self.balance,
            nonce: self.nonce,
            code: self.code@,
            code_hash: self.code_hash,
        }
    }
}

impl Clone for AccountRecord {
    /// The copy reads the same as the original.
    fn clone(&self) -> (r: Self)
        ensures
            r@ == self@,
    {
        AccountRecord {
            balance: self.balance,
            nonce: self.nonce,
            code: clone_bytes(&self.code),
            code_hash: self.code_hash,
        }
    }
}

impl AccountRecordModel {
    /// The record's digest is the digest of its own code.
    pub open spec fn hash_consistent(self) -> bool {
        self.code_hash == b256_from_bytes(keccak_of(self.code))
    }
}

/// The record the overlay creates from a fetched account: the fetched fields
/// with the code's digest attached.
pub open spec fn record_of(info: AccountInfoModel) -> AccountRecordModel {
    AccountRecordModel {
        balance: info.balance,
        nonce: info.nonce,
        code: info.code,
        code_hash: b256_from_bytes(keccak_of(info.code)),
    }
}

/// Every record built from a fetched account carries the digest of its own
/// code: the cache derives the digest, it never takes one on faith.
pub proof fn lemma_record_of_hash_consistent(info: AccountInfoModel)
    ensures
        record_of(info).hash_consistent(),
{
}

/// The key of one storage cell: an address together with a 256-bit slot key.
#[derive(Clone, Copy, PartialEq, Eq, Structural, Debug)]
pub struct SlotKey {
    pub address: Address,
    pub key: U256,
}

/// Finds the entry of `v` keyed by the slot `k`, scanning from the front.
fn find_by_slot(v: &Vec<(SlotKey, U256)>, k: SlotKey) -> (r: Option<usize>)
    ensures
        match r {
            Some(i) => i < v@.len() && v@[i as int].0 == k && spec_get(v@, k) == Some(
                v@[i as int].1,
            ),
            None => spec_get(v@, k) is None,
        },
{
    let n = v.len();
    let mut i: usize = 0;
    proof {
        assert(v@.skip(0) =~= v@);
    }
    while i < n
        invariant
            i <= n,
            n == v@.len(),
            spec_get(v@, k) == spec_get(v@.skip(i as int), k),
        decreases n - i,
    {
        proof {
            lemma_get_skip_step(v@, k, i as int);
        }
        if v[i].0 == k {
            return Some(i);
        }
        i = i + 1;
    }
    proof {
        assert(v@.skip(n as int).len() == 0);
    }
    None
}

/// The remote source of ledger state, injected at construction time. The
/// library never sees its transport: the surrounding application implements
/// it over the request bridge, and tests implement it as stubs.
pub trait EthProvider {
    /// Fetches the account at `address`: balance, nonce and code, or `None`
    /// where the ledger has no such account; a failure is a typed error.
    fn get_basic(&self, address: Address) -> Result<Option<AccountInfo>, StateError>;

    /// Fetches the value stored for `address` under `index`, `None` where
    /// the ledger has no stored value there.
    fn get_storage(&self, address: Address, index: U256) -> Result<Option<U256>, StateError>;

    /// Fetches the hash of the block numbered `number`.
    fn get_block_hash(&self, number: U256) -> Result<B256, StateError>;
}

/// Turns a fetched account into the caller's result: a found account becomes
/// a record completed with its code digest; an absent account and a failure
/// pass through unchanged.
pub fn record_from_fetch(fetched: Result<Option<AccountInfo>, StateError>) -> (r: Result<
    Option<AccountRecord>,
    StateError,
>)
    ensures
        match account_result_model(fetched) {
            Ok(Some(m)) => r matches Ok(opt) && opt matches Some(rec) && rec@ == record_of(m),
            Ok(None) => r matches Ok(opt) && opt is None,
            Err(e) => r matches Err(e2) && e2 == e,
        },
{
    match fetched {
        Ok(Some(info)) => {
            let digest = keccak256(&info.code);
            let code_hash = B256::from_bytes(&digest);
            Ok(
                Some(
                    AccountRecord {
                        balance: info.balance,
                        nonce: info.nonce,
                        code: info.code,
                        code_hash,
                    },
                ),
            )
        },
        Ok(None) => Ok(None),
        Err(e) => Err(e),
    }
}

/// Turns a fetched storage value into the caller's result: a slot the ledger
/// holds no value for defaults to zero; a failure passes through unchanged.
pub fn storage_value_of_fetch(fetched: Result<Option<U256>, StateError>) -> (r: Result<
    U256,
    StateError,
>)
    ensures
        match fetched {
            Ok(Some(v)) => r == Ok::<U256, StateError>(v),
            Ok(None) => r == Ok::<U256, StateError>(U256::spec_zero()),
            Err(e) => r == Err::<U256, StateError>(e),
        },
{
    match fetched {
        Ok(Some(v)) => Ok(v),
        Ok(None) => Ok(U256::zero()),
        Err(e) => Err(e),
    }
}

/// The lazy state cache: a local overlay of accounts, storage slots, block
/// hashes and bytecode, and the remote source consulted on a miss.
pub struct ForkDB<P: EthProvider> {
    accounts: Vec<(Address, AccountRecord)>,
    storage: Vec<(SlotKey, U256)>,
    block_hashes: Vec<(u64, B256)>,
    contracts: Vec<(B256, Vec<u8>)>,
    provider: P,
}

impl<P: EthProvider> ForkDB<P> {
    /// No two overlay entries share a key, in any of the four stores.
    pub closed spec fn wf(&self) -> bool {
        &&& unique_keys(self.accounts@)
        &&& unique_keys(self.storage@)
        &&& unique_keys(self.block_hashes@)
        &&& unique_keys(self.contracts@)
    }

    /// The account record the overlay holds for `a`, if any.
    pub closed spec fn cached_account(&self, a: Address) -> Option<AccountRecordModel> {
        match spec_get(self.accounts@, a) {
            Some(rec) => Some(rec@),
            None => None,
        }
    }

    /// The value the overlay holds for the storage cell `(a, k)`, if any.
    /// Absence means "not yet fetched", distinct from a fetched zero.
    pub closed spec fn cached_storage(&self, a: Address, k: U256) -> Option<U256> {
        spec_get(self.storage@, SlotKey { address: a, key: k })
    }

    /// The hash the overlay holds for block number `n`, if any.
    pub closed spec fn cached_block_hash(&self, n: u64) -> Option<B256> {
        spec_get(self.block_hashes@, n)
    }

    /// The bytecode the overlay holds under the digest `h`, if any. Code only
    /// ever arrives bundled with a fetched account record.
    pub closed spec fn cached_code(&self, h: B256) -> Option<Seq<u8>> {
        match spec_get(self.contracts@, h) {
            Some(code) => Some(code@),
            None => None,
        }
    }

    /// Both caches hold the same account records.
    pub open spec fn same_accounts(&self, other: &Self) -> bool {
        forall|a: Address| self.cached_account(a) == other.cached_account(a)
    }

    /// Both caches hold the same storage entries.
    pub open spec fn same_storage(&self, other: &Self) -> bool {
        forall|a: Address, k: U256| self.cached_storage(a, k) == other.cached_storage(a, k)
    }

    /// Both caches hold the same block hashes.
    pub open spec fn same_block_hashes(&self, other: &Self) -> bool {
        forall|n: u64| self.cached_block_hash(n) == other.cached_block_hash(n)
    }

    /// Both caches hold the same bytecode entries.
    pub open spec fn same_code(&self, other: &Self) -> bool {
        forall|h: B256| self.cached_code(h) == other.cached_code(h)
    }

    /// Both caches hold exactly the same overlay entries.
    pub open spec fn same_overlay(&self, other: &Self) -> bool {
        &&& self.same_accounts(other)
        &&& self.same_storage(other)
        &&& self.same_block_hashes(other)
        &&& self.same_code(other)
    }

    /// A fresh cache with an empty overlay around the given remote source.
    pub fn new(provider: P) -> (r: ForkDB<P>)
        ensures
            r.wf(),
            forall|a: Address| r.cached_account(a) is None,
            forall|a: Address, k: U256| r.cached_storage(a, k) is None,
            forall|n: u64| r.cached_block_hash(n) is None,
            forall|h: B256| r.cached_code(h) is None,
    {
        ForkDB {
            accounts: Vec::new(),
            storage: Vec::new(),
            block_hashes: Vec::new(),
            contracts: Vec::new(),
            provider,
        }
    }

    /// Replaces or inserts the record for one address, touching nothing else.
    fn upsert_account(&mut self, address: Address, rec: AccountRecord)
        requires
            old(self).wf(),
        ensures
            final(self).wf(),
            final(self).cached_account(address) == Some(rec@),
            forall|b: Address|
                b != address ==> final(self).cached_account(b) == old(self).cached_account(b),
            final(self).same_storage(old(self)),
            final(self).same_block_hashes(old(self)),
            final(self).same_code(old(self)),
    {
        let ghost s0 = self.accounts@;
        let ghost entry = (address, rec);
        match find_by_address(&self.accounts, address) {
            Some(i) => {
                self.accounts.set(i, (address, rec));
                proof {
                    assert(self.accounts@ == s0.update(i as int, entry));
                    lemma_unique_update(s0, i as int, address, entry.1);
                    lemma_get_update(s0, i as int, address, entry.1, address);
                    assert forall|b: Address| b != address implies self.cached_account(b) == old(self).cached_account(b) by {
                        lemma_get_update(s0, i as int, address, entry.1, b);
                    }
                }
            },
            None => {
                self.accounts.push((address, rec));
                proof {
                    assert(self.accounts@ == s0.push(entry));
                    lemma_unique_push(s0, address, entry.1);
                    lemma_get_push(s0, address, entry.1, address);
                    assert forall|b: Address| b != address implies self.cached_account(b) == old(self).cached_account(b) by {
                        lemma_get_push(s0, address, entry.1, b);
                    }
                }
            },
        }
    }

    /// Replaces or inserts the bytecode under one digest, touching nothing
    /// else.
    fn upsert_code(&mut self, hash: B256, code: Vec<u8>)
        requires
            old(self).wf(),
        ensures
            final(self).wf(),
            final(self).cached_code(hash) == Some(code@),
            forall|h: B256| h != hash ==> final(self).cached_code(h) == old(self).cached_code(h),
            final(self).same_accounts(old(self)),
            final(self).same_storage(old(self)),
            final(self).same_block_hashes(old(self)),
    {
        let ghost s0 = self.contracts@;
        let ghost entry = (hash, code);
        match find_by_b256(&self.contracts, hash) {
            Some(i) => {
                self.contracts.set(i, (hash, code));
                proof {
                    assert(self.contracts@ == s0.update(i as int, entry));
                    lemma_unique_update(s0, i as int, hash, entry.1);
                    lemma_get_update(s0, i as int, hash, entry.1, hash);
                    assert forall|h: B256| h != hash implies self.cached_code(h) == old(self).cached_code(h) by {
                        lemma_get_update(s0, i as int, hash, entry.1, h);
                    }
                }
            },
            None => {
                self.contracts.push((hash, code));
                proof {
                    assert(self.contracts@ == s0.push(entry));
                    lemma_unique_push(s0, hash, entry.1);
                    lemma_get_push(s0, hash, entry.1, hash);
                    assert forall|h: B256| h != hash implies self.cached_code(h) == old(self).cached_code(h) by {
                        lemma_get_push(s0, hash, entry.1, h);
                    }
                }
            },
        }
    }

    /// Replaces or inserts the value of one storage cell, touching nothing
    /// else.
    fn upsert_slot(&mut self, slot: SlotKey, value: U256)
        requires
            old(self).wf(),
        ensures
            final(self).wf(),
            final(self).cached_storage(slot.address, slot.key) == Some(value),
            forall|a: Address, k: U256|
                !(a == slot.address && k == slot.key) ==> final(self).cached_storage(a, k) == old(self).cached_storage(a, k),
            final(self).same_accounts(old(self)),
            final(self).same_block_hashes(old(self)),
            final(self).same_code(old(self)),
    {
        let ghost s0 = self.storage@;
        match find_by_slot(&self.storage, slot) {
            Some(i) => {
                self.storage.set(i, (slot, value));
                proof {
                    assert(self.storage@ == s0.update(i as int, (slot, value)));
                    lemma_unique_update(s0, i as int, slot, value);
                    lemma_get_update(s0, i as int, slot, value, slot);
                    assert forall|a: Address, k: U256|
                        !(a == slot.address && k == slot.key) implies self.cached_storage(a, k)
                        == old(self).cached_storage(a, k) by {
                        lemma_get_update(s0, i as int, slot, value, SlotKey { address: a, key: k });
                    }
                }
            },
            None => {
                self.storage.push((slot, value));
                proof {
                    assert(self.storage@ == s0.push((slot, value)));
                    lemma_unique_push(s0, slot, value);
                    lemma_get_push(s0, slot, value, slot);
                    assert forall|a: Address, k: U256|
                        !(a == slot.address && k == slot.key) implies self.cached_storage(a, k)
                        == old(self).cached_storage(a, k) by {
                        lemma_get_push(s0, slot, value, SlotKey { address: a, key: k });
                    }
                }
            },
        }
    }

    /// Replaces or inserts the hash of one block number, touching nothing
    /// else.
    fn upsert_block_hash(&mut self, number: u64, hash: B256)
        requires
            old(self).wf(),
        ensures
            final(self).wf(),
            final(self).cached_block_hash(number) == Some(hash),
            forall|n: u64|
                n != number ==> final(self).cached_block_hash(n) == old(self).cached_block_hash(n),
            final(self).same_accounts(old(self)),
            final(self).same_storage(old(self)),
            final(self).same_code(old(self)),
    {
        let ghost s0 = self.block_hashes@;
        match find_by_u64(&self.block_hashes, number) {
            Some(i) => {
                self.block_hashes.set(i, (number, hash));
                proof {
                    assert(self.block_hashes@ == s0.update(i as int, (number, hash)));
                    lemma_unique_update(s0, i as int, number, hash);
                    lemma_get_update(s0, i as int, number, hash, number);
                    assert forall|n: u64| n != number implies self.cached_block_hash(n) == old(self).cached_block_hash(n) by {
                        lemma_get_update(s0, i as int, number, hash, n);
                    }
                }
            },
            None => {
                self.block_hashes.push((number, hash));
                proof {
                    assert(self.block_hashes@ == s0.push((number, hash)));
                    lemma_unique_push(s0, number, hash);
                    lemma_get_push(s0, number, hash, number);
                    assert forall|n: u64| n != number implies self.cached_block_hash(n) == old(self).cached_block_hash(n) by {
                        lemma_get_push(s0, number, hash, n);
                    }
                }
            },
        }
    }
}

impl<P: EthProvider> ForkDB<P> {
    /// Returns the account at `address`, cache first: a record already in the
    /// overlay is returned as it is, with nothing consulted and nothing
    /// changed. On a miss the remote source is asked and a found record is
    /// memoized (with its code also cached under the code's digest) before it
    /// is returned; an absent account is not cached, so a later query asks
    /// the remote source again; a failure is surfaced unchanged and changes
    /// nothing.
    pub fn basic(&mut self, address: Address) -> (r: Result<Option<AccountRecord>, StateError>)
        requires
            old(self).wf(),
        ensures
            final(self).wf(),
            r matches Ok(Some(rec)) ==> final(self).cached_account(address) == Some(rec@),
            old(self).cached_account(address) matches Some(m) ==> r matches Ok(opt) && opt
                matches Some(rec) && rec@ == m && final(self).same_overlay(old(self)),
            old(self).cached_account(address) is None ==> match r {
                Ok(Some(rec)) => {
                    &&& rec@.hash_consistent()
                    &&& final(self).cached_account(address) == Some(rec@)
                    &&& forall|b: Address|
                        b != address ==> final(self).cached_account(b) == old(self).cached_account(
                            b,
                        )
                    &&& final(self).cached_code(rec@.code_hash) == Some(rec@.code)
                    &&& forall|h: B256|
                        h != rec@.code_hash ==> final(self).cached_code(h) == old(self).cached_code(
                            h,
                        )
                    &&& final(self).same_storage(old(self))
                    &&& final(self).same_block_hashes(old(self))
                },
                Ok(None) => final(self).same_overlay(old(self)),
                Err(_) => final(self).same_overlay(old(self)),
            },
    {
        match find_by_address(&self.accounts, address) {
            Some(i) => Ok(Some(self.accounts[i].1.clone())),
            None => {
                let fetched = self.provider.get_basic(address);
                self.absorb_account_fetch(address, fetched)
            },
        }
    }

    /// Commits what the remote source answered for `address` into the
    /// overlay and shapes the caller's result. For every possible answer: a
    /// found account becomes a record completed with its code digest, stored
    /// under the address and, for the code, under that digest; an absent
    /// account leaves the overlay unchanged (no negative caching); a failure
    /// is returned unchanged and leaves the overlay unchanged.
    pub fn absorb_account_fetch(
        &mut self,
        address: Address,
        fetched: Result<Option<AccountInfo>, StateError>,
    ) -> (r: Result<Option<AccountRecord>, StateError>)
        requires
            old(self).wf(),
        ensures
            final(self).wf(),
            final(self).same_storage(old(self)),
            final(self).same_block_hashes(old(self)),
            match account_result_model(fetched) {
                Ok(Some(m)) => {
                    &&& r matches Ok(opt) && opt matches Some(rec) && rec@ == record_of(m)
                    &&& final(self).cached_account(address) == Some(record_of(m))
                    &&& forall|b: Address|
                        b != address ==> final(self).cached_account(b) == old(self).cached_account(
                            b,
                        )
                    &&& final(self).cached_code(record_of(m).code_hash) == Some(m.code)
                    &&& forall|h: B256|
                        h != record_of(m).code_hash ==> final(self).cached_code(h) == old(self).cached_code(h)
                },
                Ok(None) => r matches Ok(opt) && opt is None && final(self).same_accounts(old(self))
                    && final(self).same_code(old(self)),
                Err(e) => r matches Err(e2) && e2 == e && final(self).same_accounts(old(self))
                    && final(self).same_code(old(self)),
            },
    {
        match record_from_fetch(fetched) {
            Ok(Some(rec)) => {
                let stored = rec.clone();
                let code_copy = clone_bytes(&rec.code);
                self.upsert_account(address, stored);
                self.upsert_code(rec.code_hash, code_copy);
                Ok(Some(rec))
            },
            Ok(None) => Ok(None),
            Err(e) => Err(e),
        }
    }

    /// Returns the value of the storage cell `(address, index)`, cache first:
    /// a cell already resolved in the overlay is returned as it is, with
    /// nothing consulted and nothing changed. On a miss the remote source is
    /// asked; a cell the ledger holds no value for defaults to zero, and the
    /// resolved value, the zero default included, is memoized before it is
    /// returned; a failure is surfaced unchanged and changes nothing.
    pub fn storage(&mut self, address: Address, index: U256) -> (r: Result<U256, StateError>)
        requires
            old(self).wf(),
        ensures
            final(self).wf(),
            r matches Ok(v) ==> final(self).cached_storage(address, index) == Some(v),
            old(self).cached_storage(address, index) matches Some(v) ==> r == Ok::<
                U256,
                StateError,
            >(v) && final(self).same_overlay(old(self)),
            old(self).cached_storage(address, index) is None ==> match r {
                Ok(v) => {
                    &&& final(self).cached_storage(address, index) == Some(v)
                    &&& forall|a: Address, k: U256|
                        !(a == address && k == index) ==> final(self).cached_storage(a, k) == old(self).cached_storage(a, k)
                    &&& final(self).same_accounts(old(self))
                    &&& final(self).same_block_hashes(old(self))
                    &&& final(self).same_code(old(self))
                },
                Err(_) => final(self).same_overlay(old(self)),
            },
    {
        let slot = SlotKey { address, key: index };
        match find_by_slot(&self.storage, slot) {
            Some(i) => Ok(self.storage[i].1),
            None => {
                let fetched = self.provider.get_storage(address, index);
                self.absorb_storage_fetch(address, index, fetched)
            },
        }
    }

    /// Commits what the remote source answered for the storage cell
    /// `(address, index)` into the overlay and shapes the caller's result.
    /// For every possible answer: a value found is memoized and returned; a
    /// cell without a stored value resolves to zero, and that zero is
    /// memoized too; a failure is returned unchanged and leaves the overlay
    /// unchanged.
    pub fn absorb_storage_fetch(
        &mut self,
        address: Address,
        index: U256,
        fetched: Result<Option<U256>, StateError>,
    ) -> (r: Result<U256, StateError>)
        requires
            old(self).wf(),
        ensures
            final(self).wf(),
            final(self).same_accounts(old(self)),
            final(self).same_block_hashes(old(self)),
            final(self).same_code(old(self)),
            match fetched {
                Ok(Some(v)) => r == Ok::<U256, StateError>(v),
                Ok(None) => r == Ok::<U256, StateError>(U256::spec_zero()),
                Err(e) => r == Err::<U256, StateError>(e),
            },
            match r {
                Ok(v) => {
                    &&& final(self).cached_storage(address, index) == Some(v)
                    &&& forall|a: Address, k: U256|
                        !(a == address && k == index) ==> final(self).cached_storage(a, k) == old(self).cached_storage(a, k)
                },
                Err(_) => final(self).same_storage(old(self)),
            },
    {
        let r = storage_value_of_fetch(fetched);
        if let Ok(v) = r {
            self.upsert_slot(SlotKey { address, key: index }, v);
        }
        r
    }

    /// Returns the hash of the block numbered `number`, cache first. A
    /// number beyond the 64-bit range is answered at once with the sentinel
    /// hash, the digest of the empty byte string, with nothing consulted and
    /// nothing cached. Otherwise a hash already in the overlay is returned as
    /// it is; on a miss the remote source is asked and the hash memoized; a
    /// failure is surfaced unchanged and changes nothing.
    pub fn block_hash(&mut self, number: U256) -> (r: Result<B256, StateError>)
        requires
            old(self).wf(),
        ensures
            final(self).wf(),
            number.spec_fits_u64() ==> (r matches Ok(h) ==> final(self).cached_block_hash(
                number.w3,
            ) == Some(h)),
            !number.spec_fits_u64() ==> r == Ok::<B256, StateError>(spec_keccak_empty()) && final(self).same_overlay(old(self)),
            number.spec_fits_u64() ==> (old(self).cached_block_hash(number.w3) matches Some(h) ==> r
                == Ok::<B256, StateError>(h) && final(self).same_overlay(old(self))),
            number.spec_fits_u64() && old(self).cached_block_hash(number.w3) is None ==> match r {
                Ok(h) => {
                    &&& final(self).cached_block_hash(number.w3) == Some(h)
                    &&& forall|n: u64|
                        n != number.w3 ==> final(self).cached_block_hash(n) == old(self).cached_block_hash(n)
                    &&& final(self).same_accounts(old(self))
                    &&& final(self).same_storage(old(self))
                    &&& final(self).same_code(old(self))
                },
                Err(_) => final(self).same_overlay(old(self)),
            },
    {
        if !number.fits_u64() {
            return Ok(keccak_empty());
        }
        let n = number.to_u64();
        match find_by_u64(&self.block_hashes, n) {
            Some(i) => Ok(self.block_hashes[i].1),
            None => {
                let fetched = self.provider.get_block_hash(number);
                self.absorb_block_hash_fetch(n, fetched)
            },
        }
    }

    /// Commits what the remote source answered for block number `number`
    /// into the overlay and shapes the caller's result: a hash found is
    /// memoized and returned; a failure is returned unchanged and leaves the
    /// overlay unchanged.
    pub fn absorb_block_hash_fetch(&mut self, number: u64, fetched: Result<B256, StateError>) -> (r:
        Result<B256, StateError>)
        requires
            old(self).wf(),
        ensures
            final(self).wf(),
            final(self).same_accounts(old(self)),
            final(self).same_storage(old(self)),
            final(self).same_code(old(self)),
            r == fetched,
            match fetched {
                Ok(h) => {
                    &&& final(self).cached_block_hash(number) == Some(h)
                    &&& forall|n: u64|
                        n != number ==> final(self).cached_block_hash(n) == old(self).cached_block_hash(n)
                },
                Err(_) => final(self).same_block_hashes(old(self)),
            },
    {
        if let Ok(h) = fetched {
            self.upsert_block_hash(number, h);
        }
        fetched
    }

    /// Returns locally cached bytecode by its digest. Code only ever arrives
    /// bundled with account data; a digest with no local entry fails with
    /// `CodeNotFound`, and the remote source is never consulted for code.
    pub fn code_by_hash(&mut self, code_hash: B256) -> (r: Result<Vec<u8>, StateError>)
        requires
            old(self).wf(),
        ensures
            final(self).wf(),
            final(self).same_overlay(old(self)),
            match old(self).cached_code(code_hash) {
                Some(c) => r matches Ok(v) && v@ == c,
                None => r matches Err(e) && e == StateError::CodeNotFound,
            },
    {
        match find_by_b256(&self.contracts, code_hash) {
            Some(i) => Ok(clone_bytes(&self.contracts[i].1)),
            None => Err(StateError::CodeNotFound),
        }
    }

    /// Returns the account at `address` without memoizing: a record already
    /// in the overlay is returned as it is; on a miss the remote source's
    /// answer is returned (completed with its code digest) but not stored, so
    /// a later query asks again.
    pub fn basic_ref(&self, address: Address) -> (r: Result<Option<AccountRecord>, StateError>)
        requires
            self.wf(),
        ensures
            self.cached_account(address) matches Some(m) ==> r matches Ok(opt) && opt
                matches Some(rec) && rec@ == m,
            self.cached_account(address) is None ==> match r {
                Ok(Some(rec)) => rec@.hash_consistent(),
                Ok(None) => true,
                Err(_) => true,
            },
    {
        match find_by_address(&self.accounts, address) {
            Some(i) => Ok(Some(self.accounts[i].1.clone())),
            None => record_from_fetch(self.provider.get_basic(address)),
        }
    }

    /// Returns the value of the storage cell `(address, index)` without
    /// memoizing: a cell already resolved in the overlay is returned as it
    /// is; on a miss the remote source's answer is returned with the zero
    /// default, but not stored.
    pub fn storage_ref(&self, address: Address, index: U256) -> (r: Result<U256, StateError>)
        requires
            self.wf(),
        ensures
            self.cached_storage(address, index) matches Some(v) ==> r == Ok::<U256, StateError>(v),
    {
        let slot = SlotKey { address, key: index };
        match find_by_slot(&self.storage, slot) {
            Some(i) => Ok(self.storage[i].1),
            None => storage_value_of_fetch(self.provider.get_storage(address, index)),
        }
    }

    /// Returns the hash of the block numbered `number` without touching the
    /// overlay: a number beyond the 64-bit range is answered with the
    /// sentinel hash and the remote source is not consulted; any other
    /// number's answer is passed through from the remote source unchanged.
    pub fn block_hash_ref(&self, number: U256) -> (r: Result<B256, StateError>)
        ensures
            !number.spec_fits_u64() ==> r == Ok::<B256, StateError>(spec_keccak_empty()),
    {
        if !number.fits_u64() {
            return Ok(keccak_empty());
        }
        self.provider.get_block_hash(number)
    }

    /// Always fails with `CodeNotFound`: the borrowed read path never serves
    /// bytecode, and code is never fetched from the remote source by its
    /// digest.
    pub fn code_by_hash_ref(&self, _code_hash: B256) -> (r: Result<Vec<u8>, StateError>)
        ensures
            r matches Err(e) && e == StateError::CodeNotFound,
    {
        Err(StateError::CodeNotFound)
    }

    /// Applies a batch of post-execution account states: the record of every
    /// address present in `changes` is replaced or inserted wholesale;
    /// accounts outside the batch, storage cells, block hashes and cached
    /// code are not touched.
    pub fn commit(&mut self, changes: Vec<(Address, AccountRecord)>)
        requires
            old(self).wf(),
            unique_keys(changes@),
        ensures
            final(self).wf(),
            forall|a: Address|
                final(self).cached_account(a) == match spec_get(changes@, a) {
                    Some(rec) => Some(rec@),
                    None => old(self).cached_account(a),
                },
            final(self).same_storage(old(self)),
            final(self).same_block_hashes(old(self)),
            final(self).same_code(old(self)),
    {
        let n = changes.len();
        let mut j: usize = 0;
        proof {
            assert(changes@.take(0) =~= Seq::<(Address, AccountRecord)>::empty());
        }
        while j < n
            invariant
                j <= n,
                n == changes@.len(),
                self.wf(),
                unique_keys(changes@),
                forall|a: Address|
                    self.cached_account(a) == match spec_get(changes@.take(j as int), a) {
                        Some(rec) => Some(rec@),
                        None => old(self).cached_account(a),
                    },
                self.same_storage(old(self)),
                self.same_block_hashes(old(self)),
                self.same_code(old(self)),
            decreases n - j,
        {
            let ghost pre = *self;
            let ghost taken = changes@.take(j as int);
            let ghost k = changes@[j as int].0;
            proof {
                lemma_get_absent(taken, k);
                assert forall|i: int| 0 <= i < taken.len() implies taken[i].0 != k by {
                    assert(taken[i] == changes@[i]);
                }
                assert(changes@.take(j as int + 1) =~= taken.push(changes@[j as int]));
            }
            let address = changes[j].0;
            let rec = changes[j].1.clone();
            self.upsert_account(address, rec);
            proof {
                assert forall|a: Address| self.cached_account(a) == match spec_get(
                    changes@.take(j as int + 1),
                    a,
                ) {
                    Some(rec2) => Some(rec2@),
                    None => old(self).cached_account(a),
                } by {
                    lemma_get_push(taken, k, changes@[j as int].1, a);
                }
            }
            j = j + 1;
        }
        proof {
            assert(changes@.take(n as int) =~= changes@);
        }
    }
}

} // verus!
