//! The logic of the request bridge: the actor that owns the only path to the
//! remote source and serves synchronous callers over message passing.
//!
//! The worker's decisions live here as verified functions from state and
//! request to the next state and reply; the channel and runtime plumbing that
//! carries requests to the worker and replies back is ordinary unverified
//! code around the library. The worker keeps a second-level cache of fetched
//! accounts: once an account has been fetched it is answered from that cache
//! for the worker's whole lifetime. Storage and block-hash requests are never
//! cached at this layer.

use vstd::prelude::*;
use crate::primitives::Address;
use crate::primitives::B256;
use crate::primitives::U256;
use crate::primitives::clone_bytes;
use crate::store::find_by_address;
use crate::store::lemma_get_push;
use crate::store::lemma_get_update;
use crate::store::lemma_unique_push;
use crate::store::lemma_unique_update;
use crate::store::spec_get;
use crate::store::unique_keys;

verus! {

/// An account as the remote source reports it: balance, nonce and contract
/// code. The code's digest is attached later, by the consumer-facing cache.
#[derive(Debug)]
pub struct AccountInfo {
    pub balance: U256,
    pub nonce: u64,
    pub code: Vec<u8>,
}

/// The mathematical reading of an `AccountInfo`.
pub ghost struct AccountInfoModel {
    pub balance: U256,
    pub nonce: u64,
    pub code: Seq<u8>,
}

impl View for AccountInfo {
    type V = AccountInfoModel;

    open spec fn view(&self) -> AccountInfoModel {
        AccountInfoModel { balance: self.balance, nonce: self.nonce, code: self.code@ }
    }
}

impl Clone for AccountInfo {
    /// The copy reads the same as the original.
    fn clone(&self) -> (r: Self)
        ensures
            r@ == self@,
    {
        AccountInfo { balance: self.balance, nonce: self.nonce, code: clone_bytes(&self.code) }
    }
}

/// A typed failure surfaced to a caller; none is ever swallowed or retried.
#[derive(Clone, Copy, PartialEq, Eq, Structural, Debug)]
pub enum StateError {
    /// The remote source could not complete the request.
    Transport,
    /// The queried code hash has no locally cached bytecode.
    CodeNotFound,
    /// The bridge worker has stopped; no reply will come.
    BackendUnavailable,
}

/// A query submitted to the bridge worker.
#[derive(Clone, Copy, PartialEq, Eq, Structural, Debug)]
pub enum BackendRequest {
    GetAccount(Address),
    GetStorageAt(Address, U256),
    GetBlockHash(U256),
}

/// The worker's reply to one request; each request gets exactly one reply,
/// of the matching variant.
#[derive(Debug)]
pub enum BackendResponse {
    Account(Result<Option<AccountInfo>, StateError>),
    Storage(Result<Option<U256>, StateError>),
    BlockHash(Result<B256, StateError>),
}

/// What the worker must do for one dequeued request.
#[derive(Debug)]
pub enum RequestPlan {
    /// Answer at once, without consulting the remote source.
    Reply(BackendResponse),
    /// Fetch the account at the address, then finish with `finish_account`.
    NeedAccount(Address),
    /// Fetch the storage slot, then finish with `storage_response`.
    NeedStorage(Address, U256),
    /// Fetch the block hash, then finish with `block_hash_response`.
    NeedBlockHash(U256),
}

/// The reading of an account result at the model level.
pub open spec fn account_result_model(r: Result<Option<AccountInfo>, StateError>) -> Result<
    Option<AccountInfoModel>,
    StateError,
> {
    match r {
        Ok(Some(info)) => Ok(Some(info@)),
        Ok(None) => Ok(None),
        Err(e) => Err(e),
    }
}

/// The bridge worker's private state: the second-level account cache.
///
/// All mutation happens through the worker's own step functions; callers only
/// ever see it through the message-passing interface around the library.
pub struct WorkerState {
    accounts: Vec<(Address, AccountInfo)>,
}

impl WorkerState {
    /// No two cache entries share an address.
    pub closed spec fn wf(self) -> bool {
        unique_keys(self.accounts@)
    }

    /// The account record the worker has cached for `a`, if any.
    pub closed spec fn cached(self, a: Address) -> Option<AccountInfoModel> {
        match spec_get(self.accounts@, a) {
            Some(info) => Some(info@),
            None => None,
        }
    }

    /// A fresh worker state with an empty second-level cache.
    pub fn new() -> (r: WorkerState)
        ensures
            r.wf(),
            forall|a: Address| r.cached(a) is None,
    {
        WorkerState { accounts: Vec::new() }
    }

    /// Decides one dequeued request: an account already in the second-level
    /// cache is answered at once; everything else must go to the remote
    /// source. Storage and block-hash requests are never answered from this
    /// layer.
    pub fn plan_request(&self, req: &BackendRequest) -> (p: RequestPlan)
        requires
            self.wf(),
        ensures
            match *req {
                BackendRequest::GetAccount(a) => match self.cached(a) {
                    Some(m) => p matches RequestPlan::Reply(resp) && resp
                        matches BackendResponse::Account(res) && account_result_model(res) == Ok::<
                        Option<AccountInfoModel>,
                        StateError,
                    >(Some(m)),
                    None => p == RequestPlan::NeedAccount(a),
                },
                BackendRequest::GetStorageAt(a, k) => p == RequestPlan::NeedStorage(a, k),
                BackendRequest::GetBlockHash(n) => p == RequestPlan::NeedBlockHash(n),
            },
    {
        match req {
            BackendRequest::GetAccount(a) => match find_by_address(&self.accounts, *a) {
                Some(i) => RequestPlan::Reply(
                    BackendResponse::Account(Ok(Some(self.accounts[i].1.clone()))),
                ),
                None => RequestPlan::NeedAccount(*a),
            },
            BackendRequest::GetStorageAt(a, k) => RequestPlan::NeedStorage(*a, *k),
            BackendRequest::GetBlockHash(n) => RequestPlan::NeedBlockHash(*n),
        }
    }

    /// Absorbs what the remote source answered for an account request: a
    /// record found is cached for the worker's lifetime before it is returned;
    /// an absent account or a failure leaves the cache unchanged.
    pub fn finish_account(
        &mut self,
        address: Address,
        fetched: Result<Option<AccountInfo>, StateError>,
    ) -> (resp: BackendResponse)
        requires
            old(self).wf(),
        ensures
            final(self).wf(),
            resp matches BackendResponse::Account(res) && account_result_model(res)
                == account_result_model(fetched),
            match account_result_model(fetched) {
                Ok(Some(m)) => final(self).cached(address) == Some(m) && forall|b: Address|
                    b != address ==> final(self).cached(b) == old(self).cached(b),
                _ => forall|b: Address| final(self).cached(b) == old(self).cached(b),
            },
    {
        match fetched {
            Ok(Some(info)) => {
                let stored = info.clone();
                let ghost s0 = self.accounts@;
                let ghost entry = (address, stored);
                match find_by_address(&self.accounts, address) {
                    Some(i) => {
                        self.accounts.set(i, (address, stored));
                        proof {
                            assert(self.accounts@ == s0.update(i as int, entry));
                            lemma_unique_update(s0, i as int, address, entry.1);
                            lemma_get_update(s0, i as int, address, entry.1, address);
                            assert forall|b: Address| b != address implies self.cached(b) == old(self).cached(b) by {
                                lemma_get_update(s0, i as int, address, entry.1, b);
                            }
                        }
                    },
                    None => {
                        self.accounts.push((address, stored));
                        proof {
                            assert(self.accounts@ == s0.push(entry));
                            lemma_unique_push(s0, address, entry.1);
                            lemma_get_push(s0, address, entry.1, address);
                            assert forall|b: Address| b != address implies self.cached(b) == old(self).cached(b) by {
                                lemma_get_push(s0, address, entry.1, b);
                            }
                        }
                    },
                }
                BackendResponse::Account(Ok(Some(info)))
            },
            Ok(None) => BackendResponse::Account(Ok(None)),
            Err(e) => BackendResponse::Account(Err(e)),
        }
    }
}

/// Wraps what the remote source answered for a storage request as the reply
/// to its caller; nothing is cached at this layer.
pub fn storage_response(fetched: Result<Option<U256>, StateError>) -> (resp: BackendResponse)
    ensures
        resp == BackendResponse::Storage(fetched),
{
    BackendResponse::Storage(fetched)
}

/// Wraps what the remote source answered for a block-hash request as the
/// reply to its caller; nothing is cached at this layer.
pub fn block_hash_response(fetched: Result<B256, StateError>) -> (resp: BackendResponse)
    ensures
        resp == BackendResponse::BlockHash(fetched),
{
    BackendResponse::BlockHash(fetched)
}

/// Reads a reply as the answer to an account request. A reply of any other
/// variant cannot answer the request; it is surfaced as the bridge being
/// unavailable rather than a wrong caller's value.
pub fn account_result(resp: BackendResponse) -> (r: Result<Option<AccountInfo>, StateError>)
    ensures
        match resp {
            BackendResponse::Account(res) => account_result_model(r) == account_result_model(res),
            _ => r == Err::<Option<AccountInfo>, StateError>(StateError::BackendUnavailable),
        },
{
    match resp {
        BackendResponse::Account(res) => res,
        _ => Err(StateError::BackendUnavailable),
    }
}

/// Reads a reply as the answer to a storage request, as `account_result`
/// does for accounts.
pub fn storage_result(resp: BackendResponse) -> (r: Result<Option<U256>, StateError>)
    ensures
        match resp {
            BackendResponse::Storage(res) => r == res,
            _ => r == Err::<Option<U256>, StateError>(StateError::BackendUnavailable),
        },
{
    match resp {
        BackendResponse::Storage(res) => res,
        _ => Err(StateError::BackendUnavailable),
    }
}

/// Reads a reply as the answer to a block-hash request, as `account_result`
/// does for accounts.
pub fn block_hash_result(resp: BackendResponse) -> (r: Result<B256, StateError>)
    ensures
        match resp {
            BackendResponse::BlockHash(res) => r == res,
            _ => r == Err::<B256, StateError>(StateError::BackendUnavailable),
        },
{
    match resp {
        BackendResponse::BlockHash(res) => res,
        _ => Err(StateError::BackendUnavailable),
    }
}

} // verus!
