//! The read-only collaborators of the engine: the chain backend, which
//! resolves headers, enumerates the current leaves and reports the best-known
//! block number, and the runtime query interface consulted only at genesis.

use std::collections::HashMap;

use vstd::prelude::*;

use crate::types::{Header, HeaderModel};

verus! {

broadcast use vstd::std_specs::hash::group_hash_axioms;

/// Mathematical view of the chain backend.
pub struct ChainModel {
    pub headers: Map<u64, HeaderModel>,
    pub leaves: Seq<u64>,
    pub best_number: u64,
}

/// Every header the backend holds is keyed by its own hash.
pub open spec fn chain_wf(chain: ChainModel) -> bool {
    forall|h: u64| chain.headers.contains_key(h) ==> (#[trigger] chain.headers[h]).hash == h
}

/// The chain backend, holding headers by hash, the current leaves (tips with
/// no children) and the locally best-known block number.
pub struct ChainBackend {
    headers: HashMap<u64, Header>,
    leaves: Vec<u64>,
    best_number: u64,
}

impl View for ChainBackend {
    type V = ChainModel;

    closed spec fn view(&self) -> ChainModel {
        ChainModel {
            headers: Map::new(
                |h: u64| self.headers@.dom().contains(h),
                |h: u64| self.headers@[h]@,
            ),
            leaves: self.leaves@,
            best_number: self.best_number,
        }
    }
}

impl ChainBackend {
    /// An empty backend that reports the given best-known number.
    pub fn new(best_number: u64) -> (r: ChainBackend)
        ensures
            r@.headers == Map::<u64, HeaderModel>::empty(),
            r@.leaves == Seq::<u64>::empty(),
            r@.best_number == best_number,
            chain_wf(r@),
    {
        let r = ChainBackend { headers: HashMap::new(), leaves: Vec::new(), best_number };
        proof {
            assert(r@.headers =~= Map::<u64, HeaderModel>::empty());
        }
        r
    }

    /// Stores a header under its own hash; keeps the backend well-formed.
    pub fn insert_header(&mut self, header: Header)
        ensures
            final(self)@.headers == old(self)@.headers.insert(header.hash, header@),
            final(self)@.leaves == old(self)@.leaves,
            final(self)@.best_number == old(self)@.best_number,
            chain_wf(old(self)@) ==> chain_wf(final(self)@),
    {
        let ghost key = header.hash;
        let ghost model = header@;
        self.headers.insert(header.hash, header);
        proof {
            assert(self@.headers =~= old(self)@.headers.insert(key, model));
        }
    }

    /// Replaces the set of current leaves.
    pub fn set_leaves(&mut self, leaves: Vec<u64>)
        ensures
            final(self)@.headers == old(self)@.headers,
            final(self)@.leaves == leaves@,
            final(self)@.best_number == old(self)@.best_number,
    {
        self.leaves = leaves;
    }

    /// Looks a header up by hash.
    pub fn header(&self, block_hash: u64) -> (r: Option<&Header>)
        ensures
            match r {
                Some(h) => self@.headers.contains_key(block_hash) && h@ == self@.headers[
                    block_hash
                ],
                None => !self@.headers.contains_key(block_hash),
            },
    {
        self.headers.get(&block_hash)
    }

    /// The current leaves of the chain.
    pub fn leaves(&self) -> (r: Vec<u64>)
        ensures
            r@ == self@.leaves,
    {
        let r = self.leaves.clone();
        proof {
            assert(r@ =~= self.leaves@);
        }
        r
    }

    /// The locally best-known block number.
    pub fn best_known_number(&self) -> (r: u64)
        ensures
            r == self@.best_number,
    {
        self.best_number
    }
}

/// The runtime query interface, consulted only for the genesis block: whether
/// the secondary-chain API is present at genesis and, if so, the secondary
/// chain's genesis block hash.
#[derive(Clone, Copy, Debug, PartialEq, Eq, Structural)]
pub struct RuntimeInfo {
    /// Version of the secondary-chain runtime API at genesis, if present.
    pub api_version: Option<u32>,
    /// The secondary chain's genesis block hash, as the runtime reports it.
    pub ethereum_genesis_hash: Option<u64>,
}

impl RuntimeInfo {
    /// Version of the secondary-chain runtime API at genesis, if present.
    pub fn api_version(&self) -> (r: Option<u32>)
        ensures
            r == self.api_version,
    {
        self.api_version
    }

    /// The secondary chain's genesis block hash, as the runtime reports it.
    pub fn current_block_hash(&self) -> (r: Option<u64>)
        ensures
            r == self.ethereum_genesis_hash,
    {
        self.ethereum_genesis_hash
    }
}

} // verus!
