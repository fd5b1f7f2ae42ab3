//! The block and transaction records as the endpoints serve them, and the
//! canonical record that fuses a block with its transactions.
use crate::result::Error;
use vstd::prelude::*;

verus! {

/// One tag of a block or transaction: base64url name and value.
#[derive(Clone, Debug, PartialEq, Eq)]
pub struct Tag {
    pub name: String,
    pub value: String,
}

/// The proof of access of a block (blocks after v2.4 only).
#[derive(Clone, Debug, PartialEq, Eq)]
pub struct Poa {
    pub option: String,
    pub tx_path: String,
    pub data_path: String,
    pub chunk: String,
}

/// An Arweave block as decoded from an endpoint.
///
/// The big-integer fields (`diff`, `reward_pool`, `weave_size`,
/// `block_size`, `cumulative_diff`) hold decimal text, whichever JSON form
/// they arrived in. `txs` holds transaction identifiers only.
#[derive(Clone, Debug, PartialEq, Eq)]
pub struct Block {
    pub nonce: String,
    pub previous_block: String,
    pub timestamp: u64,
    pub last_retarget: u64,
    pub diff: String,
    pub height: u64,
    pub hash: String,
    pub indep_hash: String,
    pub txs: Vec<String>,
    pub wallet_list: String,
    pub reward_addr: String,
    pub tags: Vec<Tag>,
    pub reward_pool: String,
    pub weave_size: String,
    pub block_size: String,
    pub cumulative_diff: Option<String>,
    pub hash_list_merkle: Option<String>,
    pub tx_root: Option<String>,
    pub tx_tree: Option<Vec<String>>,
    pub poa: Option<Poa>,
}

/// An Arweave transaction. An absent `format` reads as version 0; an empty
/// `data_root` or `data_size` is absent.
#[derive(Clone, Debug, PartialEq, Eq)]
pub struct Transaction {
    pub format: Option<u32>,
    pub id: String,
    pub last_tx: String,
    pub owner: String,
    pub tags: Vec<Tag>,
    pub target: String,
    pub quantity: String,
    pub data_root: String,
    pub data: String,
    pub data_size: String,
    pub reward: String,
    pub signature: String,
}

/// The canonical record: a block whose transaction identifiers have been
/// replaced by the transactions themselves, in the same order.
#[derive(Clone, Debug, PartialEq, Eq)]
pub struct FirehoseBlock {
    /// Version of this record layout; always 1.
    pub ver: u32,
    pub indep_hash: String,
    pub nonce: String,
    pub previous_block: String,
    pub timestamp: u64,
    pub last_retarget: u64,
    pub diff: String,
    pub height: u64,
    pub hash: String,
    pub tx_root: Option<String>,
    pub txs: Vec<Transaction>,
    pub wallet_list: String,
    pub reward_addr: String,
    pub tags: Vec<Tag>,
    pub reward_pool: String,
    pub weave_size: String,
    pub block_size: String,
    pub cumulative_diff: Option<String>,
    pub hash_list_merkle: Option<String>,
    pub poa: Option<Poa>,
}

/// `fb` is the canonical record of `b` with the transactions `txs`: every
/// field of the block is carried over, the version is 1, and `txs` replaces
/// the identifiers.
pub open spec fn is_canonical_of(fb: FirehoseBlock, b: Block, txs: Seq<Transaction>) -> bool {
    &&& fb.ver == 1
    &&& fb.indep_hash == b.indep_hash
    &&& fb.nonce == b.nonce
    &&& fb.previous_block == b.previous_block
    &&& fb.timestamp == b.timestamp
    &&& fb.last_retarget == b.last_retarget
    &&& fb.diff == b.diff
    &&& fb.height == b.height
    &&& fb.hash == b.hash
    &&& fb.tx_root == b.tx_root
    &&& fb.txs@ == txs
    &&& fb.wallet_list == b.wallet_list
    &&& fb.reward_addr == b.reward_addr
    &&& fb.tags == b.tags
    &&& fb.reward_pool == b.reward_pool
    &&& fb.weave_size == b.weave_size
    &&& fb.block_size == b.block_size
    &&& fb.cumulative_diff == b.cumulative_diff
    &&& fb.hash_list_merkle == b.hash_list_merkle
    &&& fb.poa == b.poa
}

/// The fetched transactions are those that the block names, one for one and
/// in order.
pub open spec fn txs_match(ids: Seq<String>, txs: Seq<Transaction>) -> bool {
    &&& txs.len() == ids.len()
    &&& forall|i: int| 0 <= i < ids.len() ==> (#[trigger] txs[i]).id@ == ids[i]@
}

impl FirehoseBlock {
    /// The canonical record of a block, with no transactions yet: every
    /// field of the block, version 1, and an empty transaction list.
    pub fn from(block: Block) -> (r: FirehoseBlock)
        ensures
            is_canonical_of(r, block, Seq::empty()),
    {
        FirehoseBlock {
            ver: 1,
            indep_hash: block.indep_hash,
            nonce: block.nonce,
            previous_block: block.previous_block,
            timestamp: block.timestamp,
            last_retarget: block.last_retarget,
            diff: block.diff,
            height: block.height,
            hash: block.hash,
            tx_root: block.tx_root,
            txs: Vec::new(),
            wallet_list: block.wallet_list,
            reward_addr: block.reward_addr,
            tags: block.tags,
            reward_pool: block.reward_pool,
            weave_size: block.weave_size,
            block_size: block.block_size,
            cumulative_diff: block.cumulative_diff,
            hash_list_merkle: block.hash_list_merkle,
            poa: block.poa,
        }
    }

    /// Fuses a block with its fetched transactions.
    ///
    /// Succeeds exactly when the transactions are those that the block names,
    /// in order; otherwise no partial block is made.
    pub fn assemble(block: Block, txs: Vec<Transaction>) -> (r: Result<FirehoseBlock, Error>)
        ensures
            txs_match(block.txs@, txs@) ==> (r matches Ok(fb) && is_canonical_of(fb, block, txs@)),
            !txs_match(block.txs@, txs@) ==> r == Err::<FirehoseBlock, Error>(Error::TxMismatch),
    {
        if txs.len() != block.txs.len() {
            return Err(Error::TxMismatch);
        }
        let mut i: usize = 0;
        while i < txs.len()
            invariant
                txs.len() == block.txs.len(),
                i <= txs.len(),
                forall|j: int| 0 <= j < i ==> (#[trigger] txs@[j]).id@ == block.txs@[j]@,
            decreases txs.len() - i,
        {
            if txs[i].id != block.txs[i] {
                return Err(Error::TxMismatch);
            }
            i = i + 1;
        }
        let ghost b = block;
        let ghost t = txs@;
        let mut fb = FirehoseBlock::from(block);
        fb.txs = txs;
        assert(is_canonical_of(fb, b, t));
        Ok(fb)
    }
}

} // verus!
