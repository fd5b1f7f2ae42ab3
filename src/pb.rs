//! The wire form of a canonical block: byte fields decoded from base64url,
//! big integers as 32 big-endian bytes.
use crate::bigint::{be_bytes, be_value, big_decimal_spec, decimal_to_be32, lemma_all_ones, lemma_be_bytes_of_value, pow256, BIG_WIDTH};
use crate::result::Error;
use crate::types;
use vstd::prelude::*;

verus! {

#[verifier::external_type_specification]
#[verifier::external_body]
pub struct ExDecodeError(base64_url::base64::DecodeError);

/// What base64url decoding (URL-safe alphabet, no padding) gives for a text.
pub uninterp spec fn base64url_decoded(s: Seq<char>) -> Option<Seq<u8>>;

/// Relies on `base64_url::decode`: it decodes with the URL-safe alphabet and
/// no padding, so the result depends on the text alone, and the empty text
/// decodes to no bytes.
#[verifier::external_body]
pub(crate) fn base64url_decode(s: &str) -> (r: Result<Vec<u8>, base64_url::base64::DecodeError>)
    ensures
        r matches Ok(b) ==> base64url_decoded(s@) == Some(b@),
        r is Err ==> base64url_decoded(s@) is None,
{
    base64_url::decode(s)
}

/// The text that stands for an absent reward address.
pub open spec fn unclaimed() -> Seq<char> {
    seq!['u', 'n', 'c', 'l', 'a', 'i', 'm', 'e', 'd']
}

/// The bytes of a base64url field: `unclaimed` stands for no bytes.
pub open spec fn bd_spec(s: Seq<char>) -> Option<Seq<u8>> {
    if s == unclaimed() {
        Some(Seq::empty())
    } else {
        base64url_decoded(s)
    }
}

/// The bytes of an optional base64url field: absent or undecodable is empty.
pub open spec fn lenient_bytes(s: Seq<char>) -> Seq<u8> {
    match bd_spec(s) {
        Some(b) => b,
        None => Seq::empty(),
    }
}

pub open spec fn optional_bytes(s: Option<String>) -> Seq<u8> {
    match s {
        Some(t) => lenient_bytes(t@),
        None => Seq::empty(),
    }
}

/// The value of an optional big-integer field: absent is zero.
pub open spec fn optional_big(s: Option<String>) -> Option<nat> {
    match s {
        Some(t) => big_decimal_spec(t@),
        None => Some(0),
    }
}

/// A big integer on the wire.
#[derive(Clone, Debug, PartialEq, Eq)]
pub struct BigInt {
    pub bytes: Vec<u8>,
}

/// A tag on the wire.
#[derive(Clone, Debug, PartialEq, Eq)]
pub struct Tag {
    pub name: Vec<u8>,
    pub value: Vec<u8>,
}

/// A proof of access on the wire.
#[derive(Clone, Debug, PartialEq, Eq)]
pub struct ProofOfAccess {
    pub option: String,
    pub tx_path: Vec<u8>,
    pub data_path: Vec<u8>,
    pub chunk: Vec<u8>,
}

/// A transaction on the wire.
#[derive(Clone, Debug, PartialEq, Eq)]
pub struct Transaction {
    pub format: u32,
    pub id: Vec<u8>,
    pub last_tx: Vec<u8>,
    pub owner: Vec<u8>,
    pub tags: Vec<Tag>,
    pub target: Vec<u8>,
    pub quantity: Option<BigInt>,
    pub data: Vec<u8>,
    pub data_size: Option<BigInt>,
    pub data_root: Vec<u8>,
    pub signature: Vec<u8>,
    pub reward: Option<BigInt>,
}

/// A block on the wire.
#[derive(Clone, Debug, PartialEq, Eq)]
pub struct Block {
    pub ver: u32,
    pub indep_hash: Vec<u8>,
    pub nonce: Vec<u8>,
    pub previous_block: Vec<u8>,
    pub timestamp: u64,
    pub last_retarget: u64,
    pub diff: Option<BigInt>,
    pub height: u64,
    pub hash: Vec<u8>,
    pub tx_root: Vec<u8>,
    pub txs: Vec<Transaction>,
    pub wallet_list: Vec<u8>,
    pub reward_addr: Vec<u8>,
    pub tags: Vec<Tag>,
    pub reward_pool: Option<BigInt>,
    pub weave_size: Option<BigInt>,
    pub block_size: Option<BigInt>,
    pub cumulative_diff: Option<BigInt>,
    pub hash_list_merkle: Vec<u8>,
    pub poa: Option<ProofOfAccess>,
}

/// `w` is a 32-byte big integer of value `v`.
pub open spec fn big_is(w: Option<BigInt>, v: Option<nat>) -> bool {
    &&& w matches Some(b)
    &&& b.bytes@.len() == BIG_WIDTH
    &&& v == Some(be_value(b.bytes@))
}

pub open spec fn tag_ok(t: types::Tag) -> bool {
    bd_spec(t.name@) is Some && bd_spec(t.value@) is Some
}

pub open spec fn tag_is(w: Tag, t: types::Tag) -> bool {
    bd_spec(t.name@) == Some(w.name@) && bd_spec(t.value@) == Some(w.value@)
}

pub open spec fn tags_ok(ts: Seq<types::Tag>) -> bool {
    forall|i: int| 0 <= i < ts.len() ==> tag_ok(#[trigger] ts[i])
}

/// The wire tags are the tags decoded, in the same order.
pub open spec fn tags_are(ws: Seq<Tag>, ts: Seq<types::Tag>) -> bool {
    &&& ws.len() == ts.len()
    &&& forall|i: int| 0 <= i < ts.len() ==> tag_is(#[trigger] ws[i], ts[i])
}

pub open spec fn poa_ok(p: types::Poa) -> bool {
    bd_spec(p.tx_path@) is Some && bd_spec(p.data_path@) is Some && bd_spec(p.chunk@) is Some
}

/// A proof of access is carried when it is present and decodes; otherwise it
/// is left out.
pub open spec fn poa_is(w: Option<ProofOfAccess>, p: Option<types::Poa>) -> bool {
    match p {
        Some(p) => if poa_ok(p) {
            &&& w matches Some(x)
            &&& x.option@ == p.option@
            &&& bd_spec(p.tx_path@) == Some(x.tx_path@)
            &&& bd_spec(p.data_path@) == Some(x.data_path@)
            &&& bd_spec(p.chunk@) == Some(x.chunk@)
        } else {
            w is None
        },
        None => w is None,
    }
}

/// The byte fields of a transaction that must decode do, and so do its tags.
pub open spec fn tx_bytes_ok(t: types::Transaction) -> bool {
    &&& bd_spec(t.id@) is Some
    &&& bd_spec(t.last_tx@) is Some
    &&& bd_spec(t.owner@) is Some
    &&& tags_ok(t.tags@)
    &&& bd_spec(t.target@) is Some
    &&& bd_spec(t.data@) is Some
    &&& bd_spec(t.signature@) is Some
}

/// The big integers of a transaction are decimal numbers below 2^256.
pub open spec fn tx_bigs_ok(t: types::Transaction) -> bool {
    &&& big_decimal_spec(t.quantity@) is Some
    &&& big_decimal_spec(t.data_size@) is Some
    &&& big_decimal_spec(t.reward@) is Some
}

/// The transaction converts.
pub open spec fn tx_ok(t: types::Transaction) -> bool {
    tx_bytes_ok(t) && tx_bigs_ok(t)
}

pub open spec fn tx_is(w: Transaction, t: types::Transaction) -> bool {
    &&& w.format == match t.format {
        Some(f) => f,
        None => 0,
    }
    &&& bd_spec(t.id@) == Some(w.id@)
    &&& bd_spec(t.last_tx@) == Some(w.last_tx@)
    &&& bd_spec(t.owner@) == Some(w.owner@)
    &&& tags_are(w.tags@, t.tags@)
    &&& bd_spec(t.target@) == Some(w.target@)
    &&& big_is(w.quantity, big_decimal_spec(t.quantity@))
    &&& bd_spec(t.data@) == Some(w.data@)
    &&& big_is(w.data_size, big_decimal_spec(t.data_size@))
    &&& w.data_root@ == lenient_bytes(t.data_root@)
    &&& bd_spec(t.signature@) == Some(w.signature@)
    &&& big_is(w.reward, big_decimal_spec(t.reward@))
}

pub open spec fn txs_ok(ts: Seq<types::Transaction>) -> bool {
    forall|i: int| 0 <= i < ts.len() ==> tx_ok(#[trigger] ts[i])
}

/// The wire transactions are the transactions converted, in the same order.
pub open spec fn txs_are(ws: Seq<Transaction>, ts: Seq<types::Transaction>) -> bool {
    &&& ws.len() == ts.len()
    &&& forall|i: int| 0 <= i < ts.len() ==> tx_is(#[trigger] ws[i], ts[i])
}

/// The byte fields of a block that must decode do, and so do those of its
/// transactions and tags.
pub open spec fn block_bytes_ok(b: types::FirehoseBlock) -> bool {
    &&& bd_spec(b.indep_hash@) is Some
    &&& bd_spec(b.nonce@) is Some
    &&& bd_spec(b.previous_block@) is Some
    &&& bd_spec(b.hash@) is Some
    &&& forall|i: int| 0 <= i < b.txs@.len() ==> tx_bytes_ok(#[trigger] b.txs@[i])
    &&& bd_spec(b.wallet_list@) is Some
    &&& bd_spec(b.reward_addr@) is Some
    &&& tags_ok(b.tags@)
}

/// The big integers of a block and of its transactions are decimal numbers
/// below 2^256.
pub open spec fn block_bigs_ok(b: types::FirehoseBlock) -> bool {
    &&& big_decimal_spec(b.diff@) is Some
    &&& forall|i: int| 0 <= i < b.txs@.len() ==> tx_bigs_ok(#[trigger] b.txs@[i])
    &&& big_decimal_spec(b.reward_pool@) is Some
    &&& big_decimal_spec(b.weave_size@) is Some
    &&& big_decimal_spec(b.block_size@) is Some
    &&& optional_big(b.cumulative_diff) is Some
}

/// The canonical block converts to the wire form.
pub open spec fn block_ok(b: types::FirehoseBlock) -> bool {
    block_bytes_ok(b) && block_bigs_ok(b)
}

/// `w` is the wire form of the canonical block `b`.
pub open spec fn block_is(w: Block, b: types::FirehoseBlock) -> bool {
    &&& w.ver == 1
    &&& bd_spec(b.indep_hash@) == Some(w.indep_hash@)
    &&& bd_spec(b.nonce@) == Some(w.nonce@)
    &&& bd_spec(b.previous_block@) == Some(w.previous_block@)
    &&& w.timestamp == b.timestamp
    &&& w.last_retarget == b.last_retarget
    &&& big_is(w.diff, big_decimal_spec(b.diff@))
    &&& w.height == b.height
    &&& bd_spec(b.hash@) == Some(w.hash@)
    &&& w.tx_root@ == optional_bytes(b.tx_root)
    &&& txs_are(w.txs@, b.txs@)
    &&& bd_spec(b.wallet_list@) == Some(w.wallet_list@)
    &&& bd_spec(b.reward_addr@) == Some(w.reward_addr@)
    &&& tags_are(w.tags@, b.tags@)
    &&& big_is(w.reward_pool, big_decimal_spec(b.reward_pool@))
    &&& big_is(w.weave_size, big_decimal_spec(b.weave_size@))
    &&& big_is(w.block_size, big_decimal_spec(b.block_size@))
    &&& big_is(w.cumulative_diff, optional_big(b.cumulative_diff))
    &&& w.hash_list_merkle@ == optional_bytes(b.hash_list_merkle)
    &&& poa_is(w.poa, b.poa)
}

/// Decodes a base64url field; `unclaimed` decodes to no bytes.
pub fn bd(s: &String) -> (r: Result<Vec<u8>, Error>)
    ensures
        bd_spec(s@) matches Some(v) ==> (r matches Ok(b) && b@ == v),
        bd_spec(s@) is None ==> r == Err::<Vec<u8>, Error>(Error::Base64Decode),
{
    let word = String::from_str("unclaimed");
    proof {
        reveal_strlit("unclaimed");
        assert(word@ =~= unclaimed());
    }
    if *s == word {
        return Ok(Vec::new());
    }
    match base64url_decode(s.as_str()) {
        Ok(b) => Ok(b),
        Err(_) => Err(Error::Base64Decode),
    }
}

/// Decodes an optional base64url field; absent or undecodable is empty.
fn bd_optional(s: &Option<String>) -> (r: Vec<u8>)
    ensures
        r@ == optional_bytes(*s),
{
    match s {
        Some(t) => bd_lenient(t),
        None => Vec::new(),
    }
}

fn bd_lenient(s: &String) -> (r: Vec<u8>)
    ensures
        r@ == lenient_bytes(s@),
{
    match bd(s) {
        Ok(b) => b,
        Err(_) => Vec::new(),
    }
}

impl BigInt {
    /// The wire form of a decimal big integer.
    pub fn from_decimal(s: &String) -> (r: Result<BigInt, Error>)
        ensures
            big_decimal_spec(s@) is Some ==> (r matches Ok(b) && big_is(Some(b), big_decimal_spec(s@))),
            big_decimal_spec(s@) is None ==> r == Err::<BigInt, Error>(Error::Uint),
    {
        match decimal_to_be32(s.as_str()) {
            Some(bytes) => Ok(BigInt { bytes }),
            None => Err(Error::Uint),
        }
    }

    /// The wire form of an optional decimal big integer; absent is zero.
    pub fn from_optional(s: &Option<String>) -> (r: Result<BigInt, Error>)
        ensures
            optional_big(*s) is Some ==> (r matches Ok(b) && big_is(Some(b), optional_big(*s))),
            optional_big(*s) is None ==> r == Err::<BigInt, Error>(Error::Uint),
    {
        match s {
            Some(t) => BigInt::from_decimal(t),
            None => {
                let empty = String::new();
                let r = BigInt::from_decimal(&empty);
                assert(big_decimal_spec(empty@) == Some(0nat)) by {
                    assert(empty@ =~= Seq::<char>::empty());
                    assert(crate::decimal::decimal_value(Seq::<char>::empty()) == 0);
                    crate::bigint::lemma_pow256_pos(BIG_WIDTH as nat);
                }
                r
            },
        }
    }
}

/// The errors that a failed conversion reports.
pub open spec fn conversion_error(e: Error) -> bool {
    e == Error::Base64Decode || e == Error::Uint
}

impl Tag {
    /// The wire form of a tag.
    pub fn from_tag(t: &types::Tag) -> (r: Result<Tag, Error>)
        ensures
            tag_ok(*t) ==> (r matches Ok(w) && tag_is(w, *t)),
            !tag_ok(*t) ==> r == Err::<Tag, Error>(Error::Base64Decode),
    {
        let name = bd(&t.name)?;
        let value = bd(&t.value)?;
        Ok(Tag { name, value })
    }

    /// The wire form of a list of tags, in order.
    pub fn from_tags(ts: &Vec<types::Tag>) -> (r: Result<Vec<Tag>, Error>)
        ensures
            tags_ok(ts@) ==> (r matches Ok(ws) && tags_are(ws@, ts@)),
            !tags_ok(ts@) ==> r == Err::<Vec<Tag>, Error>(Error::Base64Decode),
    {
        let mut out: Vec<Tag> = Vec::new();
        let mut i: usize = 0;
        while i < ts.len()
            invariant
                i <= ts@.len(),
                tags_ok(ts@.subrange(0, i as int)),
                tags_are(out@, ts@.subrange(0, i as int)),
            decreases ts@.len() - i,
        {
            let w = match Tag::from_tag(&ts[i]) {
                Ok(w) => w,
                Err(e) => {
                    assert(!tag_ok(ts@[i as int]));
                    return Err(e);
                },
            };
            let ghost before = out@;
            out.push(w);
            i = i + 1;
            proof {
                let sub = ts@.subrange(0, i as int);
                assert forall|j: int| 0 <= j < sub.len() implies tag_ok(#[trigger] sub[j]) by {
                    if j < i - 1 {
                        assert(sub[j] == ts@.subrange(0, i - 1)[j]);
                    }
                }
                assert forall|j: int| 0 <= j < sub.len() implies tag_is(#[trigger] out@[j], sub[j]) by {
                    if j < i - 1 {
                        assert(sub[j] == ts@.subrange(0, i - 1)[j]);
                        assert(out@[j] == before[j]);
                    }
                }
            }
        }
        assert(ts@.subrange(0, ts@.len() as int) =~= ts@);
        Ok(out)
    }
}

impl ProofOfAccess {
    /// The wire form of a proof of access.
    pub fn from_poa(p: &types::Poa) -> (r: Result<ProofOfAccess, Error>)
        ensures
            poa_ok(*p) ==> (r matches Ok(w) && poa_is(Some(w), Some(*p))),
            !poa_ok(*p) ==> r == Err::<ProofOfAccess, Error>(Error::Base64Decode),
    {
        let tx_path = bd(&p.tx_path)?;
        let data_path = bd(&p.data_path)?;
        let chunk = bd(&p.chunk)?;
        Ok(ProofOfAccess { option: p.option.clone(), tx_path, data_path, chunk })
    }

    /// The proof of access that a wire block carries: left out when absent
    /// or when it does not decode.
    pub fn from_optional(p: &Option<types::Poa>) -> (r: Option<ProofOfAccess>)
        ensures
            poa_is(r, *p),
    {
        match p {
            Some(x) => match ProofOfAccess::from_poa(x) {
                Ok(w) => Some(w),
                Err(_) => None,
            },
            None => None,
        }
    }
}

impl Transaction {
    /// The wire form of a transaction.
    pub fn from_transaction(t: &types::Transaction) -> (r: Result<Transaction, Error>)
        ensures
            tx_ok(*t) ==> (r matches Ok(w) && tx_is(w, *t)),
            !tx_ok(*t) ==> (r matches Err(e) && conversion_error(e)),
            (!tx_bytes_ok(*t) && tx_bigs_ok(*t)) ==> r == Err::<Transaction, Error>(Error::Base64Decode),
            (tx_bytes_ok(*t) && !tx_bigs_ok(*t)) ==> r == Err::<Transaction, Error>(Error::Uint),
    {
        let format = match t.format {
            Some(f) => f,
            None => 0,
        };
        let id = bd(&t.id)?;
        let last_tx = bd(&t.last_tx)?;
        let owner = bd(&t.owner)?;
        let tags = Tag::from_tags(&t.tags)?;
        let target = bd(&t.target)?;
        let quantity = BigInt::from_decimal(&t.quantity)?;
        let data = bd(&t.data)?;
        let data_size = BigInt::from_decimal(&t.data_size)?;
        let data_root = bd_lenient(&t.data_root);
        let signature = bd(&t.signature)?;
        let reward = BigInt::from_decimal(&t.reward)?;
        Ok(
            Transaction {
                format,
                id,
                last_tx,
                owner,
                tags,
                target,
                quantity: Some(quantity),
                data,
                data_size: Some(data_size),
                data_root,
                signature,
                reward: Some(reward),
            },
        )
    }
}

impl Block {
    /// The wire form of a canonical block.
    ///
    /// Succeeds exactly when every required byte field is base64url (or
    /// `unclaimed`), every transaction and tag converts, and every big integer
    /// is a decimal number below 2^256.
    pub fn from_firehose(b: &types::FirehoseBlock) -> (r: Result<Block, Error>)
        ensures
            block_ok(*b) ==> (r matches Ok(w) && block_is(w, *b)),
            !block_ok(*b) ==> (r matches Err(e) && conversion_error(e)),
            (!block_bytes_ok(*b) && block_bigs_ok(*b)) ==> r == Err::<Block, Error>(Error::Base64Decode),
            (block_bytes_ok(*b) && !block_bigs_ok(*b)) ==> r == Err::<Block, Error>(Error::Uint),
    {
        let indep_hash = bd(&b.indep_hash)?;
        let nonce = bd(&b.nonce)?;
        let previous_block = bd(&b.previous_block)?;
        let diff = BigInt::from_decimal(&b.diff)?;
        let hash = bd(&b.hash)?;
        let tx_root = bd_optional(&b.tx_root);
        let mut txs: Vec<Transaction> = Vec::new();
        let mut i: usize = 0;
        while i < b.txs.len()
            invariant
                i <= b.txs@.len(),
                bd_spec(b.indep_hash@) is Some,
                bd_spec(b.nonce@) is Some,
                bd_spec(b.previous_block@) is Some,
                bd_spec(b.hash@) is Some,
                big_decimal_spec(b.diff@) is Some,
                txs_ok(b.txs@.subrange(0, i as int)),
                txs_are(txs@, b.txs@.subrange(0, i as int)),
            decreases b.txs@.len() - i,
        {
            let w = match Transaction::from_transaction(&b.txs[i]) {
                Ok(w) => w,
                Err(e) => {
                    assert(!tx_ok(b.txs@[i as int]));
                    assert(block_bigs_ok(*b) ==> tx_bigs_ok(b.txs@[i as int]));
                    assert(block_bytes_ok(*b) ==> tx_bytes_ok(b.txs@[i as int]));
                    return Err(e);
                },
            };
            let ghost before = txs@;
            txs.push(w);
            i = i + 1;
            proof {
                let sub = b.txs@.subrange(0, i as int);
                assert forall|j: int| 0 <= j < sub.len() implies tx_ok(#[trigger] sub[j]) by {
                    if j < i - 1 {
                        assert(sub[j] == b.txs@.subrange(0, i - 1)[j]);
                    }
                }
                assert forall|j: int| 0 <= j < sub.len() implies tx_is(#[trigger] txs@[j], sub[j]) by {
                    if j < i - 1 {
                        assert(sub[j] == b.txs@.subrange(0, i - 1)[j]);
                        assert(txs@[j] == before[j]);
                    }
                }
            }
        }
        assert(b.txs@.subrange(0, b.txs@.len() as int) =~= b.txs@);
        assert forall|k: int| 0 <= k < b.txs@.len() implies tx_bytes_ok(#[trigger] b.txs@[k]) && tx_bigs_ok(b.txs@[k]) by {
            assert(tx_ok(b.txs@.subrange(0, b.txs@.len() as int)[k]));
        }
        let wallet_list = bd(&b.wallet_list)?;
        let reward_addr = bd(&b.reward_addr)?;
        let tags = Tag::from_tags(&b.tags)?;
        let reward_pool = BigInt::from_decimal(&b.reward_pool)?;
        let weave_size = BigInt::from_decimal(&b.weave_size)?;
        let block_size = BigInt::from_decimal(&b.block_size)?;
        let cumulative_diff = BigInt::from_optional(&b.cumulative_diff)?;
        let hash_list_merkle = bd_optional(&b.hash_list_merkle);
        let poa = ProofOfAccess::from_optional(&b.poa);
        Ok(
            Block {
                ver: 1,
                indep_hash,
                nonce,
                previous_block,
                timestamp: b.timestamp,
                last_retarget: b.last_retarget,
                diff: Some(diff),
                height: b.height,
                hash,
                tx_root,
                txs,
                wallet_list,
                reward_addr,
                tags,
                reward_pool: Some(reward_pool),
                weave_size: Some(weave_size),
                block_size: Some(block_size),
                cumulative_diff: Some(cumulative_diff),
                hash_list_merkle,
                poa,
            },
        )
    }
}

/// A big integer of the wire form is the 32 big-endian bytes of the
/// decimal text it was read from. A field that arrived as a JSON number and
/// one that arrived as a decimal string carry that text alike, so both forms
/// give these bytes; the largest value, 2^256 - 1, gives 32 bytes of `0xff`.
pub proof fn lemma_big_wire_bytes(s: Seq<char>, w: BigInt)
    requires
        big_is(Some(w), big_decimal_spec(s)),
    ensures
        w.bytes@ == be_bytes(crate::decimal::decimal_value(s), BIG_WIDTH as nat),
        crate::decimal::decimal_value(s) == pow256(BIG_WIDTH as nat) - 1 ==> w.bytes@ == Seq::new(
            BIG_WIDTH as nat,
            |i: int| 0xffu8,
        ),
{
    lemma_be_bytes_of_value(w.bytes@);
    lemma_all_ones(BIG_WIDTH as nat);
}

} // verus!
