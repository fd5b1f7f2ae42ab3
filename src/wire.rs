//! Protobuf encoding of the wire block (`sf.arweave.type.v1.Block`).
//!
//! Each message is its fields in tag order. A scalar field equal to zero and
//! a bytes or string field that is empty are left out; a message field is
//! written whenever it is present, and a repeated field once per item.
use crate::pb::{BigInt, Block, ProofOfAccess, Tag, Transaction};
use vstd::prelude::*;

verus! {

/// The base-128 varint of `v`, low group first.
pub open spec fn varint(v: nat) -> Seq<u8>
    decreases v,
{
    if v < 128 {
        seq![v as u8]
    } else {
        seq![(v % 128 + 128) as u8] + varint(v / 128)
    }
}

/// Relies on `prost::encoding::encode_varint`: it appends the base-128
/// varint of the value to the buffer, low group first, the high bit set on
/// every byte but the last.
#[verifier::external_body]
fn put_varint(v: u64, buf: &mut Vec<u8>)
    ensures
        final(buf)@ == old(buf)@ + varint(v as nat),
{
    prost::encoding::encode_varint(v, buf)
}

/// Wire type of varint fields.
pub const VARINT: u64 = 0;

/// Wire type of length-delimited fields.
pub const LEN: u64 = 2;

pub open spec fn key(field: nat, wire_type: nat) -> Seq<u8> {
    varint(field * 8 + wire_type)
}

pub open spec fn len_field(field: nat, b: Seq<u8>) -> Seq<u8> {
    key(field, LEN as nat) + varint(b.len()) + b
}

pub open spec fn bytes_field(field: nat, b: Seq<u8>) -> Seq<u8> {
    if b.len() == 0 {
        Seq::empty()
    } else {
        len_field(field, b)
    }
}

pub open spec fn uint_field(field: nat, v: nat) -> Seq<u8> {
    if v == 0 {
        Seq::empty()
    } else {
        key(field, VARINT as nat) + varint(v)
    }
}

pub open spec fn big_bytes(b: BigInt) -> Seq<u8> {
    bytes_field(1, b.bytes@)
}

pub open spec fn big_field(field: nat, b: Option<BigInt>) -> Seq<u8> {
    match b {
        Some(x) => len_field(field, big_bytes(x)),
        None => Seq::empty(),
    }
}

pub open spec fn tag_bytes(t: Tag) -> Seq<u8> {
    bytes_field(1, t.name@) + bytes_field(2, t.value@)
}

pub open spec fn tags_field(field: nat, ts: Seq<Tag>) -> Seq<u8>
    decreases ts.len(),
{
    if ts.len() == 0 {
        Seq::empty()
    } else {
        tags_field(field, ts.drop_last()) + len_field(field, tag_bytes(ts.last()))
    }
}

pub open spec fn poa_bytes(p: ProofOfAccess) -> Seq<u8> {
    bytes_field(1, vstd::utf8::encode_utf8(p.option@)) + bytes_field(2, p.tx_path@) + bytes_field(
        3,
        p.data_path@,
    ) + bytes_field(4, p.chunk@)
}

pub open spec fn poa_field(field: nat, p: Option<ProofOfAccess>) -> Seq<u8> {
    match p {
        Some(x) => len_field(field, poa_bytes(x)),
        None => Seq::empty(),
    }
}

pub open spec fn tx_bytes(t: Transaction) -> Seq<u8> {
    uint_field(1, t.format as nat) + bytes_field(2, t.id@) + bytes_field(3, t.last_tx@) + bytes_field(
        4,
        t.owner@,
    ) + tags_field(5, t.tags@) + bytes_field(6, t.target@) + big_field(7, t.quantity) + bytes_field(
        8,
        t.data@,
    ) + big_field(9, t.data_size) + bytes_field(10, t.data_root@) + bytes_field(11, t.signature@)
        + big_field(12, t.reward)
}

pub open spec fn txs_field(field: nat, ts: Seq<Transaction>) -> Seq<u8>
    decreases ts.len(),
{
    if ts.len() == 0 {
        Seq::empty()
    } else {
        txs_field(field, ts.drop_last()) + len_field(field, tx_bytes(ts.last()))
    }
}

/// The protobuf encoding of a wire block.
pub open spec fn block_bytes(b: Block) -> Seq<u8> {
    uint_field(1, b.ver as nat) + bytes_field(2, b.indep_hash@) + bytes_field(3, b.nonce@)
        + bytes_field(4, b.previous_block@) + uint_field(5, b.timestamp as nat) + uint_field(
        6,
        b.last_retarget as nat,
    ) + big_field(7, b.diff) + uint_field(8, b.height as nat) + bytes_field(9, b.hash@) + bytes_field(
        10,
        b.tx_root@,
    ) + txs_field(11, b.txs@) + bytes_field(12, b.wallet_list@) + bytes_field(13, b.reward_addr@)
        + tags_field(14, b.tags@) + big_field(15, b.reward_pool) + big_field(16, b.weave_size)
        + big_field(17, b.block_size) + big_field(18, b.cumulative_diff) + bytes_field(
        20,
        b.hash_list_merkle@,
    ) + poa_field(21, b.poa)
}

fn put_slice(buf: &mut Vec<u8>, b: &[u8])
    ensures
        final(buf)@ == old(buf)@ + b@,
{
    let ghost start = buf@;
    let mut i: usize = 0;
    while i < b.len()
        invariant
            i <= b@.len(),
            buf@ == start + b@.subrange(0, i as int),
        decreases b@.len() - i,
    {
        buf.push(b[i]);
        i = i + 1;
        assert(buf@ =~= start + b@.subrange(0, i as int));
    }
    assert(b@.subrange(0, b@.len() as int) =~= b@);
}

fn put_key(field: u64, wire_type: u64, buf: &mut Vec<u8>)
    requires
        field < 1000,
        wire_type < 8,
    ensures
        final(buf)@ == old(buf)@ + key(field as nat, wire_type as nat),
{
    put_varint(field * 8 + wire_type, buf);
}

fn put_len_field(field: u64, b: &[u8], buf: &mut Vec<u8>)
    requires
        field < 1000,
    ensures
        final(buf)@ == old(buf)@ + len_field(field as nat, b@),
{
    let ghost start = buf@;
    put_key(field, LEN, buf);
    put_varint(b.len() as u64, buf);
    put_slice(buf, b);
    assert(buf@ =~= start + len_field(field as nat, b@));
}

fn put_bytes_field(field: u64, b: &[u8], buf: &mut Vec<u8>)
    requires
        field < 1000,
    ensures
        final(buf)@ == old(buf)@ + bytes_field(field as nat, b@),
{
    if b.len() == 0 {
        assert(old(buf)@ + bytes_field(field as nat, b@) =~= old(buf)@);
    } else {
        put_len_field(field, b, buf);
    }
}

fn put_uint_field(field: u64, v: u64, buf: &mut Vec<u8>)
    requires
        field < 1000,
    ensures
        final(buf)@ == old(buf)@ + uint_field(field as nat, v as nat),
{
    if v == 0 {
        assert(old(buf)@ + uint_field(field as nat, v as nat) =~= old(buf)@);
    } else {
        let ghost start = buf@;
        put_key(field, VARINT, buf);
        put_varint(v, buf);
        assert(buf@ =~= start + uint_field(field as nat, v as nat));
    }
}

fn put_big_field(field: u64, b: &Option<BigInt>, buf: &mut Vec<u8>)
    requires
        field < 1000,
    ensures
        final(buf)@ == old(buf)@ + big_field(field as nat, *b),
{
    match b {
        Some(x) => {
            let mut inner: Vec<u8> = Vec::new();
            put_bytes_field(1, x.bytes.as_slice(), &mut inner);
            assert(inner@ =~= big_bytes(*x));
            put_len_field(field, inner.as_slice(), buf);
        },
        None => {
            assert(old(buf)@ + big_field(field as nat, *b) =~= old(buf)@);
        },
    }
}

fn put_tags_field(field: u64, ts: &Vec<Tag>, buf: &mut Vec<u8>)
    requires
        field < 1000,
    ensures
        final(buf)@ == old(buf)@ + tags_field(field as nat, ts@),
{
    let ghost start = buf@;
    let mut i: usize = 0;
    assert(ts@.subrange(0, 0) =~= Seq::<Tag>::empty());
    assert(buf@ =~= start + tags_field(field as nat, ts@.subrange(0, 0)));
    while i < ts.len()
        invariant
            field < 1000,
            i <= ts@.len(),
            buf@ == start + tags_field(field as nat, ts@.subrange(0, i as int)),
        decreases ts@.len() - i,
    {
        let t = &ts[i];
        let mut inner: Vec<u8> = Vec::new();
        put_bytes_field(1, t.name.as_slice(), &mut inner);
        put_bytes_field(2, t.value.as_slice(), &mut inner);
        assert(inner@ =~= tag_bytes(*t));
        put_len_field(field, inner.as_slice(), buf);
        proof {
            let sub = ts@.subrange(0, i + 1);
            assert(sub.drop_last() =~= ts@.subrange(0, i as int));
            assert(sub.last() == *t);
        }
        i = i + 1;
        assert(buf@ =~= start + tags_field(field as nat, ts@.subrange(0, i as int)));
    }
    assert(ts@.subrange(0, ts@.len() as int) =~= ts@);
}

fn put_poa_field(field: u64, p: &Option<ProofOfAccess>, buf: &mut Vec<u8>)
    requires
        field < 1000,
    ensures
        final(buf)@ == old(buf)@ + poa_field(field as nat, *p),
{
    match p {
        Some(x) => {
            let mut inner: Vec<u8> = Vec::new();
            put_bytes_field(1, x.option.as_str().as_bytes(), &mut inner);
            put_bytes_field(2, x.tx_path.as_slice(), &mut inner);
            put_bytes_field(3, x.data_path.as_slice(), &mut inner);
            put_bytes_field(4, x.chunk.as_slice(), &mut inner);
            assert(inner@ =~= poa_bytes(*x));
            put_len_field(field, inner.as_slice(), buf);
        },
        None => {
            assert(old(buf)@ + poa_field(field as nat, *p) =~= old(buf)@);
        },
    }
}

fn put_tx(t: &Transaction, buf: &mut Vec<u8>)
    ensures
        final(buf)@ == old(buf)@ + tx_bytes(*t),
{
    let ghost start = buf@;
    put_uint_field(1, t.format as u64, buf);
    put_bytes_field(2, t.id.as_slice(), buf);
    put_bytes_field(3, t.last_tx.as_slice(), buf);
    put_bytes_field(4, t.owner.as_slice(), buf);
    put_tags_field(5, &t.tags, buf);
    put_bytes_field(6, t.target.as_slice(), buf);
    put_big_field(7, &t.quantity, buf);
    put_bytes_field(8, t.data.as_slice(), buf);
    put_big_field(9, &t.data_size, buf);
    put_bytes_field(10, t.data_root.as_slice(), buf);
    put_bytes_field(11, t.signature.as_slice(), buf);
    put_big_field(12, &t.reward, buf);
    assert(buf@ =~= start + tx_bytes(*t));
}

fn put_txs_field(field: u64, ts: &Vec<Transaction>, buf: &mut Vec<u8>)
    requires
        field < 1000,
    ensures
        final(buf)@ == old(buf)@ + txs_field(field as nat, ts@),
{
    let ghost start = buf@;
    let mut i: usize = 0;
    assert(ts@.subrange(0, 0) =~= Seq::<Transaction>::empty());
    assert(buf@ =~= start + txs_field(field as nat, ts@.subrange(0, 0)));
    while i < ts.len()
        invariant
            field < 1000,
            i <= ts@.len(),
            buf@ == start + txs_field(field as nat, ts@.subrange(0, i as int)),
        decreases ts@.len() - i,
    {
        let t = &ts[i];
        let mut inner: Vec<u8> = Vec::new();
        put_tx(t, &mut inner);
        assert(inner@ =~= tx_bytes(*t));
        put_len_field(field, inner.as_slice(), buf);
        proof {
            let sub = ts@.subrange(0, i + 1);
            assert(sub.drop_last() =~= ts@.subrange(0, i as int));
            assert(sub.last() == *t);
        }
        i = i + 1;
        assert(buf@ =~= start + txs_field(field as nat, ts@.subrange(0, i as int)));
    }
    assert(ts@.subrange(0, ts@.len() as int) =~= ts@);
}

impl Block {
    /// The protobuf encoding of the block.
    pub fn encode_to_vec(&self) -> (r: Vec<u8>)
        ensures
            r@ == block_bytes(*self),
    {
        let mut buf: Vec<u8> = Vec::new();
        put_uint_field(1, self.ver as u64, &mut buf);
        put_bytes_field(2, self.indep_hash.as_slice(), &mut buf);
        put_bytes_field(3, self.nonce.as_slice(), &mut buf);
        put_bytes_field(4, self.previous_block.as_slice(), &mut buf);
        put_uint_field(5, self.timestamp, &mut buf);
        put_uint_field(6, self.last_retarget, &mut buf);
        put_big_field(7, &self.diff, &mut buf);
        put_uint_field(8, self.height, &mut buf);
        put_bytes_field(9, self.hash.as_slice(), &mut buf);
        put_bytes_field(10, self.tx_root.as_slice(), &mut buf);
        put_txs_field(11, &self.txs, &mut buf);
        put_bytes_field(12, self.wallet_list.as_slice(), &mut buf);
        put_bytes_field(13, self.reward_addr.as_slice(), &mut buf);
        put_tags_field(14, &self.tags, &mut buf);
        put_big_field(15, &self.reward_pool, &mut buf);
        put_big_field(16, &self.weave_size, &mut buf);
        put_big_field(17, &self.block_size, &mut buf);
        put_big_field(18, &self.cumulative_diff, &mut buf);
        put_bytes_field(20, self.hash_list_merkle.as_slice(), &mut buf);
        put_poa_field(21, &self.poa, &mut buf);
        assert(buf@ =~= block_bytes(*self));
        buf
    }
}

} // verus!
