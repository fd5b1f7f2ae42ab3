use thegarii::bigint::decimal_to_be32;
use thegarii::encoding::{number_or_string, option_number_or_string, JsonField};
use thegarii::pb::{bd, BigInt, Block as WireBlock, Transaction as WireTransaction};
use thegarii::types::{Block, FirehoseBlock, Poa, Tag, Transaction};
use thegarii::Error;

fn b64(bytes: &[u8]) -> String {
    base64_url::encode(bytes)
}

fn tx(id: &[u8]) -> Transaction {
    Transaction {
        format: Some(2),
        id: b64(id),
        last_tx: b64(&[9]),
        owner: b64(&[1, 2, 3]),
        tags: vec![Tag { name: b64(b"a"), value: b64(b"b") }],
        target: String::new(),
        quantity: "0".to_string(),
        data_root: String::new(),
        data: String::new(),
        data_size: "7".to_string(),
        reward: "12".to_string(),
        signature: b64(&[4, 5]),
    }
}

fn raw_block(height: u64, txs: Vec<String>) -> Block {
    Block {
        nonce: b64(&[1]),
        previous_block: b64(&[2; 48]),
        timestamp: 1_600_000_000,
        last_retarget: 1_599_999_000,
        diff: "10".to_string(),
        height,
        hash: b64(&[3; 32]),
        indep_hash: b64(&[4; 48]),
        txs,
        wallet_list: b64(&[5; 48]),
        reward_addr: "unclaimed".to_string(),
        tags: vec![],
        reward_pool: "1000".to_string(),
        weave_size: "2000".to_string(),
        block_size: "0".to_string(),
        cumulative_diff: Some("77".to_string()),
        hash_list_merkle: None,
        tx_root: None,
        tx_tree: None,
        poa: None,
    }
}

fn be32(last: &[u8]) -> Vec<u8> {
    let mut v = vec![0u8; 32 - last.len()];
    v.extend_from_slice(last);
    v
}

#[test]
fn number_field_reads_as_decimal_text() {
    let r = number_or_string(JsonField::Number("10".to_string()));
    assert_eq!(r, Ok("10".to_string()));
}

#[test]
fn string_field_reads_as_itself() {
    let big = "115792089237316195423570985008687907853269984665640564039457584007913129639935";
    assert_eq!(number_or_string(JsonField::Text(big.to_string())), Ok(big.to_string()));
}

#[test]
fn null_or_other_required_field_is_a_decode_error() {
    assert_eq!(number_or_string(JsonField::Null), Err(Error::Decode));
    assert_eq!(number_or_string(JsonField::Other), Err(Error::Decode));
}

#[test]
fn optional_field_absent_null_or_empty() {
    assert_eq!(option_number_or_string(JsonField::Null), Ok(None));
    assert_eq!(option_number_or_string(JsonField::Text(String::new())), Ok(None));
    assert_eq!(option_number_or_string(JsonField::Text("5".to_string())), Ok(Some("5".to_string())));
    assert_eq!(option_number_or_string(JsonField::Number("6".to_string())), Ok(Some("6".to_string())));
    assert_eq!(option_number_or_string(JsonField::Other), Err(Error::Decode));
}

#[test]
fn small_decimal_becomes_32_bytes() {
    assert_eq!(decimal_to_be32("10"), Some(be32(&[10])));
    assert_eq!(decimal_to_be32("256"), Some(be32(&[1, 0])));
    assert_eq!(decimal_to_be32(""), Some(vec![0u8; 32]));
}

#[test]
fn largest_decimal_becomes_all_ones() {
    let max = "115792089237316195423570985008687907853269984665640564039457584007913129639935";
    assert_eq!(decimal_to_be32(max), Some(vec![0xffu8; 32]));
}

#[test]
fn too_large_or_non_digit_decimal_is_refused() {
    let over = "115792089237316195423570985008687907853269984665640564039457584007913129639936";
    assert_eq!(decimal_to_be32(over), None);
    assert_eq!(decimal_to_be32("12a"), None);
    assert_eq!(decimal_to_be32("+1"), None);
    let s = "x".to_string();
    assert!(matches!(BigInt::from_decimal(&s), Err(Error::Uint)));
}

#[test]
fn optional_big_integer_absent_is_zero() {
    let b = BigInt::from_optional(&None).unwrap();
    assert_eq!(b.bytes, vec![0u8; 32]);
}

#[test]
fn unclaimed_reward_address_is_empty() {
    assert_eq!(bd(&"unclaimed".to_string()), Ok(vec![]));
}

#[test]
fn base64url_round_trip() {
    for bytes in [vec![], vec![0u8], vec![1, 2, 3, 250, 251, 252], (0u8..=255).collect::<Vec<u8>>()] {
        assert_eq!(bd(&base64_url::encode(&bytes)), Ok(bytes.clone()));
    }
}

#[test]
fn bad_base64url_is_an_error() {
    assert_eq!(bd(&"a$b".to_string()), Err(Error::Base64Decode));
}

#[test]
fn assemble_keeps_transactions_in_order() {
    let ids = vec![b64(&[7; 32]), b64(&[8; 32])];
    let block = raw_block(5, ids.clone());
    let fb = FirehoseBlock::assemble(block, vec![tx(&[7; 32]), tx(&[8; 32])]).unwrap();
    assert_eq!(fb.ver, 1);
    assert_eq!(fb.height, 5);
    assert_eq!(fb.txs.len(), 2);
    assert_eq!(fb.txs[0].id, ids[0]);
    assert_eq!(fb.txs[1].id, ids[1]);
}

#[test]
fn assemble_refuses_wrong_transactions() {
    let ids = vec![b64(&[7; 32]), b64(&[8; 32])];
    let swapped = FirehoseBlock::assemble(raw_block(5, ids.clone()), vec![tx(&[8; 32]), tx(&[7; 32])]);
    assert!(matches!(swapped, Err(Error::TxMismatch)));
    let short = FirehoseBlock::assemble(raw_block(5, ids), vec![tx(&[7; 32])]);
    assert!(matches!(short, Err(Error::TxMismatch)));
}

#[test]
fn canonical_record_from_block_has_no_transactions() {
    let fb = FirehoseBlock::from(raw_block(9, vec![b64(&[1; 32])]));
    assert_eq!(fb.ver, 1);
    assert_eq!(fb.height, 9);
    assert!(fb.txs.is_empty());
    assert_eq!(fb.diff, "10");
}

#[test]
fn canonical_record_keeps_every_block_field() {
    let mut raw = raw_block(422_250, vec![b64(&[1; 32])]);
    raw.tags = vec![Tag { name: b64(b"x"), value: b64(b"1") }, Tag { name: b64(b"y"), value: b64(b"2") }];
    raw.tx_root = Some(b64(&[8; 32]));
    raw.hash_list_merkle = Some(b64(&[9; 48]));
    raw.poa = Some(Poa { option: "1".to_string(), tx_path: b64(&[1]), data_path: b64(&[2]), chunk: b64(&[3]) });
    let fb = FirehoseBlock::from(raw.clone());
    assert_eq!(fb.ver, 1);
    assert!(fb.txs.is_empty());
    assert_eq!(fb.indep_hash, raw.indep_hash);
    assert_eq!(fb.nonce, raw.nonce);
    assert_eq!(fb.previous_block, raw.previous_block);
    assert_eq!(fb.timestamp, raw.timestamp);
    assert_eq!(fb.last_retarget, raw.last_retarget);
    assert_eq!(fb.diff, raw.diff);
    assert_eq!(fb.height, raw.height);
    assert_eq!(fb.hash, raw.hash);
    assert_eq!(fb.tx_root, raw.tx_root);
    assert_eq!(fb.wallet_list, raw.wallet_list);
    assert_eq!(fb.reward_addr, raw.reward_addr);
    assert_eq!(fb.tags, raw.tags);
    assert_eq!(fb.reward_pool, raw.reward_pool);
    assert_eq!(fb.weave_size, raw.weave_size);
    assert_eq!(fb.block_size, raw.block_size);
    assert_eq!(fb.cumulative_diff, raw.cumulative_diff);
    assert_eq!(fb.hash_list_merkle, raw.hash_list_merkle);
    assert_eq!(fb.poa, raw.poa);
}

#[test]
fn wire_block_fields() {
    let ids = vec![b64(&[7; 32])];
    let fb = FirehoseBlock::assemble(raw_block(269_512, ids), vec![tx(&[7; 32])]).unwrap();
    let w = WireBlock::from_firehose(&fb).unwrap();
    assert_eq!(w.ver, 1);
    assert_eq!(w.indep_hash, vec![4u8; 48]);
    assert_eq!(w.previous_block, vec![2u8; 48]);
    assert_eq!(w.reward_addr, Vec::<u8>::new());
    assert_eq!(w.diff.as_ref().unwrap().bytes, be32(&[10]));
    assert_eq!(w.weave_size.as_ref().unwrap().bytes, be32(&[0x07, 0xd0]));
    assert_eq!(w.cumulative_diff.as_ref().unwrap().bytes, be32(&[77]));
    assert!(w.tx_root.is_empty());
    assert!(w.poa.is_none());
    assert_eq!(w.txs.len(), 1);
    let t: &WireTransaction = &w.txs[0];
    assert_eq!(t.id, vec![7u8; 32]);
    assert_eq!(t.format, 2);
    assert_eq!(t.tags[0].name, b"a".to_vec());
    assert_eq!(t.reward.as_ref().unwrap().bytes, be32(&[12]));
}

#[test]
fn wire_block_of_every_era() {
    // before 269510: numeric fields, no cumulative difficulty
    let mut early = raw_block(100, vec![]);
    early.cumulative_diff = None;
    let w = WireBlock::from_firehose(&FirehoseBlock::from(early)).unwrap();
    assert_eq!(w.cumulative_diff.unwrap().bytes, vec![0u8; 32]);
    // before 422250: cumulative difficulty and merkle root
    let mut middle = raw_block(269_512, vec![]);
    middle.hash_list_merkle = Some(b64(&[6; 48]));
    let w = WireBlock::from_firehose(&FirehoseBlock::from(middle)).unwrap();
    assert_eq!(w.hash_list_merkle, vec![6u8; 48]);
    // from 422250: tx root and proof of access
    let mut late = raw_block(422_250, vec![]);
    late.tx_root = Some(b64(&[7; 32]));
    late.poa = Some(Poa { option: "1".to_string(), tx_path: b64(&[1]), data_path: b64(&[2]), chunk: b64(&[3]) });
    let w = WireBlock::from_firehose(&FirehoseBlock::from(late)).unwrap();
    assert_eq!(w.tx_root, vec![7u8; 32]);
    let poa = w.poa.unwrap();
    assert_eq!(poa.option, "1");
    assert_eq!(poa.chunk, vec![3u8]);
}

#[test]
fn undecodable_proof_of_access_is_left_out() {
    let mut late = raw_block(422_251, vec![]);
    late.poa = Some(Poa { option: "1".to_string(), tx_path: "$".to_string(), data_path: String::new(), chunk: String::new() });
    let w = WireBlock::from_firehose(&FirehoseBlock::from(late)).unwrap();
    assert!(w.poa.is_none());
}

#[test]
fn wire_block_errors() {
    let mut bad_hash = raw_block(1, vec![]);
    bad_hash.indep_hash = "%%".to_string();
    assert!(matches!(WireBlock::from_firehose(&FirehoseBlock::from(bad_hash)), Err(Error::Base64Decode)));
    let mut bad_diff = raw_block(1, vec![]);
    bad_diff.diff = "1.5".to_string();
    assert!(matches!(WireBlock::from_firehose(&FirehoseBlock::from(bad_diff)), Err(Error::Uint)));
}

#[test]
fn diff_number_and_string_round_trip_through_wire() {
    let ten = number_or_string(JsonField::Number("10".to_string())).unwrap();
    let max = "115792089237316195423570985008687907853269984665640564039457584007913129639935";
    let big = number_or_string(JsonField::Text(max.to_string())).unwrap();
    let mut a = raw_block(100, vec![]);
    a.diff = ten;
    let mut b = raw_block(300_000, vec![]);
    b.diff = big;
    let wa = WireBlock::from_firehose(&FirehoseBlock::from(a)).unwrap();
    let wb = WireBlock::from_firehose(&FirehoseBlock::from(b)).unwrap();
    assert_eq!(wa.diff.unwrap().bytes, be32(&[10]));
    assert_eq!(wb.diff.unwrap().bytes, vec![0xffu8; 32]);
}

fn len_field(out: &mut Vec<u8>, key: &[u8], inner: &[u8]) {
    out.extend_from_slice(key);
    out.push(inner.len() as u8);
    out.extend_from_slice(inner);
}

#[test]
fn protobuf_encoding_of_a_small_block() {
    let mut raw = raw_block(100, vec![]);
    raw.indep_hash = b64(&[0xab]);
    raw.nonce = String::new();
    raw.previous_block = String::new();
    raw.timestamp = 5;
    raw.last_retarget = 0;
    raw.hash = String::new();
    raw.wallet_list = String::new();
    raw.reward_pool = "0".to_string();
    raw.weave_size = "0".to_string();
    raw.block_size = "0".to_string();
    raw.cumulative_diff = None;
    let w = WireBlock::from_firehose(&FirehoseBlock::from(raw)).unwrap();
    let mut big_ten = vec![0x0a, 0x20];
    big_ten.extend_from_slice(&be32(&[10]));
    let mut big_zero = vec![0x0a, 0x20];
    big_zero.extend_from_slice(&[0u8; 32]);
    let mut expected = vec![0x08, 0x01, 0x12, 0x01, 0xab, 0x28, 0x05];
    len_field(&mut expected, &[0x3a], &big_ten);
    expected.extend_from_slice(&[0x40, 0x64]);
    len_field(&mut expected, &[0x7a], &big_zero);
    len_field(&mut expected, &[0x82, 0x01], &big_zero);
    len_field(&mut expected, &[0x8a, 0x01], &big_zero);
    len_field(&mut expected, &[0x92, 0x01], &big_zero);
    assert_eq!(w.encode_to_vec(), expected);
}

#[test]
fn protobuf_encoding_of_long_fields_uses_multi_byte_lengths() {
    let mut raw = raw_block(300, vec![]);
    raw.indep_hash = b64(&[1u8; 200]);
    let w = WireBlock::from_firehose(&FirehoseBlock::from(raw)).unwrap();
    let bytes = w.encode_to_vec();
    // ver, then the 200-byte hash with a two-byte length
    assert_eq!(&bytes[0..5], &[0x08, 0x01, 0x12, 0xc8, 0x01]);
    assert_eq!(&bytes[5..205], &[1u8; 200][..]);
}
