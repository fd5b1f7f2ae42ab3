use base64::Engine;
use thegarii::emit::firehose_init;
use thegarii::env::Env;
use thegarii::fork::{ForkWindow, Observation};
use thegarii::pb::Block as WireBlock;
use thegarii::polling::{Next, Polling};
use thegarii::types::FirehoseBlock;
use thegarii::Error;

fn b64(bytes: &[u8]) -> String {
    base64_url::encode(bytes)
}

fn env(batch: u16, confirms: u64) -> Env {
    Env {
        batch_blocks: batch,
        block_time: 1000,
        confirms,
        endpoints: vec!["https://arweave.net".to_string()],
        ptr_file: "./arweave.ptr".to_string(),
        retry: 2,
        timeout: 1000,
    }
}

fn block(height: u64) -> FirehoseBlock {
    block_with(height, &[height as u8; 48], "1")
}

fn block_with(height: u64, hash: &[u8], cdiff: &str) -> FirehoseBlock {
    FirehoseBlock {
        ver: 1,
        indep_hash: b64(hash),
        nonce: String::new(),
        previous_block: if height == 0 { String::new() } else { b64(&[(height - 1) as u8; 48]) },
        timestamp: 1_500_000_000 + height,
        last_retarget: 0,
        diff: "10".to_string(),
        height,
        hash: String::new(),
        tx_root: None,
        txs: vec![],
        wallet_list: String::new(),
        reward_addr: "unclaimed".to_string(),
        tags: vec![],
        reward_pool: "0".to_string(),
        weave_size: "0".to_string(),
        block_size: "0".to_string(),
        cumulative_diff: Some(cdiff.to_string()),
        hash_list_merkle: None,
        poa: None,
    }
}

#[test]
fn init_line() {
    assert_eq!(firehose_init(), "FIRE INIT 1.0 sf.arweave.type.v1");
}

#[test]
fn historical_range_emits_in_order_and_stops() {
    let mut p = Polling::new(&env(4, 20), Some(103), false, false);
    p.initialize_start_ptr(None, Some("100".to_string()), 0).unwrap();
    assert_eq!(p.ptr, 100);
    assert_eq!(p.track_head(1_000_000), Some((100, 103)));
    let mut emitted = vec![];
    for h in 100..=103 {
        let em = p.on_block(&block(h)).unwrap();
        let fields: Vec<&str> = em.line.split(' ').collect();
        assert_eq!(fields[0], "FIRE");
        assert_eq!(fields[1], "BLOCK");
        emitted.push(fields[2].parse::<u64>().unwrap());
        assert_eq!(em.cursor, (h + 1).to_string());
        assert_eq!(em.stop, h == 103);
    }
    assert_eq!(emitted, vec![100, 101, 102, 103]);
    assert_eq!(p.after_pass(), Next::Done);
}

#[test]
fn block_line_fields() {
    let mut p = Polling::new(&env(4, 20), None, false, false);
    p.initialize_start_ptr(None, Some("100".to_string()), 0).unwrap();
    let b = block(100);
    let em = p.on_block(&b).unwrap();
    let fields: Vec<&str> = em.line.split(' ').collect();
    assert_eq!(fields.len(), 9);
    assert_eq!(fields[3], hex::encode([100u8; 48]));
    assert_eq!(fields[4], "99");
    assert_eq!(fields[5], hex::encode([99u8; 48]));
    assert_eq!(fields[6], "80");
    assert_eq!(fields[7], "1500000100");
    let wire = WireBlock::from_firehose(&b).unwrap().encode_to_vec();
    assert_eq!(fields[8], base64::engine::general_purpose::STANDARD.encode(wire));
}

#[test]
fn quiet_line_leaves_out_the_payload() {
    let mut loud = Polling::new(&env(4, 200), None, false, false);
    let mut quiet = Polling::new(&env(4, 200), None, false, true);
    let a = loud.on_block(&block(0)).unwrap().line;
    let b = quiet.on_block(&block(0)).unwrap().line;
    assert!(a.starts_with(&format!("{} ", b)));
    assert_eq!(b.split(' ').count(), 8);
    // genesis: parent 0, lib 0, empty parent hash
    assert_eq!(b, format!("FIRE BLOCK 0 {} 0  0 1500000000", hex::encode([0u8; 48])));
}

#[test]
fn out_of_order_block_is_refused() {
    let mut p = Polling::new(&env(4, 20), None, false, false);
    p.initialize_start_ptr(None, Some("10".to_string()), 0).unwrap();
    assert_eq!(p.on_block(&block(11)), Err(Error::InvalidRange));
    assert_eq!(p.ptr, 10);
    assert!(p.on_block(&block(10)).is_ok());
    assert_eq!(p.on_block(&block(10)), Err(Error::InvalidRange));
    assert_eq!(p.ptr, 11);
}

#[test]
fn unloggable_block_leaves_cursor() {
    let mut p = Polling::new(&env(4, 20), None, false, false);
    let mut b = block(0);
    b.previous_block = "*".to_string();
    assert_eq!(p.on_block(&b), Err(Error::Base64Decode));
    assert_eq!(p.ptr, 0);
}

#[test]
fn resume_from_cursor_file() {
    let mut p = Polling::new(&env(50, 20), Some(269_514), false, false);
    p.initialize_start_ptr(Some("269513".to_string()), None, 0).unwrap();
    assert_eq!(p.ptr, 269_513);
    assert_eq!(p.track_head(1_000_000), Some((269_513, 269_562)));
    let first = p.on_block(&block(269_513)).unwrap();
    assert!(!first.stop);
    let second = p.on_block(&block(269_514)).unwrap();
    assert!(second.stop);
    assert_eq!(second.cursor, "269515");
}

#[test]
fn cursor_text_resumes_after_last_block() {
    let mut p = Polling::new(&env(4, 20), None, false, false);
    p.initialize_start_ptr(None, Some("41".to_string()), 0).unwrap();
    let em = p.on_block(&block(41)).unwrap();
    let mut restarted = Polling::new(&env(4, 20), None, false, false);
    restarted.initialize_start_ptr(Some(em.cursor), Some("live".to_string()), 5).unwrap();
    assert_eq!(restarted.ptr, 42);
}

#[test]
fn live_start() {
    let mut p = Polling::new(&env(4, 20), None, false, false);
    assert!(Polling::needs_head(&None, &Some("live".to_string())));
    assert!(!Polling::needs_head(&Some("5".to_string()), &Some("live".to_string())));
    p.initialize_start_ptr(None, Some("live".to_string()), 1_000_000).unwrap();
    assert_eq!(p.ptr, 999_980);
}

#[test]
fn start_without_file_or_flag_is_zero() {
    let mut p = Polling::new(&env(4, 20), None, false, false);
    p.ptr = 7;
    p.initialize_start_ptr(None, None, 0).unwrap();
    assert_eq!(p.ptr, 0);
}

#[test]
fn bad_start_values() {
    let mut p = Polling::new(&env(4, 20), None, false, false);
    assert_eq!(p.initialize_start_ptr(Some("12x".to_string()), None, 0), Err(Error::ParseBlockPtrFailed));
    assert_eq!(p.initialize_start_ptr(None, Some("soon".to_string()), 0), Err(Error::ParseInt));
    assert_eq!(p.ptr, 0);
}

#[test]
fn irreversible_head_never_below_zero() {
    let p = Polling::new(&env(4, 20), None, false, false);
    assert_eq!(p.latest_irreversible_block_num(5), 0);
    assert_eq!(p.latest_irreversible_block_num(20), 0);
    assert_eq!(p.latest_irreversible_block_num(21), 1);
}

#[test]
fn batches_are_bounded_and_contiguous() {
    let mut p = Polling::new(&env(3, 0), None, false, false);
    assert_eq!(p.track_head(7), Some((0, 2)));
    for h in 0..3 {
        p.on_block(&block(h)).unwrap();
    }
    assert_eq!(p.next_batch(), Some((3, 5)));
    for h in 3..6 {
        p.on_block(&block(h)).unwrap();
    }
    assert_eq!(p.next_batch(), Some((6, 7)));
    for h in 6..8 {
        p.on_block(&block(h)).unwrap();
    }
    assert_eq!(p.next_batch(), None);
    assert_eq!(p.after_pass(), Next::Sleep(1000));
}

#[test]
fn errors_restart_or_stop() {
    let forever = Polling::new(&env(3, 0), None, true, false);
    let once = Polling::new(&env(3, 0), None, false, false);
    assert_eq!(forever.on_error(Error::RetriesReached), Next::Restart);
    assert_eq!(once.on_error(Error::RetriesReached), Next::Fail(Error::RetriesReached));
    assert_eq!(once.on_error(Error::StopBlockReached), Next::Done);
}

#[test]
fn fork_window_observes_and_prunes() {
    let mut w = ForkWindow::new(2);
    assert_eq!(w.observe(&block_with(10, &[1; 48], "5")), Ok(Observation::Inserted));
    assert_eq!(w.observe(&block_with(10, &[1; 48], "5")), Ok(Observation::Duplicate));
    assert_eq!(w.observe(&block_with(10, &[2; 48], "4")), Ok(Observation::Stale));
    assert_eq!(w.observe(&block_with(10, &[3; 48], "300")), Ok(Observation::Fork));
    assert_eq!(w.forks, vec![10]);
    assert_eq!(w.entries[0].indep_hash, b64(&[3; 48]));
    assert_eq!(w.observe(&block_with(11, &[4; 48], "6")), Ok(Observation::Inserted));
    w.prune(12);
    assert_eq!(w.entries.len(), 1);
    assert_eq!(w.entries[0].height, 11);
    assert_eq!(w.observe(&block_with(12, &[4; 48], "x")), Err(Error::Uint));
}

#[test]
fn engine_flags_a_fork() {
    let mut p = Polling::new(&env(3, 5), None, false, false);
    let first = p.on_block(&block_with(0, &[1; 48], "1")).unwrap();
    assert!(!first.fork);
    assert_eq!(p.window.entries.len(), 1);
}
