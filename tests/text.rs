use thegarii::cmd::Poll;
use thegarii::console::Ptr;
use thegarii::decimal::{parse_u64, to_decimal};
use thegarii::env::{Env, EnvArguments, EnvVars};
use thegarii::grpc::{latest_for, response, step_of, BlocksStream, Request, STEP_IRREVERSIBLE, STEP_NEW};
use thegarii::Error;

fn no_vars() -> EnvVars {
    EnvVars { block_time: None, endpoints: None, batch_blocks: None, ptr_file: None, retry: None, confirms: None, timeout: None }
}

#[test]
fn decimal_text() {
    assert_eq!(to_decimal(0), "0");
    assert_eq!(to_decimal(269_515), "269515");
    assert_eq!(to_decimal(u64::MAX), "18446744073709551615");
    assert_eq!(parse_u64("269513"), Some(269_513));
    assert_eq!(parse_u64("+7"), Some(7));
    assert_eq!(parse_u64(""), None);
    assert_eq!(parse_u64("+"), None);
    assert_eq!(parse_u64("-1"), None);
    assert_eq!(parse_u64("18446744073709551615"), Some(u64::MAX));
    assert_eq!(parse_u64("18446744073709551616"), None);
    for n in [0u64, 9, 10, 99, 100, 123_456_789, u64::MAX] {
        assert_eq!(parse_u64(&to_decimal(n)), Some(n));
    }
}

#[test]
fn poll_time_text() {
    assert_eq!(Poll::time(0), "");
    assert_eq!(Poll::time(59), "59 seconds");
    assert_eq!(Poll::time(3_600), "1 hours");
    assert_eq!(Poll::time(90_061), "1 days 1 hours 1 minutes 1 seconds");
    assert_eq!(Poll::time(2 * 86_400 + 120), "2 days 2 minutes");
}

#[test]
fn env_defaults() {
    let env = Env::new(&no_vars()).unwrap();
    assert_eq!(env.batch_blocks, 50);
    assert_eq!(env.block_time, 20_000);
    assert_eq!(env.confirms, 20);
    assert_eq!(env.endpoints, vec!["https://arweave.net".to_string()]);
    assert_eq!(env.ptr_file, "./arweave.ptr");
    let mut vars = no_vars();
    vars.ptr_file = Some("/tmp/ptr".to_string());
    assert_eq!(Env::new(&vars).unwrap().ptr_file, "/tmp/ptr");
    assert_eq!(env.retry, 10);
    assert_eq!(env.timeout, 120_000);
}

#[test]
fn env_from_variables() {
    let mut vars = no_vars();
    vars.endpoints = Some("https://a.example,https://b.example".to_string());
    vars.batch_blocks = Some("4".to_string());
    vars.retry = Some("2".to_string());
    let env = Env::new(&vars).unwrap();
    assert_eq!(env.endpoints, vec!["https://a.example".to_string(), "https://b.example".to_string()]);
    assert_eq!(env.batch_blocks, 4);
    assert_eq!(env.retry, 2);
    vars.retry = Some("300".to_string());
    assert_eq!(Env::new(&vars), Err(Error::ParseInt));
}

#[test]
fn endpoints_split_keeps_empty_pieces() {
    assert_eq!(Env::endpoints(&Some("a,,b,".to_string())), vec!["a", "", "b", ""]);
    assert_eq!(Env::endpoints(&Some(String::new())), vec![""]);
}

#[test]
fn env_from_args_and_builders() {
    let args = EnvArguments {
        batch_blocks: 20,
        block_time: 60_000,
        confirms: 20,
        endpoints: vec![],
        ptr_file: "./p".to_string(),
        retry: 10,
        timeout: 120_000,
    };
    let mut env = Env::from_args(args, &Some("https://x.example".to_string())).unwrap();
    assert_eq!(env.endpoints, vec!["https://x.example".to_string()]);
    env.with_block_time(1).with_batch_blocks(2).with_confirms(3).with_timeout(4).with_retry(5);
    env.with_endpoints(vec!["e".to_string()]);
    assert_eq!((env.block_time, env.batch_blocks, env.confirms, env.timeout, env.retry), (1, 2, 3, 4, 5));
    assert_eq!(env.endpoints, vec!["e".to_string()]);
}

#[test]
fn ptr_from_file_contents() {
    let p = Ptr::new("./ptr".to_string(), Some("42".to_string())).unwrap();
    assert_eq!(p.value, 42);
    let mut q = Ptr::new("./ptr".to_string(), None).unwrap();
    assert_eq!(q.value, 0);
    *q.get_mut() = 9;
    assert_eq!(q.value, 9);
    assert_eq!(Ptr::new("./ptr".to_string(), Some("x".to_string())), Err(Error::ParseInt));
}

fn request(start: i64, cursor: &str, stop: u64, cond: &str) -> Request {
    Request {
        start_block_num: start,
        start_cursor: cursor.to_string(),
        stop_block_num: stop,
        fork_steps: vec![],
        irreversibility_condition: cond.to_string(),
    }
}

#[test]
fn stream_start_and_end() {
    assert_eq!(request(5, "", 0, "").start_block(100), 5);
    assert_eq!(request(-10, "", 0, "").start_block(100), 90);
    assert_eq!(request(-200, "", 0, "").start_block(100), 0);
    assert_eq!(request(i64::MIN, "", 0, "").start_block(100), 0);
    assert_eq!(request(-10, "77", 0, "").start_block(100), 77);
    assert_eq!(request(0, "", 0, "").end_block(100), 100);
    assert_eq!(request(0, "", 120, "").end_block(100), 120);
}

#[test]
fn stream_confirmations() {
    assert_eq!(request(0, "", 0, "confirms:5").confirms(20), 5);
    assert_eq!(request(0, "", 0, "confirms:").confirms(20), 20);
    assert_eq!(request(0, "", 0, "").confirms(20), 20);
    assert_eq!(request(0, "", 0, "depth:5").confirms(20), 20);
    assert_eq!(latest_for(100, 20, 5), 115);
    assert_eq!(latest_for(100, 20, 50), 70);
    assert_eq!(latest_for(10, 20, 50), 0);
}

#[test]
fn stream_steps_and_filter() {
    assert_eq!(step_of(10, 10), STEP_IRREVERSIBLE);
    assert_eq!(step_of(11, 10), STEP_NEW);
    let mut req = request(0, "", 0, "");
    assert!(req.keeps(STEP_NEW));
    req.fork_steps = vec![STEP_IRREVERSIBLE];
    assert!(req.keeps(STEP_IRREVERSIBLE));
    assert!(!req.keeps(STEP_NEW));
}

#[test]
fn stream_response_and_order() {
    assert_eq!(response(3, 10, Err(Error::RetriesReached)), Err(Error::BlockNotFound(3)));
    let mut s = BlocksStream::from(vec![Err(Error::BlockNotFound(1)), Err(Error::BlockNotFound(2))]);
    assert_eq!(s.next(), Some(Err(Error::BlockNotFound(1))));
    assert_eq!(s.next(), Some(Err(Error::BlockNotFound(2))));
    assert_eq!(s.next(), None);
}

fn resp(step: i32, cursor: &str) -> Result<thegarii::grpc::Response, Error> {
    Ok(thegarii::grpc::Response { block: None, step, cursor: cursor.to_string() })
}

#[test]
fn stream_plan() {
    assert_eq!(request(-10, "", 0, "confirms:5").plan(100, 20), (90, 115, 115));
    assert_eq!(request(3, "", 50, "").plan(100, 20), (3, 50, 100));
}

#[test]
fn stream_filter_keeps_named_steps_in_order() {
    let mut req = request(0, "", 0, "");
    let all = vec![resp(STEP_IRREVERSIBLE, "1"), resp(STEP_NEW, "2"), Err(Error::BlockNotFound(3)), resp(STEP_IRREVERSIBLE, "4")];
    assert_eq!(req.filter(all.clone()), all);
    req.fork_steps = vec![STEP_IRREVERSIBLE];
    assert_eq!(req.filter(all), vec![resp(STEP_IRREVERSIBLE, "1"), resp(STEP_IRREVERSIBLE, "4")]);
}
