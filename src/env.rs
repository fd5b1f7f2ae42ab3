//! The configuration of the ingestion service.
//!
//! Values come either from command-line arguments or from environment
//! variables; the driver reads the variables and hands their text here.
use crate::decimal::{parse_bounded, parse_bounded_spec};
use crate::result::Error;
use vstd::prelude::*;

verus! {

pub const DEFAULT_BLOCK_TIME: u64 = 20_000;

pub const DEFAULT_BATCH_BLOCKS: u16 = 50;

pub const DEFAULT_RETRY: u8 = 10;

pub const DEFAULT_CONFIRMS: u64 = 20;

pub const DEFAULT_TIMEOUT: u64 = 120_000;

/// The configuration as given on the command line.
#[derive(Clone, Debug, PartialEq, Eq)]
pub struct EnvArguments {
    /// How many blocks are polled at one time.
    pub batch_blocks: u16,
    /// Time to produce a new block, in milliseconds.
    pub block_time: u64,
    /// Blocks below the head that count as safe from reorganisation.
    pub confirms: u64,
    /// Endpoints; empty means that the environment decides.
    pub endpoints: Vec<String>,
    /// Path of the cursor file.
    pub ptr_file: String,
    /// Retry cycles of a failed request.
    pub retry: u8,
    /// Timeout of a request, in milliseconds.
    pub timeout: u64,
}

/// The text of the configuration's environment variables, where set.
#[derive(Clone, Debug, PartialEq, Eq)]
pub struct EnvVars {
    pub block_time: Option<String>,
    pub endpoints: Option<String>,
    pub batch_blocks: Option<String>,
    pub ptr_file: Option<String>,
    pub retry: Option<String>,
    pub confirms: Option<String>,
    pub timeout: Option<String>,
}

/// The resolved configuration.
#[derive(Clone, Debug, PartialEq, Eq)]
pub struct Env {
    pub batch_blocks: u16,
    pub block_time: u64,
    pub confirms: u64,
    pub endpoints: Vec<String>,
    pub ptr_file: String,
    pub retry: u8,
    pub timeout: u64,
}

/// The value of a numeric variable: its default when unset, its parse (an
/// integer of at most `max`) when set.
pub open spec fn var_spec(v: Option<String>, default: nat, max: nat) -> Result<nat, Error> {
    match v {
        None => Ok(default),
        Some(s) => match parse_bounded_spec(s@, max) {
            Some(n) => Ok(n),
            None => Err(Error::ParseInt),
        },
    }
}

/// The pieces of `s` between commas, in order; a text without commas is one
/// piece.
pub open spec fn split_commas(s: Seq<char>) -> Seq<Seq<char>>
    decreases s.len(),
{
    if s.len() == 0 {
        seq![Seq::empty()]
    } else {
        let p = split_commas(s.drop_last());
        if s.last() == ',' {
            p.push(Seq::empty())
        } else {
            p.update(p.len() - 1, p.last().push(s.last()))
        }
    }
}

proof fn lemma_split_commas_nonempty(s: Seq<char>)
    ensures
        split_commas(s).len() > 0,
    decreases s.len(),
{
    if s.len() > 0 {
        lemma_split_commas_nonempty(s.drop_last());
    }
}

pub open spec fn views(v: Seq<String>) -> Seq<Seq<char>> {
    v.map_values(|x: String| x@)
}

pub open spec fn default_endpoint() -> Seq<char> {
    "https://arweave.net"@
}

/// The endpoints that the variable gives: the comma-separated pieces, or the
/// default endpoint when unset.
pub open spec fn endpoints_spec(v: Option<String>) -> Seq<Seq<char>> {
    match v {
        Some(s) => split_commas(s@),
        None => seq![default_endpoint()],
    }
}

fn read_var(v: &Option<String>, default: u64, max: u64) -> (r: Result<u64, Error>)
    requires
        default <= max,
    ensures
        match var_spec(*v, default as nat, max as nat) {
            Ok(n) => r == Ok::<u64, Error>(n as u64),
            Err(e) => r == Err::<u64, Error>(e),
        },
        r matches Ok(n) ==> n <= max,
{
    match v {
        None => Ok(default),
        Some(s) => match parse_bounded(s.as_str(), max) {
            Some(n) => Ok(n),
            None => Err(Error::ParseInt),
        },
    }
}

impl Env {
    /// `BLOCK_TIME`, or its default.
    pub fn block_time(v: &Option<String>) -> (r: Result<u64, Error>)
        ensures
            match var_spec(*v, DEFAULT_BLOCK_TIME as nat, u64::MAX as nat) {
                Ok(n) => r == Ok::<u64, Error>(n as u64),
                Err(e) => r == Err::<u64, Error>(e),
            },
    {
        read_var(v, DEFAULT_BLOCK_TIME, u64::MAX)
    }

    /// `BATCH_BLOCKS`, or its default.
    pub fn batch_blocks(v: &Option<String>) -> (r: Result<u16, Error>)
        ensures
            match var_spec(*v, DEFAULT_BATCH_BLOCKS as nat, u16::MAX as nat) {
                Ok(n) => r == Ok::<u16, Error>(n as u16),
                Err(e) => r == Err::<u16, Error>(e),
            },
    {
        match read_var(v, DEFAULT_BATCH_BLOCKS as u64, u16::MAX as u64) {
            Ok(n) => Ok(n as u16),
            Err(e) => Err(e),
        }
    }

    /// `RETRY`, or its default.
    pub fn retry(v: &Option<String>) -> (r: Result<u8, Error>)
        ensures
            match var_spec(*v, DEFAULT_RETRY as nat, u8::MAX as nat) {
                Ok(n) => r == Ok::<u8, Error>(n as u8),
                Err(e) => r == Err::<u8, Error>(e),
            },
    {
        match read_var(v, DEFAULT_RETRY as u64, u8::MAX as u64) {
            Ok(n) => Ok(n as u8),
            Err(e) => Err(e),
        }
    }

    /// `CONFIRMS`, or its default.
    pub fn confirms(v: &Option<String>) -> (r: Result<u64, Error>)
        ensures
            match var_spec(*v, DEFAULT_CONFIRMS as nat, u64::MAX as nat) {
                Ok(n) => r == Ok::<u64, Error>(n as u64),
                Err(e) => r == Err::<u64, Error>(e),
            },
    {
        read_var(v, DEFAULT_CONFIRMS, u64::MAX)
    }

    /// `TIMEOUT`, or its default.
    pub fn timeout(v: &Option<String>) -> (r: Result<u64, Error>)
        ensures
            match var_spec(*v, DEFAULT_TIMEOUT as nat, u64::MAX as nat) {
                Ok(n) => r == Ok::<u64, Error>(n as u64),
                Err(e) => r == Err::<u64, Error>(e),
            },
    {
        read_var(v, DEFAULT_TIMEOUT, u64::MAX)
    }

    /// `PTR_FILE`, or its default.
    pub fn ptr_file(v: &Option<String>) -> (r: String)
        ensures
            r@ == match v {
                Some(s) => s@,
                None => "./arweave.ptr"@,
            },
    {
        match v {
            Some(s) => s.clone(),
            None => String::from_str("./arweave.ptr"),
        }
    }

    /// `ENDPOINTS` split at commas, or the default endpoint.
    pub fn endpoints(v: &Option<String>) -> (r: Vec<String>)
        ensures
            views(r@) == endpoints_spec(*v),
    {
        match v {
            None => {
                let mut r: Vec<String> = Vec::new();
                r.push(String::from_str("https://arweave.net"));
                assert(views(r@) =~= seq![default_endpoint()]);
                r
            },
            Some(s) => {
                let t = s.as_str();
                let n = t.unicode_len();
                let mut parts: Vec<String> = Vec::new();
                let mut start: usize = 0;
                let mut i: usize = 0;
                proof {
                    reveal_strlit(",");
                    assert(t@.subrange(0, 0) =~= Seq::<char>::empty());
                    assert(views(parts@) + seq![t@.subrange(0, 0)] =~= split_commas(t@.subrange(0, 0)));
                }
                while i < n
                    invariant
                        n == t@.len(),
                        t@ == s@,
                        start <= i <= n,
                        views(parts@) + seq![t@.subrange(start as int, i as int)] == split_commas(
                            t@.subrange(0, i as int),
                        ),
                    decreases n - i,
                {
                    let c = t.get_char(i);
                    let ghost pre = t@.subrange(0, i as int);
                    let ghost cur = t@.subrange(start as int, i as int);
                    assert(t@.subrange(0, i + 1).drop_last() =~= pre);
                    assert(t@.subrange(0, i + 1).last() == c);
                    if c == ',' {
                        let piece = t.substring_char(start, i);
                        parts.push(String::from_str(piece));
                        start = i + 1;
                        assert(views(parts@) =~= views(parts@.drop_last()).push(cur));
                        assert(t@.subrange(start as int, i + 1) =~= Seq::<char>::empty());
                        assert(views(parts@) + seq![t@.subrange(start as int, i + 1)] =~= (views(
                            parts@.drop_last(),
                        ) + seq![cur]).push(Seq::empty()));
                    } else {
                        assert(t@.subrange(start as int, i + 1) =~= cur.push(c));
                        let ghost p = split_commas(pre);
                        assert(views(parts@) + seq![cur.push(c)] =~= p.update(p.len() - 1, p.last().push(c)));
                    }
                    i = i + 1;
                }
                let piece = t.substring_char(start, n);
                let ghost before = parts@;
                parts.push(String::from_str(piece));
                assert(t@.subrange(0, n as int) =~= t@);
                assert(views(parts@) =~= views(before) + seq![t@.subrange(start as int, n as int)]);
                parts
            },
        }
    }

    /// The configuration that the environment variables give.
    pub fn new(vars: &EnvVars) -> (r: Result<Env, Error>)
        ensures
            r matches Ok(env) ==> {
                &&& var_spec(vars.batch_blocks, DEFAULT_BATCH_BLOCKS as nat, u16::MAX as nat) == Ok::<nat, Error>(env.batch_blocks as nat)
                &&& var_spec(vars.block_time, DEFAULT_BLOCK_TIME as nat, u64::MAX as nat) == Ok::<nat, Error>(env.block_time as nat)
                &&& var_spec(vars.confirms, DEFAULT_CONFIRMS as nat, u64::MAX as nat) == Ok::<nat, Error>(env.confirms as nat)
                &&& views(env.endpoints@) == endpoints_spec(vars.endpoints)
                &&& var_spec(vars.retry, DEFAULT_RETRY as nat, u8::MAX as nat) == Ok::<nat, Error>(env.retry as nat)
                &&& var_spec(vars.timeout, DEFAULT_TIMEOUT as nat, u64::MAX as nat) == Ok::<nat, Error>(env.timeout as nat)
                &&& env.ptr_file@ == match vars.ptr_file {
                    Some(s) => s@,
                    None => "./arweave.ptr"@,
                }
            },
            r is Err ==> {
                ||| var_spec(vars.batch_blocks, DEFAULT_BATCH_BLOCKS as nat, u16::MAX as nat) is Err
                ||| var_spec(vars.block_time, DEFAULT_BLOCK_TIME as nat, u64::MAX as nat) is Err
                ||| var_spec(vars.confirms, DEFAULT_CONFIRMS as nat, u64::MAX as nat) is Err
                ||| var_spec(vars.retry, DEFAULT_RETRY as nat, u8::MAX as nat) is Err
                ||| var_spec(vars.timeout, DEFAULT_TIMEOUT as nat, u64::MAX as nat) is Err
            },
    {
        Ok(
            Env {
                batch_blocks: Env::batch_blocks(&vars.batch_blocks)?,
                block_time: Env::block_time(&vars.block_time)?,
                confirms: Env::confirms(&vars.confirms)?,
                endpoints: Env::endpoints(&vars.endpoints),
                ptr_file: Env::ptr_file(&vars.ptr_file),
                retry: Env::retry(&vars.retry)?,
                timeout: Env::timeout(&vars.timeout)?,
            },
        )
    }

    /// The configuration that the command line gives; with no endpoints on
    /// the command line, the `ENDPOINTS` variable `endpoints_var` decides.
    pub fn from_args(args: EnvArguments, endpoints_var: &Option<String>) -> (r: Result<Env, Error>)
        ensures
            r matches Ok(env) && env.batch_blocks == args.batch_blocks && env.block_time == args.block_time
                && env.confirms == args.confirms && env.ptr_file == args.ptr_file && env.retry == args.retry
                && env.timeout == args.timeout && (if args.endpoints@.len() == 0 {
                views(env.endpoints@) == endpoints_spec(*endpoints_var)
            } else {
                env.endpoints == args.endpoints
            }),
    {
        let endpoints = if args.endpoints.len() == 0 {
            Env::endpoints(endpoints_var)
        } else {
            args.endpoints
        };
        Ok(
            Env {
                batch_blocks: args.batch_blocks,
                block_time: args.block_time,
                confirms: args.confirms,
                endpoints,
                ptr_file: args.ptr_file,
                retry: args.retry,
                timeout: args.timeout,
            },
        )
    }

    /// Sets the block time.
    pub fn with_block_time(&mut self, block_time: u64) -> (r: &mut Self)
        ensures
            *r == (Env { block_time, ..*old(self) }),
            *final(self) == *final(r),
    {
        self.block_time = block_time;
        self
    }

    /// Sets the endpoints.
    pub fn with_endpoints(&mut self, endpoints: Vec<String>) -> (r: &mut Self)
        ensures
            *r == (Env { endpoints, ..*old(self) }),
            *final(self) == *final(r),
    {
        self.endpoints = endpoints;
        self
    }

    /// Sets the polling batch.
    pub fn with_batch_blocks(&mut self, batch_blocks: u16) -> (r: &mut Self)
        ensures
            *r == (Env { batch_blocks, ..*old(self) }),
            *final(self) == *final(r),
    {
        self.batch_blocks = batch_blocks;
        self
    }

    /// Sets the confirmation depth.
    pub fn with_confirms(&mut self, confirms: u64) -> (r: &mut Self)
        ensures
            *r == (Env { confirms, ..*old(self) }),
            *final(self) == *final(r),
    {
        self.confirms = confirms;
        self
    }

    /// Sets the request timeout.
    pub fn with_timeout(&mut self, timeout: u64) -> (r: &mut Self)
        ensures
            *r == (Env { timeout, ..*old(self) }),
            *final(self) == *final(r),
    {
        self.timeout = timeout;
        self
    }

    /// Sets the retry cycles.
    pub fn with_retry(&mut self, retry: u8) -> (r: &mut Self)
        ensures
            *r == (Env { retry, ..*old(self) }),
            *final(self) == *final(r),
    {
        self.retry = retry;
        self
    }
}

} // verus!
