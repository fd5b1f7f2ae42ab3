//! The decisions of the block stream served over gRPC: where a stream starts
//! and stops, the step of each block, and the fork-step filter.
use crate::decimal::{decimal_of, parse_u64, parse_u64_spec, to_decimal};
use crate::pb::Block;
use crate::result::Error;
use crate::types::FirehoseBlock;
use vstd::prelude::*;

verus! {

/// Fork step of a block that is above the irreversible head.
pub const STEP_NEW: i32 = 1;

/// Fork step of a block at or below the irreversible head.
pub const STEP_IRREVERSIBLE: i32 = 4;

/// A request for a stream of blocks.
#[derive(Clone, Debug, PartialEq, Eq)]
pub struct Request {
    /// Where the stream starts; negative counts back from the irreversible
    /// head.
    pub start_block_num: i64,
    /// A decimal height; when it parses it overrides `start_block_num`.
    pub start_cursor: String,
    /// Where the stream stops (exclusive); zero stops at the irreversible
    /// head.
    pub stop_block_num: u64,
    /// Steps to keep; empty keeps every step.
    pub fork_steps: Vec<i32>,
    /// `confirms:N` asks for another confirmation depth.
    pub irreversibility_condition: String,
}

/// One block of a stream.
#[derive(Clone, Debug, PartialEq, Eq)]
pub struct Response {
    /// The wire block, left out when it does not convert.
    pub block: Option<Block>,
    pub step: i32,
    /// The block's height in decimal.
    pub cursor: String,
}

/// The responses of a stream, handed out in order.
#[derive(Clone, Debug, PartialEq, Eq)]
pub struct BlocksStream(pub Vec<Result<Response, Error>>);

pub open spec fn abs_spec(n: i64) -> nat {
    if n < 0 {
        (-(n as int)) as nat
    } else {
        n as nat
    }
}

/// The first height of the stream.
pub open spec fn start_spec(req: Request, latest: u64) -> u64 {
    match parse_u64_spec(req.start_cursor@) {
        Some(c) => c,
        None => if req.start_block_num < 0 {
            if latest >= abs_spec(req.start_block_num) {
                (latest - abs_spec(req.start_block_num)) as u64
            } else {
                0
            }
        } else {
            req.start_block_num as u64
        },
    }
}

pub open spec fn confirms_prefix() -> Seq<char> {
    seq!['c', 'o', 'n', 'f', 'i', 'r', 'm', 's', ':']
}

/// The confirmation depth that the condition asks for, or `default`.
pub open spec fn confirms_spec(cond: Seq<char>, default: u64) -> u64 {
    if cond.len() >= 9 && cond.subrange(0, 9) == confirms_prefix() {
        match parse_u64_spec(cond.subrange(9, cond.len() as int)) {
            Some(n) => n,
            None => default,
        }
    } else {
        default
    }
}

/// The irreversible head under `confirms`, given the one under `own`:
/// the chain head is `latest + own`.
pub open spec fn latest_for_spec(latest: u64, own: u64, confirms: u64) -> u64 {
    let head = latest + own;
    if head - confirms < 0 {
        0
    } else if head - confirms > u64::MAX {
        u64::MAX
    } else {
        (head - confirms) as u64
    }
}

pub open spec fn step_spec(num: u64, latest: u64) -> i32 {
    if num <= latest {
        STEP_IRREVERSIBLE
    } else {
        STEP_NEW
    }
}

pub open spec fn keep_spec(fork_steps: Seq<i32>, step: i32) -> bool {
    fork_steps.len() == 0 || fork_steps.contains(step)
}

/// The responses that the fork-step filter keeps, in order: with no filter
/// all of them, else the successful ones whose step it names.
pub open spec fn filtered(fork_steps: Seq<i32>, rs: Seq<Result<Response, Error>>) -> Seq<Result<Response, Error>>
    decreases rs.len(),
{
    if rs.len() == 0 {
        rs
    } else {
        let rest = filtered(fork_steps, rs.drop_last());
        let keep = fork_steps.len() == 0 || match rs.last() {
            Ok(resp) => fork_steps.contains(resp.step),
            Err(_) => false,
        };
        if keep {
            rest.push(rs.last())
        } else {
            rest
        }
    }
}

impl Request {
    /// The first height of the stream: the cursor when it is a decimal
    /// height, else `start_block_num`, counted back from `latest` when
    /// negative (and never below zero).
    pub fn start_block(&self, latest: u64) -> (r: u64)
        ensures
            r == start_spec(*self, latest),
    {
        match parse_u64(self.start_cursor.as_str()) {
            Some(c) => c,
            None => {
                if self.start_block_num < 0 {
                    let neg: u64 = (-(self.start_block_num + 1)) as u64 + 1;
                    if latest >= neg {
                        latest - neg
                    } else {
                        0
                    }
                } else {
                    self.start_block_num as u64
                }
            },
        }
    }

    /// The confirmation depth of the request, or `default`.
    pub fn confirms(&self, default: u64) -> (r: u64)
        ensures
            r == confirms_spec(self.irreversibility_condition@, default),
    {
        let cond = self.irreversibility_condition.as_str();
        let n = cond.unicode_len();
        if n < 9 {
            return default;
        }
        let head = cond.substring_char(0, 9);
        let prefix = String::from_str("confirms:");
        proof {
            reveal_strlit("confirms:");
            assert(prefix@ =~= confirms_prefix());
        }
        if String::from_str(head) != prefix {
            return default;
        }
        match parse_u64(cond.substring_char(9, n)) {
            Some(c) => c,
            None => default,
        }
    }

    /// The range of a stream and the irreversible head that it uses:
    /// `(first, end, latest)`, with heights `first..end`, where `latest` is
    /// the irreversible head under the request's confirmation depth (`own`
    /// being the depth of `latest`).
    pub fn plan(&self, latest: u64, own: u64) -> (r: (u64, u64, u64))
        ensures
            r.0 == start_spec(*self, latest),
            r.2 == latest_for_spec(latest, own, confirms_spec(self.irreversibility_condition@, own)),
            r.1 == if self.stop_block_num != 0 {
                self.stop_block_num
            } else {
                r.2
            },
    {
        let start = self.start_block(latest);
        let confirms = self.confirms(own);
        let adjusted = latest_for(latest, own, confirms);
        (start, self.end_block(adjusted), adjusted)
    }

    /// Applies the fork-step filter to the responses of a stream.
    pub fn filter(&self, rs: Vec<Result<Response, Error>>) -> (r: Vec<Result<Response, Error>>)
        ensures
            r@ == filtered(self.fork_steps@, rs@),
    {
        let mut out: Vec<Result<Response, Error>> = Vec::new();
        let mut rest = rs;
        let ghost all = rest@;
        let n = rest.len();
        let mut k: usize = 0;
        assert(all.subrange(0, 0) =~= Seq::<Result<Response, Error>>::empty());
        while k < n
            invariant
                k <= n,
                n == all.len(),
                rest@ == all.subrange(k as int, n as int),
                out@ == filtered(self.fork_steps@, all.subrange(0, k as int)),
            decreases n - k,
        {
            let item = rest.remove(0);
            assert(item == all[k as int]);
            assert(all.subrange(0, k + 1).drop_last() =~= all.subrange(0, k as int));
            assert(rest@ =~= all.subrange(k + 1, n as int));
            let keep = match &item {
                Ok(resp) => self.keeps(resp.step),
                Err(_) => self.fork_steps.len() == 0,
            };
            if keep {
                out.push(item);
            }
            k = k + 1;
        }
        assert(all.subrange(0, n as int) =~= all);
        out
    }

    /// The height at which the stream stops (exclusive).
    pub fn end_block(&self, latest: u64) -> (r: u64)
        ensures
            r == if self.stop_block_num != 0 {
                self.stop_block_num
            } else {
                latest
            },
    {
        if self.stop_block_num != 0 {
            self.stop_block_num
        } else {
            latest
        }
    }

    /// Whether the fork-step filter keeps a block of this step.
    pub fn keeps(&self, step: i32) -> (r: bool)
        ensures
            r == keep_spec(self.fork_steps@, step),
    {
        if self.fork_steps.len() == 0 {
            return true;
        }
        let mut i: usize = 0;
        while i < self.fork_steps.len()
            invariant
                i <= self.fork_steps@.len(),
                forall|j: int| 0 <= j < i ==> self.fork_steps@[j] != step,
            decreases self.fork_steps@.len() - i,
        {
            if self.fork_steps[i] == step {
                assert(self.fork_steps@[i as int] == step);
                return true;
            }
            i = i + 1;
        }
        false
    }
}

/// The irreversible head under another confirmation depth.
pub fn latest_for(latest: u64, own: u64, confirms: u64) -> (r: u64)
    ensures
        r == latest_for_spec(latest, own, confirms),
{
    if confirms <= own {
        let extra = own - confirms;
        if latest > u64::MAX - extra {
            u64::MAX
        } else {
            latest + extra
        }
    } else {
        let less = confirms - own;
        if latest >= less {
            latest - less
        } else {
            0
        }
    }
}

/// The step of a block: irreversible at or below the irreversible head, new
/// above it.
pub fn step_of(num: u64, latest: u64) -> (r: i32)
    ensures
        r == step_spec(num, latest),
{
    if num <= latest {
        STEP_IRREVERSIBLE
    } else {
        STEP_NEW
    }
}

/// The response for height `num`, given what fetching the block gave.
pub fn response(num: u64, latest: u64, block: Result<FirehoseBlock, Error>) -> (r: Result<Response, Error>)
    ensures
        block is Err ==> r == Err::<Response, Error>(Error::BlockNotFound(num)),
        block matches Ok(b) ==> (r matches Ok(resp) && resp.step == step_spec(num, latest)
            && resp.cursor@ == decimal_of(num as nat) && (resp.block is Some <==> crate::pb::block_ok(b))
            && (resp.block matches Some(w) ==> crate::pb::block_is(w, b))),
{
    match block {
        Ok(b) => {
            let wire = match Block::from_firehose(&b) {
                Ok(w) => Some(w),
                Err(_) => None,
            };
            Ok(Response { block: wire, step: step_of(num, latest), cursor: to_decimal(num) })
        },
        Err(_) => Err(Error::BlockNotFound(num)),
    }
}

impl BlocksStream {
    /// A stream of these responses.
    pub fn from(v: Vec<Result<Response, Error>>) -> (r: BlocksStream)
        ensures
            r.0@ == v@,
    {
        BlocksStream(v)
    }

    /// The next response, in the order given.
    pub fn next(&mut self) -> (r: Option<Result<Response, Error>>)
        ensures
            old(self).0@.len() == 0 ==> r is None && final(self).0@.len() == 0,
            old(self).0@.len() > 0 ==> r == Some(old(self).0@[0]) && final(self).0@ == old(self).0@.drop_first(),
    {
        if self.0.len() == 0 {
            None
        } else {
            let first = self.0.remove(0);
            assert(self.0@ =~= old(self).0@.drop_first());
            Some(first)
        }
    }
}

} // verus!
