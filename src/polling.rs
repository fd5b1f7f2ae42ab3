//! The polling engine: a durable cursor that advances from the start height
//! to the moving irreversible head, one contiguous batch at a time, emitting
//! every block in strictly ascending height.
//!
//! The engine makes the decisions; its driver fetches, prints, writes the
//! cursor file and sleeps as the engine's answers say.
use crate::decimal::{decimal_of, parse_u64, parse_u64_spec, to_decimal};
use crate::emit::{base64_standard, base64_standard_of, block_line, block_line_spec, hex_encode, hex_of};
use crate::env::Env;
use crate::fork::{kept, observed, ForkWindow, Observation};
use crate::pb::{base64url_decode, base64url_decoded, block_is, block_ok, conversion_error};
use crate::result::Error;
use crate::types::FirehoseBlock;
use crate::wire::block_bytes;
use vstd::prelude::*;

verus! {

/// The start flag that asks to begin at the current irreversible head.
pub open spec fn live_flag() -> Seq<char> {
    seq!['l', 'i', 'v', 'e']
}

/// The last irreversible height for a head: `confirms` below it, and never
/// below zero.
pub open spec fn irreversible(head: u64, confirms: u64) -> u64 {
    if head > confirms {
        (head - confirms) as u64
    } else {
        0
    }
}

/// Where the engine starts: the cursor file when there is one, else the
/// start flag (`live` or a height), else height zero.
pub open spec fn start_ptr_spec(
    state: Option<Seq<char>>,
    flag: Option<Seq<char>>,
    head: u64,
    confirms: u64,
) -> Result<u64, Error> {
    match state {
        Some(c) => match parse_u64_spec(c) {
            Some(v) => Ok(v),
            None => Err(Error::ParseBlockPtrFailed),
        },
        None => match flag {
            Some(f) => if f == live_flag() {
                Ok(irreversible(head, confirms))
            } else {
                match parse_u64_spec(f) {
                    Some(v) => Ok(v),
                    None => Err(Error::ParseInt),
                }
            },
            None => Ok(0),
        },
    }
}

/// The text of an optional string.
pub open spec fn opt_view(o: Option<String>) -> Option<Seq<char>> {
    match o {
        Some(s) => Some(s@),
        None => None,
    }
}

/// The start needs the current head: there is no cursor file and the flag
/// is `live`.
pub open spec fn needs_head_spec(state: Option<Seq<char>>, flag: Option<Seq<char>>) -> bool {
    state is None && flag == Some(live_flag())
}

pub open spec fn parent_num_spec(num: u64) -> u64 {
    if num == 0 {
        0
    } else {
        (num - 1) as u64
    }
}

/// The block line of `b` whose wire form is `w`.
pub open spec fn firehose_line_spec(b: FirehoseBlock, confirms: u64, quiet: bool, w: crate::pb::Block) -> Seq<char> {
    block_line_spec(
        b.height,
        hex_of(base64url_decoded(b.indep_hash@)->Some_0),
        parent_num_spec(b.height),
        hex_of(base64url_decoded(b.previous_block@)->Some_0),
        irreversible(b.height, confirms),
        b.timestamp,
        if quiet {
            None
        } else {
            Some(base64_standard_of(block_bytes(w)))
        },
    )
}

/// A block can be logged: its hashes are base64url and it converts to the
/// wire form.
pub open spec fn log_ok(b: FirehoseBlock) -> bool {
    &&& base64url_decoded(b.indep_hash@) is Some
    &&& base64url_decoded(b.previous_block@) is Some
    &&& block_ok(b)
}

/// Emitting height `h` with the cursor at `before` leaves it at `after`:
/// only the block at the cursor is emitted, and the cursor moves past it.
pub open spec fn emits(before: u64, h: u64, after: u64) -> bool {
    h == before && after == h + 1
}

/// Heights assembled at once for a configured batch: a batch of zero still
/// moves one height at a time.
pub open spec fn batch_size(batch: u64) -> int {
    if batch == 0 {
        1
    } else {
        batch as int
    }
}

/// `first..=last` is the next batch: it starts at the cursor and runs to the
/// irreversible head or for a full batch, whichever comes first.
pub open spec fn is_next_batch(first: u64, last: u64, ptr: u64, latest: u64, batch: u64) -> bool {
    &&& first == ptr
    &&& first <= last <= latest
    &&& last - first + 1 == if latest - ptr + 1 <= batch_size(batch) {
        latest - ptr + 1
    } else {
        batch_size(batch)
    }
}

/// What the driver does after a pass over the head.
#[derive(Clone, Copy, Debug, PartialEq, Eq, Structural)]
pub enum Next {
    /// The end height has been emitted: stop normally.
    Done,
    /// Sleep this many milliseconds, then look at the head again.
    Sleep(u64),
    /// Start the loop again, keeping the cursor.
    Restart,
    /// Stop with this error.
    Fail(Error),
}

/// What the driver does with one accepted block, in this order: print the
/// line, write the cursor text to the cursor file, and stop normally if
/// `stop` is set.
#[derive(Clone, Debug, PartialEq, Eq)]
pub struct Emission {
    pub line: String,
    pub cursor: String,
    pub stop: bool,
    /// The block belongs to a longer chain than the one seen at its height.
    pub fork: bool,
}

/// The polling engine.
#[derive(Clone, Debug)]
pub struct Polling {
    /// Heights assembled at once.
    pub batch: u64,
    /// Milliseconds to sleep once caught up.
    pub block_time: u64,
    /// Depth below the head that counts as irreversible.
    pub confirms: u64,
    /// Height at which to stop, inclusive.
    pub end: Option<u64>,
    /// Restart on errors instead of stopping.
    pub forever: bool,
    /// Last irreversible height seen.
    pub latest: u64,
    /// Next height to emit.
    pub ptr: u64,
    /// Leave the payload out of block lines.
    pub quiet: bool,
    /// Recent blocks near the head.
    pub window: ForkWindow,
}

impl Polling {
    /// An engine for the configuration `env`, at height zero until
    /// `initialize_start_ptr` places it.
    pub fn new(env: &Env, end: Option<u64>, forever: bool, quiet: bool) -> (r: Polling)
        ensures
            r.batch == env.batch_blocks as u64,
            r.block_time == env.block_time,
            r.confirms == env.confirms,
            r.end == end,
            r.forever == forever,
            r.quiet == quiet,
            r.latest == 0,
            r.ptr == 0,
            r.window.wf(),
            r.window.confirms == env.confirms,
            r.window.entries@.len() == 0,
    {
        Polling {
            batch: env.batch_blocks as u64,
            block_time: env.block_time,
            confirms: env.confirms,
            end,
            forever,
            latest: 0,
            ptr: 0,
            quiet,
            window: ForkWindow::new(env.confirms),
        }
    }

    /// The last irreversible height for a head.
    pub fn latest_irreversible_block_num(&self, head: u64) -> (r: u64)
        ensures
            r == irreversible(head, self.confirms),
    {
        if head < self.confirms {
            0
        } else {
            head - self.confirms
        }
    }

    /// Reads the cursor file's text.
    pub fn start_ptr_from_state(content: &str) -> (r: Result<u64, Error>)
        ensures
            r == match parse_u64_spec(content@) {
                Some(v) => Ok::<u64, Error>(v),
                None => Err(Error::ParseBlockPtrFailed),
            },
    {
        match parse_u64(content) {
            Some(v) => Ok(v),
            None => Err(Error::ParseBlockPtrFailed),
        }
    }

    /// Reads an explicit start height.
    pub fn start_ptr_from_flag_value(value: &str) -> (r: Result<u64, Error>)
        ensures
            r == match parse_u64_spec(value@) {
                Some(v) => Ok::<u64, Error>(v),
                None => Err(Error::ParseInt),
            },
    {
        match parse_u64(value) {
            Some(v) => Ok(v),
            None => Err(Error::ParseInt),
        }
    }

    /// Whether the start flag is `live`.
    pub fn is_live(flag: &str) -> (r: bool)
        ensures
            r == (flag@ == live_flag()),
    {
        let live = String::from_str("live");
        proof {
            reveal_strlit("live");
            assert(live@ =~= live_flag());
        }
        let f = String::from_str(flag);
        f == live
    }

    /// Whether placing the cursor needs the current head.
    pub fn needs_head(state: &Option<String>, flag: &Option<String>) -> (r: bool)
        ensures
            r == needs_head_spec(opt_view(*state), opt_view(*flag)),
    {
        match (state, flag) {
            (None, Some(f)) => Polling::is_live(f.as_str()),
            _ => false,
        }
    }

    /// Places the cursor: from the cursor file's text `state` when there is
    /// one, else from the start flag (`live` uses the current `head`), else at
    /// zero. On an error the cursor stays where it was.
    pub fn initialize_start_ptr(&mut self, state: Option<String>, flag: Option<String>, head: u64) -> (r: Result<(), Error>)
        ensures
            final(self).ptr == match start_ptr_spec(
                opt_view(state),
                opt_view(flag),
                head,
                old(self).confirms,
            ) {
                Ok(p) => p,
                Err(_) => old(self).ptr,
            },
            r == match start_ptr_spec(opt_view(state), opt_view(flag), head, old(self).confirms) {
                Ok(_) => Ok::<(), Error>(()),
                Err(e) => Err(e),
            },
            final(self).confirms == old(self).confirms,
            final(self).batch == old(self).batch,
            final(self).end == old(self).end,
            final(self).latest == old(self).latest,
            final(self).quiet == old(self).quiet,
            final(self).forever == old(self).forever,
            final(self).block_time == old(self).block_time,
            final(self).window == old(self).window,
    {
        let p = match state {
            Some(c) => Polling::start_ptr_from_state(c.as_str()),
            None => match flag {
                Some(f) => {
                    if Polling::is_live(f.as_str()) {
                        Ok(self.latest_irreversible_block_num(head))
                    } else {
                        Polling::start_ptr_from_flag_value(f.as_str())
                    }
                },
                None => Ok(0),
            },
        };
        match p {
            Ok(v) => {
                self.ptr = v;
                Ok(())
            },
            Err(e) => Err(e),
        }
    }

    /// Records a new head and returns the next batch of heights to assemble,
    /// `first..=last`, or `None` when the cursor is past the irreversible
    /// head. A batch holds at most `batch` heights (at least one).
    pub fn track_head(&mut self, head: u64) -> (r: Option<(u64, u64)>)
        ensures
            final(self).latest == irreversible(head, old(self).confirms),
            final(self).ptr == old(self).ptr,
            final(self).confirms == old(self).confirms,
            final(self).batch == old(self).batch,
            final(self).end == old(self).end,
            final(self).quiet == old(self).quiet,
            final(self).forever == old(self).forever,
            final(self).block_time == old(self).block_time,
            final(self).window == old(self).window,
            final(self).ptr > final(self).latest ==> r is None,
            final(self).ptr <= final(self).latest ==> (r matches Some((first, last)) && is_next_batch(
                first,
                last,
                final(self).ptr,
                final(self).latest,
                old(self).batch,
            )),
    {
        self.latest = self.latest_irreversible_block_num(head);
        self.next_batch()
    }

    /// The next batch of heights to assemble, as `track_head` gives it.
    pub fn next_batch(&self) -> (r: Option<(u64, u64)>)
        ensures
            self.ptr > self.latest ==> r is None,
            self.ptr <= self.latest ==> (r matches Some((first, last)) && is_next_batch(
                first,
                last,
                self.ptr,
                self.latest,
                self.batch,
            )),
    {
        if self.ptr > self.latest {
            return None;
        }
        let size = if self.batch == 0 {
            1
        } else {
            self.batch
        };
        if self.latest - self.ptr < size {
            Some((self.ptr, self.latest))
        } else {
            Some((self.ptr, self.ptr + (size - 1)))
        }
    }

    /// The line that carries `b`.
    pub fn firehose_log(&self, b: &FirehoseBlock) -> (r: Result<String, Error>)
        ensures
            log_ok(*b) ==> (r matches Ok(line) && exists|w: crate::pb::Block|
                block_is(w, *b) && line@ == firehose_line_spec(*b, self.confirms, self.quiet, w)),
            !log_ok(*b) ==> (r matches Err(e) && conversion_error(e)),
    {
        let block_hash = match base64url_decode(b.indep_hash.as_str()) {
            Ok(h) => h,
            Err(_) => return Err(Error::Base64Decode),
        };
        let parent_hash = match base64url_decode(b.previous_block.as_str()) {
            Ok(h) => h,
            Err(_) => return Err(Error::Base64Decode),
        };
        let num = b.height;
        let parent_num = if num == 0 {
            0
        } else {
            num - 1
        };
        let lib = self.latest_irreversible_block_num(num);
        let encoded = crate::pb::Block::from_firehose(b)?;
        let hash_hex = hex_encode(&block_hash);
        let parent_hex = hex_encode(&parent_hash);
        if self.quiet {
            Ok(block_line(num, hash_hex.as_str(), parent_num, parent_hex.as_str(), lib, b.timestamp, None))
        } else {
            let bytes = encoded.encode_to_vec();
            let payload = base64_standard(&bytes);
            Ok(
                block_line(
                    num,
                    hash_hex.as_str(),
                    parent_num,
                    parent_hex.as_str(),
                    lib,
                    b.timestamp,
                    Some(payload.as_str()),
                ),
            )
        }
    }

    /// Accepts the next block: it must be the block at the cursor. The cursor
    /// then moves past it, and the driver prints the line, writes the new
    /// cursor, and stops if this was the end height. Any other block, or one
    /// that cannot be logged, is refused and the cursor stays.
    pub fn on_block(&mut self, b: &FirehoseBlock) -> (r: Result<Emission, Error>)
        requires
            old(self).window.wf(),
        ensures
            final(self).window.wf(),
            r is Err ==> final(self).window == old(self).window,
            (b.height == old(self).ptr && b.height < u64::MAX && log_ok(*b)) ==> (r matches Ok(em) && {
                &&& emits(old(self).ptr, b.height, final(self).ptr)
                &&& em.cursor@ == decimal_of((b.height + 1) as nat)
                &&& em.stop == (old(self).end == Some(b.height))
                &&& exists|w: crate::pb::Block|
                    block_is(w, *b) && em.line@ == firehose_line_spec(*b, old(self).confirms, old(self).quiet, w)
                &&& exists|mid: ForkWindow, o: Observation| {
                    &&& observed(old(self).window, *b, mid, o)
                    &&& em.fork == (o == Observation::Fork)
                    &&& final(self).window.confirms == old(self).window.confirms
                    &&& final(self).window.entries@ == kept(mid.entries@, old(self).window.confirms, old(self).latest)
                    &&& final(self).window.forks == mid.forks
                }
            }),
            (b.height != old(self).ptr || b.height == u64::MAX) ==> r == Err::<Emission, Error>(Error::InvalidRange),
            r is Err ==> final(self).ptr == old(self).ptr,
            (b.height == old(self).ptr && b.height < u64::MAX && !log_ok(*b)) ==> (r matches Err(e) && conversion_error(e)),
            final(self).latest == old(self).latest,
            final(self).confirms == old(self).confirms,
            final(self).batch == old(self).batch,
            final(self).end == old(self).end,
            final(self).quiet == old(self).quiet,
            final(self).forever == old(self).forever,
            final(self).block_time == old(self).block_time,
    {
        let height = b.height;
        if height != self.ptr || height == u64::MAX {
            return Err(Error::InvalidRange);
        }
        let line = self.firehose_log(b)?;
        let ghost before = self.window;
        let obs = self.window.observe(b);
        let ghost mid = self.window;
        let fork = match obs {
            Ok(o) => o == Observation::Fork,
            Err(_) => false,
        };
        self.window.prune(self.latest);
        proof {
            let o = obs->Ok_0;
            assert(observed(before, *b, mid, o));
        }
        self.ptr = height + 1;
        let cursor = to_decimal(self.ptr);
        let stop = match self.end {
            Some(e) => e == height,
            None => false,
        };
        Ok(Emission { line, cursor, stop, fork })
    }

    /// What follows a pass that ended without error: stop once the end
    /// height is behind the cursor, else sleep a block time.
    pub fn after_pass(&self) -> (r: Next)
        ensures
            (self.end matches Some(e) && self.ptr > e) ==> r == Next::Done,
            !(self.end matches Some(e) && self.ptr > e) ==> r == Next::Sleep(self.block_time),
    {
        match self.end {
            Some(e) => {
                if self.ptr > e {
                    return Next::Done;
                }
            },
            None => {},
        }
        Next::Sleep(self.block_time)
    }

    /// What follows a pass that ended with `e`: reaching the end height stops
    /// normally; any other error restarts the loop in `forever` mode and stops
    /// the engine otherwise.
    pub fn on_error(&self, e: Error) -> (r: Next)
        ensures
            e == Error::StopBlockReached ==> r == Next::Done,
            e != Error::StopBlockReached ==> r == (if self.forever {
                Next::Restart
            } else {
                Next::Fail(e)
            }),
    {
        if e == Error::StopBlockReached {
            Next::Done
        } else if self.forever {
            Next::Restart
        } else {
            Next::Fail(e)
        }
    }
}

proof fn lemma_emitted_from_start(ptrs: Seq<u64>, hs: Seq<u64>, k: int)
    requires
        ptrs.len() == hs.len() + 1,
        forall|i: int| 0 <= i < hs.len() ==> emits(ptrs[i], #[trigger] hs[i], ptrs[i + 1]),
        0 <= k < hs.len(),
    ensures
        hs[k] == ptrs[0] + k,
    decreases k,
{
    if k > 0 {
        lemma_emitted_from_start(ptrs, hs, k - 1);
        assert(emits(ptrs[k - 1], hs[k - 1], ptrs[k]));
        assert(emits(ptrs[k], hs[k], ptrs[k + 1]));
    } else {
        assert(emits(ptrs[0], hs[0], ptrs[1]));
    }
}

/// Emitted heights are contiguous: in a run of blocks accepted by
/// `on_block`, with the cursor at `ptrs[i]` before the `i`-th block `hs[i]`,
/// the `i`-th block is at the first cursor plus `i`, and every height is one
/// more than the height emitted before it.
pub proof fn lemma_monotonic_emission(ptrs: Seq<u64>, hs: Seq<u64>)
    requires
        ptrs.len() == hs.len() + 1,
        forall|i: int| 0 <= i < hs.len() ==> emits(ptrs[i], #[trigger] hs[i], ptrs[i + 1]),
    ensures
        forall|i: int| 0 <= i < hs.len() ==> #[trigger] hs[i] == ptrs[0] + i,
        forall|i: int| 0 <= i < hs.len() - 1 ==> #[trigger] hs[i + 1] == hs[i] + 1,
{
    assert forall|i: int| 0 <= i < hs.len() implies #[trigger] hs[i] == ptrs[0] + i by {
        lemma_emitted_from_start(ptrs, hs, i);
    }
    assert forall|i: int| 0 <= i < hs.len() - 1 implies #[trigger] hs[i + 1] == hs[i] + 1 by {
        lemma_emitted_from_start(ptrs, hs, i);
        lemma_emitted_from_start(ptrs, hs, i + 1);
    }
}

/// A restart resumes right after the last emitted block: the cursor text
/// written after emitting height `h` places the cursor at `h + 1`, whatever
/// the start flag and the head.
pub proof fn lemma_cursor_durability(h: u64, flag: Option<Seq<char>>, head: u64, confirms: u64)
    requires
        h < u64::MAX,
    ensures
        start_ptr_spec(Some(decimal_of((h + 1) as nat)), flag, head, confirms) == Ok::<u64, Error>((h + 1) as u64),
{
    crate::decimal::lemma_parse_to_decimal((h + 1) as u64);
}

} // verus!
