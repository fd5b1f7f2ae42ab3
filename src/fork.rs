//! The sliding window of recent blocks near the head, which detects a
//! competing chain at a height already seen.
//!
//! Detection only: a longer competing chain is recorded and its height
//! flagged; nothing is emitted again.
use crate::bigint::{be_bytes, lemma_be_bytes_of_value, BIG_WIDTH};
use crate::pb::{optional_big, BigInt};
use crate::result::Error;
use crate::types::FirehoseBlock;
use vstd::prelude::*;

verus! {

/// What the window holds for one height.
#[derive(Clone, Debug, PartialEq, Eq)]
pub struct ForkEntry {
    pub height: u64,
    pub indep_hash: String,
    /// Cumulative difficulty, 32 big-endian bytes.
    pub cumulative_diff: Vec<u8>,
}

/// What observing a block found.
#[derive(Clone, Copy, Debug, PartialEq, Eq, Structural)]
pub enum Observation {
    /// The height was new to the window.
    Inserted,
    /// The window already holds this block.
    Duplicate,
    /// A different block with more cumulative difficulty: it replaces the
    /// entry and its height is flagged.
    Fork,
    /// A different block with no more cumulative difficulty: ignored.
    Stale,
}

/// `a` is greater than `b`, both read as big-endian numbers of one width.
pub open spec fn be_greater(a: Seq<u8>, b: Seq<u8>) -> bool
    decreases a.len(),
{
    if a.len() == 0 || b.len() == 0 {
        false
    } else if a[0] != b[0] {
        a[0] > b[0]
    } else {
        be_greater(a.drop_first(), b.drop_first())
    }
}

/// `i` is the first entry of `s` at height `h`.
pub open spec fn first_at(s: Seq<ForkEntry>, h: u64, i: int) -> bool {
    &&& 0 <= i < s.len()
    &&& s[i].height == h
    &&& forall|j: int| 0 <= j < i ==> (#[trigger] s[j]).height != h
}

pub open spec fn absent(s: Seq<ForkEntry>, h: u64) -> bool {
    forall|j: int| 0 <= j < s.len() ==> (#[trigger] s[j]).height != h
}

/// An entry stays while its height is within `confirms` of the head.
pub open spec fn stays(e: ForkEntry, confirms: u64, latest: u64) -> bool {
    e.height + confirms > latest
}

/// The entries that pruning keeps, in order.
pub open spec fn kept(s: Seq<ForkEntry>, confirms: u64, latest: u64) -> Seq<ForkEntry>
    decreases s.len(),
{
    if s.len() == 0 {
        s
    } else if stays(s.last(), confirms, latest) {
        kept(s.drop_last(), confirms, latest).push(s.last())
    } else {
        kept(s.drop_last(), confirms, latest)
    }
}

/// The cumulative difficulty of a block as 32 big-endian bytes; absent is
/// zero.
pub open spec fn cdiff_of(b: FirehoseBlock) -> Seq<u8> {
    be_bytes(optional_big(b.cumulative_diff)->Some_0, BIG_WIDTH as nat)
}

/// What observing `b` does when its cumulative difficulty reads: `w` is
/// the window before, `v` the window after, and `o` what was found.
pub open spec fn observed(w: ForkWindow, b: FirehoseBlock, v: ForkWindow, o: Observation) -> bool {
    let s = w.entries@;
    let h = b.height;
    &&& v.confirms == w.confirms
    &&& absent(s, h) ==> {
        &&& o == Observation::Inserted
        &&& v.entries@.drop_last() == s
        &&& v.entries@.last().height == h
        &&& v.entries@.last().indep_hash == b.indep_hash
        &&& v.entries@.last().cumulative_diff@ == cdiff_of(b)
        &&& v.forks@ == w.forks@
    }
    &&& forall|i: int| #[trigger] first_at(s, h, i) ==> {
        &&& s[i].indep_hash@ == b.indep_hash@ ==> (o == Observation::Duplicate && v.entries@ == s
            && v.forks@ == w.forks@)
        &&& (s[i].indep_hash@ != b.indep_hash@ && be_greater(cdiff_of(b), s[i].cumulative_diff@)) ==> {
            &&& o == Observation::Fork
            &&& v.entries@.len() == s.len()
            &&& v.entries@[i].height == h
            &&& v.entries@[i].indep_hash == b.indep_hash
            &&& v.entries@[i].cumulative_diff@ == cdiff_of(b)
            &&& forall|j: int| 0 <= j < s.len() && j != i ==> v.entries@[j] == s[j]
            &&& v.forks@ == w.forks@.push(h)
        }
        &&& (s[i].indep_hash@ != b.indep_hash@ && !be_greater(cdiff_of(b), s[i].cumulative_diff@)) ==> {
            &&& o == Observation::Stale
            &&& v.entries@ == s
            &&& v.forks@ == w.forks@
        }
    }
}

/// The fork window.
#[derive(Clone, Debug, PartialEq, Eq)]
pub struct ForkWindow {
    pub confirms: u64,
    pub entries: Vec<ForkEntry>,
    /// Heights at which a longer competing chain was seen.
    pub forks: Vec<u64>,
}

impl ForkWindow {
    /// Every entry holds a 32-byte cumulative difficulty.
    pub open spec fn wf(&self) -> bool {
        forall|i: int| 0 <= i < self.entries@.len() ==> (#[trigger] self.entries@[i]).cumulative_diff@.len()
            == BIG_WIDTH
    }

    /// An empty window of depth `confirms`.
    pub fn new(confirms: u64) -> (r: ForkWindow)
        ensures
            r.wf(),
            r.confirms == confirms,
            r.entries@.len() == 0,
            r.forks@.len() == 0,
    {
        ForkWindow { confirms, entries: Vec::new(), forks: Vec::new() }
    }

    /// The first entry at height `h`.
    pub fn find(&self, h: u64) -> (r: Option<usize>)
        ensures
            r matches Some(i) ==> first_at(self.entries@, h, i as int),
            r is None ==> absent(self.entries@, h),
    {
        let mut i: usize = 0;
        while i < self.entries.len()
            invariant
                i <= self.entries@.len(),
                forall|j: int| 0 <= j < i ==> (#[trigger] self.entries@[j]).height != h,
            decreases self.entries@.len() - i,
        {
            if self.entries[i].height == h {
                return Some(i);
            }
            i = i + 1;
        }
        None
    }

    /// Compares two 32-byte big-endian numbers.
    fn greater(a: &Vec<u8>, b: &Vec<u8>) -> (r: bool)
        requires
            a@.len() == b@.len(),
        ensures
            r == be_greater(a@, b@),
    {
        let mut i: usize = 0;
        assert(a@.subrange(0, a@.len() as int) =~= a@);
        assert(b@.subrange(0, b@.len() as int) =~= b@);
        assert(a@.subrange(0, 0) =~= b@.subrange(0, 0));
        while i < a.len()
            invariant
                a@.len() == b@.len(),
                i <= a@.len(),
                a@.subrange(0, i as int) == b@.subrange(0, i as int),
                be_greater(a@, b@) == be_greater(a@.subrange(i as int, a@.len() as int), b@.subrange(i as int, b@.len() as int)),
            decreases a@.len() - i,

        {
            let ghost sa = a@.subrange(i as int, a@.len() as int);
            let ghost sb = b@.subrange(i as int, b@.len() as int);
            assert(sa[0] == a@[i as int] && sb[0] == b@[i as int]);
            if a[i] != b[i] {
                return a[i] > b[i];
            }
            assert(sa.drop_first() =~= a@.subrange(i + 1, a@.len() as int));
            assert(sb.drop_first() =~= b@.subrange(i + 1, b@.len() as int));
            assert(a@.subrange(0, i + 1) =~= a@.subrange(0, i as int).push(a@[i as int]));
            assert(b@.subrange(0, i + 1) =~= b@.subrange(0, i as int).push(b@[i as int]));
            i = i + 1;
        }
        let ghost e = a@.subrange(i as int, a@.len() as int);
        assert(e.len() == 0);
        false
    }

    /// Observes a block: a new height is inserted; the same block again is a
    /// duplicate; a different block with more cumulative difficulty replaces
    /// the entry and flags the height; any other block is ignored. Fails,
    /// changing nothing, when the block's cumulative difficulty is not a
    /// decimal number below 2^256.
    pub fn observe(&mut self, b: &FirehoseBlock) -> (r: Result<Observation, Error>)
        requires
            old(self).wf(),
        ensures
            final(self).wf(),
            final(self).confirms == old(self).confirms,
            optional_big(b.cumulative_diff) is None ==> (r == Err::<Observation, Error>(Error::Uint)
                && final(self).entries@ == old(self).entries@ && final(self).forks@ == old(self).forks@),
            optional_big(b.cumulative_diff) is Some ==> (r matches Ok(o) && observed(*old(self), *b, *final(self), o)),
    {
        let cdiff = match BigInt::from_optional(&b.cumulative_diff) {
            Ok(c) => c.bytes,
            Err(e) => return Err(e),
        };
        proof {
            lemma_be_bytes_of_value(cdiff@);
        }
        let h = b.height;
        match self.find(h) {
            None => {
                self.entries.push(ForkEntry { height: h, indep_hash: b.indep_hash.clone(), cumulative_diff: cdiff });
                assert(self.entries@.drop_last() =~= old(self).entries@);
                Ok(Observation::Inserted)
            },
            Some(i) => {
                if self.entries[i].indep_hash == b.indep_hash {
                    return Ok(Observation::Duplicate);
                }
                if ForkWindow::greater(&cdiff, &self.entries[i].cumulative_diff) {
                    let ghost prev = self.entries@;
                    self.entries.set(i, ForkEntry { height: h, indep_hash: b.indep_hash.clone(), cumulative_diff: cdiff });
                    self.forks.push(h);
                    assert forall|k: int| first_at(old(self).entries@, h, k) implies k == i by {
                        if k < i {
                            assert(old(self).entries@[k].height != h);
                        } else if k > i {
                            assert(old(self).entries@[i as int].height == h);
                        }
                    }
                    Ok(Observation::Fork)
                } else {
                    assert forall|k: int| first_at(old(self).entries@, h, k) implies k == i by {
                        if k < i {
                            assert(old(self).entries@[k].height != h);
                        } else if k > i {
                            assert(old(self).entries@[i as int].height == h);
                        }
                    }
                    Ok(Observation::Stale)
                }
            },
        }
    }

    /// Drops the entries whose height is `confirms` or more below `latest`.
    pub fn prune(&mut self, latest: u64)
        requires
            old(self).wf(),
        ensures
            final(self).wf(),
            final(self).confirms == old(self).confirms,
            final(self).forks == old(self).forks,
            final(self).entries@ == kept(old(self).entries@, old(self).confirms, latest),
    {
        let ghost s = self.entries@;
        let n = self.entries.len();
        let mut out: Vec<ForkEntry> = Vec::new();
        let mut k: usize = 0;
        assert(s.subrange(0, 0) =~= Seq::<ForkEntry>::empty());
        while k < n
            invariant
                k <= n,
                n == s.len(),
                self.entries@ == s.subrange(k as int, n as int),
                out@ == kept(s.subrange(0, k as int), self.confirms, latest),
                forall|i: int| 0 <= i < s.len() ==> (#[trigger] s[i]).cumulative_diff@.len() == BIG_WIDTH,
                forall|i: int| 0 <= i < out@.len() ==> (#[trigger] out@[i]).cumulative_diff@.len() == BIG_WIDTH,
                self.confirms == old(self).confirms,
                self.forks == old(self).forks,
            decreases n - k,
        {
            let e = self.entries.remove(0);
            assert(e == s[k as int]);
            assert(s.subrange(0, k + 1).drop_last() =~= s.subrange(0, k as int));
            assert(self.entries@ =~= s.subrange(k + 1, n as int));
            let keep = e.height > latest || latest - e.height < self.confirms;
            if keep {
                out.push(e);
            }
            k = k + 1;
        }
        assert(s.subrange(0, n as int) =~= s);
        self.entries = out;
    }
}

} // verus!
