//! Plain values of the command-line tools.
use crate::decimal::{decimal_of, to_decimal};
use vstd::prelude::*;

verus! {

/// A dry run that polls a random sample of heights and estimates how long a
/// full sync takes.
#[derive(Clone, Debug, PartialEq, Eq)]
pub struct Poll {
    /// How many blocks to poll.
    pub blocks: u64,
    /// Lowest height of the sample.
    pub start: u64,
    /// Highest height of the sample; zero is the current head.
    pub end: u64,
}

/// How far the local store is behind the network.
#[derive(Clone, Debug, PartialEq, Eq)]
pub struct SyncingStatus {
    pub current: u64,
    pub syncing: u64,
}

/// `n` followed by its unit, or nothing when `n` is zero.
pub open spec fn amount(n: nat, unit: Seq<char>) -> Seq<char> {
    if n == 0 {
        Seq::empty()
    } else {
        decimal_of(n) + unit
    }
}

/// `a` and `b` separated by a space, leaving out an empty side.
pub open spec fn joined(a: Seq<char>, b: Seq<char>) -> Seq<char> {
    if b.len() == 0 {
        a
    } else if a.len() == 0 {
        b
    } else {
        a + seq![' '] + b
    }
}

/// A duration in seconds as days, hours, minutes and seconds, leaving out
/// the zero amounts.
pub open spec fn time_spec(secs: nat) -> Seq<char> {
    let days = secs / 86_400;
    let hours = (secs % 86_400) / 3_600;
    let minutes = (secs % 3_600) / 60;
    let seconds = secs % 60;
    joined(
        joined(
            joined(amount(days, " days"@), amount(hours, " hours"@)),
            amount(minutes, " minutes"@),
        ),
        amount(seconds, " seconds"@),
    )
}

fn push_amount(s: &mut String, n: u64, unit: &str)
    ensures
        final(s)@ == joined(old(s)@, amount(n as nat, unit@)),
{
    if n != 0 {
        proof {
            reveal_strlit(" ");
        }
        let ghost a = old(s)@;
        let d = to_decimal(n);
        proof {
            crate::decimal::lemma_decimal_round_trip(n as nat);
        }
        if s.as_str().unicode_len() != 0 {
            s.append(" ");
        }
        s.append(d.as_str());
        s.append(unit);
        assert(s@ =~= joined(a, amount(n as nat, unit@)));
    }
}

impl Poll {
    /// A duration in seconds as text, such as `1 days 2 hours 3 minutes 4 seconds`.
    pub fn time(secs: u64) -> (r: String)
        ensures
            r@ == time_spec(secs as nat),
    {
        let days = secs / 86_400;
        let hours = (secs % 86_400) / 3_600;
        let minutes = (secs % 3_600) / 60;
        let seconds = secs % 60;
        assert((secs % 86_400) % 3_600 == secs % 3_600) by (nonlinear_arith);
        let mut elapsed = String::new();
        push_amount(&mut elapsed, days, " days");
        push_amount(&mut elapsed, hours, " hours");
        push_amount(&mut elapsed, minutes, " minutes");
        push_amount(&mut elapsed, seconds, " seconds");
        elapsed
    }
}

} // verus!
