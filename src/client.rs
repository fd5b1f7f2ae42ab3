//! The endpoint pool and the retry policy shared by every block and
//! transaction request.
//!
//! A request goes to each endpoint once, in rotation order, before it backs
//! off; after each back-off the rotation starts again, until the configured
//! number of retry cycles is spent.
use crate::result::Error;
use rand::Rng;
use vstd::prelude::*;

verus! {

/// The first back-off, in milliseconds.
pub const FIRST_BACKOFF_MS: u64 = 10000;

/// Relies on rand's `Rng::gen_range` on the thread-local generator: for a
/// non-empty range it returns a value inside it (and panics on an empty one).
#[verifier::external_body]
fn random_below(n: usize) -> (r: usize)
    requires
        n > 0,
    ensures
        r < n,
{
    rand::thread_rng().gen_range(0..n)
}

/// The endpoints and the retry budget of the block client.
#[derive(Clone, Debug)]
pub struct Client {
    /// Base URLs, in rotation order.
    pub endpoints: Vec<String>,
    /// Per-request deadline in milliseconds.
    pub timeout: u64,
    /// Back-off cycles allowed after every endpoint has failed once.
    pub retry: u8,
}

/// `i` is the first endpoint, in rotation order, that `tried` does not mark.
pub open spec fn is_first_untried(tried: Seq<bool>, i: int) -> bool {
    &&& 0 <= i < tried.len()
    &&& !tried[i]
    &&& forall|j: int| 0 <= j < i ==> #[trigger] tried[j]
}

/// The marks of a cycle in which the first `k` endpoints have been tried.
pub open spec fn prefix_marks(n: nat, k: nat) -> Seq<bool> {
    Seq::new(n, |i: int| i < k)
}

/// The state of one request between attempts.
pub struct RetryModel {
    /// Endpoints tried in the current cycle; they are the first ones in
    /// rotation order, and the one being asked is the next.
    pub tried: nat,
    /// Back-off cycles spent.
    pub attempt: nat,
    /// The next back-off, in milliseconds.
    pub backoff: nat,
}

/// What follows a failed attempt.
#[derive(Clone, Copy, Debug, PartialEq, Eq, Structural)]
pub enum RetryStep {
    /// Ask this endpoint now.
    Next(usize),
    /// Sleep this many milliseconds, then ask the first endpoint again.
    Backoff(u64),
    /// Every endpoint failed in every cycle.
    Exhausted,
}

pub open spec fn doubled_backoff(b: nat) -> nat {
    if 2 * b > u64::MAX {
        u64::MAX as nat
    } else {
        2 * b
    }
}

/// The state of a request before its first attempt.
pub open spec fn initial_model() -> RetryModel {
    RetryModel { tried: 0, attempt: 0, backoff: FIRST_BACKOFF_MS as nat }
}

/// The state after the endpoint being asked fails, with `n` endpoints and
/// `retry` cycles allowed.
pub open spec fn after_failure(m: RetryModel, n: nat, retry: nat) -> RetryModel {
    if m.tried + 1 < n {
        RetryModel { tried: m.tried + 1, ..m }
    } else if m.attempt < retry {
        RetryModel { tried: 0, attempt: m.attempt + 1, backoff: doubled_backoff(m.backoff) }
    } else {
        m
    }
}

/// What the retry policy does after the endpoint being asked fails.
pub open spec fn failure_step(m: RetryModel, n: nat, retry: nat) -> RetryStep {
    if m.tried + 1 < n {
        RetryStep::Next((m.tried + 1) as usize)
    } else if m.attempt < retry {
        RetryStep::Backoff(m.backoff as u64)
    } else {
        RetryStep::Exhausted
    }
}

pub open spec fn model_wf(m: RetryModel, n: nat, retry: nat) -> bool {
    &&& m.tried < n
    &&& m.attempt <= retry
    &&& 0 < m.backoff <= u64::MAX
}

/// The state after `k` failed attempts in a row.
pub open spec fn after_failures(m: RetryModel, n: nat, retry: nat, k: nat) -> RetryModel
    decreases k,
{
    if k == 0 {
        m
    } else {
        after_failure(after_failures(m, n, retry, (k - 1) as nat), n, retry)
    }
}

/// Attempts that a request may still make after the current one.
pub open spec fn attempts_left(m: RetryModel, n: nat, retry: nat) -> int {
    (n - m.tried - 1) + (retry - m.attempt) * n
}

proof fn lemma_attempts_left_step(m: RetryModel, n: nat, retry: nat)
    requires
        model_wf(m, n, retry),
    ensures
        model_wf(after_failure(m, n, retry), n, retry),
        attempts_left(m, n, retry) >= 0,
        (failure_step(m, n, retry) is Exhausted) <==> attempts_left(m, n, retry) == 0,
        !(failure_step(m, n, retry) is Exhausted) ==> attempts_left(after_failure(m, n, retry), n, retry)
            == attempts_left(m, n, retry) - 1,
{
    assert((retry - m.attempt) * n >= 0) by (nonlinear_arith)
        requires
            m.attempt <= retry,
    ;
    if m.tried + 1 >= n && m.attempt < retry {
        assert((retry - m.attempt) * n == (retry - (m.attempt + 1)) * n + n) by (nonlinear_arith);
    }
    if m.tried + 1 >= n && m.attempt >= retry {
        assert(m.attempt == retry);
        assert((retry - m.attempt) * n == 0) by (nonlinear_arith)
            requires
                m.attempt == retry,
        ;
    }
    if m.tried + 1 < n {
        assert((retry - m.attempt) * n >= 0) by (nonlinear_arith)
            requires
                m.attempt <= retry,
        ;
    }
}

proof fn lemma_after_failures_left(n: nat, retry: nat, k: nat)
    requires
        n > 0,
        k <= attempts_left(initial_model(), n, retry),
    ensures
        model_wf(after_failures(initial_model(), n, retry, k), n, retry),
        attempts_left(after_failures(initial_model(), n, retry, k), n, retry)
            == attempts_left(initial_model(), n, retry) - k,
    decreases k,
{
    if k > 0 {
        lemma_after_failures_left(n, retry, (k - 1) as nat);
        lemma_attempts_left_step(after_failures(initial_model(), n, retry, (k - 1) as nat), n, retry);
    }
}

/// When every attempt fails, a request with `n` endpoints and `retry` retry
/// cycles makes exactly `n * (retry + 1)` attempts: each of the first
/// `n * (retry + 1) - 1` failures leads to another attempt, and the next one
/// ends the request with `RetriesReached`.
pub proof fn lemma_retry_exhaustion(n: nat, retry: nat)
    requires
        n > 0,
    ensures
        forall|k: nat| #![trigger after_failures(initial_model(), n, retry, k)]
            k + 1 < n * (retry + 1) ==> !(failure_step(after_failures(initial_model(), n, retry, k), n, retry) is Exhausted),
        failure_step(after_failures(initial_model(), n, retry, (n * (retry + 1) - 1) as nat), n, retry) is Exhausted,
{
    assert(attempts_left(initial_model(), n, retry) == n * (retry + 1) - 1) by (nonlinear_arith)
        requires
            attempts_left(initial_model(), n, retry) == (n - 1) + retry * n,
    ;
    assert forall|k: nat| #![trigger after_failures(initial_model(), n, retry, k)]
        k + 1 < n * (retry + 1) implies !(failure_step(after_failures(initial_model(), n, retry, k), n, retry) is Exhausted) by {
        lemma_after_failures_left(n, retry, k);
        lemma_attempts_left_step(after_failures(initial_model(), n, retry, k), n, retry);
    }
    let last = (n * (retry + 1) - 1) as nat;
    lemma_after_failures_left(n, retry, last);
    lemma_attempts_left_step(after_failures(initial_model(), n, retry, last), n, retry);
}

/// Within one cycle no endpoint is asked twice while another is untried:
/// the endpoint asked after a failure is the first untried one, and it was
/// not among those already tried.
pub proof fn lemma_cycle_coverage(m: RetryModel, n: nat, retry: nat)
    requires
        model_wf(m, n, retry),
        n <= usize::MAX,
    ensures
        failure_step(m, n, retry) matches RetryStep::Next(e) ==> {
            &&& is_first_untried(prefix_marks(n, after_failure(m, n, retry).tried), e as int)
            &&& e < n
            &&& !prefix_marks(n, (m.tried + 1) as nat)[e as int]
        },
{
}

/// The retry state of one request.
#[derive(Clone, Debug)]
pub struct Retry {
    tried: Vec<bool>,
    n_tried: usize,
    attempt: u8,
    backoff: u64,
}

impl Retry {
    pub closed spec fn view(&self) -> RetryModel {
        RetryModel { tried: self.n_tried as nat, attempt: self.attempt as nat, backoff: self.backoff as nat }
    }

    /// The state is that of a request to `c`: the marks are those of the
    /// endpoints tried in this cycle.
    pub closed spec fn wf(&self, c: &Client) -> bool {
        &&& self.tried@ == prefix_marks(c.endpoints@.len(), self.n_tried as nat)
        &&& model_wf(self@, c.endpoints@.len(), c.retry as nat)
    }

    /// The endpoint being asked.
    pub closed spec fn current(&self) -> nat {
        self.n_tried as nat
    }

    /// The endpoint that the current attempt goes to.
    pub fn endpoint(&self) -> (r: usize)
        ensures
            r == self.current(),
    {
        self.n_tried
    }
}

impl Client {
    /// A client for `endpoints`; fails with `EmptyEndpoints` when there is
    /// none.
    pub fn new(endpoints: Vec<String>, timeout: u64, retry: u8) -> (r: Result<Client, Error>)
        ensures
            endpoints@.len() == 0 ==> r == Err::<Client, Error>(Error::EmptyEndpoints),
            endpoints@.len() > 0 ==> (r matches Ok(c) && c.endpoints == endpoints && c.timeout
                == timeout && c.retry == retry),
    {
        if endpoints.len() == 0 {
            return Err(Error::EmptyEndpoints);
        }
        Ok(Client { endpoints, timeout, retry })
    }

    /// The next endpoint to ask: the first one in rotation order that
    /// `tried` does not mark, or, once all are marked, one drawn at random.
    pub fn next_endpoint(&self, tried: &Vec<bool>) -> (r: usize)
        requires
            self.endpoints@.len() > 0,
            tried@.len() == self.endpoints@.len(),
        ensures
            r < self.endpoints@.len(),
            (exists|i: int| 0 <= i < tried@.len() && !tried@[i]) ==> is_first_untried(tried@, r as int),
    {
        let mut i: usize = 0;
        while i < tried.len()
            invariant
                i <= tried@.len(),
                tried@.len() == self.endpoints@.len(),
                forall|j: int| 0 <= j < i ==> #[trigger] tried@[j],
            decreases tried@.len() - i,
        {
            if !tried[i] {
                return i;
            }
            i = i + 1;
        }
        random_below(self.endpoints.len())
    }

    /// The retry state of a new request: nothing tried yet, the first
    /// endpoint about to be asked.
    pub fn start_request(&self) -> (r: Retry)
        requires
            self.endpoints@.len() > 0,
        ensures
            r.wf(self),
            r@ == initial_model(),
            r.current() == 0,
            attempts_left(r@, self.endpoints@.len(), self.retry as nat) + 1 == self.endpoints@.len() * (
            self.retry + 1),
    {
        let n = self.endpoints.len();
        let mut tried: Vec<bool> = Vec::new();
        let mut i: usize = 0;
        while i < n
            invariant
                i <= n,
                tried@ == prefix_marks(i as nat, 0),
            decreases n - i,
        {
            tried.push(false);
            i = i + 1;
            assert(tried@ =~= prefix_marks(i as nat, 0));
        }
        let r = Retry { tried, n_tried: 0, attempt: 0, backoff: FIRST_BACKOFF_MS };
        assert(r.tried@ =~= prefix_marks(n as nat, 0));
        assert((n - 1) + self.retry * n + 1 == n * (self.retry + 1)) by (nonlinear_arith);
        r
    }

    /// Records that the endpoint being asked answered with a status other
    /// than success, and says what the request does next.
    pub fn on_failure(&self, state: &mut Retry) -> (r: RetryStep)
        requires
            old(state).wf(self),
        ensures
            final(state).wf(self),
            final(state)@ == after_failure(old(state)@, self.endpoints@.len(), self.retry as nat),
            r == failure_step(old(state)@, self.endpoints@.len(), self.retry as nat),
            r matches RetryStep::Next(e) ==> e == final(state).current(),
            r is Backoff ==> final(state).current() == 0,
    {
        let n = self.endpoints.len();
        let cur = state.n_tried;
        state.tried.set(cur, true);
        assert(state.tried@ =~= prefix_marks(n as nat, (cur + 1) as nat));
        if cur + 1 < n {
            let next = self.next_endpoint(&state.tried);
            assert(!state.tried@[(cur + 1) as int]);
            assert(is_first_untried(state.tried@, next as int));
            if next != cur + 1 {
                assert(next < cur + 1 ==> state.tried@[next as int]);
                assert(next > cur + 1 ==> state.tried@[(cur + 1) as int]);
            }
            state.n_tried = next;
            return RetryStep::Next(next);
        }
        if state.attempt < self.retry {
            let wait = state.backoff;
            let next_attempt = state.attempt + 1;
            let next_backoff = if wait > u64::MAX / 2 {
                u64::MAX
            } else {
                wait * 2
            };
            let mut i: usize = 0;
            while i < n
                invariant
                    i <= n,
                    n == state.tried@.len(),
                    forall|j: int| 0 <= j < i ==> !#[trigger] state.tried@[j],
                decreases n - i,
            {
                state.tried.set(i, false);
                i = i + 1;
            }
            assert(state.tried@ =~= prefix_marks(n as nat, 0));
            state.backoff = next_backoff;
            state.attempt = next_attempt;
            state.n_tried = 0;
            return RetryStep::Backoff(wait);
        }
        state.tried.set(cur, false);
        assert(state.tried@ =~= prefix_marks(n as nat, cur as nat));
        RetryStep::Exhausted
    }

    /// The error that ends a request after `step`, if it ends it.
    pub fn step_error(step: &RetryStep) -> (r: Option<Error>)
        ensures
            r == (if step is Exhausted {
                Some(Error::RetriesReached)
            } else {
                None::<Error>
            }),
    {
        match step {
            RetryStep::Exhausted => Some(Error::RetriesReached),
            _ => None,
        }
    }
}

} // verus!
