//! The backoff policy and retry state of the request executor.
//!
//! One logical request may take several physical HTTP attempts. After each
//! attempt the caller feeds what happened into [`RetryState::step`], which
//! decides whether to accept the response, wait and try again, or give up,
//! and updates the accumulated exponential delay. The delay starts at one
//! second and is multiplied by 5/4 on every server error; it is held as the
//! exact fraction `delay_num / delay_den` so no rounding ever occurs. Once
//! the accumulated delay passes [`DELAY_CEILING_SECS`] the caller must stop
//! retrying (see [`RetryState::exhausted`]).

use vstd::prelude::*;

use crate::text::{is_u64_str, parse_u64, u64_str_value};

verus! {

/// The HTTP status code the remote service uses for hard rate limiting.
pub const RATE_LIMIT_STATUS: u16 = 429;

/// Once the accumulated delay exceeds this many seconds, the executor gives
/// up rather than retrying further.
pub const DELAY_CEILING_SECS: u64 = 64;

/// What one physical HTTP attempt came to: a response, with its status code
/// and the raw bytes of its `Retry-After` header if one was present; a
/// transport-level failure to exchange anything with the server; or a
/// request that could not even be built, which signals a caller bug, not a
/// transient condition.
pub enum HttpOutcome {
    Response { status: u16, retry_after: Option<Vec<u8>> },
    TransportFailure,
    BuildFailure,
}

/// Why a logical request failed for good.
#[derive(Clone, Copy, PartialEq, Eq, Structural, Debug)]
pub enum RetryError {
    /// Rate limited without a `Retry-After` header (or with one that is not
    /// even visible ASCII, which the header API reports the same way).
    RetryAfterMissing,
    /// Rate limited with a `Retry-After` value that is not an integer count
    /// of seconds.
    RetryAfterUnparseable,
    /// A non-success status outside the rate-limit and server-error ranges.
    FatalStatus { status: u16 },
    /// A transport-level error: no response was obtained at all.
    Transport,
    /// The request could not be built, so no attempt was made.
    BuildFailed,
    /// The accumulated delay passed [`DELAY_CEILING_SECS`].
    TooManyRetries,
}

/// What the backoff policy tells the executor to do with one outcome.
#[derive(Clone, Copy, PartialEq, Eq, Structural, Debug)]
pub enum BackoffDecision {
    /// Success: hand the response to the caller.
    Accept,
    /// Rate limited: wait exactly this many seconds, reset the accumulated
    /// delay to base, and retry.
    WaitFixed { seconds: u64 },
    /// Server error: grow the accumulated delay and wait that long.
    WaitExponential,
    /// Give up on this logical request.
    Fail { error: RetryError },
}

/// What the executor should do next, as returned by [`RetryState::step`]:
/// either return the response, suspend for `num / den` seconds and retry,
/// or fail for good.
#[derive(Clone, Copy, PartialEq, Eq, Structural, Debug)]
pub enum StepAction {
    Accept,
    Sleep { num: u64, den: u64 },
    Fail { error: RetryError },
}

/// The status is in the HTTP success range.
pub open spec fn is_success(status: u16) -> bool {
    200 <= status < 300
}

/// The status is an HTTP server error.
pub open spec fn is_server_error(status: u16) -> bool {
    500 <= status < 600
}

/// Every byte is visible ASCII (or a tab): exactly the values for which the
/// header API hands the value out as a string at all.
pub open spec fn visible_header_ascii(s: Seq<u8>) -> bool {
    forall|i: int| 0 <= i < s.len() ==> (32 <= #[trigger] s[i] < 127 || s[i] == 9)
}

/// The `Retry-After` bytes are usable: a visible-ASCII decimal count of
/// seconds.
pub open spec fn usable_retry_after(s: Seq<u8>) -> bool {
    visible_header_ascii(s) && is_u64_str(s)
}

/// The backoff policy: how the executor must react to one HTTP outcome.
///
/// Success is accepted; a rate-limit status must carry an integral
/// `Retry-After` (a missing or malformed one is fatal, never a silent
/// fallback); a server error grows the exponential delay; anything else —
/// another status, a transport failure, or a request that could not be
/// built — is fatal at once.
pub open spec fn spec_decide(o: HttpOutcome) -> BackoffDecision {
    match o {
        HttpOutcome::TransportFailure => BackoffDecision::Fail { error: RetryError::Transport },
        HttpOutcome::BuildFailure => BackoffDecision::Fail { error: RetryError::BuildFailed },
        HttpOutcome::Response { status, retry_after } => {
            if is_success(status) {
                BackoffDecision::Accept
            } else if status == RATE_LIMIT_STATUS {
                match retry_after {
                    Option::None => BackoffDecision::Fail { error: RetryError::RetryAfterMissing },
                    Option::Some(h) => {
                        if !visible_header_ascii(h@) {
                            BackoffDecision::Fail { error: RetryError::RetryAfterMissing }
                        } else if is_u64_str(h@) {
                            BackoffDecision::WaitFixed { seconds: u64_str_value(h@) as u64 }
                        } else {
                            BackoffDecision::Fail { error: RetryError::RetryAfterUnparseable }
                        }
                    },
                }
            } else if is_server_error(status) {
                BackoffDecision::WaitExponential
            } else {
                BackoffDecision::Fail { error: RetryError::FatalStatus { status } }
            }
        },
    }
}

/// Checks that every byte is visible ASCII or a tab.
fn check_visible_ascii(s: &[u8]) -> (r: bool)
    ensures
        r == visible_header_ascii(s@),
{
    let mut i: usize = 0;
    let len = s.len();
    while i < len
        invariant
            0 <= i <= s@.len(),
            len == s@.len(),
            forall|k: int| 0 <= k < i ==> (32 <= #[trigger] s@[k] < 127 || s@[k] == 9),
        decreases s@.len() - i,
    {
        let b = s[i];
        if !(32 <= b && b < 127 || b == 9) {
            return false;
        }
        i = i + 1;
    }
    true
}

/// Applies the backoff policy to one HTTP outcome.
pub fn decide(o: &HttpOutcome) -> (d: BackoffDecision)
    ensures
        d == spec_decide(*o),
{
    match o {
        HttpOutcome::TransportFailure => BackoffDecision::Fail { error: RetryError::Transport },
        HttpOutcome::BuildFailure => BackoffDecision::Fail { error: RetryError::BuildFailed },
        HttpOutcome::Response { status, retry_after } => {
            let st = *status;
            if 200 <= st && st < 300 {
                BackoffDecision::Accept
            } else if st == RATE_LIMIT_STATUS {
                match retry_after {
                    Option::None => BackoffDecision::Fail {
                        error: RetryError::RetryAfterMissing,
                    },
                    Option::Some(h) => {
                        if !check_visible_ascii(h.as_slice()) {
                            BackoffDecision::Fail { error: RetryError::RetryAfterMissing }
                        } else {
                            match parse_u64(h.as_slice()) {
                                Option::Some(v) => BackoffDecision::WaitFixed { seconds: v },
                                Option::None => BackoffDecision::Fail {
                                    error: RetryError::RetryAfterUnparseable,
                                },
                            }
                        }
                    },
                }
            } else if 500 <= st && st < 600 {
                BackoffDecision::WaitExponential
            } else {
                BackoffDecision::Fail { error: RetryError::FatalStatus { status: st } }
            }
        },
    }
}

/// Five to the `k`-th power.
pub open spec fn pow5(k: nat) -> nat
    decreases k,
{
    if k == 0 {
        1
    } else {
        5 * pow5((k - 1) as nat)
    }
}

/// Four to the `k`-th power.
pub open spec fn pow4(k: nat) -> nat
    decreases k,
{
    if k == 0 {
        1
    } else {
        4 * pow4((k - 1) as nat)
    }
}

/// Both powers grow monotonically.
proof fn lemma_pow_le(j: nat, k: nat)
    requires
        j <= k,
    ensures
        pow5(j) <= pow5(k),
        pow4(j) <= pow4(k),
    decreases k,
{
    if j < k {
        lemma_pow_le(j, (k - 1) as nat);
    }
}

/// Concrete powers at the give-up boundary.
proof fn lemma_pow_values()
    ensures
        pow5(18) == 3814697265625,
        pow4(18) == 68719476736,
        pow5(19) == 19073486328125,
        pow4(19) == 274877906944,
{
    reveal_with_fuel(pow5, 21);
    reveal_with_fuel(pow4, 21);
}

/// Up to eighteen scalings the accumulated delay is still within the
/// ceiling; the nineteenth is the first to pass it.
proof fn lemma_ratio_within_ceiling(k: nat)
    requires
        k <= 18,
    ensures
        pow5(k) <= 64 * pow4(k),
    decreases 18 - k,
{
    if k == 18 {
        lemma_pow_values();
    } else {
        lemma_ratio_within_ceiling(k + 1);
        assert(pow5(k + 1) == 5 * pow5(k));
        assert(pow4(k + 1) == 4 * pow4(k));
    }
}

/// The executor-local retry state: the accumulated exponential delay, held
/// as the exact fraction `delay_num / delay_den` seconds.
pub struct RetryState {
    pub delay_num: u64,
    pub delay_den: u64,
}

impl RetryState {
    /// The state a fresh executor starts from: the base delay of one second,
    /// scaled `k` times for some `k` small enough that the fraction cannot
    /// overflow.
    pub open spec fn wf(self) -> bool {
        exists|k: nat|
            #![trigger pow5(k)]
            k <= 19 && self.delay_num == pow5(k) && self.delay_den == pow4(k)
    }

    /// The accumulated delay is back at the base value of one second.
    pub open spec fn is_base(self) -> bool {
        self.delay_num == 1 && self.delay_den == 1
    }

    /// The accumulated delay exceeds the ceiling: the executor must give up
    /// instead of issuing another attempt.
    pub open spec fn spec_exhausted(self) -> bool {
        self.delay_num > DELAY_CEILING_SECS * self.delay_den
    }

    /// A fresh state at the base delay.
    pub fn new() -> (s: RetryState)
        ensures
            s.wf(),
            s.is_base(),
            !s.spec_exhausted(),
    {
        let s = RetryState { delay_num: 1, delay_den: 1 };
        proof {
            assert(pow5(0) == 1 && pow4(0) == 1);
        }
        s
    }

    /// Whether the executor must give up before another attempt.
    pub fn exhausted(&self) -> (r: bool)
        requires
            self.wf(),
        ensures
            r == self.spec_exhausted(),
    {
        proof {
            let k = choose|k: nat|
                #![trigger pow5(k)]
                k <= 19 && self.delay_num == pow5(k) && self.delay_den == pow4(k);
            lemma_pow_le(k, 19);
            lemma_pow_values();
        }
        self.delay_num > DELAY_CEILING_SECS * self.delay_den
    }

    /// The state after feeding one outcome: a rate-limited wait resets the
    /// delay to base, a server error scales it by 5/4, anything else leaves
    /// it unchanged.
    pub open spec fn spec_step_state(self, o: HttpOutcome) -> RetryState {
        match spec_decide(o) {
            BackoffDecision::WaitFixed { seconds } => RetryState { delay_num: 1, delay_den: 1 },
            BackoffDecision::WaitExponential => RetryState {
                delay_num: (self.delay_num * 5) as u64,
                delay_den: (self.delay_den * 4) as u64,
            },
            _ => self,
        }
    }

    /// The action the executor must take for one outcome: accept a success
    /// at once; sleep the announced number of seconds on a rate limit; sleep
    /// the freshly grown delay on a server error; otherwise fail with the
    /// policy's error.
    pub open spec fn spec_step_action(self, o: HttpOutcome) -> StepAction {
        match spec_decide(o) {
            BackoffDecision::Accept => StepAction::Accept,
            BackoffDecision::WaitFixed { seconds } => StepAction::Sleep { num: seconds, den: 1 },
            BackoffDecision::WaitExponential => StepAction::Sleep {
                num: (self.delay_num * 5) as u64,
                den: (self.delay_den * 4) as u64,
            },
            BackoffDecision::Fail { error } => StepAction::Fail { error },
        }
    }

    /// Feeds one HTTP outcome into the retry state and says what to do next.
    pub fn step(&mut self, outcome: &HttpOutcome) -> (a: StepAction)
        requires
            old(self).wf(),
            !old(self).spec_exhausted(),
        ensures
            final(self).wf(),
            *final(self) == old(self).spec_step_state(*outcome),
            a == old(self).spec_step_action(*outcome),
    {
        let d = decide(outcome);
        match d {
            BackoffDecision::Accept => StepAction::Accept,
            BackoffDecision::WaitFixed { seconds } => {
                self.delay_num = 1;
                self.delay_den = 1;
                proof {
                    assert(pow5(0) == 1 && pow4(0) == 1);
                }
                StepAction::Sleep { num: seconds, den: 1 }
            },
            BackoffDecision::WaitExponential => {
                proof {
                    let k = choose|k: nat|
                        #![trigger pow5(k)]
                        k <= 19 && self.delay_num == pow5(k) && self.delay_den == pow4(k);
                    lemma_pow_values();
                    if k == 19 {
                        // Then the delay would already have passed the
                        // ceiling, contradicting the precondition.
                        assert(false);
                    }
                    lemma_pow_le(k, 18);
                    assert(pow5((k + 1) as nat) == 5 * pow5(k));
                    assert(pow4((k + 1) as nat) == 4 * pow4(k));
                }
                self.delay_num = self.delay_num * 5;
                self.delay_den = self.delay_den * 4;
                StepAction::Sleep { num: self.delay_num, den: self.delay_den }
            },
            BackoffDecision::Fail { error } => StepAction::Fail { error },
        }
    }
}

/// The outcome is a response with a status in the success range.
pub open spec fn success_outcome(o: HttpOutcome) -> bool {
    match o {
        HttpOutcome::Response { status, retry_after: _ } => is_success(status),
        HttpOutcome::TransportFailure => false,
        HttpOutcome::BuildFailure => false,
    }
}

/// The outcome is a response with a server-error status.
pub open spec fn server_error_outcome(o: HttpOutcome) -> bool {
    match o {
        HttpOutcome::Response { status, retry_after: _ } => is_server_error(status),
        HttpOutcome::TransportFailure => false,
        HttpOutcome::BuildFailure => false,
    }
}

/// Any response in the success range is returned to the caller on the very
/// attempt it arrived: the step neither sleeps nor changes the retry state.
pub proof fn lemma_success_accepted(s: RetryState, o: HttpOutcome)
    requires
        success_outcome(o),
    ensures
        s.spec_step_action(o) == StepAction::Accept,
        s.spec_step_state(o) == s,
{
}

/// A rate-limited response with an integral `Retry-After` of `n` seconds
/// makes the executor sleep exactly `n` seconds and reset its accumulated
/// delay to base, whatever the delay had grown to.
pub proof fn lemma_rate_limit_waits_and_resets(s: RetryState, h: Vec<u8>)
    requires
        usable_retry_after(h@),
    ensures
        s.spec_step_action(HttpOutcome::Response { status: 429, retry_after: Some(h) })
            == (StepAction::Sleep { num: u64_str_value(h@) as u64, den: 1 }),
        s.spec_step_state(HttpOutcome::Response { status: 429, retry_after: Some(h) }).is_base(),
{
}

/// A rate-limited response without a usable integral `Retry-After` is fatal:
/// missing (or invisible-ASCII) headers and non-integer values never fall
/// back to a default wait.
pub proof fn lemma_rate_limit_without_header_fails(s: RetryState, retry_after: Option<Vec<u8>>)
    requires
        retry_after matches Some(h) ==> !usable_retry_after(h@),
    ensures
        s.spec_step_action(HttpOutcome::Response { status: 429, retry_after })
            matches StepAction::Fail { error }
            && (error == RetryError::RetryAfterMissing || error == RetryError::RetryAfterUnparseable),
        s.spec_step_state(HttpOutcome::Response { status: 429, retry_after }) == s,
{
}

/// The retry state after starting fresh and feeding a sequence of outcomes,
/// one per physical attempt.
pub open spec fn state_after(outcomes: Seq<HttpOutcome>) -> RetryState
    decreases outcomes.len(),
{
    if outcomes.len() == 0 {
        RetryState { delay_num: 1, delay_den: 1 }
    } else {
        state_after(outcomes.drop_last()).spec_step_state(outcomes.last())
    }
}

/// For consecutive server errors the k-th wait is exactly the base delay
/// times the 5/4 scaling factor to the k-th power, held as the fraction
/// `5^k / 4^k` seconds. The give-up test trips exactly after the nineteenth
/// scaling, the first whose value passes the 64-second ceiling, so the
/// executor never grows the delay beyond that: it fails instead of retrying
/// further.
pub proof fn lemma_server_errors_back_off_exponentially(outcomes: Seq<HttpOutcome>)
    requires
        forall|i: int| 0 <= i < outcomes.len() ==> server_error_outcome(#[trigger] outcomes[i]),
        outcomes.len() <= 19,
    ensures
        state_after(outcomes).delay_num == pow5(outcomes.len()),
        state_after(outcomes).delay_den == pow4(outcomes.len()),
        state_after(outcomes).wf(),
        outcomes.len() >= 1 ==> state_after(outcomes.drop_last()).spec_step_action(
            outcomes.last(),
        ) == (StepAction::Sleep {
            num: pow5(outcomes.len()) as u64,
            den: pow4(outcomes.len()) as u64,
        }),
        state_after(outcomes).spec_exhausted() <==> outcomes.len() == 19,
    decreases outcomes.len(),
{
    lemma_pow_values();
    if outcomes.len() == 0 {
        assert(pow5(0) == 1 && pow4(0) == 1);
    } else {
        let prefix = outcomes.drop_last();
        assert(forall|i: int| 0 <= i < prefix.len() ==> server_error_outcome(#[trigger] prefix[i]));
        lemma_server_errors_back_off_exponentially(prefix);
        let n = prefix.len();
        lemma_pow_le(n, 18);
        assert(pow5((n + 1) as nat) == 5 * pow5(n));
        assert(pow4((n + 1) as nat) == 4 * pow4(n));
        if outcomes.len() <= 18 {
            lemma_ratio_within_ceiling(outcomes.len());
        }
    }
}

} // verus!
