//! What the protocol client decides: the address of the endpoint, how a
//! response is read, when a failed call is tried again, and after which
//! delay.
use crate::error::Error;
use crate::error::ErrorView;
use crate::error::RpcError;
use crate::error::RpcErrorView;
use crate::json::Json;
use crate::rpc::types::JsonRpcResponse;
use crate::text::chars_of;
use crate::text::push_chars;
use crate::text::push_text;
use vstd::prelude::*;

verus! {

/// When and how often a failed call is tried again.
///
/// Delays are whole milliseconds. After each retry the delay is multiplied
/// by the backoff factor, which is given in thousandths, and is capped at
/// the largest delay.
#[derive(Debug, Clone, Copy)]
pub struct RetryConfig {
    /// How many times a call is tried again; 0 for a single attempt.
    pub max_retries: u32,
    /// The delay before the first retry, in milliseconds.
    pub initial_delay_ms: u64,
    /// The factor by which the delay grows, in thousandths: 2000 doubles it.
    pub backoff_permille: u64,
    /// The largest delay, in milliseconds.
    pub max_delay_ms: u64,
}

impl Default for RetryConfig {
    /// Three retries, the first after 100 ms, each delay twice the one
    /// before, and none longer than 5 s.
    fn default() -> (r: Self)
        ensures
            r.max_retries == 3,
            r.initial_delay_ms == 100,
            r.backoff_permille == 2000,
            r.max_delay_ms == 5000,
    {
        RetryConfig {
            max_retries: 3,
            initial_delay_ms: 100,
            backoff_permille: 2000,
            max_delay_ms: 5000,
        }
    }
}

/// Whether a failure is a failure of the transport, so that the call may be
/// tried again: the request could not be sent or completed, or the response
/// could not be read as an envelope.
pub open spec fn is_retryable(e: ErrorView) -> bool {
    ||| e matches ErrorView::Rpc(RpcErrorView::RequestFailed { .. })
    ||| e matches ErrorView::Rpc(RpcErrorView::ResponseParse(_))
}

/// Whether a failed call may be tried again.
pub fn is_retryable_error(err: &Error) -> (r: bool)
    ensures
        r == is_retryable(err@),
{
    match err {
        Error::Rpc(RpcError::RequestFailed { .. }) => true,
        Error::Rpc(RpcError::ResponseParse(_)) => true,
        _ => false,
    }
}

/// The delay that follows `delay_ms`: the product with the backoff factor,
/// rounded down, or the largest delay where that is smaller.
pub open spec fn next_delay(config: RetryConfig, delay_ms: u64) -> u64 {
    let grown = (delay_ms as int * config.backoff_permille as int) / 1000;
    if grown < config.max_delay_ms as int {
        grown as u64
    } else {
        config.max_delay_ms
    }
}

/// What to do after a failed attempt.
#[derive(Debug, Clone, Copy, PartialEq, Eq, Structural)]
pub enum RetryDecision {
    /// Wait for the delay, then try again.
    Retry { delay_ms: u64 },
    /// Give up, and report the failure of this attempt.
    GiveUp,
}

/// How far a call with retries has come: the attempts that have failed, and
/// the delay before the next retry.
#[derive(Debug, Clone, Copy)]
pub struct RetryState {
    /// The number of failed attempts so far.
    pub attempts: u32,
    /// The delay before the next retry, in milliseconds.
    pub delay_ms: u64,
}

/// What follows from a failed attempt in the state `state`: the decision,
/// and the state after it. The attempt is counted; the call is given up when
/// as many attempts had failed before as there are retries, or when the
/// failure is not transient; else it is tried again after the present delay,
/// and the delay grows.
pub open spec fn after_failure(config: RetryConfig, state: RetryState, retryable: bool) -> (
    RetryState,
    RetryDecision,
) {
    let attempts = if state.attempts < u32::MAX {
        (state.attempts + 1) as u32
    } else {
        state.attempts
    };
    if state.attempts >= config.max_retries || !retryable {
        (RetryState { attempts, delay_ms: state.delay_ms }, RetryDecision::GiveUp)
    } else {
        (
            RetryState { attempts, delay_ms: next_delay(config, state.delay_ms) },
            RetryDecision::Retry { delay_ms: state.delay_ms },
        )
    }
}

impl RetryState {
    /// The state before the first attempt.
    pub fn new(config: &RetryConfig) -> (r: Self)
        ensures
            r.attempts == 0,
            r.delay_ms == config.initial_delay_ms,
    {
        RetryState { attempts: 0, delay_ms: config.initial_delay_ms }
    }

    /// Records that an attempt has failed with `err`, and decides whether
    /// the call is tried again.
    pub fn on_failure(&mut self, config: &RetryConfig, err: &Error) -> (decision: RetryDecision)
        ensures
            (*final(self), decision) == after_failure(*config, *old(self), is_retryable(err@)),
    {
        let exhausted = self.attempts >= config.max_retries;
        if self.attempts < u32::MAX {
            self.attempts = self.attempts + 1;
        }
        if exhausted || !is_retryable_error(err) {
            return RetryDecision::GiveUp;
        }
        let delay_ms = self.delay_ms;
        let factor = config.backoff_permille;
        assert(delay_ms as int * factor as int <= u64::MAX as int * u64::MAX as int)
            by (nonlinear_arith)
            requires
                0 <= delay_ms as int <= u64::MAX as int,
                0 <= factor as int <= u64::MAX as int,
        ;
        let grown: u128 = (delay_ms as u128 * factor as u128) / 1000;
        if grown < config.max_delay_ms as u128 {
            self.delay_ms = grown as u64;
        } else {
            self.delay_ms = config.max_delay_ms;
        }
        RetryDecision::Retry { delay_ms }
    }
}

/// `s` without the `/` characters at its end.
pub open spec fn without_trailing_slashes(s: Seq<char>) -> Seq<char>
    decreases s.len(),
{
    if s.len() > 0 && s.last() == '/' {
        without_trailing_slashes(s.drop_last())
    } else {
        s
    }
}

/// The address of the endpoint of a server at `base`.
pub open spec fn rpc_url_of(base: Seq<char>) -> Seq<char> {
    without_trailing_slashes(base) + "/rpc"@
}

/// The address of the endpoint of a server at `base`: `/rpc` behind the
/// address, which may end with `/` or not.
pub fn rpc_url(base: &str) -> (url: String)
    ensures
        url@ == rpc_url_of(base@),
{
    let chars = chars_of(base);
    let mut end: usize = chars.len();
    assert(chars@.take(end as int) =~= chars@);
    while end > 0 && chars[end - 1] == '/'
        invariant
            end <= chars.len(),
            without_trailing_slashes(chars@) == without_trailing_slashes(chars@.take(end as int)),
        decreases end,
    {
        assert(chars@.take(end as int).drop_last() =~= chars@.take(end - 1));
        end -= 1;
    }
    let mut kept: Vec<char> = Vec::new();
    let mut i: usize = 0;
    while i < end
        invariant
            i <= end <= chars.len(),
            kept@ == chars@.take(i as int),
        decreases end - i,
    {
        kept.push(chars[i]);
        assert(chars@.take(i + 1) =~= chars@.take(i as int).push(chars@[i as int]));
        i += 1;
    }
    let mut url = String::new();
    push_chars(&mut url, &kept);
    push_text(&mut url, "/rpc");
    assert(url@ =~= rpc_url_of(base@));
    url
}

/// Whether a status code shows that the server can be reached: the request
/// was served, or it was refused as a fault of the client, which a server
/// that is up does as well.
pub open spec fn shows_reachable(status: u16) -> bool {
    200 <= status <= 299 || 400 <= status <= 499
}

/// Reads the answer to a reachability probe of the server at `url`. Any
/// status but one that shows the server reachable is a failed request, which
/// names the status as `status_text` has it.
pub fn check_ping_status(status: u16, status_text: &str, url: &str) -> (r: Result<(), Error>)
    ensures
        shows_reachable(status) ==> r is Ok,
        !shows_reachable(status) ==> (r matches Err(e) && e@ == ErrorView::Rpc(
            RpcErrorView::RequestFailed {
                url: url@,
                reason: "Server returned status "@ + status_text@,
            },
        )),
{
    if (200 <= status && status <= 299) || (400 <= status && status <= 499) {
        Ok(())
    } else {
        let mut reason = String::new();
        push_text(&mut reason, "Server returned status ");
        push_text(&mut reason, status_text);
        assert(reason@ =~= "Server returned status "@ + status_text@);
        Err(Error::Rpc(RpcError::RequestFailed { url: url.to_owned(), reason }))
    }
}

/// Reads the envelope of the response to a call of `method`: an error from
/// the server is a protocol error with the method, the code and the
/// message, whether or not a result came with it; a response with neither
/// an error nor a result misses its result; else the result is handed on.
pub fn read_response(method: &str, response: JsonRpcResponse) -> (r: Result<Json, Error>)
    ensures
        match response.error {
            Some(error) => r matches Err(e) && e@ == ErrorView::Rpc(
                RpcErrorView::JsonRpc {
                    method: method@,
                    code: error.code,
                    message: error.message@,
                },
            ),
            None => match response.result {
                Some(result) => r matches Ok(value) && value@ == result@,
                None => r matches Err(e) && e@ == ErrorView::Rpc(RpcErrorView::MissingResult),
            },
        },
{
    if let Some(error) = response.error {
        return Err(
            Error::Rpc(
                RpcError::JsonRpc {
                    method: method.to_owned(),
                    code: error.code,
                    message: error.message,
                },
            ),
        );
    }
    match response.result {
        Some(result) => Ok(result),
        None => Err(Error::Rpc(RpcError::MissingResult)),
    }
}

/// How one attempt of a call ends.
pub enum Attempt {
    /// The call succeeded.
    Success,
    /// The call failed, and the failure is transient.
    Transient,
    /// The call failed for good.
    Fatal,
}

/// The attempt whose outcome a call with retries returns, counted from 0,
/// where `outcomes` says how each attempt ends and the attempts from `from`
/// on are still to be made: the first that succeeds, that fails for good,
/// or after which the call is given up.
pub open spec fn settled_at(
    config: RetryConfig,
    state: RetryState,
    outcomes: Seq<Attempt>,
    from: int,
) -> int
    decreases outcomes.len() - from,
{
    if from < 0 || from >= outcomes.len() {
        outcomes.len() as int
    } else {
        match outcomes[from] {
            Attempt::Success => from,
            Attempt::Fatal => from,
            Attempt::Transient => if after_failure(config, state, true).1 is GiveUp {
                from
            } else {
                settled_at(config, after_failure(config, state, true).0, outcomes, from + 1)
            },
        }
    }
}

/// A call that fails `k` times with a transient failure and then succeeds
/// returns that success, as long as `k` is no more than the number of
/// retries. Here the first `from` attempts have failed already.
pub proof fn lemma_retries_until_success(
    config: RetryConfig,
    state: RetryState,
    outcomes: Seq<Attempt>,
    from: int,
    k: int,
)
    requires
        0 <= from <= k < outcomes.len(),
        k <= config.max_retries,
        state.attempts == from,
        forall|i: int| from <= i < k ==> outcomes[i] is Transient,
        outcomes[k] is Success,
    ensures
        settled_at(config, state, outcomes, from) == k,
    decreases k - from,
{
    if from < k {
        lemma_retries_until_success(
            config,
            after_failure(config, state, true).0,
            outcomes,
            from + 1,
            k,
        );
    }
}

/// A call whose every attempt fails with a transient failure is given up
/// after one attempt more than there are retries, and returns the failure of
/// that last attempt. Here the first `from` attempts have failed already.
pub proof fn lemma_gives_up_after_retries(
    config: RetryConfig,
    state: RetryState,
    outcomes: Seq<Attempt>,
    from: int,
)
    requires
        0 <= from <= config.max_retries < outcomes.len(),
        state.attempts == from,
        forall|i: int| from <= i <= config.max_retries ==> outcomes[i] is Transient,
    ensures
        settled_at(config, state, outcomes, from) == config.max_retries,
    decreases config.max_retries - from,
{
    if from < config.max_retries {
        lemma_gives_up_after_retries(
            config,
            after_failure(config, state, true).0,
            outcomes,
            from + 1,
        );
    }
}

/// No delay between retries is longer than the largest delay, once the
/// first has been taken.
pub proof fn lemma_delay_is_capped(config: RetryConfig, delay_ms: u64)
    ensures
        next_delay(config, delay_ms) <= config.max_delay_ms,
{
}

} // verus!
