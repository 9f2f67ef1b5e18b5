//! The polling half of the device authorization grant: how each answer of
//! the token endpoint is classified, and what the poller does next.
use vstd::prelude::*;
use crate::error::LoginError;
use crate::json::{json_error, json_error_text, json_parses, json_text, json_text_at, opt_text};
use crate::text::same_text;

verus! {

/// The shortest wait between two token requests, in seconds.
pub const MIN_WAIT_SECS: u64 = 5;

/// How much a `slow_down` answer lengthens the wait, in seconds.
pub const SLOW_DOWN_STEP_SECS: u64 = 5;

/// After this many token requests without a final answer, polling gives up.
pub const MAX_POLL_ATTEMPTS: u32 = 120;

/// What one answer of the token endpoint says.
#[derive(Clone, Debug, PartialEq, Eq)]
pub enum PollReply {
    /// The token was issued.
    Granted(String),
    /// The user has not approved yet.
    Pending,
    /// The provider asks the poller to wait longer between requests.
    SlowDown,
    /// The device code expired.
    Expired,
    /// The user refused.
    Denied,
    /// Any other error code.
    Failed(String),
    /// Neither a token nor an error code.
    Undecided,
}

/// Where the poller stands: how long it waits before the next request, and
/// how many requests it has made.
#[derive(Clone, Copy, Debug, PartialEq, Eq)]
pub struct PollState {
    pub wait_secs: u64,
    pub attempts: u32,
}

/// What the poller does after an answer.
#[derive(Debug, PartialEq, Eq)]
pub enum PollStep {
    /// Wait `wait_secs` of the new state, then ask again.
    Again(PollState),
    /// Stop, with the token or the reason for failing.
    Done(Result<String, LoginError>),
}

impl PollState {
    /// A state the poller can be in between two requests.
    pub open spec fn wf(&self) -> bool {
        self.wait_secs >= MIN_WAIT_SECS && self.attempts < MAX_POLL_ATTEMPTS
    }
}

/// The wait after a `slow_down` answer, when the wait was `w`.
pub open spec fn slowed(w: u64) -> u64 {
    if w <= u64::MAX - SLOW_DOWN_STEP_SECS {
        (w + SLOW_DOWN_STEP_SECS) as u64
    } else {
        u64::MAX
    }
}

/// Whether an answer ends polling by itself.
pub open spec fn is_final(r: PollReply) -> bool {
    match r {
        PollReply::Pending | PollReply::SlowDown | PollReply::Undecided => false,
        _ => true,
    }
}

/// What the poller in state `s` does on the answer `r`.
pub open spec fn step_of(s: PollState, r: PollReply) -> PollStep {
    match r {
        PollReply::Granted(t) => PollStep::Done(Ok(t)),
        PollReply::Expired => PollStep::Done(Err(LoginError::Expired)),
        PollReply::Denied => PollStep::Done(Err(LoginError::Denied)),
        PollReply::Failed(code) => PollStep::Done(Err(LoginError::Provider(code))),
        _ => if s.attempts + 1 >= MAX_POLL_ATTEMPTS {
            PollStep::Done(Err(LoginError::TimedOut))
        } else {
            PollStep::Again(
                PollState {
                    wait_secs: if r is SlowDown {
                        slowed(s.wait_secs)
                    } else {
                        s.wait_secs
                    },
                    attempts: (s.attempts + 1) as u32,
                },
            )
        },
    }
}

/// The state a poll starts in for the interval the provider gave.
pub open spec fn start_of(interval: u64) -> PollState {
    PollState {
        wait_secs: if interval >= MIN_WAIT_SECS {
            interval
        } else {
            MIN_WAIT_SECS
        },
        attempts: 0,
    }
}

/// The state a poll starts in: the wait is the provider's interval, but never
/// under five seconds, and no request has been made.
pub fn poll_start(interval: u64) -> (s: PollState)
    ensures
        s == start_of(interval),
        s.wf(),
{
    let wait_secs = if interval >= MIN_WAIT_SECS {
        interval
    } else {
        MIN_WAIT_SECS
    };
    PollState { wait_secs, attempts: 0 }
}

/// What the poller in state `s` does on the answer `reply`: a token or a final
/// error code ends polling, `slow_down` lengthens the wait by five seconds, and
/// the hundred-and-twentieth answer that decides nothing ends it with a timeout.
pub fn poll_step(s: &PollState, reply: PollReply) -> (out: PollStep)
    requires
        s.wf(),
    ensures
        out == step_of(*s, reply),
        out matches PollStep::Again(n) ==> n.wf(),
{
    match reply {
        PollReply::Granted(t) => PollStep::Done(Ok(t)),
        PollReply::Expired => PollStep::Done(Err(LoginError::Expired)),
        PollReply::Denied => PollStep::Done(Err(LoginError::Denied)),
        PollReply::Failed(code) => PollStep::Done(Err(LoginError::Provider(code))),
        PollReply::Pending | PollReply::SlowDown | PollReply::Undecided => {
            let attempts = s.attempts + 1;
            if attempts >= MAX_POLL_ATTEMPTS {
                PollStep::Done(Err(LoginError::TimedOut))
            } else {
                let wait_secs = if matches!(reply, PollReply::SlowDown) {
                    s.wait_secs.saturating_add(SLOW_DOWN_STEP_SECS)
                } else {
                    s.wait_secs
                };
                PollStep::Again(PollState { wait_secs, attempts })
            }
        },
    }
}

/// How the answer with the token field `token` and the error field `error` is
/// read: a token wins; otherwise the error code decides.
pub open spec fn reply_agrees(
    r: PollReply,
    token: Option<Seq<char>>,
    error: Option<Seq<char>>,
) -> bool {
    match token {
        Some(t) => r matches PollReply::Granted(x) && x@ == t,
        None => match error {
            Some(e) => if e == "authorization_pending"@ {
                r is Pending
            } else if e == "slow_down"@ {
                r is SlowDown
            } else if e == "expired_token"@ {
                r is Expired
            } else if e == "access_denied"@ {
                r is Denied
            } else {
                r matches PollReply::Failed(x) && x@ == e
            },
            None => r is Undecided,
        },
    }
}

/// Reads an answer from its `access_token` and `error` fields.
pub fn classify_fields(token: Option<String>, error: Option<String>) -> (r: PollReply)
    ensures
        reply_agrees(r, opt_text(token), opt_text(error)),
{
    match token {
        Some(t) => PollReply::Granted(t),
        None => match error {
            Some(e) => {
                if same_text(e.as_str(), "authorization_pending") {
                    PollReply::Pending
                } else if same_text(e.as_str(), "slow_down") {
                    PollReply::SlowDown
                } else if same_text(e.as_str(), "expired_token") {
                    PollReply::Expired
                } else if same_text(e.as_str(), "access_denied") {
                    PollReply::Denied
                } else {
                    PollReply::Failed(e)
                }
            },
            None => PollReply::Undecided,
        },
    }
}

/// Reads a body that the token endpoint sent: a body that is not JSON is a
/// protocol error that carries serde_json's reason; otherwise its `access_token` and `error` strings decide.
pub fn classify_token_response(body: &[u8]) -> (r: Result<PollReply, LoginError>)
    ensures
        r is Ok <==> json_parses(body@),
        r matches Ok(p) ==> reply_agrees(
            p,
            json_text_at(body@, "access_token"@),
            json_text_at(body@, "error"@),
        ),
        r matches Err(e) ==> e matches LoginError::Protocol(m) && m@
            == "Failed to parse token response: "@ + json_error_text(body@),
{
    if let Some(reason) = json_error(body) {
        let message = String::from_str("Failed to parse token response: ").concat(reason.as_str());
        return Err(LoginError::Protocol(message));
    }
    let token = json_text(body, "access_token");
    let error = json_text(body, "error");
    Ok(classify_fields(token, error))
}

/// The outcome of polling from `s` on the answers `replies`, with the number
/// of answers used; no outcome while the answers run out first.
pub open spec fn poll_run(s: PollState, replies: Seq<PollReply>) -> (
    Option<Result<String, LoginError>>,
    nat,
)
    decreases replies.len(),
{
    if replies.len() == 0 {
        (None, 0)
    } else {
        match step_of(s, replies[0]) {
            PollStep::Done(res) => (Some(res), 1),
            PollStep::Again(n) => {
                let rest = poll_run(n, replies.drop_first());
                (rest.0, rest.1 + 1)
            },
        }
    }
}

/// The state after polling from `s` on the answers `replies`; none once
/// polling has stopped.
pub open spec fn state_after(s: PollState, replies: Seq<PollReply>) -> Option<PollState>
    decreases replies.len(),
{
    if replies.len() == 0 {
        Some(s)
    } else {
        match step_of(s, replies[0]) {
            PollStep::Done(_) => None,
            PollStep::Again(n) => state_after(n, replies.drop_first()),
        }
    }
}

/// A token ends polling at once and is returned as it came, whatever undecided
/// answers came before it, as long as they stayed under the request limit.
pub proof fn lemma_token_ends_polling(
    s: PollState,
    before: Seq<PollReply>,
    t: String,
    after: Seq<PollReply>,
)
    requires
        s.wf(),
        s.attempts + before.len() < MAX_POLL_ATTEMPTS,
        forall|i: int| 0 <= i < before.len() ==> !is_final(#[trigger] before[i]),
    ensures
        poll_run(s, before + seq![PollReply::Granted(t)] + after) == (
            Some(Ok::<String, LoginError>(t)),
            before.len() + 1,
        ),
    decreases before.len(),
{
    let all = before + seq![PollReply::Granted(t)] + after;
    if before.len() > 0 {
        assert(all[0] == before[0]);
        assert(!is_final(before[0]));
        let n = PollState {
            wait_secs: if before[0] is SlowDown {
                slowed(s.wait_secs)
            } else {
                s.wait_secs
            },
            attempts: (s.attempts + 1) as u32,
        };
        assert(step_of(s, all[0]) == PollStep::Again(n));
        let rest = before.drop_first();
        assert(all.drop_first() =~= rest + seq![PollReply::Granted(t)] + after);
        assert forall|i: int| 0 <= i < rest.len() implies !is_final(#[trigger] rest[i]) by {
            assert(rest[i] == before[i + 1]);
        }
        lemma_token_ends_polling(n, rest, t, after);
    } else {
        assert(all[0] == PollReply::Granted(t));
    }
}

/// A run of `j` answers that all say `slow_down`.
pub open spec fn slow_downs(j: nat) -> Seq<PollReply> {
    Seq::new(j, |i: int| PollReply::SlowDown)
}

/// Each `slow_down` answer lengthens the wait by exactly five seconds, so the
/// wait never shrinks along a run of them.
pub proof fn lemma_slow_down_backoff(s: PollState, k: nat)
    requires
        s.wf(),
        s.attempts + k < MAX_POLL_ATTEMPTS,
        s.wait_secs + SLOW_DOWN_STEP_SECS * k <= u64::MAX,
    ensures
        forall|j: nat|
            j <= k ==> #[trigger] state_after(s, slow_downs(j))
                == Some(
                PollState {
                    wait_secs: (s.wait_secs + SLOW_DOWN_STEP_SECS * j) as u64,
                    attempts: (s.attempts + j) as u32,
                },
            ),
        forall|i: nat, j: nat|
            #![trigger state_after(s, slow_downs(i)), state_after(s, slow_downs(j))]
            i <= j <= k ==> state_after(s, slow_downs(i))->0.wait_secs
                <= state_after(s, slow_downs(j))->0.wait_secs,
    decreases k,
{
    assert forall|j: nat| j <= k implies #[trigger] state_after(
        s,
        slow_downs(j),
    ) == Some(
        PollState {
            wait_secs: (s.wait_secs + SLOW_DOWN_STEP_SECS * j) as u64,
            attempts: (s.attempts + j) as u32,
        },
    ) by {
        lemma_slow_down_run(s, j);
    }
}

proof fn lemma_slow_down_run(s: PollState, j: nat)
    requires
        s.wf(),
        s.attempts + j < MAX_POLL_ATTEMPTS,
        s.wait_secs + SLOW_DOWN_STEP_SECS * j <= u64::MAX,
    ensures
        state_after(s, slow_downs(j)) == Some(
            PollState {
                wait_secs: (s.wait_secs + SLOW_DOWN_STEP_SECS * j) as u64,
                attempts: (s.attempts + j) as u32,
            },
        ),
    decreases j,
{
    let replies = slow_downs(j);
    if j > 0 {
        let n = PollState {
            wait_secs: (s.wait_secs + SLOW_DOWN_STEP_SECS) as u64,
            attempts: (s.attempts + 1) as u32,
        };
        assert(replies[0] == PollReply::SlowDown);
        assert(step_of(s, replies[0]) == PollStep::Again(n));
        assert(replies.drop_first() =~= slow_downs((j - 1) as nat));
        lemma_slow_down_run(n, (j - 1) as nat);
    } else {
        assert(replies.len() == 0);
    }
}

/// Once the request limit is reached with no final answer, polling stops with
/// a timeout, and no answer after that is asked for.
pub proof fn lemma_poll_times_out(s: PollState, undecided: Seq<PollReply>, later: Seq<PollReply>)
    requires
        s.wf(),
        s.attempts + undecided.len() == MAX_POLL_ATTEMPTS,
        forall|i: int| 0 <= i < undecided.len() ==> !is_final(#[trigger] undecided[i]),
    ensures
        poll_run(s, undecided + later) == (
            Some(Err::<String, LoginError>(LoginError::TimedOut)),
            undecided.len(),
        ),
    decreases undecided.len(),
{
    let all = undecided + later;
    assert(all[0] == undecided[0]);
    assert(!is_final(undecided[0]));
    if undecided.len() > 1 {
        let n = PollState {
            wait_secs: if undecided[0] is SlowDown {
                slowed(s.wait_secs)
            } else {
                s.wait_secs
            },
            attempts: (s.attempts + 1) as u32,
        };
        assert(step_of(s, all[0]) == PollStep::Again(n));
        let rest = undecided.drop_first();
        assert(all.drop_first() =~= rest + later);
        assert forall|i: int| 0 <= i < rest.len() implies !is_final(#[trigger] rest[i]) by {
            assert(rest[i] == undecided[i + 1]);
        }
        lemma_poll_times_out(n, rest, later);
    }
}

} // verus!
