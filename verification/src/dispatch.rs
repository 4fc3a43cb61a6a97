//! Decisions of the long-running dispatch loop that do not touch the
//! network themselves: which credentials become live clients after the
//! login attempts, and how the cancellable sleep between cycles is cut into
//! short waits so a stop request is seen quickly.

use vstd::prelude::*;
use crate::domain::{creds_seq, Credential, CredentialModel};

verus! {

/// How long one wait of the cancellable sleep checks before looking at the
/// stop signal again, in milliseconds.
pub const SLEEP_CHECK_INTERVAL_MS: u64 = 100;

/// One step of the cancellable sleep: wait at most the check interval, and
/// keep the rest for the following steps. The caller sleeps for the first
/// component, then checks the stop signal, then goes on with the second.
pub fn sleep_step(remaining_ms: u64) -> (r: (u64, u64))
    ensures
        r.0 == if remaining_ms < SLEEP_CHECK_INTERVAL_MS {
            remaining_ms
        } else {
            SLEEP_CHECK_INTERVAL_MS
        },
        r.1 == if remaining_ms >= SLEEP_CHECK_INTERVAL_MS {
            (remaining_ms - SLEEP_CHECK_INTERVAL_MS) as u64
        } else {
            0u64
        },
{
    if remaining_ms < SLEEP_CHECK_INTERVAL_MS {
        (remaining_ms, 0)
    } else {
        (SLEEP_CHECK_INTERVAL_MS, remaining_ms - SLEEP_CHECK_INTERVAL_MS)
    }
}

/// The polling interval in milliseconds, saturating at the largest value.
pub fn interval_millis(interval_secs: u64) -> (r: u64)
    ensures
        interval_secs <= u64::MAX / 1000 ==> r == interval_secs * 1000,
        interval_secs > u64::MAX / 1000 ==> r == u64::MAX,
{
    if interval_secs <= u64::MAX / 1000 {
        interval_secs * 1000
    } else {
        u64::MAX
    }
}

/// What one login attempt came back with: the call itself failed, the
/// reply carried no session token, or a session token was returned.
pub enum LoginOutcome {
    /// The login call errored (network, bad credential, rate limit).
    Failed,
    /// The login call succeeded but the reply held no session token.
    NoToken,
    /// The login succeeded and bound this session token.
    Session { token: String },
}

/// Whether one login attempt yields a live client: only a reply that
/// carried a session token does. A failed call and a token-less reply
/// alike are skipped for that credential and never fatal for the others.
pub open spec fn spec_login_keeps(o: LoginOutcome) -> bool {
    o is Session
}

/// The session token a login attempt binds, if the credential becomes a
/// live client: a reply without a token counts as a failed login — that
/// credential is skipped (and logged by the caller), the collection of the
/// other clients goes on.
pub fn session_token(outcome: LoginOutcome) -> (r: Option<String>)
    ensures
        r is Some <==> spec_login_keeps(outcome),
        match outcome {
            LoginOutcome::Session { token } => r == Some(token),
            _ => r is None,
        },
{
    match outcome {
        LoginOutcome::Session { token } => Some(token),
        LoginOutcome::NoToken => None,
        LoginOutcome::Failed => None,
    }
}

/// The keep-or-skip decision for each login attempt of one round, in
/// order: true exactly where the attempt bound a session token.
pub fn login_flags(outcomes: &Vec<LoginOutcome>) -> (r: Vec<bool>)
    ensures
        r@.len() == outcomes@.len(),
        forall|i: int| 0 <= i < r@.len() ==> #[trigger] r@[i] == spec_login_keeps(outcomes@[i]),
{
    let mut out: Vec<bool> = Vec::new();
    let n = outcomes.len();
    let mut i: usize = 0;
    while i < n
        invariant
            n == outcomes@.len(),
            0 <= i <= n,
            out@.len() == i,
            forall|j: int| 0 <= j < i ==> #[trigger] out@[j] == spec_login_keeps(outcomes@[j]),
        decreases n - i,
    {
        let keep = match &outcomes[i] {
            LoginOutcome::Session { .. } => true,
            _ => false,
        };
        out.push(keep);
        i = i + 1;
    }
    out
}

/// The domains of the credentials whose login succeeded, in credential
/// order.
pub open spec fn spec_client_domains(cs: Seq<CredentialModel>, ok: Seq<bool>) -> Seq<Seq<char>>
    recommends
        cs.len() == ok.len(),
    decreases cs.len(),
{
    if cs.len() == 0 || cs.len() != ok.len() {
        Seq::empty()
    } else {
        spec_client_domains(cs.drop_last(), ok.drop_last()) + if ok.last() {
            seq![cs.last().domain]
        } else {
            Seq::empty()
        }
    }
}

/// One round of logins yields at most one live client per credential.
pub proof fn lemma_client_domains_len(cs: Seq<CredentialModel>, ok: Seq<bool>)
    ensures
        spec_client_domains(cs, ok).len() <= cs.len(),
    decreases cs.len(),
{
    if cs.len() > 0 && cs.len() == ok.len() {
        lemma_client_domains_len(cs.drop_last(), ok.drop_last());
    }
}

/// The domains that become live clients after one round of login attempts:
/// one per credential whose login succeeded, in credential order — a failed
/// login (the call errored, or its reply carried no session token) is
/// skipped and never blocks the others.
pub fn client_domains(creds: &Vec<Credential>, login_ok: &Vec<bool>) -> (r: Vec<String>)
    requires
        creds@.len() == login_ok@.len(),
    ensures
        r@.map_values(|d: String| d@) == spec_client_domains(creds_seq(creds@), login_ok@),
{
    let mut out: Vec<String> = Vec::new();
    let n = creds.len();
    let mut i: usize = 0;
    while i < n
        invariant
            n == creds@.len() == login_ok@.len(),
            0 <= i <= n,
            out@.map_values(|d: String| d@) == spec_client_domains(
                creds_seq(creds@.subrange(0, i as int)),
                login_ok@.subrange(0, i as int),
            ),
        decreases n - i,
    {
        proof {
            let cp = creds_seq(creds@.subrange(0, i as int));
            let cn = creds_seq(creds@.subrange(0, i as int + 1));
            assert(cn.drop_last() =~= cp);
            assert(cn.last() == creds@[i as int]@);
            assert(login_ok@.subrange(0, i as int + 1).drop_last() =~= login_ok@.subrange(
                0,
                i as int,
            ));
        }
        if login_ok[i] {
            let ghost prev = out@.map_values(|d: String| d@);
            out.push(creds[i].domain.clone());
            proof {
                assert(out@.map_values(|d: String| d@) =~= prev.push(creds@[i as int].domain@));
                assert(prev.push(creds@[i as int].domain@) =~= prev + seq![creds@[i as int]@.domain]);
            }
        }
        i = i + 1;
    }
    proof {
        assert(creds@.subrange(0, n as int) =~= creds@);
        assert(login_ok@.subrange(0, n as int) =~= login_ok@);
    }
    out
}

} // verus!
