//! The per-account refresh cycle, as an explicit state machine.
//!
//! One cycle fetches an account's quota; on an authentication-expired
//! signal it refreshes the credential, persists it, and retries the
//! fetch exactly once; repeated failure invalidates the account.  A
//! transient failure during the first fetch leaves the account
//! untouched.  The loop that performs the network calls lives outside
//! the library: it asks the cycle what to do next and hands back what
//! happened.

use vstd::prelude::*;

use crate::auth::{AuthDotJson, TokenData};
use crate::profile::ProfileSummary;
use crate::quota::{QuotaInfo, RefreshResponse};

verus! {

/// How one account's cycle ended.
#[derive(Debug, PartialEq)]
pub enum CycleOutcome {
    /// The fetch succeeded: store this snapshot, the account is valid.
    Updated(QuotaInfo),
    /// The credential could not be recovered: exclude the account from
    /// routing until a human re-authenticates it.
    Invalidated,
    /// A transient failure: this cycle is a no-op for the account.
    Skipped,
}

/// Where one account's cycle stands.
#[derive(Debug, PartialEq)]
pub enum CyclePhase {
    /// The first quota fetch is in flight.
    Fetching,
    /// A token refresh is in flight.
    Refreshing,
    /// The single retry fetch after a successful refresh is in flight.
    Retrying,
    /// The cycle ended.
    Done(CycleOutcome),
}

/// What the loop outside reports back to the cycle.
#[derive(Debug, PartialEq)]
pub enum CycleEvent {
    /// A quota fetch returned this snapshot.
    FetchSuccess(QuotaInfo),
    /// A quota fetch said the credential expired.
    FetchAuthExpired,
    /// A quota fetch failed transiently (network, timeout, other
    /// upstream error).
    FetchTransient,
    /// The token endpoint returned a new pair.
    RefreshSucceeded(RefreshResponse),
    /// The token endpoint refused.
    RefreshFailed,
}

/// What the loop outside must do next.
#[derive(Debug, PartialEq, Eq, Structural)]
pub enum CycleAction {
    /// Fetch the account's quota with the cycle's current credential.
    Fetch,
    /// Exchange the refresh token at the token endpoint.
    Refresh,
    /// Persist the cycle's (just replaced) credential, then fetch again.
    PersistAndFetch,
    /// The cycle ended; apply its outcome.
    Stop,
}

/// Whether an event is the answer to what the phase is waiting for.
pub open spec fn event_answers_phase(phase: CyclePhase, event: CycleEvent) -> bool {
    match phase {
        CyclePhase::Fetching | CyclePhase::Retrying => event matches CycleEvent::FetchSuccess(_)
            || event matches CycleEvent::FetchAuthExpired
            || event matches CycleEvent::FetchTransient,
        CyclePhase::Refreshing => event matches CycleEvent::RefreshSucceeded(_)
            || event matches CycleEvent::RefreshFailed,
        CyclePhase::Done(_) => false,
    }
}

/// The credential with its token pair replaced by what the token
/// endpoint returned (fields the endpoint omitted keep their old
/// values), the refresh instant recorded, and everything else exactly
/// as it was.
pub open spec fn spec_apply_refresh(
    auth: AuthDotJson,
    resp: RefreshResponse,
    now: i64,
) -> AuthDotJson {
    match auth.tokens {
        None => auth,
        Some(t) => AuthDotJson {
            openai_api_key: auth.openai_api_key,
            tokens: Some(
                TokenData {
                    id_token: t.id_token,
                    access_token: match resp.access_token {
                        Some(a) => a,
                        None => t.access_token,
                    },
                    refresh_token: match resp.refresh_token {
                        Some(r) => r,
                        None => t.refresh_token,
                    },
                    account_id: t.account_id,
                },
            ),
            last_refresh: Some(now),
        },
    }
}

/// Replaces the credential's access/refresh pair with a refresh
/// response, leaving every other credential field unchanged.
pub fn apply_refresh_response(auth: AuthDotJson, resp: RefreshResponse, now: i64) -> (r:
    AuthDotJson)
    ensures
        r == spec_apply_refresh(auth, resp, now),
{
    match auth.tokens {
        None => auth,
        Some(t) => AuthDotJson {
            openai_api_key: auth.openai_api_key,
            tokens: Some(
                TokenData {
                    id_token: t.id_token,
                    access_token: match resp.access_token {
                        Some(a) => a,
                        None => t.access_token,
                    },
                    refresh_token: match resp.refresh_token {
                        Some(r) => r,
                        None => t.refresh_token,
                    },
                    account_id: t.account_id,
                },
            ),
            last_refresh: Some(now),
        },
    }
}

/// The phase the cycle moves to on an event.  An event that does not
/// answer the phase leaves it unchanged.
pub open spec fn spec_next_phase(phase: CyclePhase, auth: AuthDotJson, event: CycleEvent) -> CyclePhase {
    if !event_answers_phase(phase, event) {
        phase
    } else {
        match (phase, event) {
            (CyclePhase::Fetching, CycleEvent::FetchSuccess(q)) => CyclePhase::Done(
                CycleOutcome::Updated(q),
            ),
            (CyclePhase::Fetching, CycleEvent::FetchAuthExpired) => if auth.tokens is Some {
                CyclePhase::Refreshing
            } else {
                CyclePhase::Done(CycleOutcome::Invalidated)
            },
            (CyclePhase::Fetching, CycleEvent::FetchTransient) => CyclePhase::Done(
                CycleOutcome::Skipped,
            ),
            (CyclePhase::Retrying, CycleEvent::FetchSuccess(q)) => CyclePhase::Done(
                CycleOutcome::Updated(q),
            ),
            (CyclePhase::Retrying, _) => CyclePhase::Done(CycleOutcome::Invalidated),
            (CyclePhase::Refreshing, CycleEvent::RefreshSucceeded(_)) => CyclePhase::Retrying,
            (CyclePhase::Refreshing, CycleEvent::RefreshFailed) => CyclePhase::Done(
                CycleOutcome::Invalidated,
            ),
            (p, _) => p,
        }
    }
}

/// The action the loop must take after an event.
pub open spec fn spec_next_action(phase: CyclePhase, auth: AuthDotJson, event: CycleEvent) -> CycleAction {
    match spec_next_phase(phase, auth, event) {
        CyclePhase::Refreshing => CycleAction::Refresh,
        CyclePhase::Retrying => CycleAction::PersistAndFetch,
        _ => CycleAction::Stop,
    }
}

/// One account's refresh cycle: its phase and the credential it is
/// working with, which a successful refresh replaces.
#[derive(Debug, PartialEq)]
pub struct RefreshCycle {
    pub phase: CyclePhase,
    pub auth: AuthDotJson,
}

impl RefreshCycle {
    /// Starts a cycle for an account's credential: the first fetch is
    /// due.
    pub fn start(auth: AuthDotJson) -> (r: Self)
        ensures
            r.phase == CyclePhase::Fetching,
            r.auth == auth,
    {
        RefreshCycle { phase: CyclePhase::Fetching, auth }
    }

    /// Advances the cycle by one reported event and says what to do
    /// next.  A successful refresh replaces the cycle's credential and
    /// asks the loop to persist it before the retry fetch.
    pub fn step(&mut self, event: CycleEvent, now: i64) -> (action: CycleAction)
        requires
            event_answers_phase(old(self).phase, event),
        ensures
            final(self).phase == spec_next_phase(old(self).phase, old(self).auth, event),
            action == spec_next_action(old(self).phase, old(self).auth, event),
            final(self).auth == if old(self).phase == CyclePhase::Refreshing
                && event matches CycleEvent::RefreshSucceeded(_) {
                spec_apply_refresh(old(self).auth, event->RefreshSucceeded_0, now)
            } else {
                old(self).auth
            },
    {
        match (&self.phase, event) {
            (CyclePhase::Fetching, CycleEvent::FetchSuccess(q)) => {
                self.phase = CyclePhase::Done(CycleOutcome::Updated(q));
                CycleAction::Stop
            },
            (CyclePhase::Fetching, CycleEvent::FetchAuthExpired) => {
                if self.auth.tokens.is_some() {
                    self.phase = CyclePhase::Refreshing;
                    CycleAction::Refresh
                } else {
                    self.phase = CyclePhase::Done(CycleOutcome::Invalidated);
                    CycleAction::Stop
                }
            },
            (CyclePhase::Fetching, CycleEvent::FetchTransient) => {
                self.phase = CyclePhase::Done(CycleOutcome::Skipped);
                CycleAction::Stop
            },
            (CyclePhase::Retrying, CycleEvent::FetchSuccess(q)) => {
                self.phase = CyclePhase::Done(CycleOutcome::Updated(q));
                CycleAction::Stop
            },
            (CyclePhase::Retrying, _) => {
                self.phase = CyclePhase::Done(CycleOutcome::Invalidated);
                CycleAction::Stop
            },
            (CyclePhase::Refreshing, CycleEvent::RefreshSucceeded(resp)) => {
                let auth = self.auth.clone();
                self.auth = apply_refresh_response(auth, resp, now);
                self.phase = CyclePhase::Retrying;
                CycleAction::PersistAndFetch
            },
            (CyclePhase::Refreshing, CycleEvent::RefreshFailed) => {
                self.phase = CyclePhase::Done(CycleOutcome::Invalidated);
                CycleAction::Stop
            },
            (_, _) => CycleAction::Stop,
        }
    }
}

/// The refresh runs at most once per cycle: the only phase from which a
/// cycle can enter the refreshing phase is the very first fetch, so a
/// cycle never refreshes after its retry.
pub proof fn lemma_refresh_only_after_first_fetch(
    phase: CyclePhase,
    auth: AuthDotJson,
    event: CycleEvent,
)
    requires
        spec_next_phase(phase, auth, event) == CyclePhase::Refreshing,
        phase != CyclePhase::Refreshing,
    ensures
        phase == CyclePhase::Fetching,
        event == CycleEvent::FetchAuthExpired,
        auth.tokens is Some,
{
}

/// Applies a finished cycle's outcome to the account's registry entry:
/// a fresh snapshot replaces the old one wholesale and revalidates the
/// account; invalidation clears the validity flag and leaves the
/// snapshot alone; a skipped cycle changes nothing.  Identity fields
/// are never touched.
pub fn apply_cycle_outcome(account: &mut ProfileSummary, outcome: CycleOutcome)
    ensures
        final(account).name == old(account).name,
        final(account).email == old(account).email,
        final(account).is_current == old(account).is_current,
        outcome matches CycleOutcome::Updated(q) ==> final(account).quota == Some(q) && final(
            account).is_valid,
        outcome == CycleOutcome::Invalidated ==> final(account).quota == old(account).quota
            && !final(account).is_valid,
        outcome == CycleOutcome::Skipped ==> *final(account) == *old(account),
{
    match outcome {
        CycleOutcome::Updated(q) => {
            account.quota = Some(q);
            account.is_valid = true;
        },
        CycleOutcome::Invalidated => {
            account.is_valid = false;
        },
        CycleOutcome::Skipped => {
        },
    }
}

} // verus!
