//! The store connector: what to do after each attempt to reach the store.
//!
//! The program makes the attempts and waits. After every attempt it asks
//! [`on_attempt`] what to do next: a failure is retried after a fixed delay,
//! without limit, and the first success starts the service.

use vstd::prelude::*;

verus! {

/// The delay after a failed attempt, in seconds. It does not grow.
pub const RETRY_DELAY_SECS: u64 = 1;

/// The address of the store.
pub open spec fn store_address_text() -> Seq<char> {
    "redis://127.0.0.1/"@
}

/// The address of the store.
pub fn store_address() -> (address: &'static str)
    ensures
        address@ == store_address_text(),
{
    "redis://127.0.0.1/"
}

/// Where the start-up stands.
#[derive(Clone, Copy, Debug, PartialEq, Eq, Structural)]
pub enum Phase {
    /// No session with the store yet.
    Connecting,
    /// A session is established; no further attempt is made.
    Connected,
}

/// What the program does after an attempt.
#[derive(Debug, PartialEq, Eq)]
pub enum Action<H, E> {
    /// Report `error`, wait `seconds`, and attempt again.
    RetryAfter { error: E, seconds: u64 },
    /// Build the proxy on `handle` and start to serve.
    Serve { handle: H },
    /// Nothing: the service was started before.
    Idle,
}

/// The phase in which the start-up begins.
pub fn start() -> (phase: Phase)
    ensures
        phase == Phase::Connecting,
{
    Phase::Connecting
}

/// The phase after an attempt that `established` a session or did not.
pub open spec fn next_phase(phase: Phase, established: bool) -> Phase {
    if phase == Phase::Connecting && !established {
        Phase::Connecting
    } else {
        Phase::Connected
    }
}

/// The action after an attempt made in `phase`.
pub open spec fn action_for<H, E>(phase: Phase, attempt: Result<H, E>) -> Action<H, E> {
    match (phase, attempt) {
        (Phase::Connecting, Ok(handle)) => Action::Serve { handle },
        (Phase::Connecting, Err(error)) => Action::RetryAfter { error, seconds: RETRY_DELAY_SECS },
        (Phase::Connected, _) => Action::Idle,
    }
}

/// Decides what follows an attempt made in `phase`: the next phase and the
/// action to take.
pub fn on_attempt<H, E>(phase: Phase, attempt: Result<H, E>) -> (next: (Phase, Action<H, E>))
    ensures
        next.0 == next_phase(phase, attempt is Ok),
        next.1 == action_for(phase, attempt),
{
    match phase {
        Phase::Connecting => match attempt {
            Ok(handle) => (Phase::Connected, Action::Serve { handle }),
            Err(error) => {
                (Phase::Connecting, Action::RetryAfter { error, seconds: RETRY_DELAY_SECS })
            },
        },
        Phase::Connected => (Phase::Connected, Action::Idle),
    }
}

/// The phase after a run of attempts, each of which established a session or
/// did not, from the beginning of the start-up.
pub open spec fn phase_after(outcomes: Seq<bool>) -> Phase
    decreases outcomes.len(),
{
    if outcomes.len() == 0 {
        Phase::Connecting
    } else {
        next_phase(phase_after(outcomes.drop_last()), outcomes.last())
    }
}

/// Whether the attempt at `i` of the run is the one that starts the service.
pub open spec fn serves_at(outcomes: Seq<bool>, i: int) -> bool {
    phase_after(outcomes.take(i)) == Phase::Connecting && outcomes[i]
}

/// Whether the attempt at `i` of the run is followed by a wait and another
/// attempt.
pub open spec fn retries_at(outcomes: Seq<bool>, i: int) -> bool {
    phase_after(outcomes.take(i)) == Phase::Connecting && !outcomes[i]
}

/// The start-up is still connecting exactly when no attempt has succeeded.
pub proof fn lemma_connecting_iff_all_failed(outcomes: Seq<bool>)
    ensures
        phase_after(outcomes) == Phase::Connecting <==> forall|i: int|
            0 <= i < outcomes.len() ==> !outcomes[i],
    decreases outcomes.len(),
{
    if outcomes.len() > 0 {
        let earlier = outcomes.drop_last();
        lemma_connecting_iff_all_failed(earlier);
        if phase_after(outcomes) == Phase::Connecting {
            assert forall|i: int| 0 <= i < outcomes.len() implies !outcomes[i] by {
                if i < earlier.len() {
                    assert(earlier[i] == outcomes[i]);
                }
            }
        } else if phase_after(earlier) == Phase::Connecting {
            assert(outcomes[outcomes.len() - 1]);
        } else {
            let i = choose|i: int| 0 <= i < earlier.len() && earlier[i];
            assert(outcomes[i]);
        }
    }
}

/// The connector never gives up: however many attempts have failed, the next
/// failure is again followed by a wait of the same fixed delay and another
/// attempt.
pub proof fn lemma_retries_without_limit<H, E>(failures: Seq<bool>, error: E)
    requires
        forall|i: int| 0 <= i < failures.len() ==> !failures[i],
    ensures
        action_for::<H, E>(phase_after(failures), Err(error)) == (Action::<H, E>::RetryAfter {
            error,
            seconds: RETRY_DELAY_SECS,
        }),
        next_phase(phase_after(failures), false) == Phase::Connecting,
{
    lemma_connecting_iff_all_failed(failures);
}

/// The service is started by the first attempt that succeeds, and by no
/// other: never without a session, and never twice.
pub proof fn lemma_serves_at_first_success(outcomes: Seq<bool>, i: int)
    requires
        0 <= i < outcomes.len(),
    ensures
        serves_at(outcomes, i) <==> (outcomes[i] && forall|j: int| 0 <= j < i ==> !outcomes[j]),
{
    let earlier = outcomes.take(i);
    lemma_connecting_iff_all_failed(earlier);
    if forall|j: int| 0 <= j < i ==> !outcomes[j] {
        assert forall|j: int| 0 <= j < earlier.len() implies !earlier[j] by {
            assert(earlier[j] == outcomes[j]);
        }
    }
    if phase_after(earlier) == Phase::Connecting {
        assert forall|j: int| 0 <= j < i implies !outcomes[j] by {
            assert(earlier[j] == outcomes[j]);
        }
    }
}

/// At most one session is established for the service: two attempts that both
/// start it are the same attempt.
pub proof fn lemma_serves_at_most_once(outcomes: Seq<bool>, i: int, j: int)
    requires
        0 <= i < outcomes.len(),
        0 <= j < outcomes.len(),
        serves_at(outcomes, i),
        serves_at(outcomes, j),
    ensures
        i == j,
{
    lemma_serves_at_first_success(outcomes, i);
    lemma_serves_at_first_success(outcomes, j);
}

/// An attempt is followed by a wait and another attempt exactly when it
/// failed and every attempt before it failed: no failure before the first
/// success goes without a retry, and nothing is retried after it.
pub proof fn lemma_retries_until_first_success(outcomes: Seq<bool>, i: int)
    requires
        0 <= i < outcomes.len(),
    ensures
        retries_at(outcomes, i) <==> forall|j: int| 0 <= j <= i ==> !outcomes[j],
{
    let earlier = outcomes.take(i);
    lemma_connecting_iff_all_failed(earlier);
    if forall|j: int| 0 <= j <= i ==> !outcomes[j] {
        assert forall|j: int| 0 <= j < earlier.len() implies !earlier[j] by {
            assert(earlier[j] == outcomes[j]);
        }
    }
    if retries_at(outcomes, i) {
        assert forall|j: int| 0 <= j <= i implies !outcomes[j] by {
            if j < i {
                assert(earlier[j] == outcomes[j]);
            }
        }
    }
}

} // verus!
