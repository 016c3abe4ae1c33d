//! Dispute-window timing of the state channel.
//!
//! A cooperative close starts a challenge window in which the receiver may file a
//! dispute; filing it, and every accepted piece of counter-evidence, arms the
//! window anew. Once the window has elapsed the channel settles by the last
//! verified state. The two boundary checks stand here, so that all actions on a
//! channel go by the same deadline.

use crate::error::Error;
use crate::host;
use soroban_sdk::Env;
use vstd::prelude::*;

verus! {

/// The last ledger of the window. A deadline past the last ledger number is the
/// last ledger number.
pub open spec fn deadline(window_started: u32, challenge_period: u32) -> int {
    if window_started + challenge_period <= u32::MAX {
        window_started + challenge_period
    } else {
        u32::MAX as int
    }
}

/// `ledger` is a number that reading the host's current ledger gives.
pub closed spec fn is_ledger_read(env: &Env, ledger: u32) -> bool {
    call_ensures(host::ledger_sequence, (env,), ledger)
}

/// A ledger read is what the host's own call gives, and nothing else.
pub(crate) proof fn law_ledger_read_is_the_hosts(env: &Env, ledger: u32)
    ensures
        is_ledger_read(env, ledger) <==> call_ensures(host::ledger_sequence, (env,), ledger),
{
}

/// What an action that needs the open window gets at `current_ledger`.
pub open spec fn open_verdict(
    current_ledger: u32,
    window_started: u32,
    challenge_period: u32,
) -> Result<(), Error> {
    if current_ledger <= deadline(window_started, challenge_period) {
        Ok(())
    } else {
        Err(Error::ChallengeActive)
    }
}

/// What an action that needs the elapsed window gets at `current_ledger`.
pub open spec fn elapsed_verdict(
    current_ledger: u32,
    window_started: u32,
    challenge_period: u32,
) -> Result<(), Error> {
    if current_ledger > deadline(window_started, challenge_period) {
        Ok(())
    } else {
        Err(Error::ChallengeActive)
    }
}

/// The window is still open at `current_ledger`: the deadline has not passed.
pub fn window_open_at(current_ledger: u32, window_started: u32, challenge_period: u32) -> (r: Result<
    (),
    Error,
>)
    ensures
        r == open_verdict(current_ledger, window_started, challenge_period),
        r is Ok <==> current_ledger <= window_started + challenge_period,
        r matches Err(e) ==> e == Error::ChallengeActive,
{
    let deadline: u32 = window_started.saturating_add(challenge_period);
    if current_ledger > deadline {
        return Err(Error::ChallengeActive);
    }
    Ok(())
}

/// The window has elapsed at `current_ledger`: the deadline is strictly past.
pub fn window_elapsed_at(
    current_ledger: u32,
    window_started: u32,
    challenge_period: u32,
) -> (r: Result<(), Error>)
    ensures
        r == elapsed_verdict(current_ledger, window_started, challenge_period),
        r is Ok <==> current_ledger > window_started + challenge_period,
        r matches Err(e) ==> e == Error::ChallengeActive,
{
    let deadline: u32 = window_started.saturating_add(challenge_period);
    if current_ledger <= deadline {
        return Err(Error::ChallengeActive);
    }
    Ok(())
}

/// The dispute window is still open at the host's current ledger.
///
/// `Err(Error::ChallengeActive)` means that it is closed: an action inside the
/// window comes too late. A window whose deadline is the last ledger number never
/// closes.
pub fn ensure_window_open(env: &Env, window_started: u32, challenge_period: u32) -> (r: Result<
    (),
    Error,
>)
    ensures
        exists|current_ledger: u32|
            r == #[trigger] open_verdict(current_ledger, window_started, challenge_period),
        window_started + challenge_period >= u32::MAX ==> r == Ok::<(), Error>(()),
        exists|current_ledger: u32|
            {
                &&& #[trigger] is_ledger_read(env, current_ledger)
                &&& r is Ok <==> current_ledger <= window_started + challenge_period
            },
        r matches Err(e) ==> e == Error::ChallengeActive,
{
    // Called as a value, so that the contract can speak of what it gave.
    let read = host::ledger_sequence;
    let current_ledger: u32 = read(env);
    assert(is_ledger_read(env, current_ledger));
    window_open_at(current_ledger, window_started, challenge_period)
}

/// The dispute window has fully elapsed at the host's current ledger.
///
/// `Err(Error::ChallengeActive)` means that it is still open: settling early
/// would let a stale state win. A window whose deadline is the last ledger number
/// never elapses.
pub fn ensure_window_elapsed(env: &Env, window_started: u32, challenge_period: u32) -> (r: Result<
    (),
    Error,
>)
    ensures
        exists|current_ledger: u32|
            r == #[trigger] elapsed_verdict(current_ledger, window_started, challenge_period),
        window_started + challenge_period >= u32::MAX ==> r == Err::<(), Error>(
            Error::ChallengeActive,
        ),
        exists|current_ledger: u32|
            {
                &&& #[trigger] is_ledger_read(env, current_ledger)
                &&& r is Ok <==> current_ledger > window_started + challenge_period
            },
        r matches Err(e) ==> e == Error::ChallengeActive,
{
    // Called as a value, so that the contract can speak of what it gave.
    let read = host::ledger_sequence;
    let current_ledger: u32 = read(env);
    assert(is_ledger_read(env, current_ledger));
    window_elapsed_at(current_ledger, window_started, challenge_period)
}

/// A window that starts at one ledger and lasts for a number of ledgers is open up
/// to and with the ledger that lies so far ahead, and has elapsed at every ledger
/// after that one.
pub proof fn law_window_ends_at_deadline(
    current_ledger: u32,
    window_started: u32,
    challenge_period: u32,
)
    ensures
        current_ledger <= window_started + challenge_period ==> {
            &&& open_verdict(current_ledger, window_started, challenge_period) == Ok::<(), Error>(())
            &&& elapsed_verdict(current_ledger, window_started, challenge_period) == Err::<
                (),
                Error,
            >(Error::ChallengeActive)
        },
        current_ledger > window_started + challenge_period ==> {
            &&& open_verdict(current_ledger, window_started, challenge_period) == Err::<(), Error>(
                Error::ChallengeActive,
            )
            &&& elapsed_verdict(current_ledger, window_started, challenge_period) == Ok::<
                (),
                Error,
            >(())
        },
{
}

/// At every ledger a window is either open or elapsed, and never both.
pub proof fn law_open_or_elapsed(current_ledger: u32, window_started: u32, challenge_period: u32)
    ensures
        open_verdict(current_ledger, window_started, challenge_period) is Ok <==> elapsed_verdict(
            current_ledger,
            window_started,
            challenge_period,
        ) is Err,
{
}

/// A window that has elapsed stays elapsed at every later ledger.
pub proof fn law_elapsed_stays_elapsed(
    earlier: u32,
    later: u32,
    window_started: u32,
    challenge_period: u32,
)
    requires
        earlier <= later,
        elapsed_verdict(earlier, window_started, challenge_period) is Ok,
    ensures
        elapsed_verdict(later, window_started, challenge_period) is Ok,
{
}

/// Arming the window anew from a later ledger never closes it earlier: what was
/// open before is open after.
pub proof fn law_rearming_never_shortens(
    current_ledger: u32,
    window_started: u32,
    rearmed_at: u32,
    challenge_period: u32,
)
    requires
        window_started <= rearmed_at,
        open_verdict(current_ledger, window_started, challenge_period) is Ok,
    ensures
        open_verdict(current_ledger, rearmed_at, challenge_period) is Ok,
{
}

} // verus!
