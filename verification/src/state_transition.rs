//! Phases of a time-based refund.

use soroban_sdk::Env;
use vstd::prelude::*;

verus! {

/// The phase that a refund is in.
#[derive(Clone, Debug, PartialEq, Eq, Structural)]
pub enum RefundState {
    /// The refund period has not started.
    Active,
    /// Within the grace period from the start.
    GracePeriod,
    /// Within the cooldown that follows the grace period.
    Cooldown,
    /// After the cooldown.
    Expired,
}

/// The phase at `current_time`.
pub open spec fn refund_state_at(
    current_time: int,
    start_time: int,
    grace_period: int,
    cooldown: int,
) -> RefundState {
    if current_time < start_time {
        RefundState::Active
    } else if current_time < start_time + grace_period {
        RefundState::GracePeriod
    } else if current_time < start_time + grace_period + cooldown {
        RefundState::Cooldown
    } else {
        RefundState::Expired
    }
}

/// The place of a phase in the order in which a refund goes through them.
pub open spec fn phase_rank(state: RefundState) -> int {
    match state {
        RefundState::Active => 0,
        RefundState::GracePeriod => 1,
        RefundState::Cooldown => 2,
        RefundState::Expired => 3,
    }
}

/// The phase at `current_time` of a refund that starts at `start_time`. The ends
/// of the phases that the answer depends on must be times.
pub fn determine_refund_state(
    _env: &Env,
    current_time: u64,
    start_time: u64,
    grace_period: u64,
    cooldown: u64,
) -> (r: RefundState)
    requires
        current_time >= start_time ==> start_time + grace_period <= u64::MAX,
        current_time >= start_time + grace_period ==> start_time + grace_period + cooldown
            <= u64::MAX,
    ensures
        r == refund_state_at(
            current_time as int,
            start_time as int,
            grace_period as int,
            cooldown as int,
        ),
        r is Active <==> current_time < start_time,
        r is GracePeriod <==> start_time <= current_time < start_time + grace_period,
        r is Cooldown <==> start_time + grace_period <= current_time < start_time + grace_period
            + cooldown,
        r is Expired <==> start_time + grace_period + cooldown <= current_time,
{
    if current_time < start_time {
        RefundState::Active
    } else if current_time < start_time + grace_period {
        RefundState::GracePeriod
    } else if current_time < start_time + grace_period + cooldown {
        RefundState::Cooldown
    } else {
        RefundState::Expired
    }
}

/// Each phase lasts exactly as long as it was given: before the start, then for
/// the grace period, then for the cooldown, then for ever.
pub proof fn law_phases_last_as_given(
    current_time: u64,
    start_time: u64,
    grace_period: u64,
    cooldown: u64,
)
    ensures
        ({
            let state = refund_state_at(
                current_time as int,
                start_time as int,
                grace_period as int,
                cooldown as int,
            );
            &&& state is Active <==> current_time < start_time
            &&& state is GracePeriod <==> start_time <= current_time < start_time + grace_period
            &&& state is Cooldown <==> start_time + grace_period <= current_time < start_time
                + grace_period + cooldown
            &&& state is Expired <==> start_time + grace_period + cooldown <= current_time
        }),
{
}

/// A refund that starts later by some time is in the same phase later by that time.
pub proof fn law_phases_shift_with_start(
    current_time: u64,
    start_time: u64,
    grace_period: u64,
    cooldown: u64,
    delay: u64,
)
    ensures
        refund_state_at(
            current_time + delay,
            start_time + delay,
            grace_period as int,
            cooldown as int,
        ) == refund_state_at(
            current_time as int,
            start_time as int,
            grace_period as int,
            cooldown as int,
        ),
{
}

/// A refund only ever moves forward through its phases.
pub proof fn law_phases_only_advance(
    earlier: u64,
    later: u64,
    start_time: u64,
    grace_period: u64,
    cooldown: u64,
)
    requires
        earlier <= later,
    ensures
        phase_rank(
            refund_state_at(
                earlier as int,
                start_time as int,
                grace_period as int,
                cooldown as int,
            ),
        ) <= phase_rank(
            refund_state_at(later as int, start_time as int, grace_period as int, cooldown as int),
        ),
{
}

} // verus!
