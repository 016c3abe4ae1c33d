//! Quorum decay of governance proposals.
//!
//! The quorum of a proposal starts at the threshold set at construction and
//! decays linearly toward a safety floor while the voting window elapses, so that
//! a proposal that has sat for most of its window needs less weight to pass. The
//! floor is absolute: no proposal ever passes with less than
//! [`QUORUM_FLOOR_BPS`], whatever its threshold.

use vstd::prelude::*;

verus! {

/// The lower bound on the effective quorum, in basis points of the total weight.
///
/// The safety minimum: even a fully decayed proposal must clear this much, so a
/// single heavyweight member cannot push a proposal through against the rest.
pub const QUORUM_FLOOR_BPS: u32 = 3_500;

/// The threshold that the decay starts from: `start_bps`, but no less than the
/// floor.
pub open spec fn initial_quorum(start_bps: int) -> int {
    if start_bps > QUORUM_FLOOR_BPS {
        start_bps
    } else {
        QUORUM_FLOOR_BPS as int
    }
}

/// How far a threshold lies above the floor.
pub open spec fn span(start_bps: int) -> int {
    initial_quorum(start_bps) - QUORUM_FLOOR_BPS
}

/// The effective quorum: the floor once the window is over or for a threshold
/// that is not above it, and otherwise the threshold less the elapsed share of its
/// span, rounded down.
pub open spec fn quorum_at(start_bps: int, elapsed: int, window: int) -> int {
    if elapsed >= window || start_bps <= QUORUM_FLOOR_BPS {
        QUORUM_FLOOR_BPS as int
    } else {
        start_bps - span(start_bps) * elapsed / window
    }
}

/// The effective quorum, in basis points, of a proposal that has `elapsed` of the
/// `window` ledgers of its voting window behind it.
///
/// The decay is linear, from `start_bps` at the first ledger to the floor once the
/// window is over. The result is never below the floor, also for a threshold that
/// is.
pub fn current_quorum_bps(start_bps: u32, elapsed: u32, window: u32) -> (r: u32)
    ensures
        r == quorum_at(start_bps as int, elapsed as int, window as int),
        r >= QUORUM_FLOOR_BPS,
        start_bps <= 3_500 || elapsed >= window ==> r == 3_500,
        start_bps >= 3_500 && elapsed < window ==> start_bps * window - (start_bps - 3_500)
            * elapsed <= r * window < start_bps * window - (start_bps - 3_500) * elapsed + window,
{
    proof {
        law_quorum_rests_on_floor(start_bps, elapsed, window);
        if start_bps >= 3_500 && elapsed < window {
            law_quorum_is_linear(start_bps, elapsed, window);
        }
    }
    if window == 0 {
        return QUORUM_FLOOR_BPS;
    }
    if elapsed >= window {
        return QUORUM_FLOOR_BPS;
    }
    let start: u64 = start_bps as u64;
    let floor: u64 = QUORUM_FLOOR_BPS as u64;
    let span: u64 = start.saturating_sub(floor);
    proof {
        lemma_decay_bounds(span as int, elapsed as int, window as int);
        assert(span * elapsed <= u64::MAX) by (nonlinear_arith)
            requires
                span <= u32::MAX,
                elapsed <= u32::MAX,
        ;
    }
    let decayed: u64 = span * (elapsed as u64) / (window as u64);
    let current: u64 = start - decayed;
    match u32::try_from(current) {
        Ok(bps) if bps > QUORUM_FLOOR_BPS => bps,
        _ => QUORUM_FLOOR_BPS,
    }
}

/// The floor is absolute: the quorum is never below it. Nor is it ever above the
/// threshold, where the threshold is at or above the floor.
pub proof fn law_quorum_stays_in_range(start_bps: u32, elapsed: u32, window: u32)
    ensures
        QUORUM_FLOOR_BPS <= quorum_at(start_bps as int, elapsed as int, window as int)
            <= initial_quorum(start_bps as int),
{
    if elapsed < window {
        lemma_decay_bounds(span(start_bps as int), elapsed as int, window as int);
    }
}

/// The quorum is the threshold, but no less than the floor, at the first ledger of
/// a window, and the floor once the window is over.
pub proof fn law_quorum_endpoints(start_bps: u32, elapsed: u32, window: u32)
    ensures
        window > 0 ==> quorum_at(start_bps as int, 0, window as int) == initial_quorum(
            start_bps as int,
        ),
        elapsed >= window ==> quorum_at(start_bps as int, elapsed as int, window as int)
            == QUORUM_FLOOR_BPS,
{
    if window > 0 {
        let s = span(start_bps as int);
        assert(s * 0 == 0);
        assert(0int / (window as int) == 0) by (nonlinear_arith)
            requires
                window > 0,
        ;
    }
}

/// The quorum never rises as the window elapses.
pub proof fn law_quorum_never_rises(start_bps: u32, earlier: u32, later: u32, window: u32)
    requires
        earlier <= later,
    ensures
        quorum_at(start_bps as int, later as int, window as int) <= quorum_at(
            start_bps as int,
            earlier as int,
            window as int,
        ),
{
    let s = span(start_bps as int);
    let w = window as int;
    if later < window {
        assert(s * earlier <= s * later) by (nonlinear_arith)
            requires
                s >= 0,
                earlier <= later,
        ;
        vstd::arithmetic::div_mod::lemma_div_is_ordered(s * earlier, s * later, w);
    } else if earlier < window {
        lemma_decay_bounds(s, earlier as int, w);
    }
}

/// A threshold at or below the floor of 3500, and a window that is over, leave
/// exactly 3500.
pub proof fn law_quorum_rests_on_floor(start_bps: u32, elapsed: u32, window: u32)
    ensures
        start_bps <= 3_500 || elapsed >= window ==> quorum_at(
            start_bps as int,
            elapsed as int,
            window as int,
        ) == 3_500,
{
}

/// A higher threshold never gives a lower quorum at the same ledger.
pub proof fn law_quorum_grows_with_threshold(lower: u32, higher: u32, elapsed: u32, window: u32)
    requires
        lower <= higher,
    ensures
        quorum_at(lower as int, elapsed as int, window as int) <= quorum_at(
            higher as int,
            elapsed as int,
            window as int,
        ),
{
    law_quorum_stays_in_range(higher, elapsed, window);
    if lower > QUORUM_FLOOR_BPS && elapsed < window {
        let w = window as int;
        let e = elapsed as int;
        let gap = higher - lower;
        let d = span(lower as int) * e;
        let more = span(higher as int) * e;
        assert(more <= d + gap * w) by (nonlinear_arith)
            requires
                d == span(lower as int) * e,
                more == span(higher as int) * e,
                span(higher as int) == span(lower as int) + gap,
                gap >= 0,
                0 <= e < w,
        ;
        vstd::arithmetic::div_mod::lemma_div_is_ordered(more, d + gap * w, w);
        assert((d + gap * w) / w == d / w + gap) by (nonlinear_arith)
            requires
                w > 0,
        ;
    }
}

/// A longer window never lowers the quorum at the same ledger: it decays more
/// slowly.
pub proof fn law_longer_window_decays_slower(start_bps: u32, elapsed: u32, shorter: u32, longer: u32)
    requires
        shorter <= longer,
    ensures
        quorum_at(start_bps as int, elapsed as int, shorter as int) <= quorum_at(
            start_bps as int,
            elapsed as int,
            longer as int,
        ),
{
    law_quorum_stays_in_range(start_bps, elapsed, longer);
    if elapsed < shorter {
        let d = span(start_bps as int) * elapsed;
        assert(d >= 0) by (nonlinear_arith)
            requires
                d == span(start_bps as int) * elapsed,
                span(start_bps as int) >= 0,
        ;
        vstd::arithmetic::div_mod::lemma_div_is_ordered_by_denominator(
            d,
            shorter as int,
            longer as int,
        );
    }
}

/// The ramp is linear: within the window, and from a threshold at or above the
/// floor of 3500, the quorum lies above the straight line from the threshold at the
/// first ledger to 3500 at the end of the window by less than one basis point.
pub proof fn law_quorum_is_linear(start_bps: u32, elapsed: u32, window: u32)
    requires
        start_bps >= 3_500,
        elapsed < window,
    ensures
        ({
            let quorum = quorum_at(start_bps as int, elapsed as int, window as int);
            &&& start_bps * window - (start_bps - 3_500) * elapsed <= quorum * window
            &&& quorum * window < start_bps * window - (start_bps - 3_500) * elapsed + window
        }),
{
    let d = (start_bps - 3_500) * elapsed;
    assert(span(start_bps as int) == start_bps - 3_500);
    if start_bps == QUORUM_FLOOR_BPS {
        assert(d == 0) by (nonlinear_arith)
            requires
                d == (start_bps - 3_500) * elapsed,
                start_bps == 3_500,
        ;
    }
    let w = window as int;
    let s = start_bps as int;
    let q = d / w;
    vstd::arithmetic::div_mod::lemma_fundamental_div_mod(d, w);
    vstd::arithmetic::div_mod::lemma_mod_bound(d, w);
    assert((s - q) * w == s * w - w * q) by (nonlinear_arith);
}

proof fn lemma_decay_bounds(span: int, elapsed: int, window: int)
    requires
        span >= 0,
        0 <= elapsed < window,
    ensures
        0 <= span * elapsed / window <= span,
{
    assert(0 <= span * elapsed / window <= span) by (nonlinear_arith)
        requires
            span >= 0,
            0 <= elapsed < window,
    ;
}

} // verus!
