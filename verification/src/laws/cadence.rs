//! The cadence of the pulsed fusion drive: while the buffer keeps up, a shot falls each
//! interval, whatever the steps.
use crate::float::accuracy::{lemma_times_adds, lemma_times_commutes, lemma_times_positive, times};
use crate::float::errors::{lemma_size_times, lemma_times_difference, size};
use vstd::prelude::*;

verus! {

/// The lesser of two real numbers.
pub open spec fn lesser(a: real, b: real) -> real {
    if b < a {
        b
    } else {
        a
    }
}

/// What a buffer of capacity `cap`, charged at `power`, holds when it starts at phase
/// `phase` with `stored`, fires `shots` shots of `driver` at the end of each interval, and
/// comes to phase `end`.
pub open spec fn chain(
    cap: real,
    driver: real,
    interval: real,
    power: real,
    stored: real,
    phase: real,
    shots: nat,
    end: real,
) -> real
    decreases shots,
{
    if shots == 0 {
        lesser(cap, stored + times(power, end - phase))
    } else {
        chain(
            cap,
            driver,
            interval,
            power,
            lesser(cap, stored + times(power, interval - phase)) - driver,
            0 as real,
            (shots - 1) as nat,
            end,
        )
    }
}

/// A buffer that starts with little more, or less, ends with no more than that more, or
/// less.
pub proof fn lemma_chain_follows(
    cap: real,
    driver: real,
    interval: real,
    power: real,
    stored: real,
    other: real,
    phase: real,
    shots: nat,
    end: real,
    slack: real,
)
    requires
        size(stored - other) <= slack,
    ensures
        size(
            chain(cap, driver, interval, power, stored, phase, shots, end) - chain(
                cap,
                driver,
                interval,
                power,
                other,
                phase,
                shots,
                end,
            ),
        ) <= slack,
    decreases shots,
{
    if shots > 0 {
        lemma_chain_follows(
            cap,
            driver,
            interval,
            power,
            lesser(cap, stored + times(power, interval - phase)) - driver,
            lesser(cap, other + times(power, interval - phase)) - driver,
            0 as real,
            (shots - 1) as nat,
            end,
            slack,
        );
    }
}

/// A buffer that ends a little later holds no more than what is charged meanwhile.
pub proof fn lemma_chain_end(
    cap: real,
    driver: real,
    interval: real,
    power: real,
    stored: real,
    phase: real,
    shots: nat,
    end: real,
    other: real,
)
    requires
        power >= (0 as real),
    ensures
        size(
            chain(cap, driver, interval, power, stored, phase, shots, end) - chain(
                cap,
                driver,
                interval,
                power,
                stored,
                phase,
                shots,
                other,
            ),
        ) <= times(power, size(end - other)),
    decreases shots,
{
    if shots > 0 {
        lemma_chain_end(
            cap,
            driver,
            interval,
            power,
            lesser(cap, stored + times(power, interval - phase)) - driver,
            0 as real,
            (shots - 1) as nat,
            end,
            other,
        );
    } else {
        lemma_times_commutes(power, end - phase);
        lemma_times_commutes(power, other - phase);
        lemma_times_difference(end - phase, other - phase, power);
        lemma_size_times(end - other, power);
        lemma_times_commutes(power, size(end - other));
        lemma_times_commutes(power, end - other);
    }
}

/// A buffer that goes on from where it came to holds what it would have held without the
/// break.
pub proof fn lemma_chain_split(
    cap: real,
    driver: real,
    interval: real,
    power: real,
    stored: real,
    phase: real,
    first: nat,
    pause: real,
    second: nat,
    end: real,
)
    requires
        power >= (0 as real),
        pause <= interval,
        second == 0 ==> pause <= end,
    ensures
        chain(
            cap,
            driver,
            interval,
            power,
            chain(cap, driver, interval, power, stored, phase, first, pause),
            pause,
            second,
            end,
        ) == chain(cap, driver, interval, power, stored, phase, first + second, end),
    decreases first,
{
    if first > 0 {
        lemma_chain_split(
            cap,
            driver,
            interval,
            power,
            lesser(cap, stored + times(power, interval - phase)) - driver,
            0 as real,
            (first - 1) as nat,
            pause,
            second,
            end,
        );
    } else {
        let target = if second == 0 {
            end
        } else {
            interval
        };
        lemma_times_positive(power, target - pause);
        lemma_times_adds(pause - phase, target - pause, power);
        lemma_times_commutes(power, pause - phase);
        lemma_times_commutes(power, target - pause);
        lemma_times_commutes(power, target - phase);
        assert((pause - phase) + (target - pause) == target - phase);
    }
}

} // verus!
