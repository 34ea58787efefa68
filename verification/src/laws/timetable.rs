//! The exact timetable of the pulsed fusion drive: a course is when the interval began (s)
//! and what the buffer would have held at time zero, had it charged all along (J).
use crate::float::accuracy::{
    lemma_over, lemma_times_adds, lemma_times_commutes, lemma_times_order, lemma_times_strict, over, times,
};
use crate::float::errors::{lemma_size_times, lemma_times_difference, size};
use crate::laws::cadence::lesser;
use vstd::prelude::*;

verus! {

/// The greater of two real numbers.
pub open spec fn greater(a: real, b: real) -> real {
    if b > a {
        b
    } else {
        a
    }
}

/// When the next shot is both due and paid for, with `driver` a shot, `interval` between
/// shots and a charge of `power`.
pub open spec fn due(driver: real, interval: real, power: real, course: (real, real)) -> real {
    greater(course.0 + interval, over(driver - course.1, power))
}

/// The course after its next shot, from a buffer of capacity `cap`.
pub open spec fn fire(cap: real, driver: real, interval: real, power: real, course: (real, real)) -> (real, real) {
    let when = due(driver, interval, power, course);
    (when, lesser(cap - times(power, when), course.1) - driver)
}

/// The course after `shots` shots.
pub open spec fn fires(
    cap: real,
    driver: real,
    interval: real,
    power: real,
    course: (real, real),
    shots: nat,
) -> (real, real)
    decreases shots,
{
    if shots == 0 {
        course
    } else {
        fires(cap, driver, interval, power, fire(cap, driver, interval, power, course), (shots - 1) as nat)
    }
}

/// What a course has come to at a time: the phase is never beyond the interval, the buffer
/// never beyond its capacity.
pub open spec fn come_to(cap: real, interval: real, power: real, course: (real, real), time: real) -> (real, real) {
    (greater(course.0, time - interval), lesser(course.1, cap - times(power, time)))
}

/// A course at a time, but no later than its next shot.
pub open spec fn paused(
    cap: real,
    driver: real,
    interval: real,
    power: real,
    course: (real, real),
    time: real,
) -> (real, real) {
    come_to(cap, interval, power, course, lesser(time, due(driver, interval, power, course)))
}

/// Courses that differ by no more than `slack` seconds, of time or of charge.
pub open spec fn near_by(power: real, a: (real, real), b: (real, real), slack: real) -> bool {
    size(a.0 - b.0) <= slack && size(a.1 - b.1) <= times(power, slack)
}

/// Products with a positive number keep order and differences.
proof fn lemma_charge_of(power: real, a: real, b: real)
    requires
        power > (0 as real),
    ensures
        times(power, a) - times(power, b) == times(power, a - b),
        a <= b ==> times(power, a) <= times(power, b),
        size(times(power, a) - times(power, b)) == times(power, size(a - b)),
{
    lemma_times_commutes(power, a);
    lemma_times_commutes(power, b);
    lemma_times_commutes(power, a - b);
    lemma_times_difference(a, b, power);
    lemma_size_times(a - b, power);
    lemma_times_commutes(power, size(a - b));
    if a <= b {
        lemma_times_order(a, b, power);
    }
}

/// Courses near by each other are due near by each other.
pub proof fn lemma_due_follows(
    driver: real,
    interval: real,
    power: real,
    a: (real, real),
    b: (real, real),
    slack: real,
)
    requires
        power > (0 as real),
        near_by(power, a, b, slack),
    ensures
        size(due(driver, interval, power, a) - due(driver, interval, power, b)) <= slack,
{
    let (x, y) = (over(driver - a.1, power), over(driver - b.1, power));
    lemma_over(driver - a.1, power);
    lemma_over(driver - b.1, power);
    lemma_times_commutes(x, power);
    lemma_times_commutes(y, power);
    lemma_charge_of(power, x, y);
    if size(x - y) > slack {
        lemma_times_strict(slack, size(x - y), power);
        lemma_times_commutes(slack, power);
        lemma_times_commutes(size(x - y), power);
    }
}

/// Near-by courses fire to near-by courses.
pub proof fn lemma_fires_follow(
    cap: real,
    driver: real,
    interval: real,
    power: real,
    a: (real, real),
    b: (real, real),
    shots: nat,
    slack: real,
)
    requires
        power > (0 as real),
        near_by(power, a, b, slack),
    ensures
        near_by(
            power,
            fires(cap, driver, interval, power, a, shots),
            fires(cap, driver, interval, power, b, shots),
            slack,
        ),
    decreases shots,
{
    if shots > 0 {
        let (u, v) = (due(driver, interval, power, a), due(driver, interval, power, b));
        lemma_due_follows(driver, interval, power, a, b, slack);
        lemma_charge_of(power, u, v);
        lemma_charge_of(power, size(u - v), slack);
        lemma_fires_follow(
            cap,
            driver,
            interval,
            power,
            fire(cap, driver, interval, power, a),
            fire(cap, driver, interval, power, b),
            (shots - 1) as nat,
            slack,
        );
    }
}

/// Near-by courses come to near-by courses at near-by times.
pub proof fn lemma_come_to_follows(
    cap: real,
    interval: real,
    power: real,
    a: (real, real),
    b: (real, real),
    s: real,
    t: real,
    slack: real,
)
    requires
        power > (0 as real),
        near_by(power, a, b, slack),
        size(s - t) <= slack,
    ensures
        near_by(power, come_to(cap, interval, power, a, s), come_to(cap, interval, power, b, t), slack),
{
    lemma_charge_of(power, s, t);
    lemma_charge_of(power, size(s - t), slack);
}

/// Near-by courses pause near by each other.
pub proof fn lemma_paused_follows(
    cap: real,
    driver: real,
    interval: real,
    power: real,
    a: (real, real),
    b: (real, real),
    s: real,
    t: real,
    slack: real,
)
    requires
        power > (0 as real),
        near_by(power, a, b, slack),
        size(s - t) <= slack,
    ensures
        near_by(
            power,
            paused(cap, driver, interval, power, a, s),
            paused(cap, driver, interval, power, b, t),
            slack,
        ),
{
    lemma_due_follows(driver, interval, power, a, b, slack);
    lemma_come_to_follows(
        cap,
        interval,
        power,
        a,
        b,
        lesser(s, due(driver, interval, power, a)),
        lesser(t, due(driver, interval, power, b)),
        slack,
    );
}

/// Near-by courses are no further apart than two slacks from a third.
pub proof fn lemma_near_chain(power: real, a: (real, real), b: (real, real), c: (real, real), one: real, two: real)
    requires
        near_by(power, a, b, one),
        near_by(power, b, c, two),
    ensures
        near_by(power, a, c, one + two),
{
    lemma_times_adds(one, two, power);
}

/// A course that has come to a time before its next shot fires as it would have.
pub proof fn lemma_come_to_fires(cap: real, driver: real, interval: real, power: real, course: (real, real), time: real)
    requires
        power > (0 as real),
        driver <= cap,
        time <= due(driver, interval, power, course),
    ensures
        due(driver, interval, power, come_to(cap, interval, power, course, time)) == due(driver, interval, power, course),
        fire(cap, driver, interval, power, come_to(cap, interval, power, course, time)) == fire(
            cap,
            driver,
            interval,
            power,
            course,
        ),
{
    let when = due(driver, interval, power, course);
    let later = come_to(cap, interval, power, course, time);
    let full = cap - times(power, time);
    lemma_over(driver - course.1, power);
    lemma_over(driver - full, power);
    lemma_over(driver - later.1, power);
    let (x, y) = (over(driver - course.1, power), over(driver - full, power));
    // A full buffer is paid for already.
    lemma_times_commutes(y, power);
    lemma_times_commutes(x, power);
    if y > time {
        lemma_times_strict(time, y, power);
        lemma_times_commutes(time, power);
    }
    if full < course.1 {
        if x > y {
            lemma_times_strict(y, x, power);
        }
    } else if y > x {
        lemma_times_strict(x, y, power);
    }
    assert(due(driver, interval, power, later) == when);
    lemma_charge_of(power, time, when);
}

/// Coming to one time and then to a later one is coming to the later.
pub proof fn lemma_come_to_twice(cap: real, interval: real, power: real, course: (real, real), first: real, second: real)
    requires
        power > (0 as real),
        first <= second,
    ensures
        come_to(cap, interval, power, come_to(cap, interval, power, course, first), second) == come_to(
            cap,
            interval,
            power,
            course,
            second,
        ),
{
    lemma_charge_of(power, first, second);
}

/// Shots come after each other.
pub proof fn lemma_fires_advance(
    cap: real,
    driver: real,
    interval: real,
    power: real,
    course: (real, real),
    few: nat,
    many: nat,
)
    requires
        interval >= (0 as real),
        few < many,
    ensures
        due(driver, interval, power, fires(cap, driver, interval, power, course, few)) <= fires(
            cap,
            driver,
            interval,
            power,
            course,
            many,
        ).0,
    decreases many,
{
    let next = fire(cap, driver, interval, power, course);
    if few > 0 {
        lemma_fires_advance(cap, driver, interval, power, next, (few - 1) as nat, (many - 1) as nat);
    } else if many > 1 {
        lemma_fires_advance(cap, driver, interval, power, next, 0, (many - 1) as nat);
    }
}

/// Shots after shots.
pub proof fn lemma_fires_add(
    cap: real,
    driver: real,
    interval: real,
    power: real,
    course: (real, real),
    first: nat,
    second: nat,
)
    ensures
        fires(cap, driver, interval, power, fires(cap, driver, interval, power, course, first), second) == fires(
            cap,
            driver,
            interval,
            power,
            course,
            first + second,
        ),
    decreases first,
{
    if first > 0 {
        lemma_fires_add(
            cap,
            driver,
            interval,
            power,
            fire(cap, driver, interval, power, course),
            (first - 1) as nat,
            second,
        );
    }
}

} // verus!
