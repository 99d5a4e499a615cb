//! The draw timer: a repeating timer that tells surfaces when to draw.
//!
//! A draw timer is held as its duration and the time elapsed on it. Each
//! tick is done by a `bevy::time::Timer` of that duration, running and
//! repeating, set to that elapsed time.
use vstd::prelude::*;

use core::time::Duration;

use bevy::time::{Timer, TimerMode};

verus! {

/// `Duration::as_nanos`: the whole number of nanoseconds a duration spans.
pub uninterp spec fn duration_nanos(d: Duration) -> nat;

/// The number of nanoseconds `Duration::MAX` spans: `u64::MAX` seconds and
/// 999 999 999 nanoseconds.
pub open spec fn max_duration_nanos() -> nat {
    18446744073709551615nat * 1000000000nat + 999999999nat
}

/// `a + b` nanoseconds, as `Duration::saturating_add` gives them: at most
/// those of `Duration::MAX`.
pub open spec fn saturating_nanos(a: nat, b: nat) -> nat {
    if a + b > max_duration_nanos() {
        max_duration_nanos()
    } else {
        a + b
    }
}

/// What one tick by `delta` does to a running, repeating timer of the given
/// duration whose elapsed time was `elapsed`: `finished` is whether it just
/// finished, `after` its elapsed time after the tick. The elapsed time grows
/// by `delta`, saturating. Below the duration, that is the new elapsed time
/// and the timer has not finished. At or past a duration `d > 0`, the timer
/// finishes as many times as `d` fits in the elapsed time, counted in a
/// `u32`, and keeps the remainder (counted in a `u64` of nanoseconds); of a
/// zero duration it finishes and keeps nothing.
pub open spec fn repeating_tick(
    duration: Duration,
    elapsed: Duration,
    delta: Duration,
    after: Duration,
    finished: bool,
) -> bool {
    let d = duration_nanos(duration);
    let s = saturating_nanos(duration_nanos(elapsed), duration_nanos(delta));
    &&& s < d ==> !finished && duration_nanos(after) == s
    &&& d == 0 ==> finished && duration_nanos(after) == 0
    &&& 0 < d <= s ==> (finished <==> (s / d) % 4294967296 != 0)
    &&& 0 < d <= s && s % d <= u64::MAX ==> duration_nanos(after) == s % d
}

/// `Timer::new(duration, TimerMode::Repeating)`, `Timer::set_elapsed(elapsed)`
/// and `Timer::tick(delta)`, then `Timer::elapsed` and `Timer::just_finished`:
/// one tick of a new, running, repeating timer set to `elapsed`. The
/// contract is what bevy's `Timer::tick` and `Stopwatch::tick` compute for
/// such a timer.
#[verifier::external_body]
fn timer_tick(duration: Duration, elapsed: Duration, delta: Duration) -> (r: (Duration, bool))
    ensures
        saturating_nanos(duration_nanos(elapsed), duration_nanos(delta)) < duration_nanos(duration)
            ==> !r.1 && duration_nanos(r.0) == saturating_nanos(
            duration_nanos(elapsed),
            duration_nanos(delta),
        ),
        duration_nanos(duration) == 0 ==> r.1 && duration_nanos(r.0) == 0,
        0 < duration_nanos(duration) <= saturating_nanos(duration_nanos(elapsed), duration_nanos(delta))
            ==> (r.1 <==> (saturating_nanos(duration_nanos(elapsed), duration_nanos(delta))
            / duration_nanos(duration)) % 4294967296 != 0),
        0 < duration_nanos(duration) <= saturating_nanos(duration_nanos(elapsed), duration_nanos(delta))
            && saturating_nanos(duration_nanos(elapsed), duration_nanos(delta)) % duration_nanos(
            duration,
        ) <= u64::MAX ==> duration_nanos(r.0) == saturating_nanos(
            duration_nanos(elapsed),
            duration_nanos(delta),
        ) % duration_nanos(duration),
        duration_nanos(r.0) <= max_duration_nanos(),
{
    let mut timer = Timer::new(duration, TimerMode::Repeating);
    timer.set_elapsed(elapsed);
    timer.tick(delta);
    (timer.elapsed(), timer.just_finished())
}

/// A repeating timer that finishes every time its duration elapses.
pub struct DrawTimer {
    duration: Duration,
    elapsed: Duration,
}

impl DrawTimer {
    /// The timer's duration.
    pub closed spec fn duration_of(&self) -> Duration {
        self.duration
    }

    /// The time elapsed on the timer since it last finished.
    pub closed spec fn elapsed_of(&self) -> Duration {
        self.elapsed
    }

    /// A repeating timer of the given duration, whose elapsed time starts
    /// at the full duration, so that its first tick finishes it.
    pub fn new(duration: Duration) -> (t: DrawTimer)
        ensures
            t.duration_of() == duration,
            t.elapsed_of() == duration,
    {
        DrawTimer { duration, elapsed: duration }
    }

    /// The timer's duration.
    pub fn duration(&self) -> (d: Duration)
        ensures
            d == self.duration_of(),
    {
        self.duration
    }

    /// The time elapsed on the timer since it last finished.
    pub fn elapsed(&self) -> (d: Duration)
        ensures
            d == self.elapsed_of(),
    {
        self.elapsed
    }

    /// Advances the timer by `delta`; whether it finished during this tick.
    pub fn tick(&mut self, delta: Duration) -> (just_finished: bool)
        ensures
            final(self).duration_of() == old(self).duration_of(),
            duration_nanos(final(self).elapsed_of()) <= max_duration_nanos(),
            repeating_tick(
                old(self).duration_of(),
                old(self).elapsed_of(),
                delta,
                final(self).elapsed_of(),
                just_finished,
            ),
    {
        let (elapsed, finished) = timer_tick(self.duration, self.elapsed, delta);
        self.elapsed = elapsed;
        finished
    }
}

/// The first tick of a new draw timer, whose elapsed time is its whole
/// duration `d > 0`, finishes it, when the tick is shorter than
/// `4294967295 * d`. (Beyond that, bevy counts the finishes in a `u32`,
/// and a count that is a multiple of `2^32` reads as none.)
pub proof fn lemma_first_tick_finishes(t: DrawTimer, delta: Duration, after: Duration, finished: bool)
    requires
        t.elapsed_of() == t.duration_of(),
        0 < duration_nanos(t.duration_of()) <= max_duration_nanos(),
        duration_nanos(delta) <= max_duration_nanos(),
        duration_nanos(delta) < 4294967295 * duration_nanos(t.duration_of()),
        repeating_tick(t.duration_of(), t.elapsed_of(), delta, after, finished),
    ensures
        finished,
{
    let d = duration_nanos(t.duration_of()) as int;
    let s = saturating_nanos(duration_nanos(t.elapsed_of()), duration_nanos(delta)) as int;
    assert(d <= s);
    assert(s < 4294967296 * d);
    assert(1 <= s / d < 4294967296) by (nonlinear_arith)
        requires
            0 < d,
            d <= s,
            s < 4294967296 * d,
    ;
    assert((s / d) % 4294967296 == s / d);
}

/// A draw timer finished. The duration is the time elapsed on that timer
/// since it was last reset: what is left of the tick past its duration.
#[derive(Debug, Clone, Copy)]
pub struct DrawTimerFinishedEvent(Duration);

/// `Duration::from_nanos`: the duration of `nanos` nanoseconds.
#[verifier::external_body]
fn duration_from_nanos(nanos: u64) -> (d: Duration)
    ensures
        duration_nanos(d) == nanos,
{
    Duration::from_nanos(nanos)
}

impl Default for DrawTimerFinishedEvent {
    /// The event of a zero duration.
    fn default() -> (e: Self)
        ensures
            duration_nanos(e.elapsed_of()) == 0,
    {
        DrawTimerFinishedEvent(duration_from_nanos(0))
    }
}

impl DrawTimerFinishedEvent {
    /// The elapsed time the event carries.
    pub closed spec fn elapsed_of(&self) -> Duration {
        self.0
    }

    /// The event for the given elapsed time.
    pub fn new(duration: Duration) -> (e: Self)
        ensures
            e.elapsed_of() == duration,
    {
        DrawTimerFinishedEvent(duration)
    }

    /// The elapsed time the event carries.
    pub fn duration(&self) -> (d: Duration)
        ensures
            d == self.elapsed_of(),
    {
        self.0
    }
}

/// The elapsed times, in order, of the timers whose flag is set.
pub open spec fn finished_elapsed(finished: Seq<bool>, elapsed: Seq<Duration>) -> Seq<Duration>
    decreases finished.len(),
{
    if finished.len() == 0 {
        Seq::empty()
    } else {
        let rest = finished_elapsed(finished.drop_last(), elapsed.take(finished.len() - 1));
        if finished.last() {
            rest.push(elapsed[finished.len() - 1])
        } else {
            rest
        }
    }
}

/// The durations the events carry, in order.
pub open spec fn events_elapsed(events: Seq<DrawTimerFinishedEvent>) -> Seq<Duration> {
    events.map_values(|e: DrawTimerFinishedEvent| e.elapsed_of())
}

/// The events of one round of ticks: for each timer that just finished, as
/// `finished` tells it, in the order of the timers, one event that carries
/// the timer's elapsed time.
pub fn draw_events(finished: &Vec<bool>, elapsed: &Vec<Duration>) -> (events: Vec<DrawTimerFinishedEvent>)
    requires
        finished@.len() == elapsed@.len(),
    ensures
        events_elapsed(events@) == finished_elapsed(finished@, elapsed@),
{
    let mut events: Vec<DrawTimerFinishedEvent> = Vec::new();
    let mut i: usize = 0;
    while i < finished.len()
        invariant
            i <= finished@.len(),
            finished@.len() == elapsed@.len(),
            events_elapsed(events@) == finished_elapsed(
                finished@.subrange(0, i as int),
                elapsed@.subrange(0, i as int),
            ),
        decreases finished@.len() - i,
    {
        let ghost before = events@;
        proof {
            let f = finished@.subrange(0, i + 1);
            assert(f.drop_last() =~= finished@.subrange(0, i as int));
            assert(elapsed@.subrange(0, i + 1).take(i as int) =~= elapsed@.subrange(0, i as int));
        }
        if finished[i] {
            events.push(DrawTimerFinishedEvent(elapsed[i]));
            proof {
                assert(events_elapsed(events@) =~= events_elapsed(before).push(elapsed@[i as int]));
            }
        }
        i = i + 1;
    }
    proof {
        assert(finished@.subrange(0, i as int) =~= finished@);
        assert(elapsed@.subrange(0, i as int) =~= elapsed@);
    }
    events
}

/// The elapsed times of the timers, in order.
pub open spec fn timers_elapsed(timers: Seq<DrawTimer>) -> Seq<Duration> {
    timers.map_values(|t: DrawTimer| t.elapsed_of())
}

/// Ticks every draw timer by `delta`; each timer that just finished sends
/// one event that carries its elapsed time after the tick. The events come
/// in the order of the timers.
pub fn sync_draw_timer(timers: &mut Vec<DrawTimer>, delta: Duration) -> (events: Vec<DrawTimerFinishedEvent>)
    ensures
        final(timers)@.len() == old(timers)@.len(),
        exists|finished: Seq<bool>|
            {
                &&& finished.len() == old(timers)@.len()
                &&& forall|i: int|
                    0 <= i < finished.len() ==> {
                        &&& (#[trigger] final(timers)@[i]).duration_of() == old(timers)@[i].duration_of()
                        &&& repeating_tick(
                            old(timers)@[i].duration_of(),
                            old(timers)@[i].elapsed_of(),
                            delta,
                            final(timers)@[i].elapsed_of(),
                            finished[i],
                        )
                    }
                &&& events_elapsed(events@) == finished_elapsed(finished, timers_elapsed(final(timers)@))
            },
{
    let ghost start = timers@;
    let mut finished: Vec<bool> = Vec::new();
    let mut elapsed: Vec<Duration> = Vec::new();
    let mut i: usize = 0;
    while i < timers.len()
        invariant
            i <= timers@.len(),
            timers@.len() == start.len(),
            finished@.len() == i,
            elapsed@.len() == i,
            forall|j: int| i <= j < start.len() ==> #[trigger] timers@[j] == start[j],
            forall|j: int|
                0 <= j < i ==> {
                    &&& (#[trigger] timers@[j]).duration_of() == start[j].duration_of()
                    &&& repeating_tick(
                        start[j].duration_of(),
                        start[j].elapsed_of(),
                        delta,
                        timers@[j].elapsed_of(),
                        finished@[j],
                    )
                    &&& elapsed@[j] == timers@[j].elapsed_of()
                },
        decreases timers@.len() - i,
    {
        let mut timer = timers.remove(i);
        let just = timer.tick(delta);
        finished.push(just);
        elapsed.push(timer.elapsed());
        timers.insert(i, timer);
        i = i + 1;
    }
    let events = draw_events(&finished, &elapsed);
    proof {
        assert(elapsed@ =~= timers_elapsed(timers@));
    }
    events
}

} // verus!
