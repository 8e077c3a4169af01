//! The playback state: where in the track the player is, derived from a
//! monotonic clock, a reference point on it and a speed; and the scroll
//! window, which says how much of the track ahead is on the screen.
//!
//! The monotonic clock is read in whole microseconds since the clock value
//! was made. The time in the track is in whole milliseconds, and the
//! speed in thousandths, so one microsecond at normal speed is a thousand
//! millionths of a millisecond of the track. The reference point is kept in
//! parts of a microsecond, fine enough that a seek is read back as the very
//! millisecond that was sought, at every speed.

use vstd::prelude::*;
use crate::layout::projection::NORMAL_SPEED;
use crate::math::{clamp_i64, div_floor, mod_floor, saturate_i64};

verus! {

/// `std::time::Instant`, a reading of the monotonic clock. A value is kept
/// as the point from which time is counted; nothing is read from it but
/// the time that has passed since.
#[verifier::external_type_specification]
#[verifier::external_body]
pub struct ExInstant(std::time::Instant);

/// `std::time::Instant::now`, the present reading of the monotonic clock.
/// Nothing is claimed of it.
pub assume_specification[ std::time::Instant::now ]() -> std::time::Instant;

/// `std::time::Instant::elapsed`, the time that has passed since the
/// reading was taken. Nothing is claimed of it.
pub assume_specification[ std::time::Instant::elapsed ](
    instant: &std::time::Instant,
) -> std::time::Duration;

/// `std::time::Duration::as_micros`, the whole microseconds in a duration.
/// Nothing is claimed of the number.
pub assume_specification[ std::time::Duration::as_micros ](
    duration: &std::time::Duration,
) -> u128;

/// How many microseconds at a speed of one thousandth make a millisecond
/// of the track.
pub const MICROS_PER_MILLI: i128 = 1_000_000;

/// The parts into which a reference point divides a microsecond: more than
/// a speed can have thousandths.
pub const PARTS_PER_MICRO: i128 = 0x1_0000_0000;

/// How many parts of a microsecond at a speed of one thousandth make a
/// millisecond of the track.
pub open spec fn parts_per_milli() -> int {
    MICROS_PER_MILLI as int * PARTS_PER_MICRO as int
}

/// The time in the track, in milliseconds, when the monotonic clock reads
/// `now` microseconds: the time since the reference point, scaled by the
/// speed. The reference point is in parts of a microsecond.
pub open spec fn song_time(reference: int, now: int, speed: int) -> int {
    (now * PARTS_PER_MICRO as int - reference) * speed / parts_per_milli()
}

/// The reference point that puts the track at `time` when the monotonic
/// clock reads `now`: as far before `now` as `time` takes to play at
/// `speed`, rounded up to a whole part of a microsecond.
pub open spec fn seek_reference(now: int, time: int, speed: int) -> int {
    now * PARTS_PER_MICRO as int + (-(time * parts_per_milli())) / speed
}

/// Bound on the magnitude of a reference point.
pub open spec fn reference_limit() -> int {
    0x1_0000_0000_0000_0000_0000_0000_0000_0
}

/// The scroll window of a new clock, in milliseconds.
pub const DEFAULT_SCROLL_TIME_MS: u32 = 1000;

/// A playback clock. Its speed and its scroll window are never zero.
pub struct PlaybackClock {
    epoch: std::time::Instant,
    reference: i128,
    speed: u32,
    scroll_time_ms: u32,
}

impl PlaybackClock {
    #[verifier::type_invariant]
    spec fn well_formed(&self) -> bool {
        &&& self.speed > 0
        &&& self.scroll_time_ms > 0
        &&& -reference_limit() <= self.reference <= reference_limit()
    }

    /// The reference point on the monotonic clock, in parts of a
    /// microsecond.
    pub closed spec fn reference(&self) -> int {
        self.reference as int
    }

    /// The speed, in thousandths.
    pub closed spec fn speed(&self) -> u32 {
        self.speed
    }

    /// The scroll window: the milliseconds that a note takes from the top
    /// of the playfield to its bottom.
    pub closed spec fn scroll_time(&self) -> u32 {
        self.scroll_time_ms
    }

    /// The reading of the monotonic clock from which `now` is counted.
    pub closed spec fn epoch(&self) -> std::time::Instant {
        self.epoch
    }

    /// The time in the track when the monotonic clock reads `now`, cut to
    /// the range of `i64`.
    pub open spec fn time_at(&self, now: int) -> int {
        clamp_i64(song_time(self.reference(), now, self.speed() as int))
    }

    /// Whether `self` is `before` after a seek to `time` when the monotonic
    /// clock read `now`.
    pub open spec fn sought(&self, before: &Self, now: int, time: int) -> bool {
        &&& self.reference() == seek_reference(now, time, before.speed() as int)
        &&& self.speed() == before.speed()
        &&& self.scroll_time() == before.scroll_time()
        &&& self.epoch() == before.epoch()
    }

    /// A clock at normal speed whose track starts now.
    pub fn new() -> (clock: Self)
        ensures
            clock.reference() == 0,
            clock.speed() == NORMAL_SPEED,
            clock.scroll_time() == DEFAULT_SCROLL_TIME_MS,
    {
        PlaybackClock {
            epoch: std::time::Instant::now(),
            reference: 0,
            speed: NORMAL_SPEED,
            scroll_time_ms: DEFAULT_SCROLL_TIME_MS,
        }
    }

    /// Reads the monotonic clock: microseconds since `self` was made, at
    /// most `u64::MAX`.
    pub fn now(&self) -> (now: u64) {
        let elapsed = self.epoch.elapsed();
        let micros: u128 = elapsed.as_micros();
        if micros > u64::MAX as u128 {
            u64::MAX
        } else {
            micros as u64
        }
    }

    /// The speed, in thousandths.
    pub fn get_speed(&self) -> (speed: u32)
        ensures
            speed == self.speed(),
            speed > 0,
    {
        proof {
            use_type_invariant(self);
        }
        self.speed
    }

    /// The scroll window, in milliseconds.
    pub fn get_scroll_time(&self) -> (ms: u32)
        ensures
            ms == self.scroll_time(),
            ms > 0,
    {
        proof {
            use_type_invariant(self);
        }
        self.scroll_time_ms
    }

    /// The time in the track when the monotonic clock reads `now`.
    pub fn current_time_at(&self, now: u64) -> (time: i64)
        ensures
            time == self.time_at(now as int),
    {
        proof {
            use_type_invariant(self);
        }
        let unit: i128 = MICROS_PER_MILLI * PARTS_PER_MICRO;
        assert(unit == 4_294_967_296_000_000);
        let elapsed: i128 = now as i128 * PARTS_PER_MICRO - self.reference;
        // The whole milliseconds at a speed of one thousandth, and what is
        // left of the elapsed time: each is scaled by itself, so that no
        // product leaves the range.
        let whole: i128 = div_floor(elapsed, unit);
        let rest: i128 = mod_floor(elapsed, unit);
        proof {
            let limit: int = 0x4_0000_0000_0000_0000_0000_0000_0000_0;
            vstd::arithmetic::div_mod::lemma_div_is_ordered(elapsed as int, limit, unit as int);
            vstd::arithmetic::div_mod::lemma_div_is_ordered(-limit, elapsed as int, unit as int);
            vstd::arithmetic::div_mod::lemma_fundamental_div_mod(elapsed as int, unit as int);
        }
        assert(-0x10_0000_0000_0000_0000_0000_0000 <= whole * self.speed
            <= 0x10_0000_0000_0000_0000_0000_0000) by (nonlinear_arith)
            requires
                -0x10_0000_0000_0000_0000 <= whole <= 0x10_0000_0000_0000_0000,
                0 <= self.speed <= 0xffff_ffff,
        ;
        assert(0 <= rest * self.speed <= 0x1_0000_0000_0000_0000_0000_0000) by (nonlinear_arith)
            requires
                0 <= rest <= 0x1_0000_0000_0000_0000,
                0 <= self.speed <= 0xffff_ffff,
        ;
        let scaled_rest: i128 = div_floor(rest * (self.speed as i128), unit);
        proof {
            let speed: int = self.speed as int;
            assert(elapsed * speed == rest * speed + (whole * speed) * unit) by (nonlinear_arith)
                requires
                    elapsed == unit * whole + rest,
            ;
            vstd::arithmetic::div_mod::lemma_hoist_over_denominator(
                rest * speed,
                whole * speed,
                unit as nat,
            );
        }
        saturate_i64(whole * (self.speed as i128) + scaled_rest)
    }

    /// The time in the track now.
    pub fn current_time(&self) -> (time: i64)
        ensures
            exists|now: u64| time == #[trigger] self.time_at(now as int),
    {
        let now: u64 = self.now();
        self.current_time_at(now)
    }

    /// Moves the reference point so that the track is at `time_ms` when the
    /// monotonic clock reads `now`. The speed stays. A reading at `now`
    /// gives `time_ms` back.
    pub fn set_time_at(&mut self, now: u64, time_ms: i64)
        ensures
            final(self).sought(old(self), now as int, time_ms as int),
            final(self).time_at(now as int) == time_ms,
    {
        proof {
            use_type_invariant(&*self);
            lemma_time_after_seek(now as int, time_ms as int, self.speed as int, now as int);
        }
        let unit: i128 = MICROS_PER_MILLI * PARTS_PER_MICRO;
        assert(unit == 4_294_967_296_000_000);
        let parts: i128 = time_ms as i128 * unit;
        assert(parts == time_ms * 4_294_967_296_000_000);
        let back: i128 = div_floor(-parts, self.speed as i128);
        let at: i128 = now as i128 * PARTS_PER_MICRO;
        assert(at == now * 0x1_0000_0000);
        self.reference = at + back;
    }

    /// Moves the reference point so that the track is at `time_ms` now.
    pub fn set_time(&mut self, time_ms: i64)
        ensures
            exists|now: u64| #[trigger] final(self).sought(old(self), now as int, time_ms as int),
    {
        let now: u64 = self.now();
        self.set_time_at(now, time_ms);
    }

    /// Restarts the track when the monotonic clock reads `now`: a seek to
    /// the time zero.
    pub fn reset_at(&mut self, now: u64)
        ensures
            final(self).sought(old(self), now as int, 0),
            final(self).reference() == now * PARTS_PER_MICRO,
            final(self).time_at(now as int) == 0,
    {
        proof {
            use_type_invariant(&*self);
            vstd::arithmetic::div_mod::lemma_div_of0(self.speed as int);
        }
        self.set_time_at(now, 0);
    }

    /// Restarts the track now.
    pub fn reset(&mut self)
        ensures
            exists|now: u64| #[trigger] final(self).sought(old(self), now as int, 0),
    {
        let now: u64 = self.now();
        self.reset_at(now);
    }

    /// Sets the speed, in thousandths, and leaves the reference point where
    /// it is. A speed of zero is refused: the clock stays as it was.
    pub fn set_speed(&mut self, speed: u32)
        ensures
            final(self).speed() == (if speed > 0 { speed } else { old(self).speed() }),
            final(self).speed() > 0,
            final(self).reference() == old(self).reference(),
            final(self).scroll_time() == old(self).scroll_time(),
            final(self).epoch() == old(self).epoch(),
    {
        proof {
            use_type_invariant(&*self);
        }
        if speed > 0 {
            self.speed = speed;
        }
    }

    /// Sets the scroll window, in milliseconds. A window of zero is
    /// refused: the clock stays as it was.
    pub fn set_scroll_time(&mut self, ms: u32)
        ensures
            final(self).scroll_time() == (if ms > 0 { ms } else { old(self).scroll_time() }),
            final(self).scroll_time() > 0,
            final(self).reference() == old(self).reference(),
            final(self).speed() == old(self).speed(),
            final(self).epoch() == old(self).epoch(),
    {
        proof {
            use_type_invariant(&*self);
        }
        if ms > 0 {
            self.scroll_time_ms = ms;
        }
    }
}

/// After a seek the track runs on from the time that was sought: at any
/// reading of the monotonic clock it is at that time plus the time since
/// the seek, scaled by the speed, in whole milliseconds. At the reading of
/// the seek itself it is at the time that was sought.
pub proof fn lemma_time_after_seek(seek_now: int, time: int, speed: int, now: int)
    requires
        0 < speed <= PARTS_PER_MICRO,
    ensures
        song_time(seek_reference(seek_now, time, speed), now, speed) == time + (now - seek_now)
            * speed / MICROS_PER_MILLI as int,
        song_time(seek_reference(seek_now, time, speed), seek_now, speed) == time,
{
    lemma_time_after_seek_at(seek_now, time, speed, now);
    lemma_time_after_seek_at(seek_now, time, speed, seek_now);
    assert(0 * speed == 0) by (nonlinear_arith);
}

/// The first claim of [`lemma_time_after_seek`].
proof fn lemma_time_after_seek_at(seek_now: int, time: int, speed: int, now: int)
    requires
        0 < speed <= PARTS_PER_MICRO,
    ensures
        song_time(seek_reference(seek_now, time, speed), now, speed) == time + (now - seek_now)
            * speed / MICROS_PER_MILLI as int,
{
    let micros = MICROS_PER_MILLI as int;
    let parts = PARTS_PER_MICRO as int;
    let unit = parts_per_milli();
    let back = (-(time * unit)) / speed;
    let lost = (-(time * unit)) % speed;
    vstd::arithmetic::div_mod::lemma_fundamental_div_mod(-(time * unit), speed);
    vstd::arithmetic::div_mod::lemma_mod_bound(-(time * unit), speed);
    let run = (now - seek_now) * speed;
    let whole = run / micros;
    let rest = run % micros;
    vstd::arithmetic::div_mod::lemma_fundamental_div_mod(run, micros);
    vstd::arithmetic::div_mod::lemma_mod_bound(run, micros);
    let elapsed = now * parts - seek_reference(seek_now, time, speed);
    assert(elapsed * speed == unit * (whole + time) + (parts * rest + lost)) by (nonlinear_arith)
        requires
            elapsed == (now - seek_now) * parts - back,
            -(time * unit) == speed * back + lost,
            run == (now - seek_now) * speed,
            run == micros * whole + rest,
            unit == micros * parts,
    ;
    assert(0 <= parts * rest + lost < unit) by (nonlinear_arith)
        requires
            0 <= rest <= micros - 1,
            0 <= lost < speed,
            speed <= parts,
            unit == micros * parts,
    ;
    vstd::arithmetic::div_mod::lemma_fundamental_div_mod_converse(
        elapsed * speed,
        unit,
        whole + time,
        parts * rest + lost,
    );
}

/// The track never runs backwards: a later reading of the monotonic clock
/// gives a time in the track that is no earlier.
pub proof fn lemma_time_runs_forward(reference: int, earlier: int, later: int, speed: int)
    requires
        speed >= 0,
        earlier <= later,
    ensures
        song_time(reference, earlier, speed) <= song_time(reference, later, speed),
{
    let parts = PARTS_PER_MICRO as int;
    assert((earlier * parts - reference) * speed <= (later * parts - reference) * speed)
        by (nonlinear_arith)
        requires
            speed >= 0,
            earlier <= later,
            parts > 0,
    ;
    vstd::arithmetic::div_mod::lemma_div_is_ordered(
        (earlier * parts - reference) * speed,
        (later * parts - reference) * speed,
        parts_per_milli(),
    );
}

impl PlaybackClock {
    /// A clock that was sought to `time` reads `time` at the moment of the
    /// seek, whatever its speed was set to before.
    pub proof fn lemma_sought_reads_back(&self, before: &Self, now: int, time: int)
        requires
            self.sought(before, now, time),
            before.speed() > 0,
            i64::MIN <= time <= i64::MAX,
        ensures
            self.time_at(now) == time,
    {
        lemma_time_after_seek(now, time, before.speed() as int, now);
    }

    /// A clock that was sought to `time` runs on from there at its speed.
    pub proof fn lemma_sought_runs_on(&self, before: &Self, seek_now: int, time: int, now: int)
        requires
            self.sought(before, seek_now, time),
            before.speed() > 0,
        ensures
            self.time_at(now) == clamp_i64(
                time + (now - seek_now) * self.speed() / MICROS_PER_MILLI as int,
            ),
    {
        lemma_time_after_seek(seek_now, time, before.speed() as int, now);
    }
}

} // verus!
