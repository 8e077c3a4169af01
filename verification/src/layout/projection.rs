//! Time-to-pixel projection for a falling-note playfield.
//!
//! Times are whole milliseconds, lengths are whole pixels with `y` growing
//! downwards, and a playback speed is given in thousandths, so that
//! [`NORMAL_SPEED`] plays in real time. An event of the track at the time
//! `t` reaches the judgment line when the clock of the player reads
//! `t * 1000 / speed + window`, and one scroll window before that it is
//! one playfield height above the line.
//!
//! Nothing is rounded on the way: the time that remains is kept as a whole
//! number of `speed`-th parts of a millisecond, whether a marker is on the
//! screen is decided on the exact position, and only the position that is
//! handed out is rounded, downwards on the screen, to a whole pixel. The
//! formulas are stated over `int`; the executable functions compute the
//! same values in `i128` without leaving its range.

use vstd::prelude::*;
use crate::math::{div_floor, mod_floor};

verus! {

/// The speed, in thousandths, at which a millisecond of the track takes a
/// millisecond to play.
pub const NORMAL_SPEED: u32 = 1000;

/// Width of the playfield in the units of a raw horizontal coordinate.
pub const PLAYFIELD_UNITS: i32 = 512;

/// Distance in pixels from the bottom edge of the playfield up to the
/// judgment line.
pub const JUDGMENT_LINE_OFFSET: u32 = 100;

/// Vertical position of the judgment line of a playfield whose top edge is
/// at `top` and that is `height` pixels tall.
pub open spec fn judgment_line(top: int, height: int) -> int {
    top + height - JUDGMENT_LINE_OFFSET as int
}

/// The time that remains until an event reaches the judgment line, which is
/// `event_time * 1000 / speed + window - current_time` milliseconds, in
/// `speed`-th parts of a millisecond. Negative once the event has passed
/// the line.
pub open spec fn remaining(event_time: int, current_time: int, speed: int, window: int) -> int {
    event_time * NORMAL_SPEED as int + (window - current_time) * speed
}

/// The remaining time, in the parts of [`remaining`], that one playfield
/// height stands for.
pub open spec fn scroll_unit(speed: int, window: int) -> int {
    speed * window
}

/// How far above the judgment line an event is, in pixels multiplied by
/// [`scroll_unit`].
pub open spec fn travel(
    event_time: int,
    current_time: int,
    speed: int,
    window: int,
    height: int,
) -> int {
    remaining(event_time, current_time, speed, window) * height
}

/// Vertical position of an event, rounded downwards on the screen to a
/// whole pixel: one scroll window of remaining time is one playfield height
/// above the judgment line.
pub open spec fn project_y(
    event_time: int,
    current_time: int,
    speed: int,
    window: int,
    height: int,
    line_y: int,
) -> int {
    line_y - travel(event_time, current_time, speed, window, height) / scroll_unit(speed, window)
}

/// A marker is drawn only where the exact position of its event lies
/// between the top of the screen and the judgment line, both included.
pub open spec fn visible(
    event_time: int,
    current_time: int,
    speed: int,
    window: int,
    height: int,
    line_y: int,
) -> bool {
    0 <= travel(event_time, current_time, speed, window, height) <= line_y * scroll_unit(
        speed,
        window,
    )
}

/// The lane that a raw horizontal coordinate falls into, out of `lanes`
/// lanes of equal width that tile the playfield again and again.
pub open spec fn lane_index(coord: int, lanes: int) -> int {
    (coord * lanes / PLAYFIELD_UNITS as int) % lanes
}

/// Bound on the magnitude of an event time handed to [`project`]: the sum
/// of a start time and a duration always lies within it.
pub open spec fn event_time_limit() -> int {
    0x1_0000_0000_0000_0000
}

/// Bound on the magnitude of a projected position.
pub open spec fn projection_limit() -> int {
    0x1_0000_0000_0000_0000_0000_0000_0000
}

/// Computes [`judgment_line`].
pub fn judgment_line_y(top: i32, height: u32) -> (line_y: i64)
    ensures
        line_y == judgment_line(top as int, height as int),
{
    top as i64 + height as i64 - JUDGMENT_LINE_OFFSET as i64
}

/// The whole pixels that an event is above the judgment line, and what is
/// left over of the division by [`scroll_unit`].
fn travelled(event_time: i128, current_time: i64, speed: u32, window: u32, height: u32) -> (parts: (
    i128,
    i128,
))
    requires
        speed > 0,
        window > 0,
        -event_time_limit() <= event_time <= event_time_limit(),
    ensures
        parts.0 == travel(
            event_time as int,
            current_time as int,
            speed as int,
            window as int,
            height as int,
        ) / scroll_unit(speed as int, window as int),
        parts.1 == travel(
            event_time as int,
            current_time as int,
            speed as int,
            window as int,
            height as int,
        ) % scroll_unit(speed as int, window as int),
        0 <= parts.1 < scroll_unit(speed as int, window as int),
        -0x1000_0000_0000_0000_0000_0000_0000 <= parts.0 <= 0x1000_0000_0000_0000_0000_0000_0000,
{
    let stretched: i128 = event_time * (NORMAL_SPEED as i128);
    assert(stretched == event_time * 1000);
    let ahead: i128 = window as i128 - current_time as i128;
    assert(-0x1_0000_0000_0000_0000 * speed <= ahead * speed <= 0x1_0000_0000_0000_0000 * speed)
        by (nonlinear_arith)
        requires
            -0x1_0000_0000_0000_0000 <= ahead <= 0x1_0000_0000_0000_0000,
            0 < speed,
    ;
    let left: i128 = stretched + ahead * (speed as i128);
    assert(1 <= speed * window <= 0xffff_ffff_0000_0000 && speed <= speed * window)
        by (nonlinear_arith)
        requires
            1 <= speed <= 0xffff_ffff,
            1 <= window <= 0xffff_ffff,
    ;
    let unit: i128 = speed as i128 * (window as i128);

    // The whole heights and what is left of the remaining time: each is
    // turned into pixels by itself, so that no product leaves the range.
    let whole: i128 = div_floor(left, unit);
    let rest: i128 = mod_floor(left, unit);
    proof {
        let bound: int = 0x800_0000_0000_0000_0000;
        assert(-(bound * unit) <= left <= bound * unit) by (nonlinear_arith)
            requires
                -0x400_0000_0000_0000_0000 <= stretched <= 0x400_0000_0000_0000_0000,
                -0x1_0000_0000_0000_0000 * speed <= ahead * speed <= 0x1_0000_0000_0000_0000
                    * speed,
                left == stretched + ahead * speed,
                1 <= speed <= unit,
                bound == 0x800_0000_0000_0000_0000,
        ;
        lemma_quotient_in_bounds(left as int, bound, unit as int);
        vstd::arithmetic::div_mod::lemma_fundamental_div_mod(left as int, unit as int);
    }
    assert(-0x800_0000_0000_0000_0000_0000_0000 <= whole * height
        <= 0x800_0000_0000_0000_0000_0000_0000) by (nonlinear_arith)
        requires
            -0x800_0000_0000_0000_0000 <= whole <= 0x800_0000_0000_0000_0000,
            0 <= height <= 0xffff_ffff,
    ;
    assert(0 <= rest * height <= 0x1_0000_0000_0000_0000_0000_0000) by (nonlinear_arith)
        requires
            0 <= rest <= 0x1_0000_0000_0000_0000,
            0 <= height <= 0xffff_ffff,
    ;
    let fine: i128 = rest * (height as i128);
    let pixels: i128 = whole * (height as i128) + div_floor(fine, unit);
    let over: i128 = mod_floor(fine, unit);
    proof {
        vstd::arithmetic::div_mod::lemma_fundamental_div_mod(fine as int, unit as int);
        let fine_pixels: int = fine as int / unit as int;
        assert(left * height == unit * pixels + over) by (nonlinear_arith)
            requires
                left == unit * whole + rest,
                fine == rest * height,
                fine == unit * fine_pixels + over,
                pixels == whole * height + fine_pixels,
        ;
        vstd::arithmetic::div_mod::lemma_fundamental_div_mod_converse(
            left * height,
            unit as int,
            pixels as int,
            over as int,
        );
    }
    (pixels, over)
}

/// Computes [`project_y`] for an event time that may be the end of a hold.
pub fn project(
    event_time: i128,
    current_time: i64,
    speed: u32,
    window: u32,
    height: u32,
    line_y: i64,
) -> (y: i128)
    requires
        speed > 0,
        window > 0,
        -event_time_limit() <= event_time <= event_time_limit(),
    ensures
        y == project_y(
            event_time as int,
            current_time as int,
            speed as int,
            window as int,
            height as int,
            line_y as int,
        ),
        -projection_limit() <= y <= projection_limit(),
{
    let (pixels, _) = travelled(event_time, current_time, speed, window, height);
    line_y as i128 - pixels
}

/// Vertical position of an event that the track places at `event_time`.
pub fn project_time(
    event_time: i64,
    current_time: i64,
    speed: u32,
    window: u32,
    height: u32,
    line_y: i64,
) -> (y: i128)
    requires
        speed > 0,
        window > 0,
    ensures
        y == project_y(
            event_time as int,
            current_time as int,
            speed as int,
            window as int,
            height as int,
            line_y as int,
        ),
        -projection_limit() <= y <= projection_limit(),
{
    project(event_time as i128, current_time, speed, window, height, line_y)
}

/// Where the marker of an event is drawn: its position where the event is
/// visible, and nothing where it is culled.
pub fn project_marker(
    event_time: i64,
    current_time: i64,
    speed: u32,
    window: u32,
    height: u32,
    line_y: i64,
) -> (marker: Option<i128>)
    requires
        speed > 0,
        window > 0,
    ensures
        marker is Some <==> visible(
            event_time as int,
            current_time as int,
            speed as int,
            window as int,
            height as int,
            line_y as int,
        ),
        marker matches Some(y) ==> y == project_y(
            event_time as int,
            current_time as int,
            speed as int,
            window as int,
            height as int,
            line_y as int,
        ) && 0 <= y <= line_y,
{
    let (pixels, over) = travelled(event_time as i128, current_time, speed, window, height);
    let line: i128 = line_y as i128;
    proof {
        let unit = scroll_unit(speed as int, window as int);
        let total = travel(
            event_time as int,
            current_time as int,
            speed as int,
            window as int,
            height as int,
        );
        assert(0 < unit) by (nonlinear_arith)
            requires
                unit == speed * window,
                0 < speed,
                0 < window,
        ;
        vstd::arithmetic::div_mod::lemma_fundamental_div_mod(total, unit);
        lemma_exact_bounds(total, unit, pixels as int, over as int, line as int);
    }
    if 0 <= pixels && (pixels < line || (pixels == line && over == 0)) {
        Some(line - pixels)
    } else {
        None
    }
}

/// Whether the marker of an event is drawn.
pub fn is_visible(
    event_time: i64,
    current_time: i64,
    speed: u32,
    window: u32,
    height: u32,
    line_y: i64,
) -> (shown: bool)
    requires
        speed > 0,
        window > 0,
    ensures
        shown == visible(
            event_time as int,
            current_time as int,
            speed as int,
            window as int,
            height as int,
            line_y as int,
        ),
{
    project_marker(event_time, current_time, speed, window, height, line_y).is_some()
}

/// Computes [`lane_index`].
pub fn lane_of(coord: i32, lanes: usize) -> (lane: usize)
    requires
        lanes > 0,
    ensures
        lane == lane_index(coord as int, lanes as int),
        lane < lanes,
{
    assert(-0x8000_0000_0000_0000_0000_0000 <= coord * lanes <= 0x8000_0000_0000_0000_0000_0000)
        by (nonlinear_arith)
        requires
            -0x8000_0000 <= coord <= 0x8000_0000,
            0 <= lanes <= 0xffff_ffff_ffff_ffff,
    ;
    let spread: i128 = coord as i128 * (lanes as i128);
    let column: i128 = div_floor(spread, PLAYFIELD_UNITS as i128);
    let lane: i128 = mod_floor(column, lanes as i128);
    lane as usize
}

/// At normal speed the remaining time is the time of the event plus the
/// scroll window minus the time of the player, in thousandths of a
/// millisecond.
pub proof fn lemma_remaining_at_normal_speed(event_time: int, current_time: int, window: int)
    ensures
        remaining(event_time, current_time, NORMAL_SPEED as int, window) == 1000 * (event_time
            + window - current_time),
{
}

/// An event whose remaining time is zero, which is so when the clock of the
/// player reads `event_time * 1000 / speed + window`, lies exactly on the
/// judgment line, whatever the speed, the window and the height of the
/// playfield; and it is visible wherever the line is on the screen.
pub proof fn lemma_arrival_is_on_the_line(
    event_time: int,
    current_time: int,
    speed: int,
    window: int,
    height: int,
    line_y: int,
)
    requires
        speed > 0,
        window > 0,
        (current_time - window) * speed == event_time * NORMAL_SPEED as int,
    ensures
        remaining(event_time, current_time, speed, window) == 0,
        project_y(event_time, current_time, speed, window, height, line_y) == line_y,
        line_y >= 0 ==> visible(event_time, current_time, speed, window, height, line_y),
{
    let left = remaining(event_time, current_time, speed, window);
    assert(left == 0) by (nonlinear_arith)
        requires
            left == event_time * 1000 + (window - current_time) * speed,
            (current_time - window) * speed == event_time * 1000,
    ;
    lemma_scroll_unit_is_positive(speed, window);
    assert(left * height == 0) by (nonlinear_arith)
        requires
            left == 0,
    ;
    vstd::arithmetic::div_mod::lemma_div_of0(scroll_unit(speed, window));
    assert(line_y >= 0 ==> line_y * scroll_unit(speed, window) >= 0) by (nonlinear_arith)
        requires
            scroll_unit(speed, window) > 0,
    ;
}

/// An event that has not yet reached the judgment line is projected on or
/// above it, and so is not culled at the line; as soon as it has as much
/// time left as one pixel takes to travel, it is strictly above.
pub proof fn lemma_upcoming_is_above_the_line(
    event_time: int,
    current_time: int,
    speed: int,
    window: int,
    height: int,
    line_y: int,
)
    requires
        speed > 0,
        window > 0,
        height >= 0,
        remaining(event_time, current_time, speed, window) > 0,
    ensures
        project_y(event_time, current_time, speed, window, height, line_y) <= line_y,
        travel(event_time, current_time, speed, window, height) >= scroll_unit(speed, window)
            ==> project_y(event_time, current_time, speed, window, height, line_y) < line_y,
{
    let left = remaining(event_time, current_time, speed, window);
    let unit = scroll_unit(speed, window);
    lemma_scroll_unit_is_positive(speed, window);
    assert(left * height >= 0) by (nonlinear_arith)
        requires
            left > 0,
            height >= 0,
    ;
    vstd::arithmetic::div_mod::lemma_div_pos_is_pos(left * height, unit);
    if left * height >= unit {
        vstd::arithmetic::div_mod::lemma_div_non_zero(left * height, unit);
    }
}

/// An event that has passed the judgment line is projected strictly below
/// it, and is not visible.
pub proof fn lemma_passed_is_below_the_line(
    event_time: int,
    current_time: int,
    speed: int,
    window: int,
    height: int,
    line_y: int,
)
    requires
        speed > 0,
        window > 0,
        height > 0,
        remaining(event_time, current_time, speed, window) < 0,
    ensures
        project_y(event_time, current_time, speed, window, height, line_y) > line_y,
        !visible(event_time, current_time, speed, window, height, line_y),
{
    let left = remaining(event_time, current_time, speed, window);
    lemma_scroll_unit_is_positive(speed, window);
    assert(left * height < 0) by (nonlinear_arith)
        requires
            left < 0,
            height > 0,
    ;
    lemma_floor_of_negative(left * height, scroll_unit(speed, window));
}

/// On a playfield of positive height an event is projected on or above
/// the judgment line exactly as long as it has not passed it.
pub proof fn lemma_on_the_line_until_passed(
    event_time: int,
    current_time: int,
    speed: int,
    window: int,
    height: int,
    line_y: int,
)
    requires
        speed > 0,
        window > 0,
        height > 0,
    ensures
        project_y(event_time, current_time, speed, window, height, line_y) <= line_y
            <==> remaining(event_time, current_time, speed, window) >= 0,
{
    let left = remaining(event_time, current_time, speed, window);
    if left > 0 {
        lemma_upcoming_is_above_the_line(event_time, current_time, speed, window, height, line_y);
    } else if left < 0 {
        lemma_passed_is_below_the_line(event_time, current_time, speed, window, height, line_y);
    } else {
        lemma_scroll_unit_is_positive(speed, window);
        assert(left * height == 0) by (nonlinear_arith)
            requires
                left == 0,
        ;
        vstd::arithmetic::div_mod::lemma_div_of0(scroll_unit(speed, window));
    }
}

/// A marker that is drawn is drawn on the screen: the rounded position of a
/// visible event lies between the top of the screen and the judgment line.
/// An event whose rounded position is above the top is not visible; one
/// whose exact position is above the top by less than a pixel is rounded
/// to the top and yet not visible.
pub proof fn lemma_visible_is_on_the_screen(
    event_time: int,
    current_time: int,
    speed: int,
    window: int,
    height: int,
    line_y: int,
)
    requires
        speed > 0,
        window > 0,
    ensures
        visible(event_time, current_time, speed, window, height, line_y) ==> 0 <= project_y(
            event_time,
            current_time,
            speed,
            window,
            height,
            line_y,
        ) <= line_y,
        visible(event_time, current_time, speed, window, height, line_y) <==> {
            let y = project_y(event_time, current_time, speed, window, height, line_y);
            let total = travel(event_time, current_time, speed, window, height);
            0 <= y <= line_y && (y == 0 ==> total % scroll_unit(speed, window) == 0)
        },
{
    let unit = scroll_unit(speed, window);
    let total = travel(event_time, current_time, speed, window, height);
    lemma_scroll_unit_is_positive(speed, window);
    vstd::arithmetic::div_mod::lemma_fundamental_div_mod(total, unit);
    vstd::arithmetic::div_mod::lemma_mod_bound(total, unit);
    lemma_exact_bounds(total, unit, total / unit, total % unit, line_y);
}

/// An event that is further from the judgment line than the line is from
/// the top of the screen is culled: its exact position is above the top.
pub proof fn lemma_beyond_the_visible_travel_is_culled(
    event_time: int,
    current_time: int,
    speed: int,
    window: int,
    height: int,
    line_y: int,
)
    requires
        speed > 0,
        window > 0,
        remaining(event_time, current_time, speed, window) * height > line_y * (speed * window),
    ensures
        !visible(event_time, current_time, speed, window, height, line_y),
{
}

/// An event that is a whole scroll window or more away from the judgment
/// line is projected at least one playfield height above it. On a playfield
/// whose judgment line is less than one height below the top of the screen,
/// such an event is culled.
pub proof fn lemma_beyond_one_window_is_culled(
    event_time: int,
    current_time: int,
    speed: int,
    window: int,
    height: int,
    line_y: int,
)
    requires
        speed > 0,
        window > 0,
        height >= 0,
        remaining(event_time, current_time, speed, window) >= scroll_unit(speed, window),
    ensures
        project_y(event_time, current_time, speed, window, height, line_y) <= line_y - height,
        line_y < height ==> !visible(event_time, current_time, speed, window, height, line_y),
{
    let left = remaining(event_time, current_time, speed, window);
    let unit = scroll_unit(speed, window);
    let total = left * height;
    lemma_scroll_unit_is_positive(speed, window);
    vstd::arithmetic::div_mod::lemma_fundamental_div_mod(total, unit);
    vstd::arithmetic::div_mod::lemma_mod_bound(total, unit);
    let q = total / unit;
    let r = total % unit;
    assert(q >= height) by (nonlinear_arith)
        requires
            total == unit * q + r,
            0 <= r < unit,
            total == left * height,
            left >= unit,
            height >= 0,
            unit > 0,
    ;
    assert(line_y < height ==> total > line_y * unit) by (nonlinear_arith)
        requires
            total == left * height,
            left >= unit,
            height >= 0,
            unit > 0,
    ;
}

/// The remaining time that a playfield height stands for is positive.
proof fn lemma_scroll_unit_is_positive(speed: int, window: int)
    requires
        speed > 0,
        window > 0,
    ensures
        scroll_unit(speed, window) > 0,
{
    assert(speed * window > 0) by (nonlinear_arith)
        requires
            speed > 0,
            window > 0,
    ;
}

/// A number within `bound` times a positive divisor has a quotient within
/// `bound`.
proof fn lemma_quotient_in_bounds(n: int, bound: int, d: int)
    requires
        d > 0,
        -(bound * d) <= n <= bound * d,
    ensures
        -bound <= n / d <= bound,
{
    vstd::arithmetic::div_mod::lemma_fundamental_div_mod(n, d);
    vstd::arithmetic::div_mod::lemma_mod_bound(n, d);
    let q = n / d;
    let r = n % d;
    assert(-bound <= q <= bound) by (nonlinear_arith)
        requires
            n == d * q + r,
            0 <= r < d,
            -(bound * d) <= n <= bound * d,
    ;
}

/// A total of `pixels` whole units and a rest lies between zero and `line`
/// units exactly when `pixels` lies between zero and `line` and, on `line`
/// itself, nothing is left over.
proof fn lemma_exact_bounds(total: int, unit: int, pixels: int, over: int, line: int)
    requires
        unit > 0,
        total == unit * pixels + over,
        0 <= over < unit,
    ensures
        0 <= total <==> 0 <= pixels,
        total <= line * unit <==> pixels < line || (pixels == line && over == 0),
{
    assert(0 <= total <==> 0 <= pixels) by (nonlinear_arith)
        requires
            unit > 0,
            total == unit * pixels + over,
            0 <= over < unit,
    ;
    assert(total <= line * unit <==> pixels < line || (pixels == line && over == 0))
        by (nonlinear_arith)
        requires
            unit > 0,
            total == unit * pixels + over,
            0 <= over < unit,
    ;
}

/// The lane of a coordinate is a valid lane.
pub proof fn lemma_lane_index_in_range(coord: int, lanes: int)
    requires
        lanes > 0,
    ensures
        0 <= lane_index(coord, lanes) < lanes,
{
    vstd::arithmetic::div_mod::lemma_mod_bound(coord * lanes / PLAYFIELD_UNITS as int, lanes);
}

/// Moving a coordinate by any whole number of playfield widths leaves its
/// lane unchanged.
pub proof fn lemma_lane_index_is_periodic(coord: int, k: int, lanes: int)
    requires
        lanes > 0,
    ensures
        lane_index(coord + PLAYFIELD_UNITS as int * k, lanes) == lane_index(coord, lanes),
{
    let units = PLAYFIELD_UNITS as int;
    let base = coord * lanes;
    assert((coord + units * k) * lanes == base + (k * lanes) * units) by (nonlinear_arith)
        requires
            base == coord * lanes,
    ;
    vstd::arithmetic::div_mod::lemma_hoist_over_denominator(base, k * lanes, units as nat);
    assert(k * lanes == lanes * k) by (nonlinear_arith);
    vstd::arithmetic::div_mod::lemma_mod_multiples_vanish(k, base / units, lanes);
}

/// The quotient of a negative number by a positive one is negative.
proof fn lemma_floor_of_negative(n: int, d: int)
    requires
        n < 0,
        d > 0,
    ensures
        n / d < 0,
{
    vstd::arithmetic::div_mod::lemma_fundamental_div_mod(n, d);
    vstd::arithmetic::div_mod::lemma_mod_bound(n, d);
    let q = n / d;
    let r = n % d;
    assert(q < 0) by (nonlinear_arith)
        requires
            n == d * q + r,
            0 <= r < d,
            n < 0,
            d > 0,
    ;
}

} // verus!
