//! Shifts: windows of fixed length that follow one another from a daily boundary.

use crate::timestamp::div_rem_floor;
use vstd::prelude::*;

verus! {

/// Milliseconds in a day.
pub const DAY_MS: i64 = 86_400_000;

/// The length of a shift: eight hours, in milliseconds.
pub const SHIFT_LENGTH_MS: i64 = 28_800_000;

/// The time of day at which the first shift of a day ends: 05:30, in milliseconds
/// after midnight.
pub const FIRST_BOUNDARY_MS: i64 = 19_800_000;

/// The number of the last boundary of a day that is looked at; the first has number 0.
pub const LAST_BOUNDARY: i64 = 3;

/// A shift, from `start` up to `end`, both in milliseconds on one time line.
#[derive(Clone, Copy, Debug, PartialEq, Eq, Structural)]
pub struct ShiftWindow {
    pub start: i64,
    pub end: i64,
}

/// Why the running shift could not be told.
#[derive(Clone, Copy, Debug, PartialEq, Eq, Structural)]
pub enum ShiftError {
    /// None of the boundaries that were looked at is later than the instant asked for:
    /// the shifts are not set up to cover the day.
    NoShift,
    /// The shift starts or ends outside the years that an instant can lie in.
    OutOfRange,
}

/// The `k`-th candidate for the end of the running shift.
pub open spec fn boundary(first_end: int, length: int, k: int) -> int {
    first_end + k * length
}

/// Whether `end` is the end of the shift that runs at `now`: the earliest of the
/// boundaries 0 to 3 that is later than `now`.
pub open spec fn is_running_shift_end(now: int, first_end: int, length: int, end: int) -> bool {
    &&& end > now
    &&& exists|k: int| 0 <= k <= LAST_BOUNDARY && end == #[trigger] boundary(first_end, length, k)
    &&& forall|k: int|
        0 <= k <= LAST_BOUNDARY && #[trigger] boundary(first_end, length, k) > now ==> end
            <= boundary(first_end, length, k)
}

/// Whether none of the boundaries 0 to 3 is later than `now`.
pub open spec fn no_boundary_after(now: int, first_end: int, length: int) -> bool {
    forall|k: int| 0 <= k <= LAST_BOUNDARY ==> #[trigger] boundary(first_end, length, k) <= now
}

/// Whether the four boundaries, and the start of the shift that ends at the first of
/// them, are numbers of milliseconds that the machine can hold.
pub open spec fn boundaries_fit(first_end: int, length: int) -> bool {
    &&& i64::MIN <= first_end - length <= i64::MAX
    &&& i64::MIN <= first_end + LAST_BOUNDARY * length <= i64::MAX
}

/// The shift that runs at `now`, where the first shift of the day ends at `first_end`
/// and each shift lasts `length`: it ends at the earliest of the four boundaries
/// `first_end + k * length`, `k` from 0 to 3, that is later than `now`, and starts
/// `length` before that. Where no boundary is later than `now` there is no such shift.
pub fn shift_window(now: i64, first_end: i64, length: i64) -> (r: Option<ShiftWindow>)
    requires
        boundaries_fit(first_end as int, length as int),
    ensures
        match r {
            Some(window) => is_running_shift_end(
                now as int,
                first_end as int,
                length as int,
                window.end as int,
            ) && window.start == window.end - length,
            None => no_boundary_after(now as int, first_end as int, length as int),
        },
{
    let mut best: Option<i64> = None;
    let mut k: i64 = 0;
    while k <= LAST_BOUNDARY
        invariant
            0 <= k <= LAST_BOUNDARY + 1,
            boundaries_fit(first_end as int, length as int),
            match best {
                Some(end) => {
                    &&& end > now
                    &&& exists|j: int|
                        0 <= j < k && end == #[trigger] boundary(
                            first_end as int,
                            length as int,
                            j,
                        )
                    &&& forall|j: int|
                        0 <= j < k && #[trigger] boundary(first_end as int, length as int, j) > now
                            ==> end <= boundary(first_end as int, length as int, j)
                },
                None => forall|j: int|
                    0 <= j < k ==> #[trigger] boundary(first_end as int, length as int, j) <= now,
            },
        decreases LAST_BOUNDARY + 1 - k,
    {
        assert(i64::MIN <= first_end + k * length <= i64::MAX) by (nonlinear_arith)
            requires
                0 <= k <= 3,
                i64::MIN <= first_end - length,
                i64::MIN <= first_end + 3 * length,
                first_end - length <= i64::MAX,
                first_end + 3 * length <= i64::MAX,
        ;
        assert(-0x2_0000_0000_0000_0000 <= k * length <= 0x2_0000_0000_0000_0000)
            by (nonlinear_arith)
            requires
                0 <= k <= 3,
                i64::MIN <= length <= i64::MAX,
        ;
        let wide: i128 = (first_end as i128) + (k as i128) * (length as i128);
        let candidate = wide as i64;
        assert(candidate == boundary(first_end as int, length as int, k as int));
        if candidate > now {
            best = match best {
                Some(end) if end <= candidate => Some(end),
                _ => Some(candidate),
            };
        }
        k += 1;
    }
    match best {
        Some(end) => {
            let j = Ghost(
                choose|j: int|
                    0 <= j <= 3 && end == #[trigger] boundary(first_end as int, length as int, j),
            );
            assert(i64::MIN <= end - length <= i64::MAX) by (nonlinear_arith)
                requires
                    0 <= j@ <= 3,
                    end == first_end + j@ * length,
                    i64::MIN <= first_end - length,
                    i64::MIN <= first_end + 3 * length,
                    first_end - length <= i64::MAX,
                    first_end + 3 * length <= i64::MAX,
            ;
            Some(ShiftWindow { start: end - length, end })
        },
        None => None,
    }
}

/// The start of the day of `now`: the latest multiple of a day that is not after it.
pub open spec fn day_start(now: int) -> int {
    now - now % (DAY_MS as int)
}

/// The instant of the day of `now` at which the time of day is `time_of_day`, on a time
/// line whose days start at the multiples of a day.
pub fn boundary_of_day(now: i64, time_of_day: i64) -> (r: i64)
    requires
        0 <= time_of_day < DAY_MS,
        i64::MIN + DAY_MS <= now <= i64::MAX - DAY_MS,
    ensures
        r == day_start(now as int) + time_of_day,
{
    let (_, into_day) = div_rem_floor(now, DAY_MS);
    now - into_day + time_of_day
}

/// The shift that runs at `now`, where every day the first shift ends at the time of
/// day `first_boundary` and each shift lasts `shift_length`, all on one time line
/// whose days start at the multiples of a day.
pub fn current_shift(now: i64, shift_length: i64, first_boundary: i64) -> (r: Option<ShiftWindow>)
    requires
        0 <= first_boundary < DAY_MS,
        0 < shift_length <= DAY_MS,
        i64::MIN + 2 * DAY_MS <= now <= i64::MAX - 4 * DAY_MS,
    ensures
        match r {
            Some(window) => is_running_shift_end(
                now as int,
                day_start(now as int) + first_boundary,
                shift_length as int,
                window.end as int,
            ) && window.start == window.end - shift_length,
            None => no_boundary_after(
                now as int,
                day_start(now as int) + first_boundary,
                shift_length as int,
            ),
        },
{
    let first_end = boundary_of_day(now, first_boundary);
    shift_window(now, first_end, shift_length)
}

/// Where the fourth boundary of a day is not before the end of that day, some shift
/// runs at every instant: with shifts of eight hours from 05:30 there is always one.
pub proof fn law_some_shift_runs(now: int, shift_length: int, first_boundary: int)
    requires
        first_boundary + LAST_BOUNDARY * shift_length >= DAY_MS,
    ensures
        !no_boundary_after(now, day_start(now) + first_boundary, shift_length),
{
    vstd::arithmetic::div_mod::lemma_mod_bound(now, DAY_MS as int);
    assert(boundary(day_start(now) + first_boundary, shift_length, LAST_BOUNDARY as int) > now);
}

/// The shift that was found runs at `now`: it has started, unless `now` is earlier
/// than the start of the shift that ends at the first boundary.
pub proof fn law_shift_has_started(now: int, first_end: int, length: int, end: int)
    requires
        length > 0,
        is_running_shift_end(now, first_end, length, end),
        first_end - length <= now,
    ensures
        end - length <= now < end,
{
    let k = choose|k: int|
        0 <= k <= LAST_BOUNDARY && end == #[trigger] boundary(first_end, length, k);
    if k > 0 {
        assert(boundary(first_end, length, k - 1) == end - length) by (nonlinear_arith)
            requires
                end == first_end + k * length,
                boundary(first_end, length, k - 1) == first_end + (k - 1) * length,
        ;
        if boundary(first_end, length, k - 1) > now {
            assert(end <= boundary(first_end, length, k - 1));
        }
    } else {
        assert(boundary(first_end, length, 0) == first_end);
    }
}

} // verus!
