//! Integer geometry used to restore the main window onto a work area. The
//! scaling between logical and physical pixels is done by the caller; here
//! a monitor is chosen and the window is fitted and kept visible on it.
use vstd::prelude::*;
use crate::config::model::{WindowBounds, valid_scale_bits};

verus! {

/// Smallest logical window width.
pub const MIN_LOGICAL_WIDTH: u32 = 1024;

/// Smallest logical window height.
pub const MIN_LOGICAL_HEIGHT: u32 = 640;

/// A rectangle in physical pixels.
#[derive(Clone, Copy, Debug, PartialEq, Eq, Structural)]
pub struct PhysicalRect {
    pub x: i32,
    pub y: i32,
    pub width: u32,
    pub height: u32,
}

/// A monitor's work area; the scale factor is held by its IEEE-754 bits.
#[derive(Clone, Copy, Debug, PartialEq, Eq, Structural)]
pub struct MonitorWorkArea {
    pub rect: PhysicalRect,
    pub scale_factor_bits: u64,
    pub primary: bool,
}

/// Where the window goes, on which monitor.
#[derive(Clone, Copy, Debug, PartialEq, Eq, Structural)]
pub struct RestoredPlacement {
    pub rect: PhysicalRect,
    pub monitor_index: usize,
}

/// Whether saved bounds can be restored: a supported scale factor and
/// position and size within the schema's ranges.
pub open spec fn saved_bounds_ok(b: WindowBounds) -> bool {
    &&& valid_scale_bits(b.scale_factor_bits)
    &&& -1_000_000 <= b.x <= 1_000_000
    &&& -1_000_000 <= b.y <= 1_000_000
    &&& 1 <= b.width <= 32_768
    &&& 1 <= b.height <= 32_768
}

/// Tests [`saved_bounds_ok`].
pub fn valid_saved_bounds(b: &WindowBounds) -> (ok: bool)
    ensures
        ok == saved_bounds_ok(*b),
{
    crate::config::model::scale_factor_is_valid(b.scale_factor_bits) && -1_000_000 <= b.x && b.x <= 1_000_000
        && -1_000_000 <= b.y && b.y <= 1_000_000 && 1 <= b.width && b.width <= 32_768 && 1 <= b.height
        && b.height <= 32_768
}

/// Whether a work area can hold a window: supported scale, non-empty.
pub open spec fn work_area_ok(m: MonitorWorkArea) -> bool {
    valid_scale_bits(m.scale_factor_bits) && m.rect.width > 0 && m.rect.height > 0
}

/// Tests [`work_area_ok`].
pub fn valid_work_area(m: &MonitorWorkArea) -> (ok: bool)
    ensures
        ok == work_area_ok(*m),
{
    crate::config::model::scale_factor_is_valid(m.scale_factor_bits) && m.rect.width > 0 && m.rect.height > 0
}

/// The overlap of two rectangles in square pixels, 0 when disjoint and at
/// most `i64::MAX`.
pub open spec fn overlap(a: PhysicalRect, b: PhysicalRect) -> int {
    let left = if a.x >= b.x { a.x as int } else { b.x as int };
    let top = if a.y >= b.y { a.y as int } else { b.y as int };
    let right = if a.x + a.width <= b.x + b.width { a.x + a.width } else { b.x + b.width };
    let bottom = if a.y + a.height <= b.y + b.height { a.y + a.height } else { b.y + b.height };
    let w = if right - left > 0 { right - left } else { 0 };
    let h = if bottom - top > 0 { bottom - top } else { 0 };
    if w * h > i64::MAX { i64::MAX as int } else { w * h }
}

/// Computes [`overlap`].
pub fn intersection_area(a: PhysicalRect, b: PhysicalRect) -> (area: i64)
    ensures
        area == overlap(a, b),
{
    let left: i64 = if a.x >= b.x { a.x as i64 } else { b.x as i64 };
    let top: i64 = if a.y >= b.y { a.y as i64 } else { b.y as i64 };
    let a_right: i64 = a.x as i64 + a.width as i64;
    let b_right: i64 = b.x as i64 + b.width as i64;
    let a_bottom: i64 = a.y as i64 + a.height as i64;
    let b_bottom: i64 = b.y as i64 + b.height as i64;
    let right: i64 = if a_right <= b_right { a_right } else { b_right };
    let bottom: i64 = if a_bottom <= b_bottom { a_bottom } else { b_bottom };
    let w: i64 = if right - left > 0 { right - left } else { 0 };
    let h: i64 = if bottom - top > 0 { bottom - top } else { 0 };
    if w != 0 && h > i64::MAX / w {
        assert(w * h > i64::MAX) by (nonlinear_arith)
            requires w > 0, h > i64::MAX / w;
        i64::MAX
    } else {
        assert(w * h <= i64::MAX) by (nonlinear_arith)
            requires w >= 0, h >= 0, w == 0 || h <= i64::MAX / w;
        w * h
    }
}

/// Whether a monitor with `area` and `primary` beats the best so far.
pub open spec fn beats(area: int, primary: bool, best_area: int, best_primary: bool) -> bool {
    area > best_area || (area == best_area && primary && !best_primary)
}

/// The best valid monitor among the first `n`: largest overlap, a primary
/// monitor winning a tie, the earliest index winning otherwise.
pub open spec fn best_monitor(saved: PhysicalRect, ws: Seq<MonitorWorkArea>, n: int) -> Option<(int, int, bool)>
    decreases n,
{
    if n <= 0 {
        None
    } else {
        let before = best_monitor(saved, ws, n - 1);
        let m = ws[n - 1];
        if !work_area_ok(m) {
            before
        } else {
            let area = overlap(saved, m.rect);
            match before {
                None => Some((n - 1, area, m.primary)),
                Some((i, a, p)) => if beats(area, m.primary, a, p) { Some((n - 1, area, m.primary)) } else { before },
            }
        }
    }
}

/// The first valid monitor among the first `n` that `primary_only` allows.
pub open spec fn first_valid(ws: Seq<MonitorWorkArea>, n: int, primary_only: bool) -> Option<int>
    decreases n,
{
    if n <= 0 {
        None
    } else {
        match first_valid(ws, n - 1, primary_only) {
            Some(i) => Some(i),
            None => if work_area_ok(ws[n - 1]) && (ws[n - 1].primary || !primary_only) { Some(n - 1) } else { None },
        }
    }
}

/// The monitor to restore onto and whether the saved rectangle overlaps it:
/// the best overlapping monitor, else the first valid primary, else the
/// first valid one; none when no work area is valid.
pub open spec fn monitor_choice(saved: PhysicalRect, ws: Seq<MonitorWorkArea>) -> Option<(int, bool)> {
    match best_monitor(saved, ws, ws.len() as int) {
        None => None,
        Some((i, area, _)) => if area > 0 {
            Some((i, true))
        } else {
            match first_valid(ws, ws.len() as int, true) {
                Some(j) => Some((j, false)),
                None => match first_valid(ws, ws.len() as int, false) {
                    Some(j) => Some((j, false)),
                    None => None,
                },
            }
        },
    }
}

proof fn lemma_best_in_range(saved: PhysicalRect, ws: Seq<MonitorWorkArea>, n: int)
    requires
        0 <= n <= ws.len(),
    ensures
        best_monitor(saved, ws, n) matches Some((i, a, p)) ==> 0 <= i < n && work_area_ok(ws[i]) && a == overlap(saved, ws[i].rect) && p == ws[i].primary,
        best_monitor(saved, ws, n) is None <==> first_valid(ws, n, false) is None,
    decreases n,
{
    if n > 0 {
        lemma_best_in_range(saved, ws, n - 1);
    }
}

proof fn lemma_first_in_range(ws: Seq<MonitorWorkArea>, n: int, primary_only: bool)
    requires
        0 <= n <= ws.len(),
    ensures
        first_valid(ws, n, primary_only) matches Some(i) ==> 0 <= i < n && work_area_ok(ws[i]),
    decreases n,
{
    if n > 0 {
        lemma_first_in_range(ws, n - 1, primary_only);
    }
}

fn first_valid_index(work_areas: &Vec<MonitorWorkArea>, primary_only: bool) -> (found: Option<usize>)
    ensures
        match found {
            Some(i) => first_valid(work_areas@, work_areas@.len() as int, primary_only) == Some(i as int),
            None => first_valid(work_areas@, work_areas@.len() as int, primary_only) is None,
        },
{
    let n = work_areas.len();
    let mut i: usize = 0;
    while i < n
        invariant
            n == work_areas@.len(),
            i <= n,
            first_valid(work_areas@, i as int, primary_only) is None,
        decreases n - i,
    {
        let m = &work_areas[i];
        if valid_work_area(m) && (m.primary || !primary_only) {
            proof { lemma_first_stays(work_areas@, i as int + 1, n as int, primary_only); }
            return Some(i);
        }
        i += 1;
    }
    None
}

proof fn lemma_first_stays(ws: Seq<MonitorWorkArea>, k: int, n: int, primary_only: bool)
    requires
        1 <= k <= n,
        first_valid(ws, k, primary_only) is Some,
    ensures
        first_valid(ws, n, primary_only) == first_valid(ws, k, primary_only),
    decreases n - k,
{
    if k < n {
        lemma_first_stays(ws, k, n - 1, primary_only);
    }
}

/// Picks the monitor to restore onto, as [`monitor_choice`] says.
pub fn select_monitor(saved: PhysicalRect, work_areas: &Vec<MonitorWorkArea>) -> (choice: Option<(usize, bool)>)
    ensures
        match choice {
            Some((i, intersects)) => monitor_choice(saved, work_areas@) == Some((i as int, intersects))
                && i < work_areas@.len() && work_area_ok(work_areas@[i as int]),
            None => monitor_choice(saved, work_areas@) is None,
        },
{
    let n = work_areas.len();
    let mut best: Option<(usize, i64, bool)> = None;
    let mut i: usize = 0;
    while i < n
        invariant
            n == work_areas@.len(),
            i <= n,
            match best {
                None => best_monitor(saved, work_areas@, i as int) is None,
                Some((b, a, p)) => best_monitor(saved, work_areas@, i as int) == Some((b as int, a as int, p)),
            },
        decreases n - i,
    {
        let m = &work_areas[i];
        if valid_work_area(m) {
            let area = intersection_area(saved, m.rect);
            let replace = match best {
                None => true,
                Some((_, best_area, best_primary)) => area > best_area || (area == best_area && m.primary && !best_primary),
            };
            if replace {
                best = Some((i, area, m.primary));
            }
        }
        i += 1;
    }
    proof {
        lemma_best_in_range(saved, work_areas@, n as int);
        lemma_first_in_range(work_areas@, n as int, true);
        lemma_first_in_range(work_areas@, n as int, false);
    }
    match best {
        None => None,
        Some((index, area, _)) => {
            if area > 0 {
                Some((index, true))
            } else {
                match first_valid_index(work_areas, true) {
                    Some(j) => Some((j, false)),
                    None => match first_valid_index(work_areas, false) {
                        Some(j) => Some((j, false)),
                        None => None,
                    },
                }
            }
        },
    }
}

/// The size to use: `desired` kept within `minimum..=available`, or
/// `minimum` when even that does not fit.
pub open spec fn fitted(desired: u32, minimum: u32, available: u32) -> u32 {
    if available >= minimum {
        if desired < minimum { minimum } else if desired > available { available } else { desired }
    } else {
        minimum
    }
}

/// A fitted size is the desired size clamped into `minimum..=available`:
/// it lies in that range (when the range is not empty), it is the desired
/// size whenever that already fits, and otherwise the bound nearest to it;
/// fitting again changes nothing, and a larger desired size never fits
/// smaller. With less room than the minimum, the minimum is kept.
pub proof fn lemma_fitted_clamps(desired: u32, other: u32, minimum: u32, available: u32)
    ensures
        minimum <= available ==> minimum <= fitted(desired, minimum, available) <= available,
        minimum <= desired <= available ==> fitted(desired, minimum, available) == desired,
        minimum <= available && desired < minimum ==> fitted(desired, minimum, available) == minimum,
        minimum <= available && available < desired ==> fitted(desired, minimum, available) == available,
        available < minimum ==> fitted(desired, minimum, available) == minimum,
        fitted(fitted(desired, minimum, available), minimum, available) == fitted(desired, minimum, available),
        desired <= other ==> fitted(desired, minimum, available) <= fitted(other, minimum, available),
{
}

/// Computes [`fitted`].
pub fn fit_dimension(desired: u32, minimum: u32, available: u32) -> (size: u32)
    ensures
        size == fitted(desired, minimum, available),
{
    if available >= minimum {
        if desired < minimum {
            minimum
        } else if desired > available {
            available
        } else {
            desired
        }
    } else {
        minimum
    }
}

/// The nearest `i32` to `value`.
pub open spec fn saturated_i32(value: int) -> i32 {
    if value < i32::MIN { i32::MIN } else if value > i32::MAX { i32::MAX } else { value as i32 }
}

/// Converts to `i32`, saturating at its bounds.
pub fn saturating_i32(value: i64) -> (result: i32)
    ensures
        result == saturated_i32(value as int),
{
    if value < i32::MIN as i64 {
        i32::MIN
    } else if value > i32::MAX as i64 {
        i32::MAX
    } else {
        value as i32
    }
}

/// The position on one axis: `position` kept inside the work area, or the
/// work area's origin when the window is larger than it.
pub open spec fn clamped_axis(position: int, origin: i32, available: u32, size: u32) -> i32 {
    if size > available {
        origin
    } else {
        let low = origin as int;
        let high = origin + available - size;
        saturated_i32(if position < low { low } else if position > high { high } else { position })
    }
}

/// Computes [`clamped_axis`]; a window no larger than the work area stays
/// entirely inside it.
pub fn clamp_axis(position: i64, origin: i32, available: u32, size: u32) -> (placed: i32)
    ensures
        placed == clamped_axis(position as int, origin, available, size),
        size <= available ==> origin <= placed && placed + size <= origin + available,
{
    if size > available {
        return origin;
    }
    let minimum: i64 = origin as i64;
    let maximum: i64 = minimum + available as i64 - size as i64;
    let clamped: i64 = if position < minimum { minimum } else if position > maximum { maximum } else { position };
    saturating_i32(clamped)
}

/// The position on one axis that centres the window in the work area, or
/// the origin when the window is larger than it.
pub open spec fn centred_axis(origin: i32, available: u32, size: u32) -> i32 {
    if size > available { origin } else { saturated_i32(origin + (available - size) / 2) }
}

/// Computes [`centred_axis`]; a window no larger than the work area stays
/// entirely inside it.
pub fn center_axis(origin: i32, available: u32, size: u32) -> (placed: i32)
    ensures
        placed == centred_axis(origin, available, size),
        size <= available ==> origin <= placed && placed + size <= origin + available,
{
    if size > available {
        return origin;
    }
    let offset: i64 = ((available - size) / 2) as i64;
    saturating_i32(origin as i64 + offset)
}

/// Places a window of `width` x `height` on `target`: where the saved
/// rectangle overlapped the target its position is kept inside it,
/// otherwise the window is centred.
pub fn place_on_work_area(saved: PhysicalRect, target: PhysicalRect, intersects: bool, width: u32, height: u32) -> (rect: PhysicalRect)
    ensures
        rect.width == width,
        rect.height == height,
        intersects ==> rect.x == clamped_axis(saved.x as int, target.x, target.width, width)
            && rect.y == clamped_axis(saved.y as int, target.y, target.height, height),
        !intersects ==> rect.x == centred_axis(target.x, target.width, width)
            && rect.y == centred_axis(target.y, target.height, height),
        width <= target.width ==> target.x <= rect.x && rect.x + width <= target.x + target.width,
        height <= target.height ==> target.y <= rect.y && rect.y + height <= target.y + target.height,
{
    let (x, y) = if intersects {
        (
            clamp_axis(saved.x as i64, target.x, target.width, width),
            clamp_axis(saved.y as i64, target.y, target.height, height),
        )
    } else {
        (center_axis(target.x, target.width, width), center_axis(target.y, target.height, height))
    };
    PhysicalRect { x, y, width, height }
}

} // verus!
