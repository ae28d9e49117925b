//! Ownership and retention rules of the daily JSON logs.
use vstd::prelude::*;
use crate::text::{concat3, ends_with, has_prefix, has_suffix, starts_with, str_eq};

verus! {

/// File-name prefix of an owned log.
pub const LOG_PREFIX: &'static str = "wubilex.";

/// File-name suffix of an owned log.
pub const LOG_SUFFIX: &'static str = ".jsonl";

/// How many days of logs are kept.
pub const RETENTION_DAYS: i64 = 7;

/// Seconds in a day.
pub const SECONDS_PER_DAY: u64 = 86400;

/// Bounded initialization failure used for a visible runtime notice.
#[derive(Debug)]
pub struct LoggingError {
    stage: &'static str,
    message: String,
}

impl LoggingError {
    /// The stage that failed, as text.
    pub closed spec fn stage_view(&self) -> Seq<char> {
        self.stage@
    }

    /// What failed, as text.
    pub closed spec fn message_view(&self) -> Seq<char> {
        self.message@
    }

    /// The stage that failed.
    pub fn stage(&self) -> (stage: &'static str)
        ensures
            stage@ == self.stage_view(),
    {
        self.stage
    }

    /// A failure of `stage`, described by `message`.
    pub fn new(stage: &'static str, message: String) -> (error: Self)
        ensures
            error.stage_view() == stage@,
            error.message_view() == message@,
    {
        LoggingError { stage, message }
    }

    /// `logging stage {stage} failed: {message}`.
    pub fn message(&self) -> (text: String)
        ensures
            text@ == "logging stage "@ + self.stage_view() + " failed: "@ + self.message_view(),
    {
        let mut text = concat3("logging stage ", self.stage, " failed: ");
        text.append(self.message.as_str());
        text
    }
}

/// Whether an event target belongs to the application crate.
pub open spec fn application_target(target: Seq<char>) -> bool {
    target == "wubilex_app"@ || has_prefix(target, "wubilex_app::"@)
}

/// Whether an event with this target is written to the application log.
pub fn is_application_event(target: &str) -> (r: bool)
    ensures
        r == application_target(target@),
{
    str_eq(target, "wubilex_app") || starts_with(target, "wubilex_app::")
}

/// The day number since the Unix epoch of a time `seconds` after it.
pub fn unix_day(seconds: u64) -> (day: i64)
    ensures
        day == seconds / SECONDS_PER_DAY,
{
    (seconds / SECONDS_PER_DAY) as i64
}

/// How many days of logs are kept.
pub fn retention_days() -> (days: i64)
    ensures
        days == RETENTION_DAYS,
{
    RETENTION_DAYS
}

/// Whether `year` is a Gregorian leap year.
pub open spec fn leap_year(year: int) -> bool {
    year % 4 == 0 && (year % 100 != 0 || year % 400 == 0)
}

/// The number of days of `month` in `year`; 0 for a month outside 1..=12.
pub open spec fn month_length(year: int, month: int) -> int {
    if month == 1 || month == 3 || month == 5 || month == 7 || month == 8 || month == 10 || month == 12 {
        31
    } else if month == 4 || month == 6 || month == 9 || month == 11 {
        30
    } else if month == 2 {
        if leap_year(year) { 29 } else { 28 }
    } else {
        0
    }
}

/// Computes [`month_length`].
pub fn days_in_month(year: i32, month: u32) -> (days: u32)
    ensures
        days == month_length(year as int, month as int),
{
    if month == 1 || month == 3 || month == 5 || month == 7 || month == 8 || month == 10 || month == 12 {
        31
    } else if month == 4 || month == 6 || month == 9 || month == 11 {
        30
    } else if month == 2 {
        if year % 4 == 0 && (year % 100 != 0 || year % 400 == 0) { 29 } else { 28 }
    } else {
        0
    }
}

/// Days from 1970-01-01 to `year`-`month`-`day` in the proleptic Gregorian
/// calendar, counted in 400-year eras of 146,097 days from 0000-03-01.
pub open spec fn civil_days(year: int, month: int, day: int) -> int {
    let adjusted = if month <= 2 { year - 1 } else { year };
    let era = adjusted / 400;
    let year_of_era = adjusted - era * 400;
    let shifted_month = if month > 2 { month - 3 } else { month + 9 };
    let day_of_year = (153 * shifted_month + 2) / 5 + day - 1;
    let day_of_era = year_of_era * 365 + year_of_era / 4 - year_of_era / 100 + day_of_year;
    era * 146_097 + day_of_era - 719_468
}

/// Enough 400-year eras to make any adjusted `i32` year non-negative.
const ERA_SHIFT: i64 = 5_368_710;

/// Computes [`civil_days`] for a month in 1..=12 and a day in 1..=31.
pub fn days_from_civil(year: i32, month: u32, day: u32) -> (days: i64)
    requires
        1 <= month <= 12,
        1 <= day <= 31,
    ensures
        days == civil_days(year as int, month as int, day as int),
{
    let month = month as i64;
    let day = day as i64;
    let adjusted: i64 = if month <= 2 { year as i64 - 1 } else { year as i64 };
    let shifted: i64 = adjusted + ERA_SHIFT * 400;
    let era: i64 = shifted / 400 - ERA_SHIFT;
    let year_of_era: i64 = shifted % 400;
    assert(era == adjusted / 400 && year_of_era == adjusted - (adjusted / 400) * 400) by (nonlinear_arith)
        requires
            shifted == adjusted + ERA_SHIFT * 400,
            shifted >= 0,
            era == shifted / 400 - ERA_SHIFT,
            year_of_era == shifted % 400,
    ;
    let shifted_month: i64 = if month > 2 { month - 3 } else { month + 9 };
    let day_of_year: i64 = (153 * shifted_month + 2) / 5 + day - 1;
    let day_of_era: i64 = year_of_era * 365 + year_of_era / 4 - year_of_era / 100 + day_of_year;
    era * 146_097 + day_of_era - 719_468
}

/// The epoch is day 0, and consecutive dates of a month are consecutive days.
pub proof fn lemma_civil_days_count_up(year: int, month: int, day: int)
    requires
        1 <= month <= 12,
        1 <= day,
    ensures
        civil_days(1970, 1, 1) == 0,
        civil_days(year, month, day + 1) == civil_days(year, month, day) + 1,
{
}

/// The day after the last day of February is March 1st: the day counts of
/// two consecutive shifted years (March to February) differ by the length
/// of the year that holds the February.
proof fn lemma_february_to_march(year: int)
    ensures
        civil_days(year, 3, 1) == civil_days(year, 2, month_length(year, 2)) + 1,
{
    let a = year - 1;
    let e = a / 400;
    let r = a - e * 400;
    assert(0 <= r < 400);
    let ye = year / 400;
    let yr = year - ye * 400;
    if r < 399 {
        assert(ye == e && yr == r + 1);
        assert(year % 4 == (r + 1) % 4);
        assert(year % 100 == (r + 1) % 100);
        assert(year % 400 == r + 1);
        assert((r + 1) / 4 == r / 4 + (if (r + 1) % 4 == 0 { 1int } else { 0 }));
        assert((r + 1) / 100 == r / 100 + (if (r + 1) % 100 == 0 { 1int } else { 0 }));
        assert((r + 1) % 100 == 0 ==> (r + 1) % 4 == 0);
    } else {
        assert(ye == e + 1 && yr == 0);
        assert(year % 400 == 0);
    }
}

/// Consecutive calendar days have consecutive day numbers, across the end
/// of every month and of the year, 1970-01-01 being day 0: the first of a
/// month follows the last day (by the month's length in that year) of the
/// month before, and January 1st follows December 31st.
pub proof fn lemma_civil_days_across_months(year: int, month: int)
    requires
        1 <= month <= 12,
    ensures
        civil_days(1970, 1, 1) == 0,
        month < 12 ==> civil_days(year, month + 1, 1) == civil_days(year, month, month_length(year, month)) + 1,
        month == 12 ==> civil_days(year + 1, 1, 1) == civil_days(year, 12, month_length(year, 12)) + 1,
{
    if month == 2 {
        lemma_february_to_march(year);
    }
}

/// Whether `c` is an ASCII digit.
pub open spec fn digit(c: char) -> bool {
    '0' <= c <= '9'
}

/// The value of a run of ASCII digits.
pub open spec fn digits_value(s: Seq<char>) -> int
    decreases s.len(),
{
    if s.len() == 0 {
        0
    } else {
        digits_value(s.drop_last()) * 10 + (s.last() as int - '0' as int)
    }
}

/// Whether `date` has the shape `YYYY-MM-DD` in ASCII digits.
pub open spec fn date_shape(date: Seq<char>) -> bool {
    &&& date.len() == 10
    &&& forall|i: int| 0 <= i < 10 ==> if i == 4 || i == 7 { date[i] == '-' } else { digit(#[trigger] date[i]) }
}

/// The day number of an owned daily log name `wubilex.YYYY-MM-DD.jsonl`
/// naming a real date; `None` for any other name.
pub open spec fn log_day(name: Seq<char>) -> Option<int> {
    if !(has_prefix(name, LOG_PREFIX@) && has_suffix(name, LOG_SUFFIX@) && name.len() >= 14) {
        None
    } else {
        let date = name.subrange(8, name.len() - 6);
        if !date_shape(date) {
            None
        } else {
            let year = digits_value(date.subrange(0, 4));
            let month = digits_value(date.subrange(5, 7));
            let day = digits_value(date.subrange(8, 10));
            if 1 <= month <= 12 && 1 <= day <= month_length(year, month) {
                Some(civil_days(year, month, day))
            } else {
                None
            }
        }
    }
}

fn digits_at(text: &str, from: usize, to: usize) -> (value: u32)
    requires
        from <= to <= text@.len(),
        to - from <= 4,
        forall|i: int| from <= i < to ==> digit(#[trigger] text@[i]),
    ensures
        value == digits_value(text@.subrange(from as int, to as int)),
        value < 10000,
{
    let mut value: u32 = 0;
    let mut i = from;
    while i < to
        invariant
            from <= i <= to <= text@.len(),
            to - from <= 4,
            forall|j: int| from <= j < to ==> digit(#[trigger] text@[j]),
            value == digits_value(text@.subrange(from as int, i as int)),
            value < 10000,
            value <= digits_value(text@.subrange(from as int, i as int)),
            i - from <= 3 ==> value < 1000 || i - from > 3,
        decreases to - i,
    {
        let c = text.get_char(i);
        assert(text@.subrange(from as int, i + 1).drop_last() =~= text@.subrange(from as int, i as int));
        assert(digit(text@[i as int]));
        let d = (c as u32) - ('0' as u32);
        proof {
            lemma_digits_bound(text@.subrange(from as int, i as int));
        }
        value = value * 10 + d;
        i += 1;
    }
    value
}

proof fn lemma_digits_bound(s: Seq<char>)
    requires
        forall|i: int| 0 <= i < s.len() ==> digit(#[trigger] s[i]),
        s.len() <= 3,
    ensures
        0 <= digits_value(s) < 1000,
        s.len() <= 2 ==> digits_value(s) < 100,
        s.len() <= 1 ==> digits_value(s) < 10,
    decreases s.len(),
{
    if s.len() > 0 {
        lemma_digits_bound(s.drop_last());
    }
}

/// The day number of an owned log name, as [`log_day`] says.
pub fn owned_log_day(name: &str) -> (day: Option<i64>)
    ensures
        match day {
            Some(d) => log_day(name@) == Some(d as int),
            None => log_day(name@) is None,
        },
{
    proof {
        reveal_strlit("wubilex.");
        reveal_strlit(".jsonl");
    }
    let n = name.unicode_len();
    if !(starts_with(name, LOG_PREFIX) && ends_with(name, LOG_SUFFIX) && n >= 14) {
        return None;
    }
    if n != 24 {
        assert(!date_shape(name@.subrange(8, name@.len() - 6)));
        return None;
    }
    let ghost date = name@.subrange(8, 18);
    let mut i: usize = 8;
    while i < 18
        invariant
            n == name@.len() == 24,
            8 <= i <= 18,
            date == name@.subrange(8, 18),
            forall|j: int| 0 <= j < i - 8 ==> if j == 4 || j == 7 { date[j] == '-' } else { digit(#[trigger] date[j]) },
        decreases 18 - i,
    {
        let c = name.get_char(i);
        let ok = if i == 12 || i == 15 { c == '-' } else { '0' <= c && c <= '9' };
        if !ok {
            assert(!date_shape(date)) by {
                let k = i - 8;
                assert(date[k as int] == c);
            }
            return None;
        }
        i += 1;
    }
    assert(date_shape(date));
    assert forall|k: int| 8 <= k < 18 && k != 12 && k != 15 implies digit(#[trigger] name@[k]) by {
        assert(date[k - 8] == name@[k]);
    }
    let year = digits_at(name, 8, 12);
    let month = digits_at(name, 13, 15);
    let day = digits_at(name, 16, 18);
    assert(date.subrange(0, 4) =~= name@.subrange(8, 12));
    assert(date.subrange(5, 7) =~= name@.subrange(13, 15));
    assert(date.subrange(8, 10) =~= name@.subrange(16, 18));
    if !(1 <= month && month <= 12) {
        return None;
    }
    let year = year as i32;
    if !(1 <= day && day <= days_in_month(year, month)) {
        return None;
    }
    Some(days_from_civil(year, month, day))
}

/// The oldest day a kept log may have when today is `current_day`.
pub fn oldest_retained_day(current_day: i64) -> (day: i64)
    ensures
        day == if current_day - RETENTION_DAYS < i64::MIN { i64::MIN as int } else { current_day - RETENTION_DAYS },
{
    let retention = retention_days();
    if current_day < i64::MIN + retention {
        i64::MIN
    } else {
        current_day - retention
    }
}

/// Whether a file named `name` is an owned log older than the retention
/// window ending at `current_day`; only such files are pruned.
pub fn should_prune(name: &str, current_day: i64) -> (prune: bool)
    ensures
        prune == match log_day(name@) {
            Some(d) => d < (if current_day - RETENTION_DAYS < i64::MIN { i64::MIN as int } else { current_day - RETENTION_DAYS }),
            None => false,
        },
{
    let oldest = oldest_retained_day(current_day);
    match owned_log_day(name) {
        Some(day) => day < oldest,
        None => false,
    }
}

} // verus!
