//! The days-remaining badge: parsing a countdown's local date, counting the
//! days left (any started day counts in full), and the label text.

use vstd::prelude::*;

verus! {

/// A local wall-clock time to the minute, as written `YYYY-MM-DDTHH:MM`.
#[derive(Clone, Copy, Debug, PartialEq, Eq, Structural)]
pub struct LocalMinute {
    pub year: i32,
    pub month: u32,
    pub day: u32,
    pub hour: u32,
    pub minute: u32,
}

/// What `text` reads as under the pattern `%Y-%m-%dT%H:%M`, if it matches.
pub uninterp spec fn minute_parse(text: Seq<char>) -> Option<LocalMinute>;

/// Relies on `chrono::NaiveDateTime::parse_from_str` with the pattern
/// `%Y-%m-%dT%H:%M`: the fields of the parsed date and time, `None` on a
/// parse error. The result depends on the text alone.
#[verifier::external_body]
fn parse_minute(text: &str) -> (r: Option<LocalMinute>)
    ensures
        r == minute_parse(text@),
{
    chrono::NaiveDateTime::parse_from_str(text, "%Y-%m-%dT%H:%M").ok().map(|dt| LocalMinute {
        year: chrono::Datelike::year(&dt),
        month: chrono::Datelike::month(&dt),
        day: chrono::Datelike::day(&dt),
        hour: chrono::Timelike::hour(&dt),
        minute: chrono::Timelike::minute(&dt),
    })
}

/// Days from 1970-01-01 to the proleptic Gregorian date `y-m-d`.
pub open spec fn days_from_civil(y: int, m: int, d: int) -> int {
    let yy = if m <= 2 { y - 1 } else { y };
    let era = yy / 400;
    let yoe = yy - era * 400;
    let mp = if m > 2 { m - 3 } else { m + 9 };
    let doy = (153 * mp + 2) / 5 + d - 1;
    let doe = yoe * 365 + yoe / 4 - yoe / 100 + doy;
    era * 146097 + doe - 719468
}

/// Milliseconds since the Unix epoch of `m` read as a UTC time.
pub open spec fn utc_ms(m: LocalMinute) -> int {
    (days_from_civil(m.year as int, m.month as int, m.day as int) * 86400 + m.hour * 3600 + m.minute
        * 60) * 1000
}

/// One day in milliseconds.
pub const DAY_MS: i64 = 86_400_000;

/// Whether `t` is less than one day away from the instant `m` names in UTC:
/// a time zone's offset is always under a day.
pub open spec fn within_offset_of(t: int, m: LocalMinute) -> bool {
    utc_ms(m) - DAY_MS < t < utc_ms(m) + DAY_MS
}

/// Relies on `chrono::TimeZone::from_local_datetime` for `chrono::Local`,
/// kept only when the local time is unambiguous (`single`): the instant, in
/// milliseconds since the Unix epoch. Which instant depends on the machine's
/// time zone; chrono subtracts the zone's offset, a `FixedOffset`, which is
/// always strictly under a day.
#[verifier::external_body]
fn local_instant_ms(m: LocalMinute) -> (r: Option<i64>)
    ensures
        r matches Some(t) ==> within_offset_of(t as int, m),
{
    chrono::NaiveDate::from_ymd_opt(m.year, m.month, m.day)
        .and_then(|d| d.and_hms_opt(m.hour, m.minute, 0))
        .and_then(|dt| chrono::TimeZone::from_local_datetime(&chrono::Local, &dt).single())
        .map(|t| t.timestamp_millis())
}

/// Days in a signed duration of `diff_ms` milliseconds, rounded up: any
/// positive remainder of a day counts as one more day.
pub open spec fn ceil_days(diff_ms: int) -> int {
    if diff_ms > 0 {
        (diff_ms + (DAY_MS - 1)) / (DAY_MS as int)
    } else {
        -((-diff_ms) / (DAY_MS as int))
    }
}

/// Days from `now_ms` until `target_ms`.
pub open spec fn days_until_spec(target_ms: int, now_ms: int) -> int {
    ceil_days(target_ms - now_ms)
}

/// Days remaining for a countdown whose target instant is `target`, or 0
/// when the target could not be resolved.
pub open spec fn days_remaining_spec(target: Option<i64>, now_ms: int) -> int {
    match target {
        Some(t) => days_until_spec(t as int, now_ms),
        None => 0,
    }
}

/// Decimal digits of a natural number.
pub open spec fn digits_of(n: nat) -> Seq<char>
    decreases n,
{
    if n < 10 {
        seq![digit_char(n)]
    } else {
        digits_of(n / 10).push(digit_char(n % 10))
    }
}

pub open spec fn digit_char(d: nat) -> char {
    if d == 0 {
        '0'
    } else if d == 1 {
        '1'
    } else if d == 2 {
        '2'
    } else if d == 3 {
        '3'
    } else if d == 4 {
        '4'
    } else if d == 5 {
        '5'
    } else if d == 6 {
        '6'
    } else if d == 7 {
        '7'
    } else if d == 8 {
        '8'
    } else {
        '9'
    }
}

/// An integer in decimal, with a leading `-` when negative.
pub open spec fn decimal_text(n: int) -> Seq<char> {
    if n < 0 {
        seq!['-'] + digits_of((-n) as nat)
    } else {
        digits_of(n as nat)
    }
}

/// The badge text for `days`: the number followed by the character for "day".
pub open spec fn label_text(days: int) -> Seq<char> {
    decimal_text(days).push('\u{5929}')
}

fn digit_str(d: u64) -> (s: &'static str)
    requires
        d < 10,
    ensures
        s@ == seq![digit_char(d as nat)],
{
    if d == 0 {
        proof { reveal_strlit("0"); }
        "0"
    } else if d == 1 {
        proof { reveal_strlit("1"); }
        "1"
    } else if d == 2 {
        proof { reveal_strlit("2"); }
        "2"
    } else if d == 3 {
        proof { reveal_strlit("3"); }
        "3"
    } else if d == 4 {
        proof { reveal_strlit("4"); }
        "4"
    } else if d == 5 {
        proof { reveal_strlit("5"); }
        "5"
    } else if d == 6 {
        proof { reveal_strlit("6"); }
        "6"
    } else if d == 7 {
        proof { reveal_strlit("7"); }
        "7"
    } else if d == 8 {
        proof { reveal_strlit("8"); }
        "8"
    } else {
        proof { reveal_strlit("9"); }
        "9"
    }
}

fn append_digits(out: &mut String, n: u64)
    ensures
        final(out)@ == old(out)@ + digits_of(n as nat),
    decreases n,
{
    if n >= 10 {
        append_digits(out, n / 10);
    }
    out.append(digit_str(n % 10));
    assert(final(out)@ =~= old(out)@ + digits_of(n as nat));
}

/// The target instant of a countdown date written `YYYY-MM-DDTHH:MM` in local
/// time; `None` when the text does not parse, or when the local time does
/// not name exactly one instant. The instant lies within a day of the same
/// wall-clock time read in UTC.
pub fn target_instant_ms(date: &str) -> (r: Option<i64>)
    ensures
        minute_parse(date@) is None ==> r is None,
        r matches Some(t) ==> (minute_parse(date@) matches Some(m) && within_offset_of(t as int, m)),
{
    match parse_minute(date) {
        Some(m) => local_instant_ms(m),
        None => None,
    }
}

/// Days from `now_ms` until `target_ms`: the signed duration divided by a day
/// and rounded up.
pub fn days_until(target_ms: i64, now_ms: i64) -> (days: i64)
    ensures
        days == days_until_spec(target_ms as int, now_ms as int),
{
    let diff: i128 = target_ms as i128 - now_ms as i128;
    let day: u128 = DAY_MS as u128;
    if diff > 0 {
        let ms: u128 = diff as u128;
        assert(ms + (day - 1) <= 0x2_0000_0000_0000_0000u128);
        let days: u128 = (ms + (day - 1)) / day;
        assert(days <= 0x7fff_ffff_ffff_ffffu128);
        days as i64
    } else {
        let ms: u128 = (-diff) as u128;
        let days: u128 = ms / day;
        assert(days <= 0x7fff_ffff_ffff_ffffu128);
        -(days as i64)
    }
}

/// `ceil_days` is the ceiling of a division by one day: the count of days is
/// the least whole number of days that covers the duration.
pub proof fn lemma_ceil_days_bounds(diff_ms: int)
    ensures
        (ceil_days(diff_ms) - 1) * DAY_MS < diff_ms <= ceil_days(diff_ms) * DAY_MS,
{
    let day = DAY_MS as int;
    if diff_ms > 0 {
        let q = (diff_ms + (day - 1)) / day;
        let r = (diff_ms + (day - 1)) % day;
        assert(diff_ms + (day - 1) == day * q + r && 0 <= r < day) by {
            vstd::arithmetic::div_mod::lemma_fundamental_div_mod(diff_ms + (day - 1), day);
            vstd::arithmetic::div_mod::lemma_mod_bound(diff_ms + (day - 1), day);
        }
        assert((q - 1) * day < diff_ms <= q * day) by (nonlinear_arith)
            requires diff_ms + (day - 1) == day * q + r, 0 <= r < day;
    } else {
        let q = (-diff_ms) / day;
        let r = (-diff_ms) % day;
        assert(-diff_ms == day * q + r && 0 <= r < day) by {
            vstd::arithmetic::div_mod::lemma_fundamental_div_mod(-diff_ms, day);
            vstd::arithmetic::div_mod::lemma_mod_bound(-diff_ms, day);
        }
        assert((-q - 1) * day < diff_ms <= -q * day) by (nonlinear_arith)
            requires -diff_ms == day * q + r, 0 <= r < day;
    }
}

/// Days remaining for a resolved target instant, 0 for an unresolved one.
pub fn days_remaining(target: Option<i64>, now_ms: i64) -> (days: i64)
    ensures
        days == days_remaining_spec(target, now_ms as int),
{
    match target {
        Some(t) => days_until(t, now_ms),
        None => 0,
    }
}

/// Days remaining at `now_ms` until the local date `date`; 0 when the date
/// does not parse or names no single local instant.
pub fn calculate_days(date: &str, now_ms: i64) -> (days: i64)
    ensures
        minute_parse(date@) is None ==> days == 0,
        exists|target: Option<i64>|
            days == days_remaining_spec(target, now_ms as int) && (target matches Some(t) ==> (
            minute_parse(date@) matches Some(m) && within_offset_of(t as int, m))),
{
    let target = target_instant_ms(date);
    days_remaining(target, now_ms)
}

/// The badge label for `days`, such as `"2\u{5929}"`.
pub fn badge_label(days: i64) -> (label: String)
    ensures
        label@ == label_text(days as int),
{
    let mut label = String::new();
    let magnitude: u64 = if days < 0 {
        proof { reveal_strlit("-"); }
        label.append("-");
        (-(days as i128)) as u64
    } else {
        days as u64
    };
    append_digits(&mut label, magnitude);
    proof { reveal_strlit("\u{5929}"); }
    label.append("\u{5929}");
    assert(label@ =~= label_text(days as int));
    label
}

} // verus!
