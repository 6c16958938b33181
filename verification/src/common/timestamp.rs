use vstd::prelude::*;
use vstd::string::StringExecFns;
use vstd::string::StringSliceAdditionalSpecFns;

use crate::error::TimeStampFormatErrors;

verus! {

pub const HOUR_IN_SECS: u64 = 3600;

pub const DAY_IN_SECS: u64 = 86400;

/// Seconds in a year of 365 days.
pub const NON_LEAP_YEAR: u64 = 31536000;

/// Seconds in a four-year block holding one leap day: 1,461 days.
pub const LEAP_YEAR_BLOCK: u64 = 126230400;

/// The sign of a display offset.
#[derive(Debug, Clone, Copy, PartialEq, Eq, Structural)]
pub enum OffsetSymbol {
    Minus,
    Plus,
}

/// A display offset from UTC. The offset affects only text formatting
/// and decode normalization, never the stored instant. The value
/// `-00:00` (minus, zero, zero) doubles as the "unknown local offset"
/// sentinel; the two are textually and structurally identical.
#[derive(Debug, Clone, Copy, PartialEq, Eq, Structural)]
pub struct TimeZoneOffset {
    pub hours: u8,
    pub minutes: u8,
    pub symbol: OffsetSymbol,
}

/// The `Z` offset: UTC itself.
pub open spec fn spec_tz_z() -> TimeZoneOffset {
    TimeZoneOffset { hours: 0, minutes: 0, symbol: OffsetSymbol::Plus }
}

/// The unknown-offset sentinel, textually `-00:00`.
pub open spec fn spec_tz_unknown() -> TimeZoneOffset {
    TimeZoneOffset { hours: 0, minutes: 0, symbol: OffsetSymbol::Minus }
}

impl TimeZoneOffset {
    pub fn new() -> (r: Self)
        ensures
            r == spec_tz_z(),
    {
        Self { hours: 0, minutes: 0, symbol: OffsetSymbol::Plus }
    }

    pub fn set_hours(&mut self, hours: u8)
        ensures
            *final(self) == (TimeZoneOffset { hours, ..*old(self) }),
    {
        self.hours = hours;
    }

    pub fn set_minutes(&mut self, minutes: u8)
        ensures
            *final(self) == (TimeZoneOffset { minutes, ..*old(self) }),
    {
        self.minutes = minutes;
    }

    pub fn set_symbol(&mut self, symbol: OffsetSymbol)
        ensures
            *final(self) == (TimeZoneOffset { symbol, ..*old(self) }),
    {
        self.symbol = symbol;
    }
}

impl Default for TimeZoneOffset {
    fn default() -> (r: Self)
        ensures
            r == spec_tz_z(),
    {
        Self { hours: 0, minutes: 0, symbol: OffsetSymbol::Plus }
    }
}

/// An instant as seconds since the Unix epoch, with a display offset.
#[derive(Debug, Clone, Copy, PartialEq, Eq, Structural)]
pub struct TimeStamp {
    pub unix_time: u64,
    pub time_zone: TimeZoneOffset,
}

/// A broken-down date and time, produced by the calendar walk.
#[derive(Debug, Clone, Copy, PartialEq, Eq, Structural)]
pub struct DateTime {
    pub year: u64,
    pub day: u64,
    pub month: u64,
    pub hour: u64,
    pub seconds: u64,
    pub minute: u64,
}

/// The leap rule: divisible by 4 and (not divisible by 100 or divisible
/// by 400).
pub open spec fn spec_is_leap_year(y: int) -> bool {
    y % 4 == 0 && (y % 100 != 0 || y % 400 == 0)
}

/// Days of month `m` (1-based), with February leap-aware.
pub open spec fn spec_month_len(m: int, leap: bool) -> int {
    if m == 1 {
        31
    } else if m == 2 {
        if leap {
            29
        } else {
            28
        }
    } else if m == 3 {
        31
    } else if m == 4 {
        30
    } else if m == 5 {
        31
    } else if m == 6 {
        30
    } else if m == 7 {
        31
    } else if m == 8 {
        31
    } else if m == 9 {
        30
    } else if m == 10 {
        31
    } else if m == 11 {
        30
    } else {
        31
    }
}

/// Days in the months strictly before month `m`.
pub open spec fn spec_days_before_month(m: int, leap: bool) -> int
    decreases m,
{
    if m <= 1 {
        0
    } else {
        spec_days_before_month(m - 1, leap) + spec_month_len(m - 1, leap)
    }
}

/// The month walk: starting at month `m` with `rem` seconds left in the
/// year, subtract whole months while possible. Returns the month
/// reached and the seconds left inside it.
pub open spec fn spec_month_walk(rem: int, m: int, leap: bool) -> (int, int)
    decreases 13 - m,
{
    if m >= 13 {
        (m, rem)
    } else if rem >= spec_month_len(m, leap) * 86400 {
        spec_month_walk(rem - spec_month_len(m, leap) * 86400, m + 1, leap)
    } else {
        (m, rem)
    }
}

/// The display-local second count of a timestamp: the instant moved by
/// the offset, towards it for a plus offset, away for a minus one,
/// saturating at the ends of the unsigned range.
pub open spec fn spec_local_secs(ts: TimeStamp) -> u64 {
    let off = (ts.time_zone.hours as u64) * 3600 + (ts.time_zone.minutes as u64) * 60;
    match ts.time_zone.symbol {
        OffsetSymbol::Minus => if ts.unix_time < off {
            0u64
        } else {
            (ts.unix_time - off) as u64
        },
        OffsetSymbol::Plus => if ts.unix_time + off > u64::MAX {
            u64::MAX
        } else {
            (ts.unix_time + off) as u64
        },
    }
}

/// The calendar walk: local seconds into a broken-down date and time,
/// by whole four-year leap blocks, then whole non-leap years, then the
/// month table, then days, hours and minutes.
pub open spec fn spec_datetime_of(n: u64) -> DateTime {
    let blocks = (n as int) / (LEAP_YEAR_BLOCK as int);
    let rem = (n as int) % (LEAP_YEAR_BLOCK as int);
    let ty = rem / (NON_LEAP_YEAR as int);
    let rem2 = rem % (NON_LEAP_YEAR as int);
    let year = 1970 + blocks * 4 + ty;
    let leap = spec_is_leap_year(year);
    let walk = spec_month_walk(rem2, 1, leap);
    let month = walk.0;
    let rem3 = walk.1;
    let day = rem3 / 86400 + 1;
    let rem4 = rem3 % 86400;
    let hour = rem4 / 3600;
    let rem5 = rem4 % 3600;
    let minute = rem5 / 60;
    let seconds = rem5 % 60;
    DateTime {
        year: year as u64,
        month: month as u64,
        day: day as u64,
        hour: hour as u64,
        minute: minute as u64,
        seconds: seconds as u64,
    }
}

impl Default for TimeStamp {
    fn default() -> (r: Self)
        ensures
            r.unix_time == 0,
            r.time_zone == spec_tz_z(),
    {
        Self { unix_time: 0, time_zone: TimeZoneOffset::new() }
    }
}

impl TimeStamp {
    /// An instant with the `Z` display offset.
    pub fn new(unix_epoch: u64) -> (r: Self)
        ensures
            r.unix_time == unix_epoch,
            r.time_zone == spec_tz_z(),
    {
        Self { unix_time: unix_epoch, time_zone: TimeZoneOffset::new() }
    }

    pub fn set_tz(&mut self, time_zone: TimeZoneOffset)
        ensures
            final(self).unix_time == old(self).unix_time,
            final(self).time_zone == time_zone,
    {
        self.time_zone = time_zone;
    }

    /// Breaks the display-local instant down into a calendar date and
    /// clock time.
    #[verifier::loop_isolation(false)]
    pub fn as_datetime(&self) -> (r: DateTime)
        ensures
            r == spec_datetime_of(spec_local_secs(*self)),
    {
        let tz_offset: u64 = (self.time_zone.hours as u64) * 3600 + (self.time_zone.minutes
            as u64) * 60;
        let duration_secs: u64 = match self.time_zone.symbol {
            OffsetSymbol::Minus => self.unix_time.saturating_sub(tz_offset),
            OffsetSymbol::Plus => self.unix_time.saturating_add(tz_offset),
        };
        let blocks: u64 = duration_secs / LEAP_YEAR_BLOCK;
        let rem: u64 = duration_secs % LEAP_YEAR_BLOCK;
        let trailing_years: u64 = rem / NON_LEAP_YEAR;
        let mut remainder: u64 = rem % NON_LEAP_YEAR;
        let year: u64 = 1970 + blocks * 4 + trailing_years;
        let leap = is_leap_year(year);
        let ghost rem2 = remainder as int;
        let mut month: u64 = 1;
        while month <= 12 && remainder >= month_len(month, leap) * 86400
            invariant
                1 <= month <= 13,
                spec_month_walk(rem2, 1, spec_is_leap_year(year as int)) == spec_month_walk(
                    remainder as int,
                    month as int,
                    spec_is_leap_year(year as int),
                ),
                remainder <= rem2,
            decreases 13 - month,
        {
            remainder = remainder - month_len(month, leap) * 86400;
            month = month + 1;
        }
        proof {
            if month <= 12 {
                assert(spec_month_walk(remainder as int, month as int, spec_is_leap_year(
                    year as int,
                )) == (month as int, remainder as int));
            } else {
                assert(spec_month_walk(remainder as int, month as int, spec_is_leap_year(
                    year as int,
                )) == (month as int, remainder as int));
            }
        }
        let day: u64 = remainder / DAY_IN_SECS + 1;
        let rem4: u64 = remainder % DAY_IN_SECS;
        let hour: u64 = rem4 / HOUR_IN_SECS;
        let rem5: u64 = rem4 % HOUR_IN_SECS;
        let minute: u64 = rem5 / 60;
        let seconds: u64 = rem5 % 60;
        DateTime { year, month, day, hour, minute, seconds }
    }
}

/// The leap test, executable form.
pub fn is_leap_year(y: u64) -> (r: bool)
    ensures
        r == spec_is_leap_year(y as int),
{
    y % 4 == 0 && (y % 100 != 0 || y % 400 == 0)
}

/// One month's length, executable form.
pub fn month_len(m: u64, leap: bool) -> (r: u64)
    requires
        1 <= m <= 12,
    ensures
        r == spec_month_len(m as int, leap),
{
    if m == 1 {
        31
    } else if m == 2 {
        if leap {
            29
        } else {
            28
        }
    } else if m == 3 {
        31
    } else if m == 4 {
        30
    } else if m == 5 {
        31
    } else if m == 6 {
        30
    } else if m == 7 {
        31
    } else if m == 8 {
        31
    } else if m == 9 {
        30
    } else if m == 10 {
        31
    } else if m == 11 {
        30
    } else {
        31
    }
}


/// The character of one decimal digit.
pub open spec fn digit_char(d: int) -> char {
    ((48 + d) as u8) as char
}

/// The decimal digits of a number, most significant first.
pub open spec fn spec_u64_dec(n: int) -> Seq<char>
    decreases n,
{
    if n < 10 {
        seq![digit_char(n)]
    } else {
        spec_u64_dec(n / 10).push(digit_char(n % 10))
    }
}

/// A number in at least two digits, zero-padded.
pub open spec fn spec_dec2(n: int) -> Seq<char> {
    if n < 10 {
        seq!['0', digit_char(n)]
    } else {
        spec_u64_dec(n)
    }
}

/// A number in at least four digits, zero-padded.
pub open spec fn spec_dec4(n: int) -> Seq<char> {
    if n < 10 {
        seq!['0', '0', '0', digit_char(n)]
    } else if n < 100 {
        seq!['0', '0'] + spec_u64_dec(n)
    } else if n < 1000 {
        seq!['0'] + spec_u64_dec(n)
    } else {
        spec_u64_dec(n)
    }
}

pub open spec fn spec_sign_char(s: OffsetSymbol) -> char {
    match s {
        OffsetSymbol::Minus => '-',
        OffsetSymbol::Plus => '+',
    }
}

/// The text of a display offset: `Z` for UTC itself, else `±HH:MM`.
/// The unknown-offset sentinel renders as `-00:00`.
pub open spec fn spec_tz_chars(tz: TimeZoneOffset) -> Seq<char> {
    if tz == spec_tz_z() {
        seq!['Z']
    } else {
        seq![spec_sign_char(tz.symbol)] + spec_dec2(tz.hours as int) + seq![':'] + spec_dec2(
            tz.minutes as int,
        )
    }
}

/// The full fixed-grammar text of a timestamp:
/// `YYYY-MM-DDTHH:MM:SS` and the offset.
pub open spec fn spec_format_chars(ts: TimeStamp) -> Seq<char> {
    let dt = spec_datetime_of(spec_local_secs(ts));
    spec_dec4(dt.year as int) + seq!['-'] + spec_dec2(dt.month as int) + seq!['-'] + spec_dec2(
        dt.day as int,
    ) + seq!['T'] + spec_dec2(dt.hour as int) + seq![':'] + spec_dec2(dt.minute as int)
        + seq![':'] + spec_dec2(dt.seconds as int) + spec_tz_chars(ts.time_zone)
}

/// The year has at most 365 or 366 days' worth of seconds left after
/// the year split, so the month walk stays inside the table.
pub proof fn lemma_walk_bounds(rem: int, m: int, leap: bool)
    requires
        1 <= m <= 12,
        0 <= rem,
        rem < (spec_days_before_month(13, leap) - spec_days_before_month(m, leap)) * 86400,
    ensures
        m <= spec_month_walk(rem, m, leap).0 <= 12,
        0 <= spec_month_walk(rem, m, leap).1,
        spec_month_walk(rem, m, leap).1 < spec_month_len(spec_month_walk(rem, m, leap).0, leap)
            * 86400,
    decreases 13 - m,
{
    if rem >= spec_month_len(m, leap) * 86400 {
        if m == 12 {
            assert(spec_days_before_month(13, leap) == spec_days_before_month(12, leap)
                + spec_month_len(12, leap));
            assert(false);
        } else {
            assert(spec_days_before_month(m + 1, leap) == spec_days_before_month(m, leap)
                + spec_month_len(m, leap));
            lemma_walk_bounds(rem - spec_month_len(m, leap) * 86400, m + 1, leap);
        }
    }
}

/// The fields a calendar walk can produce: a month of the table, a day
/// inside it, a clock time.
pub proof fn lemma_datetime_bounds(n: u64)
    ensures
        1 <= spec_datetime_of(n).month <= 12,
        1 <= spec_datetime_of(n).day <= 31,
        spec_datetime_of(n).day <= spec_month_len(
            spec_datetime_of(n).month as int,
            spec_is_leap_year(spec_datetime_of(n).year as int),
        ),
        spec_datetime_of(n).hour < 24,
        spec_datetime_of(n).minute < 60,
        spec_datetime_of(n).seconds < 60,
        spec_datetime_of(n).year >= 1970,
{
    let rem2 = ((n as int) % (LEAP_YEAR_BLOCK as int)) % (NON_LEAP_YEAR as int);
    let year = spec_datetime_of(n).year as int;
    let leap = spec_is_leap_year(year);
    assert(spec_days_before_month(13, false) == 365) by {
        reveal_with_fuel(spec_days_before_month, 14);
    }
    assert(spec_days_before_month(13, true) == 366) by {
        reveal_with_fuel(spec_days_before_month, 14);
    }
    assert(spec_days_before_month(1, leap) == 0);
    lemma_walk_bounds(rem2, 1, leap);
    let walk = spec_month_walk(rem2, 1, leap);
    assert(walk.1 / 86400 < spec_month_len(walk.0, leap)) by {
        assert(walk.1 < spec_month_len(walk.0, leap) * 86400);
    }
}

/// The text of one digit.
fn digit_str(d: u64) -> (r: &'static str)
    requires
        d < 10,
    ensures
        r@ == seq![digit_char(d as int)],
{
    let r: &'static str = if d == 0 {
        "0"
    } else if d == 1 {
        "1"
    } else if d == 2 {
        "2"
    } else if d == 3 {
        "3"
    } else if d == 4 {
        "4"
    } else if d == 5 {
        "5"
    } else if d == 6 {
        "6"
    } else if d == 7 {
        "7"
    } else if d == 8 {
        "8"
    } else {
        "9"
    };
    proof {
        reveal_strlit("0");
        reveal_strlit("1");
        reveal_strlit("2");
        reveal_strlit("3");
        reveal_strlit("4");
        reveal_strlit("5");
        reveal_strlit("6");
        reveal_strlit("7");
        reveal_strlit("8");
        reveal_strlit("9");
        assert(r@ =~= seq![digit_char(d as int)]);
    }
    r
}

/// Appends the decimal digits of `n`.
pub fn push_dec(out: &mut String, n: u64)
    ensures
        final(out)@ == old(out)@ + spec_u64_dec(n as int),
    decreases n,
{
    if n < 10 {
        out.append(digit_str(n));
    } else {
        push_dec(out, n / 10);
        out.append(digit_str(n % 10));
        proof {
            assert(old(out)@ + spec_u64_dec((n / 10) as int) + seq![digit_char((n % 10) as int)]
                =~= old(out)@ + spec_u64_dec(n as int));
        }
    }
}

/// Appends `n` zero-padded to at least two digits.
fn push_dec2(out: &mut String, n: u64)
    ensures
        final(out)@ == old(out)@ + spec_dec2(n as int),
{
    if n < 10 {
        out.append(digit_str(0));
        out.append(digit_str(n));
        proof {
            assert(old(out)@ + seq![digit_char(0)] + seq![digit_char(n as int)] =~= old(out)@
                + spec_dec2(n as int));
        }
    } else {
        push_dec(out, n);
    }
}

/// Appends `n` zero-padded to at least four digits.
fn push_dec4(out: &mut String, n: u64)
    ensures
        final(out)@ == old(out)@ + spec_dec4(n as int),
{
    if n < 10 {
        out.append(digit_str(0));
        out.append(digit_str(0));
        out.append(digit_str(0));
        out.append(digit_str(n));
        proof {
            assert(old(out)@ + seq![digit_char(0)] + seq![digit_char(0)] + seq![digit_char(0)]
                + seq![digit_char(n as int)] =~= old(out)@ + spec_dec4(n as int));
        }
    } else if n < 100 {
        out.append(digit_str(0));
        out.append(digit_str(0));
        push_dec(out, n);
        proof {
            assert(old(out)@ + seq![digit_char(0)] + seq![digit_char(0)] + spec_u64_dec(n as int)
                =~= old(out)@ + spec_dec4(n as int));
        }
    } else if n < 1000 {
        out.append(digit_str(0));
        push_dec(out, n);
        proof {
            assert(old(out)@ + seq![digit_char(0)] + spec_u64_dec(n as int) =~= old(out)@
                + spec_dec4(n as int));
        }
    } else {
        push_dec(out, n);
    }
}

impl TimeStamp {
    /// Renders the timestamp in its fixed text grammar,
    /// `YYYY-MM-DDTHH:MM:SS` plus `Z` or `±HH:MM`.
    pub fn to_string(&self) -> (r: String)
        ensures
            r@ == spec_format_chars(*self),
    {
        proof {
            lemma_datetime_bounds(spec_local_secs(*self));
            reveal_strlit("-");
            reveal_strlit("T");
            reveal_strlit(":");
            reveal_strlit("Z");
            reveal_strlit("+");
        }
        let dt = self.as_datetime();
        let mut out = String::new();
        push_dec4(&mut out, dt.year);
        out.append("-");
        push_dec2(&mut out, dt.month);
        out.append("-");
        push_dec2(&mut out, dt.day);
        out.append("T");
        push_dec2(&mut out, dt.hour);
        out.append(":");
        push_dec2(&mut out, dt.minute);
        out.append(":");
        push_dec2(&mut out, dt.seconds);
        let tz = self.time_zone;
        if tz.hours == 0 && tz.minutes == 0 && tz.symbol == OffsetSymbol::Plus {
            out.append("Z");
            proof {
                assert("Z"@ =~= seq!['Z']);
            }
        } else {
            match tz.symbol {
                OffsetSymbol::Minus => out.append("-"),
                OffsetSymbol::Plus => out.append("+"),
            }
            push_dec2(&mut out, tz.hours as u64);
            out.append(":");
            push_dec2(&mut out, tz.minutes as u64);
            proof {
                assert("-"@ =~= seq!['-']);
                assert("+"@ =~= seq!['+']);
                assert(":"@ =~= seq![':']);
            }
        }
        proof {
            assert("-"@ =~= seq!['-']);
            assert("T"@ =~= seq!['T']);
            assert(":"@ =~= seq![':']);
            assert(out@ =~= spec_format_chars(*self));
        }
        out
    }
}


/// An ASCII digit byte strips to a value below ten.
pub proof fn lemma_digit_xor()
    ensures
        forall|b: u8| 48 <= b <= 57 ==> (b ^ 48) < 10,
{
    assert(forall|b: u8| 48 <= b <= 57 ==> (b ^ 48) < 10) by (bit_vector);
}

/// A year holds at most 366 days.
pub proof fn lemma_days_before_bound(m: int, leap: bool)
    requires
        1 <= m <= 13,
    ensures
        0 <= spec_days_before_month(m, leap) <= 366,
    decreases m,
{
    if m > 1 {
        lemma_days_before_bound(m - 1, leap);
        assert(spec_days_before_month(m, leap) <= 366) by {
            reveal_with_fuel(spec_days_before_month, 14);
        }
    }
}

/// The value of a text digit: the byte with the ASCII zero bias
/// removed. Bytes outside `0`..`9` yield values of ten or more and are
/// caught by the range checks downstream.
pub open spec fn spec_dig(b: u8) -> int {
    (b ^ 0x30) as int
}

pub open spec fn spec_is_digit(b: u8) -> bool {
    48 <= b <= 57
}

/// The instant a decoded date, clock time and offset stand for: the
/// date walked back through the month table and year blocks, then the
/// offset applied towards UTC, saturating at zero.
pub open spec fn spec_recompose(
    year: int,
    month: int,
    day: int,
    hour: int,
    minute: int,
    second: int,
    tz: TimeZoneOffset,
) -> u64 {
    let leap = spec_is_leap_year(year);
    let durat = second + minute * 60 + hour * 3600 + (day - 1) * 86400 + spec_days_before_month(
        month,
        leap,
    ) * 86400 + ((year - 1970) / 4) * (LEAP_YEAR_BLOCK as int) + ((year - 1970) % 4) * (
    NON_LEAP_YEAR as int);
    let off = tz.hours * 3600 + tz.minutes * 60;
    match tz.symbol {
        OffsetSymbol::Minus => (durat + off) as u64,
        OffsetSymbol::Plus => if durat < off {
            0u64
        } else {
            (durat - off) as u64
        },
    }
}

/// What decoding a byte buffer yields: the punctuation layout is
/// checked with the fixed positions of the grammar, the digit fields
/// are read by removing the ASCII bias, the ranges are checked
/// (rejecting year < 1970, month outside 1..12, a day off the
/// leap-aware table, hour > 23, minute or second > 59), and the
/// trailing offset must be exactly `Z` or `±HH:MM` in digits.
pub open spec fn spec_parse(b: Seq<u8>) -> Result<TimeStamp, TimeStampFormatErrors> {
    if b.len() < 20 || b.len() > 27 {
        Err(TimeStampFormatErrors::InvalidFormat)
    } else if b[10] != 84 {
        Err(TimeStampFormatErrors::InvalidFormat)
    } else if b[4] != 45 || b[7] != 45 {
        Err(TimeStampFormatErrors::InvalidFormat)
    } else if b[13] != 58 || b[16] != 58 {
        Err(TimeStampFormatErrors::InvalidFormat)
    } else {
        let year = spec_dig(b[0]) * 1000 + spec_dig(b[1]) * 100 + spec_dig(b[2]) * 10 + spec_dig(
            b[3],
        );
        let month = spec_dig(b[5]) * 10 + spec_dig(b[6]);
        let day = spec_dig(b[8]) * 10 + spec_dig(b[9]);
        if year < 1970 {
            Err(TimeStampFormatErrors::UnsupportedYear)
        } else if month < 1 || month > 12 {
            Err(TimeStampFormatErrors::InvalidDate)
        } else if day < 1 || day > spec_month_len(month, spec_is_leap_year(year)) {
            Err(TimeStampFormatErrors::InvalidDate)
        } else {
            let hour = spec_dig(b[11]) * 10 + spec_dig(b[12]);
            let minute = spec_dig(b[14]) * 10 + spec_dig(b[15]);
            let second = spec_dig(b[17]) * 10 + spec_dig(b[18]);
            if hour > 23 || minute > 59 || second > 59 {
                Err(TimeStampFormatErrors::InvalidTime)
            } else if b.len() == 20 && b[19] == 90 {
                let tz = spec_tz_z();
                Ok(
                    TimeStamp {
                        unix_time: spec_recompose(year, month, day, hour, minute, second, tz),
                        time_zone: tz,
                    },
                )
            } else if b.len() == 25 && (b[19] == 43 || b[19] == 45) && spec_is_digit(b[20])
                && spec_is_digit(b[21]) && b[22] == 58 && spec_is_digit(b[23]) && spec_is_digit(
                b[24],
            ) {
                let tz = TimeZoneOffset {
                    symbol: if b[19] == 45 {
                        OffsetSymbol::Minus
                    } else {
                        OffsetSymbol::Plus
                    },
                    hours: (spec_dig(b[20]) * 10 + spec_dig(b[21])) as u8,
                    minutes: (spec_dig(b[23]) * 10 + spec_dig(b[24])) as u8,
                };
                Ok(
                    TimeStamp {
                        unix_time: spec_recompose(year, month, day, hour, minute, second, tz),
                        time_zone: tz,
                    },
                )
            } else {
                Err(TimeStampFormatErrors::InvalidTimeOffset)
            }
        }
    }
}

impl TimeStamp {
    /// Decodes the fixed-grammar text form back into an instant and its
    /// display offset.
    #[verifier::rlimit(100)]
    pub fn from_str(s: &str) -> (r: Result<TimeStamp, TimeStampFormatErrors>)
        ensures
            r == spec_parse(s.spec_bytes()),
    {
        let bytes = s.as_bytes();
        let n = bytes.len();
        if n < 20 || n > 27 {
            return Err(TimeStampFormatErrors::InvalidFormat);
        }
        if bytes[10] != 84 {
            return Err(TimeStampFormatErrors::InvalidFormat);
        }
        if bytes[4] != 45 || bytes[7] != 45 {
            return Err(TimeStampFormatErrors::InvalidFormat);
        }
        if bytes[13] != 58 || bytes[16] != 58 {
            return Err(TimeStampFormatErrors::InvalidFormat);
        }
        let year: u64 = ((bytes[0] ^ 48) as u64) * 1000 + ((bytes[1] ^ 48) as u64) * 100 + ((
        bytes[2] ^ 48) as u64) * 10 + ((bytes[3] ^ 48) as u64);
        let month: u64 = ((bytes[5] ^ 48) as u64) * 10 + ((bytes[6] ^ 48) as u64);
        let day: u64 = ((bytes[8] ^ 48) as u64) * 10 + ((bytes[9] ^ 48) as u64);
        if year < 1970 {
            return Err(TimeStampFormatErrors::UnsupportedYear);
        }
        if month < 1 || month > 12 {
            return Err(TimeStampFormatErrors::InvalidDate);
        }
        let leap = is_leap_year(year);
        if day < 1 || day > month_len(month, leap) {
            return Err(TimeStampFormatErrors::InvalidDate);
        }
        let hour: u64 = ((bytes[11] ^ 48) as u64) * 10 + ((bytes[12] ^ 48) as u64);
        let minute: u64 = ((bytes[14] ^ 48) as u64) * 10 + ((bytes[15] ^ 48) as u64);
        let second: u64 = ((bytes[17] ^ 48) as u64) * 10 + ((bytes[18] ^ 48) as u64);
        if hour > 23 || minute > 59 || second > 59 {
            return Err(TimeStampFormatErrors::InvalidTime);
        }
        let tz: TimeZoneOffset;
        if n == 20 && bytes[19] == 90 {
            tz = TimeZoneOffset { hours: 0, minutes: 0, symbol: OffsetSymbol::Plus };
        } else if n == 25 && (bytes[19] == 43 || bytes[19] == 45) && 48 <= bytes[20] && bytes[20]
            <= 57 && 48 <= bytes[21] && bytes[21] <= 57 && bytes[22] == 58 && 48 <= bytes[23]
            && bytes[23] <= 57 && 48 <= bytes[24] && bytes[24] <= 57 {
            proof {
                lemma_digit_xor();
            }
            let sym = if bytes[19] == 45 {
                OffsetSymbol::Minus
            } else {
                OffsetSymbol::Plus
            };
            let th: u8 = (bytes[20] ^ 48) * 10 + (bytes[21] ^ 48);
            let tm: u8 = (bytes[23] ^ 48) * 10 + (bytes[24] ^ 48);
            tz = TimeZoneOffset { hours: th, minutes: tm, symbol: sym };
        } else {
            return Err(TimeStampFormatErrors::InvalidTimeOffset);
        }
        let mut durat_secs: u64 = second + minute * 60 + hour * HOUR_IN_SECS + (day - 1)
            * DAY_IN_SECS;
        let mut idx: u64 = 1;
        while idx < month
            invariant
                1 <= idx <= month,
                month <= 12,
                leap == spec_is_leap_year(year as int),
                durat_secs == second + minute * 60 + hour * 3600 + (day - 1) * 86400
                    + spec_days_before_month(idx as int, leap) * 86400,
                second < 60,
                minute < 60,
                hour < 24,
                1 <= day <= 31,
            decreases month - idx,
        {
            proof {
                lemma_days_before_bound(idx as int, leap);
                lemma_days_before_bound(idx as int + 1, leap);
            }
            durat_secs = durat_secs + month_len(idx, leap) * DAY_IN_SECS;
            idx = idx + 1;
        }
        proof {
            lemma_days_before_bound(month as int, leap);
        }
        let leap_year_blocks: u64 = (year - 1970) / 4;
        let remaining_years: u64 = (year - 1970) % 4;
        durat_secs = durat_secs + LEAP_YEAR_BLOCK * leap_year_blocks;
        durat_secs = durat_secs + NON_LEAP_YEAR * remaining_years;
        let offset_secs: u64 = (tz.hours as u64) * 3600 + (tz.minutes as u64) * 60;
        let unix_time: u64 = match tz.symbol {
            OffsetSymbol::Minus => durat_secs + offset_secs,
            OffsetSymbol::Plus => durat_secs.saturating_sub(offset_secs),
        };
        Ok(TimeStamp { unix_time, time_zone: tz })
    }
}


/// The month walk can be undone: the months walked past and the
/// remainder add back up to what the walk started with.
pub proof fn lemma_walk_inverse(rem: int, m: int, leap: bool)
    requires
        1 <= m <= 13,
        0 <= rem,
    ensures
        rem == (spec_days_before_month(spec_month_walk(rem, m, leap).0, leap)
            - spec_days_before_month(m, leap)) * 86400 + spec_month_walk(rem, m, leap).1,
    decreases 13 - m,
{
    if m >= 13 {
    } else if rem >= spec_month_len(m, leap) * 86400 {
        lemma_walk_inverse(rem - spec_month_len(m, leap) * 86400, m + 1, leap);
        assert(spec_days_before_month(m + 1, leap) == spec_days_before_month(m, leap)
            + spec_month_len(m, leap));
        let w = spec_month_walk(rem, m, leap);
        assert((spec_days_before_month(w.0, leap) - spec_days_before_month(m + 1, leap)) * 86400
            + (spec_days_before_month(m + 1, leap) - spec_days_before_month(m, leap)) * 86400
            == (spec_days_before_month(w.0, leap) - spec_days_before_month(m, leap)) * 86400)
            by (nonlinear_arith);
        assert(spec_month_len(m, leap) * 86400 == (spec_days_before_month(m + 1, leap)
            - spec_days_before_month(m, leap)) * 86400);
    } else {
    }
}

/// The calendar walk can be undone: the year blocks, trailing years,
/// months, days and clock parts of `spec_datetime_of(n)` add back up to
/// `n` — except on the last day of a four-year block, where the year
/// split drifts.
pub proof fn lemma_datetime_inverse(n: u64)
    requires
        ((n as int) / 86400) % 1461 != 1460,
    ensures
        ({
            let dt = spec_datetime_of(n);
            let leap = spec_is_leap_year(dt.year as int);
            (dt.seconds as int) + (dt.minute as int) * 60 + (dt.hour as int) * 3600 + ((
            dt.day as int) - 1) * 86400 + spec_days_before_month(dt.month as int, leap) * 86400 + ((
            (dt.year as int) - 1970) / 4) * 126230400 + (((dt.year as int) - 1970) % 4)
                * 31536000 == n
        }),
        spec_datetime_of(n).year >= 1970,
        n < 253407484800 ==> spec_datetime_of(n).year <= 9999,
{
    broadcast use vstd::arithmetic::div_mod::lemma_fundamental_div_mod;

    let nn = n as int;
    let blocks = nn / 126230400;
    let rem = nn % 126230400;
    let ty = rem / 31536000;
    let rem2 = rem % 31536000;
    assert(0 <= rem < 126230400);
    assert(0 <= rem2 < 31536000);
    assert(blocks >= 0) by {
        vstd::arithmetic::div_mod::lemma_div_pos_is_pos(nn, 126230400);
    }
    assert(ty >= 0) by {
        vstd::arithmetic::div_mod::lemma_div_pos_is_pos(rem, 31536000);
    }
    assert(ty <= 4) by {
        vstd::arithmetic::div_mod::lemma_multiply_divide_lt(rem, 31536000, 5);
    }
    let rem86 = rem / 86400;
    assert(rem86 < 1461) by {
        vstd::arithmetic::div_mod::lemma_multiply_divide_lt(rem, 86400, 1461);
    }
    assert(rem86 >= 0) by {
        vstd::arithmetic::div_mod::lemma_div_pos_is_pos(rem, 86400);
    }
    assert(nn == (blocks * 1461 + rem86) * 86400 + (rem % 86400)) by {
        assert(rem == rem86 * 86400 + (rem % 86400));
        assert((blocks * 1461 + rem86) * 86400 == blocks * 1461 * 86400 + rem86 * 86400)
            by (nonlinear_arith);
        assert(blocks * 1461 * 86400 == blocks * 126230400) by (nonlinear_arith);
    }
    assert(nn / 86400 == blocks * 1461 + rem86) by {
        vstd::arithmetic::div_mod::lemma_fundamental_div_mod_converse_div(
            nn,
            86400,
            blocks * 1461 + rem86,
            rem % 86400,
        );
    }
    assert((nn / 86400) % 1461 == rem86) by {
        vstd::arithmetic::div_mod::lemma_fundamental_div_mod_converse_mod(
            blocks * 1461 + rem86,
            1461,
            blocks,
            rem86,
        );
    }
    assert(ty <= 3) by {
        if ty == 4 {
            assert(rem >= 126144000) by {
                assert(rem == ty * 31536000 + rem2);
            }
            assert(rem86 >= 1460) by {
                vstd::arithmetic::div_mod::lemma_div_is_ordered(126144000int, rem, 86400);
                assert(126144000int / 86400 == 1460);
            }
            assert(rem86 == 1460);
        }
    }
    let year = 1970 + blocks * 4 + ty;
    assert((year - 1970) / 4 == blocks && (year - 1970) % 4 == ty) by {
        vstd::arithmetic::div_mod::lemma_fundamental_div_mod_converse_div(
            year - 1970,
            4,
            blocks,
            ty,
        );
        vstd::arithmetic::div_mod::lemma_fundamental_div_mod_converse_mod(
            year - 1970,
            4,
            blocks,
            ty,
        );
    }
    let leap = spec_is_leap_year(year);
    assert(spec_days_before_month(1, leap) == 0);
    assert(spec_days_before_month(13, false) == 365) by {
        reveal_with_fuel(spec_days_before_month, 14);
    }
    assert(spec_days_before_month(13, true) == 366) by {
        reveal_with_fuel(spec_days_before_month, 14);
    }
    lemma_walk_bounds(rem2, 1, leap);
    lemma_walk_inverse(rem2, 1, leap);
    let walk = spec_month_walk(rem2, 1, leap);
    let month = walk.0;
    let rem3 = walk.1;
    assert(rem3 >= 0);
    let day1 = rem3 / 86400;
    let rem4 = rem3 % 86400;
    let hour = rem4 / 3600;
    let rem5 = rem4 % 3600;
    let minute = rem5 / 60;
    let seconds = rem5 % 60;
    assert(day1 >= 0) by {
        vstd::arithmetic::div_mod::lemma_div_pos_is_pos(rem3, 86400);
    }
    assert(hour >= 0) by {
        vstd::arithmetic::div_mod::lemma_div_pos_is_pos(rem4, 3600);
    }
    assert(minute >= 0) by {
        vstd::arithmetic::div_mod::lemma_div_pos_is_pos(rem5, 60);
    }
    assert(blocks * 4 + ty < 0x1000_0000_0000) by {
        assert(blocks * 126230400 <= nn) by (nonlinear_arith)
            requires
                blocks >= 0 && nn >= 0 && blocks == nn / 126230400,
        ;
        assert(blocks * 4 <= blocks * 126230400) by (nonlinear_arith)
            requires
                blocks >= 0,
        ;
        assert(nn < 0x1_0000_0000_0000_0000);
    }
    let dt = spec_datetime_of(n);
    assert(dt.year == year);
    assert(dt.month == month);
    assert(dt.day == day1 + 1);
    assert(dt.hour == hour);
    assert(dt.minute == minute);
    assert(dt.seconds == seconds);
    assert(nn == blocks * 126230400 + ty * 31536000 + spec_days_before_month(month, leap) * 86400
        + day1 * 86400 + hour * 3600 + minute * 60 + seconds) by {
        assert(rem3 == day1 * 86400 + rem4);
        assert(rem4 == hour * 3600 + rem5);
        assert(rem5 == minute * 60 + seconds);
        assert(rem2 == spec_days_before_month(month, leap) * 86400 + rem3);
        assert(rem == ty * 31536000 + rem2);
        assert(nn == blocks * 126230400 + rem);
    }
    assert(n < 253407484800 ==> year <= 9999) by {
        if n < 253407484800 {
            if blocks >= 2008 {
                assert(blocks * 126230400 <= nn) by (nonlinear_arith)
                    requires
                        blocks >= 0 && nn >= 0 && blocks == nn / 126230400,
                ;
                assert(2008 * 126230400 <= blocks * 126230400) by (nonlinear_arith)
                    requires
                        2008 <= blocks,
                ;
                assert(false);
            }
            if blocks == 2007 {
                assert(rem == nn - 2007 * 126230400);
                assert(rem < 2 * 31536000);
                assert(ty <= 1) by {
                    vstd::arithmetic::div_mod::lemma_multiply_divide_lt(rem, 31536000, 2);
                }
            }
        }
    }
}


/// Digit characters are ASCII, carry the value plus the zero bias, and
/// strip back to the value.
pub proof fn lemma_digit_char_facts()
    ensures
        forall|d: int| 0 <= d < 10 ==> (#[trigger] digit_char(d)) as u8 == 48 + d,
        forall|d: int| 0 <= d < 10 ==> '\0' <= #[trigger] digit_char(d) <= '\u{7f}',
        forall|b: u8| 48 <= b <= 57 ==> (b ^ 48) == b - 48,
{
    assert(forall|b: u8| 48 <= b <= 57 ==> (b ^ 48) == b - 48) by (bit_vector);
}

/// The two characters of a zero-padded two-digit number.
pub proof fn lemma_dec2_digits(x: int)
    requires
        0 <= x <= 99,
    ensures
        spec_dec2(x) == seq![digit_char(x / 10), digit_char(x % 10)],
{
    if x < 10 {
        assert(x / 10 == 0 && x % 10 == x);
        assert(digit_char(0) == '0');
        assert(spec_dec2(x) =~= seq![digit_char(x / 10), digit_char(x % 10)]);
    } else {
        assert(1 <= x / 10 <= 9);
        assert(spec_u64_dec(x) == spec_u64_dec(x / 10).push(digit_char(x % 10)));
        assert(spec_u64_dec(x / 10) == seq![digit_char(x / 10)]);
        assert(spec_dec2(x) =~= seq![digit_char(x / 10), digit_char(x % 10)]);
    }
}

/// The four characters of a zero-padded four-digit number.
pub proof fn lemma_dec4_digits(y: int)
    requires
        0 <= y <= 9999,
    ensures
        spec_dec4(y) == seq![
            digit_char(y / 1000),
            digit_char((y / 100) % 10),
            digit_char((y / 10) % 10),
            digit_char(y % 10),
        ],
{
    vstd::arithmetic::div_mod::lemma_div_denominator(y, 10, 10);
    vstd::arithmetic::div_mod::lemma_div_denominator(y, 100, 10);
    assert((y / 10) / 10 == y / 100);
    assert((y / 100) / 10 == y / 1000);
    if y < 10 {
        assert(y / 1000 == 0 && y / 100 == 0 && y / 10 == 0 && y % 10 == y);
        assert(digit_char(0) == '0');
        assert(spec_dec4(y) =~= seq![
            digit_char(y / 1000),
            digit_char((y / 100) % 10),
            digit_char((y / 10) % 10),
            digit_char(y % 10),
        ]);
    } else if y < 100 {
        assert(y / 1000 == 0 && y / 100 == 0);
        assert(1 <= y / 10 <= 9);
        assert((y / 10) % 10 == y / 10);
        assert(spec_u64_dec(y) == spec_u64_dec(y / 10).push(digit_char(y % 10)));
        assert(spec_u64_dec(y / 10) == seq![digit_char(y / 10)]);
        assert(digit_char(0) == '0');
        assert(spec_dec4(y) =~= seq![
            digit_char(y / 1000),
            digit_char((y / 100) % 10),
            digit_char((y / 10) % 10),
            digit_char(y % 10),
        ]);
    } else if y < 1000 {
        assert(y / 1000 == 0);
        assert(1 <= y / 100 <= 9);
        assert(10 <= y / 10 <= 99);
        assert((y / 100) % 10 == y / 100);
        assert(spec_u64_dec(y) == spec_u64_dec(y / 10).push(digit_char(y % 10)));
        assert(spec_u64_dec(y / 10) == spec_u64_dec((y / 10) / 10).push(digit_char((y / 10) % 10)));
        assert(spec_u64_dec(y / 100) == seq![digit_char(y / 100)]);
        assert(digit_char(0) == '0');
        assert(spec_dec4(y) =~= seq![
            digit_char(y / 1000),
            digit_char((y / 100) % 10),
            digit_char((y / 10) % 10),
            digit_char(y % 10),
        ]);
    } else {
        assert(1 <= y / 1000 <= 9);
        assert(10 <= y / 100 <= 99);
        assert(100 <= y / 10 <= 999);
        assert(spec_u64_dec(y) == spec_u64_dec(y / 10).push(digit_char(y % 10)));
        assert(spec_u64_dec(y / 10) == spec_u64_dec((y / 10) / 10).push(digit_char((y / 10) % 10)));
        assert(spec_u64_dec(y / 100) == spec_u64_dec((y / 100) / 10).push(
            digit_char((y / 100) % 10),
        ));
        assert(spec_u64_dec(y / 1000) == seq![digit_char(y / 1000)]);
        assert(spec_dec4(y) =~= seq![
            digit_char(y / 1000),
            digit_char((y / 100) % 10),
            digit_char((y / 10) % 10),
            digit_char(y % 10),
        ]);
    }
}

/// Four decimal digits recompose to the number they spell.
pub proof fn lemma_digits4_recompose(y: int)
    requires
        0 <= y <= 9999,
    ensures
        (y / 1000) * 1000 + ((y / 100) % 10) * 100 + ((y / 10) % 10) * 10 + y % 10 == y,
{
    assert((y / 1000) * 1000 + ((y / 100) % 10) * 100 + ((y / 10) % 10) * 10 + y % 10 == y)
        by (nonlinear_arith)
        requires
            0 <= y <= 9999,
    ;
}


/// Law: decoding an encoded timestamp gives back the instant and the
/// offset exactly. This holds for every instant whose display-local
/// time stays on this codec's calendar: a minus offset must not push
/// the instant below zero, the local time must fall before the year
/// 10000, and it must not land on the final day of a four-year leap
/// block, where the year split of the calendar walk drifts by one day.
#[verifier::rlimit(100)]
pub proof fn lemma_timestamp_round_trip(ts: TimeStamp)
    requires
        ts.time_zone.hours < 24,
        ts.time_zone.minutes < 60,
        ts.time_zone.symbol == OffsetSymbol::Minus ==> ts.unix_time >= (ts.time_zone.hours
            as int) * 3600 + (ts.time_zone.minutes as int) * 60,
        spec_local_secs(ts) < 253407484800,
        ((spec_local_secs(ts) as int) / 86400) % 1461 != 1460,
    ensures
        spec_parse(vstd::utf8::encode_utf8(spec_format_chars(ts))) == Ok::<
            TimeStamp,
            TimeStampFormatErrors,
        >(ts),
{
    let n = spec_local_secs(ts);
    let dt = spec_datetime_of(n);
    lemma_datetime_bounds(n);
    lemma_datetime_inverse(n);
    lemma_digit_char_facts();
    let y = dt.year as int;
    let mo = dt.month as int;
    let da = dt.day as int;
    let hh = dt.hour as int;
    let mi = dt.minute as int;
    let se = dt.seconds as int;
    assert(1970 <= y <= 9999);
    lemma_dec4_digits(y);
    lemma_dec2_digits(mo);
    lemma_dec2_digits(da);
    lemma_dec2_digits(hh);
    lemma_dec2_digits(mi);
    lemma_dec2_digits(se);
    let tz = ts.time_zone;
    let th = tz.hours as int;
    let tm = tz.minutes as int;
    lemma_dec2_digits(th);
    lemma_dec2_digits(tm);
    let head = seq![
        digit_char(y / 1000),
        digit_char((y / 100) % 10),
        digit_char((y / 10) % 10),
        digit_char(y % 10),
        '-',
        digit_char(mo / 10),
        digit_char(mo % 10),
        '-',
        digit_char(da / 10),
        digit_char(da % 10),
        'T',
        digit_char(hh / 10),
        digit_char(hh % 10),
        ':',
        digit_char(mi / 10),
        digit_char(mi % 10),
        ':',
        digit_char(se / 10),
        digit_char(se % 10),
    ];
    let tzc = spec_tz_chars(tz);
    let chars = spec_format_chars(ts);
    assert(chars =~= head + tzc);
    if tz == spec_tz_z() {
        assert(tzc =~= seq!['Z']);
    } else {
        assert(tzc =~= seq![
            spec_sign_char(tz.symbol),
            digit_char(th / 10),
            digit_char(th % 10),
            ':',
            digit_char(tm / 10),
            digit_char(tm % 10),
        ]);
    }
    assert(vstd::utf8::is_ascii_chars(chars)) by {
        assert forall|i: int| 0 <= i < chars.len() implies '\0' <= #[trigger] chars[i]
            <= '\u{7f}' by {
            if i < 19 {
                assert(chars[i] == head[i]);
            } else {
                assert(chars[i] == tzc[i - 19]);
            }
        }
    }
    vstd::utf8::is_ascii_chars_encode_utf8(chars);
    let b = vstd::utf8::encode_utf8(chars);
    assert(b.len() == chars.len());
    assert(b.len() == 19 + tzc.len());
    assert forall|d: int| 0 <= d < 10 implies spec_dig((#[trigger] digit_char(d)) as u8)
        == d by {
        assert(digit_char(d) as u8 == 48 + d);
        assert(((48 + d) as u8) ^ 48 == d) by {
            let bb = (48 + d) as u8;
            assert(48 <= bb <= 57);
            assert((bb ^ 48) == bb - 48);
        }
    }
    assert(b[10] == 84) by {
        assert(chars[10] == 'T');
    }
    assert(b[4] == 45 && b[7] == 45 && b[13] == 58 && b[16] == 58);
    let year_p = spec_dig(b[0]) * 1000 + spec_dig(b[1]) * 100 + spec_dig(b[2]) * 10 + spec_dig(
        b[3],
    );
    assert(year_p == y) by {
        assert(b[0] == digit_char(y / 1000) as u8);
        assert(b[1] == digit_char((y / 100) % 10) as u8);
        assert(b[2] == digit_char((y / 10) % 10) as u8);
        assert(b[3] == digit_char(y % 10) as u8);
        assert(0 <= y / 1000 < 10);
        lemma_digits4_recompose(y);
    }
    let month_p = spec_dig(b[5]) * 10 + spec_dig(b[6]);
    let day_p = spec_dig(b[8]) * 10 + spec_dig(b[9]);
    let hour_p = spec_dig(b[11]) * 10 + spec_dig(b[12]);
    let minute_p = spec_dig(b[14]) * 10 + spec_dig(b[15]);
    let second_p = spec_dig(b[17]) * 10 + spec_dig(b[18]);
    assert(month_p == mo && day_p == da && hour_p == hh && minute_p == mi && second_p == se);
    let leap = spec_is_leap_year(y);
    assert(da <= spec_month_len(mo, leap));
    let tz_p: TimeZoneOffset;
    if tz == spec_tz_z() {
        assert(b.len() == 20);
        assert(b[19] == 90) by {
            assert(chars[19] == 'Z');
        }
        tz_p = spec_tz_z();
    } else {
        assert(b.len() == 25);
        assert(b[19] == spec_sign_char(tz.symbol) as u8);
        assert(b[22] == 58);
        assert(spec_is_digit(b[20]) && spec_is_digit(b[21]) && spec_is_digit(b[23])
            && spec_is_digit(b[24]));
        assert(spec_dig(b[20]) * 10 + spec_dig(b[21]) == th);
        assert(spec_dig(b[23]) * 10 + spec_dig(b[24]) == tm);
        match tz.symbol {
            OffsetSymbol::Minus => {
                assert(b[19] == 45);
            },
            OffsetSymbol::Plus => {
                assert(b[19] == 43);
                assert(b[19] != 45);
            },
        }
        tz_p = TimeZoneOffset {
            symbol: if b[19] == 45 {
                OffsetSymbol::Minus
            } else {
                OffsetSymbol::Plus
            },
            hours: (spec_dig(b[20]) * 10 + spec_dig(b[21])) as u8,
            minutes: (spec_dig(b[23]) * 10 + spec_dig(b[24])) as u8,
        };
        assert(tz_p == tz);
    }
    let off = th * 3600 + tm * 60;
    let durat = se + mi * 60 + hh * 3600 + (da - 1) * 86400 + spec_days_before_month(mo, leap)
        * 86400 + ((y - 1970) / 4) * 126230400 + ((y - 1970) % 4) * 31536000;
    assert(durat == n);
    assert(spec_recompose(year_p, month_p, day_p, hour_p, minute_p, second_p, tz_p)
        == ts.unix_time) by {
        match tz.symbol {
            OffsetSymbol::Minus => {
                assert(n == ts.unix_time - off);
                assert((durat + off) as u64 == ts.unix_time);
            },
            OffsetSymbol::Plus => {
                assert(ts.unix_time + off < 0x1_0000_0000_0000_0000) by {
                    if ts.unix_time + off > u64::MAX {
                        assert(n == u64::MAX);
                    }
                }
                assert(n == ts.unix_time + off);
                assert(durat >= off);
                assert((durat - off) as u64 == ts.unix_time);
            },
        }
    }
    assert(spec_parse(b) == Ok::<TimeStamp, TimeStampFormatErrors>(ts));
}

} // verus!
