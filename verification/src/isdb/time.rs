//! Dates, times and timestamps as coded by ARIB STD-B10 and MPEG-2 Systems.

use vstd::prelude::*;

use core::cmp::Ordering;
use core::ops::{Add, AddAssign, Sub, SubAssign};
use core::time::Duration;

use vstd::std_specs::cmp::PartialOrdSpecImpl;
use vstd::std_specs::convert::FromSpecImpl;
use vstd::std_specs::ops::{AddSpecImpl, SubSpecImpl};


use crate::isdb::utils::{bcd_digit, be16, be32, push_char, read_bcd_digit};

verus! {

/// A day of the week.
#[derive(Debug, Clone, Copy, PartialEq, Eq, Structural)]
pub enum Weekday {
    /// Monday.
    Mon,
    /// Tuesday.
    Tue,
    /// Wednesday.
    Wed,
    /// Thursday.
    Thu,
    /// Friday.
    Fri,
    /// Saturday.
    Sat,
    /// Sunday.
    Sun,
}

/// The weekday numbered `n`, counting from Monday as 0.
pub open spec fn weekday_of(n: int) -> Weekday {
    if n == 0 {
        Weekday::Mon
    } else if n == 1 {
        Weekday::Tue
    } else if n == 2 {
        Weekday::Wed
    } else if n == 3 {
        Weekday::Thu
    } else if n == 4 {
        Weekday::Fri
    } else if n == 5 {
        Weekday::Sat
    } else {
        Weekday::Sun
    }
}

/// A Japanese calendar date converted from an [`MjdDate`].
#[derive(Debug, Clone, Copy, PartialEq, Eq, Structural)]
pub struct Date {
    /// Year.
    pub year: i32,
    /// Month (1-12).
    pub month: u8,
    /// Day (1-31).
    pub day: u8,
    /// Day of the week.
    pub weekday: Weekday,
}

/// A modified Julian date.
#[derive(Debug, Clone, Copy, PartialEq, Eq, Structural)]
pub struct MjdDate(pub u16);

/// The year offset `Y'` of the ARIB conversion: `int((mjd - 15078.2) / 365.25)`.
pub open spec fn mjd_y(mjd: int) -> int {
    (100 * mjd - 1507820) / 36525
}

/// `int(Y' * 365.25)`.
pub open spec fn mjd_y_days(mjd: int) -> int {
    (mjd_y(mjd) * 1461) / 4
}

/// The month offset `M'` of the ARIB conversion:
/// `int((mjd - 14956.1 - int(Y' * 365.25)) / 30.6001)`.
pub open spec fn mjd_m(mjd: int) -> int {
    (10000 * (mjd - mjd_y_days(mjd)) - 149561000) / 306001
}

/// `int(M' * 30.6001)`.
pub open spec fn mjd_m_days(mjd: int) -> int {
    (mjd_m(mjd) * 306001) / 10000
}

/// The date of the modified Julian date `mjd` (ARIB STD-B10 appendix C),
/// for `mjd` from 15079 (1900-03-01).
pub open spec fn date_of_mjd(mjd: int) -> Date {
    let y = mjd_y(mjd);
    let m = mjd_m(mjd);
    let k = if m == 14 || m == 15 {
        1int
    } else {
        0
    };
    Date {
        year: (y + 1900 + k) as i32,
        month: (m - 1 - 12 * k) as u8,
        day: (mjd - 14956 - mjd_y_days(mjd) - mjd_m_days(mjd)) as u8,
        weekday: weekday_of((mjd + 2) % 7),
    }
}

/// Whether `mjd` is a modified Julian date that converts to a calendar date.
pub open spec fn mjd_is_valid(mjd: u16) -> bool {
    mjd != 0xFFFF && mjd >= 15079
}

/// The bounds of the intermediate values of the conversion.
pub proof fn lemma_mjd_bounds(mjd: int)
    requires
        15079 <= mjd <= 65534,
    ensures
        0 <= mjd_y(mjd) <= 138,
        mjd_y(mjd) * 365 <= mjd_y_days(mjd) <= mjd_y(mjd) * 366,
        3 <= mjd_m(mjd) <= 15,
        1 <= mjd - 14956 - mjd_y_days(mjd) - mjd_m_days(mjd) <= 31,
{
    let y = mjd_y(mjd);
    let a = mjd_y_days(mjd);
    assert(0 <= y <= 138) by (nonlinear_arith)
        requires
            y == (100 * mjd - 1507820) / 36525,
            15079 <= mjd <= 65534,
    ;
    assert(y * 365 <= a <= y * 366) by (nonlinear_arith)
        requires
            a == (y * 1461) / 4,
            0 <= y,
    ;
    // 36525 * y <= 100 * mjd - 1507820 < 36525 * (y + 1), and 400 * a is within 400 of 146100 * y.
    assert(12210 <= 100 * (mjd - a) - 1495610 < 48835) by (nonlinear_arith)
        requires
            y == (100 * mjd - 1507820) / 36525,
            a == (y * 1461) / 4,
            15079 <= mjd,
            0 <= y,
    ;
    let m = mjd_m(mjd);
    assert(3 <= m <= 15) by (nonlinear_arith)
        requires
            m == (10000 * (mjd - a) - 149561000) / 306001,
            12210 <= 100 * (mjd - a) - 1495610 < 48835,
    ;
    let b = mjd_m_days(mjd);
    assert(1 <= mjd - 14956 - a - b <= 31) by (nonlinear_arith)
        requires
            m == (10000 * (mjd - a) - 149561000) / 306001,
            b == (m * 306001) / 10000,
            3 <= m <= 15,
            12210 <= 100 * (mjd - a) - 1495610,
    ;
}

/// Every valid modified Julian date converts to a month from 1 to 12 and a
/// day from 1 to 31, in a year from 1900.
pub proof fn law_mjd_date_in_range(mjd: u16)
    requires
        mjd_is_valid(mjd),
    ensures
        1 <= date_of_mjd(mjd as int).month <= 12,
        1 <= date_of_mjd(mjd as int).day <= 31,
        1900 <= date_of_mjd(mjd as int).year,
{
    lemma_mjd_bounds(mjd as int);
}

/// The weekday that follows `w`.
pub open spec fn next_weekday(w: Weekday) -> Weekday {
    match w {
        Weekday::Mon => Weekday::Tue,
        Weekday::Tue => Weekday::Wed,
        Weekday::Wed => Weekday::Thu,
        Weekday::Thu => Weekday::Fri,
        Weekday::Fri => Weekday::Sat,
        Weekday::Sat => Weekday::Sun,
        Weekday::Sun => Weekday::Mon,
    }
}

/// Consecutive modified Julian dates fall on consecutive weekdays, and
/// 1900-03-01, the first date converted, is a Thursday.
pub proof fn law_weekdays_follow(mjd: int)
    ensures
        mjd >= 0 ==> date_of_mjd(mjd + 1).weekday == next_weekday(date_of_mjd(mjd).weekday),
        date_of_mjd(15079) == (Date { year: 1900, month: 3, day: 1, weekday: Weekday::Thu }),
{
}

impl MjdDate {
    /// Reads a date from its two big-endian bytes.
    pub fn read(data: &[u8; 2]) -> (r: MjdDate)
        ensures
            r.0 == be16(data@, 0),
    {
        MjdDate(data[0] as u16 * 256 + data[1] as u16)
    }

    /// Reads a date from the two bytes at offset `i` of `data`.
    pub fn read_at(data: &[u8], i: usize) -> (r: MjdDate)
        requires
            i + 2 <= data@.len(),
        ensures
            r.0 == be16(data@, i as int),
    {
        MjdDate(data[i] as u16 * 256 + data[i + 1] as u16)
    }

    /// Converts to a calendar date, or `None` for an invalid date (0xFFFF, or
    /// before 1900-03-01).
    pub fn to_date(&self) -> (r: Option<Date>)
        ensures
            r is Some <==> mjd_is_valid(self.0),
            r matches Some(d) ==> d == date_of_mjd(self.0 as int),
    {
        if self.0 == 0xFFFF || self.0 < 15079 {
            return None;
        }
        let mjd = self.0 as u32;
        proof {
            lemma_mjd_bounds(mjd as int);
        }
        let yd: u32 = (100 * mjd - 1507820) / 36525;
        let a: u32 = (yd * 1461) / 4;
        let md: u32 = (10000 * (mjd - a) - 149561000) / 306001;
        let b: u32 = (md * 306001) / 10000;
        let day: u32 = mjd - 14956 - a - b;
        let weekday = match (self.0 as u32 + 2) % 7 {
            0 => Weekday::Mon,
            1 => Weekday::Tue,
            2 => Weekday::Wed,
            3 => Weekday::Thu,
            4 => Weekday::Fri,
            5 => Weekday::Sat,
            _ => Weekday::Sun,
        };
        let (year, month) = if md == 14 || md == 15 {
            (yd as i32 + 1901, (md - 1 - 12) as u8)
        } else {
            (yd as i32 + 1900, (md - 1) as u8)
        };
        Some(Date { year, month, day: day as u8, weekday })
    }
}

/// A date and Japan standard time.
#[derive(Debug, Clone, Copy, PartialEq, Eq, Structural)]
pub struct DateTime {
    /// Modified Julian date.
    pub date: MjdDate,
    /// Hour (0-23).
    pub hour: u8,
    /// Minute (0-59).
    pub minute: u8,
    /// Second (0-60).
    pub second: u8,
}

/// The date and time coded in the five bytes at offset `i` of `s`.
pub open spec fn date_time_at(s: Seq<u8>, i: int) -> DateTime {
    DateTime {
        date: MjdDate(be16(s, i)),
        hour: bcd_digit(s[i + 2]),
        minute: bcd_digit(s[i + 3]),
        second: bcd_digit(s[i + 4]),
    }
}

impl DateTime {
    /// Reads a date and time: a modified Julian date, then hour, minute and
    /// second as binary coded decimals.
    pub fn read(data: &[u8; 5]) -> (r: DateTime)
        ensures
            r == date_time_at(data@, 0),
    {
        DateTime {
            date: MjdDate(data[0] as u16 * 256 + data[1] as u16),
            hour: read_bcd_digit(data[2]),
            minute: read_bcd_digit(data[3]),
            second: read_bcd_digit(data[4]),
        }
    }

    /// Reads a date and time from the five bytes at offset `i` of `data`.
    pub fn read_at(data: &[u8], i: usize) -> (r: DateTime)
        requires
            i + 5 <= data@.len(),
        ensures
            r == date_time_at(data@, i as int),
    {
        let _len = data.len();
        DateTime {
            date: MjdDate::read_at(data, i),
            hour: read_bcd_digit(data[i + 2]),
            minute: read_bcd_digit(data[i + 3]),
            second: read_bcd_digit(data[i + 4]),
        }
    }
}

/// The number of 27 MHz ticks in one second.
pub const TICKS_PER_SEC: u64 = 27_000_000;

/// The largest value of a timestamp in 27 MHz ticks: a 33-bit 90 kHz base
/// and an extension below 300.
pub const TIMESTAMP_MAX_FULL: u64 = 2_576_980_377_599;

/// A difference of at least this many ticks between two timestamps is taken
/// as a wrap-around when they are compared.
pub const WRAP_THRESH: u64 = 1_288_490_188_799;

/// The length of the whole timestamp range in nanoseconds, rounded as a
/// [`Duration`]: the duration of the largest timestamp plus that of one tick.
pub const RANGE_NANOS: u128 = 95_443_717_688_888;

/// Wrapping addition of two tick counts.
pub open spec fn wrap_add(a: int, b: int) -> int {
    if a + b > TIMESTAMP_MAX_FULL {
        a + b - TIMESTAMP_MAX_FULL - 1
    } else {
        a + b
    }
}

/// Wrapping subtraction of two tick counts.
pub open spec fn wrap_sub(a: int, b: int) -> int {
    if a >= b {
        a - b
    } else {
        a + TIMESTAMP_MAX_FULL + 1 - b
    }
}

/// Whether the tick count `a` comes before `b`, a difference of
/// [`WRAP_THRESH`] or more being taken as a wrap-around.
pub open spec fn wraps_before(a: nat, b: nat) -> bool {
    ||| a < b && b - a < WRAP_THRESH
    ||| a > b && a - b >= WRAP_THRESH
}

/// Ticks of `nanos` nanoseconds, rounded down.
pub open spec fn nanos_to_ticks(nanos: int) -> int {
    nanos * 27 / 1000
}

/// The ticks of a duration of `secs` seconds and `nanos` nanoseconds, taken
/// modulo the length of the timestamp range.
pub open spec fn duration_ticks(secs: int, nanos: int) -> int {
    let r = (secs * 1_000_000_000 + nanos) % (RANGE_NANOS as int);
    (r / 1_000_000_000) * TICKS_PER_SEC + nanos_to_ticks(r % 1_000_000_000)
}

/// The ticks of a duration of `secs` seconds and `nanos` nanoseconds,
/// saturated at the largest timestamp.
pub open spec fn saturated_ticks(secs: int, nanos: int) -> int {
    let x = secs * TICKS_PER_SEC + nanos_to_ticks(nanos);
    if x <= TIMESTAMP_MAX_FULL {
        x
    } else {
        TIMESTAMP_MAX_FULL as int
    }
}

/// The whole seconds of a [`Duration`], as `Duration::as_secs` returns them.
pub uninterp spec fn duration_secs(d: Duration) -> u64;

/// The fractional part of a [`Duration`] in nanoseconds, as
/// `Duration::subsec_nanos` returns it.
pub uninterp spec fn duration_subsec_nanos(d: Duration) -> u32;

/// `Duration::as_secs`: the number of whole seconds.
#[verifier::external_body]
fn duration_as_secs(d: &Duration) -> (r: u64)
    ensures
        r == duration_secs(*d),
{
    d.as_secs()
}

/// `Duration::subsec_nanos`: the fractional part in nanoseconds, which the
/// documentation states is always below one billion.
#[verifier::external_body]
fn duration_nanos(d: &Duration) -> (r: u32)
    ensures
        r == duration_subsec_nanos(*d),
        r < 1_000_000_000,
{
    d.subsec_nanos()
}

/// `Duration::new`: nanoseconds of a billion or more carry over into the
/// seconds; the call panics when that carry overflows, which `requires`
/// excludes.
#[verifier::external_body]
fn duration_new(secs: u64, nanos: u32) -> (d: Duration)
    requires
        secs + nanos / 1_000_000_000 <= u64::MAX,
    ensures
        duration_secs(d) == secs + nanos / 1_000_000_000,
        duration_subsec_nanos(d) == nanos % 1_000_000_000,
{
    Duration::new(secs, nanos)
}

/// A PCR, PTS or similar timestamp, counted in 27 MHz ticks.
///
/// Arithmetic and comparison take the wrap-around of the 33-bit 90 kHz base
/// into account.
#[derive(Debug, Clone, Copy, PartialEq, Eq, Hash, Structural)]
pub struct Timestamp {
    full: u64,
}

impl View for Timestamp {
    type V = nat;

    /// The timestamp in 27 MHz ticks.
    closed spec fn view(&self) -> nat {
        self.full as nat
    }
}

impl Timestamp {
    #[verifier::type_invariant]
    spec fn inv(self) -> bool {
        self.full <= TIMESTAMP_MAX_FULL
    }

    /// The timestamp of `full` ticks, for `full` up to [`TIMESTAMP_MAX_FULL`].
    pub closed spec fn spec_from_ticks(full: int) -> Timestamp {
        Timestamp { full: full as u64 }
    }

    /// The timestamp of `full` ticks has that many ticks.
    pub proof fn lemma_from_ticks(full: int)
        requires
            0 <= full <= TIMESTAMP_MAX_FULL,
        ensures
            Timestamp::spec_from_ticks(full)@ == full,
    {
    }

    /// Two timestamps with the same tick count are equal.
    pub proof fn lemma_view_eq(a: Timestamp, b: Timestamp)
        requires
            a@ == b@,
        ensures
            a == b,
    {
    }

    /// The zero timestamp.
    pub fn zero() -> (r: Timestamp)
        ensures
            r@ == 0,
    {
        Timestamp { full: 0 }
    }

    /// The largest timestamp: base 2^33 - 1 and extension 299.
    pub fn max() -> (r: Timestamp)
        ensures
            r@ == TIMESTAMP_MAX_FULL,
    {
        Timestamp { full: TIMESTAMP_MAX_FULL }
    }

    /// Builds a timestamp from a 90 kHz `base` and a 27 MHz `extension`.
    pub fn new(base: u64, extension: u16) -> (r: Timestamp)
        requires
            base < 0x2_0000_0000,
            extension < 300,
        ensures
            r@ == base * 300 + extension,
    {
        Timestamp { full: base * 300 + extension as u64 }
    }

    /// Builds a timestamp from a 90 kHz `base` and a 27 MHz `extension`, or
    /// `None` if `base` does not fit in 33 bits or `extension` is 300 or more.
    pub fn try_new(base: u64, extension: u16) -> (r: Option<Timestamp>)
        ensures
            r is Some <==> base < 0x2_0000_0000 && extension < 300,
            r matches Some(t) ==> t@ == base * 300 + extension,
    {
        if base < 0x2_0000_0000 && extension < 300 {
            Some(Timestamp { full: base * 300 + extension as u64 })
        } else {
            None
        }
    }

    /// Rebuilds a timestamp from the value of [`Timestamp::full`].
    pub fn from_full(full: u64) -> (r: Timestamp)
        requires
            full <= TIMESTAMP_MAX_FULL,
        ensures
            r@ == full,
    {
        Timestamp { full }
    }

    /// Converts `secs` seconds and `nanos` nanoseconds to a timestamp,
    /// rounding down to a tick, or the largest timestamp if it does not fit.
    pub fn from_secs_nanos(secs: u64, nanos: u32) -> (r: Timestamp)
        requires
            nanos < 1_000_000_000,
        ensures
            r@ == saturated_ticks(secs as int, nanos as int),
    {
        let sub: u64 = nanos as u64 * 27 / 1_000;
        let x = match secs.checked_mul(TICKS_PER_SEC) {
            Some(x) => x.checked_add(sub),
            None => None,
        };
        match x {
            Some(x) => {
                if x <= TIMESTAMP_MAX_FULL {
                    Timestamp { full: x }
                } else {
                    Timestamp { full: TIMESTAMP_MAX_FULL }
                }
            },
            None => Timestamp { full: TIMESTAMP_MAX_FULL },
        }
    }

    /// Converts a [`Duration`] to a timestamp, rounding down to a tick, or
    /// the largest timestamp if it does not fit.
    pub fn from_duration(dur: Duration) -> (r: Timestamp)
        ensures
            r@ == saturated_ticks(duration_secs(dur) as int, duration_subsec_nanos(dur) as int),
    {
        let secs = duration_as_secs(&dur);
        let nanos = duration_nanos(&dur);
        Timestamp::from_secs_nanos(secs, nanos)
    }

    /// The timestamp in 27 MHz ticks; it fits in 42 bits.
    pub fn full(&self) -> (r: u64)
        ensures
            r == self@,
            r <= TIMESTAMP_MAX_FULL,
    {
        proof {
            use_type_invariant(self);
        }
        self.full
    }

    /// The 90 kHz part of the timestamp; it fits in 33 bits.
    pub fn base(&self) -> (r: u64)
        ensures
            r == self@ / 300,
            r < 0x2_0000_0000,
    {
        proof {
            use_type_invariant(self);
        }
        self.full / 300
    }

    /// The 27 MHz part of the timestamp, below 300.
    pub fn extension(&self) -> (r: u16)
        ensures
            r == self@ % 300,
    {
        (self.full % 300) as u16
    }

    /// The timestamp in whole seconds.
    pub fn as_secs(&self) -> (r: u64)
        ensures
            r == self@ / (TICKS_PER_SEC as nat),
    {
        self.full / TICKS_PER_SEC
    }

    /// The timestamp in nanoseconds, rounded down.
    pub fn as_nanos(&self) -> (r: u64)
        ensures
            r == self@ * 1000 / 27,
    {
        proof {
            use_type_invariant(self);
        }
        self.full * 1_000 / 27
    }

    /// The whole seconds and the nanoseconds below one second of the
    /// timestamp, as [`Timestamp::to_duration`] gives them.
    pub fn to_secs_nanos(&self) -> (r: (u64, u32))
        ensures
            r.0 == self@ / (TICKS_PER_SEC as nat),
            r.1 == (self@ % (TICKS_PER_SEC as nat)) * 1000 / 27,
            r.1 < 1_000_000_000,
    {
        let secs = self.full / TICKS_PER_SEC;
        let rem = self.full % TICKS_PER_SEC;
        (secs, (rem * 1_000 / 27) as u32)
    }

    /// Converts the timestamp to a [`Duration`], rounding down to a
    /// nanosecond.
    pub fn to_duration(&self) -> (r: Duration)
        ensures
            duration_secs(r) == self@ / (TICKS_PER_SEC as nat),
            duration_subsec_nanos(r) == (self@ % (TICKS_PER_SEC as nat)) * 1000 / 27,
    {
        let (secs, nanos) = self.to_secs_nanos();
        duration_new(secs, nanos)
    }
}

impl Default for Timestamp {
    /// The zero timestamp.
    fn default() -> (r: Timestamp)
        ensures
            r@ == 0,
    {
        Timestamp { full: 0 }
    }
}

/// The ticks of the duration `secs` seconds and `nanos` nanoseconds after
/// removing whole multiples of the timestamp range; at most
/// [`TIMESTAMP_MAX_FULL`].
fn reduced_duration_ticks(secs: u64, nanos: u32) -> (r: u64)
    requires
        nanos < 1_000_000_000,
    ensures
        r == duration_ticks(secs as int, nanos as int),
        r <= TIMESTAMP_MAX_FULL,
{
    assert(secs * 1_000_000_000 + nanos < 0x1_0000_0000_0000_0000_0000_0000) by (nonlinear_arith)
        requires
            secs <= u64::MAX,
            nanos < 1_000_000_000,
    ;
    let total: u128 = secs as u128 * 1_000_000_000 + nanos as u128;
    let r: u128 = total % RANGE_NANOS;
    let rs: u64 = (r / 1_000_000_000) as u64;
    let rn: u64 = (r % 1_000_000_000) as u64;
    proof {
        law_duration_ticks_bounded(secs, nanos);
    }
    rs * TICKS_PER_SEC + rn * 27 / 1_000
}

impl Add for Timestamp {
    type Output = Timestamp;

    /// Wrapping addition.
    fn add(self, rhs: Timestamp) -> (r: Timestamp)
        ensures
            r@ == wrap_add(self@ as int, rhs@ as int),
    {
        proof {
            use_type_invariant(&self);
            use_type_invariant(&rhs);
        }
        let x = self.full + rhs.full;
        if x > TIMESTAMP_MAX_FULL {
            Timestamp { full: x - TIMESTAMP_MAX_FULL - 1 }
        } else {
            Timestamp { full: x }
        }
    }
}

impl AddSpecImpl for Timestamp {
    open spec fn obeys_add_spec() -> bool {
        true
    }

    open spec fn add_req(self, rhs: Timestamp) -> bool {
        true
    }

    open spec fn add_spec(self, rhs: Timestamp) -> Timestamp {
        Timestamp::spec_from_ticks(wrap_add(self@ as int, rhs@ as int))
    }
}

impl Sub for Timestamp {
    type Output = Timestamp;

    /// Wrapping subtraction.
    fn sub(self, rhs: Timestamp) -> (r: Timestamp)
        ensures
            r@ == wrap_sub(self@ as int, rhs@ as int),
    {
        proof {
            use_type_invariant(&self);
            use_type_invariant(&rhs);
        }
        match self.full.checked_sub(rhs.full) {
            Some(x) => Timestamp { full: x },
            None => Timestamp { full: (self.full + TIMESTAMP_MAX_FULL + 1) - rhs.full },
        }
    }
}

impl SubSpecImpl for Timestamp {
    open spec fn obeys_sub_spec() -> bool {
        true
    }

    open spec fn sub_req(self, rhs: Timestamp) -> bool {
        true
    }

    open spec fn sub_spec(self, rhs: Timestamp) -> Timestamp {
        Timestamp::spec_from_ticks(wrap_sub(self@ as int, rhs@ as int))
    }
}

impl AddAssign for Timestamp {
    /// Wrapping addition in place.
    fn add_assign(&mut self, rhs: Timestamp)
        ensures
            final(self)@ == wrap_add(old(self)@ as int, rhs@ as int),
    {
        *self = *self + rhs;
    }
}

impl SubAssign for Timestamp {
    /// Wrapping subtraction in place.
    fn sub_assign(&mut self, rhs: Timestamp)
        ensures
            final(self)@ == wrap_sub(old(self)@ as int, rhs@ as int),
    {
        *self = *self - rhs;
    }
}

impl Add<Duration> for Timestamp {
    type Output = Timestamp;

    /// Adds a duration, rounded down to a tick, with wrap-around.
    fn add(self, rhs: Duration) -> (r: Timestamp)
        ensures
            r@ == (self@ + duration_ticks(
                duration_secs(rhs) as int,
                duration_subsec_nanos(rhs) as int,
            )) % (TIMESTAMP_MAX_FULL + 1),
    {
        proof {
            use_type_invariant(&self);
        }
        let secs = duration_as_secs(&rhs);
        let nanos = duration_nanos(&rhs);
        let ticks = reduced_duration_ticks(secs, nanos);
        Timestamp { full: (self.full + ticks) % (TIMESTAMP_MAX_FULL + 1) }
    }
}

impl AddSpecImpl<Duration> for Timestamp {
    open spec fn obeys_add_spec() -> bool {
        true
    }

    open spec fn add_req(self, rhs: Duration) -> bool {
        true
    }

    open spec fn add_spec(self, rhs: Duration) -> Timestamp {
        Timestamp::spec_from_ticks(
            (self@ + duration_ticks(duration_secs(rhs) as int, duration_subsec_nanos(rhs) as int))
                % (TIMESTAMP_MAX_FULL + 1),
        )
    }
}

impl Sub<Duration> for Timestamp {
    type Output = Timestamp;

    /// Subtracts a duration, rounded down to a tick, with wrap-around.
    fn sub(self, rhs: Duration) -> (r: Timestamp)
        ensures
            r@ == wrap_sub(
                self@ as int,
                duration_ticks(duration_secs(rhs) as int, duration_subsec_nanos(rhs) as int),
            ),
    {
        proof {
            use_type_invariant(&self);
        }
        let secs = duration_as_secs(&rhs);
        let nanos = duration_nanos(&rhs);
        let ticks = reduced_duration_ticks(secs, nanos);
        match self.full.checked_sub(ticks) {
            Some(x) => Timestamp { full: x },
            None => Timestamp { full: (self.full + TIMESTAMP_MAX_FULL + 1) - ticks },
        }
    }
}

impl SubSpecImpl<Duration> for Timestamp {
    open spec fn obeys_sub_spec() -> bool {
        true
    }

    open spec fn sub_req(self, rhs: Duration) -> bool {
        true
    }

    open spec fn sub_spec(self, rhs: Duration) -> Timestamp {
        Timestamp::spec_from_ticks(
            wrap_sub(
                self@ as int,
                duration_ticks(duration_secs(rhs) as int, duration_subsec_nanos(rhs) as int),
            ),
        )
    }
}

/// The wrap-around order of two tick counts, as [`Timestamp`] compares them.
pub open spec fn wrap_order(a: nat, b: nat) -> Option<Ordering> {
    if a == b {
        Some(Ordering::Equal)
    } else if wraps_before(a, b) {
        Some(Ordering::Less)
    } else {
        Some(Ordering::Greater)
    }
}

impl PartialOrd for Timestamp {
    /// Compares two timestamps; a difference of [`WRAP_THRESH`] ticks or more
    /// is taken as a wrap-around and reverses the result.
    fn partial_cmp(&self, rhs: &Timestamp) -> (r: Option<Ordering>)
        ensures
            r == wrap_order(self@, rhs@),
    {
        if self.full > rhs.full {
            let diff = self.full - rhs.full;
            if diff < WRAP_THRESH {
                Some(Ordering::Greater)
            } else {
                Some(Ordering::Less)
            }
        } else if self.full < rhs.full {
            let diff = rhs.full - self.full;
            if diff < WRAP_THRESH {
                Some(Ordering::Less)
            } else {
                Some(Ordering::Greater)
            }
        } else {
            Some(Ordering::Equal)
        }
    }
}

impl PartialOrdSpecImpl for Timestamp {
    open spec fn obeys_partial_cmp_spec() -> bool {
        true
    }

    open spec fn partial_cmp_spec(&self, other: &Timestamp) -> Option<Ordering> {
        wrap_order(self@, other@)
    }
}

/// Subtracting what was added gives back the starting timestamp:
/// `(a + b) - b == a` for all timestamps `a` and `b`.
pub proof fn law_add_then_sub(a: nat, b: nat)
    requires
        a <= TIMESTAMP_MAX_FULL,
        b <= TIMESTAMP_MAX_FULL,
    ensures
        wrap_sub(wrap_add(a as int, b as int), b as int) == a,
        wrap_add(wrap_sub(a as int, b as int), b as int) == a,
{
}

/// Addition of timestamps is commutative and has the zero timestamp as its
/// identity, and the sum stays in range.
pub proof fn law_add_commutes(a: nat, b: nat)
    requires
        a <= TIMESTAMP_MAX_FULL,
        b <= TIMESTAMP_MAX_FULL,
    ensures
        wrap_add(a as int, b as int) == wrap_add(b as int, a as int),
        wrap_add(a as int, 0) == a,
        0 <= wrap_add(a as int, b as int) <= TIMESTAMP_MAX_FULL,
        0 <= wrap_sub(a as int, b as int) <= TIMESTAMP_MAX_FULL,
{
}

/// Two timestamps compare one way round exactly when they compare the other
/// way round in reverse, and compare equal only when equal.
pub proof fn law_order_antisymmetric(a: nat, b: nat)
    ensures
        wrap_order(a, b) == Some(Ordering::Less) <==> wrap_order(b, a) == Some(
            Ordering::Greater,
        ),
        wrap_order(a, b) == Some(Ordering::Equal) <==> a == b,
        wrap_order(a, b) is Some,
{
}

/// Advancing a timestamp by fewer than [`WRAP_THRESH`] ticks gives a later
/// timestamp, across the wrap-around too.
pub proof fn law_advance_is_later(a: nat, d: nat)
    requires
        a <= TIMESTAMP_MAX_FULL,
        0 < d < WRAP_THRESH,
    ensures
        wraps_before(a, wrap_add(a as int, d as int) as nat),
{
}

/// The ticks of a duration reduced modulo the timestamp range never exceed
/// the largest timestamp.
pub proof fn law_duration_ticks_bounded(secs: u64, nanos: u32)
    requires
        nanos < 1_000_000_000,
    ensures
        0 <= duration_ticks(secs as int, nanos as int) <= TIMESTAMP_MAX_FULL,
{
    let r = (secs * 1_000_000_000 + nanos) % (RANGE_NANOS as int);
    let rs = r / 1_000_000_000;
    let rn = r % 1_000_000_000;
    assert(0 <= rs <= 95443);
    assert(rs < 95443 ==> rs * 27_000_000 + rn * 27 / 1000 <= TIMESTAMP_MAX_FULL) by (nonlinear_arith)
        requires
            0 <= rn < 1_000_000_000,
            0 <= rs,
    ;
    assert(rs == 95443 ==> rn <= 717_688_887) by (nonlinear_arith)
        requires
            0 <= r < 95_443_717_688_888,
            rs == r / 1_000_000_000,
            rn == r % 1_000_000_000,
    ;
    assert(rs == 95443 ==> rs * 27_000_000 + rn * 27 / 1000 <= TIMESTAMP_MAX_FULL) by (nonlinear_arith)
        requires
            rs == 95443 ==> rn <= 717_688_887,
    ;
    assert(0 <= rs * 27_000_000 + rn * 27 / 1000) by (nonlinear_arith)
        requires
            0 <= rs,
            0 <= rn,
    ;
}

/// Adding a duration and then subtracting it gives back the starting
/// timestamp.
pub proof fn law_add_then_sub_duration(a: nat, secs: u64, nanos: u32)
    requires
        a <= TIMESTAMP_MAX_FULL,
        nanos < 1_000_000_000,
    ensures
        wrap_sub(
            (a + duration_ticks(secs as int, nanos as int)) % (TIMESTAMP_MAX_FULL + 1),
            duration_ticks(secs as int, nanos as int),
        ) == a,
{
    law_duration_ticks_bounded(secs, nanos);
}

/// Converting a timestamp to seconds and nanoseconds and back loses at most
/// one tick.
pub proof fn law_duration_round_trip(full: nat)
    requires
        full <= TIMESTAMP_MAX_FULL,
    ensures
        full - 1 <= saturated_ticks(
            (full / (TICKS_PER_SEC as nat)) as int,
            ((full % (TICKS_PER_SEC as nat)) * 1000 / 27) as int,
        ) <= full,
{
    let s = full / 27_000_000;
    let r = full % 27_000_000;
    let n = r * 1000 / 27;
    assert(r - 1 <= n * 27 / 1000 <= r) by (nonlinear_arith)
        requires
            0 <= r,
            n == r * 1000 / 27,
    ;
    assert(full == s * 27_000_000 + r) by (nonlinear_arith)
        requires
            s == full / 27_000_000,
            r == full % 27_000_000,
    ;
}

/// A timestamp built from a base and an extension gives them back.
pub proof fn law_base_extension(base: nat, extension: nat)
    requires
        base < 0x2_0000_0000,
        extension < 300,
    ensures
        (base * 300 + extension) / 300 == base,
        (base * 300 + extension) % 300 == extension,
        base * 300 + extension <= TIMESTAMP_MAX_FULL,
{
}

/// The 33-bit 90 kHz base of the PCR stored in the six bytes of `s`.
pub open spec fn pcr_base(s: Seq<u8>) -> int {
    be32(s, 0) * 2 + s[4] / 128
}

/// The 9-bit 27 MHz extension of the PCR stored in the six bytes of `s`.
pub open spec fn pcr_extension(s: Seq<u8>) -> int {
    (be16(s, 4) % 512) as int
}

/// The 33-bit PTS or DTS stored in the five bytes of `s`: three bits, then
/// two 15-bit halves, each group followed by a marker bit.
pub open spec fn pts_base(s: Seq<u8>) -> int {
    ((s[0] / 2) % 8) * 0x4000_0000 + (be16(s, 1) / 2) * 0x8000 + be16(s, 3) / 2
}

impl Timestamp {
    /// Reads a PCR: a 33-bit base, six reserved bits and a 9-bit extension.
    /// The extension must be below 300.
    pub fn read_pcr(data: &[u8; 6]) -> (r: Timestamp)
        requires
            pcr_extension(data@) < 300,
        ensures
            r@ == pcr_base(data@) * 300 + pcr_extension(data@),
    {
        let hi: u32 = data[0] as u32 * 0x100_0000 + data[1] as u32 * 0x1_0000 + data[2] as u32
            * 0x100 + data[3] as u32;
        let b4: u8 = data[4];
        let b5: u8 = data[5];
        let base: u64 = ((hi as u64) << 1) | (((b4 & 0x80) >> 7) as u64);
        let ext16: u16 = b4 as u16 * 256 + b5 as u16;
        let extension: u16 = ext16 & 0x1FF;
        assert(base == hi * 2 + b4 / 128) by (bit_vector)
            requires
                base == ((hi as u64) << 1) | (((b4 & 0x80) >> 7) as u64),
        ;
        assert(extension == ext16 % 512) by (bit_vector)
            requires
                extension == ext16 & 0x1FF,
        ;
        Timestamp::new(base, extension)
    }

    /// Reads a PTS or DTS, which has no extension.
    pub fn read_pts(data: &[u8; 5]) -> (r: Timestamp)
        ensures
            r@ == pts_base(data@) * 300,
    {
        let b0: u8 = data[0];
        let mid: u16 = data[1] as u16 * 256 + data[2] as u16;
        let low: u16 = data[3] as u16 * 256 + data[4] as u16;
        let ts: u64 = ((b0 & 0x0E) as u64) << 29 | (((mid & 0xFFFE) as u64) << 14) | ((low
            >> 1) as u64);
        assert(ts == ((b0 / 2) % 8) * 0x4000_0000 + (mid / 2) * 0x8000 + low / 2) by (bit_vector)
            requires
                ts == ((b0 & 0x0E) as u64) << 29 | (((mid & 0xFFFE) as u64) << 14) | ((low
                    >> 1) as u64),
        ;
        Timestamp::new(ts, 0)
    }
}

impl From<Duration> for Timestamp {
    /// Converts with [`Timestamp::from_duration`].
    fn from(value: Duration) -> (r: Timestamp)
        ensures
            r@ == saturated_ticks(
                duration_secs(value) as int,
                duration_subsec_nanos(value) as int,
            ),
    {
        Timestamp::from_duration(value)
    }
}

impl FromSpecImpl<Duration> for Timestamp {
    open spec fn obeys_from_spec() -> bool {
        true
    }

    open spec fn from_spec(v: Duration) -> Timestamp {
        Timestamp::spec_from_ticks(
            saturated_ticks(duration_secs(v) as int, duration_subsec_nanos(v) as int),
        )
    }
}

/// The character of the ASCII code `b`.
pub open spec fn ascii(b: int) -> char {
    b as char
}

/// Two decimal digits of `n` as [`write_hundreds`] writes them: `'0'` plus
/// the tens, then `'0'` plus the units.
pub open spec fn hundreds_text(n: u8) -> Seq<char> {
    seq![ascii(48 + n / 10), ascii(48 + n % 10)]
}

/// The decimal digits of `n`, without leading zeros.
pub open spec fn decimal_text(n: nat) -> Seq<char>
    decreases n,
{
    if n < 10 {
        seq![ascii(48 + n as int)]
    } else {
        decimal_text(n / 10).push(ascii(48 + (n % 10) as int))
    }
}

/// The decimal text of `n`, with a minus sign when negative.
pub open spec fn signed_text(n: int) -> Seq<char> {
    if n < 0 {
        seq!['-'] + decimal_text((-n) as nat)
    } else {
        decimal_text(n as nat)
    }
}

/// The upper-case hexadecimal digit of `d`, below 16.
pub open spec fn hex_digit(d: nat) -> char {
    if d < 10 {
        ascii(48 + d as int)
    } else {
        ascii(55 + d as int)
    }
}

/// The upper-case hexadecimal digits of `n`, without leading zeros.
pub open spec fn hex_text(n: nat) -> Seq<char>
    decreases n,
{
    if n < 16 {
        seq![hex_digit(n)]
    } else {
        hex_text(n / 16).push(hex_digit(n % 16))
    }
}

/// The English abbreviation of a weekday.
pub open spec fn weekday_text(w: Weekday) -> Seq<char> {
    match w {
        Weekday::Mon => seq!['M', 'o', 'n'],
        Weekday::Tue => seq!['T', 'u', 'e'],
        Weekday::Wed => seq!['W', 'e', 'd'],
        Weekday::Thu => seq!['T', 'h', 'u'],
        Weekday::Fri => seq!['F', 'r', 'i'],
        Weekday::Sat => seq!['S', 'a', 't'],
        Weekday::Sun => seq!['S', 'u', 'n'],
    }
}

/// A date as `YYYY-MM-DD`.
pub open spec fn date_text(d: Date) -> Seq<char> {
    signed_text(d.year as int) + seq!['-'] + hundreds_text(d.month) + seq!['-'] + hundreds_text(
        d.day,
    )
}

/// A date as `YYYY-MM-DD (Www)`, with the weekday.
pub open spec fn date_debug_text(d: Date) -> Seq<char> {
    date_text(d) + seq![' ', '('] + weekday_text(d.weekday) + seq![')']
}

/// The text of an invalid modified Julian date: `MjdDate(` and its value in
/// upper-case hexadecimal, then `)`.
pub open spec fn raw_mjd_text(mjd: u16) -> Seq<char> {
    seq!['M', 'j', 'd', 'D', 'a', 't', 'e', '('] + hex_text(mjd as nat) + seq![')']
}

/// A modified Julian date as text: its calendar date, or [`raw_mjd_text`]
/// when it is invalid.
pub open spec fn mjd_text(mjd: u16) -> Seq<char> {
    if mjd_is_valid(mjd) {
        date_text(date_of_mjd(mjd as int))
    } else {
        raw_mjd_text(mjd)
    }
}

/// A modified Julian date as text with the weekday: its calendar date as
/// [`date_debug_text`], or [`raw_mjd_text`] when it is invalid.
pub open spec fn mjd_debug_text(mjd: u16) -> Seq<char> {
    if mjd_is_valid(mjd) {
        date_debug_text(date_of_mjd(mjd as int))
    } else {
        raw_mjd_text(mjd)
    }
}

/// The time of day `HH:MM:SS` of a date and time.
pub open spec fn hms_text(dt: DateTime) -> Seq<char> {
    hundreds_text(dt.hour) + seq![':'] + hundreds_text(dt.minute) + seq![':'] + hundreds_text(
        dt.second,
    )
}

/// Appends the two decimal digits of `n` to `s`; `n` is meant to be below
/// 100.
pub fn write_hundreds(s: &mut String, n: u8)
    ensures
        final(s)@ == old(s)@ + hundreds_text(n),
{
    let h = 48 + n / 10;
    let l = 48 + n % 10;
    push_char(s, h as char);
    push_char(s, l as char);
}

/// Appends the decimal digits of `n` to `s`.
pub(crate) fn write_decimal(s: &mut String, n: u64)
    ensures
        final(s)@ == old(s)@ + decimal_text(n as nat),
    decreases n,
{
    if n >= 10 {
        write_decimal(s, n / 10);
    }
    let d = (48 + n % 10) as u8;
    push_char(s, d as char);
}

/// Appends the upper-case hexadecimal digits of `n` to `s`.
fn write_hex(s: &mut String, n: u16)
    ensures
        final(s)@ == old(s)@ + hex_text(n as nat),
    decreases n,
{
    if n >= 16 {
        write_hex(s, n / 16);
    }
    let d = (n % 16) as u8;
    let c = if d < 10 { 48 + d } else { 55 + d };
    push_char(s, c as char);
}

fn write_weekday(s: &mut String, w: Weekday)
    ensures
        final(s)@ == old(s)@ + weekday_text(w),
{
    let ghost s0 = s@;
    match w {
        Weekday::Mon => {
            push_char(s, 'M');
            push_char(s, 'o');
            push_char(s, 'n');
        },
        Weekday::Tue => {
            push_char(s, 'T');
            push_char(s, 'u');
            push_char(s, 'e');
        },
        Weekday::Wed => {
            push_char(s, 'W');
            push_char(s, 'e');
            push_char(s, 'd');
        },
        Weekday::Thu => {
            push_char(s, 'T');
            push_char(s, 'h');
            push_char(s, 'u');
        },
        Weekday::Fri => {
            push_char(s, 'F');
            push_char(s, 'r');
            push_char(s, 'i');
        },
        Weekday::Sat => {
            push_char(s, 'S');
            push_char(s, 'a');
            push_char(s, 't');
        },
        Weekday::Sun => {
            push_char(s, 'S');
            push_char(s, 'u');
            push_char(s, 'n');
        },
    }
    assert(s@ =~= s0 + weekday_text(w));
}

fn write_date(s: &mut String, d: &Date)
    ensures
        final(s)@ == old(s)@ + date_text(*d),
{
    let ghost s0 = s@;
    if d.year < 0 {
        push_char(s, '-');
        write_decimal(s, (0 - d.year as i64) as u64);
    } else {
        write_decimal(s, d.year as u64);
    }
    assert(s@ =~= s0 + signed_text(d.year as int));
    push_char(s, '-');
    write_hundreds(s, d.month);
    push_char(s, '-');
    write_hundreds(s, d.day);
    assert(s@ =~= s0 + date_text(*d));
}

fn write_date_debug(s: &mut String, d: &Date)
    ensures
        final(s)@ == old(s)@ + date_debug_text(*d),
{
    let ghost s0 = s@;
    write_date(s, d);
    push_char(s, ' ');
    push_char(s, '(');
    write_weekday(s, d.weekday);
    push_char(s, ')');
    assert(s@ =~= s0 + date_debug_text(*d));
}

fn write_raw_mjd(s: &mut String, mjd: u16)
    ensures
        final(s)@ == old(s)@ + raw_mjd_text(mjd),
{
    let ghost s0 = s@;
    push_char(s, 'M');
    push_char(s, 'j');
    push_char(s, 'd');
    push_char(s, 'D');
    push_char(s, 'a');
    push_char(s, 't');
    push_char(s, 'e');
    push_char(s, '(');
    write_hex(s, mjd);
    push_char(s, ')');
    assert(s@ =~= s0 + raw_mjd_text(mjd));
}

fn write_mjd(s: &mut String, mjd: &MjdDate, with_weekday: bool)
    ensures
        final(s)@ == old(s)@ + if with_weekday {
            mjd_debug_text(mjd.0)
        } else {
            mjd_text(mjd.0)
        },
{
    match mjd.to_date() {
        Some(date) => {
            if with_weekday {
                write_date_debug(s, &date);
            } else {
                write_date(s, &date);
            }
        },
        None => write_raw_mjd(s, mjd.0),
    }
}

fn write_hms(s: &mut String, dt: &DateTime)
    ensures
        final(s)@ == old(s)@ + hms_text(*dt),
{
    let ghost s0 = s@;
    write_hundreds(s, dt.hour);
    push_char(s, ':');
    write_hundreds(s, dt.minute);
    push_char(s, ':');
    write_hundreds(s, dt.second);
    assert(s@ =~= s0 + hms_text(*dt));
}

impl Date {
    /// The date as `YYYY-MM-DD`.
    pub fn to_string(&self) -> (r: String)
        ensures
            r@ == date_text(*self),
    {
        let mut s = String::new();
        write_date(&mut s, self);
        s
    }

    /// The date as `YYYY-MM-DD (Www)`, with the weekday.
    pub fn to_debug_string(&self) -> (r: String)
        ensures
            r@ == date_debug_text(*self),
    {
        let mut s = String::new();
        write_date_debug(&mut s, self);
        s
    }
}

impl MjdDate {
    /// The date as `YYYY-MM-DD`, or `MjdDate(XXXX)` with the raw value in
    /// hexadecimal when it is invalid.
    pub fn to_string(&self) -> (r: String)
        ensures
            r@ == mjd_text(self.0),
    {
        let mut s = String::new();
        write_mjd(&mut s, self, false);
        s
    }

    /// The date as `YYYY-MM-DD (Www)`, or `MjdDate(XXXX)` when it is invalid.
    pub fn to_debug_string(&self) -> (r: String)
        ensures
            r@ == mjd_debug_text(self.0),
    {
        let mut s = String::new();
        write_mjd(&mut s, self, true);
        s
    }
}

impl DateTime {
    /// The date and time as `YYYY-MM-DD HH:MM:SS`.
    pub fn to_string(&self) -> (r: String)
        ensures
            r@ == mjd_text(self.date.0) + seq![' '] + hms_text(*self),
    {
        let mut s = String::new();
        write_mjd(&mut s, &self.date, false);
        push_char(&mut s, ' ');
        write_hms(&mut s, self);
        s
    }

    /// The date and time as `YYYY-MM-DD (Www) HH:MM:SS`, with the weekday.
    pub fn to_debug_string(&self) -> (r: String)
        ensures
            r@ == mjd_debug_text(self.date.0) + seq![' '] + hms_text(*self),
    {
        let mut s = String::new();
        write_mjd(&mut s, &self.date, true);
        push_char(&mut s, ' ');
        write_hms(&mut s, self);
        s
    }
}

} // verus!
