use std::time::Duration;

use tavoo::isdb::time::{Date, DateTime, MjdDate, Timestamp, Weekday};

#[test]
fn test_date_time() {
    // MJD = 45218, HMS = 12:34:56
    let mjd_date = MjdDate::read(&[0xB0, 0xA2]);
    assert_eq!(mjd_date, MjdDate(0xB0A2));

    assert_eq!(
        mjd_date.to_date(),
        Some(Date {
            year: 1982,
            month: 9,
            day: 6,
            weekday: Weekday::Mon
        })
    );
    assert_eq!(mjd_date.to_date().unwrap().to_string(), "1982-09-06");
    assert_eq!(mjd_date.to_string(), "1982-09-06");
    assert_eq!(mjd_date.to_debug_string(), "1982-09-06 (Mon)");

    let mjd_date = MjdDate(15079);
    assert_eq!(
        mjd_date.to_date(),
        Some(Date {
            year: 1900,
            month: 3,
            day: 1,
            weekday: Weekday::Thu,
        })
    );

    let mjd_date = MjdDate(0xFFFF);
    assert_eq!(mjd_date.to_date(), None);
    assert_eq!(mjd_date.to_string(), "MjdDate(FFFF)");
    assert_eq!(mjd_date.to_debug_string(), "MjdDate(FFFF)");

    let dt = DateTime::read(&[0xB0, 0xA2, 0x12, 0x34, 0x56]);
    assert_eq!(dt.date, MjdDate(0xB0A2));
    assert_eq!(dt.hour, 12);
    assert_eq!(dt.minute, 34);
    assert_eq!(dt.second, 56);
    assert_eq!(dt.to_string(), "1982-09-06 12:34:56");
    assert_eq!(dt.to_debug_string(), "1982-09-06 (Mon) 12:34:56");
}

/// The conversion of ARIB STD-B10 appendix C computed in single precision.
fn date_by_float(mjd: u16) -> Option<(i32, u8, u8, u16)> {
    if mjd == u16::MAX || mjd < 15079 {
        return None;
    }
    let yd = ((mjd as f32 - 15078.2) / 365.25) as i32;
    let md = ((mjd as f32 - 14956.1 - (yd as f32 * 365.25) as u16 as f32) / 30.6001) as u8;
    let day = (mjd as i32 - 14956 - (yd as f32 * 365.25) as i32 - (md as f32 * 30.6001) as i32)
        as u8;
    let (year, month) = if md == 14 || md == 15 {
        (yd + 1901, md - 1 - 12)
    } else {
        (yd + 1900, md - 1)
    };
    Some((year, month, day, ((mjd as u32 + 2) % 7) as u16))
}

fn weekday_number(w: Weekday) -> u16 {
    match w {
        Weekday::Mon => 0,
        Weekday::Tue => 1,
        Weekday::Wed => 2,
        Weekday::Thu => 3,
        Weekday::Fri => 4,
        Weekday::Sat => 5,
        Weekday::Sun => 6,
    }
}

#[test]
fn mjd_conversion_matches_float_formula() {
    for mjd in 0..=0xFFFEu16 {
        let exact = MjdDate(mjd)
            .to_date()
            .map(|d| (d.year, d.month, d.day, weekday_number(d.weekday)));
        assert_eq!(exact, date_by_float(mjd), "MJD {}", mjd);
    }
    assert_eq!(MjdDate(0xFFFF).to_date(), None);
}

#[test]
fn mjd_dates_are_valid_calendar_dates() {
    for mjd in 15079..=0xFFFEu16 {
        let d = MjdDate(mjd).to_date().unwrap();
        assert!((1..=12).contains(&d.month));
        assert!((1..=31).contains(&d.day));
    }
    assert_eq!(MjdDate(15078).to_date(), None);
    let last = MjdDate(0xFFFE).to_date().unwrap();
    assert_eq!((last.year, last.month, last.day), (2038, 4, 21));
    assert_eq!(last.weekday, Weekday::Wed);
    assert_eq!(MjdDate(0xFFFE).to_string(), "2038-04-21");
}

#[test]
fn date_time_reads_bcd() {
    let dt = DateTime::read(&[0xC0, 0x79, 0x00, 0x05, 0x59]);
    assert_eq!(dt.date, MjdDate(0xC079));
    assert_eq!((dt.hour, dt.minute, dt.second), (0, 5, 59));
    assert_eq!(dt.to_string(), "1993-10-13 00:05:59");
}

#[test]
fn date_text_of_negative_year() {
    let d = Date { year: -45, month: 1, day: 2, weekday: Weekday::Sun };
    assert_eq!(d.to_string(), "-45-01-02");
    assert_eq!(d.to_debug_string(), "-45-01-02 (Sun)");
}

#[test]
fn invalid_mjd_text_is_hexadecimal() {
    assert_eq!(MjdDate(0x0ABC).to_string(), "MjdDate(ABC)");
    assert_eq!(MjdDate(0).to_string(), "MjdDate(0)");
}

#[test]
fn timestamp_arithmetic() {
    let t = |b: u64, e: u16| Timestamp::new(b, e);
    assert_eq!(t(100, 10) + t(200, 20), t(300, 30));
    assert_eq!(t(10, 100) + t(20, 200), t(31, 0));
    assert_eq!(t(300, 30) - t(200, 20), t(100, 10));
    assert_eq!(t(31, 0) - t(20, 200), t(10, 100));
    assert!(t(100, 10) < t(100, 11));
    assert!(t(100, 11) > t(100, 10));

    assert_eq!(Timestamp::max() + t(0, 1), Timestamp::zero());
    assert_eq!(Timestamp::max() + Timestamp::max(), t(2u64.pow(33) - 1, 298));
    assert_eq!(Timestamp::zero() - t(0, 1), Timestamp::max());
    assert_eq!(t(1, 0) - t(2, 0), t(2u64.pow(33) - 1, 0));

    assert!(t(2u64.pow(33) - 100, 299) < Timestamp::zero());
    assert!(Timestamp::zero() > t(2u64.pow(33) - 100, 0));
}

#[test]
fn timestamp_duration_arithmetic() {
    let zero = Timestamp::zero();
    let max = Timestamp::max();
    assert_eq!(zero + Duration::from_secs(1), Timestamp::from_full(27_000_000));
    assert_eq!(max + Duration::from_secs(1), Timestamp::from_full(27_000_000 - 1));
    assert_eq!(zero + Duration::new(95443, 717688887), max);
    assert_eq!(zero + Duration::new(95443, 717688888), zero);
    assert_eq!(zero + Duration::new(190887, 435377775), max);
    assert_eq!(zero + Duration::new(190887, 435377776), zero);
    assert_eq!(
        Timestamp::from_duration(Duration::from_secs(1)) - Duration::from_secs(1),
        zero,
    );
    assert_eq!(
        zero - Duration::from_secs(1),
        Timestamp::from_full(max.full() - (27_000_000 - 1)),
    );
    assert_eq!(zero - Duration::new(95443, 717688887), Timestamp::from_full(1));
    assert_eq!(zero - Duration::new(95443, 717688888), zero);
    assert_eq!(zero - Duration::new(190887, 435377775), Timestamp::from_full(1));
    assert_eq!(zero - Duration::new(190887, 435377776), zero);
}

#[test]
fn timestamp_add_then_sub_duration() {
    let t = Timestamp::new(123_456, 78);
    for d in [
        Duration::ZERO,
        Duration::new(1, 5),
        Duration::new(95443, 717688887),
        Duration::new(1_000_000, 999_999_999),
        Duration::new(u64::MAX, 999_999_999),
    ] {
        assert_eq!((t + d) - d, t);
    }
}

#[test]
fn timestamp_from_full_and_parts() {
    assert_eq!(Timestamp::from_full(123456789), Timestamp::new(411522, 189));
    assert_eq!(Timestamp::from_full(Timestamp::zero().full()), Timestamp::zero());
    assert_eq!(Timestamp::from_full(Timestamp::max().full()), Timestamp::max());

    assert_eq!(Timestamp::new(411522, 189).full(), 123456789);
    assert_eq!(Timestamp::zero().full(), 0);
    assert_eq!(Timestamp::max().full(), 2576980377599);

    assert_eq!(Timestamp::new(100, 10).base(), 100);
    assert_eq!(Timestamp::zero().base(), 0);
    assert_eq!(Timestamp::max().base(), 2u64.pow(33) - 1);

    assert_eq!(Timestamp::new(100, 10).extension(), 10);
    assert_eq!(Timestamp::zero().extension(), 0);
    assert_eq!(Timestamp::max().extension(), 299);

    assert_eq!(Timestamp::try_new(2u64.pow(33), 0), None);
    assert_eq!(Timestamp::try_new(0, 300), None);
    assert_eq!(Timestamp::try_new(5, 6), Some(Timestamp::new(5, 6)));
    assert_eq!(Timestamp::default(), Timestamp::zero());
}

#[test]
fn timestamp_seconds_and_nanos() {
    assert_eq!(Timestamp::new(500_000, 10).as_secs(), 5);
    assert_eq!(Timestamp::zero().as_secs(), 0);
    assert_eq!(Timestamp::max().as_secs(), 95443);
    assert_eq!(Timestamp::from(Duration::from_secs_f32(123.456789)).as_secs(), 123);

    assert_eq!(Timestamp::new(500_000, 10).as_nanos(), 5555555925);
    assert_eq!(Timestamp::zero().as_nanos(), 0);
    assert_eq!(Timestamp::max().as_nanos(), 95443717688851);
    assert_eq!(Timestamp::from(Duration::new(100, 50)).as_nanos(), 100000000037);

    assert_eq!(Timestamp::new(100, 10).to_duration(), Duration::from_nanos(1111481));
    assert_eq!(Timestamp::max().to_duration(), Duration::new(95443, 717688851));
    assert_eq!(Timestamp::new(100, 10).to_secs_nanos(), (0, 1111481));
}

#[test]
fn timestamp_from_duration() {
    assert_eq!(Timestamp::from_duration(Duration::ZERO), Timestamp::zero());
    assert_eq!(
        Timestamp::from_duration(Duration::new(123, 456789000)),
        Timestamp::from_full((123.456789 * 27_000_000.) as u64),
    );
    assert_eq!(
        Timestamp::from_duration(Duration::new(u64::MAX, 999_999_999)),
        Timestamp::max(),
    );
    assert_eq!(Timestamp::from_secs_nanos(1, 0), Timestamp::from_full(27_000_000));
    let t = Timestamp::new(777, 123);
    let back = Timestamp::from_duration(t.to_duration());
    assert!(back.full() == t.full() || back.full() + 1 == t.full());
}

#[test]
fn timestamp_read_pcr_and_pts() {
    // base 0x1_2345_6789 >> 1 = ..., extension 0x0AB
    let pcr = Timestamp::read_pcr(&[0x12, 0x34, 0x56, 0x78, 0x80 | 0x7E, 0xAB]);
    assert_eq!(pcr.base(), (0x12345678u64 << 1) | 1);
    assert_eq!(pcr.extension(), 0xAB);

    // PTS 0x1_2345_6789 coded with marker bits
    let v: u64 = 0x1_2345_6789;
    let b0 = (((v >> 30) & 0x07) << 1) as u8 | 0x21;
    let mid = ((((v >> 15) & 0x7FFF) << 1) | 1) as u16;
    let low = (((v & 0x7FFF) << 1) | 1) as u16;
    let data = [b0, (mid >> 8) as u8, mid as u8, (low >> 8) as u8, low as u8];
    let pts = Timestamp::read_pts(&data);
    assert_eq!(pts.base(), v);
    assert_eq!(pts.extension(), 0);
}

#[test]
fn timestamp_wraparound_order() {
    let a = Timestamp::new(10, 0);
    let later = a + Timestamp::from_full(1_000);
    assert!(a < later);
    let near_end = Timestamp::from_full(Timestamp::max().full() - 10);
    let wrapped = near_end + Timestamp::from_full(100);
    assert!(near_end < wrapped);
    assert!(wrapped > near_end);
    assert_eq!(a.partial_cmp(&a), Some(std::cmp::Ordering::Equal));
}

#[test]
fn timestamp_assign_operators() {
    let mut t = Timestamp::new(10, 0);
    t += Timestamp::new(5, 299);
    assert_eq!(t, Timestamp::new(15, 299));
    t -= Timestamp::new(16, 0);
    assert_eq!(t, Timestamp::max());
    t += Timestamp::new(0, 1);
    assert_eq!(t, Timestamp::zero());
}
