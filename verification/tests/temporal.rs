use chrono::{Datelike, Duration, NaiveDate, NaiveDateTime, NaiveTime, Timelike};
use sqlx_core::calendar::{MAX_DAY, MIN_DAY};
use sqlx_core::catalog::Postgres;
use sqlx_core::codec::{Decode, Encode};
use sqlx_core::error::{DecodeError, EncodeError};
use sqlx_core::temporal::{
    encode_day_offset, postgres_epoch, Date, Time, Timestamp, TimestampTz, EPOCH_DAY,
};

fn to_chrono(stamp: Timestamp) -> NaiveDateTime {
    let date = NaiveDate::from_num_days_from_ce_opt(stamp.date().day_number()).unwrap();
    let time = NaiveTime::from_num_seconds_from_midnight_opt(
        stamp.time().seconds_from_midnight(),
        stamp.time().nanosecond(),
    )
    .unwrap();
    date.and_time(time)
}

fn from_chrono(stamp: NaiveDateTime) -> Timestamp {
    let date = Date::from_day_number(stamp.num_days_from_ce()).unwrap();
    let time = Time::from_seconds(stamp.num_seconds_from_midnight(), stamp.nanosecond()).unwrap();
    Timestamp::new(date, time)
}

fn encoded<T: Encode<Postgres>>(value: &T) -> Vec<u8> {
    let mut buf = Vec::new();
    Encode::<Postgres>::encode(value, &mut buf).unwrap();
    buf
}

#[test]
fn test_encode_datetime() {
    let mut buf = Vec::new();

    let date = postgres_epoch();
    Encode::<Postgres>::encode(&date, &mut buf).unwrap();
    assert_eq!(buf, [0; 8]);
    buf.clear();

    // one hour past epoch
    let date2 =
        TimestampTz::from_utc(from_chrono(to_chrono(postgres_epoch().naive_utc()) + Duration::hours(1)));
    Encode::<Postgres>::encode(&date2, &mut buf).unwrap();
    assert_eq!(buf, 3_600_000_000i64.to_be_bytes());
    buf.clear();

    // some random date
    let parsed: NaiveDateTime = "2019-12-11T11:01:05".parse().unwrap();
    let date3: Timestamp = from_chrono(parsed);
    let expected = (parsed - to_chrono(postgres_epoch().naive_utc())).num_microseconds().unwrap();
    Encode::<Postgres>::encode(&date3, &mut buf).unwrap();
    assert_eq!(buf, expected.to_be_bytes());
    buf.clear();
}

#[test]
fn test_decode_datetime() {
    let buf = [0u8; 8];
    let date: Timestamp = Decode::<Postgres>::decode(&buf).unwrap();
    assert_eq!(date.to_string(), "2000-01-01 00:00:00");

    let buf = 3_600_000_000i64.to_be_bytes();
    let date: Timestamp = Decode::<Postgres>::decode(&buf).unwrap();
    assert_eq!(date.to_string(), "2000-01-01 01:00:00");

    let buf = 629_377_265_000_000i64.to_be_bytes();
    let date: Timestamp = Decode::<Postgres>::decode(&buf).unwrap();
    assert_eq!(date.to_string(), "2019-12-11 11:01:05");
}

#[test]
fn test_encode_date() {
    let mut buf = Vec::new();

    let date = Date::from_ymd(2000, 1, 1).unwrap();
    Encode::<Postgres>::encode(&date, &mut buf).unwrap();
    assert_eq!(buf, [0; 4]);
    buf.clear();

    let date2 = Date::from_ymd(2001, 1, 1).unwrap();
    Encode::<Postgres>::encode(&date2, &mut buf).unwrap();
    // 2000 was a leap year
    assert_eq!(buf, 366i32.to_be_bytes());
    buf.clear();

    let date3 = Date::from_ymd(2019, 12, 11).unwrap();
    Encode::<Postgres>::encode(&date3, &mut buf).unwrap();
    assert_eq!(buf, 7284i32.to_be_bytes());
    buf.clear();
}

#[test]
fn test_decode_date() {
    let buf = [0; 4];
    let date: Date = Decode::<Postgres>::decode(&buf).unwrap();
    assert_eq!(date.to_string(), "2000-01-01");

    let buf = 366i32.to_be_bytes();
    let date: Date = Decode::<Postgres>::decode(&buf).unwrap();
    assert_eq!(date.to_string(), "2001-01-01");

    let buf = 7284i32.to_be_bytes();
    let date: Date = Decode::<Postgres>::decode(&buf).unwrap();
    assert_eq!(date.to_string(), "2019-12-11");
}

#[test]
fn calendar_bounds_are_those_of_chrono() {
    assert_eq!(MIN_DAY, NaiveDate::MIN.num_days_from_ce());
    assert_eq!(MAX_DAY, NaiveDate::MAX.num_days_from_ce());
    assert_eq!(EPOCH_DAY, NaiveDate::from_ymd_opt(2000, 1, 1).unwrap().num_days_from_ce());
    assert!(NaiveDate::from_num_days_from_ce_opt(MIN_DAY - 1).is_none());
    assert!(NaiveDate::from_num_days_from_ce_opt(MAX_DAY + 1).is_none());
    assert!(Date::from_day_number(MIN_DAY).is_some());
    assert!(Date::from_day_number(MAX_DAY).is_some());
    assert!(Date::from_day_number(MIN_DAY - 1).is_none());
    assert!(Date::from_day_number(MAX_DAY + 1).is_none());
}

#[test]
fn epoch_is_the_start_of_the_year_2000() {
    let epoch = postgres_epoch();
    assert_eq!(epoch.offset_seconds(), 0);
    assert_eq!(epoch.naive_utc().date().day_number(), 730_120);
    assert_eq!(epoch.naive_utc().time(), Time::midnight());
    assert_eq!(epoch.naive_utc().to_string(), "2000-01-01 00:00:00");
    assert_eq!(epoch.naive_utc(), Timestamp::from_ymd_hms(2000, 1, 1, 0, 0, 0).unwrap());
}

#[test]
fn epoch_fixed_points() {
    assert_eq!(encoded(&postgres_epoch()), vec![0u8; 8]);
    assert_eq!(encoded(&postgres_epoch().naive_utc()), vec![0u8; 8]);
    assert_eq!(encoded(&Date::from_ymd(2000, 1, 1).unwrap()), vec![0u8; 4]);
    assert_eq!(encoded(&Time::midnight()), vec![0u8; 8]);

    let stamp: TimestampTz = Decode::<Postgres>::decode(&[0u8; 8]).unwrap();
    assert_eq!(stamp, postgres_epoch());
    let stamp: Timestamp = Decode::<Postgres>::decode(&[0u8; 8]).unwrap();
    assert_eq!(stamp, postgres_epoch().naive_utc());
    let date: Date = Decode::<Postgres>::decode(&[0u8; 4]).unwrap();
    assert_eq!(date, Date::from_ymd(2000, 1, 1).unwrap());
    let time: Time = Decode::<Postgres>::decode(&[0u8; 8]).unwrap();
    assert_eq!(time, Time::midnight());
}

#[test]
fn one_hour_past_epoch() {
    let stamp = Timestamp::from_ymd_hms(2000, 1, 1, 1, 0, 0).unwrap();
    assert_eq!(encoded(&stamp), vec![0, 0, 0, 0, 0xd6, 0x93, 0xa4, 0x00]);
    let back: Timestamp = Decode::<Postgres>::decode(&3_600_000_000i64.to_be_bytes()).unwrap();
    assert_eq!(back, stamp);
    assert_eq!(to_chrono(back) - to_chrono(postgres_epoch().naive_utc()), Duration::hours(1));
}

#[test]
fn dates_before_the_epoch_are_negative() {
    let date = Date::from_ymd(1999, 12, 31).unwrap();
    assert_eq!(encoded(&date), (-1i32).to_be_bytes());
    assert_eq!(encoded(&date), vec![0xff, 0xff, 0xff, 0xff]);
    let date = Date::from_ymd(1970, 1, 1).unwrap();
    assert_eq!(encoded(&date), (-10_957i32).to_be_bytes());
    let back: Date = Decode::<Postgres>::decode(&(-10_957i32).to_be_bytes()).unwrap();
    assert_eq!(back.to_string(), "1970-01-01");

    let stamp = Timestamp::from_ymd_hms(1999, 12, 31, 23, 59, 59).unwrap();
    assert_eq!(encoded(&stamp), (-1_000_000i64).to_be_bytes());
    let back: Timestamp = Decode::<Postgres>::decode(&(-1i64).to_be_bytes()).unwrap();
    assert_eq!(back.to_string(), "1999-12-31 23:59:59.999999");
}

#[test]
fn date_offset_out_of_range_is_refused() {
    let mut buf = vec![9u8];
    assert_eq!(encode_day_offset(i32::MAX as i64 + 1, &mut buf), Err(EncodeError::OutOfRange));
    assert_eq!(encode_day_offset(i32::MIN as i64 - 1, &mut buf), Err(EncodeError::OutOfRange));
    assert_eq!(encode_day_offset(i64::MAX, &mut buf), Err(EncodeError::OutOfRange));
    assert_eq!(buf, vec![9u8]);
    assert_eq!(encode_day_offset(i32::MAX as i64, &mut buf), Ok(()));
    assert_eq!(buf, vec![9u8, 0x7f, 0xff, 0xff, 0xff]);
    assert_eq!(encode_day_offset(i32::MIN as i64, &mut buf), Ok(()));
    assert_eq!(buf, vec![9u8, 0x7f, 0xff, 0xff, 0xff, 0x80, 0, 0, 0]);
}

#[test]
fn every_date_of_the_calendar_has_wire_bytes() {
    let first = Date::from_day_number(MIN_DAY).unwrap();
    let last = Date::from_day_number(MAX_DAY).unwrap();
    assert_eq!(encoded(&first), (MIN_DAY - EPOCH_DAY).to_be_bytes());
    assert_eq!(encoded(&last), (MAX_DAY - EPOCH_DAY).to_be_bytes());
    let back: Date = Decode::<Postgres>::decode(&encoded(&first)).unwrap();
    assert_eq!(back, first);
    let back: Date = Decode::<Postgres>::decode(&encoded(&last)).unwrap();
    assert_eq!(back, last);
}

#[test]
fn decode_date_out_of_range() {
    let r: Result<Date, DecodeError> = Decode::<Postgres>::decode(&i32::MAX.to_be_bytes());
    assert_eq!(r, Err(DecodeError::OutOfRange));
    let r: Result<Date, DecodeError> = Decode::<Postgres>::decode(&i32::MIN.to_be_bytes());
    assert_eq!(r, Err(DecodeError::OutOfRange));
    let r: Result<Date, DecodeError> =
        Decode::<Postgres>::decode(&(MAX_DAY - EPOCH_DAY + 1).to_be_bytes());
    assert_eq!(r, Err(DecodeError::OutOfRange));
    let r: Result<Date, DecodeError> =
        Decode::<Postgres>::decode(&(MIN_DAY - EPOCH_DAY - 1).to_be_bytes());
    assert_eq!(r, Err(DecodeError::OutOfRange));
}

#[test]
fn decode_timestamp_out_of_range() {
    let r: Result<Timestamp, DecodeError> = Decode::<Postgres>::decode(&i64::MAX.to_be_bytes());
    assert_eq!(r, Err(DecodeError::OutOfRange));
    let r: Result<Timestamp, DecodeError> = Decode::<Postgres>::decode(&i64::MIN.to_be_bytes());
    assert_eq!(r, Err(DecodeError::OutOfRange));
    let r: Result<TimestampTz, DecodeError> = Decode::<Postgres>::decode(&i64::MIN.to_be_bytes());
    assert_eq!(r, Err(DecodeError::OutOfRange));

    let last = (MAX_DAY - EPOCH_DAY) as i64 * 86_400_000_000 + 86_399_999_999;
    let stamp: Timestamp = Decode::<Postgres>::decode(&last.to_be_bytes()).unwrap();
    assert_eq!(stamp.date().day_number(), MAX_DAY);
    assert_eq!(stamp.time(), Time::from_seconds(86_399, 999_999_000).unwrap());
    assert_eq!(to_chrono(stamp).date(), NaiveDate::MAX);
    let r: Result<Timestamp, DecodeError> = Decode::<Postgres>::decode(&(last + 1).to_be_bytes());
    assert_eq!(r, Err(DecodeError::OutOfRange));

    let first = (MIN_DAY - EPOCH_DAY) as i64 * 86_400_000_000;
    let stamp: Timestamp = Decode::<Postgres>::decode(&first.to_be_bytes()).unwrap();
    assert_eq!(to_chrono(stamp), NaiveDateTime::MIN);
    let r: Result<Timestamp, DecodeError> = Decode::<Postgres>::decode(&(first - 1).to_be_bytes());
    assert_eq!(r, Err(DecodeError::OutOfRange));
}

#[test]
fn wrong_length_is_malformed() {
    let r: Result<Date, DecodeError> = Decode::<Postgres>::decode(&[0u8; 3]);
    assert_eq!(r, Err(DecodeError::Malformed));
    let r: Result<Date, DecodeError> = Decode::<Postgres>::decode(&[0u8; 8]);
    assert_eq!(r, Err(DecodeError::Malformed));
    let r: Result<Time, DecodeError> = Decode::<Postgres>::decode(&[0u8; 4]);
    assert_eq!(r, Err(DecodeError::Malformed));
    let r: Result<Timestamp, DecodeError> = Decode::<Postgres>::decode(&[0u8; 9]);
    assert_eq!(r, Err(DecodeError::Malformed));
    let r: Result<TimestampTz, DecodeError> = Decode::<Postgres>::decode(&[]);
    assert_eq!(r, Err(DecodeError::Malformed));
}

#[test]
fn time_of_day_is_microseconds_since_midnight() {
    let time = Time::from_hms(1, 0, 0).unwrap();
    assert_eq!(encoded(&time), 3_600_000_000i64.to_be_bytes());
    let time = Time::from_seconds(86_399, 999_999_999).unwrap();
    assert_eq!(encoded(&time), 86_399_999_999i64.to_be_bytes());
    let time = Time::from_seconds(12 * 3600 + 34 * 60 + 56, 789_000).unwrap();
    assert_eq!(encoded(&time), 45_296_000_789i64.to_be_bytes());

    let back: Time = Decode::<Postgres>::decode(&45_296_000_789i64.to_be_bytes()).unwrap();
    assert_eq!(back, time);
    assert_eq!(back.to_string(), "12:34:56.000789");
    assert_eq!(back.seconds_from_midnight(), 45_296);
    assert_eq!(back.nanosecond(), 789_000);
}

#[test]
fn time_of_day_drops_whole_days() {
    let back: Time = Decode::<Postgres>::decode(&86_400_000_000i64.to_be_bytes()).unwrap();
    assert_eq!(back, Time::midnight());
    let back: Time = Decode::<Postgres>::decode(&(-1i64).to_be_bytes()).unwrap();
    assert_eq!(back, Time::from_seconds(86_399, 999_999_000).unwrap());
    let back: Time = Decode::<Postgres>::decode(&i64::MIN.to_be_bytes()).unwrap();
    let expected = NaiveTime::MIN + Duration::microseconds(i64::MIN);
    assert_eq!(back.seconds_from_midnight(), expected.num_seconds_from_midnight());
    assert_eq!(back.nanosecond(), expected.nanosecond());
    let back: Time = Decode::<Postgres>::decode(&i64::MAX.to_be_bytes()).unwrap();
    let expected = NaiveTime::MIN + Duration::microseconds(i64::MAX);
    assert_eq!(back.seconds_from_midnight(), expected.num_seconds_from_midnight());
    assert_eq!(back.nanosecond(), expected.nanosecond());
}

#[test]
fn leap_second_counts_past_the_minute() {
    let leap = Time::from_seconds(86_399, 1_500_000_000).unwrap();
    assert_eq!(encoded(&leap), 86_400_500_000i64.to_be_bytes());
    let chrono_leap = NaiveTime::from_num_seconds_from_midnight_opt(86_399, 1_500_000_000).unwrap();
    assert_eq!((chrono_leap - NaiveTime::MIN).num_microseconds(), Some(86_400_500_000));
    assert_eq!(leap.to_string(), "23:59:60.500");

    let stamp = Timestamp::new(Date::from_ymd(2000, 1, 1).unwrap(), leap);
    assert_eq!(encoded(&stamp), 86_400_500_000i64.to_be_bytes());
    let back: Timestamp = Decode::<Postgres>::decode(&encoded(&stamp)).unwrap();
    assert_eq!(back.to_string(), "2000-01-02 00:00:00.500");

    assert!(Time::from_seconds(86_398, 1_000_000_000).is_none());
    assert!(Time::from_seconds(86_400, 0).is_none());
    assert!(Time::from_seconds(0, 2_000_000_000).is_none());
    assert!(Time::from_seconds(59, 1_999_999_999).is_some());
}

#[test]
fn fractions_of_a_microsecond_are_cut_toward_zero() {
    let time = Time::from_seconds(0, 1_999).unwrap();
    assert_eq!(encoded(&time), 1i64.to_be_bytes());

    let after = Timestamp::new(
        Date::from_ymd(2000, 1, 1).unwrap(),
        Time::from_seconds(0, 999).unwrap(),
    );
    assert_eq!(encoded(&after), 0i64.to_be_bytes());

    let before = Timestamp::new(
        Date::from_ymd(1999, 12, 31).unwrap(),
        Time::from_seconds(86_399, 999_999_999).unwrap(),
    );
    assert_eq!(encoded(&before), 0i64.to_be_bytes());
    let expected =
        (to_chrono(before) - to_chrono(postgres_epoch().naive_utc())).num_microseconds().unwrap();
    assert_eq!(expected, 0);

    let before = Timestamp::new(
        Date::from_ymd(1999, 12, 31).unwrap(),
        Time::from_seconds(86_399, 999_998_001).unwrap(),
    );
    assert_eq!(encoded(&before), (-1i64).to_be_bytes());
}

#[test]
fn timestamps_agree_with_chrono() {
    let samples = [
        "2019-12-11T11:01:05",
        "1969-07-20T20:17:40",
        "0001-01-01T00:00:00",
        "9999-12-31T23:59:59.999999",
        "2000-02-29T12:00:00.000001",
        "1999-12-31T23:59:59.5",
    ];
    let epoch = to_chrono(postgres_epoch().naive_utc());
    for sample in samples {
        let parsed: NaiveDateTime = sample.parse().unwrap();
        let stamp = from_chrono(parsed);
        let micros = (parsed - epoch).num_microseconds().unwrap();
        assert_eq!(encoded(&stamp), micros.to_be_bytes());
        let back: Timestamp = Decode::<Postgres>::decode(&micros.to_be_bytes()).unwrap();
        assert_eq!(back, stamp);
        assert_eq!(to_chrono(back), epoch.checked_add_signed(Duration::microseconds(micros)).unwrap());
        assert_eq!(back.to_string(), parsed.to_string());
    }
}

#[test]
fn dates_agree_with_chrono() {
    let epoch = NaiveDate::from_ymd_opt(2000, 1, 1).unwrap();
    for (y, m, d) in [(2000, 2, 29), (1900, 3, 1), (1, 1, 1), (-44, 3, 15), (262_142, 12, 31)] {
        let theirs = NaiveDate::from_ymd_opt(y, m, d).unwrap();
        let ours = Date::from_ymd(y, m, d).unwrap();
        assert_eq!(ours.day_number(), theirs.num_days_from_ce());
        let days = theirs.signed_duration_since(epoch).num_days() as i32;
        assert_eq!(encoded(&ours), days.to_be_bytes());
        let back: Date = Decode::<Postgres>::decode(&days.to_be_bytes()).unwrap();
        assert_eq!(back, ours);
        assert_eq!(back.to_string(), theirs.to_string());
    }
}

#[test]
fn no_such_date_or_time() {
    assert!(Date::from_ymd(2019, 2, 29).is_none());
    assert!(Date::from_ymd(2019, 13, 1).is_none());
    assert!(Date::from_ymd(2019, 0, 1).is_none());
    assert!(Date::from_ymd(400_000, 1, 1).is_none());
    assert!(Time::from_hms(24, 0, 0).is_none());
    assert!(Time::from_hms(0, 60, 0).is_none());
    assert!(Time::from_hms(0, 0, 60).is_none());
    assert!(Timestamp::from_ymd_hms(2019, 2, 29, 0, 0, 0).is_none());
    assert!(Timestamp::from_ymd_hms(2019, 2, 28, 24, 0, 0).is_none());
    assert_eq!(Time::from_hms(23, 59, 59), Time::from_seconds(86_399, 0));
}

#[test]
fn round_trips() {
    let time = Time::from_seconds(3_723, 4_000).unwrap();
    let back: Time = Decode::<Postgres>::decode(&encoded(&time)).unwrap();
    assert_eq!(back, time);

    let date = Date::from_ymd(1987, 6, 5).unwrap();
    let back: Date = Decode::<Postgres>::decode(&encoded(&date)).unwrap();
    assert_eq!(back, date);

    let stamp = Timestamp::new(date, time);
    let back: Timestamp = Decode::<Postgres>::decode(&encoded(&stamp)).unwrap();
    assert_eq!(back, stamp);

    let zoned = TimestampTz::from_utc(stamp);
    let back: TimestampTz = Decode::<Postgres>::decode(&encoded(&zoned)).unwrap();
    assert_eq!(back, zoned);
}

#[test]
fn round_trip_loses_what_the_wire_cannot_hold() {
    let time = Time::from_seconds(0, 1).unwrap();
    let back: Time = Decode::<Postgres>::decode(&encoded(&time)).unwrap();
    assert_eq!(back, Time::midnight());
}

#[test]
fn zoned_timestamp_travels_in_utc() {
    let utc = Timestamp::from_ymd_hms(2020, 5, 17, 10, 30, 0).unwrap();
    let zoned = TimestampTz::with_offset(utc, 7_200).unwrap();
    assert_eq!(zoned.offset_seconds(), 7_200);
    assert_eq!(zoned.naive_utc(), utc);
    assert_eq!(encoded(&zoned), encoded(&utc));
    let back: TimestampTz = Decode::<Postgres>::decode(&encoded(&zoned)).unwrap();
    assert_eq!(back.offset_seconds(), 0);
    assert_eq!(back.naive_utc(), utc);
    assert_eq!(back, TimestampTz::from_utc(utc));
    assert!(TimestampTz::with_offset(utc, 86_400).is_none());
    assert!(TimestampTz::with_offset(utc, -86_400).is_none());
    assert!(TimestampTz::with_offset(utc, -86_399).is_some());
}

#[test]
fn size_hint_is_the_encoded_length() {
    let time = Time::from_hms(1, 2, 3).unwrap();
    let date = Date::from_ymd(2001, 2, 3).unwrap();
    let stamp = Timestamp::new(date, time);
    let zoned = TimestampTz::from_utc(stamp);
    assert_eq!(Encode::<Postgres>::size_hint(&time), encoded(&time).len());
    assert_eq!(Encode::<Postgres>::size_hint(&date), encoded(&date).len());
    assert_eq!(Encode::<Postgres>::size_hint(&stamp), encoded(&stamp).len());
    assert_eq!(Encode::<Postgres>::size_hint(&zoned), encoded(&zoned).len());
    assert_eq!(Encode::<Postgres>::size_hint(&date), 4);
    assert_eq!(Encode::<Postgres>::size_hint(&stamp), 8);
}

#[test]
fn encode_appends() {
    let mut buf = vec![1u8, 2, 3];
    Encode::<Postgres>::encode(&Date::from_ymd(2000, 1, 2).unwrap(), &mut buf).unwrap();
    assert_eq!(buf, vec![1, 2, 3, 0, 0, 0, 1]);
    Encode::<Postgres>::encode(&Time::from_seconds(0, 2_000).unwrap(), &mut buf).unwrap();
    assert_eq!(buf, vec![1, 2, 3, 0, 0, 0, 1, 0, 0, 0, 0, 0, 0, 0, 2]);
}

fn step(seed: &mut u64) -> u64 {
    *seed = seed.wrapping_mul(6_364_136_223_846_793_005).wrapping_add(1_442_695_040_888_963_407);
    *seed ^ (*seed >> 29)
}

#[test]
fn encoding_agrees_with_chrono_across_the_calendar() {
    let epoch = NaiveDate::from_ymd_opt(2000, 1, 1).unwrap().and_time(NaiveTime::MIN);
    let days = (MAX_DAY as i64 - MIN_DAY as i64 + 1) as u64;
    let mut seed = 42;
    for round in 0..20_000u32 {
        let mut day = (MIN_DAY as i64 + (step(&mut seed) % days) as i64) as i32;
        if round % 5 == 0 {
            day = EPOCH_DAY - 400 + (step(&mut seed) % 800) as i32;
        }
        let secs = (step(&mut seed) % 86_400) as u32;
        let mut frac = (step(&mut seed) % 1_000_000_000) as u32;
        if secs % 60 == 59 && step(&mut seed) % 4 == 0 {
            frac += 1_000_000_000;
        }
        let time = NaiveTime::from_num_seconds_from_midnight_opt(secs, frac).unwrap();
        let theirs = NaiveDate::from_num_days_from_ce_opt(day).unwrap().and_time(time);
        let ours = from_chrono(theirs);

        let micros = (theirs - epoch).num_microseconds().unwrap();
        assert_eq!(encoded(&ours), micros.to_be_bytes());
        assert_eq!(encoded(&TimestampTz::from_utc(ours)), micros.to_be_bytes());
        let of_day = (theirs.time() - NaiveTime::MIN).num_microseconds().unwrap();
        assert_eq!(encoded(&ours.time()), of_day.to_be_bytes());
        let since = (theirs.date() - epoch.date()).num_days();
        assert_eq!(encoded(&ours.date()), (since as i32).to_be_bytes());

        assert_eq!(ours.to_string(), theirs.to_string());
        assert_eq!(ours.date().to_string(), theirs.date().to_string());
        assert_eq!(ours.time().to_string(), theirs.time().to_string());
        assert_eq!(
            Date::from_ymd(theirs.year(), theirs.month(), theirs.day()),
            Some(ours.date())
        );
    }
}

#[test]
fn decoding_agrees_with_chrono_across_the_wire() {
    let epoch = NaiveDate::from_ymd_opt(2000, 1, 1).unwrap().and_time(NaiveTime::MIN);
    let mut seed = 7;
    for round in 0..20_000u32 {
        let mut micros = step(&mut seed) as i64;
        if round % 3 == 0 {
            micros >>= 8 + round % 40;
        }
        let ours: Result<Timestamp, DecodeError> = Decode::<Postgres>::decode(&micros.to_be_bytes());
        match epoch.checked_add_signed(Duration::microseconds(micros)) {
            Some(theirs) => {
                assert_eq!(to_chrono(ours.unwrap()), theirs);
                assert_eq!(encoded(&ours.unwrap()), micros.to_be_bytes());
            }
            None => assert_eq!(ours, Err(DecodeError::OutOfRange)),
        }

        let ours: Time = Decode::<Postgres>::decode(&micros.to_be_bytes()).unwrap();
        let theirs = NaiveTime::MIN + Duration::microseconds(micros);
        assert_eq!(ours.seconds_from_midnight(), theirs.num_seconds_from_midnight());
        assert_eq!(ours.nanosecond(), theirs.nanosecond());

        let mut days = step(&mut seed) as i32;
        if round % 2 == 0 {
            days >>= 4 + round % 24;
        }
        let ours: Result<Date, DecodeError> = Decode::<Postgres>::decode(&days.to_be_bytes());
        match epoch.date().checked_add_signed(Duration::days(days as i64)) {
            Some(theirs) => {
                assert_eq!(ours.unwrap().day_number(), theirs.num_days_from_ce());
                assert_eq!(encoded(&ours.unwrap()), days.to_be_bytes());
            }
            None => assert_eq!(ours, Err(DecodeError::OutOfRange)),
        }
    }
}
