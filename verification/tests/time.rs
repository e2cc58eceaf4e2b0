use f1_data::time as ft;
use ft::{Duration, QualifyingTime, RaceTime, Time};

const MIN_IN_HOUR: i64 = 60;
const SEC_IN_MIN: i64 = 60;
const SEC_IN_HOUR: i64 = SEC_IN_MIN * MIN_IN_HOUR;

const UNIVERSAL_BAD_DURATION_STRINGS: &[&str] = &["40.1111", "", ":", ":2.100", "1::2.100"];

fn make_bad_duration_strings(case_specific_bad_duration_strings: &[&'static str]) -> Vec<&'static str> {
    let mut a = Vec::from(case_specific_bad_duration_strings);
    let mut b = Vec::from(UNIVERSAL_BAD_DURATION_STRINGS);
    a.append(&mut b);
    a
}

fn time_of(hour: u8, minute: u8, second: u8) -> Time {
    Time { hour, minute, second }
}

fn race_times_1950_4() -> Vec<RaceTime> {
    vec![
        RaceTime::lead(ft::duration_millis(7373700)),
        RaceTime::with_delta(ft::duration_millis(7374100), ft::duration_millis(400)),
    ]
}

fn race_times_2003_4() -> Vec<RaceTime> {
    vec![
        RaceTime::lead(ft::duration_millis(5292058)),
        RaceTime::with_delta(ft::duration_millis(5293940), ft::duration_s_ms(1, 882)),
        RaceTime::with_delta(ft::duration_millis(5294349), ft::duration_s_ms(2, 291)),
    ]
}

fn race_times_2021_12() -> Vec<RaceTime> {
    vec![
        RaceTime::lead(ft::duration_millis(207071)),
        RaceTime::with_delta(ft::duration_millis(209066), ft::duration_s_ms(1, 995)),
        RaceTime::with_delta(ft::duration_millis(209672), ft::duration_s_ms(2, 601)),
        RaceTime::with_delta(ft::duration_millis(223237), ft::duration_s_ms(16, 166)),
    ]
}

fn race_times_2023_4() -> Vec<RaceTime> {
    vec![
        RaceTime::lead(ft::duration_millis(5562436)),
        RaceTime::with_delta(ft::duration_millis(5564573), ft::duration_s_ms(2, 137)),
        RaceTime::with_delta(ft::duration_millis(5583653), ft::duration_s_ms(21, 217)),
    ]
}

fn minus(lhs: Duration, rhs: Duration) -> Duration {
    lhs.checked_sub(rhs).unwrap()
}

#[test]
fn duration_hms_ms() {
    let dur = ft::duration_hms_ms(1, 2, 34, 567);

    assert_eq!(dur.whole_hours(), 1);
    assert_eq!(dur.whole_minutes(), (MIN_IN_HOUR * 1) + 2);
    assert_eq!(dur.whole_seconds(), (SEC_IN_HOUR * 1) + (SEC_IN_MIN * 2) + 34);
    assert_eq!(dur.subsec_milliseconds(), 567);
}

#[test]
fn duration_m_s_ms() {
    let dur = ft::duration_m_s_ms(1, 23, 456);

    assert_eq!(dur.whole_hours(), 0);
    assert_eq!(dur.whole_minutes(), 1);
    assert_eq!(dur.whole_seconds(), (SEC_IN_MIN * 1) + 23);
    assert_eq!(dur.subsec_milliseconds(), 456);
}

#[test]
fn duration_s_ms() {
    let dur = ft::duration_s_ms(12, 345);

    assert_eq!(dur.whole_hours(), 0);
    assert_eq!(dur.whole_minutes(), 0);
    assert_eq!(dur.whole_seconds(), 12);
    assert_eq!(dur.subsec_milliseconds(), 345);
}

#[test]
fn duration_millis() {
    {
        let dur = ft::duration_millis(123);

        assert_eq!(dur.whole_hours(), 0);
        assert_eq!(dur.whole_minutes(), 0);
        assert_eq!(dur.whole_seconds(), 0);
        assert_eq!(dur.subsec_milliseconds(), 123);
    }
    {
        // "1:32:42.436", 2023, R4, P1
        let dur = ft::duration_millis(5562436);

        assert_eq!(dur.whole_hours(), 1);
        assert_eq!(dur.whole_minutes(), (MIN_IN_HOUR * 1) + 32);
        assert_eq!(dur.whole_seconds(), (SEC_IN_HOUR * 1) + (SEC_IN_MIN * 32) + 42);
        assert_eq!(dur.subsec_milliseconds(), 436);
    }
}

#[test]
fn duration_negative_parts() {
    let dur = ft::duration_millis(-1500);
    assert_eq!(dur.whole_seconds(), -1);
    assert_eq!(dur.subsec_milliseconds(), -500);
    assert_eq!(dur.whole_milliseconds(), -1500);
    assert_eq!(dur.whole_minutes(), 0);
}

#[test]
fn parse_subsecond_into_milli() {
    let str_value_pairs = vec![("123", 123), ("023", 23), ("12", 120), ("1", 100), ("0", 0), ("000", 0)];

    for (input, expected) in str_value_pairs {
        assert_eq!(ft::parse_subsecond_into_milli(input), expected);
    }
}

#[test]
fn parse_time() {
    let str_value_pairs = vec![
        ("12:00:00Z", time_of(12, 0, 0)),
        ("11:30:00Z", time_of(11, 30, 0)),
        ("15:00:00Z", time_of(15, 0, 0)),
        ("10:30:00Z", time_of(10, 30, 0)),
    ];

    for (input, expected) in str_value_pairs {
        assert_eq!(ft::parse_time(input).unwrap(), expected);
    }
}

#[test]
fn parse_time_err() {
    let bad_strings = vec!["12:00:00", "12:00:0Z", "25:00:00Z", "12:00Z"];

    for bad_str in bad_strings {
        assert!(ft::parse_time(bad_str).is_err());
    }
}

#[test]
fn parse_time_err_message() {
    assert_eq!(ft::parse_time("12:00Z").unwrap_err(), "Invalid time: \"12:00Z\"");
}

#[test]
fn parse_duration() {
    let str_value_pairs = vec![
        ("1:22.327", ft::duration_m_s_ms(1, 22, 327)),
        ("1:41.269", ft::duration_m_s_ms(1, 41, 269)),
        ("59.037", ft::duration_m_s_ms(0, 59, 037)),
        ("2:01.341", ft::duration_m_s_ms(2, 1, 341)),
        ("10.1", ft::duration_m_s_ms(0, 10, 100)),
        ("1:22.327", ft::duration_m_s_ms(1, 22, 327)),
        ("33:17.667", ft::duration_m_s_ms(33, 17, 667)),
        ("0.4", ft::duration_m_s_ms(0, 0, 400)),
        ("1.882", ft::duration_m_s_ms(0, 1, 882)),
        ("1:08.436", ft::duration_m_s_ms(1, 8, 436)),
        ("40.111", ft::duration_m_s_ms(0, 40, 111)),
        ("3:27.071", ft::duration_m_s_ms(3, 27, 071)),
        ("2:02:53.7", ft::duration_hms_ms(2, 2, 53, 700)),
        ("1:28:12.058", ft::duration_hms_ms(1, 28, 12, 58)),
        ("2:05:05.152", ft::duration_hms_ms(2, 5, 5, 152)),
    ];

    for (input, expected) in str_value_pairs {
        assert_eq!(ft::parse_duration(input).unwrap(), expected);
    }
}

#[test]
fn parse_duration_err() {
    let bad_strings = make_bad_duration_strings(&[
        // have > 59m
        "1:60:30.100",
        "2:74:10.7",
        // have > 59s
        "67.769",
        "1:61.100",
        // have '+' prefix
        "+21.217",
        "+1:14.240",
    ]);

    for bad_time_str in bad_strings {
        assert!(ft::parse_time(bad_time_str).is_err());
    }
}

#[test]
fn parse_duration_rejects_bad_strings() {
    let bad_strings = make_bad_duration_strings(&["1:60:30.100", "2:74:10.7", "67.769", "1:61.100", "+21.217", "+1:14.240"]);

    for bad_time_str in bad_strings {
        assert!(ft::parse_duration(bad_time_str).is_err());
    }
}

#[test]
fn parse_delta() {
    let str_value_pairs = vec![
        ("+0.4", ft::duration_millis(400)),
        ("+1.882", ft::duration_s_ms(1, 882)),
        ("+21.217", ft::duration_s_ms(21, 217)),
        ("+103.588", ft::duration_s_ms(103, 588)),
        ("+103.796", ft::duration_s_ms(103, 796)),
        ("+67.769", ft::duration_s_ms(67, 769)),
        ("+79.692", ft::duration_s_ms(79, 692)),
        ("+89.241", ft::duration_s_ms(89, 241)),
        ("+1:14.240", ft::duration_m_s_ms(1, 14, 240)),
        ("+18:48.66", ft::duration_m_s_ms(18, 48, 660)),
    ];

    for (input, expected) in str_value_pairs {
        assert_eq!(ft::parse_delta(input).unwrap(), expected);
    }
}

#[test]
fn parse_delta_err() {
    let bad_strings = make_bad_duration_strings(&["1:28:12.058", "2:02:53.7", "21.217"]);

    for bad_time_str in bad_strings {
        assert!(ft::parse_delta(bad_time_str).is_err());
    }
}

#[test]
fn qualifying_time() {
    let quali = QualifyingTime::Time(ft::duration_m_s_ms(1, 23, 456));

    assert!(matches!(quali, QualifyingTime::Time(_)));
    assert!(quali.has_time());
    assert!(!quali.no_time_set());

    let cloned_lap_time = quali.time().clone();

    if let QualifyingTime::Time(lap_time) = quali {
        assert_eq!(lap_time, cloned_lap_time);
        assert_eq!(lap_time, ft::duration_m_s_ms(1, 23, 456));
    }
}

#[test]
fn qualifying_time_from_text() {
    let quali = QualifyingTime::from_text("1:23.456").unwrap();
    assert!(quali.has_time());
    assert_eq!(quali.time(), &ft::duration_m_s_ms(1, 23, 456));

    let quali = QualifyingTime::from_text("").unwrap();
    assert!(quali.no_time_set());

    assert!(QualifyingTime::from_text("1").is_err());
}

#[test]
fn race_time() {
    let p1 = RaceTime::lead(ft::duration_millis(5562436));
    assert!(p1.is_lead());
    assert_eq!(p1.total(), &ft::duration_hms_ms(1, 32, 42, 436));
    assert_eq!(p1.delta(), &Duration::zero());

    let p2 = RaceTime::with_delta(ft::duration_millis(5564573), ft::duration_m_s_ms(0, 2, 137));
    assert!(!p2.is_lead());
    assert_eq!(p2.total(), &ft::duration_hms_ms(1, 32, 42 + 2, 436 + 137));
    assert_eq!(p2.delta(), &ft::duration_m_s_ms(0, 2, 137));

    assert_eq!(minus(*p2.total(), *p1.total()), *p2.delta());

    assert_eq!(p1, race_times_2023_4()[0]);
    assert_eq!(p2, race_times_2023_4()[1]);
}

#[test]
fn race_time_from_millis_and_time() {
    let str_value_pairs = vec![
        ((7373700, "2:02:53.7"), race_times_1950_4()[0]),
        ((7374100, "+0.4"), race_times_1950_4()[1]),
        ((5562436, "1:32:42.436"), race_times_2023_4()[0]),
        ((5564573, "+2.137"), race_times_2023_4()[1]),
    ];

    for ((millis, text), expected) in str_value_pairs {
        assert_eq!(RaceTime::from_millis_and_time(millis, text).unwrap(), expected);
    }

    assert_eq!(RaceTime::from_millis_and_time(5562436, "").unwrap_err(), "Unexpected empty 'time' in RaceTime");
    assert!(RaceTime::from_millis_and_time(5562437, "1:32:42.436").is_err());
    assert!(RaceTime::from_millis_and_time(100, "+0.4").is_err());
    assert!(RaceTime::from_millis_and_time(100, "+x").is_err());
}

#[test]
fn race_time_delta_equal_to_total_is_refused() {
    assert_eq!(
        RaceTime::from_millis_and_time(1000, "+1.000").unwrap_err(),
        "Delta 'time: +1.000' must be less than 'millis: 1000'"
    );
    assert!(RaceTime::from_millis_and_time(1001, "+1.000").is_ok());
}

#[test]
fn race_time_validate_assets() {
    let validate_race_times = |race_times: &[RaceTime]| {
        assert!(race_times.len() >= 2);

        let lead = race_times.first().unwrap();
        let others = &race_times[1..];

        assert!(lead.is_lead());
        assert_eq!(lead.delta(), &Duration::zero());

        for other in others.iter() {
            assert!(!other.is_lead());
            assert!(Duration::zero().is_shorter_than(other.delta()));
            assert!(lead.total().is_shorter_than(other.total()));
            assert_eq!(minus(*other.total(), *lead.total()), *other.delta());
        }
    };

    validate_race_times(&race_times_1950_4()[..]);
    validate_race_times(&race_times_2003_4()[..]);
    validate_race_times(&race_times_2021_12()[..]);
    validate_race_times(&race_times_2023_4()[..]);
}

#[test]
fn parse_subsecond_signed() {
    assert_eq!(ft::parse_subsecond_into_milli("+5"), 50);
    assert_eq!(ft::parse_subsecond_into_milli("-5"), -50);
    assert_eq!(ft::parse_subsecond_into_milli("+12"), 12);
    assert_eq!(ft::parse_subsecond_into_milli("-07"), -7);
}
