use game_server::config::{init_env_vars, setting, Config};
use game_server::decimal::{decimal_string, parse_u64};
use game_server::utils::{
    custom_time, custom_time_ns, make_atomic_canceller, since_custom_epoch, unix_time,
    wrapped_nanos, TimeSpan, CUSTOM_EPOCH_OFFSET_SECS,
};

#[test]
fn clock_reads_a_time_after_the_custom_epoch() {
    let unix = unix_time().expect("the clock stands after 1970");
    assert!(unix.nanos < 1_000_000_000);
    assert!(unix.secs > CUSTOM_EPOCH_OFFSET_SECS);
    let custom = custom_time().expect("the clock stands after 2020");
    assert!(custom.nanos < 1_000_000_000);
    assert!(custom.secs < unix.secs);
    assert!(custom.secs <= u64::MAX - CUSTOM_EPOCH_OFFSET_SECS);
    assert!(unix.secs - custom.secs >= CUSTOM_EPOCH_OFFSET_SECS);
    assert!(unix.secs - custom.secs <= CUSTOM_EPOCH_OFFSET_SECS + 60);
    let ns = custom_time_ns().expect("the clock stands after 2020");
    assert!(ns as u128 >= custom.as_nanos());
}

#[test]
fn clock_moves_on() {
    let a = unix_time().unwrap();
    let mut b = unix_time().unwrap();
    let mut rounds = 0u64;
    while b.as_nanos() == a.as_nanos() && rounds < 100_000_000 {
        b = unix_time().unwrap();
        rounds += 1;
    }
    assert!(b.as_nanos() > a.as_nanos());
}

#[test]
fn custom_epoch_is_an_offset_of_the_unix_epoch() {
    let unix = TimeSpan { secs: 1_585_094_400 + 12, nanos: 345 };
    assert_eq!(since_custom_epoch(unix), Some(TimeSpan { secs: 12, nanos: 345 }));
    let edge = TimeSpan { secs: 1_585_094_400, nanos: 0 };
    assert_eq!(since_custom_epoch(edge), Some(TimeSpan { secs: 0, nanos: 0 }));
    let early = TimeSpan { secs: 1_585_094_399, nanos: 999_999_999 };
    assert_eq!(since_custom_epoch(early), None);
}

#[test]
fn time_span_in_millis_and_nanos() {
    let t = TimeSpan { secs: 3, nanos: 7_654_321 };
    assert_eq!(t.as_millis(), 3_007);
    assert_eq!(t.as_nanos(), 3_007_654_321);
    let long = TimeSpan { secs: u64::MAX, nanos: 999_999_999 };
    assert_eq!(long.as_millis(), u64::MAX as u128 * 1000 + 999);
    assert_eq!(long.as_nanos(), u64::MAX as u128 * 1_000_000_000 + 999_999_999);
}

#[test]
fn nanos_wrap_at_64_bits() {
    assert_eq!(wrapped_nanos(TimeSpan { secs: 1, nanos: 5 }), 1_000_000_005);
    let limit = TimeSpan { secs: 18_446_744_073, nanos: 709_551_615 };
    assert_eq!(wrapped_nanos(limit), u64::MAX);
    let past = TimeSpan { secs: 18_446_744_073, nanos: 709_551_616 };
    assert_eq!(wrapped_nanos(past), 0);
    let more = TimeSpan { secs: 18_446_744_074, nanos: 0 };
    assert_eq!(wrapped_nanos(more), 290_448_384);
}

#[test]
fn canceller_is_raised_once_and_stays_raised() {
    let (cancelled, cancel) = make_atomic_canceller();
    assert!(!cancelled());
    assert!(!cancelled());
    cancel();
    assert!(cancelled());
    cancel();
    assert!(cancelled());
    let (other, _raise) = make_atomic_canceller();
    assert!(!other());
}

#[test]
fn decimal_text_of_numbers() {
    assert_eq!(decimal_string(0), "0");
    assert_eq!(decimal_string(7), "7");
    assert_eq!(decimal_string(10), "10");
    assert_eq!(decimal_string(4_500), "4500");
    assert_eq!(decimal_string(1_585_094_400), "1585094400");
    assert_eq!(decimal_string(usize::MAX), usize::MAX.to_string());
}

#[test]
fn decimal_text_is_read_as_the_standard_library_reads_it() {
    let texts = [
        "0", "7", "007", "+7", "+0", "4500", "18446744073709551615", "18446744073709551616",
        "+18446744073709551615", "99999999999999999999999", "", "+", "-", "-0", "-7", "++7", "7+",
        " 7", "7 ", "4_500", "0x10", "1e3", "٣", "4.5", "12a", "a12", "+-1",
    ];
    for text in texts {
        assert_eq!(parse_u64(text), text.parse::<u64>().ok(), "text {:?}", text);
    }
    assert_eq!(parse_u64("4500"), Some(4_500));
    assert_eq!(parse_u64("18446744073709551615"), Some(u64::MAX));
    assert_eq!(parse_u64("18446744073709551616"), None);
}

#[test]
fn decimal_round_trip() {
    for n in [0usize, 1, 9, 10, 11, 99, 100, 12_345, usize::MAX] {
        assert_eq!(parse_u64(&decimal_string(n)), Some(n as u64));
    }
}

#[test]
fn settings_fall_back_to_their_defaults() {
    assert_eq!(
        Config::defaults(),
        Config { await_client_msg_timeout_ms: 50, websockets_pingpong_interval_ms: 4_500 }
    );
    assert_eq!(init_env_vars(&None, &None), Config::defaults());
    assert_eq!(
        init_env_vars(&Some("20".to_string()), &None),
        Config { await_client_msg_timeout_ms: 20, websockets_pingpong_interval_ms: 4_500 }
    );
    assert_eq!(
        init_env_vars(&Some("fast".to_string()), &Some("1000".to_string())),
        Config { await_client_msg_timeout_ms: 50, websockets_pingpong_interval_ms: 1_000 }
    );
    assert_eq!(
        init_env_vars(&Some("".to_string()), &Some("-1".to_string())),
        Config::defaults()
    );
    assert_eq!(setting(&Some("0".to_string()), 9), 0);
    assert_eq!(setting(&Some("99999999999999999999".to_string()), 9), 9);
    assert_eq!(setting(&None, 9), 9);
}
