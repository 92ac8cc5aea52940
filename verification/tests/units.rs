use tracespan::clock::ClockState;
use tracespan::events::ClockReading;
use tracespan::events::Fatal;
use tracespan::events::StreamDefaults;
use tracespan::text::parse_i32;
use tracespan::text::take_first_token;

fn reading(clock_id: u32, timestamp: u64, is_incremental: bool) -> ClockReading {
    ClockReading { clock_id, timestamp, is_incremental }
}

#[test]
fn observing_a_snapshot_twice_keeps_the_offset() {
    let entries = vec![reading(6, 5000, false), reading(3, 2000, false), reading(64, 400, true)];
    let mut c = ClockState::new();
    assert!(c.observe_snapshot(&entries).is_ok());
    let first = c.offset;
    assert_eq!(first, 3000);
    assert!(c.observe_snapshot(&entries).is_ok());
    assert_eq!(c.offset, first);
}

#[test]
fn noisy_snapshot_offset_is_zero_twice() {
    // boot slightly behind mono: measurement noise, offset zero
    let entries = vec![reading(6, 900, false), reading(3, 1000, false)];
    let mut c = ClockState::new();
    assert!(c.observe_snapshot(&entries).is_ok());
    assert_eq!(c.offset, 0);
    assert!(c.observe_snapshot(&entries).is_ok());
    assert_eq!(c.offset, 0);
}

#[test]
fn partial_snapshot_recomputes_with_persisted_reading() {
    let mut c = ClockState::new();
    assert!(c.observe_snapshot(&vec![reading(6, 5000, false), reading(3, 2000, false)]).is_ok());
    assert_eq!(c.offset, 3000);
    // a later monotonic-only snapshot pairs with the remembered boot reading
    assert!(c.observe_snapshot(&vec![reading(3, 2500, false)]).is_ok());
    assert_eq!(c.offset, 2500);
}

#[test]
fn delta_entry_stamped_with_boot_value_is_corrected() {
    let mut c = ClockState::new();
    assert!(c.observe_snapshot(&vec![reading(6, 5000, false), reading(3, 2000, false)]).is_ok());
    assert_eq!(c.offset, 3000);
    // the delta reading equals the boot reading, so the offset is undone
    assert!(c.observe_snapshot(&vec![reading(6, 5000, false), reading(64, 5000, true)]).is_ok());
    assert_eq!(c.running, 2000);
}

#[test]
fn unrelated_snapshot_clocks_are_ignored()  {
    let mut c = ClockState::new();
    assert!(c.observe_snapshot(&vec![reading(11, 9999, false)]).is_ok());
    assert_eq!(c, ClockState::new());
}

#[test]
fn default_clock_must_be_the_delta_domain() {
    let mut c = ClockState::new();
    let r = c.apply_defaults(&StreamDefaults { timestamp_clock_id: Some(3), track_uuid: None });
    assert_eq!(r, Err(Fatal::BadDefaultClock(3)));
    let r = c.apply_defaults(&StreamDefaults { timestamp_clock_id: Some(64), track_uuid: Some(5) });
    assert!(r.is_ok());
    assert_eq!(c.default_clock, Some(64));
    assert_eq!(c.default_track, 5);
}

#[test]
fn timestamps_resolve_per_domain() {
    let mut c = ClockState::new();
    c.note_timestamp(40, Some(64));
    c.note_timestamp(2, Some(64));
    assert_eq!(c.resolve_reading(2, Some(64)), Ok(42));
    assert_eq!(c.resolve_reading(17, Some(3)), Ok(17));
    assert_eq!(c.resolve_reading(17, Some(6)), Err(Fatal::UnexpectedClock(6)));
    // with no explicit id and no default, the boot domain is assumed
    assert_eq!(c.resolve_reading(17, None), Err(Fatal::UnexpectedClock(6)));
}

#[test]
fn first_token_splits_on_ascii_whitespace() {
    assert_eq!(take_first_token(&b"load texture".to_vec()), Some(b"load".to_vec()));
    assert_eq!(take_first_token(&b"  \t trimmed  ".to_vec()), Some(b"trimmed".to_vec()));
    assert_eq!(take_first_token(&b"single".to_vec()), Some(b"single".to_vec()));
    assert_eq!(take_first_token(&b"   \t ".to_vec()), None);
    assert_eq!(take_first_token(&b"".to_vec()), None);
}

#[test]
fn decimal_parsing_matches_the_usual_rules() {
    assert_eq!(parse_i32(&b"123".to_vec()), Some(123));
    assert_eq!(parse_i32(&b"+12".to_vec()), Some(12));
    assert_eq!(parse_i32(&b"-45".to_vec()), Some(-45));
    assert_eq!(parse_i32(&b"0".to_vec()), Some(0));
    assert_eq!(parse_i32(&b"2147483647".to_vec()), Some(2147483647));
    assert_eq!(parse_i32(&b"-2147483648".to_vec()), Some(-2147483648));
    assert_eq!(parse_i32(&b"2147483648".to_vec()), None);
    assert_eq!(parse_i32(&b"-2147483649".to_vec()), None);
    assert_eq!(parse_i32(&b"99999999999999999999".to_vec()), None);
    assert_eq!(parse_i32(&b"".to_vec()), None);
    assert_eq!(parse_i32(&b"+".to_vec()), None);
    assert_eq!(parse_i32(&b"-".to_vec()), None);
    assert_eq!(parse_i32(&b"12a".to_vec()), None);
    assert_eq!(parse_i32(&b" 12".to_vec()), None);
}
