use countdown::duration::{parse_duration, ParseError};
use countdown::startup::{plan_start, StartAction, USAGE_STATUS};

#[test]
fn parse_full_duration() {
    assert_eq!(parse_duration("2h45m50s"), Ok(9950));
}

#[test]
fn parse_minutes_seconds() {
    assert_eq!(parse_duration("1m50s"), Ok(110));
}

#[test]
fn parse_seconds_only() {
    assert_eq!(parse_duration("25s"), Ok(25));
}

#[test]
fn parse_hours_only() {
    assert_eq!(parse_duration("2h"), Ok(7200));
}

#[test]
fn parse_minutes_only() {
    assert_eq!(parse_duration("90m"), Ok(5400));
}

#[test]
fn parse_empty_is_zero() {
    assert_eq!(parse_duration(""), Ok(0));
}

#[test]
fn parse_rejects_reordered_parts() {
    assert_eq!(parse_duration("5s2h"), Err(ParseError::Syntax));
}

#[test]
fn parse_rejects_bare_digits() {
    assert_eq!(parse_duration("12"), Err(ParseError::Syntax));
}

#[test]
fn parse_rejects_marker_without_digits() {
    assert_eq!(parse_duration("h"), Err(ParseError::Syntax));
}

#[test]
fn parse_rejects_trailing_garbage() {
    assert_eq!(parse_duration("25sx"), Err(ParseError::Syntax));
}

#[test]
fn parse_rejects_words() {
    assert_eq!(parse_duration("soon"), Err(ParseError::Syntax));
}

#[test]
fn parse_rejects_whitespace() {
    assert_eq!(parse_duration("1m 50s"), Err(ParseError::Syntax));
}

#[test]
fn parse_overflow_in_component() {
    // Twenty-one nines do not fit in sixty-four bits.
    assert_eq!(
        parse_duration("999999999999999999999s"),
        Err(ParseError::Overflow)
    );
}

#[test]
fn parse_overflow_in_sum() {
    // The hours fit in a u64, but times 3600 they do not.
    assert_eq!(parse_duration("6000000000000000h"), Err(ParseError::Overflow));
}

#[test]
fn parse_largest_seconds() {
    assert_eq!(parse_duration("18446744073709551615s"), Ok(u64::MAX));
}

#[test]
fn start_rejects_no_arguments() {
    let args: Vec<String> = vec![];
    assert_eq!(plan_start(&args), StartAction::Usage);
}

#[test]
fn start_rejects_two_arguments() {
    let args = vec![String::from("25s"), String::from("1m")];
    assert_eq!(plan_start(&args), StartAction::Usage);
}

#[test]
fn start_rejects_bad_duration() {
    let args = vec![String::from("bogus")];
    assert_eq!(plan_start(&args), StartAction::Usage);
}

#[test]
fn start_runs_on_one_good_argument() {
    let args = vec![String::from("2h45m50s")];
    assert_eq!(plan_start(&args), StartAction::Run(9950));
}

#[test]
fn start_accepts_empty_duration_as_zero() {
    let args = vec![String::from("")];
    assert_eq!(plan_start(&args), StartAction::Run(0));
}

#[test]
fn usage_exit_status_is_two() {
    assert_eq!(USAGE_STATUS, 2);
}
