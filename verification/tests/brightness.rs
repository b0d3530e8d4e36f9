use brightctl::control::{
    apply_delta, check_selection, plan_set, run_get, run_set, select_monitors, write_outcome,
    GetLine,
};
use brightctl::parse::parse_change;
use brightctl::render::create_brightness_bar;
use brightctl::types::{BrightnessError, Reading, ValueChange};

fn bar_counts(bar: &str) -> (usize, usize) {
    let filled = bar.chars().filter(|c| *c == '\u{2588}').count();
    let empty = bar.chars().filter(|c| *c == '\u{2591}').count();
    (filled, empty)
}

#[test]
fn absolute_with_padding_whole_scale() {
    for v in 0..=100u16 {
        let s = format!("  {}  ", v);
        assert_eq!(parse_change(&s), Ok(ValueChange::Absolute(v)));
    }
}

#[test]
fn absolute_plain() {
    assert_eq!(parse_change("0"), Ok(ValueChange::Absolute(0)));
    assert_eq!(parse_change("100"), Ok(ValueChange::Absolute(100)));
    assert_eq!(parse_change("65535"), Ok(ValueChange::Absolute(65535)));
}

#[test]
fn delta_forms() {
    assert_eq!(parse_change("+10"), Ok(ValueChange::Delta(10)));
    assert_eq!(parse_change("-10"), Ok(ValueChange::Delta(-10)));
    assert_eq!(parse_change("10+"), Ok(ValueChange::Delta(10)));
    assert_eq!(parse_change("10-"), Ok(ValueChange::Delta(-10)));
}

#[test]
fn delta_with_padding() {
    assert_eq!(parse_change(" +5 "), Ok(ValueChange::Delta(5)));
    assert_eq!(parse_change("\t20-\n"), Ok(ValueChange::Delta(-20)));
}

#[test]
fn parse_empty_input() {
    assert_eq!(parse_change(""), Err(BrightnessError::EmptyInput));
    assert_eq!(parse_change("   "), Err(BrightnessError::EmptyInput));
}

#[test]
fn parse_rejections() {
    assert_eq!(parse_change("abc"), Err(BrightnessError::ParseError));
    assert_eq!(parse_change("10x"), Err(BrightnessError::ParseError));
    assert_eq!(parse_change("+-5"), Err(BrightnessError::ParseError));
    assert_eq!(parse_change("+"), Err(BrightnessError::ParseError));
    assert_eq!(parse_change("-"), Err(BrightnessError::ParseError));
    assert_eq!(parse_change("99999"), Err(BrightnessError::ParseError));
    assert_eq!(parse_change("+32768"), Err(BrightnessError::ParseError));
    assert_eq!(parse_change("32768-"), Err(BrightnessError::ParseError));
}

#[test]
fn delta_range_limits() {
    assert_eq!(parse_change("+32767"), Ok(ValueChange::Delta(32767)));
    assert_eq!(parse_change("-32768"), Ok(ValueChange::Delta(-32768)));
    assert_eq!(parse_change("32767-"), Ok(ValueChange::Delta(-32767)));
}

#[test]
fn delta_application_clamps() {
    assert_eq!(apply_delta(95, 10), 100);
    assert_eq!(apply_delta(5, -10), 0);
    assert_eq!(apply_delta(50, 5), 55);
    assert_eq!(apply_delta(0, 0), 0);
}

#[test]
fn plan_set_cases() {
    assert_eq!(plan_set(&ValueChange::Absolute(70), 0, None), Ok(70));
    assert_eq!(
        plan_set(&ValueChange::Absolute(150), 0, None),
        Err(BrightnessError::InvalidArgument)
    );
    assert_eq!(plan_set(&ValueChange::Delta(10), 3, Some(95)), Ok(100));
    assert_eq!(plan_set(&ValueChange::Delta(-10), 3, Some(5)), Ok(0));
    assert_eq!(plan_set(&ValueChange::Delta(5), 2, None), Err(BrightnessError::ReadFailure(2)));
}

#[test]
fn bar_half() {
    let b = create_brightness_bar(50, 100);
    assert_eq!(bar_counts(&b), (10, 10));
    assert!(b.chars().take(10).all(|c| c == '\u{2588}'));
}

#[test]
fn bar_zero_maximum() {
    let b = create_brightness_bar(0, 0);
    assert_eq!(bar_counts(&b), (0, 20));
}

#[test]
fn bar_full() {
    let b = create_brightness_bar(100, 100);
    assert_eq!(bar_counts(&b), (20, 0));
}

#[test]
fn bar_rounds_to_nearest_cell() {
    assert_eq!(bar_counts(&create_brightness_bar(60, 100)), (12, 8));
    assert_eq!(bar_counts(&create_brightness_bar(98, 100)), (20, 0));
    assert_eq!(bar_counts(&create_brightness_bar(1, 100)), (0, 20));
    assert_eq!(bar_counts(&create_brightness_bar(3, 100)), (1, 19));
}

#[test]
fn selection() {
    assert_eq!(select_monitors(3, None), vec![0, 1, 2]);
    assert_eq!(select_monitors(3, Some(1)), vec![1]);
    assert!(select_monitors(3, Some(5)).is_empty());
    assert!(select_monitors(0, None).is_empty());
}

#[test]
fn selection_errors() {
    assert_eq!(check_selection(0, None), Err(BrightnessError::NoMonitorsFound));
    assert_eq!(check_selection(0, Some(1)), Err(BrightnessError::NoMonitorsFound));
    assert_eq!(check_selection(2, Some(5)), Err(BrightnessError::MonitorNotFound(5)));
    assert_eq!(check_selection(2, Some(1)), Ok(()));
    assert_eq!(check_selection(2, None), Ok(()));
}

#[test]
fn write_outcomes() {
    assert_eq!(write_outcome(1, 55, true), Ok(55));
    assert_eq!(write_outcome(1, 55, false), Err(BrightnessError::WriteFailure(1)));
}

#[test]
fn report_with_one_failed_monitor() {
    let readings = vec![
        (0usize, None),
        (1usize, Some(Reading { current: 60, minimum: 0, maximum: 100 })),
    ];
    let lines = run_get(&readings);
    assert_eq!(lines.len(), 2);
    match &lines[0] {
        GetLine::Failure { index } => assert_eq!(*index, 0),
        _ => panic!("expected a failure line for monitor 0"),
    }
    match &lines[1] {
        GetLine::Status { index, current, maximum, bar } => {
            assert_eq!((*index, *current, *maximum), (1, 60, 100));
            assert_eq!(bar_counts(bar), (12, 8));
            assert!(bar.chars().take(12).all(|c| c == '\u{2588}'));
        }
        _ => panic!("expected a status line for monitor 1"),
    }
}

#[test]
fn set_delta_over_two_monitors() {
    let change = parse_change("+5").unwrap();
    let reads = vec![(0usize, Some(98u16)), (1usize, Some(50u16))];
    let out = run_set(&change, &reads);
    assert_eq!(out, vec![(0, Ok(100)), (1, Ok(55))]);
}

#[test]
fn set_skips_unreadable_monitor() {
    let change = ValueChange::Delta(-10);
    let reads = vec![(0usize, None), (1usize, Some(30u16))];
    let out = run_set(&change, &reads);
    assert_eq!(out, vec![(0, Err(BrightnessError::ReadFailure(0))), (1, Ok(20))]);
}

#[test]
fn set_absolute_ignores_readings() {
    let change = ValueChange::Absolute(40);
    let reads = vec![(0usize, None), (1usize, Some(98u16))];
    let out = run_set(&change, &reads);
    assert_eq!(out, vec![(0, Ok(40)), (1, Ok(40))]);
}
