use eva_ics::history::{
    history_fill, history_format_ok, history_multi_check, reconcile_frame, FillSpec, FrameStep,
    HistoryError,
};

#[test]
fn fill_points() {
    assert_eq!(history_fill("100A"), Ok((FillSpec::Points(100), None)));
    assert_eq!(history_fill("2A:3"), Ok((FillSpec::Points(2), Some(3))));
    assert_eq!(history_fill("10000A"), Ok((FillSpec::Points(10000), None)));
}

#[test]
fn fill_points_bounds() {
    assert_eq!(history_fill("10001A"), Err(HistoryError::TooManyPoints));
    assert_eq!(history_fill("1A"), Err(HistoryError::TooFewPoints));
    assert_eq!(history_fill("A"), Err(HistoryError::InvalidNumber));
    assert_eq!(history_fill("xA"), Err(HistoryError::InvalidNumber));
}

#[test]
fn fill_units() {
    assert_eq!(history_fill("5S"), Ok((FillSpec::Seconds(5), None)));
    assert_eq!(history_fill("15T:2"), Ok((FillSpec::Minutes(15), Some(2))));
    assert_eq!(history_fill("1H"), Ok((FillSpec::Hours(1), None)));
    assert_eq!(history_fill("7D"), Ok((FillSpec::Days(7), None)));
    assert_eq!(history_fill("2W"), Ok((FillSpec::Weeks(2), None)));
}

#[test]
fn fill_invalid() {
    assert_eq!(history_fill("0S"), Err(HistoryError::InvalidFill));
    assert_eq!(history_fill("5X"), Err(HistoryError::InvalidFill));
    assert_eq!(history_fill("S"), Err(HistoryError::InvalidFill));
    assert_eq!(history_fill("5S:x"), Err(HistoryError::InvalidNumber));
    assert_eq!(history_fill("5X:x"), Err(HistoryError::InvalidFill));
}

#[test]
fn output_shapes() {
    assert!(history_format_ok(false, true));
    assert!(history_format_ok(true, false));
    assert!(!history_format_ok(true, true));
    assert_eq!(history_multi_check(true, true, true), Err(HistoryError::ListOnlyForMultiple));
    assert_eq!(history_multi_check(true, false, false), Err(HistoryError::FillRequiredForMultiple));
    assert_eq!(history_multi_check(true, false, true), Ok(()));
    assert_eq!(history_multi_check(false, true, false), Ok(()));
}

#[test]
fn frames() {
    assert_eq!(reconcile_frame(10, 9), FrameStep::InvalidData);
    assert_eq!(reconcile_frame(10, 12), FrameStep::Truncate(10));
    assert_eq!(reconcile_frame(10, 10), FrameStep::Keep);
    assert_eq!(reconcile_frame(10, 0), FrameStep::Keep);
}
