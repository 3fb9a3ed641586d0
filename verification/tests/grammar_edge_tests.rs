use my_gym_data_rust_parser::{parse_exercise_log, Date, GymDataParserError};

// The optional `reps` word after the maximum is accepted.
#[test]
fn test_target_with_reps_word() {
    let records =
        parse_exercise_log("05.08.2024 / curl / (3 x 10-15 reps) / 50-10").unwrap();
    assert_eq!(records.len(), 1);
    assert_eq!(records[0].target.sets_count, 3);
    assert_eq!(records[0].target.min_reps, 10);
    assert_eq!(records[0].target.max_reps, 15);
}

// Tabs count as skippable whitespace around separators.
#[test]
fn test_tab_whitespace() {
    let records =
        parse_exercise_log("05.08.2024\t/ bench press /\t(3 x 10-15) / 100-10\t,\t90-10").unwrap();
    assert_eq!(records[0].sets[0].attempts[1].weight, 90);
    assert_eq!(records[0].sets[0].attempts[1].reps, 10);
}

// A syntactically well-formed date that names no calendar day is a date error.
#[test]
fn test_impossible_calendar_date() {
    let result = parse_exercise_log("31.02.2024 / bench press / (3 x 10-15) / 100-10");
    assert_eq!(result.unwrap_err(), GymDataParserError::DateParseError);
}

// The 29th of February exists exactly in leap years.
#[test]
fn test_leap_year_dates() {
    let ok = parse_exercise_log("29.02.2024 / squat / (3 x 5-8) / 140-5").unwrap();
    assert_eq!(ok[0].date, Date::from_ymd_opt(2024, 2, 29).unwrap());
    let bad = parse_exercise_log("29.02.2023 / squat / (3 x 5-8) / 140-5");
    assert_eq!(bad.unwrap_err(), GymDataParserError::DateParseError);
    let century = parse_exercise_log("29.02.1900 / squat / (3 x 5-8) / 140-5");
    assert_eq!(century.unwrap_err(), GymDataParserError::DateParseError);
}

// A day or month of zero names no calendar day.
#[test]
fn test_zero_day_and_month() {
    let d = parse_exercise_log("00.08.2024 / row / (3 x 10-12) / 60-10");
    assert_eq!(d.unwrap_err(), GymDataParserError::DateParseError);
    let m = parse_exercise_log("05.00.2024 / row / (3 x 10-12) / 60-10");
    assert_eq!(m.unwrap_err(), GymDataParserError::DateParseError);
}

// A number beyond 32 bits is a number-format error, not a syntax error.
#[test]
fn test_number_overflow() {
    let t = parse_exercise_log("05.08.2024 / leg press / (5000000000 x 10-15) / 100-10");
    assert_eq!(t.unwrap_err(), GymDataParserError::InvalidNumberFormat);
    let w = parse_exercise_log("05.08.2024 / leg press / (3 x 10-15) / 4294967296-10");
    assert_eq!(w.unwrap_err(), GymDataParserError::InvalidNumberFormat);
    let edge = parse_exercise_log("05.08.2024 / leg press / (3 x 10-15) / 4294967295-10").unwrap();
    assert_eq!(edge[0].sets[0].attempts[0].weight, u32::MAX);
}

// The syntax error names the first offending line, 1-based.
#[test]
fn test_error_line_number() {
    let input = "05.08.2024 / bench press / (3 x 10-15) / 100-10\nnot a record";
    let result = parse_exercise_log(input);
    assert_eq!(result.unwrap_err(), GymDataParserError::ParseError { line: 2 });
}

// A record missing one of its four fields does not match the grammar.
#[test]
fn test_missing_field() {
    let result = parse_exercise_log("05.08.2024 / bench press / (3 x 10-15)");
    assert_eq!(result.unwrap_err(), GymDataParserError::ParseError { line: 1 });
}

// A name of nothing but whitespace is accepted and trims to the empty name.
#[test]
fn test_whitespace_only_name() {
    let records = parse_exercise_log("05.08.2024 /   / (3 x 10-15) / 100-10").unwrap();
    assert_eq!(records[0].exercise_name, "");
}

// The parser does not require the minimum to be below the maximum.
#[test]
fn test_inverted_rep_range() {
    let records = parse_exercise_log("05.08.2024 / dip / (3 x 15-10) / 20-12").unwrap();
    assert_eq!(records[0].target.min_reps, 15);
    assert_eq!(records[0].target.max_reps, 10);
}

// A trailing newline starts a new (empty) record line, which is refused.
#[test]
fn test_trailing_newline_is_refused() {
    let result = parse_exercise_log("05.08.2024 / bench press / (3 x 10-15) / 100-10\n");
    assert_eq!(result.unwrap_err(), GymDataParserError::ParseError { line: 2 });
}

// Three records come back in input order, one per line.
#[test]
fn test_record_per_line_in_order() {
    let input = "01.01.2024 / a / (1 x 1-1) / 1-1\n\
                 02.01.2024 / b / (2 x 2-2) / 2-2\n\
                 03.01.2024 / c / (3 x 3-3) / 3-3";
    let records = parse_exercise_log(input).unwrap();
    assert_eq!(records.len(), 3);
    assert_eq!(records[0].date, Date::from_ymd_opt(2024, 1, 1).unwrap());
    assert_eq!(records[1].exercise_name, "b");
    assert_eq!(records[2].target.sets_count, 3);
}

// Direct checks of the calendar constructor.
#[test]
fn test_date_from_ymd_opt() {
    assert_eq!(
        Date::from_ymd_opt(2024, 8, 5),
        Some(Date { year: 2024, month: 8, day: 5 })
    );
    assert_eq!(Date::from_ymd_opt(2024, 13, 1), None);
    assert_eq!(Date::from_ymd_opt(2024, 4, 31), None);
    assert_eq!(Date::from_ymd_opt(2000, 2, 29), Some(Date { year: 2000, month: 2, day: 29 }));
    assert_eq!(Date::from_ymd_opt(1900, 2, 29), None);
}

// A date hidden among spaces inside its field is still read; spaces inside
// the digits are not.
#[test]
fn test_date_field_trimming() {
    let ok = parse_exercise_log("  05.08.2024   / fly / (2 x 12-15) / 15-12").unwrap();
    assert_eq!(ok[0].date, Date::from_ymd_opt(2024, 8, 5).unwrap());
    let bad = parse_exercise_log("05 .08.2024 / fly / (2 x 12-15) / 15-12");
    assert_eq!(bad.unwrap_err(), GymDataParserError::ParseError { line: 1 });
}

// An empty attempt slot (a dangling comma or semicolon) is refused.
#[test]
fn test_dangling_separator() {
    let c = parse_exercise_log("05.08.2024 / press / (3 x 8-10) / 50-8,");
    assert_eq!(c.unwrap_err(), GymDataParserError::ParseError { line: 1 });
    let s = parse_exercise_log("05.08.2024 / press / (3 x 8-10) / 50-8;");
    assert_eq!(s.unwrap_err(), GymDataParserError::ParseError { line: 1 });
}

// Field counts round-trip: the record mirrors the shape of its line.
#[test]
fn test_field_count_round_trip() {
    let records =
        parse_exercise_log("05.08.2024 / bench press / (3 x 10-15) / 100-10,90-10;80-12").unwrap();
    assert_eq!(records.len(), 1);
    let record = &records[0];
    assert_eq!(record.target.sets_count, 3);
    assert_eq!(record.target.min_reps, 10);
    assert_eq!(record.target.max_reps, 15);
    assert_eq!(record.sets.len(), 2);
    assert_eq!(record.sets[0].attempts.len(), 2);
    assert_eq!(record.sets[1].attempts.len(), 1);
    assert_eq!(
        (record.sets[0].attempts[0].weight, record.sets[0].attempts[0].reps),
        (100, 10)
    );
    assert_eq!(
        (record.sets[0].attempts[1].weight, record.sets[0].attempts[1].reps),
        (90, 10)
    );
    assert_eq!(
        (record.sets[1].attempts[0].weight, record.sets[1].attempts[0].reps),
        (80, 12)
    );
}
