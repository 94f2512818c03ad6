use zulu::{NumeralErr, ParseHoursMinutesErr, Time};

#[test]
fn reads_hours_and_minutes() {
    assert_eq!(Time::from_str("9:15"), Ok(Time { hours: 9, minutes: 15 }));
    assert_eq!(Time::from_str("21:15"), Ok(Time { hours: 21, minutes: 15 }));
    assert_eq!(Time::from_str("0:00"), Ok(Time { hours: 0, minutes: 0 }));
    assert_eq!(Time::from_str("23:59"), Ok(Time { hours: 23, minutes: 59 }));
}

#[test]
fn every_written_time_reads_back() {
    let mut hours: u16 = 0;
    while hours <= 255 {
        let mut minutes: u16 = 0;
        while minutes <= 59 {
            let expected = Ok(Time { hours: hours as u8, minutes: minutes as u8 });
            assert_eq!(Time::from_str(&format!("{}:{:02}", hours, minutes)), expected);
            assert_eq!(Time::from_str(&format!("{:02}:{:02}", hours, minutes)), expected);
            minutes += 1;
        }
        hours += 1;
    }
}

#[test]
fn hours_and_minutes_are_not_held_to_the_clock() {
    assert_eq!(Time::from_str("25:00"), Ok(Time { hours: 25, minutes: 0 }));
    assert_eq!(Time::from_str("7:99"), Ok(Time { hours: 7, minutes: 99 }));
    assert_eq!(Time::from_str("255:255"), Ok(Time { hours: 255, minutes: 255 }));
    assert!(!Time { hours: 24, minutes: 0 }.in_range());
    assert!(!Time { hours: 7, minutes: 60 }.in_range());
    assert!(Time { hours: 23, minutes: 59 }.in_range());
    assert!(Time { hours: 0, minutes: 0 }.in_range());
}

#[test]
fn sign_and_leading_zeros() {
    assert_eq!(Time::from_str("+9:+15"), Ok(Time { hours: 9, minutes: 15 }));
    assert_eq!(Time::from_str("009:015"), Ok(Time { hours: 9, minutes: 15 }));
    assert_eq!(Time::from_str("9:5"), Ok(Time { hours: 9, minutes: 5 }));
    assert_eq!(Time::from_str("0000000255:0"), Ok(Time { hours: 255, minutes: 0 }));
}

#[test]
fn one_field_is_missing_minutes() {
    assert_eq!(Time::from_str("9"), Err(ParseHoursMinutesErr::MissingMinutes));
    assert_eq!(Time::from_str("915"), Err(ParseHoursMinutesErr::Hours(NumeralErr::TooLarge)));
    assert_eq!(Time::from_str("21"), Err(ParseHoursMinutesErr::MissingMinutes));
}

#[test]
fn three_fields_are_bad_format() {
    assert_eq!(Time::from_str("9:15:00"), Err(ParseHoursMinutesErr::BadFormat));
    assert_eq!(Time::from_str("9:15:"), Err(ParseHoursMinutesErr::BadFormat));
    assert_eq!(Time::from_str("9:15:xx"), Err(ParseHoursMinutesErr::BadFormat));
    assert_eq!(Time::from_str("1:2:3:4"), Err(ParseHoursMinutesErr::BadFormat));
}

#[test]
fn the_first_fault_wins() {
    assert_eq!(Time::from_str("x"), Err(ParseHoursMinutesErr::Hours(NumeralErr::InvalidDigit)));
    assert_eq!(
        Time::from_str("x:15:00"),
        Err(ParseHoursMinutesErr::Hours(NumeralErr::InvalidDigit))
    );
    assert_eq!(
        Time::from_str("9:x:00"),
        Err(ParseHoursMinutesErr::Minutes(NumeralErr::InvalidDigit))
    );
    assert_eq!(Time::from_str("9::00"), Err(ParseHoursMinutesErr::Minutes(NumeralErr::Empty)));
}

#[test]
fn the_empty_text_is_missing_hours() {
    assert_eq!(Time::from_str(""), Err(ParseHoursMinutesErr::MissingHours));
    assert_eq!(Time::from_str("").unwrap_err().message(), "missing hours");
}

#[test]
fn empty_fields() {
    assert_eq!(Time::from_str(":"), Err(ParseHoursMinutesErr::Hours(NumeralErr::Empty)));
    assert_eq!(Time::from_str(":15"), Err(ParseHoursMinutesErr::Hours(NumeralErr::Empty)));
    assert_eq!(Time::from_str("9:"), Err(ParseHoursMinutesErr::Minutes(NumeralErr::Empty)));
}

#[test]
fn fields_that_are_no_numbers() {
    let invalid = NumeralErr::InvalidDigit;
    assert_eq!(Time::from_str("nine:15"), Err(ParseHoursMinutesErr::Hours(invalid)));
    assert_eq!(Time::from_str(" 9:15"), Err(ParseHoursMinutesErr::Hours(invalid)));
    assert_eq!(Time::from_str("9 :15"), Err(ParseHoursMinutesErr::Hours(invalid)));
    assert_eq!(Time::from_str("-9:15"), Err(ParseHoursMinutesErr::Hours(invalid)));
    assert_eq!(Time::from_str("+:15"), Err(ParseHoursMinutesErr::Hours(invalid)));
    assert_eq!(Time::from_str("++9:15"), Err(ParseHoursMinutesErr::Hours(invalid)));
    assert_eq!(Time::from_str("9:15 "), Err(ParseHoursMinutesErr::Minutes(invalid)));
    assert_eq!(Time::from_str("9:1_5"), Err(ParseHoursMinutesErr::Minutes(invalid)));
    assert_eq!(Time::from_str("9:15pm"), Err(ParseHoursMinutesErr::Minutes(invalid)));
    assert_eq!(Time::from_str("9.15"), Err(ParseHoursMinutesErr::Hours(invalid)));
    assert_eq!(Time::from_str("\u{ff19}:15"), Err(ParseHoursMinutesErr::Hours(invalid)));
    assert_eq!(Time::from_str("9:\u{0661}\u{0665}"), Err(ParseHoursMinutesErr::Minutes(invalid)));
}

#[test]
fn numbers_above_eight_bits() {
    let large = NumeralErr::TooLarge;
    assert_eq!(Time::from_str("256:00"), Err(ParseHoursMinutesErr::Hours(large)));
    assert_eq!(Time::from_str("9:256"), Err(ParseHoursMinutesErr::Minutes(large)));
    assert_eq!(Time::from_str("9:1000"), Err(ParseHoursMinutesErr::Minutes(large)));
    assert_eq!(Time::from_str("99999999999999999999999:1"), Err(ParseHoursMinutesErr::Hours(large)));
    // The digits are read before what follows them is looked at.
    assert_eq!(Time::from_str("999x:1"), Err(ParseHoursMinutesErr::Hours(large)));
    assert_eq!(Time::from_str("25x:1"), Err(ParseHoursMinutesErr::Hours(NumeralErr::InvalidDigit)));
}

#[test]
fn faults_agree_with_the_standard_parser() {
    let fields = [
        "", "+", "-", "0", "7", "007", "+7", "-7", "255", "256", "0255", "999", "999x", "25x",
        "x25", "2 5", " 25", "25 ", "1_0", "12345678901234567890", "\u{ff19}", "9\u{0661}", "+-1",
        "++1", "1+", "300", "1000000x",
    ];
    for field in fields {
        let text = format!("{}:0", field);
        match (field.parse::<u8>(), Time::from_str(&text)) {
            (Ok(number), Ok(time)) => assert_eq!(time, Time { hours: number, minutes: 0 }),
            (Err(std_err), Err(ParseHoursMinutesErr::Hours(e))) => {
                assert_eq!(e.message(), std_err.to_string(), "field {:?}", field)
            },
            (std_result, ours) => panic!("field {:?}: {:?} against {:?}", field, std_result, ours),
        }
    }
}

#[test]
fn messages_name_the_field() {
    assert_eq!(ParseHoursMinutesErr::MissingHours.message(), "missing hours");
    assert_eq!(ParseHoursMinutesErr::MissingMinutes.message(), "missing minutes");
    assert_eq!(ParseHoursMinutesErr::BadFormat.message(), "bad time format");
    assert_eq!(
        ParseHoursMinutesErr::Hours(NumeralErr::InvalidDigit).message(),
        "unable to parse hours: invalid digit found in string"
    );
    assert_eq!(
        ParseHoursMinutesErr::Hours(NumeralErr::Empty).message(),
        "unable to parse hours: cannot parse integer from empty string"
    );
    assert_eq!(
        ParseHoursMinutesErr::Minutes(NumeralErr::TooLarge).message(),
        "unable to parse minutes: number too large to fit in target type"
    );
    assert_eq!(
        Time::from_str("9:6o").unwrap_err().message(),
        "unable to parse minutes: invalid digit found in string"
    );
    assert_eq!(Time::from_str("12").unwrap_err().message(), "missing minutes");
    assert_eq!(Time::from_str("1:2:3").unwrap_err().message(), "bad time format");
}

#[test]
fn numeral_messages() {
    assert_eq!(NumeralErr::Empty.message(), "cannot parse integer from empty string");
    assert_eq!(NumeralErr::InvalidDigit.message(), "invalid digit found in string");
    assert_eq!(NumeralErr::TooLarge.message(), "number too large to fit in target type");
}
