use zulu::{Meridian, MeridianErr};

#[test]
fn the_four_spellings() {
    assert_eq!(Meridian::from_str("AM"), Ok(Meridian::AM));
    assert_eq!(Meridian::from_str("am"), Ok(Meridian::AM));
    assert_eq!(Meridian::from_str("PM"), Ok(Meridian::PM));
    assert_eq!(Meridian::from_str("pm"), Ok(Meridian::PM));
}

#[test]
fn mixed_case_is_no_marker() {
    assert_eq!(Meridian::from_str("Am"), Err(MeridianErr("Am".to_string())));
    assert_eq!(Meridian::from_str("aM"), Err(MeridianErr("aM".to_string())));
    assert_eq!(Meridian::from_str("Pm"), Err(MeridianErr("Pm".to_string())));
    assert_eq!(Meridian::from_str("pM"), Err(MeridianErr("pM".to_string())));
}

#[test]
fn other_texts_are_no_markers() {
    let texts = [
        "", "A", "M", "a", "p", "AP", "MA", "am ", " am", "a.m.", "AMM", "PMs", "noon", "a m",
        "\u{ff21}\u{ff2d}", "A\u{0301}M", "am\n", "pm\0",
    ];
    for text in texts {
        assert_eq!(Meridian::from_str(text), Err(MeridianErr(text.to_string())));
    }
}

#[test]
fn the_error_names_the_text() {
    let e = Meridian::from_str("noon").unwrap_err();
    assert_eq!(e.0, "noon");
    assert_eq!(e.message(), "unknown am/pm marker: noon");
    assert_eq!(MeridianErr(String::new()).message(), "unknown am/pm marker: ");
}

#[test]
fn is_pm_tells_the_halves_apart() {
    assert!(!Meridian::AM.is_pm());
    assert!(Meridian::PM.is_pm());
}

#[test]
fn noon_starts_the_second_half() {
    let mut hour: u8 = 0;
    while hour < 24 {
        let expected = if hour < 12 { Meridian::AM } else { Meridian::PM };
        assert_eq!(Meridian::of_hour(hour), expected);
        hour += 1;
    }
}
