//! Concrete checks of the library's stated behaviour: parsing, exact
//! conversions, two-decimal display, resolution, and report lines.

use temp_converter::{parse_numeral, render_report, resolve_input, Rational, Resolved, Scale,
    Temperature};

#[test]
fn scale_parse_is_case_insensitive() {
    assert_eq!(Scale::parse("celsius").unwrap(), Scale::Celsius);
    assert_eq!(Scale::parse("C").unwrap(), Scale::Celsius);
    assert_eq!(Scale::parse("c").unwrap(), Scale::Celsius);
    assert_eq!(Scale::parse("FAHRENHEIT").unwrap(), Scale::Fahrenheit);
    assert_eq!(Scale::parse("Kelvin").unwrap(), Scale::Kelvin);
    assert_eq!(Scale::parse("r").unwrap(), Scale::Rankine);
}

#[test]
fn scale_parse_rejects_unknown_token() {
    let err = Scale::parse("bogus").unwrap_err();
    assert_eq!(
        err,
        "'bogus' is not a valid scale. Use 'celsius', 'fahrenheit', 'kelvin', or 'rankine'."
    );
    assert!(Scale::parse("").is_err());
    assert!(Scale::parse("cel").is_err());
}

#[test]
fn scale_names_and_symbols() {
    assert_eq!(Scale::Celsius.name(), "Celsius");
    assert_eq!(Scale::Fahrenheit.name(), "Fahrenheit");
    assert_eq!(Scale::Kelvin.name(), "Kelvin");
    assert_eq!(Scale::Rankine.name(), "Rankine");
    assert_eq!(Scale::Celsius.symbol(), "C");
    assert_eq!(Scale::Rankine.symbol(), "R");
}

#[test]
fn display_has_two_decimals_and_symbol() {
    let t = Temperature::new(Rational::from_int(100), Scale::Celsius);
    assert_eq!(t.display_string(), "100.00 °C");
    let t = Temperature::new(Rational::from_int(0), Scale::Kelvin);
    assert_eq!(t.display_string(), "0.00 °K");
    let t = Temperature::new(Rational::new(-27315, 100), Scale::Celsius);
    assert_eq!(t.display_string(), "-273.15 °C");
}

#[test]
fn display_rounds_half_away_from_zero() {
    // 1/8 = 0.125 rounds up, -1/3 rounds to two decimals toward zero's
    // far side of its truncation.
    assert_eq!(
        Temperature::new(Rational::new(1, 8), Scale::Celsius).display_string(),
        "0.13 °C"
    );
    assert_eq!(
        Temperature::new(Rational::new(-1, 3), Scale::Celsius).display_string(),
        "-0.33 °C"
    );
    assert_eq!(
        Temperature::new(Rational::new(-1, 8), Scale::Celsius).display_string(),
        "-0.13 °C"
    );
}

#[test]
fn identity_conversion_returns_the_value_unchanged() {
    let t = Temperature::new(Rational::new(12345, 100), Scale::Kelvin);
    let back = t.convert_to(Scale::Kelvin);
    assert_eq!(back.value, t.value);
    assert_eq!(back.scale, Scale::Kelvin);
}

#[test]
fn round_trip_is_exact() {
    // Convert away and back: the fractions are equal as rationals.
    let scales = [
        Scale::Celsius,
        Scale::Fahrenheit,
        Scale::Kelvin,
        Scale::Rankine,
    ];
    for &s1 in &scales {
        for &s2 in &scales {
            let t = Temperature::new(Rational::new(100, 1), s1);
            let back = t.convert_to(s2).convert_to(s1);
            assert_eq!(
                back.value.num * t.value.den,
                t.value.num * back.value.den,
                "round trip through {:?} and {:?} drifted",
                s1,
                s2
            );
        }
    }
}

#[test]
fn conversion_table_scenarios() {
    let c0 = Temperature::new(Rational::from_int(0), Scale::Celsius);
    assert_eq!(c0.to_fahrenheit().display_string(), "32.00 °F");
    assert_eq!(c0.to_kelvin().display_string(), "273.15 °K");
    assert_eq!(c0.to_rankine().display_string(), "491.67 °R");

    let c100 = Temperature::new(Rational::from_int(100), Scale::Celsius);
    assert_eq!(c100.to_fahrenheit().display_string(), "212.00 °F");

    let freezing_f = Temperature::new(Rational::from_int(32), Scale::Fahrenheit);
    assert_eq!(freezing_f.to_celsius().display_string(), "0.00 °C");
    let boiling_f = Temperature::new(Rational::from_int(212), Scale::Fahrenheit);
    assert_eq!(boiling_f.to_celsius().display_string(), "100.00 °C");

    let k = Temperature::new(Rational::new(27315, 100), Scale::Kelvin);
    assert_eq!(k.to_celsius().display_string(), "0.00 °C");
    let k0 = Temperature::new(Rational::from_int(0), Scale::Kelvin);
    assert_eq!(k0.to_celsius().display_string(), "-273.15 °C");

    let r = Temperature::new(Rational::new(49167, 100), Scale::Rankine);
    assert_eq!(r.to_celsius().display_string(), "0.00 °C");
}

#[test]
fn parse_numeral_reads_signs_points_and_fractions() {
    let q = parse_numeral("10").unwrap();
    assert_eq!((q.num, q.den), (10, 1));
    let q = parse_numeral("3.14").unwrap();
    assert_eq!((q.num, q.den), (314, 100));
    let q = parse_numeral("-.5").unwrap();
    assert_eq!((q.num, q.den), (-5, 10));
    let q = parse_numeral("+7.").unwrap();
    assert_eq!((q.num, q.den), (7, 1));
    let q = parse_numeral("007").unwrap();
    assert_eq!((q.num, q.den), (7, 1));
}

#[test]
fn parse_numeral_rejects_bad_shapes() {
    assert!(parse_numeral("").is_none());
    assert!(parse_numeral(".").is_none());
    assert!(parse_numeral("-").is_none());
    assert!(parse_numeral("1.2.3").is_none());
    assert!(parse_numeral("1e3").is_none());
    assert!(parse_numeral("12a").is_none());
    assert!(parse_numeral(" 1").is_none());
}

#[test]
fn parse_numeral_bounds_the_digit_count() {
    let thirty = "123456789012345678901234567890";
    let q = parse_numeral(thirty).unwrap();
    assert_eq!(q.num, 123456789012345678901234567890i128);
    let thirty_one = "1234567890123456789012345678901";
    assert!(parse_numeral(thirty_one).is_none());
}

#[test]
fn resolution_prefers_explicit_arguments() {
    let v = Rational::from_int(5);
    let r = resolve_input(Some(v), Some(Scale::Kelvin), Some("99"));
    match r {
        Resolved::Ready(t) => {
            assert_eq!((t.value.num, t.value.den), (5, 1));
            assert_eq!(t.scale, Scale::Kelvin);
        }
        other => panic!("expected a reading, got {:?}", other),
    }
}

#[test]
fn resolution_trims_piped_text_and_assumes_celsius() {
    let r = resolve_input(None, None, Some("  10.5 \n"));
    match r {
        Resolved::Ready(t) => {
            assert_eq!((t.value.num, t.value.den), (105, 10));
            assert_eq!(t.scale, Scale::Celsius);
        }
        other => panic!("expected a reading, got {:?}", other),
    }
}

#[test]
fn resolution_treats_blank_pipe_as_no_input() {
    assert!(matches!(resolve_input(None, None, Some("")), Resolved::NoInput));
    assert!(matches!(
        resolve_input(None, None, Some("  \n\t")),
        Resolved::NoInput
    ));
}

#[test]
fn resolution_reports_bad_piped_numbers() {
    match resolve_input(None, None, Some("ten")) {
        Resolved::InvalidNumber(m) => assert_eq!(m, "Stdin must be a valid number."),
        other => panic!("expected a diagnostic, got {:?}", other),
    }
}

#[test]
fn report_lists_the_other_scales_in_fixed_order() {
    let t = Temperature::new(Rational::from_int(10), Scale::Celsius);
    let lines = render_report(&t, None);
    assert_eq!(
        lines,
        vec![
            "Input: 10.00 °C".to_string(),
            "Converted:".to_string(),
            "  - Fahrenheit: 50.00 °F".to_string(),
            "  - Kelvin: 283.15 °K".to_string(),
            "  - Rankine: 509.67 °R".to_string(),
        ]
    );
}

#[test]
fn report_skips_the_reading_own_scale() {
    let t = Temperature::new(Rational::from_int(0), Scale::Kelvin);
    let lines = render_report(&t, None);
    assert_eq!(lines.len(), 5);
    assert!(lines.iter().skip(1).all(|l| !l.contains("°K")));
    assert_eq!(lines[2], "  - Celsius: -273.15 °C");
}

#[test]
fn report_with_target_has_one_conversion() {
    let t = Temperature::new(Rational::from_int(0), Scale::Celsius);
    let lines = render_report(&t, Some(Scale::Fahrenheit));
    assert_eq!(
        lines,
        vec!["Input: 0.00 °C".to_string(), "Converted: 32.00 °F".to_string()]
    );
}
