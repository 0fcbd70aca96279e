use temp_converter::{Rational, Scale, Temperature};

const ABSOLUTE_ZERO_C: f64 = -273.15;
const WATER_FREEZING_C: f64 = 0.0;
const WATER_BOILING_C: f64 = 100.0;

fn assert_approx_eq(a: f64, b: f64) {
    assert!(
        (a - b).abs() < 1e-9,
        "{} is not approximately equal to {}",
        a,
        b
    );
}

fn value_f64(t: &Temperature) -> f64 {
    t.value.num as f64 / t.value.den as f64
}

#[test]
fn test_celsius_to_fahrenheit() {
    let temp = Temperature::new(Rational::from_int(0), Scale::Celsius);
    assert_approx_eq(value_f64(&temp.to_fahrenheit()), 32.0);

    let temp = Temperature::new(Rational::from_int(100), Scale::Celsius);
    assert_approx_eq(value_f64(&temp.to_fahrenheit()), 212.0);
}

#[test]
fn test_celsius_to_kelvin() {
    let temp = Temperature::new(Rational::from_int(0), Scale::Celsius);
    assert_approx_eq(value_f64(&temp.to_kelvin()), 273.15);

    let temp = Temperature::new(Rational::new(-27315, 100), Scale::Celsius);
    assert_approx_eq(value_f64(&temp.to_kelvin()), 0.0);
}

#[test]
fn test_celsius_to_rankine() {
    let temp = Temperature::new(Rational::from_int(0), Scale::Celsius);
    assert_approx_eq(value_f64(&temp.to_rankine()), 491.67);
}

#[test]
fn test_fahrenheit_to_celsius() {
    let temp = Temperature::new(Rational::from_int(32), Scale::Fahrenheit);
    assert_approx_eq(value_f64(&temp.to_celsius()), WATER_FREEZING_C);

    let temp = Temperature::new(Rational::from_int(212), Scale::Fahrenheit);
    assert_approx_eq(value_f64(&temp.to_celsius()), WATER_BOILING_C);
}

#[test]
fn test_kelvin_to_celsius() {
    let temp = Temperature::new(Rational::new(27315, 100), Scale::Kelvin);
    assert_approx_eq(value_f64(&temp.to_celsius()), WATER_FREEZING_C);

    let temp = Temperature::new(Rational::from_int(0), Scale::Kelvin);
    assert_approx_eq(value_f64(&temp.to_celsius()), ABSOLUTE_ZERO_C);
}

#[test]
fn test_rankine_to_celsius() {
    let temp = Temperature::new(Rational::new(49167, 100), Scale::Rankine);
    assert_approx_eq(value_f64(&temp.to_celsius()), WATER_FREEZING_C);
}

#[test]
fn test_scale_from_str() {
    assert_eq!("celsius".parse::<Scale>().unwrap(), Scale::Celsius);
    assert_eq!("f".parse::<Scale>().unwrap(), Scale::Fahrenheit);
    assert!("invalid".parse::<Scale>().is_err());
}
