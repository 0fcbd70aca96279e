//! A verified temperature-conversion library.
//!
//! Temperatures are exact rational readings tagged with one of four scales
//! (Celsius, Fahrenheit, Kelvin, Rankine). The library offers scale-name
//! parsing, the sixteen conversion formulas, two-decimal display, the
//! input-resolution policy of the command-line tool, and its report lines.

pub mod decimal;
pub mod policy;
pub mod rational;
pub mod scale;
pub mod temperature;

pub use decimal::parse_numeral;
pub use policy::Resolved;
pub use policy::render_report;
pub use policy::resolve_input;
pub use rational::Rat;
pub use rational::Rational;
pub use scale::Scale;
pub use temperature::Temperature;
