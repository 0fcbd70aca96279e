//! The tool's input-resolution and output policy: what reading to work
//! on, and which report lines to print for it.

use vstd::prelude::*;

use crate::decimal::MAX_NUMERAL_DIGITS;
use crate::decimal::numeral_den;
use crate::decimal::numeral_digit_count;
use crate::decimal::numeral_num;
use crate::decimal::parse_numeral;
use crate::decimal::valid_numeral;
use crate::decimal::value_text;
use crate::rational::Rational;
use crate::scale::Scale;
use crate::scale::name_of;
use crate::scale::symbol_of;
use crate::temperature::Temperature;
use crate::temperature::convert_rat;

verus! {

/// Is `c` an ASCII whitespace character?
pub open spec fn is_space(c: char) -> bool {
    c == ' ' || c == '\t' || c == '\n' || c == '\r' || c == '\u{b}' || c == '\u{c}'
}

/// `s` without trailing whitespace.
pub open spec fn trim_end(s: Seq<char>) -> Seq<char>
    decreases s.len(),
{
    if s.len() > 0 && is_space(s.last()) {
        trim_end(s.drop_last())
    } else {
        s
    }
}

/// `s` without leading whitespace.
pub open spec fn trim_start(s: Seq<char>) -> Seq<char>
    decreases s.len(),
{
    if s.len() > 0 && is_space(s[0]) {
        trim_start(s.drop_first())
    } else {
        s
    }
}

/// `s` without whitespace on either side.
pub open spec fn trim_text(s: Seq<char>) -> Seq<char> {
    trim_start(trim_end(s))
}

fn is_space_char(c: char) -> (b: bool)
    ensures
        b == is_space(c),
{
    c == ' ' || c == '\t' || c == '\n' || c == '\r' || c == '\u{b}' || c == '\u{c}'
}

/// The slice of `s` without leading and trailing whitespace.
pub fn trimmed(s: &str) -> (r: &str)
    ensures
        r@ == trim_text(s@),
{
    let n = s.unicode_len();
    proof {
        assert(s@.take(n as int) =~= s@);
    }
    let mut end: usize = n;
    while end > 0 && is_space_char(s.get_char(end - 1))
        invariant
            end <= n,
            n == s@.len(),
            trim_end(s@) == trim_end(s@.take(end as int)),
        decreases end,
    {
        proof {
            assert(s@.take(end as int).last() == s@[end - 1]);
            assert(s@.take(end as int).drop_last() =~= s@.take(end - 1));
        }
        end = end - 1;
    }
    proof {
        if end == 0 {
            assert(s@.take(0) =~= Seq::<char>::empty());
        }
        assert(trim_end(s@) == s@.take(end as int));
    }
    let mut start: usize = 0;
    while start < end && is_space_char(s.get_char(start))
        invariant
            start <= end <= n,
            n == s@.len(),
            trim_end(s@) == s@.take(end as int),
            trim_start(s@.take(end as int)) == trim_start(s@.subrange(start as int, end as int)),
        decreases end - start,
    {
        proof {
            assert(s@.subrange(start as int, end as int)[0] == s@[start as int]);
            assert(s@.subrange(start as int, end as int).drop_first() =~= s@.subrange(
                start as int + 1,
                end as int,
            ));
        }
        start = start + 1;
    }
    proof {
        assert(trim_start(s@.subrange(start as int, end as int)) == s@.subrange(
            start as int,
            end as int,
        ));
    }
    s.substring_char(start, end)
}

/// What the tool decided to do with its inputs.
#[derive(Debug)]
pub enum Resolved {
    /// A reading to convert.
    Ready(Temperature),
    /// Nothing to do: the caller should present usage guidance and
    /// finish successfully.
    NoInput,
    /// Piped text that is not a numeral: the caller should report the
    /// diagnostic and fail.
    InvalidNumber(String),
}

/// The input-resolution policy, in strict priority order: an explicit
/// value-and-scale pair wins; otherwise piped text is trimmed and read
/// as a Celsius reading, empty text meaning nothing to do; otherwise
/// (an interactive terminal) there is nothing to do. `piped` is `None`
/// when the input stream is an interactive terminal or yielded nothing.
pub fn resolve_input(value: Option<Rational>, scale: Option<Scale>, piped: Option<&str>) -> (r:
    Resolved)
    ensures
        value is Some && scale is Some ==> r == Resolved::Ready(
            Temperature { value: value->0, scale: scale->0 },
        ),
        !(value is Some && scale is Some) && piped is None ==> r == Resolved::NoInput,
        piped matches Some(p) ==> !(value is Some && scale is Some) ==> {
            let t = trim_text(p@);
            &&& t.len() == 0 ==> r == Resolved::NoInput
            &&& t.len() > 0 && valid_numeral(t) && numeral_digit_count(t)
                <= MAX_NUMERAL_DIGITS as int ==> (r matches Resolved::Ready(tp)
                && tp.scale == Scale::Celsius && tp.value.num as int == numeral_num(t)
                && tp.value.den as int == numeral_den(t) && tp.in_range())
            &&& t.len() > 0 && !(valid_numeral(t) && numeral_digit_count(t)
                <= MAX_NUMERAL_DIGITS as int) ==> (r matches Resolved::InvalidNumber(m)
                && m@ == "Stdin must be a valid number."@)
        },
{
    if value.is_some() && scale.is_some() {
        let v = value.unwrap();
        let sc = scale.unwrap();
        return Resolved::Ready(Temperature::new(v, sc));
    }
    match piped {
        None => Resolved::NoInput,
        Some(p) => {
            let t = trimmed(p);
            if t.is_empty() {
                Resolved::NoInput
            } else {
                match parse_numeral(t) {
                    Some(q) => Resolved::Ready(Temperature::new(q, Scale::Celsius)),
                    None => Resolved::InvalidNumber(String::from_str("Stdin must be a valid number.")),
                }
            }
        },
    }
}

/// The text of one converted reading: its value to two decimals with
/// the target scale's degree mark and symbol.
pub open spec fn scale_line_text(t: Temperature, target: Scale) -> Seq<char> {
    value_text(convert_rat(t.value@, t.scale, target)) + seq![' ', '\u{00b0}', symbol_of(target)]
}

/// One indented line of the all-scales report.
pub open spec fn item_line_text(t: Temperature, target: Scale) -> Seq<char> {
    "  - "@ + name_of(target) + ": "@ + scale_line_text(t, target)
}

/// The three scales other than `s`, in the fixed report order.
pub open spec fn other_scales(s: Scale) -> Seq<Scale> {
    match s {
        Scale::Celsius => seq![Scale::Fahrenheit, Scale::Kelvin, Scale::Rankine],
        Scale::Fahrenheit => seq![Scale::Celsius, Scale::Kelvin, Scale::Rankine],
        Scale::Kelvin => seq![Scale::Celsius, Scale::Fahrenheit, Scale::Rankine],
        Scale::Rankine => seq![Scale::Celsius, Scale::Fahrenheit, Scale::Kelvin],
    }
}

/// The report: the input line, then either the one requested conversion
/// or one line per other scale in the fixed order Celsius, Fahrenheit,
/// Kelvin, Rankine.
pub open spec fn report_lines(t: Temperature, target: Option<Scale>) -> Seq<Seq<char>> {
    match target {
        Some(ts) => seq!["Input: "@ + t.display_text(), "Converted: "@ + scale_line_text(t, ts)],
        None => seq!["Input: "@ + t.display_text(), "Converted:"@] + other_scales(t.scale).map(
            |i: int, sc: Scale| item_line_text(t, sc),
        ),
    }
}

fn render_item_line(t: &Temperature, target: Scale) -> (l: String)
    requires
        t.in_range(),
    ensures
        l@ == item_line_text(*t, target),
{
    let mut l = String::from_str("  - ");
    l.append(target.name());
    l.append(": ");
    let converted = t.convert_to(target);
    let text = converted.display_string();
    l.append(text.as_str());
    proof {
        assert(l@ =~= item_line_text(*t, target));
    }
    l
}

/// Renders the report for the resolved reading `t`: with a target, the
/// input line and the one conversion; without one, the input line, a
/// header, and each other scale's conversion in the fixed order.
pub fn render_report(t: &Temperature, target: Option<Scale>) -> (r: Vec<String>)
    requires
        t.in_range(),
    ensures
        r@.len() == report_lines(*t, target).len(),
        forall|i: int| 0 <= i < r@.len() ==> r@[i]@ == report_lines(*t, target)[i],
{
    let mut lines: Vec<String> = Vec::new();
    let mut first = String::from_str("Input: ");
    let own_text = t.display_string();
    first.append(own_text.as_str());
    lines.push(first);
    match target {
        Some(ts) => {
            let mut l = String::from_str("Converted: ");
            let converted = t.convert_to(ts);
            let text = converted.display_string();
            l.append(text.as_str());
            lines.push(l);
            proof {
                assert(lines@[0]@ == report_lines(*t, target)[0]);
                assert(lines@[1]@ == report_lines(*t, target)[1]);
            }
        },
        None => {
            lines.push(String::from_str("Converted:"));
            if !matches!(t.scale, Scale::Celsius) {
                let l = render_item_line(t, Scale::Celsius);
                lines.push(l);
            }
            if !matches!(t.scale, Scale::Fahrenheit) {
                let l = render_item_line(t, Scale::Fahrenheit);
                lines.push(l);
            }
            if !matches!(t.scale, Scale::Kelvin) {
                let l = render_item_line(t, Scale::Kelvin);
                lines.push(l);
            }
            if !matches!(t.scale, Scale::Rankine) {
                let l = render_item_line(t, Scale::Rankine);
                lines.push(l);
            }
            proof {
                let expect = report_lines(*t, target);
                assert(lines@.len() == 5);
                assert(lines@[0]@ == expect[0]);
                assert(lines@[1]@ == expect[1]);
                assert(lines@[2]@ == expect[2]);
                assert(lines@[3]@ == expect[3]);
                assert(lines@[4]@ == expect[4]);
            }
        },
    }
    lines
}

} // verus!
