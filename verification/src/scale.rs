//! The four temperature scales and their case-insensitive name parser.

use vstd::prelude::*;

verus! {

/// One of the four supported temperature scales.
#[derive(Debug, PartialEq, Eq, Structural, Clone, Copy)]
pub enum Scale {
    Celsius,
    Fahrenheit,
    Kelvin,
    Rankine,
}

/// The code point of `c` with an ASCII upper-case letter folded to lower case.
pub open spec fn lower_cp(c: char) -> int {
    if 65 <= c as int <= 90 {
        c as int + 32
    } else {
        c as int
    }
}

/// `s` equals `t` after ASCII case folding of `s` (`t` is meant lower case).
pub open spec fn matches_ci(s: Seq<char>, t: Seq<char>) -> bool {
    s.len() == t.len() && forall|i: int| 0 <= i < s.len() ==> lower_cp(s[i]) == t[i] as int
}

/// The scale a token names, or `None` for an unrecognized token.
pub open spec fn scale_of_token(s: Seq<char>) -> Option<Scale> {
    if matches_ci(s, "c"@) || matches_ci(s, "celsius"@) {
        Some(Scale::Celsius)
    } else if matches_ci(s, "f"@) || matches_ci(s, "fahrenheit"@) {
        Some(Scale::Fahrenheit)
    } else if matches_ci(s, "k"@) || matches_ci(s, "kelvin"@) {
        Some(Scale::Kelvin)
    } else if matches_ci(s, "r"@) || matches_ci(s, "rankine"@) {
        Some(Scale::Rankine)
    } else {
        None
    }
}

/// Case-insensitive comparison of `s` against a lower-case token `t`.
fn eq_ignore_case(s: &str, t: &str) -> (b: bool)
    ensures
        b == matches_ci(s@, t@),
{
    let n = s.unicode_len();
    if n != t.unicode_len() {
        return false;
    }
    for i in 0..n
        invariant
            n == s@.len(),
            n == t@.len(),
            forall|j: int| 0 <= j < i ==> lower_cp(s@[j]) == t@[j] as int,
    {
        let cu = s.get_char(i) as u32;
        let tu = t.get_char(i) as u32;
        let folded: u32 = if 65 <= cu && cu <= 90 {
            cu + 32
        } else {
            cu
        };
        if folded != tu {
            return false;
        }
    }
    true
}

impl Scale {
    /// Parses a scale name: `"c"`/`"celsius"`, `"f"`/`"fahrenheit"`,
    /// `"k"`/`"kelvin"`, `"r"`/`"rankine"`, each accepted in any letter case.
    /// Any other token is rejected with a message naming it.
    pub fn parse(s: &str) -> (r: Result<Scale, String>)
        ensures
            r is Ok <==> scale_of_token(s@) is Some,
            r matches Ok(sc) ==> scale_of_token(s@) == Some(sc),
            r matches Err(m) ==> m@ == "'"@ + s@
                + "' is not a valid scale. Use 'celsius', 'fahrenheit', 'kelvin', or 'rankine'."@,
    {
        if eq_ignore_case(s, "c") || eq_ignore_case(s, "celsius") {
            Ok(Scale::Celsius)
        } else if eq_ignore_case(s, "f") || eq_ignore_case(s, "fahrenheit") {
            Ok(Scale::Fahrenheit)
        } else if eq_ignore_case(s, "k") || eq_ignore_case(s, "kelvin") {
            Ok(Scale::Kelvin)
        } else if eq_ignore_case(s, "r") || eq_ignore_case(s, "rankine") {
            Ok(Scale::Rankine)
        } else {
            let mut m = String::from_str("'");
            m.append(s);
            m.append("' is not a valid scale. Use 'celsius', 'fahrenheit', 'kelvin', or 'rankine'.");
            Err(m)
        }
    }

    /// The canonical capitalized name of the scale.
    pub fn name(&self) -> (r: &'static str)
        ensures
            r@ == name_of(*self),
    {
        match self {
            Scale::Celsius => "Celsius",
            Scale::Fahrenheit => "Fahrenheit",
            Scale::Kelvin => "Kelvin",
            Scale::Rankine => "Rankine",
        }
    }

    /// The single-letter symbol of the scale: the first letter of its name.
    pub fn symbol(&self) -> (r: &'static str)
        ensures
            r@ == seq![symbol_of(*self)],
    {
        match self {
            Scale::Celsius => {
                proof {
                    reveal_strlit("C");
                    assert("C"@ =~= seq!['C']);
                }
                "C"
            },
            Scale::Fahrenheit => {
                proof {
                    reveal_strlit("F");
                    assert("F"@ =~= seq!['F']);
                }
                "F"
            },
            Scale::Kelvin => {
                proof {
                    reveal_strlit("K");
                    assert("K"@ =~= seq!['K']);
                }
                "K"
            },
            Scale::Rankine => {
                proof {
                    reveal_strlit("R");
                    assert("R"@ =~= seq!['R']);
                }
                "R"
            },
        }
    }
}

/// The canonical capitalized name of a scale.
pub open spec fn name_of(s: Scale) -> Seq<char> {
    match s {
        Scale::Celsius => "Celsius"@,
        Scale::Fahrenheit => "Fahrenheit"@,
        Scale::Kelvin => "Kelvin"@,
        Scale::Rankine => "Rankine"@,
    }
}

/// The single-letter display symbol of a scale.
pub open spec fn symbol_of(s: Scale) -> char {
    match s {
        Scale::Celsius => 'C',
        Scale::Fahrenheit => 'F',
        Scale::Kelvin => 'K',
        Scale::Rankine => 'R',
    }
}

impl core::str::FromStr for Scale {
    type Err = String;

    fn from_str(s: &str) -> Result<Scale, String> {
        Scale::parse(s)
    }
}

} // verus!
