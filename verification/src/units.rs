//! The closed unit vocabulary: a handful of unit words map to a unit code,
//! anything else reports unrecognized (which never fails an ingredient).

use vstd::prelude::*;

use crate::errors::RecipeError;
use crate::text::chars_of;
use crate::text::string_from_chars;

verus! {

/// A unit of measure drawn from the closed vocabulary.
#[allow(non_camel_case_types)]
#[derive(Debug, Clone, Copy, PartialEq, Eq)]
pub enum Unit {
    TABLESPOON,
    TEASPOON,
    CUP,
    LB,
    CONTAINER,
}

/// An upper-case ASCII letter folded to lower case; everything else kept.
pub open spec fn ascii_lower(c: char) -> char {
    if 65 <= c as u32 && c as u32 <= 90 {
        (((c as u32) + 32) as u8) as char
    } else {
        c
    }
}

/// Each character folded by `ascii_lower`.
pub open spec fn lower_seq(s: Seq<char>) -> Seq<char> {
    s.map_values(|c: char| ascii_lower(c))
}

/// The closed vocabulary, read on an already lower-cased word: singular and
/// plural of tablespoon, teaspoon, cup, pound (with its abbreviation), and
/// container. Any other word is unrecognized.
pub open spec fn unit_code_of(low: Seq<char>) -> Option<Unit> {
    if low == "tablespoon"@ || low == "tablespoons"@ {
        Some(Unit::TABLESPOON)
    } else if low == "teaspoon"@ || low == "teaspoons"@ {
        Some(Unit::TEASPOON)
    } else if low == "cup"@ || low == "cups"@ {
        Some(Unit::CUP)
    } else if low == "lb"@ || low == "lbs"@ || low == "pound"@ || low == "pounds"@ {
        Some(Unit::LB)
    } else if low == "container"@ || low == "containers"@ {
        Some(Unit::CONTAINER)
    } else {
        None
    }
}

/// Two strings hold the same characters.
pub fn str_eq(a: &str, b: &str) -> (r: bool)
    ensures
        r == (a@ == b@),
{
    let sa: String = a.to_owned();
    let sb: String = b.to_owned();
    sa == sb
}

/// The input with upper-case ASCII letters folded to lower case.
pub fn ascii_lowercase(s: &str) -> (r: String)
    ensures
        r@ == lower_seq(s@),
{
    let v = chars_of(s);
    let mut out: Vec<char> = Vec::new();
    let mut i: usize = 0;
    while i < v.len()
        invariant
            i <= v@.len(),
            out@ == lower_seq(v@.take(i as int)),
        decreases v@.len() - i,
    {
        let c = v[i];
        let code = c as u32;
        if 65 <= code && code <= 90 {
            out.push(((code + 32) as u8) as char);
        } else {
            out.push(c);
        }
        i = i + 1;
        proof {
            assert(out@ =~= lower_seq(v@.take(i as int)));
        }
    }
    proof {
        assert(v@.take(v@.len() as int) =~= v@);
    }
    string_from_chars(&out)
}

impl Unit {
    /// Classifies a unit word, case-insensitively over ASCII. Succeeds
    /// exactly when the folded word is in the closed vocabulary.
    pub fn from(s: &str) -> (r: Result<Unit, RecipeError>)
        ensures
            match r {
                Ok(u) => unit_code_of(lower_seq(s@)) == Some(u),
                Err(_) => unit_code_of(lower_seq(s@)) is None,
            },
    {
        let low = ascii_lowercase(s);
        let w = low.as_str();
        if str_eq(w, "tablespoon") || str_eq(w, "tablespoons") {
            Ok(Unit::TABLESPOON)
        } else if str_eq(w, "teaspoon") || str_eq(w, "teaspoons") {
            Ok(Unit::TEASPOON)
        } else if str_eq(w, "cup") || str_eq(w, "cups") {
            Ok(Unit::CUP)
        } else if str_eq(w, "lb") || str_eq(w, "lbs") || str_eq(w, "pound") || str_eq(w, "pounds") {
            Ok(Unit::LB)
        } else if str_eq(w, "container") || str_eq(w, "containers") {
            Ok(Unit::CONTAINER)
        } else {
            Err(RecipeError::FieldDecodeError(low))
        }
    }
}

} // verus!
