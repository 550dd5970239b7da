//! The duration grammar: free-text time phrases such as "1 hour 20 minutes"
//! become a total-minutes integer.
//!
//! The grammar, anchored at both ends, is: optional whitespace, an optional
//! integer followed by an hour word (hour, hours, hr, hrs), an optional
//! integer followed by a minute word (minute, minutes, min, mins), optional
//! whitespace. Both parts may be absent, which yields zero minutes; text
//! that cannot match at all is a failure, as is a total that does not fit.

use vstd::prelude::*;

use crate::errors::RecipeError;
use crate::numbers::is_digit;
use crate::numbers::num_end;
use crate::numbers::num_val;
use crate::numbers::parse_number;
use crate::text::chars_of;
use crate::text::is_space;
use crate::text::is_space_char;

verus! {

/// The first position at or after `i` holding a non-whitespace character.
pub open spec fn ws_end(s: Seq<char>, i: int) -> int
    decreases s.len() - i,
{
    if 0 <= i < s.len() && is_space_char(s[i]) {
        ws_end(s, i + 1)
    } else {
        i
    }
}

/// Where an hour word beginning at `i` ends: "hour" or "hr", either with an
/// optional trailing "s".
pub open spec fn hour_word_end(s: Seq<char>, i: int) -> Option<int> {
    if i + 4 <= s.len() && s[i] == 'h' && s[i + 1] == 'o' && s[i + 2] == 'u' && s[i + 3] == 'r' {
        if i + 5 <= s.len() && s[i + 4] == 's' {
            Some(i + 5)
        } else {
            Some(i + 4)
        }
    } else if i + 2 <= s.len() && s[i] == 'h' && s[i + 1] == 'r' {
        if i + 3 <= s.len() && s[i + 2] == 's' {
            Some(i + 3)
        } else {
            Some(i + 2)
        }
    } else {
        None
    }
}

/// Where a minute word beginning at `i` ends: "minute" or "min", either with
/// an optional trailing "s".
pub open spec fn minute_word_end(s: Seq<char>, i: int) -> Option<int> {
    if i + 6 <= s.len() && s[i] == 'm' && s[i + 1] == 'i' && s[i + 2] == 'n' && s[i + 3] == 'u'
        && s[i + 4] == 't' && s[i + 5] == 'e' {
        if i + 7 <= s.len() && s[i + 6] == 's' {
            Some(i + 7)
        } else {
            Some(i + 6)
        }
    } else if i + 3 <= s.len() && s[i] == 'm' && s[i + 1] == 'i' && s[i + 2] == 'n' {
        if i + 4 <= s.len() && s[i + 3] == 's' {
            Some(i + 4)
        } else {
            Some(i + 3)
        }
    } else {
        None
    }
}

/// `hours * 60 + minutes`, when it fits a `u32`.
pub open spec fn checked_total(hours: nat, minutes: nat) -> Option<u32> {
    if hours * 60 + minutes <= u32::MAX {
        Some((hours * 60 + minutes) as u32)
    } else {
        None
    }
}

/// The minute-part tail beginning at position `i`: an integer, a minute
/// word, then whitespace to the end.
pub open spec fn minutes_part(s: Seq<char>, i: int) -> Option<nat> {
    if i < s.len() && is_digit(s[i]) {
        let j = num_end(s, i);
        let k = ws_end(s, j);
        match minute_word_end(s, k) {
            Some(m) => {
                if ws_end(s, m) == s.len() {
                    Some(num_val(s, i, j))
                } else {
                    None
                }
            },
            None => None,
        }
    } else {
        None
    }
}

/// What the duration grammar makes of a phrase: the total minutes, or
/// nothing where the phrase cannot match or the total overflows.
pub open spec fn duration_minutes(s: Seq<char>) -> Option<u32> {
    let i0 = ws_end(s, 0);
    if i0 == s.len() {
        Some(0u32)
    } else if is_digit(s[i0]) {
        let i1 = num_end(s, i0);
        let n1 = num_val(s, i0, i1);
        let i2 = ws_end(s, i1);
        match hour_word_end(s, i2) {
            Some(i3) => {
                let i4 = ws_end(s, i3);
                if i4 == s.len() {
                    checked_total(n1, 0)
                } else {
                    match minutes_part(s, i4) {
                        Some(n2) => checked_total(n1, n2),
                        None => None,
                    }
                }
            },
            None => match minute_word_end(s, i2) {
                Some(i3) => {
                    if ws_end(s, i3) == s.len() {
                        checked_total(0, n1)
                    } else {
                        None
                    }
                },
                None => None,
            },
        }
    } else {
        None
    }
}

/// Parsing into a `u32`, named after the type it extends.
pub trait U32Ext {
    /// Reads a free-text duration phrase as total minutes. Returns `Ok`
    /// exactly when the grammar matches and the total fits.
    fn from_time_str(s: &str) -> (r: Result<u32, RecipeError>)
        ensures
            match r {
                Ok(t) => duration_minutes(s@) == Some(t),
                Err(_) => duration_minutes(s@) is None,
            },
    ;
}

fn skip_ws(v: &Vec<char>, i: usize) -> (r: usize)
    requires
        i <= v@.len(),
    ensures
        r == ws_end(v@, i as int),
        i <= r <= v@.len(),
    decreases v@.len() - i,
{
    if i < v.len() {
        if is_space(v[i]) {
            return skip_ws(v, i + 1);
        }
    }
    i
}

fn match_hour_word(v: &Vec<char>, i: usize) -> (r: Option<usize>)
    requires
        i <= v@.len(),
    ensures
        match r {
            Some(j) => hour_word_end(v@, i as int) == Some(j as int) && i <= j <= v@.len(),
            None => hour_word_end(v@, i as int) is None,
        },
{
    let n = v.len();
    if n - i >= 4 && v[i] == 'h' && v[i + 1] == 'o' && v[i + 2] == 'u' && v[i + 3] == 'r' {
        if n - i >= 5 && v[i + 4] == 's' {
            Some(i + 5)
        } else {
            Some(i + 4)
        }
    } else if n - i >= 2 && v[i] == 'h' && v[i + 1] == 'r' {
        if n - i >= 3 && v[i + 2] == 's' {
            Some(i + 3)
        } else {
            Some(i + 2)
        }
    } else {
        None
    }
}

fn match_minute_word(v: &Vec<char>, i: usize) -> (r: Option<usize>)
    requires
        i <= v@.len(),
    ensures
        match r {
            Some(j) => minute_word_end(v@, i as int) == Some(j as int) && i <= j <= v@.len(),
            None => minute_word_end(v@, i as int) is None,
        },
{
    let n = v.len();
    if n - i >= 6 && v[i] == 'm' && v[i + 1] == 'i' && v[i + 2] == 'n' && v[i + 3] == 'u' && v[i
        + 4] == 't' && v[i + 5] == 'e' {
        if n - i >= 7 && v[i + 6] == 's' {
            Some(i + 7)
        } else {
            Some(i + 6)
        }
    } else if n - i >= 3 && v[i] == 'm' && v[i + 1] == 'i' && v[i + 2] == 'n' {
        if n - i >= 4 && v[i + 3] == 's' {
            Some(i + 4)
        } else {
            Some(i + 3)
        }
    } else {
        None
    }
}

fn parse_duration_chars(v: &Vec<char>) -> (r: Option<u32>)
    ensures
        r == duration_minutes(v@),
{
    let n = v.len();
    let i0 = skip_ws(v, 0);
    if i0 == n {
        return Some(0);
    }
    let c0 = v[i0];
    let code0 = c0 as u32;
    if !(48 <= code0 && code0 <= 57) {
        assert(!is_digit(v@[i0 as int]));
        return None;
    }
    assert(is_digit(v@[i0 as int]));
    let (n1_opt, i1) = parse_number(v, i0);
    let i2 = skip_ws(v, i1);
    if let Some(i3) = match_hour_word(v, i2) {
        let i4 = skip_ws(v, i3);
        let n1 = match n1_opt {
            Some(x) => x,
            None => {
                return None;
            },
        };
        if i4 == n {
            if n1 as u64 * 60 > 0xffff_ffff {
                return None;
            }
            return Some(n1 * 60);
        }
        if i4 < n {
            let c4 = v[i4];
            let code4 = c4 as u32;
            if !(48 <= code4 && code4 <= 57) {
                assert(!is_digit(v@[i4 as int]));
                return None;
            }
            assert(is_digit(v@[i4 as int]));
        }
        let (n2_opt, i5) = parse_number(v, i4);
        let i6 = skip_ws(v, i5);
        if let Some(i7) = match_minute_word(v, i6) {
            let i8 = skip_ws(v, i7);
            if i8 != n {
                return None;
            }
            let n2 = match n2_opt {
                Some(x) => x,
                None => {
                    return None;
                },
            };
            if n1 as u64 * 60 + n2 as u64 > 0xffff_ffff {
                return None;
            }
            return Some(n1 * 60 + n2);
        }
        return None;
    }
    if let Some(i3) = match_minute_word(v, i2) {
        let i8 = skip_ws(v, i3);
        if i8 != n {
            return None;
        }
        let n1 = match n1_opt {
            Some(x) => x,
            None => {
                return None;
            },
        };
        return Some(n1);
    }
    None
}

impl U32Ext for u32 {
    fn from_time_str(s: &str) -> (r: Result<u32, RecipeError>) {
        let v = chars_of(s);
        match parse_duration_chars(&v) {
            Some(t) => Ok(t),
            None => Err(RecipeError::FieldDecodeError(s.to_owned())),
        }
    }
}

} // verus!
