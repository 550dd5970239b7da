//! Digit runs and fixed-point decimals.
//!
//! Markup quantities ("1.5" cups) and nutrient quantities arrive as decimal
//! text. The library holds every quantity in thousandths, as an integer, so
//! "1.5" reads as 1500. Fraction digits beyond the third are dropped; an
//! integer part that does not fit a `u32` is unparseable.

use vstd::prelude::*;

verus! {

/// A decimal digit.
pub open spec fn is_digit(c: char) -> bool {
    48 <= c as u32 && c as u32 <= 57
}

/// The numeric value of a digit.
pub open spec fn digit_val(c: char) -> nat {
    (c as u32 - 48) as nat
}

/// The first position at or after `i` holding a non-digit character.
pub open spec fn num_end(s: Seq<char>, i: int) -> int
    decreases s.len() - i,
{
    if 0 <= i < s.len() && is_digit(s[i]) {
        num_end(s, i + 1)
    } else {
        i
    }
}

/// The value of the digit run in `[i, j)`.
pub open spec fn num_val(s: Seq<char>, i: int, j: int) -> nat
    decreases j - i,
{
    if i >= j {
        0
    } else {
        num_val(s, i, j - 1) * 10 + digit_val(s[j - 1])
    }
}

/// The thousandths contributed by the fraction digits in `[i, k)`: the first
/// three count, the rest are dropped.
pub open spec fn frac_milli(s: Seq<char>, i: int, k: int) -> nat {
    (if k - i >= 1 {
        digit_val(s[i]) * 100
    } else {
        0
    }) + (if k - i >= 2 {
        digit_val(s[i + 1]) * 10
    } else {
        0
    }) + (if k - i >= 3 {
        digit_val(s[i + 2])
    } else {
        0
    })
}

/// What the decimal grammar makes of a quantity string, in thousandths:
/// an integer part, optionally a dot and fraction digits, with at least one
/// digit overall and nothing else. The integer part must fit a `u32`.
pub open spec fn decimal_milli_of(s: Seq<char>) -> Option<u64> {
    let j = num_end(s, 0);
    if j == s.len() {
        if j == 0 {
            None
        } else if num_val(s, 0, j) > u32::MAX {
            None
        } else {
            Some((num_val(s, 0, j) * 1000) as u64)
        }
    } else if s[j] == '.' {
        let k = num_end(s, j + 1);
        if k == s.len() && (j > 0 || k > j + 1) {
            if num_val(s, 0, j) > u32::MAX {
                None
            } else {
                Some((num_val(s, 0, j) * 1000 + frac_milli(s, j + 1, k)) as u64)
            }
        } else {
            None
        }
    } else {
        None
    }
}

pub(crate) fn digit_at(v: &Vec<char>, j: usize) -> (r: bool)
    ensures
        r == (j < v@.len() && is_digit(v@[j as int])),
{
    if j < v.len() {
        let code = v[j] as u32;
        48 <= code && code <= 57
    } else {
        false
    }
}

proof fn lemma_num_end_digits(s: Seq<char>, i: int)
    requires
        0 <= i <= s.len(),
    ensures
        forall|m: int| i <= m < num_end(s, i) ==> is_digit(s[m]),
    decreases s.len() - i,
{
    if i < s.len() && is_digit(s[i]) {
        lemma_num_end_digits(s, i + 1);
    }
}

proof fn lemma_num_val_grows(s: Seq<char>, i: int, j: int)
    requires
        i <= j,
    ensures
        num_val(s, i, j + 1) >= num_val(s, i, j) * 10,
{
}

/// Reads the digit run beginning at `i`; `None` when its value does not fit
/// a `u32`. The returned index is where the run ends.
pub(crate) fn parse_number(v: &Vec<char>, i: usize) -> (r: (Option<u32>, usize))
    requires
        i <= v@.len(),
    ensures
        r.1 == num_end(v@, i as int),
        i <= r.1 <= v@.len(),
        match r.0 {
            Some(n) => num_val(v@, i as int, r.1 as int) == n,
            None => num_val(v@, i as int, r.1 as int) > u32::MAX,
        },
{
    let n = v.len();
    let mut j: usize = i;
    let mut acc: u64 = 0;
    let mut big: bool = false;
    while digit_at(v, j)
        invariant
            n == v@.len(),
            i <= j <= v@.len(),
            num_end(v@, j as int) == num_end(v@, i as int),
            !big ==> acc == num_val(v@, i as int, j as int) && acc <= u32::MAX,
            big ==> num_val(v@, i as int, j as int) > u32::MAX,
        decreases v@.len() - j,
    {
        let code = v[j] as u32;
        let d = (code - 48) as u64;
        assert(d == digit_val(v@[j as int]));
        if big {
            proof {
                lemma_num_val_grows(v@, i as int, j as int);
            }
        } else {
            acc = acc * 10 + d;
            if acc > 0xffff_ffff {
                big = true;
            }
        }
        j = j + 1;
        assert(num_end(v@, j - 1) == num_end(v@, j as int));
    }
    assert(num_end(v@, j as int) == j);
    if big {
        (None, j)
    } else {
        (Some(acc as u32), j)
    }
}

/// Reads a whole quantity string as thousandths; `None` exactly where the
/// decimal grammar rejects it.
pub fn parse_decimal_milli(v: &Vec<char>) -> (r: Option<u64>)
    ensures
        r == decimal_milli_of(v@),
{
    let n = v.len();
    let (int_opt, j) = parse_number(v, 0);
    if j == n {
        if j == 0 {
            return None;
        }
        match int_opt {
            Some(ip) => {
                return Some(ip as u64 * 1000);
            },
            None => {
                return None;
            },
        }
    }
    if v[j] != '.' {
        return None;
    }
    let (_, k) = parse_number(v, j + 1);
    if !(k == n && (j > 0 || k > j + 1)) {
        return None;
    }
    let ip = match int_opt {
        Some(ip) => ip,
        None => {
            return None;
        },
    };
    proof {
        lemma_num_end_digits(v@, j + 1);
    }
    let mut frac: u64 = 0;
    if k - j >= 2 {
        frac = frac + (v[j + 1] as u32 - 48) as u64 * 100;
    }
    if k - j >= 3 {
        frac = frac + (v[j + 2] as u32 - 48) as u64 * 10;
    }
    if k - j >= 4 {
        frac = frac + (v[j + 3] as u32 - 48) as u64;
    }
    assert(frac == frac_milli(v@, j + 1, k as int));
    Some(ip as u64 * 1000 + frac)
}

} // verus!
