//! The example storage record: a small row of three counters, with its
//! source rendering. Connecting to a datastore and writing rows is the
//! caller's concern.

use vstd::prelude::*;

use crate::text::string_from_chars;

verus! {

/// A sample row of three counters.
#[derive(Debug, PartialEq, Eq, Structural)]
pub struct Example {
    pub data1: u32,
    pub data2: u32,
    pub data3: u32,
}

/// The decimal numeral of a number, most significant digit first.
pub open spec fn dec_str(n: nat) -> Seq<char>
    decreases n,
{
    if n < 10 {
        seq![((48 + n) as u8) as char]
    } else {
        dec_str(n / 10).push(((48 + n % 10) as u8) as char)
    }
}

/// What `Example::src` renders: each counter labelled, comma-separated.
pub open spec fn example_src(d1: u32, d2: u32, d3: u32) -> Seq<char> {
    "d1: "@ + dec_str(d1 as nat) + ", d2: "@ + dec_str(d2 as nat) + ", d3: "@ + dec_str(d3 as nat)
}

fn push_dec(x: u32, out: &mut Vec<char>)
    ensures
        final(out)@ == old(out)@ + dec_str(x as nat),
    decreases x,
{
    if x < 10 {
        out.push(((48 + x) as u8) as char);
        proof {
            assert(out@ =~= old(out)@ + dec_str(x as nat));
        }
    } else {
        push_dec(x / 10, out);
        out.push(((48 + x % 10) as u8) as char);
        proof {
            assert(out@ =~= old(out)@ + dec_str(x as nat));
        }
    }
}

impl Example {
    /// Renders the row as labelled, comma-separated counters.
    pub fn src(&self) -> (r: String)
        ensures
            r@ == example_src(self.data1, self.data2, self.data3),
    {
        let mut v: Vec<char> = crate::text::chars_of("d1: ");
        push_dec(self.data1, &mut v);
        let sep2 = crate::text::chars_of(", d2: ");
        let mut i: usize = 0;
        let ghost v2 = v@;
        while i < sep2.len()
            invariant
                i <= sep2@.len(),
                sep2@ == ", d2: "@,
                v@ == v2 + sep2@.take(i as int),
            decreases sep2@.len() - i,
        {
            v.push(sep2[i]);
            i = i + 1;
            proof {
                assert(v@ =~= v2 + sep2@.take(i as int));
            }
        }
        proof {
            assert(sep2@.take(sep2@.len() as int) =~= sep2@);
        }
        push_dec(self.data2, &mut v);
        let sep3 = crate::text::chars_of(", d3: ");
        let mut j: usize = 0;
        let ghost v3 = v@;
        while j < sep3.len()
            invariant
                j <= sep3@.len(),
                sep3@ == ", d3: "@,
                v@ == v3 + sep3@.take(j as int),
            decreases sep3@.len() - j,
        {
            v.push(sep3[j]);
            j = j + 1;
            proof {
                assert(v@ =~= v3 + sep3@.take(j as int));
            }
        }
        proof {
            assert(sep3@.take(sep3@.len() as int) =~= sep3@);
        }
        push_dec(self.data3, &mut v);
        proof {
            assert(v@ =~= example_src(self.data1, self.data2, self.data3));
        }
        string_from_chars(&v)
    }
}

} // verus!
