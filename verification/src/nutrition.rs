//! The nutrition record: a fixed, named set of nutrient slots, normalized
//! once by the serving count.
//!
//! Quantities and daily values are held in thousandths, as integers; the
//! normalization divides both by the serving count (integer division on
//! thousandths). A slot missing from the decoded payload stays zero-valued.

use vstd::prelude::*;

verus! {

/// One nutrient slot: its code, unit label, display label, quantity and
/// percent-daily-value, the last two in thousandths.
#[derive(Debug)]
pub struct Nutrient {
    pub code: String,
    pub unit: String,
    pub label: String,
    pub quantity_milli: u64,
    pub daily_milli: u64,
}

/// The mathematical shape of one nutrient slot.
pub struct NutrientV {
    pub code: Seq<char>,
    pub unit: Seq<char>,
    pub label: Seq<char>,
    pub quantity_milli: u64,
    pub daily_milli: u64,
}

impl View for Nutrient {
    type V = NutrientV;

    open spec fn view(&self) -> NutrientV {
        NutrientV {
            code: self.code@,
            unit: self.unit@,
            label: self.label@,
            quantity_milli: self.quantity_milli,
            daily_milli: self.daily_milli,
        }
    }
}

/// The full nutrient record for one recipe: one slot per code of the fixed
/// vocabulary, in that order.
#[derive(Debug)]
pub struct Macros {
    pub slots: Vec<Nutrient>,
}

/// The mathematical shape of the record.
pub struct MacrosV {
    pub slots: Seq<NutrientV>,
}

impl View for Macros {
    type V = MacrosV;

    open spec fn view(&self) -> MacrosV {
        MacrosV { slots: self.slots@.map_values(|n: Nutrient| n@) }
    }
}

/// The fixed nutrient-code vocabulary, in slot order.
pub open spec fn nutrient_codes() -> Seq<Seq<char>> {
    seq![
        "PROCNT"@,
        "FAT"@,
        "CHOCDF"@,
        "ENERC_KCAL"@,
        "SUGAR"@,
        "FIBTG"@,
        "CA"@,
        "FE"@,
        "MG"@,
        "P"@,
        "K"@,
        "NA"@,
        "ZN"@,
        "VITA_RAE"@,
        "TOCPHA"@,
        "VITD"@,
        "VITC"@,
        "THIA"@,
        "RIBF"@,
        "NIA"@,
        "VITB6A"@,
        "FOL"@,
        "VITB12"@,
        "VITK1"@,
        "CHOLE"@,
        "FATRN"@,
        "FASAT"@,
        "FAMS"@,
        "FAPU"@,
    ]
}

/// A well-formed record holds exactly one slot per code, in order.
pub open spec fn macros_wf(m: MacrosV) -> bool {
    &&& m.slots.len() == nutrient_codes().len()
    &&& forall|i: int| 0 <= i < m.slots.len() ==> m.slots[i].code == nutrient_codes()[i]
}

/// One slot with both measured values divided by the serving count.
pub open spec fn normalized_slot(n: NutrientV, servings: u64) -> NutrientV {
    NutrientV {
        code: n.code,
        unit: n.unit,
        label: n.label,
        quantity_milli: (n.quantity_milli as nat / servings as nat) as u64,
        daily_milli: (n.daily_milli as nat / servings as nat) as u64,
    }
}

/// The record with every slot normalized by the serving count.
pub open spec fn normalized(m: MacrosV, servings: u64) -> MacrosV {
    MacrosV { slots: m.slots.map_values(|n: NutrientV| normalized_slot(n, servings)) }
}

/// The code vocabulary as strings, in slot order.
pub fn nutrient_codes_vec() -> (r: Vec<String>)
    ensures
        r@.map_values(|s: String| s@) == nutrient_codes(),
{
    let mut r: Vec<String> = Vec::new();
    r.push("PROCNT".to_owned());
    r.push("FAT".to_owned());
    r.push("CHOCDF".to_owned());
    r.push("ENERC_KCAL".to_owned());
    r.push("SUGAR".to_owned());
    r.push("FIBTG".to_owned());
    r.push("CA".to_owned());
    r.push("FE".to_owned());
    r.push("MG".to_owned());
    r.push("P".to_owned());
    r.push("K".to_owned());
    r.push("NA".to_owned());
    r.push("ZN".to_owned());
    r.push("VITA_RAE".to_owned());
    r.push("TOCPHA".to_owned());
    r.push("VITD".to_owned());
    r.push("VITC".to_owned());
    r.push("THIA".to_owned());
    r.push("RIBF".to_owned());
    r.push("NIA".to_owned());
    r.push("VITB6A".to_owned());
    r.push("FOL".to_owned());
    r.push("VITB12".to_owned());
    r.push("VITK1".to_owned());
    r.push("CHOLE".to_owned());
    r.push("FATRN".to_owned());
    r.push("FASAT".to_owned());
    r.push("FAMS".to_owned());
    r.push("FAPU".to_owned());
    proof {
        assert(r@.map_values(|s: String| s@) =~= nutrient_codes());
    }
    r
}

impl Macros {
    /// Divides every slot's quantity and daily value by the serving count.
    /// Applied exactly once, immediately after decoding.
    pub fn normalize_by_servings(&mut self, servings: u64)
        requires
            servings >= 1,
        ensures
            final(self)@ == normalized(old(self)@, servings),
    {
        let n = self.slots.len();
        let mut i: usize = 0;
        while i < n
            invariant
                1 <= servings,
                n == self.slots@.len(),
                i <= n,
                self.slots@.len() == old(self).slots@.len(),
                forall|j: int|
                    0 <= j < i ==> self.slots@[j]@ == normalized_slot(old(self).slots@[j]@, servings),
                forall|j: int| i <= j < n ==> self.slots@[j] == old(self).slots@[j],
            decreases n - i,
        {
            let q = self.slots[i].quantity_milli;
            let d = self.slots[i].daily_milli;
            self.slots[i].quantity_milli = q / servings;
            self.slots[i].daily_milli = d / servings;
            i = i + 1;
        }
        proof {
            assert(final(self)@.slots =~= normalized(old(self)@, servings).slots);
        }
    }
}

/// The word `w` occurs in `s` at position `i`.
pub open spec fn sub_at(s: Seq<char>, w: Seq<char>, i: int) -> bool {
    0 <= i && i + w.len() <= s.len() && s.subrange(i, i + w.len()) == w
}

/// The first position at or after `i` where the word occurs.
pub open spec fn first_sub_from(s: Seq<char>, w: Seq<char>, i: int) -> Option<int>
    decreases s.len() + 1 - i,
{
    if i < 0 || i + w.len() > s.len() {
        None
    } else if sub_at(s, w, i) {
        Some(i)
    } else {
        first_sub_from(s, w, i + 1)
    }
}

/// The position of the line's end: the next newline at or after `i`, or the
/// end of the text.
pub open spec fn line_end_from(s: Seq<char>, i: int) -> int
    decreases s.len() - i,
{
    if i < 0 || i >= s.len() {
        i
    } else if s[i] == '\n' {
        i
    } else {
        line_end_from(s, i + 1)
    }
}

/// The last position in `[lo, hi)` holding `c`.
pub open spec fn last_in_range(s: Seq<char>, lo: int, hi: int, c: char) -> Option<int>
    decreases hi,
{
    if hi <= lo || hi < 1 {
        None
    } else if 0 <= hi - 1 < s.len() && s[hi - 1] == c {
        Some(hi - 1)
    } else {
        last_in_range(s, lo, hi - 1, c)
    }
}

/// The fixed variable-assignment pattern: the text between the first
/// occurrence of the assignment prefix and the last closing brace on that
/// same line is the embedded payload. A first occurrence whose line has no
/// closing brace is a mismatch; later occurrences are deliberately not
/// tried.
pub open spec fn capture_of(script: Seq<char>) -> Option<Seq<char>> {
    let pre = "var preloaded = {'recipe': "@;
    match first_sub_from(script, pre, 0) {
        None => None,
        Some(i) => {
            let start = i + pre.len();
            let le = line_end_from(script, start);
            match last_in_range(script, start, le, '}') {
                Some(b) => Some(script.subrange(start, b)),
                None => None,
            }
        },
    }
}

/// Isolates the embedded payload from a script body, exactly as
/// `capture_of` says.
#[verifier::loop_isolation(false)]
pub fn find_capture(script: &str) -> (r: Option<String>)
    ensures
        match r {
            Some(c) => capture_of(script@) == Some(c@),
            None => capture_of(script@) is None,
        },
{
    let v = crate::text::chars_of(script);
    let w = crate::text::chars_of("var preloaded = {'recipe': ");
    let n = v.len();
    let m = w.len();
    let ghost pre = "var preloaded = {'recipe': "@;
    proof {
        reveal_strlit("var preloaded = {'recipe': ");
    }
    if m > n {
        return None;
    }
    let mut i: usize = 0;
    while i <= n - m && !crate::text::seq_match_at(&v, &w, i)
        invariant
            i <= n - m + 1,
            first_sub_from(v@, w@, 0) == first_sub_from(v@, w@, i as int),
        decreases n - i,
    {
        i = i + 1;
    }
    if i > n - m {
        return None;
    }
    assert(first_sub_from(v@, w@, 0) == Some(i as int));
    let start = i + m;
    let mut le: usize = start;
    while le < n && v[le] != '\n'
        invariant
            start <= le <= n,
            line_end_from(v@, start as int) == line_end_from(v@, le as int),
        decreases n - le,
    {
        le = le + 1;
    }
    assert(line_end_from(v@, start as int) == le);
    let mut hi: usize = le;
    while hi > start && v[hi - 1] != '}'
        invariant
            start <= hi <= le,
            last_in_range(v@, start as int, le as int, '}') == last_in_range(
                v@,
                start as int,
                hi as int,
                '}',
            ),
        decreases hi,
    {
        hi = hi - 1;
    }
    if hi == start {
        assert(last_in_range(v@, start as int, hi as int, '}') is None);
        return None;
    }
    let b = hi - 1;
    assert(last_in_range(v@, start as int, le as int, '}') == Some(b as int));
    let mut out: Vec<char> = Vec::new();
    let mut k: usize = start;
    while k < b
        invariant
            start <= k <= b,
            out@ == v@.subrange(start as int, k as int),
        decreases b - k,
    {
        out.push(v[k]);
        k = k + 1;
        proof {
            assert(out@ =~= v@.subrange(start as int, k as int));
        }
    }
    Some(crate::text::string_from_chars(&out))
}

/// The four raw readings of one nutrient slot, as the payload carried them:
/// each may be absent.
#[derive(Debug)]
pub struct RawSlot {
    pub unit: Option<String>,
    pub label: Option<String>,
    pub quantity_text: Option<String>,
    pub daily_text: Option<String>,
}

/// The mathematical shape of one raw slot.
pub struct RawSlotV {
    pub unit: Option<Seq<char>>,
    pub label: Option<Seq<char>>,
    pub quantity_text: Option<Seq<char>>,
    pub daily_text: Option<Seq<char>>,
}

impl View for RawSlot {
    type V = RawSlotV;

    open spec fn view(&self) -> RawSlotV {
        RawSlotV {
            unit: match self.unit {
                Some(ref s) => Some(s@),
                None => None,
            },
            label: match self.label {
                Some(ref s) => Some(s@),
                None => None,
            },
            quantity_text: match self.quantity_text {
                Some(ref s) => Some(s@),
                None => None,
            },
            daily_text: match self.daily_text {
                Some(ref s) => Some(s@),
                None => None,
            },
        }
    }
}

/// A measured value read from its raw text: an unreadable or absent text is
/// zero.
pub open spec fn milli_of_text(t: Option<Seq<char>>) -> u64 {
    match t {
        Some(s) => match crate::numbers::decimal_milli_of(s) {
            Some(q) => q,
            None => 0,
        },
        None => 0,
    }
}

/// One slot decoded: absent readings default to empty text and zero values.
pub open spec fn slot_nutrient(code: Seq<char>, raw: RawSlotV) -> NutrientV {
    NutrientV {
        code: code,
        unit: match raw.unit {
            Some(u) => u,
            None => Seq::empty(),
        },
        label: match raw.label {
            Some(l) => l,
            None => Seq::empty(),
        },
        quantity_milli: milli_of_text(raw.quantity_text),
        daily_milli: milli_of_text(raw.daily_text),
    }
}

/// Builds the fixed-shape record from one raw slot per code, in slot order:
/// a missing or unreadable reading leaves that part of the slot zero-valued
/// or empty, and never fails.
#[verifier::loop_isolation(false)]
pub fn build_macros(codes: Vec<String>, raws: Vec<RawSlot>) -> (r: Macros)
    requires
        codes@.len() == raws@.len(),
    ensures
        r@.slots.len() == codes@.len(),
        forall|i: int|
            0 <= i < codes@.len() ==> r@.slots[i] == slot_nutrient(codes@[i]@, raws@[i]@),
{
    let n = codes.len();
    let mut slots: Vec<Nutrient> = Vec::new();
    let mut codes_rest = codes;
    let mut raws_rest = raws;
    let ghost codes_v = codes_rest@;
    let ghost raws_v = raws_rest@;
    let mut i: usize = 0;
    while i < n
        invariant
            n == codes_v.len() == raws_v.len(),
            i <= n,
            codes_rest@ == codes_v.skip(i as int),
            raws_rest@ == raws_v.skip(i as int),
            slots@.len() == i,
            forall|j: int|
                0 <= j < i ==> (#[trigger] slots@[j])@ == slot_nutrient(codes_v[j]@, raws_v[j]@),
        decreases n - i,
    {
        let code = codes_rest.remove(0);
        let raw = raws_rest.remove(0);
        proof {
            assert(codes_v.skip(i as int)[0] == codes_v[i as int]);
            assert(raws_v.skip(i as int)[0] == raws_v[i as int]);
            assert(codes_v.skip(i as int).remove(0) =~= codes_v.skip(i + 1));
            assert(raws_v.skip(i as int).remove(0) =~= raws_v.skip(i + 1));
        }
        let unit = match raw.unit {
            Some(u) => u,
            None => String::new(),
        };
        let label = match raw.label {
            Some(l) => l,
            None => String::new(),
        };
        let quantity_milli = match raw.quantity_text {
            Some(t) => {
                let v = crate::text::chars_of(t.as_str());
                match crate::numbers::parse_decimal_milli(&v) {
                    Some(q) => q,
                    None => 0,
                }
            },
            None => 0,
        };
        let daily_milli = match raw.daily_text {
            Some(t) => {
                let v = crate::text::chars_of(t.as_str());
                match crate::numbers::parse_decimal_milli(&v) {
                    Some(q) => q,
                    None => 0,
                }
            },
            None => 0,
        };
        slots.push(Nutrient { code, unit, label, quantity_milli, daily_milli });
        i = i + 1;
    }
    let r = Macros { slots };
    proof {
        assert forall|i: int| 0 <= i < codes_v.len() implies r@.slots[i] == slot_nutrient(
            codes_v[i]@,
            raws_v[i]@,
        ) by {
            assert(r@.slots[i] == slots@[i]@);
        }
    }
    r
}

/// Normalizing by one serving changes nothing: a record already normalized
/// to a single serving is a fixed point of a second normalization.
pub proof fn lemma_normalize_by_one(m: MacrosV)
    ensures
        normalized(m, 1) == m,
{
    assert forall|i: int| 0 <= i < m.slots.len() implies normalized(m, 1).slots[i] == m.slots[i] by {
        assert(m.slots[i].quantity_milli as nat / 1nat == m.slots[i].quantity_milli as nat);
        assert(m.slots[i].daily_milli as nat / 1nat == m.slots[i].daily_milli as nat);
    }
    assert(normalized(m, 1).slots =~= m.slots);
}

} // verus!
