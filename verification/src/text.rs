//! Text normalization: turning markup text with non-breaking spaces and
//! embedded newline/tab runs into clean prose.
//!
//! All string logic here works over `Seq<char>` models; executable code
//! shuttles between `&str`/`String` and `Vec<char>`.

use vstd::prelude::*;

verus! {

/// Relies on `String::push`: appends the given char to the end of this String.
pub assume_specification[ String::push ](s: &mut String, ch: char)
    ensures
        final(s)@ == old(s)@.push(ch),
;

/// The whitespace alphabet recognized when trimming: ASCII blanks plus the
/// non-breaking space.
pub open spec fn is_space_char(c: char) -> bool {
    c == ' ' || c == '\t' || c == '\n' || c == '\r' || c == '\u{b}' || c == '\u{c}' || c
        == '\u{a0}'
}

/// A character that a newline/tab run is collapsed over.
pub open spec fn is_collapsible(c: char) -> bool {
    c == '\n' || c == '\t'
}

/// Every non-breaking space replaced by an ordinary space.
pub open spec fn replace_nbsp(s: Seq<char>) -> Seq<char> {
    s.map_values(|c: char| if c == '\u{a0}' { ' ' } else { c })
}

/// Every maximal run of newlines and tabs replaced by a single space; all
/// other characters kept in order.
pub open spec fn collapsed(s: Seq<char>) -> Seq<char>
    decreases s.len(),
{
    if s.len() == 0 {
        Seq::empty()
    } else {
        let prefix = collapsed(s.drop_last());
        let c = s.last();
        if is_collapsible(c) {
            if s.len() >= 2 && is_collapsible(s[s.len() - 2]) {
                prefix
            } else {
                prefix.push(' ')
            }
        } else {
            prefix.push(c)
        }
    }
}

/// Leading whitespace removed.
pub open spec fn trim_left(s: Seq<char>) -> Seq<char>
    decreases s.len(),
{
    if s.len() > 0 && is_space_char(s.first()) {
        trim_left(s.drop_first())
    } else {
        s
    }
}

/// Trailing whitespace removed.
pub open spec fn trim_right(s: Seq<char>) -> Seq<char>
    decreases s.len(),
{
    if s.len() > 0 && is_space_char(s.last()) {
        trim_right(s.drop_last())
    } else {
        s
    }
}

/// Leading and trailing whitespace removed.
pub open spec fn trimmed(s: Seq<char>) -> Seq<char> {
    trim_right(trim_left(s))
}

/// What the text normalizer produces: non-breaking spaces become spaces,
/// newline/tab runs collapse to one space each, and the ends are trimmed.
pub open spec fn clean_spec(s: Seq<char>) -> Seq<char> {
    trimmed(collapsed(replace_nbsp(s)))
}

/// The characters of a string, in order.
pub fn chars_of(s: &str) -> (r: Vec<char>)
    ensures
        r@ == s@,
{
    let n = s.unicode_len();
    let mut r: Vec<char> = Vec::new();
    let mut i: usize = 0;
    while i < n
        invariant
            n == s@.len(),
            i <= n,
            r@ == s@.take(i as int),
        decreases n - i,
    {
        r.push(s.get_char(i));
        i = i + 1;
        proof {
            assert(r@ =~= s@.take(i as int));
        }
    }
    proof {
        assert(s@.take(n as int) =~= s@);
    }
    r
}

/// A string holding exactly the given characters, in order.
pub fn string_from_chars(v: &Vec<char>) -> (r: String)
    ensures
        r@ == v@,
{
    let mut r = String::new();
    let mut i: usize = 0;
    while i < v.len()
        invariant
            i <= v@.len(),
            r@ == v@.take(i as int),
        decreases v@.len() - i,
    {
        r.push(v[i]);
        i = i + 1;
        proof {
            assert(r@ =~= v@.take(i as int));
        }
    }
    proof {
        assert(v@.take(v@.len() as int) =~= v@);
    }
    r
}

pub(crate) fn is_space(c: char) -> (r: bool)
    ensures
        r == is_space_char(c),
{
    c == ' ' || c == '\t' || c == '\n' || c == '\r' || c == '\u{b}' || c == '\u{c}' || c
        == '\u{a0}'
}

proof fn lemma_trim_left_skip(s: Seq<char>, i: int)
    requires
        0 <= i <= s.len(),
        forall|j: int| 0 <= j < i ==> is_space_char(s[j]),
        i == s.len() || !is_space_char(s[i]),
    ensures
        trim_left(s) == s.skip(i),
    decreases i,
{
    if i == 0 {
        assert(s.skip(0) =~= s);
    } else {
        lemma_trim_left_skip(s.drop_first(), i - 1);
        assert(s.drop_first().skip(i - 1) =~= s.skip(i));
    }
}

proof fn lemma_trim_right_take(s: Seq<char>, i: int)
    requires
        0 <= i <= s.len(),
        forall|j: int| i <= j < s.len() ==> is_space_char(s[j]),
        i == 0 || !is_space_char(s[i - 1]),
    ensures
        trim_right(s) == s.take(i),
    decreases s.len() - i,
{
    if i == s.len() {
        assert(s.take(i) =~= s);
    } else {
        lemma_trim_right_take(s.drop_last(), i);
        assert(s.drop_last().take(i) =~= s.take(i));
    }
}

/// Trims both ends of a character sequence.
fn trim_chars(v: Vec<char>) -> (r: Vec<char>)
    ensures
        r@ == trimmed(v@),
{
    let n = v.len();
    let mut lo: usize = 0;
    while lo < n && is_space(v[lo])
        invariant
            n == v@.len(),
            lo <= n,
            forall|j: int| 0 <= j < lo ==> is_space_char(v@[j]),
        decreases n - lo,
    {
        lo = lo + 1;
    }
    proof {
        lemma_trim_left_skip(v@, lo as int);
    }
    let mut hi: usize = n;
    while hi > lo && is_space(v[hi - 1])
        invariant
            n == v@.len(),
            lo <= hi <= n,
            forall|j: int| hi <= j < n ==> is_space_char(v@[j]),
        decreases hi,
    {
        hi = hi - 1;
    }
    let mut r: Vec<char> = Vec::new();
    let mut i: usize = lo;
    while i < hi
        invariant
            lo <= i <= hi <= v@.len(),
            r@ == v@.subrange(lo as int, i as int),
        decreases hi - i,
    {
        r.push(v[i]);
        i = i + 1;
        proof {
            assert(r@ =~= v@.subrange(lo as int, i as int));
        }
    }
    proof {
        let t = v@.skip(lo as int);
        if hi == lo {
            lemma_trim_right_take(t, 0);
        } else {
            lemma_trim_right_take(t, hi - lo);
        }
        assert(t.take(hi - lo) =~= v@.subrange(lo as int, hi as int));
        assert(r@ == trimmed(v@));
    }
    r
}

/// Whether `w` occurs in `v` starting at `i`.
pub(crate) fn seq_match_at(v: &Vec<char>, w: &Vec<char>, i: usize) -> (r: bool)
    requires
        i + w@.len() <= v@.len(),
    ensures
        r == (v@.subrange(i as int, i + w@.len()) == w@),
{
    let n = v.len();
    let m = w.len();
    let mut j: usize = 0;
    while j < m
        invariant
            n == v@.len(),
            m == w@.len(),
            i + m <= n,
            j <= m,
            forall|t: int| 0 <= t < j ==> v@[i + t] == w@[t],
        decreases m - j,
    {
        if v[i + j] != w[j] {
            assert(v@.subrange(i as int, i + w@.len())[j as int] != w@[j as int]);
            return false;
        }
        j = j + 1;
    }
    proof {
        assert(v@.subrange(i as int, i + w@.len()) =~= w@);
    }
    true
}

/// Leading copies of one character removed.
pub open spec fn strip_leading(s: Seq<char>, c: char) -> Seq<char>
    decreases s.len(),
{
    if s.len() > 0 && s.first() == c {
        strip_leading(s.drop_first(), c)
    } else {
        s
    }
}

/// Trailing copies of one character removed.
pub open spec fn strip_trailing(s: Seq<char>, c: char) -> Seq<char>
    decreases s.len(),
{
    if s.len() > 0 && s.last() == c {
        strip_trailing(s.drop_last(), c)
    } else {
        s
    }
}

/// Trailing copies of a non-empty suffix removed.
pub open spec fn strip_suffix_all(s: Seq<char>, suf: Seq<char>) -> Seq<char>
    decreases s.len(),
{
    if suf.len() > 0 && s.len() >= suf.len() && s.subrange(s.len() - suf.len(), s.len() as int)
        == suf {
        strip_suffix_all(s.take(s.len() - suf.len()), suf)
    } else {
        s
    }
}

/// Both ends trimmed of whitespace.
pub fn trim_text(s: &str) -> (r: String)
    ensures
        r@ == trimmed(s@),
{
    let v = chars_of(s);
    let t = trim_chars(v);
    string_from_chars(&t)
}

proof fn lemma_strip_leading_skip(s: Seq<char>, c: char, i: int)
    requires
        0 <= i <= s.len(),
        forall|j: int| 0 <= j < i ==> s[j] == c,
        i == s.len() || s[i] != c,
    ensures
        strip_leading(s, c) == s.skip(i),
    decreases i,
{
    if i == 0 {
        assert(s.skip(0) =~= s);
    } else {
        lemma_strip_leading_skip(s.drop_first(), c, i - 1);
        assert(s.drop_first().skip(i - 1) =~= s.skip(i));
    }
}

proof fn lemma_strip_trailing_take(s: Seq<char>, c: char, i: int)
    requires
        0 <= i <= s.len(),
        forall|j: int| i <= j < s.len() ==> s[j] == c,
        i == 0 || s[i - 1] != c,
    ensures
        strip_trailing(s, c) == s.take(i),
    decreases s.len() - i,
{
    if i == s.len() {
        assert(s.take(i) =~= s);
    } else {
        lemma_strip_trailing_take(s.drop_last(), c, i);
        assert(s.drop_last().take(i) =~= s.take(i));
    }
}

/// Leading copies of `c` removed.
pub fn strip_leading_char(s: &str, c: char) -> (r: String)
    ensures
        r@ == strip_leading(s@, c),
{
    let v = chars_of(s);
    let n = v.len();
    let mut lo: usize = 0;
    while lo < n && v[lo] == c
        invariant
            v@ == s@,
            n == v@.len(),
            lo <= n,
            forall|j: int| 0 <= j < lo ==> v@[j] == c,
        decreases n - lo,
    {
        lo = lo + 1;
    }
    proof {
        lemma_strip_leading_skip(v@, c, lo as int);
    }
    let mut out: Vec<char> = Vec::new();
    let mut i: usize = lo;
    while i < n
        invariant
            v@ == s@,
            n == v@.len(),
            lo <= i <= n,
            out@ == v@.subrange(lo as int, i as int),
        decreases n - i,
    {
        out.push(v[i]);
        i = i + 1;
        proof {
            assert(out@ =~= v@.subrange(lo as int, i as int));
        }
    }
    proof {
        assert(v@.subrange(lo as int, n as int) =~= v@.skip(lo as int));
    }
    string_from_chars(&out)
}

/// Trailing copies of `c` removed.
pub fn strip_trailing_char(s: &str, c: char) -> (r: String)
    ensures
        r@ == strip_trailing(s@, c),
{
    let v = chars_of(s);
    let n = v.len();
    let mut hi: usize = n;
    while hi > 0 && v[hi - 1] == c
        invariant
            v@ == s@,
            n == v@.len(),
            hi <= n,
            forall|j: int| hi <= j < n ==> v@[j] == c,
        decreases hi,
    {
        hi = hi - 1;
    }
    proof {
        lemma_strip_trailing_take(v@, c, hi as int);
    }
    let mut out: Vec<char> = Vec::new();
    let mut i: usize = 0;
    while i < hi
        invariant
            v@ == s@,
            n == v@.len(),
            i <= hi <= n,
            out@ == v@.take(i as int),
        decreases hi - i,
    {
        out.push(v[i]);
        i = i + 1;
        proof {
            assert(out@ =~= v@.take(i as int));
        }
    }
    string_from_chars(&out)
}

/// Trailing copies of the suffix removed, one at a time.
pub fn strip_suffix_repeat(s: &str, suf: &str) -> (r: String)
    ensures
        r@ == strip_suffix_all(s@, suf@),
{
    let v = chars_of(s);
    let w = chars_of(suf);
    let n = v.len();
    let m = w.len();
    if m == 0 {
        return s.to_owned();
    }
    let mut hi: usize = n;
    proof {
        assert(v@.take(n as int) =~= v@);
    }
    while hi >= m && seq_match_at(&v, &w, hi - m)
        invariant
            v@ == s@,
            w@ == suf@,
            n == v@.len(),
            m == w@.len(),
            0 < m,
            hi <= n,
            strip_suffix_all(v@.take(hi as int), w@) == strip_suffix_all(v@, w@),
        decreases hi,
    {
        proof {
            let t = v@.take(hi as int);
            assert(t.subrange(hi - m, hi as int) =~= v@.subrange(hi - m, hi as int));
            assert(t.take(hi - m) =~= v@.take(hi - m));
        }
        hi = hi - m;
    }
    proof {
        let t = v@.take(hi as int);
        if hi >= m {
            assert(t.subrange(hi - m, hi as int) =~= v@.subrange(hi - m, hi as int));
            assert(strip_suffix_all(t, w@) == t);
        } else {
            assert(strip_suffix_all(t, w@) == t);
        }
    }
    let mut out: Vec<char> = Vec::new();
    let mut i: usize = 0;
    while i < hi
        invariant
            v@ == s@,
            i <= hi <= v@.len(),
            out@ == v@.take(i as int),
        decreases hi - i,
    {
        out.push(v[i]);
        i = i + 1;
        proof {
            assert(out@ =~= v@.take(i as int));
        }
    }
    string_from_chars(&out)
}

proof fn lemma_collapsed_preserves(s: Seq<char>, p: spec_fn(char) -> bool)
    requires
        p(' '),
        forall|j: int| 0 <= j < s.len() ==> p(s[j]),
    ensures
        forall|i: int| 0 <= i < collapsed(s).len() ==> p(collapsed(s)[i]),
    decreases s.len(),
{
    if s.len() > 0 {
        assert forall|j: int| 0 <= j < s.drop_last().len() implies p(s.drop_last()[j]) by {
            assert(s.drop_last()[j] == s[j]);
        }
        lemma_collapsed_preserves(s.drop_last(), p);
        let pre = collapsed(s.drop_last());
        assert(p(s[s.len() - 1]));
        assert forall|i: int| 0 <= i < collapsed(s).len() implies p(collapsed(s)[i]) by {
            if i < pre.len() {
                assert(collapsed(s)[i] == pre[i]);
            } else {
                assert(collapsed(s)[i] == ' ' || collapsed(s)[i] == s.last());
            }
        }
    }
}

proof fn lemma_collapsed_no_collapsible(s: Seq<char>)
    ensures
        forall|i: int| 0 <= i < collapsed(s).len() ==> !is_collapsible(collapsed(s)[i]),
    decreases s.len(),
{
    if s.len() > 0 {
        lemma_collapsed_no_collapsible(s.drop_last());
        let pre = collapsed(s.drop_last());
        assert forall|i: int| 0 <= i < collapsed(s).len() implies !is_collapsible(
            collapsed(s)[i],
        ) by {
            if i < pre.len() {
                assert(collapsed(s)[i] == pre[i]);
            } else {
                assert(collapsed(s)[i] == ' ' || (collapsed(s)[i] == s.last() && !is_collapsible(
                    s.last(),
                )));
            }
        }
    }
}

proof fn lemma_collapsed_id(s: Seq<char>)
    requires
        forall|j: int| 0 <= j < s.len() ==> !is_collapsible(s[j]),
    ensures
        collapsed(s) == s,
    decreases s.len(),
{
    if s.len() == 0 {
        assert(collapsed(s) =~= s);
    } else {
        lemma_collapsed_id(s.drop_last());
        assert(collapsed(s) =~= s);
    }
}

proof fn lemma_replace_id(s: Seq<char>)
    requires
        forall|j: int| 0 <= j < s.len() ==> s[j] != '\u{a0}',
    ensures
        replace_nbsp(s) == s,
{
    assert(replace_nbsp(s) =~= s);
}

proof fn lemma_trim_left_preserves(s: Seq<char>, p: spec_fn(char) -> bool)
    requires
        forall|j: int| 0 <= j < s.len() ==> p(s[j]),
    ensures
        forall|i: int| 0 <= i < trim_left(s).len() ==> p(trim_left(s)[i]),
    decreases s.len(),
{
    if s.len() > 0 && is_space_char(s.first()) {
        assert forall|j: int| 0 <= j < s.drop_first().len() implies p(s.drop_first()[j]) by {
            assert(s.drop_first()[j] == s[j + 1]);
        }
        lemma_trim_left_preserves(s.drop_first(), p);
        assert forall|i: int| 0 <= i < trim_left(s).len() implies p(trim_left(s)[i]) by {
            assert(trim_left(s)[i] == trim_left(s.drop_first())[i]);
        }
    } else {
        assert forall|i: int| 0 <= i < trim_left(s).len() implies p(trim_left(s)[i]) by {
            assert(trim_left(s)[i] == s[i]);
        }
    }
}

proof fn lemma_trim_right_preserves(s: Seq<char>, p: spec_fn(char) -> bool)
    requires
        forall|j: int| 0 <= j < s.len() ==> p(s[j]),
    ensures
        forall|i: int| 0 <= i < trim_right(s).len() ==> p(trim_right(s)[i]),
    decreases s.len(),
{
    if s.len() > 0 && is_space_char(s.last()) {
        assert forall|j: int| 0 <= j < s.drop_last().len() implies p(s.drop_last()[j]) by {
            assert(s.drop_last()[j] == s[j]);
        }
        lemma_trim_right_preserves(s.drop_last(), p);
        assert forall|i: int| 0 <= i < trim_right(s).len() implies p(trim_right(s)[i]) by {
            assert(trim_right(s)[i] == trim_right(s.drop_last())[i]);
        }
    } else {
        assert forall|i: int| 0 <= i < trim_right(s).len() implies p(trim_right(s)[i]) by {
            assert(trim_right(s)[i] == s[i]);
        }
    }
}

proof fn lemma_trim_left_no_lead(s: Seq<char>)
    ensures
        trim_left(s).len() == 0 || !is_space_char(trim_left(s).first()),
    decreases s.len(),
{
    if s.len() > 0 && is_space_char(s.first()) {
        lemma_trim_left_no_lead(s.drop_first());
    }
}

proof fn lemma_trim_right_no_trail(s: Seq<char>)
    ensures
        trim_right(s).len() == 0 || !is_space_char(trim_right(s).last()),
    decreases s.len(),
{
    if s.len() > 0 && is_space_char(s.last()) {
        lemma_trim_right_no_trail(s.drop_last());
    }
}

proof fn lemma_trim_right_keeps_first(s: Seq<char>)
    ensures
        trim_right(s).len() > 0 ==> trim_right(s).first() == s.first(),
    decreases s.len(),
{
    if s.len() > 0 && is_space_char(s.last()) {
        lemma_trim_right_keeps_first(s.drop_last());
    }
}

proof fn lemma_trimmed_fixed(s: Seq<char>)
    ensures
        trimmed(trimmed(s)) == trimmed(s),
{
    let u = trim_left(s);
    let t = trim_right(u);
    lemma_trim_left_no_lead(s);
    lemma_trim_right_keeps_first(u);
    if t.len() > 0 {
        assert(!is_space_char(t.first()));
    }
    assert(trim_left(t) == t);
    lemma_trim_right_no_trail(u);
    assert(trim_right(t) == t);
}

/// Cleaning is idempotent: a second application returns the first result
/// unchanged.
pub proof fn lemma_clean_idempotent(s: Seq<char>)
    ensures
        clean_spec(clean_spec(s)) == clean_spec(s),
{
    let no_nbsp = |c: char| c != '\u{a0}';
    let no_coll = |x: char| !is_collapsible(x);
    let r = replace_nbsp(s);
    let c = collapsed(r);
    let t = clean_spec(s);
    assert(no_nbsp(' ') && no_coll(' '));
    assert forall|j: int| 0 <= j < r.len() implies no_nbsp(r[j]) by {
        assert(r[j] != '\u{a0}');
    }
    lemma_collapsed_preserves(r, no_nbsp);
    lemma_collapsed_no_collapsible(r);
    assert forall|j: int| 0 <= j < c.len() implies no_coll(c[j]) by {
        assert(!is_collapsible(c[j]));
    }
    lemma_trim_left_preserves(c, no_nbsp);
    lemma_trim_right_preserves(trim_left(c), no_nbsp);
    lemma_trim_left_preserves(c, no_coll);
    lemma_trim_right_preserves(trim_left(c), no_coll);
    assert forall|j: int| 0 <= j < t.len() implies t[j] != '\u{a0}' by {
        assert(no_nbsp(t[j]));
    }
    lemma_replace_id(t);
    assert forall|j: int| 0 <= j < t.len() implies !is_collapsible(t[j]) by {
        assert(no_coll(t[j]));
    }
    lemma_collapsed_id(t);
    lemma_trimmed_fixed(collapsed(replace_nbsp(s)));
}

/// Cleans markup prose: replaces non-breaking spaces with ordinary spaces,
/// collapses each newline/tab run into one space, and trims both ends.
/// Deterministic and total; `clean_spec` states the result exactly.
pub fn clean_text(input: &str) -> (r: String)
    ensures
        r@ == clean_spec(input@),
{
    let v = chars_of(input);
    let n = v.len();

    let mut replaced: Vec<char> = Vec::new();
    let mut i: usize = 0;
    while i < n
        invariant
            n == v@.len(),
            i <= n,
            replaced@ == replace_nbsp(v@).take(i as int),
        decreases n - i,
    {
        let c = v[i];
        if c == '\u{a0}' {
            replaced.push(' ');
        } else {
            replaced.push(c);
        }
        i = i + 1;
        proof {
            assert(replaced@ =~= replace_nbsp(v@).take(i as int));
        }
    }
    proof {
        assert(replace_nbsp(v@).take(n as int) =~= replace_nbsp(v@));
    }

    let t = replaced;
    let mut out: Vec<char> = Vec::new();
    let mut i: usize = 0;
    while i < n
        invariant
            n == t@.len(),
            i <= n,
            out@ == collapsed(t@.take(i as int)),
        decreases n - i,
    {
        let c = t[i];
        let collapsible = c == '\n' || c == '\t';
        if collapsible {
            if i > 0 && (t[i - 1] == '\n' || t[i - 1] == '\t') {
                // mid-run: nothing appended
            } else {
                out.push(' ');
            }
        } else {
            out.push(c);
        }
        i = i + 1;
        proof {
            assert(t@.take(i as int).drop_last() =~= t@.take(i - 1));
        }
    }
    proof {
        assert(t@.take(n as int) =~= t@);
    }

    let r = trim_chars(out);
    string_from_chars(&r)
}

} // verus!
