//! The parsed-document tree the extractors walk.
//!
//! A fetched page arrives as a tree of elements and text runs; the caller
//! converts whatever its markup parser produced into `DomNode` values. The
//! extractors only ever read four things from the tree: an element's tag
//! name, its attributes, its concatenated text, and its matching descendants
//! in document order. Those four readings are specified here once and the
//! extractors build on them.

use vstd::prelude::*;

use crate::text::is_space_char;
use crate::text::seq_match_at;
use crate::units::str_eq;

verus! {

/// One node of a parsed document: a text run, or an element with a tag name,
/// attributes in document order, and child nodes in document order.
pub enum DomNode {
    Text(String),
    Element { name: String, attrs: Vec<(String, String)>, children: Vec<DomNode> },
}

/// A structural test on one node: the landmark predicates the extractors
/// anchor on.
pub enum Pred {
    /// Tag name equals the word.
    Tag(String),
    /// The class attribute, split on whitespace, contains the word.
    Class(String),
    /// The named attribute is present and equals the value exactly.
    AttrEq(String, String),
    /// Both a tag name and an exact attribute value.
    TagAttrEq(String, String, String),
    /// Both a tag name and a class word.
    TagClass(String, String),
}

/// The mathematical shape of a structural test, over character sequences.
pub enum PredV {
    Tag(Seq<char>),
    Class(Seq<char>),
    AttrEq(Seq<char>, Seq<char>),
    TagAttrEq(Seq<char>, Seq<char>, Seq<char>),
    TagClass(Seq<char>, Seq<char>),
}

impl View for Pred {
    type V = PredV;

    open spec fn view(&self) -> PredV {
        match self {
            Pred::Tag(t) => PredV::Tag(t@),
            Pred::Class(c) => PredV::Class(c@),
            Pred::AttrEq(k, v) => PredV::AttrEq(k@, v@),
            Pred::TagAttrEq(t, k, v) => PredV::TagAttrEq(t@, k@, v@),
            Pred::TagClass(t, c) => PredV::TagClass(t@, c@),
        }
    }
}

/// The tag name, for an element.
pub open spec fn name_of(n: DomNode) -> Option<Seq<char>> {
    match n {
        DomNode::Element { name, .. } => Some(name@),
        DomNode::Text(_) => None,
    }
}

/// The first value bound to `key`, scanning attributes in order.
pub open spec fn attr_in(attrs: Seq<(String, String)>, key: Seq<char>) -> Option<Seq<char>>
    decreases attrs.len(),
{
    if attrs.len() == 0 {
        None
    } else if attrs[0].0@ == key {
        Some(attrs[0].1@)
    } else {
        attr_in(attrs.drop_first(), key)
    }
}

/// The value of an attribute on a node, if the node is an element that
/// carries it.
pub open spec fn attr_of(n: DomNode, key: Seq<char>) -> Option<Seq<char>> {
    match n {
        DomNode::Element { attrs, .. } => attr_in(attrs@, key),
        DomNode::Text(_) => None,
    }
}

/// The word `c` occurs at position `i` of `s`, bounded by whitespace or the
/// ends of `s`.
pub open spec fn is_class_word_at(s: Seq<char>, c: Seq<char>, i: int) -> bool {
    &&& 0 <= i
    &&& i + c.len() <= s.len()
    &&& s.subrange(i, i + c.len()) == c
    &&& (i == 0 || is_space_char(s[i - 1]))
    &&& (i + c.len() == s.len() || is_space_char(s[i + c.len()]))
}

/// A non-empty word is one of the whitespace-separated words of `s`.
pub open spec fn seq_has_word(s: Seq<char>, c: Seq<char>) -> bool {
    c.len() > 0 && exists|i: int| is_class_word_at(s, c, i)
}

/// Whether the node passes the structural test.
pub open spec fn node_matches(n: DomNode, p: PredV) -> bool {
    match p {
        PredV::Tag(t) => name_of(n) == Some(t),
        PredV::Class(c) => match attr_of(n, "class"@) {
            Some(s) => seq_has_word(s, c),
            None => false,
        },
        PredV::AttrEq(k, v) => attr_of(n, k) == Some(v),
        PredV::TagAttrEq(t, k, v) => name_of(n) == Some(t) && attr_of(n, k) == Some(v),
        PredV::TagClass(t, c) => name_of(n) == Some(t) && match attr_of(n, "class"@) {
            Some(s) => seq_has_word(s, c),
            None => false,
        },
    }
}

/// The node itself and every descendant that passes the test, in document
/// order.
pub open spec fn matches_in_node(n: DomNode, p: PredV) -> Seq<DomNode>
    decreases n,
{
    let own: Seq<DomNode> = if node_matches(n, p) {
        seq![n]
    } else {
        Seq::empty()
    };
    match n {
        DomNode::Element { children, .. } => own + matches_in_forest(children@, p),
        DomNode::Text(_) => own,
    }
}

/// Every node of the forest, and every descendant, that passes the test, in
/// document order.
pub open spec fn matches_in_forest(cs: Seq<DomNode>, p: PredV) -> Seq<DomNode>
    decreases cs,
{
    if cs.len() == 0 {
        Seq::empty()
    } else {
        matches_in_node(cs[0], p) + matches_in_forest(cs.drop_first(), p)
    }
}

/// The matching descendants of a node, in document order: the node itself is
/// not considered.
pub open spec fn descendant_matches(n: DomNode, p: PredV) -> Seq<DomNode> {
    match n {
        DomNode::Element { children, .. } => matches_in_forest(children@, p),
        DomNode::Text(_) => Seq::empty(),
    }
}

/// The first matching descendant, in document order, if any.
pub open spec fn first_of(n: DomNode, p: PredV) -> Option<DomNode> {
    if descendant_matches(n, p).len() > 0 {
        Some(descendant_matches(n, p)[0])
    } else {
        None
    }
}

/// The matching descendant at position `k` in document order, if any.
pub open spec fn nth_of(n: DomNode, p: PredV, k: int) -> Option<DomNode> {
    if descendant_matches(n, p).len() > k {
        Some(descendant_matches(n, p)[k])
    } else {
        None
    }
}

/// The concatenated text of a node: a text run's characters, or every
/// descendant text run of an element, in document order.
pub open spec fn text_of(n: DomNode) -> Seq<char>
    decreases n,
{
    match n {
        DomNode::Text(s) => s@,
        DomNode::Element { children, .. } => forest_text(children@),
    }
}

/// The concatenated text of a forest, in document order.
pub open spec fn forest_text(cs: Seq<DomNode>) -> Seq<char>
    decreases cs,
{
    if cs.len() == 0 {
        Seq::empty()
    } else {
        text_of(cs[0]) + forest_text(cs.drop_first())
    }
}

/// The direct element children bearing the given tag name, in order.
pub open spec fn children_named(n: DomNode, tag: Seq<char>) -> Seq<DomNode> {
    match n {
        DomNode::Element { children, .. } => children@.filter(
            |c: DomNode| name_of(c) == Some(tag),
        ),
        DomNode::Text(_) => Seq::empty(),
    }
}

/// The values behind a sequence of borrows.
pub open spec fn views_of(rs: Seq<&DomNode>) -> Seq<DomNode> {
    rs.map_values(|r: &DomNode| *r)
}

proof fn lemma_forest_append(a: Seq<DomNode>, b: Seq<DomNode>, p: PredV)
    ensures
        matches_in_forest(a + b, p) == matches_in_forest(a, p) + matches_in_forest(b, p),
    decreases a.len(),
{
    if a.len() == 0 {
        assert(a + b =~= b);
        assert(matches_in_forest(a, p) + matches_in_forest(b, p) =~= matches_in_forest(b, p));
    } else {
        lemma_forest_append(a.drop_first(), b, p);
        assert((a + b).drop_first() =~= a.drop_first() + b);
        assert((a + b)[0] == a[0]);
        assert(matches_in_node(a[0], p) + (matches_in_forest(a.drop_first(), p)
            + matches_in_forest(b, p)) =~= (matches_in_node(a[0], p) + matches_in_forest(
            a.drop_first(),
            p,
        )) + matches_in_forest(b, p));
    }
}

proof fn lemma_forest_one(x: DomNode, p: PredV)
    ensures
        matches_in_forest(seq![x], p) == matches_in_node(x, p),
{
    let s = seq![x];
    assert(s.len() == 1 && s[0] == x);
    assert(s.drop_first() =~= Seq::<DomNode>::empty());
    assert(matches_in_forest(s.drop_first(), p) =~= Seq::<DomNode>::empty());
    assert(matches_in_forest(s, p) =~= matches_in_node(x, p));
}

proof fn lemma_text_append(a: Seq<DomNode>, b: Seq<DomNode>)
    ensures
        forest_text(a + b) == forest_text(a) + forest_text(b),
    decreases a.len(),
{
    if a.len() == 0 {
        assert(a + b =~= b);
        assert(forest_text(a) + forest_text(b) =~= forest_text(b));
    } else {
        lemma_text_append(a.drop_first(), b);
        assert((a + b).drop_first() =~= a.drop_first() + b);
        assert((a + b)[0] == a[0]);
        assert(text_of(a[0]) + (forest_text(a.drop_first()) + forest_text(b)) =~= (text_of(a[0])
            + forest_text(a.drop_first())) + forest_text(b));
    }
}

proof fn lemma_text_one(x: DomNode)
    ensures
        forest_text(seq![x]) == text_of(x),
{
    let s = seq![x];
    assert(s.len() == 1 && s[0] == x);
    assert(s.drop_first() =~= Seq::<DomNode>::empty());
    assert(forest_text(s.drop_first()) =~= Seq::<char>::empty());
    assert(forest_text(s) =~= text_of(x));
}

/// Whether the class-attribute text `s` contains the word `c`.
fn has_class_word(s: &str, c: &str) -> (r: bool)
    ensures
        r == seq_has_word(s@, c@),
{
    let v = crate::text::chars_of(s);
    let w = crate::text::chars_of(c);
    let n = v.len();
    let m = w.len();
    if m == 0 {
        return false;
    }
    if m > n {
        assert(forall|i: int| !is_class_word_at(v@, w@, i));
        return false;
    }
    let mut i: usize = 0;
    while i <= n - m
        invariant
            v@ == s@,
            w@ == c@,
            n == v@.len(),
            m == w@.len(),
            0 < m <= n,
            i <= n - m + 1,
            forall|t: int| 0 <= t < i ==> !is_class_word_at(v@, w@, t),
        decreases n - i,
    {
        if seq_match_at(&v, &w, i) {
            let left_ok = i == 0 || crate::text::is_space(v[i - 1]);
            let right_ok = i + m == n || crate::text::is_space(v[i + m]);
            if left_ok && right_ok {
                assert(is_class_word_at(v@, w@, i as int));
                assert(is_class_word_at(s@, c@, i as int));
                assert(seq_has_word(s@, c@));
                return true;
            }
        }
        assert(!is_class_word_at(v@, w@, i as int));
        i = i + 1;
    }
    assert(forall|t: int| !is_class_word_at(v@, w@, t));
    false
}

/// The first value bound to `key` among the attributes.
fn attr_lookup<'a>(attrs: &'a Vec<(String, String)>, key: &str) -> (r: Option<&'a String>)
    ensures
        match r {
            Some(s) => attr_in(attrs@, key@) == Some(s@),
            None => attr_in(attrs@, key@) is None,
        },
{
    let n = attrs.len();
    let mut i: usize = 0;
    proof {
        assert(attrs@.skip(0) =~= attrs@);
    }
    while i < n
        invariant
            n == attrs@.len(),
            i <= n,
            attr_in(attrs@.skip(i as int), key@) == attr_in(attrs@, key@),
            forall|t: int| 0 <= t < i ==> attrs@[t].0@ != key@,
        decreases n - i,
    {
        if str_eq(attrs[i].0.as_str(), key) {
            assert(attrs@.skip(i as int)[0] == attrs@[i as int]);
            return Some(&attrs[i].1);
        }
        proof {
            assert(attrs@.skip(i as int)[0] == attrs@[i as int]);
            assert(attrs@.skip(i as int).drop_first() =~= attrs@.skip(i + 1));
        }
        i = i + 1;
    }
    proof {
        assert(attrs@.skip(n as int).len() == 0);
    }
    None
}

/// The value of an attribute on a node.
pub fn get_attr<'a>(n: &'a DomNode, key: &str) -> (r: Option<&'a String>)
    ensures
        match r {
            Some(s) => attr_of(*n, key@) == Some(s@),
            None => attr_of(*n, key@) is None,
        },
{
    match n {
        DomNode::Element { attrs, .. } => attr_lookup(attrs, key),
        DomNode::Text(_) => None,
    }
}

/// Whether the node passes the structural test.
fn eval_pred(n: &DomNode, p: &Pred) -> (r: bool)
    ensures
        r == node_matches(*n, p@),
{
    match p {
        Pred::Tag(t) => match n {
            DomNode::Element { name, .. } => str_eq(name.as_str(), t.as_str()),
            DomNode::Text(_) => false,
        },
        Pred::Class(c) => match get_attr(n, "class") {
            Some(s) => has_class_word(s.as_str(), c.as_str()),
            None => false,
        },
        Pred::AttrEq(k, v) => match get_attr(n, k.as_str()) {
            Some(s) => str_eq(s.as_str(), v.as_str()),
            None => false,
        },
        Pred::TagAttrEq(t, k, v) => {
            let tag_ok = match n {
                DomNode::Element { name, .. } => str_eq(name.as_str(), t.as_str()),
                DomNode::Text(_) => false,
            };
            if tag_ok {
                match get_attr(n, k.as_str()) {
                    Some(s) => str_eq(s.as_str(), v.as_str()),
                    None => false,
                }
            } else {
                false
            }
        },
        Pred::TagClass(t, c) => {
            let tag_ok = match n {
                DomNode::Element { name, .. } => str_eq(name.as_str(), t.as_str()),
                DomNode::Text(_) => false,
            };
            if tag_ok {
                match get_attr(n, "class") {
                    Some(s) => has_class_word(s.as_str(), c.as_str()),
                    None => false,
                }
            } else {
                false
            }
        },
    }
}

fn collect_forest<'a>(cs: &'a Vec<DomNode>, p: &Pred, out: &mut Vec<&'a DomNode>)
    ensures
        views_of(final(out)@) == views_of(old(out)@) + matches_in_forest(cs@, p@),
    decreases cs,
{
    let n = cs.len();
    let mut i: usize = 0;
    while i < n
        invariant
            n == cs@.len(),
            i <= n,
            views_of(out@) == views_of(old(out)@) + matches_in_forest(cs@.take(i as int), p@),
        decreases n - i,
    {
        let node = &cs[i];
        let ghost pre = out@;
        if eval_pred(node, p) {
            out.push(node);
            proof {
                assert(views_of(out@) =~= views_of(pre) + seq![*node]);
            }
        }
        let ghost mid = out@;
        match node {
            DomNode::Element { children, .. } => {
                proof {
                    assert(decreases_to!(cs@ => cs@[i as int]));
                }
                collect_forest(children, p, out);
            },
            DomNode::Text(_) => {
            },
        }
        proof {
            lemma_forest_append(cs@.take(i as int), seq![cs@[i as int]], p@);
            lemma_forest_one(cs@[i as int], p@);
            assert(cs@.take(i + 1) =~= cs@.take(i as int) + seq![cs@[i as int]]);
            match node {
                DomNode::Element { children, .. } => {
                    assert(views_of(out@) =~= views_of(mid) + matches_in_forest(children@, p@));
                    assert(views_of(out@) =~= views_of(old(out)@) + matches_in_forest(
                        cs@.take(i + 1),
                        p@,
                    ));
                },
                DomNode::Text(_) => {
                    assert(views_of(out@) =~= views_of(old(out)@) + matches_in_forest(
                        cs@.take(i + 1),
                        p@,
                    ));
                },
            }
        }
        i = i + 1;
    }
    proof {
        assert(cs@.take(n as int) =~= cs@);
    }
}

/// Every descendant of the node that passes the test, in document order.
pub fn find_all<'a>(n: &'a DomNode, p: &Pred) -> (r: Vec<&'a DomNode>)
    ensures
        views_of(r@) == descendant_matches(*n, p@),
{
    let mut out: Vec<&'a DomNode> = Vec::new();
    proof {
        assert(views_of(out@) =~= Seq::<DomNode>::empty());
    }
    match n {
        DomNode::Element { children, .. } => {
            collect_forest(children, p, &mut out);
        },
        DomNode::Text(_) => {
        },
    }
    out
}

/// The first matching descendant, in document order.
pub fn find_first<'a>(n: &'a DomNode, p: &Pred) -> (r: Option<&'a DomNode>)
    ensures
        match r {
            Some(m) => descendant_matches(*n, p@).len() > 0 && *m == descendant_matches(
                *n,
                p@,
            )[0],
            None => descendant_matches(*n, p@).len() == 0,
        },
{
    let all = find_all(n, p);
    if all.len() > 0 {
        let m = all[0];
        proof {
            assert(views_of(all@)[0] == *m);
        }
        Some(m)
    } else {
        None
    }
}

/// The matching descendant at the given position in document order.
pub fn find_nth<'a>(n: &'a DomNode, p: &Pred, k: usize) -> (r: Option<&'a DomNode>)
    ensures
        match r {
            Some(m) => descendant_matches(*n, p@).len() > k && *m == descendant_matches(
                *n,
                p@,
            )[k as int],
            None => descendant_matches(*n, p@).len() <= k,
        },
{
    let all = find_all(n, p);
    if all.len() > k {
        let m = all[k];
        proof {
            assert(views_of(all@)[k as int] == *m);
        }
        Some(m)
    } else {
        None
    }
}

fn append_forest_text(cs: &Vec<DomNode>, out: &mut String)
    ensures
        final(out)@ == old(out)@ + forest_text(cs@),
    decreases cs,
{
    let n = cs.len();
    let mut i: usize = 0;
    while i < n
        invariant
            n == cs@.len(),
            i <= n,
            out@ == old(out)@ + forest_text(cs@.take(i as int)),
        decreases n - i,
    {
        let node = &cs[i];
        match node {
            DomNode::Text(s) => {
                out.append(s.as_str());
            },
            DomNode::Element { children, .. } => {
                proof {
                    assert(decreases_to!(cs@ => cs@[i as int]));
                }
                append_forest_text(children, out);
            },
        }
        proof {
            lemma_text_append(cs@.take(i as int), seq![cs@[i as int]]);
            lemma_text_one(cs@[i as int]);
            assert(cs@.take(i + 1) =~= cs@.take(i as int) + seq![cs@[i as int]]);
        }
        i = i + 1;
    }
    proof {
        assert(cs@.take(n as int) =~= cs@);
    }
}

/// The concatenated text of the node, in document order.
pub fn node_text(n: &DomNode) -> (r: String)
    ensures
        r@ == text_of(*n),
{
    let mut out = String::new();
    match n {
        DomNode::Text(s) => {
            out.append(s.as_str());
        },
        DomNode::Element { children, .. } => {
            append_forest_text(children, &mut out);
        },
    }
    out
}

/// The direct element children bearing the given tag name, in order.
pub fn elem_children_named<'a>(n: &'a DomNode, tag: &str) -> (r: Vec<&'a DomNode>)
    ensures
        views_of(r@) == children_named(*n, tag@),
{
    let mut out: Vec<&'a DomNode> = Vec::new();
    proof {
        assert(views_of(out@) =~= Seq::<DomNode>::empty());
    }
    match n {
        DomNode::Text(_) => {
            proof {
                assert(views_of(out@) =~= children_named(*n, tag@));
            }
        },
        DomNode::Element { children, .. } => {
            let m = children.len();
            let mut i: usize = 0;
            proof {
                assert(children@.take(0int).filter(|c: DomNode| name_of(c) == Some(tag@))
                    =~= Seq::<DomNode>::empty());
            }
            while i < m
                invariant
                    m == children@.len(),
                    i <= m,
                    views_of(out@) == children@.take(i as int).filter(
                        |c: DomNode| name_of(c) == Some(tag@),
                    ),
                decreases m - i,
            {
                let child = &children[i];
                let ghost pre = out@;
                let is_named = match child {
                    DomNode::Element { name, .. } => str_eq(name.as_str(), tag),
                    DomNode::Text(_) => false,
                };
                if is_named {
                    out.push(child);
                    proof {
                        assert(views_of(out@) =~= views_of(pre) + seq![*child]);
                    }
                }
                proof {
                    reveal_with_fuel(Seq::filter, 2);
                    assert(children@.take(i + 1).drop_last() =~= children@.take(i as int));
                    assert(children@.take(i + 1).last() == children@[i as int]);
                }
                i = i + 1;
            }
            proof {
                assert(children@.take(m as int) =~= children@);
            }
        },
    }
    out
}

} // verus!
