//! The recipe record and the field extractors that populate it from a
//! parsed document.
//!
//! Every quantity is held in thousandths (an integer), every time in whole
//! minutes. Extraction walks landmark elements by class, tag and attribute;
//! required landmarks abort the recipe with a descriptive error, optional
//! ones degrade to an unset field.

use vstd::prelude::*;

use crate::dom::DomNode;
use crate::dom::Pred;
use crate::dom::PredV;
use crate::dom::attr_of;
use crate::dom::children_named;
use crate::dom::descendant_matches;
use crate::dom::elem_children_named;
use crate::dom::find_all;
use crate::dom::find_first;
use crate::dom::find_nth;
use crate::dom::first_of;
use crate::dom::get_attr;
use crate::dom::node_text;
use crate::dom::nth_of;
use crate::dom::text_of;
use crate::duration::U32Ext;
use crate::duration::duration_minutes;
use crate::errors::RecipeErrV;
use crate::errors::RecipeError;
use crate::nutrition::Macros;
use crate::nutrition::MacrosV;
use crate::nutrition::RawSlot;
use crate::text::clean_spec;
use crate::text::clean_text;
use crate::text::strip_trailing;
use crate::text::strip_trailing_char;
use crate::text::trim_text;
use crate::text::trimmed;
use crate::units::str_eq;

verus! {

/// One ingredient entry: the merge key is the name, the quantity is in
/// thousandths and defaults to zero when the markup carries none.
#[derive(Debug)]
pub struct Ingredient {
    pub name: String,
    pub quantity_milli: u64,
    pub units: Option<crate::units::Unit>,
    pub prepped: Option<String>,
}

/// The mathematical shape of one ingredient entry.
pub struct IngredientV {
    pub name: Seq<char>,
    pub quantity_milli: u64,
    pub units: Option<crate::units::Unit>,
    pub prepped: Option<Seq<char>>,
}

impl View for Ingredient {
    type V = IngredientV;

    open spec fn view(&self) -> IngredientV {
        IngredientV {
            name: self.name@,
            quantity_milli: self.quantity_milli,
            units: self.units,
            prepped: match self.prepped {
                Some(ref p) => Some(p@),
                None => None,
            },
        }
    }
}

/// One step group: an optional section label and its steps in order.
#[derive(Debug)]
pub struct Instruction {
    pub section: Option<String>,
    pub steps: Vec<String>,
}

/// The mathematical shape of one step group.
pub struct InstructionV {
    pub section: Option<Seq<char>>,
    pub steps: Seq<Seq<char>>,
}

impl View for Instruction {
    type V = InstructionV;

    open spec fn view(&self) -> InstructionV {
        InstructionV {
            section: match self.section {
                Some(ref s) => Some(s@),
                None => None,
            },
            steps: self.steps@.map_values(|s: String| s@),
        }
    }
}

/// A complete recipe record, populated in one pass by the extractors.
#[derive(Debug)]
pub struct Recipe {
    pub img: String,
    pub url: String,
    pub cuisine: String,
    pub category: String,
    pub method: String,
    pub total_time: u32,
    pub prep_time: u32,
    pub cook_time: u32,
    pub name: String,
    pub description: Option<String>,
    pub instructions: Vec<Instruction>,
    pub ingredients: Vec<Ingredient>,
    pub video: Option<String>,
    pub notes: Option<String>,
    pub servings: u64,
    pub equiptment: Vec<String>,
    pub macros: Option<Macros>,
}

/// The mathematical shape of a recipe record.
pub struct RecipeV {
    pub img: Seq<char>,
    pub url: Seq<char>,
    pub cuisine: Seq<char>,
    pub category: Seq<char>,
    pub method: Seq<char>,
    pub total_time: u32,
    pub prep_time: u32,
    pub cook_time: u32,
    pub name: Seq<char>,
    pub description: Option<Seq<char>>,
    pub instructions: Seq<InstructionV>,
    pub ingredients: Seq<IngredientV>,
    pub video: Option<Seq<char>>,
    pub notes: Option<Seq<char>>,
    pub servings: u64,
    pub equiptment: Seq<Seq<char>>,
    pub macros: Option<MacrosV>,
}

pub open spec fn opt_view(o: Option<String>) -> Option<Seq<char>> {
    match o {
        Some(s) => Some(s@),
        None => None,
    }
}

impl View for Recipe {
    type V = RecipeV;

    open spec fn view(&self) -> RecipeV {
        RecipeV {
            img: self.img@,
            url: self.url@,
            cuisine: self.cuisine@,
            category: self.category@,
            method: self.method@,
            total_time: self.total_time,
            prep_time: self.prep_time,
            cook_time: self.cook_time,
            name: self.name@,
            description: opt_view(self.description),
            instructions: self.instructions@.map_values(|x: Instruction| x@),
            ingredients: self.ingredients@.map_values(|x: Ingredient| x@),
            video: opt_view(self.video),
            notes: opt_view(self.notes),
            servings: self.servings,
            equiptment: self.equiptment@.map_values(|s: String| s@),
            macros: match self.macros {
                Some(ref m) => Some(m@),
                None => None,
            },
        }
    }
}

/// The empty record: every text empty, every time zero, one serving.
pub open spec fn default_recipe() -> RecipeV {
    RecipeV {
        img: Seq::empty(),
        url: Seq::empty(),
        cuisine: Seq::empty(),
        category: Seq::empty(),
        method: Seq::empty(),
        total_time: 0,
        prep_time: 0,
        cook_time: 0,
        name: Seq::empty(),
        description: None,
        instructions: Seq::empty(),
        ingredients: Seq::empty(),
        video: None,
        notes: None,
        servings: 1,
        equiptment: Seq::empty(),
        macros: None,
    }
}

impl Default for Recipe {
    /// The empty record, with a serving count of one.
    fn default() -> (r: Recipe)
        ensures
            r@ == default_recipe(),
    {
        let r = Recipe {
            img: String::new(),
            url: String::new(),
            cuisine: String::new(),
            category: String::new(),
            method: String::new(),
            total_time: 0,
            prep_time: 0,
            cook_time: 0,
            name: String::new(),
            description: None,
            instructions: Vec::new(),
            ingredients: Vec::new(),
            video: None,
            notes: None,
            servings: 1,
            equiptment: Vec::new(),
            macros: None,
        };
        proof {
            assert(r@.instructions =~= default_recipe().instructions);
            assert(r@.ingredients =~= default_recipe().ingredients);
            assert(r@.equiptment =~= default_recipe().equiptment);
        }
        r
    }
}

/// Addition on thousandths, saturating at the largest representable value.
pub open spec fn sat_add(a: u64, b: u64) -> u64 {
    if a + b > u64::MAX {
        u64::MAX
    } else {
        (a + b) as u64
    }
}

fn sat_add_exec(a: u64, b: u64) -> (r: u64)
    ensures
        r == sat_add(a, b),
{
    if a > u64::MAX - b {
        u64::MAX
    } else {
        a + b
    }
}

/// The first position holding an entry of this name, or the length.
pub open spec fn first_index_named(list: Seq<IngredientV>, name: Seq<char>) -> int
    decreases list.len(),
{
    if list.len() == 0 {
        0
    } else if list[0].name == name {
        0
    } else {
        1 + first_index_named(list.drop_first(), name)
    }
}

/// One entry merged into the list: an entry of the same name has the new
/// quantity added to it (its units and preparation note stay); a new name is
/// appended, so first-seen order is preserved.
pub open spec fn merge_one(list: Seq<IngredientV>, x: IngredientV) -> Seq<IngredientV> {
    let j = first_index_named(list, x.name);
    if j < list.len() {
        list.update(
            j,
            IngredientV {
                name: list[j].name,
                quantity_milli: sat_add(list[j].quantity_milli, x.quantity_milli),
                units: list[j].units,
                prepped: list[j].prepped,
            },
        )
    } else {
        list.push(x)
    }
}

/// Every entry merged into the list, left to right.
pub open spec fn merge_all(list: Seq<IngredientV>, xs: Seq<IngredientV>) -> Seq<IngredientV>
    decreases xs.len(),
{
    if xs.len() == 0 {
        list
    } else {
        merge_all(merge_one(list, xs[0]), xs.drop_first())
    }
}

/// The entry names, in order.
pub open spec fn names_of(list: Seq<IngredientV>) -> Seq<Seq<char>> {
    list.map_values(|x: IngredientV| x.name)
}

/// The names after merging new entries into a collection whose names are
/// `seen`: a name already seen stays where it first appeared; a fresh name
/// is appended, in first-seen order.
pub open spec fn appended_names(seen: Seq<Seq<char>>, xs: Seq<IngredientV>) -> Seq<Seq<char>>
    decreases xs.len(),
{
    if xs.len() == 0 {
        seen
    } else {
        if seen.contains(xs[0].name) {
            appended_names(seen, xs.drop_first())
        } else {
            appended_names(seen.push(xs[0].name), xs.drop_first())
        }
    }
}

/// The total quantity filed under one name, summed without saturation.
pub open spec fn total_quantity(list: Seq<IngredientV>, n: Seq<char>) -> nat
    decreases list.len(),
{
    if list.len() == 0 {
        0
    } else {
        (if list[0].name == n {
            list[0].quantity_milli as nat
        } else {
            0 as nat
        }) + total_quantity(list.drop_first(), n)
    }
}

proof fn lemma_first_index_props(list: Seq<IngredientV>, n: Seq<char>)
    ensures
        0 <= first_index_named(list, n) <= list.len(),
        first_index_named(list, n) < list.len() ==> list[first_index_named(list, n)].name == n,
        (first_index_named(list, n) < list.len()) == names_of(list).contains(n),
    decreases list.len(),
{
    if list.len() == 0 {
        assert(!names_of(list).contains(n));
    } else if list[0].name == n {
        assert(names_of(list)[0] == n);
        assert(names_of(list).contains(n));
    } else {
        lemma_first_index_props(list.drop_first(), n);
        let fi = first_index_named(list.drop_first(), n);
        if fi < list.drop_first().len() {
            assert(list[1 + fi] == list.drop_first()[fi]);
            assert(names_of(list)[1 + fi] == n);
            assert(names_of(list).contains(n));
        } else {
            if names_of(list).contains(n) {
                let i = choose|i: int| 0 <= i < names_of(list).len() && names_of(list)[i] == n;
                assert(list[i].name == n);
                assert(i != 0);
                assert(names_of(list.drop_first())[i - 1] == n);
                assert(names_of(list.drop_first()).contains(n));
                assert(false);
            }
        }
    }
}

proof fn lemma_merge_one_names(list: Seq<IngredientV>, x: IngredientV)
    ensures
        names_of(merge_one(list, x)) == if names_of(list).contains(x.name) {
            names_of(list)
        } else {
            names_of(list).push(x.name)
        },
{
    lemma_first_index_props(list, x.name);
    let j = first_index_named(list, x.name);
    if j < list.len() {
        assert forall|k: int| 0 <= k < list.len() implies names_of(merge_one(list, x))[k]
            == names_of(list)[k] by {
            assert(merge_one(list, x)[k].name == list[k].name);
        }
        assert(names_of(merge_one(list, x)) =~= names_of(list));
    } else {
        assert forall|k: int| 0 <= k < list.len() + 1 implies names_of(merge_one(list, x))[k]
            == names_of(list).push(x.name)[k] by {
            assert(merge_one(list, x)[k] == list.push(x)[k]);
        }
        assert(names_of(merge_one(list, x)) =~= names_of(list).push(x.name));
    }
}

proof fn lemma_total_update(list: Seq<IngredientV>, j: int, e: IngredientV, n: Seq<char>)
    requires
        0 <= j < list.len(),
        e.name == list[j].name,
    ensures
        total_quantity(list.update(j, e), n) + (if list[j].name == n {
            list[j].quantity_milli as nat
        } else {
            0 as nat
        }) == total_quantity(list, n) + (if e.name == n {
            e.quantity_milli as nat
        } else {
            0 as nat
        }),
    decreases list.len(),
{
    if j == 0 {
        assert(list.update(0, e).drop_first() =~= list.drop_first());
        assert(list.update(0, e)[0] == e);
    } else {
        lemma_total_update(list.drop_first(), j - 1, e, n);
        assert(list.update(j, e).drop_first() =~= list.drop_first().update(j - 1, e));
        assert(list.update(j, e)[0] == list[0]);
        assert(list.drop_first()[j - 1] == list[j]);
    }
}

proof fn lemma_total_push(list: Seq<IngredientV>, x: IngredientV, n: Seq<char>)
    ensures
        total_quantity(list.push(x), n) == total_quantity(list, n) + (if x.name == n {
            x.quantity_milli as nat
        } else {
            0 as nat
        }),
    decreases list.len(),
{
    let p = list.push(x);
    assert(p.len() == list.len() + 1);
    if list.len() == 0 {
        assert(p[0] == x);
        assert(p.drop_first() =~= Seq::<IngredientV>::empty());
        assert(total_quantity(p.drop_first(), n) == 0);
        assert(total_quantity(p, n) == (if x.name == n {
            x.quantity_milli as nat
        } else {
            0 as nat
        }) + total_quantity(p.drop_first(), n));
    } else {
        lemma_total_push(list.drop_first(), x, n);
        assert(p.drop_first() =~= list.drop_first().push(x));
        assert(p[0] == list[0]);
        assert(total_quantity(p, n) == (if list[0].name == n {
            list[0].quantity_milli as nat
        } else {
            0 as nat
        }) + total_quantity(p.drop_first(), n));
        assert(total_quantity(list, n) == (if list[0].name == n {
            list[0].quantity_milli as nat
        } else {
            0 as nat
        }) + total_quantity(list.drop_first(), n));
    }
}

proof fn lemma_elem_le_total(list: Seq<IngredientV>, j: int, n: Seq<char>)
    requires
        0 <= j < list.len(),
        list[j].name == n,
    ensures
        list[j].quantity_milli as nat <= total_quantity(list, n),
    decreases list.len(),
{
    if j > 0 {
        lemma_elem_le_total(list.drop_first(), j - 1, n);
        assert(list.drop_first()[j - 1] == list[j]);
    }
}

proof fn lemma_merge_one_total(list: Seq<IngredientV>, x: IngredientV, n: Seq<char>)
    requires
        total_quantity(list, n) + (if x.name == n {
            x.quantity_milli as nat
        } else {
            0 as nat
        }) <= u64::MAX,
    ensures
        total_quantity(merge_one(list, x), n) == total_quantity(list, n) + (if x.name == n {
            x.quantity_milli as nat
        } else {
            0 as nat
        }),
{
    lemma_first_index_props(list, x.name);
    let j = first_index_named(list, x.name);
    if j < list.len() {
        let e = IngredientV {
            name: list[j].name,
            quantity_milli: sat_add(list[j].quantity_milli, x.quantity_milli),
            units: list[j].units,
            prepped: list[j].prepped,
        };
        if x.name == n {
            lemma_elem_le_total(list, j, n);
            assert(list[j].quantity_milli + x.quantity_milli <= u64::MAX);
            assert(e.quantity_milli == list[j].quantity_milli + x.quantity_milli);
        }
        lemma_total_update(list, j, e, n);
    } else {
        lemma_total_push(list, x, n);
    }
}

/// Merging preserves first-seen name order: the merged collection's names
/// are the old names in their order, followed by the first occurrence of
/// each name not already present, in the order the new entries first carry
/// them.
pub proof fn lemma_merge_keeps_name_order(list: Seq<IngredientV>, xs: Seq<IngredientV>)
    ensures
        names_of(merge_all(list, xs)) == appended_names(names_of(list), xs),
    decreases xs.len(),
{
    if xs.len() > 0 {
        lemma_merge_one_names(list, xs[0]);
        lemma_merge_keeps_name_order(merge_one(list, xs[0]), xs.drop_first());
    }
}

/// Merging adds quantities: for any name, matched case-sensitively, the
/// merged collection files the old total plus the new entries' total under
/// it, wherever that sum is representable.
pub proof fn lemma_merge_adds_quantities(
    list: Seq<IngredientV>,
    xs: Seq<IngredientV>,
    n: Seq<char>,
)
    requires
        total_quantity(list, n) + total_quantity(xs, n) <= u64::MAX,
    ensures
        total_quantity(merge_all(list, xs), n) == total_quantity(list, n) + total_quantity(xs, n),
    decreases xs.len(),
{
    if xs.len() > 0 {
        lemma_merge_one_total(list, xs[0], n);
        lemma_merge_adds_quantities(merge_one(list, xs[0]), xs.drop_first(), n);
    }
}

proof fn lemma_first_index_at(list: Seq<IngredientV>, name: Seq<char>, j: int)
    requires
        0 <= j <= list.len(),
        forall|t: int| 0 <= t < j ==> list[t].name != name,
        j == list.len() || list[j].name == name,
    ensures
        first_index_named(list, name) == j,
    decreases j,
{
    if j > 0 {
        lemma_first_index_at(list.drop_first(), name, j - 1);
    }
}

impl Recipe {
    /// Merges new ingredient entries into the record: a repeated name adds
    /// its quantity to the existing entry, a fresh name is appended.
    pub fn add_ingredients(&mut self, new_ingredients: Vec<Ingredient>)
        ensures
            final(self)@ == (RecipeV {
                ingredients: merge_all(
                    old(self)@.ingredients,
                    new_ingredients@.map_values(|x: Ingredient| x@),
                ),
                ..old(self)@
            }),
    {
        let ghost orig = new_ingredients@;
        let mut rest = new_ingredients;
        while rest.len() > 0
            invariant
                merge_all(self@.ingredients, rest@.map_values(|x: Ingredient| x@)) == merge_all(
                    old(self)@.ingredients,
                    orig.map_values(|x: Ingredient| x@),
                ),
                self@ == (RecipeV { ingredients: self@.ingredients, ..old(self)@ }),
            decreases rest@.len(),
        {
            let ghost rest0 = rest@;
            let ghost list0 = self@.ingredients;
            let x = rest.remove(0);
            proof {
                assert(rest@ =~= rest0.drop_first());
                assert(rest0.map_values(|y: Ingredient| y@)[0] == x@);
                assert(rest0.map_values(|y: Ingredient| y@).drop_first() =~= rest@.map_values(
                    |y: Ingredient| y@,
                ));
            }
            let n = self.ingredients.len();
            let mut j: usize = 0;
            while j < n && !str_eq(self.ingredients[j].name.as_str(), x.name.as_str())
                invariant
                    n == self.ingredients@.len(),
                    j <= n,
                    forall|t: int|
                        0 <= t < j ==> (#[trigger] self.ingredients@[t])@.name != x@.name,
                decreases n - j,
            {
                j = j + 1;
            }
            proof {
                lemma_first_index_at(
                    self.ingredients@.map_values(|y: Ingredient| y@),
                    x@.name,
                    j as int,
                );
            }
            if j < n {
                let q = self.ingredients[j].quantity_milli;
                self.ingredients[j].quantity_milli = sat_add_exec(q, x.quantity_milli);
                proof {
                    assert(self@.ingredients =~= merge_one(list0, x@));
                }
            } else {
                self.ingredients.push(x);
                proof {
                    assert(self@.ingredients =~= merge_one(list0, x@));
                }
            }
        }
        proof {
            assert(rest@.map_values(|x: Ingredient| x@) =~= Seq::<IngredientV>::empty());
        }
    }

    /// Normalizes note prose: non-breaking spaces become spaces, newline and
    /// tab runs collapse, the ends are trimmed.
    pub fn clean_notes(input: &str) -> (r: String)
        ensures
            r@ == clean_spec(input@),
    {
        clean_text(input)
    }
}

/// What the header landmark yields: the recipe name from its first
/// second-level heading, and the total time read by the duration grammar
/// from its total-time element. Either landmark missing, or an unreadable
/// duration, is a failure.
pub open spec fn header_fields(header: DomNode) -> Result<(Seq<char>, u32), RecipeErrV> {
    match first_of(header, PredV::Tag("h2"@)) {
        Some(h2) => match first_of(header, PredV::Class("tasty-recipes-total-time"@)) {
            Some(te) => match duration_minutes(text_of(te)) {
                Some(t) => Ok((text_of(h2), t)),
                None => Err(RecipeErrV::FieldDecodeError(text_of(te))),
            },
            None => Err(RecipeErrV::LandmarkNotFound("tasty-recipes-total-time"@)),
        },
        None => Err(RecipeErrV::LandmarkNotFound("h2"@)),
    }
}

/// The step texts of one ordered list, in document order.
pub open spec fn steps_of(ol: DomNode) -> Seq<Seq<char>> {
    descendant_matches(ol, PredV::Tag("li"@)).map_values(|m: DomNode| text_of(m))
}

/// What the instructions landmark yields. The second top-level container
/// inside it holds the ordered lists; exactly one list makes a single
/// unnamed group, otherwise each sub-heading is paired with the list at the
/// same position (trailing unmatched ones are dropped) and a trailing colon
/// is stripped from each section label. Only a missing second container is
/// a failure.
pub open spec fn instructions_of(list: DomNode) -> Result<Seq<InstructionV>, RecipeErrV> {
    let h4s = descendant_matches(list, PredV::Tag("h4"@));
    let divs = children_named(list, "div"@);
    if divs.len() < 2 {
        Err(RecipeErrV::LandmarkNotFound("div"@))
    } else {
        let ols = children_named(divs[1], "ol"@);
        if ols.len() == 1 {
            Ok(seq![InstructionV { section: None, steps: steps_of(ols[0]) }])
        } else {
            let k: int = if h4s.len() <= ols.len() {
                h4s.len() as int
            } else {
                ols.len() as int
            };
            Ok(
                Seq::new(
                    k as nat,
                    |i: int|
                        InstructionV {
                            section: Some(strip_trailing(text_of(h4s[i]), ':')),
                            steps: steps_of(ols[i]),
                        },
                ),
            )
        }
    }
}

/// The name of one ingredient list item: a bold ("strong") inline element's
/// text, else a secondary bold ("b") element's text, else a failure naming
/// the recipe URL and the raw item text.
pub open spec fn item_name(li: DomNode, url: Seq<char>) -> Result<Seq<char>, RecipeErrV> {
    match first_of(li, PredV::Tag("strong"@)) {
        Some(s) => Ok(text_of(s)),
        None => match first_of(li, PredV::Tag("b"@)) {
            Some(b) => Ok(text_of(b)),
            None => Err(RecipeErrV::IngredientNameMissing { url: url, item: text_of(li) }),
        },
    }
}

/// The quantity (in thousandths) and unit of the quantity span: a numeric
/// attribute on the span itself, else on its first nested span; an
/// unreadable number or a missing nested source fails, an unrecognized unit
/// word degrades to no unit.
pub open spec fn item_quantity(span: DomNode) -> Result<(u64, Option<crate::units::Unit>), RecipeErrV> {
    let units = match attr_of(span, "data-unit"@) {
        Some(u) => crate::units::unit_code_of(crate::units::lower_seq(u)),
        None => None,
    };
    match attr_of(span, "data-amount"@) {
        Some(qs) => match crate::numbers::decimal_milli_of(qs) {
            Some(q) => Ok((q, units)),
            None => Err(RecipeErrV::FieldDecodeError(qs)),
        },
        None => match first_of(span, PredV::Tag("span"@)) {
            Some(inner) => match attr_of(inner, "data-amount"@) {
                Some(qs) => match crate::numbers::decimal_milli_of(qs) {
                    Some(q) => Ok((q, units)),
                    None => Err(RecipeErrV::FieldDecodeError(qs)),
                },
                None => Err(RecipeErrV::LandmarkNotFound("data-amount"@)),
            },
            None => Err(RecipeErrV::LandmarkNotFound("span"@)),
        },
    }
}

/// One ingredient list item read whole: name, quantity and unit from the
/// second inline span when there is one (a quantity-less item keeps zero and
/// no unit), and a preparation note from the first emphasis element.
pub open spec fn item_ingredient(li: DomNode, url: Seq<char>) -> Result<IngredientV, RecipeErrV> {
    match item_name(li, url) {
        Ok(name) => {
            let prepped = match first_of(li, PredV::Tag("em"@)) {
                Some(em) => Some(text_of(em)),
                None => None,
            };
            match nth_of(li, PredV::Tag("span"@), 1) {
                Some(span) => match item_quantity(span) {
                    Ok(qu) => Ok(
                        IngredientV { name, quantity_milli: qu.0, units: qu.1, prepped },
                    ),
                    Err(e) => Err(e),
                },
                None => Ok(IngredientV { name, quantity_milli: 0, units: None, prepped }),
            }
        },
        Err(e) => Err(e),
    }
}

/// Every list item read in order; the first failure wins.
pub open spec fn items_of(lis: Seq<DomNode>, url: Seq<char>) -> Result<Seq<IngredientV>, RecipeErrV>
    decreases lis.len(),
{
    if lis.len() == 0 {
        Ok(Seq::empty())
    } else {
        match items_of(lis.drop_last(), url) {
            Ok(pre) => match item_ingredient(lis.last(), url) {
                Ok(x) => Ok(pre.push(x)),
                Err(e) => Err(e),
            },
            Err(e) => Err(e),
        }
    }
}

/// What one ingredient-list landmark yields: its list items in document
/// order.
pub open spec fn ul_ingredients(list: DomNode, url: Seq<char>) -> Result<
    Seq<IngredientV>,
    RecipeErrV,
> {
    items_of(descendant_matches(list, PredV::Tag("li"@)), url)
}

fn parse_ingredient_item(li: &DomNode, url: &str) -> (r: Result<Ingredient, RecipeError>)
    ensures
        match item_ingredient(*li, url@) {
            Ok(x) => (match r {
                Ok(i) => i@ == x,
                Err(_) => false,
            }),
            Err(e) => (match r {
                Err(a) => a@ == e,
                Ok(_) => false,
            }),
        },
{
    let pstrong = Pred::Tag("strong".to_owned());
    let pb = Pred::Tag("b".to_owned());
    let name = match find_first(li, &pstrong) {
        Some(s) => node_text(s),
        None => match find_first(li, &pb) {
            Some(b) => node_text(b),
            None => {
                return Err(
                    RecipeError::IngredientNameMissing { url: url.to_owned(), item: node_text(li) },
                );
            },
        },
    };
    let pem = Pred::Tag("em".to_owned());
    let prepped = match find_first(li, &pem) {
        Some(em) => Some(node_text(em)),
        None => None,
    };
    let pspan = Pred::Tag("span".to_owned());
    let span = match find_nth(li, &pspan, 1) {
        Some(s) => s,
        None => {
            return Ok(Ingredient { name, quantity_milli: 0, units: None, prepped });
        },
    };
    let units = match get_attr(span, "data-unit") {
        Some(u) => match crate::units::Unit::from(u.as_str()) {
            Ok(un) => Some(un),
            Err(_) => None,
        },
        None => None,
    };
    let quantity_milli = match get_attr(span, "data-amount") {
        Some(qs) => {
            let v = crate::text::chars_of(qs.as_str());
            match crate::numbers::parse_decimal_milli(&v) {
                Some(q) => q,
                None => {
                    return Err(RecipeError::FieldDecodeError(qs.clone()));
                },
            }
        },
        None => {
            let inner = match find_first(span, &pspan) {
                Some(x) => x,
                None => {
                    return Err(RecipeError::LandmarkNotFound("span".to_owned()));
                },
            };
            match get_attr(inner, "data-amount") {
                Some(qs) => {
                    let v = crate::text::chars_of(qs.as_str());
                    match crate::numbers::parse_decimal_milli(&v) {
                        Some(q) => q,
                        None => {
                            return Err(RecipeError::FieldDecodeError(qs.clone()));
                        },
                    }
                },
                None => {
                    return Err(RecipeError::LandmarkNotFound("data-amount".to_owned()));
                },
            }
        },
    };
    Ok(Ingredient { name, quantity_milli, units, prepped })
}

fn collect_steps(ol: &DomNode) -> (r: Vec<String>)
    ensures
        r@.map_values(|s: String| s@) == steps_of(*ol),
{
    let p = Pred::Tag("li".to_owned());
    let lis = find_all(ol, &p);
    let ghost lis_v = descendant_matches(*ol, PredV::Tag("li"@));
    let mut out: Vec<String> = Vec::new();
    let n = lis.len();
    let mut i: usize = 0;
    while i < n
        invariant
            n == lis@.len(),
            i <= n,
            crate::dom::views_of(lis@) == lis_v,
            out@.len() == i,
            forall|k: int| 0 <= k < i ==> (#[trigger] out@[k])@ == text_of(lis_v[k]),
        decreases n - i,
    {
        proof {
            assert(crate::dom::views_of(lis@)[i as int] == *lis@[i as int]);
        }
        let t = node_text(lis[i]);
        out.push(t);
        i = i + 1;
    }
    proof {
        assert forall|k: int| 0 <= k < n implies out@.map_values(|s: String| s@)[k] == steps_of(
            *ol,
        )[k] by {
            assert(out@.map_values(|s: String| s@)[k] == out@[k]@);
            assert(steps_of(*ol)[k] == text_of(lis_v[k]));
        }
        assert(out@.map_values(|s: String| s@) =~= steps_of(*ol));
    }
    out
}

/// Every ingredient-list block merged into the accumulated entries, in
/// document order; the first failure wins.
pub open spec fn uls_ingredients(
    uls: Seq<DomNode>,
    url: Seq<char>,
    acc: Seq<IngredientV>,
) -> Result<Seq<IngredientV>, RecipeErrV>
    decreases uls.len(),
{
    if uls.len() == 0 {
        Ok(acc)
    } else {
        match ul_ingredients(uls[0], url) {
            Ok(items) => uls_ingredients(uls.drop_first(), url, merge_all(acc, items)),
            Err(e) => Err(e),
        }
    }
}

/// The recipe-block locator: the jump link's target fragment with its
/// leading marker character and trailing suffix token stripped.
pub open spec fn jump_target_id(doc: DomNode) -> Result<Seq<char>, RecipeErrV> {
    match first_of(doc, PredV::Class("tasty-recipes-jump-link"@)) {
        Some(jump) => match attr_of(jump, "href"@) {
            Some(href) => Ok(
                crate::text::strip_suffix_all(
                    crate::text::strip_leading(href, '#'),
                    "-jump-target"@,
                ),
            ),
            None => Err(RecipeErrV::LandmarkNotFound("tasty-recipes-jump-link"@)),
        },
        None => Err(RecipeErrV::LandmarkNotFound("tasty-recipes-jump-link"@)),
    }
}

/// The optional metadata read off the details list: prep and cook times,
/// cuisine, category and preparation method.
pub struct MetaV {
    pub prep: u32,
    pub cook: u32,
    pub cuisine: Seq<char>,
    pub category: Seq<char>,
    pub method: Seq<char>,
}

/// One details list item applied to the metadata: recognized class keys
/// overwrite their field (a missing inner element leaves it), an unreadable
/// duration fails, unrecognized keys are ignored.
pub open spec fn meta_apply(li: DomNode, m: MetaV) -> Result<MetaV, RecipeErrV> {
    match attr_of(li, "class"@) {
        Some(cl) => if cl == "prep-time"@ {
            match first_of(li, PredV::Class("tasty-recipes-prep-time"@)) {
                Some(el) => match duration_minutes(text_of(el)) {
                    Some(t) => Ok(MetaV { prep: t, ..m }),
                    None => Err(RecipeErrV::FieldDecodeError(text_of(el))),
                },
                None => Ok(m),
            }
        } else if cl == "cook-time"@ {
            match first_of(li, PredV::Class("tasty-recipes-cook-time"@)) {
                Some(el) => match duration_minutes(text_of(el)) {
                    Some(t) => Ok(MetaV { cook: t, ..m }),
                    None => Err(RecipeErrV::FieldDecodeError(text_of(el))),
                },
                None => Ok(m),
            }
        } else if cl == "cuisine"@ {
            match first_of(li, PredV::Class("tasty-recipes-cuisine"@)) {
                Some(el) => Ok(MetaV { cuisine: text_of(el), ..m }),
                None => Ok(m),
            }
        } else if cl == "category"@ {
            match first_of(li, PredV::Class("tasty-recipes-category"@)) {
                Some(el) => Ok(MetaV { category: text_of(el), ..m }),
                None => Ok(m),
            }
        } else if cl == "method"@ {
            match first_of(li, PredV::Class("tasty-recipes-method"@)) {
                Some(el) => Ok(MetaV { method: text_of(el), ..m }),
                None => Ok(m),
            }
        } else {
            Ok(m)
        },
        None => Ok(m),
    }
}

/// Every details list item applied in document order; the first failure
/// wins.
pub open spec fn meta_fold(lis: Seq<DomNode>, m: MetaV) -> Result<MetaV, RecipeErrV>
    decreases lis.len(),
{
    if lis.len() == 0 {
        Ok(m)
    } else {
        match meta_apply(lis[0], m) {
            Ok(m2) => meta_fold(lis.drop_first(), m2),
            Err(e) => Err(e),
        }
    }
}

/// A scheme-relative URL given an explicit https scheme; anything else kept.
pub open spec fn absolutized(u: Seq<char>) -> Seq<char> {
    if u.len() >= 2 && u[0] == '/' && u[1] == '/' {
        "https:"@ + u
    } else {
        u
    }
}

/// What assembling a recipe from a fetched document yields, starting from a
/// base record that already carries the image and canonical URLs. Required
/// landmarks (jump link, recipe block, header, entry content) abort with a
/// failure; optional ones (description, ingredient lists, instructions,
/// video, notes, metadata) degrade to the base or unset value. The nutrition
/// record is left unset: it comes from a second document.
pub open spec fn assembled_recipe(doc: DomNode, base: RecipeV) -> Result<RecipeV, RecipeErrV> {
    match jump_target_id(doc) {
        Err(e) => Err(e),
        Ok(id) => match first_of(doc, PredV::AttrEq("id"@, id)) {
            None => Err(RecipeErrV::LandmarkNotFound(id)),
            Some(block) => match first_of(block, PredV::Tag("header"@)) {
                None => Err(RecipeErrV::LandmarkNotFound("header"@)),
                Some(header) => match header_fields(header) {
                    Err(e) => Err(e),
                    Ok(nt) => match first_of(
                        block,
                        PredV::Class("tasty-recipes-entry-content"@),
                    ) {
                        None => Err(RecipeErrV::LandmarkNotFound("tasty-recipes-entry-content"@)),
                        Some(body) => {
                            let description = match first_of(
                                body,
                                PredV::Class("tasty-recipes-description-body"@),
                            ) {
                                Some(d) => Some(trimmed(text_of(d))),
                                None => None,
                            };
                            let ing_result = match first_of(
                                body,
                                PredV::Class("tasty-recipes-ingredients"@),
                            ) {
                                Some(cont) => uls_ingredients(
                                    descendant_matches(cont, PredV::Tag("ul"@)),
                                    base.url,
                                    base.ingredients,
                                ),
                                None => Ok(base.ingredients),
                            };
                            match ing_result {
                                Err(e) => Err(e),
                                Ok(ingredients) => {
                                    let ins_result = match first_of(
                                        body,
                                        PredV::Class("tasty-recipes-instructions"@),
                                    ) {
                                        Some(ib) => instructions_of(ib),
                                        None => Ok(base.instructions),
                                    };
                                    match ins_result {
                                        Err(e) => Err(e),
                                        Ok(instructions) => {
                                            let video = match first_of(
                                                body,
                                                PredV::Tag("iframe"@),
                                            ) {
                                                Some(fr) => match attr_of(
                                                    fr,
                                                    "src"@,
                                                ) {
                                                    Some(u) => Some(u),
                                                    None => base.video,
                                                },
                                                None => base.video,
                                            };
                                            let notes = match first_of(
                                                body,
                                                PredV::Class("tasty-recipes-notes"@),
                                            ) {
                                                Some(nd) => Some(clean_spec(trimmed(text_of(nd)))),
                                                None => None,
                                            };
                                            let m0 = MetaV {
                                                prep: base.prep_time,
                                                cook: base.cook_time,
                                                cuisine: base.cuisine,
                                                category: base.category,
                                                method: base.method,
                                            };
                                            let meta_result = match first_of(
                                                body,
                                                PredV::Class("tasty-recipes-other-details"@),
                                            ) {
                                                Some(det) => match first_of(
                                                    det,
                                                    PredV::Tag("ul"@),
                                                ) {
                                                    Some(ul) => meta_fold(
                                                        descendant_matches(ul, PredV::Tag("li"@)),
                                                        m0,
                                                    ),
                                                    None => Ok(m0),
                                                },
                                                None => Ok(m0),
                                            };
                                            match meta_result {
                                                Err(e) => Err(e),
                                                Ok(meta) => Ok(
                                                    RecipeV {
                                                        img: base.img,
                                                        url: base.url,
                                                        cuisine: meta.cuisine,
                                                        category: meta.category,
                                                        method: meta.method,
                                                        total_time: nt.1,
                                                        prep_time: meta.prep,
                                                        cook_time: meta.cook,
                                                        name: nt.0,
                                                        description,
                                                        instructions,
                                                        ingredients,
                                                        video,
                                                        notes,
                                                        servings: base.servings,
                                                        equiptment: base.equiptment,
                                                        macros: None,
                                                    },
                                                ),
                                            }
                                        },
                                    }
                                },
                            }
                        },
                    },
                },
            },
        },
    }
}

/// The nutrition widget's document URL, when the assembled document carries
/// one: the data-source attribute of the iframe titled for nutrition,
/// absolutized.
pub open spec fn nutrition_source_of(doc: DomNode) -> Option<Seq<char>> {
    match jump_target_id(doc) {
        Ok(id) => match first_of(doc, PredV::AttrEq("id"@, id)) {
            Some(block) => match first_of(block, PredV::Class("tasty-recipes-entry-content"@)) {
                Some(body) => match first_of(
                    body,
                    PredV::TagAttrEq("iframe"@, "title"@, "nutritional information"@),
                ) {
                    Some(fr) => match attr_of(fr, "data-l-src"@) {
                        Some(u) => Some(absolutized(u)),
                        None => None,
                    },
                    None => None,
                },
                None => None,
            },
            None => None,
        },
        Err(_) => None,
    }
}

/// One listing figure's link: the target URL from its first anchor and the
/// image URL from its first image, both required.
pub open spec fn figure_link(fig: DomNode) -> Option<(Seq<char>, Seq<char>)> {
    match first_of(fig, PredV::Tag("a"@)) {
        Some(a) => match attr_of(a, "href"@) {
            Some(href) => match first_of(fig, PredV::Tag("img"@)) {
                Some(img) => match attr_of(img, "data-lazy-src"@) {
                    Some(srcv) => Some((href, srcv)),
                    None => None,
                },
                None => None,
            },
            None => None,
        },
        None => None,
    }
}

/// The complete links of a run of figures, in document order.
pub open spec fn figures_links(figs: Seq<DomNode>) -> Seq<(Seq<char>, Seq<char>)>
    decreases figs.len(),
{
    if figs.len() == 0 {
        Seq::empty()
    } else {
        figures_links(figs.drop_last()) + (match figure_link(figs.last()) {
            Some(p) => seq![p],
            None => Seq::empty(),
        })
    }
}

/// What a listing page yields: the (URL, image) pair of every figure under
/// the first entry-content container that carries both, in document order.
pub open spec fn links_of(doc: DomNode) -> Seq<(Seq<char>, Seq<char>)> {
    match first_of(doc, PredV::TagClass("div"@, "entry-content"@)) {
        Some(ec) => figures_links(descendant_matches(ec, PredV::Tag("figure"@))),
        None => Seq::empty(),
    }
}

/// Collects every recipe link of a listing page: the URL and image of each
/// figure entry that carries both, in document order. The caller fetches
/// each URL and assembles its recipe.
#[verifier::loop_isolation(false)]
pub fn collect_recipe_links(document: &DomNode) -> (r: Vec<(String, String)>)
    ensures
        r@.map_values(|p: (String, String)| (p.0@, p.1@)) == links_of(*document),
{
    let mut out: Vec<(String, String)> = Vec::new();
    let pec = Pred::TagClass("div".to_owned(), "entry-content".to_owned());
    let ec = match find_first(document, &pec) {
        Some(e) => e,
        None => {
            proof {
                assert(out@.map_values(|p: (String, String)| (p.0@, p.1@)) =~= links_of(
                    *document,
                ));
            }
            return out;
        },
    };
    let pfig = Pred::Tag("figure".to_owned());
    let figs = find_all(ec, &pfig);
    let ghost figs_v = descendant_matches(*ec, PredV::Tag("figure"@));
    let pa = Pred::Tag("a".to_owned());
    let pimg = Pred::Tag("img".to_owned());
    let n = figs.len();
    let mut i: usize = 0;
    proof {
        assert(figs_v.take(0int) =~= Seq::<DomNode>::empty());
        assert(out@.map_values(|p: (String, String)| (p.0@, p.1@)) =~= figures_links(
            figs_v.take(0int),
        ));
    }
    while i < n
        invariant
            n == figs@.len(),
            i <= n,
            crate::dom::views_of(figs@) == figs_v,
            out@.map_values(|p: (String, String)| (p.0@, p.1@)) == figures_links(
                figs_v.take(i as int),
            ),
        decreases n - i,
    {
        let fig = figs[i];
        proof {
            assert(crate::dom::views_of(figs@)[i as int] == *figs@[i as int]);
            assert(figs_v.take(i + 1).drop_last() =~= figs_v.take(i as int));
            assert(figs_v.take(i + 1).last() == figs_v[i as int]);
        }
        let href = match find_first(fig, &pa) {
            Some(a) => match get_attr(a, "href") {
                Some(h) => Some(h.clone()),
                None => None,
            },
            None => None,
        };
        let src = match find_first(fig, &pimg) {
            Some(im) => match get_attr(im, "data-lazy-src") {
                Some(s) => Some(s.clone()),
                None => None,
            },
            None => None,
        };
        match (href, src) {
            (Some(h), Some(s)) => {
                out.push((h, s));
                proof {
                    assert(out@.map_values(|p: (String, String)| (p.0@, p.1@)) =~= figures_links(
                        figs_v.take(i + 1),
                    ));
                }
            },
            _ => {
                proof {
                    assert(out@.map_values(|p: (String, String)| (p.0@, p.1@)) =~= figures_links(
                        figs_v.take(i + 1),
                    ));
                }
            },
        }
        i = i + 1;
    }
    proof {
        assert(figs_v.take(n as int) =~= figs_v);
    }
    out
}

fn absolutize(u: &str) -> (r: String)
    ensures
        r@ == absolutized(u@),
{
    let v = crate::text::chars_of(u);
    if v.len() >= 2 && v[0] == '/' && v[1] == '/' {
        let mut s = String::from_str("https:");
        s.append(u);
        s
    } else {
        u.to_owned()
    }
}

proof fn lemma_items_extend_err(lis: Seq<DomNode>, url: Seq<char>, k: int)
    requires
        0 <= k <= lis.len(),
        items_of(lis.take(k), url) is Err,
    ensures
        items_of(lis, url) == items_of(lis.take(k), url),
    decreases lis.len() - k,
{
    if k < lis.len() {
        assert(lis.take(k + 1).drop_last() =~= lis.take(k));
        lemma_items_extend_err(lis, url, k + 1);
    } else {
        assert(lis.take(k) =~= lis);
    }
}

impl Recipe {
    /// Reads the recipe name and total time from the header landmark; on
    /// failure the record is left unchanged.
    pub fn parse_header(&mut self, header: &DomNode) -> (r: Result<(), RecipeError>)
        ensures
            match header_fields(*header) {
                Ok(nt) => r is Ok && final(self)@ == (RecipeV {
                    name: nt.0,
                    total_time: nt.1,
                    ..old(self)@
                }),
                Err(e) => (match r {
                    Err(a) => a@ == e,
                    Ok(_) => false,
                }) && *final(self) == *old(self),
            },
    {
        let ph2 = Pred::Tag("h2".to_owned());
        let h2 = match find_first(header, &ph2) {
            Some(h) => h,
            None => {
                return Err(RecipeError::LandmarkNotFound("h2".to_owned()));
            },
        };
        let pt = Pred::Class("tasty-recipes-total-time".to_owned());
        let te = match find_first(header, &pt) {
            Some(t) => t,
            None => {
                return Err(
                    RecipeError::LandmarkNotFound("tasty-recipes-total-time".to_owned()),
                );
            },
        };
        let time_str = node_text(te);
        let t = match u32::from_time_str(time_str.as_str()) {
            Ok(t) => t,
            Err(_) => {
                return Err(RecipeError::FieldDecodeError(time_str));
            },
        };
        self.name = node_text(h2);
        self.total_time = t;
        Ok(())
    }

    /// Reads the step groups from the instructions landmark; on failure the
    /// record is left unchanged.
    pub fn parse_instructions(&mut self, list: &DomNode) -> (r: Result<(), RecipeError>)
        ensures
            match instructions_of(*list) {
                Ok(ins) => r is Ok && final(self)@ == (RecipeV {
                    instructions: ins,
                    ..old(self)@
                }),
                Err(e) => (match r {
                    Err(a) => a@ == e,
                    Ok(_) => false,
                }) && *final(self) == *old(self),
            },
    {
        let ph4 = Pred::Tag("h4".to_owned());
        let h4s = find_all(list, &ph4);
        let divs = elem_children_named(list, "div");
        if divs.len() < 2 {
            return Err(RecipeError::LandmarkNotFound("div".to_owned()));
        }
        let div1 = divs[1];
        proof {
            assert(crate::dom::views_of(divs@)[1] == *divs@[1]);
        }
        let ols = elem_children_named(div1, "ol");
        let ghost ols_v = children_named(*div1, "ol"@);
        let mut groups: Vec<Instruction> = Vec::new();
        if ols.len() == 1 {
            let ol = ols[0];
            proof {
                assert(crate::dom::views_of(ols@)[0] == *ols@[0]);
            }
            let steps = collect_steps(ol);
            groups.push(Instruction { section: None, steps });
            self.instructions = groups;
            proof {
                let spec_ins = instructions_of(*list)->Ok_0;
                assert(self@.instructions =~= spec_ins);
            }
            Ok(())
        } else {
            let k = if h4s.len() <= ols.len() {
                h4s.len()
            } else {
                ols.len()
            };
            let ghost h4s_v = descendant_matches(*list, PredV::Tag("h4"@));
            let mut i: usize = 0;
            while i < k
                invariant
                    i <= k,
                    crate::dom::views_of(h4s@) == h4s_v,
                    crate::dom::views_of(ols@) == ols_v,
                    k == if h4s@.len() <= ols@.len() {
                        h4s@.len()
                    } else {
                        ols@.len()
                    },
                    groups@.len() == i,
                    forall|t: int|
                        0 <= t < i ==> (#[trigger] groups@[t])@ == (InstructionV {
                            section: Some(strip_trailing(text_of(h4s_v[t]), ':')),
                            steps: steps_of(ols_v[t]),
                        }),
                decreases k - i,
            {
                let h4 = h4s[i];
                let ol = ols[i];
                proof {
                    assert(crate::dom::views_of(h4s@)[i as int] == *h4s@[i as int]);
                    assert(crate::dom::views_of(ols@)[i as int] == *ols@[i as int]);
                }
                let raw = node_text(h4);
                let section = strip_trailing_char(raw.as_str(), ':');
                let steps = collect_steps(ol);
                groups.push(Instruction { section: Some(section), steps });
                i = i + 1;
            }
            self.instructions = groups;
            proof {
                let spec_ins = instructions_of(*list)->Ok_0;
                assert(spec_ins.len() == k);
                assert forall|t: int|
                    0 <= t < k implies groups@.map_values(|g: Instruction| g@)[t] == spec_ins[t] by {
                    assert(groups@.map_values(|g: Instruction| g@)[t] == groups@[t]@);
                }
                assert(self@.instructions =~= spec_ins);
            }
            Ok(())
        }
    }

    /// Reads one ingredient-list landmark and merges its entries into the
    /// record's collection; on failure the record is left unchanged.
    #[verifier::loop_isolation(false)]
    pub fn parse_ingredients(&mut self, list: &DomNode) -> (r: Result<(), RecipeError>)
        ensures
            match ul_ingredients(*list, old(self)@.url) {
                Ok(items) => r is Ok && final(self)@ == (RecipeV {
                    ingredients: merge_all(old(self)@.ingredients, items),
                    ..old(self)@
                }),
                Err(e) => (match r {
                    Err(a) => a@ == e,
                    Ok(_) => false,
                }) && *final(self) == *old(self),
            },
    {
        let pli = Pred::Tag("li".to_owned());
        let lis = find_all(list, &pli);
        let ghost lis_v = descendant_matches(*list, PredV::Tag("li"@));
        let mut items: Vec<Ingredient> = Vec::new();
        let n = lis.len();
        let mut i: usize = 0;
        proof {
            assert(items@.map_values(|x: Ingredient| x@) =~= Seq::<IngredientV>::empty());
            assert(lis_v.take(0int) =~= Seq::<DomNode>::empty());
        }
        while i < n
            invariant
                n == lis@.len(),
                i <= n,
                crate::dom::views_of(lis@) == lis_v,
                *self == *old(self),
                items_of(lis_v.take(i as int), old(self)@.url) == Ok::<_, RecipeErrV>(
                    items@.map_values(|x: Ingredient| x@),
                ),
            decreases n - i,
        {
            let li = lis[i];
            proof {
                assert(crate::dom::views_of(lis@)[i as int] == *lis@[i as int]);
                assert(lis_v.take(i + 1).drop_last() =~= lis_v.take(i as int));
                assert(lis_v.take(i + 1).last() == lis_v[i as int]);
            }
            match parse_ingredient_item(li, self.url.as_str()) {
                Ok(x) => {
                    items.push(x);
                },
                Err(e) => {
                    proof {
                        assert(item_ingredient(lis_v[i as int], old(self)@.url) matches Err(x)
                            && e@ == x);
                        assert(items_of(lis_v.take(i + 1), old(self)@.url) matches Err(x) && e@
                            == x);
                        lemma_items_extend_err(lis_v, old(self)@.url, i + 1);
                        assert(items_of(lis_v, old(self)@.url) == items_of(
                            lis_v.take(i + 1),
                            old(self)@.url,
                        ));
                        assert(ul_ingredients(*list, old(self)@.url) == items_of(
                            lis_v,
                            old(self)@.url,
                        ));
                    }
                    return Err(e);
                },
            }
            i = i + 1;
            proof {
                assert(items@.map_values(|x: Ingredient| x@) =~= items_of(
                    lis_v.take(i as int),
                    old(self)@.url,
                )->Ok_0);
            }
        }
        proof {
            assert(lis_v.take(n as int) =~= lis_v);
        }
        self.add_ingredients(items);
        Ok(())
    }

    /// Assembles the whole record from a fetched document: locates the
    /// recipe block through the jump link, reads the header, the optional
    /// description, ingredient lists, instructions, video, notes and
    /// metadata, and reports the nutrition widget's URL, if any, for the
    /// caller to fetch. On failure the partially written record is to be
    /// discarded.
    #[verifier::loop_isolation(false)]
    pub fn parse_recipe(&mut self, document: &DomNode) -> (r: Result<Option<String>, RecipeError>)
        ensures
            match assembled_recipe(*document, old(self)@) {
                Ok(rv) => (match r {
                    Ok(nsrc) => opt_view(nsrc) == nutrition_source_of(*document) && final(self)@
                        == rv,
                    Err(_) => false,
                }),
                Err(e) => (match r {
                    Err(a) => a@ == e,
                    Ok(_) => false,
                }),
            },
    {
        let pjump = Pred::Class("tasty-recipes-jump-link".to_owned());
        let jump = match find_first(document, &pjump) {
            Some(j) => j,
            None => {
                return Err(RecipeError::LandmarkNotFound("tasty-recipes-jump-link".to_owned()));
            },
        };
        let href = match get_attr(jump, "href") {
            Some(h) => h,
            None => {
                return Err(RecipeError::LandmarkNotFound("tasty-recipes-jump-link".to_owned()));
            },
        };
        let no_hash = crate::text::strip_leading_char(href.as_str(), '#');
        let id_s = crate::text::strip_suffix_repeat(no_hash.as_str(), "-jump-target");
        let pid = Pred::AttrEq("id".to_owned(), id_s.clone());
        let block = match find_first(document, &pid) {
            Some(b) => b,
            None => {
                return Err(RecipeError::LandmarkNotFound(id_s));
            },
        };
        let pheader = Pred::Tag("header".to_owned());
        let header = match find_first(block, &pheader) {
            Some(h) => h,
            None => {
                return Err(RecipeError::LandmarkNotFound("header".to_owned()));
            },
        };
        match self.parse_header(header) {
            Ok(_) => {},
            Err(e) => {
                return Err(e);
            },
        }
        let pbody = Pred::Class("tasty-recipes-entry-content".to_owned());
        let body = match find_first(block, &pbody) {
            Some(b) => b,
            None => {
                return Err(
                    RecipeError::LandmarkNotFound("tasty-recipes-entry-content".to_owned()),
                );
            },
        };
        let pdesc = Pred::Class("tasty-recipes-description-body".to_owned());
        match find_first(body, &pdesc) {
            Some(d) => {
                let t = node_text(d);
                self.description = Some(trim_text(t.as_str()));
            },
            None => {
                self.description = None;
            },
        }
        let ghost s_desc = self@;
        let ping = Pred::Class("tasty-recipes-ingredients".to_owned());
        match find_first(body, &ping) {
            Some(cont) => {
                let pul = Pred::Tag("ul".to_owned());
                let uls = find_all(cont, &pul);
                let ghost uls_v = descendant_matches(*cont, PredV::Tag("ul"@));
                let n = uls.len();
                let mut i: usize = 0;
                proof {
                    assert(uls_v.skip(0) =~= uls_v);
                }
                while i < n
                    invariant
                        n == uls@.len(),
                        i <= n,
                        crate::dom::views_of(uls@) == uls_v,
                        self@ == (RecipeV { ingredients: self@.ingredients, ..s_desc }),
                        uls_ingredients(uls_v.skip(i as int), s_desc.url, self@.ingredients)
                            == uls_ingredients(uls_v, s_desc.url, s_desc.ingredients),
                    decreases n - i,
                {
                    let ul = uls[i];
                    proof {
                        assert(crate::dom::views_of(uls@)[i as int] == *uls@[i as int]);
                        assert(uls_v.skip(i as int)[0] == uls_v[i as int]);
                        assert(uls_v.skip(i as int).drop_first() =~= uls_v.skip(i + 1));
                    }
                    match self.parse_ingredients(ul) {
                        Ok(_) => {},
                        Err(e) => {
                            proof {
                                assert(uls_ingredients(
                                    uls_v.skip(i as int),
                                    s_desc.url,
                                    self@.ingredients,
                                ) matches Err(x) && e@ == x);
                                assert(uls_ingredients(uls_v, s_desc.url, s_desc.ingredients)
                                    == uls_ingredients(
                                    uls_v.skip(i as int),
                                    s_desc.url,
                                    self@.ingredients,
                                ));
                                assert(assembled_recipe(*document, old(self)@) matches Err(x)
                                    && e@ == x);
                            }
                            return Err(e);
                        },
                    }
                    i = i + 1;
                }
                proof {
                    assert(uls_v.skip(n as int).len() == 0);
                }
            },
            None => {},
        }
        let ghost s_ing = self@;
        let pins = Pred::Class("tasty-recipes-instructions".to_owned());
        match find_first(body, &pins) {
            Some(ib) => {
                match self.parse_instructions(ib) {
                    Ok(_) => {},
                    Err(e) => {
                        return Err(e);
                    },
                }
            },
            None => {},
        }
        let pifr = Pred::Tag("iframe".to_owned());
        match find_first(body, &pifr) {
            Some(fr) => {
                match get_attr(fr, "src") {
                    Some(u) => {
                        self.video = Some(u.clone());
                    },
                    None => {},
                }
            },
            None => {},
        }
        let pnotes = Pred::Class("tasty-recipes-notes".to_owned());
        match find_first(body, &pnotes) {
            Some(nd) => {
                let t = node_text(nd);
                let tr = trim_text(t.as_str());
                self.notes = Some(Recipe::clean_notes(tr.as_str()));
            },
            None => {
                self.notes = None;
            },
        }
        let ghost s_notes = self@;
        let mut prep: u32 = self.prep_time;
        let mut cook: u32 = self.cook_time;
        let mut cuisine: String = self.cuisine.clone();
        let mut category: String = self.category.clone();
        let mut method: String = self.method.clone();
        let ghost m0 = MetaV {
            prep: s_notes.prep_time,
            cook: s_notes.cook_time,
            cuisine: s_notes.cuisine,
            category: s_notes.category,
            method: s_notes.method,
        };
        let pdet = Pred::Class("tasty-recipes-other-details".to_owned());
        let pul = Pred::Tag("ul".to_owned());
        let pli = Pred::Tag("li".to_owned());
        match find_first(body, &pdet) {
            Some(det) => {
                match find_first(det, &pul) {
                    Some(ul) => {
                        let lis = find_all(ul, &pli);
                        let ghost lis_v = descendant_matches(*ul, PredV::Tag("li"@));
                        let n = lis.len();
                        let mut i: usize = 0;
                        proof {
                            assert(lis_v.skip(0) =~= lis_v);
                        }
                        while i < n
                            invariant
                                n == lis@.len(),
                                i <= n,
                                crate::dom::views_of(lis@) == lis_v,
                                self@ == s_notes,
                                meta_fold(
                                    lis_v.skip(i as int),
                                    MetaV {
                                        prep: prep,
                                        cook: cook,
                                        cuisine: cuisine@,
                                        category: category@,
                                        method: method@,
                                    },
                                ) == meta_fold(lis_v, m0),
                            decreases n - i,
                        {
                            let li = lis[i];
                            proof {
                                assert(crate::dom::views_of(lis@)[i as int] == *lis@[i as int]);
                                assert(lis_v.skip(i as int)[0] == lis_v[i as int]);
                                assert(lis_v.skip(i as int).drop_first() =~= lis_v.skip(i + 1));
                            }
                            match get_attr(li, "class") {
                                Some(cl) => {
                                    if str_eq(cl.as_str(), "prep-time") {
                                        let pp = Pred::Class("tasty-recipes-prep-time".to_owned());
                                        match find_first(li, &pp) {
                                            Some(el) => {
                                                let t = node_text(el);
                                                match u32::from_time_str(t.as_str()) {
                                                    Ok(x) => {
                                                        prep = x;
                                                    },
                                                    Err(_) => {
                                                        return Err(
                                                            RecipeError::FieldDecodeError(t),
                                                        );
                                                    },
                                                }
                                            },
                                            None => {},
                                        }
                                    } else if str_eq(cl.as_str(), "cook-time") {
                                        let pp = Pred::Class("tasty-recipes-cook-time".to_owned());
                                        match find_first(li, &pp) {
                                            Some(el) => {
                                                let t = node_text(el);
                                                match u32::from_time_str(t.as_str()) {
                                                    Ok(x) => {
                                                        cook = x;
                                                    },
                                                    Err(_) => {
                                                        return Err(
                                                            RecipeError::FieldDecodeError(t),
                                                        );
                                                    },
                                                }
                                            },
                                            None => {},
                                        }
                                    } else if str_eq(cl.as_str(), "cuisine") {
                                        let pp = Pred::Class("tasty-recipes-cuisine".to_owned());
                                        match find_first(li, &pp) {
                                            Some(el) => {
                                                cuisine = node_text(el);
                                            },
                                            None => {},
                                        }
                                    } else if str_eq(cl.as_str(), "category") {
                                        let pp = Pred::Class("tasty-recipes-category".to_owned());
                                        match find_first(li, &pp) {
                                            Some(el) => {
                                                category = node_text(el);
                                            },
                                            None => {},
                                        }
                                    } else if str_eq(cl.as_str(), "method") {
                                        let pp = Pred::Class("tasty-recipes-method".to_owned());
                                        match find_first(li, &pp) {
                                            Some(el) => {
                                                method = node_text(el);
                                            },
                                            None => {},
                                        }
                                    }
                                },
                                None => {},
                            }
                            i = i + 1;
                        }
                        proof {
                            assert(lis_v.skip(n as int).len() == 0);
                        }
                    },
                    None => {},
                }
            },
            None => {},
        }
        self.prep_time = prep;
        self.cook_time = cook;
        self.cuisine = cuisine;
        self.category = category;
        self.method = method;
        self.macros = None;
        let pnut = Pred::TagAttrEq(
            "iframe".to_owned(),
            "title".to_owned(),
            "nutritional information".to_owned(),
        );
        let nsrc = match find_first(body, &pnut) {
            Some(fr) => match get_attr(fr, "data-l-src") {
                Some(u) => Some(absolutize(u.as_str())),
                None => None,
            },
            None => None,
        };
        Ok(nsrc)
    }

    /// A fresh record for the given image and recipe URLs, assembled from
    /// the already-fetched document; alongside it, the nutrition widget's
    /// URL when the document names one, for the caller to fetch and hand to
    /// the nutrition extractor.
    pub fn new(img: &str, url: &str, document: &DomNode) -> (r: Result<
        (Recipe, Option<String>),
        RecipeError,
    >)
        ensures
            ({
                let base = RecipeV { img: img@, url: url@, ..default_recipe() };
                match assembled_recipe(*document, base) {
                    Ok(rv) => (match r {
                        Ok(p) => p.0@ == rv && opt_view(p.1) == nutrition_source_of(*document),
                        Err(_) => false,
                    }),
                    Err(e) => (match r {
                        Err(a) => a@ == e,
                        Ok(_) => false,
                    }),
                }
            }),
    {
        let mut rec = Recipe::default();
        rec.img = img.to_owned();
        rec.url = url.to_owned();
        match rec.parse_recipe(document) {
            Ok(nsrc) => Ok((rec, nsrc)),
            Err(e) => Err(e),
        }
    }

    /// Locates the first script element of a nutrition-widget document and
    /// isolates the embedded payload text from it.
    pub fn extract_nutrition_capture(document: &DomNode) -> (r: Result<String, RecipeError>)
        ensures
            match first_of(*document, PredV::Tag("script"@)) {
                None => (match r {
                    Err(a) => a@ == RecipeErrV::ScriptNotFound,
                    Ok(_) => false,
                }),
                Some(script) => match crate::nutrition::capture_of(text_of(script)) {
                    Some(c) => (match r {
                        Ok(s) => s@ == c,
                        Err(_) => false,
                    }),
                    None => (match r {
                        Err(a) => a@ == RecipeErrV::PatternMismatch(text_of(script)),
                        Ok(_) => false,
                    }),
                },
            },
    {
        let pscript = Pred::Tag("script".to_owned());
        let script = match find_first(document, &pscript) {
            Some(s) => s,
            None => {
                return Err(RecipeError::ScriptNotFound);
            },
        };
        let text = node_text(script);
        match crate::nutrition::find_capture(text.as_str()) {
            Some(c) => Ok(c),
            None => Err(RecipeError::PatternMismatch(text)),
        }
    }

    /// Installs a decoded nutrition payload: one raw slot per code of the
    /// fixed vocabulary, normalized by the serving count. A serving count of
    /// zero cannot normalize and is a decode failure.
    pub fn apply_nutrition_payload(&mut self, servings: u64, raws: Vec<RawSlot>) -> (r: Result<
        (),
        RecipeError,
    >)
        requires
            raws@.len() == crate::nutrition::nutrient_codes().len(),
        ensures
            servings == 0 ==> (match r {
                Err(a) => a@ == RecipeErrV::FieldDecodeError("servings"@),
                Ok(_) => false,
            }) && *final(self) == *old(self),
            servings >= 1 ==> r is Ok && final(self)@ == (RecipeV {
                servings: servings,
                macros: Some(
                    crate::nutrition::normalized(
                        MacrosV {
                            slots: Seq::new(
                                raws@.len(),
                                |i: int|
                                    crate::nutrition::slot_nutrient(
                                        crate::nutrition::nutrient_codes()[i],
                                        raws@[i]@,
                                    ),
                            ),
                        },
                        servings,
                    ),
                ),
                ..old(self)@
            }),
    {
        if servings == 0 {
            return Err(RecipeError::FieldDecodeError("servings".to_owned()));
        }
        let codes = crate::nutrition::nutrient_codes_vec();
        let ghost codes_v = codes@;
        let mut m = crate::nutrition::build_macros(codes, raws);
        proof {
            assert forall|i: int| 0 <= i < raws@.len() implies m@.slots[i]
                == crate::nutrition::slot_nutrient(
                crate::nutrition::nutrient_codes()[i],
                raws@[i]@,
            ) by {
                assert(codes_v.map_values(|s: String| s@)[i] == codes_v[i]@);
            }
            assert(m@.slots =~= Seq::new(
                raws@.len(),
                |i: int|
                    crate::nutrition::slot_nutrient(
                        crate::nutrition::nutrient_codes()[i],
                        raws@[i]@,
                    ),
            ));
        }
        m.normalize_by_servings(servings);
        self.servings = servings;
        self.macros = Some(m);
        Ok(())
    }

    /// A placeholder record standing for one loaded from storage.
    pub fn from_id(id: u64) -> (r: Recipe)
        ensures
            r@ == (RecipeV { url: "someurl"@, ..default_recipe() }),
    {
        let _ = id;
        let mut r = Recipe::default();
        r.url = "someurl".to_owned();
        r
    }
}

} // verus!
