//! The embedded nutrition payload, decoded through serde_json.
//!
//! The captured script text is JSON, and every reading the extractor needs
//! is a function of that text alone: whether it parses, whether the two
//! top-level fields are present, the serving count, and the four raw
//! readings of each nutrient slot. Each reading gets an uninterpreted name
//! over the capture's characters and one trusted reader that computes it
//! through serde_json, so the extractor's own contract can say exactly which
//! outcome each capture produces.

use vstd::prelude::*;

use crate::dom::DomNode;
use crate::errors::RecipeErrV;
use crate::errors::RecipeError;
use crate::nutrition::MacrosV;
use crate::nutrition::RawSlot;
use crate::nutrition::RawSlotV;
use crate::nutrition::nutrient_codes;
use crate::nutrition::slot_nutrient;
use crate::recipes::Recipe;
use crate::recipes::RecipeV;

verus! {

/// Whether the capture text is well-formed JSON.
pub uninterp spec fn payload_parses(c: Seq<char>) -> bool;

/// Whether the parsed capture is an object carrying the key.
pub uninterp spec fn payload_has_field(c: Seq<char>, key: Seq<char>) -> bool;

/// The capture's serving count: present exactly where the capture parses,
/// carries a servings field, and that field is a JSON number representable
/// as an unsigned integer.
pub uninterp spec fn payload_servings(c: Seq<char>) -> Option<u64>;

/// A text reading of one nutrient slot of the capture: the named field of
/// the slot, when the capture parses down to it and the field is a JSON
/// string.
pub uninterp spec fn payload_text(c: Seq<char>, code: Seq<char>, key: Seq<char>) -> Option<
    Seq<char>,
>;

/// A numeric reading of one nutrient slot of the capture: the named
/// field's own JSON number text, when the capture parses down to it and the
/// field is a JSON number.
pub uninterp spec fn payload_number(c: Seq<char>, code: Seq<char>, key: Seq<char>) -> Option<
    Seq<char>,
>;

/// The four raw readings of one nutrient slot of the capture; each is
/// absent where the capture, the nutrients object, the slot or the reading
/// itself is.
pub open spec fn payload_slot(c: Seq<char>, code: Seq<char>) -> RawSlotV {
    RawSlotV {
        unit: payload_text(c, code, "unit"@),
        label: payload_text(c, code, "label"@),
        quantity_text: payload_number(c, code, "quantity"@),
        daily_text: payload_number(c, code, "daily"@),
    }
}

/// Relies on `serde_json::from_str`: whether the capture parses as JSON.
#[verifier::external_body]
fn payload_parse_ok(c: &str) -> (r: bool)
    ensures
        r == payload_parses(c@),
{
    serde_json::from_str::<serde_json::Value>(c).is_ok()
}

/// Relies on `serde_json::from_str` and `Value::get`: whether the parsed
/// capture is an object carrying the key; false where it does not parse.
#[verifier::external_body]
fn payload_field_present(c: &str, key: &str) -> (r: bool)
    ensures
        r == payload_has_field(c@, key@),
{
    match serde_json::from_str::<serde_json::Value>(c) {
        Ok(v) => v.get(key).is_some(),
        Err(_) => false,
    }
}

/// Relies on `serde_json::from_str`, `Value::get` and `Value::as_u64`: the
/// capture's servings field as an unsigned integer, when it has one.
#[verifier::external_body]
fn payload_servings_value(c: &str) -> (r: Option<u64>)
    ensures
        r == payload_servings(c@),
{
    match serde_json::from_str::<serde_json::Value>(c) {
        Ok(v) => v.get("servings").and_then(|s| s.as_u64()),
        Err(_) => None,
    }
}

/// Relies on `serde_json::from_str`, `Value::get` and `Value::as_str`: one
/// string field of one nutrient slot of the capture's nutrients object.
#[verifier::external_body]
fn payload_slot_text(c: &str, code: &str, key: &str) -> (r: Option<String>)
    ensures
        match r {
            Some(s) => payload_text(c@, code@, key@) == Some(s@),
            None => payload_text(c@, code@, key@) is None,
        },
{
    match serde_json::from_str::<serde_json::Value>(c) {
        Ok(v) => v.get("nutrients").and_then(|n| n.get(code)).and_then(|s| s.get(key)).and_then(
            |x| x.as_str(),
        ).map(str::to_owned),
        Err(_) => None,
    }
}

/// Relies on `serde_json::from_str`, `Value::get` and the `Display`
/// rendering of `serde_json::Number` (the number's own JSON text): one
/// numeric field of one nutrient slot of the capture's nutrients object.
#[verifier::external_body]
fn payload_slot_number(c: &str, code: &str, key: &str) -> (r: Option<String>)
    ensures
        match r {
            Some(s) => payload_number(c@, code@, key@) == Some(s@),
            None => payload_number(c@, code@, key@) is None,
        },
{
    match serde_json::from_str::<serde_json::Value>(c) {
        Ok(v) => match v.get("nutrients").and_then(|n| n.get(code)).and_then(|s| s.get(key)) {
            Some(serde_json::Value::Number(n)) => Some(n.to_string()),
            _ => None,
        },
        Err(_) => None,
    }
}

/// One nutrient slot's raw readings, assembled from the four field readers.
fn payload_slot_of(c: &str, code: &str) -> (r: RawSlot)
    ensures
        r@ == payload_slot(c@, code@),
{
    RawSlot {
        unit: payload_slot_text(c, code, "unit"),
        label: payload_slot_text(c, code, "label"),
        quantity_text: payload_slot_number(c, code, "quantity"),
        daily_text: payload_slot_number(c, code, "daily"),
    }
}

/// The record a capture's slots decode to: one slot per code of the fixed
/// vocabulary, in order, read from the payload.
pub open spec fn payload_macros(c: Seq<char>) -> MacrosV {
    MacrosV {
        slots: Seq::new(
            nutrient_codes().len(),
            |i: int| slot_nutrient(nutrient_codes()[i], payload_slot(c, nutrient_codes()[i])),
        ),
    }
}

/// What one capture makes of a base record: an unparseable capture is a
/// decode failure; a parsed payload without both a nutrients and a servings
/// field leaves the nutrition unset; a servings field that is no unsigned
/// integer, or is zero, cannot normalize and is a field failure; otherwise
/// the record carries the payload's serving count and its slots, decoded
/// and normalized by that count.
pub open spec fn nutrition_outcome(c: Seq<char>, base: RecipeV) -> Result<RecipeV, RecipeErrV> {
    if !payload_parses(c) {
        Err(RecipeErrV::JsonDecodeError)
    } else if !(payload_has_field(c, "nutrients"@) && payload_has_field(c, "servings"@)) {
        Ok(RecipeV { macros: None, ..base })
    } else {
        match payload_servings(c) {
            None => Err(RecipeErrV::FieldDecodeError("servings"@)),
            Some(servings) => {
                if servings == 0 {
                    Err(RecipeErrV::FieldDecodeError("servings"@))
                } else {
                    Ok(
                        RecipeV {
                            servings: servings,
                            macros: Some(
                                crate::nutrition::normalized(payload_macros(c), servings),
                            ),
                            ..base
                        },
                    )
                }
            },
        }
    }
}

/// One raw slot per code of the fixed vocabulary, in slot order, read from
/// the capture.
fn collect_raw_slots(c: &str) -> (r: Vec<RawSlot>)
    ensures
        r@.len() == nutrient_codes().len(),
        forall|i: int|
            0 <= i < r@.len() ==> (#[trigger] r@[i])@ == payload_slot(c@, nutrient_codes()[i]),
{
    let codes = crate::nutrition::nutrient_codes_vec();
    let n = codes.len();
    let mut out: Vec<RawSlot> = Vec::new();
    let mut i: usize = 0;
    while i < n
        invariant
            n == codes@.len(),
            i <= n,
            out@.len() == i,
            codes@.map_values(|s: String| s@) == nutrient_codes(),
            forall|j: int|
                0 <= j < i ==> (#[trigger] out@[j])@ == payload_slot(c@, nutrient_codes()[j]),
        decreases n - i,
    {
        proof {
            assert(codes@.map_values(|s: String| s@)[i as int] == codes@[i as int]@);
        }
        out.push(payload_slot_of(c, codes[i].as_str()));
        i = i + 1;
    }
    out
}

impl Recipe {
    /// Reads a fetched nutrition-widget document: isolates the embedded
    /// payload from the first script element, decodes it as JSON, and
    /// installs the record normalized by the payload's serving count,
    /// exactly as `nutrition_outcome` says. A payload without both a
    /// nutrients and a servings field leaves the nutrition unset, which is
    /// not a failure.
    pub fn get_macros(&mut self, document: &DomNode) -> (r: Result<(), RecipeError>)
        ensures
            match crate::dom::first_of(*document, crate::dom::PredV::Tag("script"@)) {
                None => (match r {
                    Err(a) => a@ == RecipeErrV::ScriptNotFound,
                    Ok(_) => false,
                }) && *final(self) == *old(self),
                Some(script) => match crate::nutrition::capture_of(crate::dom::text_of(script)) {
                    None => (match r {
                        Err(a) => a@ == RecipeErrV::PatternMismatch(crate::dom::text_of(script)),
                        Ok(_) => false,
                    }) && *final(self) == *old(self),
                    Some(c) => match nutrition_outcome(c, old(self)@) {
                        Ok(rv) => r is Ok && final(self)@ == rv,
                        Err(e) => (match r {
                            Err(a) => a@ == e,
                            Ok(_) => false,
                        }) && *final(self) == *old(self),
                    },
                },
            },
    {
        let capture = match Recipe::extract_nutrition_capture(document) {
            Ok(c) => c,
            Err(e) => {
                return Err(e);
            },
        };
        if !payload_parse_ok(capture.as_str()) {
            return Err(RecipeError::JsonDecodeError);
        }
        let has_nutrients = payload_field_present(capture.as_str(), "nutrients");
        let has_servings = payload_field_present(capture.as_str(), "servings");
        if !(has_nutrients && has_servings) {
            self.macros = None;
            return Ok(());
        }
        let servings = match payload_servings_value(capture.as_str()) {
            Some(s) => s,
            None => {
                return Err(RecipeError::FieldDecodeError("servings".to_owned()));
            },
        };
        let raws = collect_raw_slots(capture.as_str());
        let ghost raws_v = raws@;
        let result = self.apply_nutrition_payload(servings, raws);
        proof {
            if servings >= 1 {
                assert(Seq::new(
                    raws_v.len(),
                    |i: int|
                        slot_nutrient(nutrient_codes()[i], raws_v[i]@),
                ) =~= payload_macros(capture@).slots);
            }
        }
        result
    }
}

} // verus!
