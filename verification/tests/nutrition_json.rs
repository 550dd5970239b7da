use data_collection::DomNode;
use data_collection::Recipe;
use data_collection::RecipeError;

fn elem(name: &str, attrs: &[(&str, &str)], children: Vec<DomNode>) -> DomNode {
    DomNode::Element {
        name: name.to_string(),
        attrs: attrs.iter().map(|(k, v)| (k.to_string(), v.to_string())).collect(),
        children,
    }
}

fn text(s: &str) -> DomNode {
    DomNode::Text(s.to_string())
}

fn widget_document(script_body: &str) -> DomNode {
    elem(
        "html",
        &[],
        vec![elem("body", &[], vec![elem("script", &[], vec![text(script_body)])])],
    )
}

#[test]
fn nutrition_document_populates_normalized_macros() {
    let script = "var preloaded = {'recipe': {\"nutrients\": {\"PROCNT\": {\"unit\": \"g\", \"label\": \"Protein\", \"quantity\": 80, \"daily\": 40}, \"FAT\": {\"unit\": \"g\", \"label\": \"Fat\", \"quantity\": 10.5, \"daily\": 2}}, \"servings\": 4}}";
    let doc = widget_document(script);
    let mut r = Recipe::default();
    r.get_macros(&doc).unwrap();
    assert_eq!(r.servings, 4);
    let m = r.macros.as_ref().unwrap();
    assert_eq!(m.slots.len(), 29);
    assert_eq!(m.slots[0].code, "PROCNT");
    assert_eq!(m.slots[0].unit, "g");
    assert_eq!(m.slots[0].quantity_milli, 20_000);
    assert_eq!(m.slots[0].daily_milli, 10_000);
    assert_eq!(m.slots[1].code, "FAT");
    assert_eq!(m.slots[1].quantity_milli, 2_625);
    assert_eq!(m.slots[2].quantity_milli, 0);
}

#[test]
fn nutrition_without_fields_leaves_macros_unset() {
    let doc = widget_document("var preloaded = {'recipe': {\"title\": \"x\"}}");
    let mut r = Recipe::default();
    r.get_macros(&doc).unwrap();
    assert!(r.macros.is_none());
}

#[test]
fn missing_script_is_an_error() {
    let doc = elem("html", &[], vec![]);
    let mut r = Recipe::default();
    assert!(matches!(r.get_macros(&doc), Err(RecipeError::ScriptNotFound)));
}

#[test]
fn pattern_mismatch_carries_the_script_text() {
    let doc = widget_document("window.other = 1;");
    let mut r = Recipe::default();
    match r.get_macros(&doc) {
        Err(RecipeError::PatternMismatch(t)) => assert_eq!(t, "window.other = 1;"),
        other => panic!("unexpected: {:?}", other),
    }
}

#[test]
fn malformed_payload_is_a_decode_error() {
    let doc = widget_document("var preloaded = {'recipe': {\"nutrients\": }}");
    let mut r = Recipe::default();
    assert!(matches!(r.get_macros(&doc), Err(RecipeError::JsonDecodeError)));
}
