use data_collection::Example;
use data_collection::RecipeError;
use data_collection::U32Ext;
use data_collection::Unit;
use data_collection::clean_text;

#[test]
fn duration_hours_and_minutes() {
    assert_eq!(u32::from_time_str("1 hour 30 minutes").unwrap(), 90);
}

#[test]
fn duration_minutes_only() {
    assert_eq!(u32::from_time_str("45 minutes").unwrap(), 45);
}

#[test]
fn duration_abbreviated_hours() {
    assert_eq!(u32::from_time_str("2 hrs").unwrap(), 120);
}

#[test]
fn duration_empty_is_zero() {
    assert_eq!(u32::from_time_str("").unwrap(), 0);
    assert_eq!(u32::from_time_str("   ").unwrap(), 0);
}

#[test]
fn duration_rejects_non_duration_text() {
    let r = u32::from_time_str("a pinch of patience");
    assert!(matches!(r, Err(RecipeError::FieldDecodeError(_))));
}

#[test]
fn duration_more_forms() {
    assert_eq!(u32::from_time_str("1 hr 5 mins").unwrap(), 65);
    assert_eq!(u32::from_time_str(" 3 hours ").unwrap(), 180);
    assert_eq!(u32::from_time_str("1 minute").unwrap(), 1);
}

#[test]
fn normalizer_collapses_and_trims() {
    let raw = "  one\u{a0}two\n\n\tthree  ";
    let cleaned = clean_text(raw);
    assert_eq!(cleaned, "one two three");
    assert!(!cleaned.contains('\n'));
    assert!(!cleaned.contains('\t'));
    assert!(!cleaned.contains('\u{a0}'));
}

#[test]
fn normalizer_is_idempotent() {
    let raw = "\u{a0}mix\n\twell\n";
    let once = clean_text(raw);
    let twice = clean_text(&once);
    assert_eq!(once, twice);
}

#[test]
fn unit_classifier_accepts_the_vocabulary() {
    assert_eq!(Unit::from("tablespoon").unwrap(), Unit::TABLESPOON);
    assert_eq!(Unit::from("tablespoons").unwrap(), Unit::TABLESPOON);
    assert_eq!(Unit::from("Teaspoons").unwrap(), Unit::TEASPOON);
    assert_eq!(Unit::from("CUP").unwrap(), Unit::CUP);
    assert_eq!(Unit::from("lbs").unwrap(), Unit::LB);
    assert_eq!(Unit::from("pound").unwrap(), Unit::LB);
    assert_eq!(Unit::from("container").unwrap(), Unit::CONTAINER);
}

#[test]
fn unit_classifier_rejects_words_outside_the_vocabulary() {
    assert!(Unit::from("Tbsp").is_err());
    assert!(Unit::from("tbsp.").is_err());
    assert!(Unit::from("grams").is_err());
    assert!(Unit::from("").is_err());
}

#[test]
fn example_renders_its_counters() {
    let ex = Example { data1: 1, data2: 2, data3: 3 };
    assert_eq!(ex.src(), "d1: 1, d2: 2, d3: 3");
    let wide = Example { data1: 0, data2: 42, data3: 4294967295 };
    assert_eq!(wide.src(), "d1: 0, d2: 42, d3: 4294967295");
}
