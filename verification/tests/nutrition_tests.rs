use data_collection::Macros;
use data_collection::Nutrient;
use data_collection::RawSlot;
use data_collection::Recipe;
use data_collection::RecipeError;

fn zero_slot() -> RawSlot {
    RawSlot { unit: None, label: None, quantity_text: None, daily_text: None }
}

fn slot(unit: &str, label: &str, quantity: &str, daily: &str) -> RawSlot {
    RawSlot {
        unit: Some(unit.to_string()),
        label: Some(label.to_string()),
        quantity_text: Some(quantity.to_string()),
        daily_text: Some(daily.to_string()),
    }
}

#[test]
fn normalization_divides_by_servings() {
    let mut m = Macros {
        slots: vec![Nutrient {
            code: "PROCNT".to_string(),
            unit: "g".to_string(),
            label: "Protein".to_string(),
            quantity_milli: 80_000,
            daily_milli: 40_000,
        }],
    };
    m.normalize_by_servings(4);
    assert_eq!(m.slots[0].quantity_milli, 20_000);
    assert_eq!(m.slots[0].daily_milli, 10_000);
}

#[test]
fn normalizing_again_by_one_serving_changes_nothing() {
    let mut m = Macros {
        slots: vec![Nutrient {
            code: "FAT".to_string(),
            unit: "g".to_string(),
            label: "Fat".to_string(),
            quantity_milli: 12_345,
            daily_milli: 678,
        }],
    };
    m.normalize_by_servings(1);
    assert_eq!(m.slots[0].quantity_milli, 12_345);
    assert_eq!(m.slots[0].daily_milli, 678);
}

#[test]
fn payload_fills_named_slots_and_zeroes_the_rest() {
    let mut raws: Vec<RawSlot> = (0..29).map(|_| zero_slot()).collect();
    raws[0] = slot("g", "Protein", "80", "40");
    let mut r = Recipe::default();
    r.apply_nutrition_payload(4, raws).unwrap();
    assert_eq!(r.servings, 4);
    let m = r.macros.as_ref().unwrap();
    assert_eq!(m.slots.len(), 29);
    assert_eq!(m.slots[0].code, "PROCNT");
    assert_eq!(m.slots[0].unit, "g");
    assert_eq!(m.slots[0].label, "Protein");
    assert_eq!(m.slots[0].quantity_milli, 20_000);
    assert_eq!(m.slots[0].daily_milli, 10_000);
    assert_eq!(m.slots[1].code, "FAT");
    assert_eq!(m.slots[1].quantity_milli, 0);
    assert_eq!(m.slots[28].code, "FAPU");
}

#[test]
fn payload_with_zero_servings_is_a_decode_failure() {
    let raws: Vec<RawSlot> = (0..29).map(|_| zero_slot()).collect();
    let mut r = Recipe::default();
    assert!(matches!(
        r.apply_nutrition_payload(0, raws),
        Err(RecipeError::FieldDecodeError(_))
    ));
}

#[test]
fn fractional_quantities_read_as_thousandths() {
    let mut raws: Vec<RawSlot> = (0..29).map(|_| zero_slot()).collect();
    raws[2] = slot("g", "Carbs", "1.5", "0.25");
    let mut r = Recipe::default();
    r.apply_nutrition_payload(1, raws).unwrap();
    let m = r.macros.as_ref().unwrap();
    assert_eq!(m.slots[2].code, "CHOCDF");
    assert_eq!(m.slots[2].quantity_milli, 1500);
    assert_eq!(m.slots[2].daily_milli, 250);
}
