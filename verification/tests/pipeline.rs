use data_collection::DomNode;
use data_collection::Ingredient;
use data_collection::Recipe;
use data_collection::RecipeError;
use data_collection::Unit;

fn elem(name: &str, attrs: &[(&str, &str)], children: Vec<DomNode>) -> DomNode {
    DomNode::Element {
        name: name.to_string(),
        attrs: attrs.iter().map(|(k, v)| (k.to_string(), v.to_string())).collect(),
        children,
    }
}

fn text(s: &str) -> DomNode {
    DomNode::Text(s.to_string())
}

fn li_step(s: &str) -> DomNode {
    elem("li", &[], vec![text(s)])
}

#[test]
fn ingredient_merge_sums_quantities_and_keeps_order() {
    let mut r = Recipe::default();
    r.add_ingredients(vec![
        Ingredient {
            name: "flour".to_string(),
            quantity_milli: 1500,
            units: Some(Unit::CUP),
            prepped: None,
        },
        Ingredient { name: "flour".to_string(), quantity_milli: 2000, units: None, prepped: None },
        Ingredient { name: "salt".to_string(), quantity_milli: 0, units: None, prepped: None },
    ]);
    assert_eq!(r.ingredients.len(), 2);
    assert_eq!(r.ingredients[0].name, "flour");
    assert_eq!(r.ingredients[0].quantity_milli, 3500);
    assert_eq!(r.ingredients[0].units, Some(Unit::CUP));
    assert_eq!(r.ingredients[1].name, "salt");
}

#[test]
fn instructions_pair_headings_with_lists() {
    let landmark = elem(
        "div",
        &[("class", "tasty-recipes-instructions")],
        vec![
            elem("h4", &[], vec![text("Sauce:")]),
            elem("h4", &[], vec![text("Assembly:")]),
            elem("div", &[], vec![]),
            elem(
                "div",
                &[],
                vec![
                    elem("ol", &[], vec![li_step("a"), li_step("b"), li_step("c")]),
                    elem("ol", &[], vec![li_step("p"), li_step("q"), li_step("r"), li_step("s")]),
                ],
            ),
        ],
    );
    let mut r = Recipe::default();
    r.parse_instructions(&landmark).unwrap();
    assert_eq!(r.instructions.len(), 2);
    assert_eq!(r.instructions[0].section.as_deref(), Some("Sauce"));
    assert_eq!(r.instructions[0].steps.len(), 3);
    assert_eq!(r.instructions[1].section.as_deref(), Some("Assembly"));
    assert_eq!(r.instructions[1].steps.len(), 4);
    assert_eq!(r.instructions[1].steps[3], "s");
}

#[test]
fn instructions_single_list_is_one_unnamed_group() {
    let landmark = elem(
        "div",
        &[("class", "tasty-recipes-instructions")],
        vec![
            elem("div", &[], vec![]),
            elem("div", &[], vec![elem("ol", &[], vec![li_step("only"), li_step("two")])]),
        ],
    );
    let mut r = Recipe::default();
    r.parse_instructions(&landmark).unwrap();
    assert_eq!(r.instructions.len(), 1);
    assert_eq!(r.instructions[0].section, None);
    assert_eq!(r.instructions[0].steps, vec!["only".to_string(), "two".to_string()]);
}

#[test]
fn instructions_need_the_second_container() {
    let landmark = elem("div", &[], vec![elem("div", &[], vec![])]);
    let mut r = Recipe::default();
    assert!(matches!(
        r.parse_instructions(&landmark),
        Err(RecipeError::LandmarkNotFound(_))
    ));
}

#[test]
fn ingredient_item_reads_name_quantity_unit_and_note() {
    let ul = elem(
        "ul",
        &[],
        vec![elem(
            "li",
            &[],
            vec![
                elem("strong", &[], vec![text("flour")]),
                elem("span", &[], vec![text("1.5")]),
                elem("span", &[("data-amount", "1.5"), ("data-unit", "cups")], vec![]),
                elem("em", &[], vec![text("sifted")]),
            ],
        )],
    );
    let mut r = Recipe::default();
    r.parse_ingredients(&ul).unwrap();
    assert_eq!(r.ingredients.len(), 1);
    assert_eq!(r.ingredients[0].name, "flour");
    assert_eq!(r.ingredients[0].quantity_milli, 1500);
    assert_eq!(r.ingredients[0].units, Some(Unit::CUP));
    assert_eq!(r.ingredients[0].prepped.as_deref(), Some("sifted"));
}

#[test]
fn ingredient_without_quantity_span_defaults_to_zero() {
    let ul = elem(
        "ul",
        &[],
        vec![elem("li", &[], vec![elem("b", &[], vec![text("salt")])])],
    );
    let mut r = Recipe::default();
    r.parse_ingredients(&ul).unwrap();
    assert_eq!(r.ingredients[0].name, "salt");
    assert_eq!(r.ingredients[0].quantity_milli, 0);
    assert_eq!(r.ingredients[0].units, None);
}

#[test]
fn ingredient_unknown_unit_degrades_to_unset() {
    let ul = elem(
        "ul",
        &[],
        vec![elem(
            "li",
            &[],
            vec![
                elem("strong", &[], vec![text("butter")]),
                elem("span", &[], vec![]),
                elem("span", &[("data-amount", "2"), ("data-unit", "Tbsp")], vec![]),
            ],
        )],
    );
    let mut r = Recipe::default();
    r.parse_ingredients(&ul).unwrap();
    assert_eq!(r.ingredients[0].quantity_milli, 2000);
    assert_eq!(r.ingredients[0].units, None);
}

#[test]
fn ingredient_without_name_is_an_error() {
    let ul = elem("ul", &[], vec![elem("li", &[], vec![text("mystery")])]);
    let mut r = Recipe::default();
    r.url = "https://example.test/r/".to_string();
    let e = r.parse_ingredients(&ul).unwrap_err();
    match e {
        RecipeError::IngredientNameMissing { url, item } => {
            assert_eq!(url, "https://example.test/r/");
            assert_eq!(item, "mystery");
        },
        other => panic!("unexpected error: {:?}", other),
    }
}

#[test]
fn ingredient_unreadable_amount_is_an_error() {
    let ul = elem(
        "ul",
        &[],
        vec![elem(
            "li",
            &[],
            vec![
                elem("strong", &[], vec![text("flour")]),
                elem("span", &[], vec![]),
                elem("span", &[("data-amount", "x2")], vec![]),
            ],
        )],
    );
    let mut r = Recipe::default();
    assert!(matches!(
        r.parse_ingredients(&ul),
        Err(RecipeError::FieldDecodeError(_))
    ));
}

fn full_document() -> DomNode {
    elem(
        "html",
        &[],
        vec![
            elem(
                "a",
                &[("class", "tasty-recipes-jump-link"), ("href", "#my-recipe-jump-target")],
                vec![text("Jump to recipe")],
            ),
            elem(
                "div",
                &[("id", "my-recipe")],
                vec![
                    elem(
                        "header",
                        &[],
                        vec![
                            elem("h2", &[], vec![text("Lasagna")]),
                            elem(
                                "span",
                                &[("class", "tasty-recipes-total-time")],
                                vec![text("1 hour 30 minutes")],
                            ),
                        ],
                    ),
                    elem(
                        "div",
                        &[("class", "tasty-recipes-entry-content")],
                        vec![
                            elem(
                                "div",
                                &[("class", "tasty-recipes-description-body")],
                                vec![text("  Layers of comfort.  ")],
                            ),
                            elem(
                                "div",
                                &[("class", "tasty-recipes-ingredients")],
                                vec![elem(
                                    "ul",
                                    &[],
                                    vec![
                                        elem(
                                            "li",
                                            &[],
                                            vec![
                                                elem("strong", &[], vec![text("flour")]),
                                                elem("span", &[], vec![text("1.5")]),
                                                elem(
                                                    "span",
                                                    &[
                                                        ("data-amount", "1.5"),
                                                        ("data-unit", "cups"),
                                                    ],
                                                    vec![],
                                                ),
                                                elem("em", &[], vec![text("sifted")]),
                                            ],
                                        ),
                                        elem(
                                            "li",
                                            &[],
                                            vec![elem("b", &[], vec![text("salt")])],
                                        ),
                                    ],
                                )],
                            ),
                            elem(
                                "div",
                                &[("class", "tasty-recipes-instructions")],
                                vec![
                                    elem("div", &[], vec![]),
                                    elem(
                                        "div",
                                        &[],
                                        vec![elem(
                                            "ol",
                                            &[],
                                            vec![li_step("Boil."), li_step("Layer."), li_step(
                                                "Bake.",
                                            )],
                                        )],
                                    ),
                                ],
                            ),
                            elem(
                                "div",
                                &[("class", "tasty-recipes-notes")],
                                vec![text(" Rest\u{a0}before\n\tserving ")],
                            ),
                            elem(
                                "div",
                                &[("class", "tasty-recipes-other-details")],
                                vec![elem(
                                    "ul",
                                    &[],
                                    vec![
                                        elem(
                                            "li",
                                            &[("class", "prep-time")],
                                            vec![elem(
                                                "span",
                                                &[("class", "tasty-recipes-prep-time")],
                                                vec![text("20 minutes")],
                                            )],
                                        ),
                                        elem(
                                            "li",
                                            &[("class", "cook-time")],
                                            vec![elem(
                                                "span",
                                                &[("class", "tasty-recipes-cook-time")],
                                                vec![text("1 hr")],
                                            )],
                                        ),
                                        elem(
                                            "li",
                                            &[("class", "cuisine")],
                                            vec![elem(
                                                "span",
                                                &[("class", "tasty-recipes-cuisine")],
                                                vec![text("Italian")],
                                            )],
                                        ),
                                        elem("li", &[("class", "servings")], vec![]),
                                    ],
                                )],
                            ),
                            elem(
                                "iframe",
                                &[
                                    ("title", "nutritional information"),
                                    ("data-l-src", "//nutrifox.test/embed/label/1"),
                                ],
                                vec![],
                            ),
                        ],
                    ),
                ],
            ),
        ],
    )
}

#[test]
fn assembles_a_full_recipe() {
    let doc = full_document();
    let (r, nutrition) = Recipe::new("img.jpg", "https://example.test/lasagna/", &doc).unwrap();
    assert_eq!(r.name, "Lasagna");
    assert_eq!(r.total_time, 90);
    assert_eq!(r.prep_time, 20);
    assert_eq!(r.cook_time, 60);
    assert_eq!(r.cuisine, "Italian");
    assert_eq!(r.category, "");
    assert_eq!(r.description.as_deref(), Some("Layers of comfort."));
    assert_eq!(r.notes.as_deref(), Some("Rest before serving"));
    assert_eq!(r.instructions.len(), 1);
    assert_eq!(r.instructions[0].steps.len(), 3);
    assert_eq!(r.ingredients.len(), 2);
    assert_eq!(r.ingredients[0].quantity_milli, 1500);
    assert!(r.macros.is_none());
    assert_eq!(nutrition.as_deref(), Some("https://nutrifox.test/embed/label/1"));
}

#[test]
fn missing_jump_link_is_a_landmark_failure() {
    let doc = elem("html", &[], vec![]);
    let e = Recipe::new("", "https://example.test/x/", &doc).unwrap_err();
    assert!(matches!(e, RecipeError::LandmarkNotFound(_)));
}

#[test]
fn missing_recipe_block_is_a_landmark_failure() {
    let doc = elem(
        "html",
        &[],
        vec![elem(
            "a",
            &[("class", "tasty-recipes-jump-link"), ("href", "#gone-jump-target")],
            vec![],
        )],
    );
    let e = Recipe::new("", "https://example.test/x/", &doc).unwrap_err();
    match e {
        RecipeError::LandmarkNotFound(s) => assert_eq!(s, "gone"),
        other => panic!("unexpected error: {:?}", other),
    }
}

#[test]
fn listing_links_need_both_url_and_image() {
    let doc = elem(
        "html",
        &[],
        vec![elem(
            "div",
            &[("class", "entry-content wide")],
            vec![
                elem(
                    "figure",
                    &[],
                    vec![
                        elem("a", &[("href", "https://example.test/one/")], vec![]),
                        elem("img", &[("data-lazy-src", "one.jpg")], vec![]),
                    ],
                ),
                elem(
                    "figure",
                    &[],
                    vec![elem("a", &[("href", "https://example.test/no-img/")], vec![])],
                ),
                elem(
                    "figure",
                    &[],
                    vec![
                        elem("a", &[("href", "https://example.test/two/")], vec![]),
                        elem("img", &[("data-lazy-src", "two.jpg")], vec![]),
                    ],
                ),
            ],
        )],
    );
    let links = data_collection::collect_recipe_links(&doc);
    assert_eq!(links.len(), 2);
    assert_eq!(links[0].0, "https://example.test/one/");
    assert_eq!(links[0].1, "one.jpg");
    assert_eq!(links[1].0, "https://example.test/two/");
}

#[test]
fn from_id_is_a_placeholder() {
    let r = Recipe::from_id(7);
    assert_eq!(r.url, "someurl");
    assert_eq!(r.name, "");
}
