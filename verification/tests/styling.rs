use rendercore::css_parser::declaration::Declaration;
use rendercore::css_parser::declaration_value::DeclarationValue;
use rendercore::css_parser::rule::Rule;
use rendercore::css_parser::selector::Selector;
use rendercore::css_parser::stylesheet::Stylesheet;
use rendercore::html_parser::element_data::ElementData;
use rendercore::str_map::StrMap;
use rendercore::style_tree_builder::check_if_classes_matched;
use rendercore::style_tree_builder::check_if_ids_matched;
use rendercore::style_tree_builder::check_if_rule_and_element_match;
use rendercore::style_tree_builder::check_if_selector_and_element_match;
use rendercore::style_tree_builder::check_if_tags_matched;
use rendercore::style_tree_builder::create_css_properties;
use rendercore::style_tree_builder::match_rules_with_element;
use rendercore::style_tree_builder::properties_debug_text;

fn attrs(pairs: &[(&str, &str)]) -> StrMap<String> {
    let mut m = StrMap::new();
    for (k, v) in pairs {
        m.insert(String::from(*k), String::from(*v));
    }
    m
}

fn keyword_decl(name: &str, value: &str) -> Declaration {
    Declaration {
        name: String::from(name),
        value: DeclarationValue::Keyword(String::from(value)),
    }
}

#[test]
fn test_check_if_tags_matched() {
    let tag_in_selector = Some(String::from("div"));
    let tag_in_element = String::from("div");

    assert!(check_if_tags_matched(&tag_in_selector, &tag_in_element));

    let tag_in_element = String::from("dive");
    assert!(!check_if_tags_matched(&tag_in_selector, &tag_in_element));

    let tag_in_selector = None;
    assert!(check_if_tags_matched(&tag_in_selector, &tag_in_element));
}

#[test]
fn test_check_if_ids_matched() {
    let string_abc_1 = String::from("abc");
    let string_abc_2 = String::from("abc");
    let id_in_selector = Some(string_abc_1);
    let id_in_element = Some(&string_abc_2);

    assert!(check_if_ids_matched(&id_in_selector, &id_in_element));

    let string_abcd = String::from("abcd");
    let id_in_element = Some(&string_abcd);
    assert!(!check_if_ids_matched(&id_in_selector, &id_in_element));

    let id_in_element = None;
    assert!(!check_if_ids_matched(&id_in_selector, &id_in_element));

    let id_in_selector = None;
    assert!(check_if_ids_matched(&id_in_selector, &id_in_element));

    let id_in_element = Some(&string_abc_2);
    assert!(check_if_ids_matched(&id_in_selector, &id_in_element));
}

#[test]
fn test_check_if_classes_matched() {
    let classes_in_selector = vec![
        String::from("class_one"),
        String::from("class_two"),
        String::from("class_three"),
    ];
    let classes_in_element = vec![
        String::from("class_one"),
        String::from("class_two"),
        String::from("class_three"),
    ];
    assert!(check_if_classes_matched(&classes_in_selector, &classes_in_element));

    let classes_in_element = vec![String::from("class_one"), String::from("class_three")];
    assert!(!check_if_classes_matched(&classes_in_selector, &classes_in_element));

    let classes_in_selector = vec![];
    let classes_in_element = vec![
        String::from("class_one"),
        String::from("class_two"),
        String::from("class_three"),
    ];
    assert!(check_if_classes_matched(&classes_in_selector, &classes_in_element));
}

#[test]
fn selector_matching_gates_hold_independently() {
    let element = ElementData {
        tag_name: String::from("p"),
        attributes: attrs(&[("id", "main"), ("class", "one two extra")]),
    };

    // An empty selector never blocks.
    let empty = Selector {
        tag_name: None,
        id: None,
        classes: Vec::new(),
    };
    assert!(check_if_selector_and_element_match(&empty, &element));

    // A subset of the element's classes still matches despite extras.
    let subset = Selector {
        tag_name: None,
        id: None,
        classes: vec![String::from("one"), String::from("two")],
    };
    assert!(check_if_selector_and_element_match(&subset, &element));

    // Each constraint gates on its own.
    let wrong_tag = Selector {
        tag_name: Some(String::from("div")),
        id: Some(String::from("main")),
        classes: vec![String::from("one")],
    };
    assert!(!check_if_selector_and_element_match(&wrong_tag, &element));

    let wrong_id = Selector {
        tag_name: Some(String::from("p")),
        id: Some(String::from("other")),
        classes: vec![String::from("one")],
    };
    assert!(!check_if_selector_and_element_match(&wrong_id, &element));

    let wrong_class = Selector {
        tag_name: Some(String::from("p")),
        id: Some(String::from("main")),
        classes: vec![String::from("missing")],
    };
    assert!(!check_if_selector_and_element_match(&wrong_class, &element));
}

#[test]
fn test_get_classes() {
    let element_data = ElementData {
        tag_name: String::from("div"),
        attributes: attrs(&[
            ("class", "class_one class_two class_three"),
            ("name", "abc"),
        ]),
    };

    assert_eq!(3, element_data.get_classes().len());
    assert!(element_data.get_classes().iter().any(|c| c == "class_one"));
    assert!(element_data.get_classes().iter().any(|c| c == "class_two"));
    assert!(element_data.get_classes().iter().any(|c| c == "class_three"));
}

fn three_selectors(third_classes: &[&str]) -> Vec<Selector> {
    vec![
        Selector {
            tag_name: Some(String::from("div")),
            id: None,
            classes: Vec::new(),
        },
        Selector {
            tag_name: None,
            id: Some(String::from("abc")),
            classes: Vec::new(),
        },
        Selector {
            tag_name: None,
            id: None,
            classes: third_classes.iter().map(|c| String::from(*c)).collect(),
        },
    ]
}

#[test]
fn test_match_rules_with_element() {
    let selectors_one = three_selectors(&["class_one", "class_two"]);
    let selectors_two = three_selectors(&["class_one", "class_two", "class_three"]);

    let rules = vec![
        Rule {
            selectors: selectors_one,
            declarations: Vec::new(),
        },
        Rule {
            selectors: selectors_two,
            declarations: Vec::new(),
        },
    ];

    let element_matches = ElementData {
        tag_name: String::from("p"),
        attributes: attrs(&[("class", "class_one class_two")]),
    };

    let result = match_rules_with_element(&rules, &element_matches);
    assert_eq!(1, result.len());
}

#[test]
fn test_check_if_rule_and_element_match() {
    let selectors = three_selectors(&["class_one", "class_two"]);

    let rule = Rule {
        selectors,
        declarations: Vec::new(),
    };

    let element_matches = ElementData {
        tag_name: String::from("p"),
        attributes: attrs(&[("class", "class_one class_two")]),
    };

    let result = check_if_rule_and_element_match(&rule, &element_matches).unwrap();
    assert_eq!((0, 2, 0), result.0);
    assert!(std::ptr::eq(&rule, result.1));

    let element_not_match = ElementData {
        tag_name: String::from("p"),
        attributes: StrMap::new(),
    };
    let result = check_if_rule_and_element_match(&rule, &element_not_match);
    assert!(result.is_none());
}

#[test]
fn test_create_css_properties() {
    let selectors_one = three_selectors(&["class_one", "class_two"]);
    let selectors_two = three_selectors(&["class_one", "class_two", "class_three"]);

    let rules = vec![
        Rule {
            selectors: selectors_one,
            declarations: vec![keyword_decl("display", "none")],
        },
        Rule {
            selectors: selectors_two,
            declarations: vec![keyword_decl("appearance", "auto")],
        },
    ];

    let stylesheet = Stylesheet { rules };

    let element_matches = ElementData {
        tag_name: String::from("p"),
        attributes: attrs(&[("class", "class_one class_two")]),
    };

    let result = create_css_properties(&stylesheet, &element_matches);
    assert_eq!("{\"display\": Keyword(\"none\")}", properties_debug_text(&result));
}

fn tag_rule(tag: &str, decls: Vec<Declaration>) -> Rule {
    Rule {
        selectors: vec![Selector {
            tag_name: Some(String::from(tag)),
            id: None,
            classes: Vec::new(),
        }],
        declarations: decls,
    }
}

#[test]
fn cascade_later_rule_wins_equal_specificity() {
    let stylesheet = Stylesheet {
        rules: vec![
            tag_rule("p", vec![keyword_decl("color", "red")]),
            tag_rule("p", vec![keyword_decl("color", "blue")]),
        ],
    };
    let element = ElementData {
        tag_name: String::from("p"),
        attributes: StrMap::new(),
    };
    let props = create_css_properties(&stylesheet, &element);
    let value = props.get("color").unwrap();
    assert_eq!(DeclarationValue::Keyword(String::from("blue")), *value);
}

#[test]
fn cascade_higher_specificity_wins_regardless_of_order() {
    // The id selector outweighs the later tag selector.
    let id_rule = Rule {
        selectors: vec![Selector {
            tag_name: None,
            id: Some(String::from("main")),
            classes: Vec::new(),
        }],
        declarations: vec![keyword_decl("color", "red")],
    };
    let stylesheet = Stylesheet {
        rules: vec![id_rule, tag_rule("p", vec![keyword_decl("color", "blue")])],
    };
    let element = ElementData {
        tag_name: String::from("p"),
        attributes: attrs(&[("id", "main")]),
    };
    let props = create_css_properties(&stylesheet, &element);
    let value = props.get("color").unwrap();
    assert_eq!(DeclarationValue::Keyword(String::from("red")), *value);
}

#[test]
fn cascade_ignores_rules_that_do_not_apply() {
    let stylesheet = Stylesheet {
        rules: vec![tag_rule("div", vec![keyword_decl("display", "none")])],
    };
    let element = ElementData {
        tag_name: String::from("p"),
        attributes: StrMap::new(),
    };
    let props = create_css_properties(&stylesheet, &element);
    assert!(props.get("display").is_none());
}

#[test]
fn later_declaration_in_one_rule_wins() {
    let stylesheet = Stylesheet {
        rules: vec![tag_rule(
            "p",
            vec![keyword_decl("color", "red"), keyword_decl("color", "blue")],
        )],
    };
    let element = ElementData {
        tag_name: String::from("p"),
        attributes: StrMap::new(),
    };
    let props = create_css_properties(&stylesheet, &element);
    assert_eq!(
        DeclarationValue::Keyword(String::from("blue")),
        *props.get("color").unwrap()
    );
}

#[test]
fn rule_is_credited_the_first_matching_selector_in_stored_order() {
    // Selectors are stored ascending by specificity, and a rule is
    // credited the first stored selector that matches: a rule whose
    // tag and id selectors both match is credited the tag's weight,
    // so a later tag-only rule beats it on the source-order tie-break.
    let both = Rule {
        selectors: vec![
            Selector {
                tag_name: Some(String::from("p")),
                id: None,
                classes: Vec::new(),
            },
            Selector {
                tag_name: None,
                id: Some(String::from("x")),
                classes: Vec::new(),
            },
        ],
        declarations: vec![keyword_decl("color", "red")],
    };
    let stylesheet = Stylesheet {
        rules: vec![both, tag_rule("p", vec![keyword_decl("color", "blue")])],
    };
    let element = ElementData {
        tag_name: String::from("p"),
        attributes: attrs(&[("id", "x")]),
    };
    let credited = check_if_rule_and_element_match(&stylesheet.rules[0], &element).unwrap();
    assert_eq!((0, 0, 1), credited.0);
    let props = create_css_properties(&stylesheet, &element);
    assert_eq!(
        DeclarationValue::Keyword(String::from("blue")),
        *props.get("color").unwrap()
    );
}
