use rendercore::css_parser::CSSParser;
use rendercore::css_parser::declaration_value::DeclarationValue;
use rendercore::css_parser::length_unit::LengthUnit;
use rendercore::general_parser::GeneralParser;
use rendercore::html_parser::element_data::ElementData;
use rendercore::px::sadd;
use rendercore::px::shalf;
use rendercore::px::ssub;
use rendercore::str_map::StrMap;

#[test]
fn saturating_arithmetic_clamps_at_the_bounds() {
    assert_eq!(3, sadd(1, 2));
    assert_eq!(i64::MAX, sadd(i64::MAX, 1));
    assert_eq!(i64::MIN, sadd(i64::MIN, -1));
    assert_eq!(-1, ssub(1, 2));
    assert_eq!(i64::MIN, ssub(i64::MIN, 1));
    assert_eq!(i64::MAX, ssub(i64::MAX, -1));
    assert_eq!(2, shalf(5));
    assert_eq!(-2, shalf(-5));
    assert_eq!(0, shalf(1));
}

#[test]
fn str_map_insert_overwrites_and_keeps_one_entry() {
    let mut map: StrMap<String> = StrMap::new();
    map.insert(String::from("id"), String::from("first"));
    map.insert(String::from("id"), String::from("second"));
    map.insert(String::from("class"), String::from("c"));
    assert_eq!(2, map.len());
    assert_eq!("second", map.get("id").unwrap());
    assert_eq!("c", map.get("class").unwrap());
    assert!(map.get("missing").is_none());
}

#[test]
fn class_splitting_keeps_empty_tokens() {
    let mut attrs = StrMap::new();
    attrs.insert(String::from("class"), String::from("a  b"));
    let element = ElementData {
        tag_name: String::from("div"),
        attributes: attrs,
    };
    assert_eq!(
        vec![String::from("a"), String::from(""), String::from("b")],
        element.get_classes()
    );

    let mut empty_attr = StrMap::new();
    empty_attr.insert(String::from("class"), String::from(""));
    let element = ElementData {
        tag_name: String::from("div"),
        attributes: empty_attr,
    };
    assert_eq!(vec![String::from("")], element.get_classes());

    let element = ElementData {
        tag_name: String::from("div"),
        attributes: StrMap::new(),
    };
    assert!(element.get_classes().is_empty());
}

#[test]
fn parsed_lengths_saturate_at_the_limit() {
    let mut css_parser = CSSParser {
        general_parser: GeneralParser {
            content: String::from("div { width: 99999999999999999999px; }"),
            current_position: 0,
        },
    };
    let sheet = css_parser.parse().unwrap();
    assert_eq!(
        DeclarationValue::Length(10_000_000_000_000_000, LengthUnit::Px),
        sheet.rules[0].declarations[0].value
    );
}

#[test]
fn unit_letter_case_is_ignored() {
    let mut css_parser = CSSParser {
        general_parser: GeneralParser {
            content: String::from("div { width: 5PX; }"),
            current_position: 0,
        },
    };
    let sheet = css_parser.parse().unwrap();
    assert_eq!(
        DeclarationValue::Length(50, LengthUnit::Px),
        sheet.rules[0].declarations[0].value
    );
}
