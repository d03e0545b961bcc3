use rendercore::css_parser::color_value::ColorValue;
use rendercore::css_parser::declaration::Declaration;
use rendercore::css_parser::declaration_value::DeclarationValue;
use rendercore::css_parser::length_unit::LengthUnit;
use rendercore::css_parser::selector::Selector;

#[test]
fn color_value_test_display() {
    let color_value = ColorValue {
        r: 255,
        g: 99,
        b: 71,
        a: 1,
    };

    assert_eq!("rgba(255, 99, 71, 1)", color_value.to_text());
}

#[test]
fn declaration_value_test_display() {
    let keyword = DeclarationValue::Keyword(String::from("none"));
    let length = DeclarationValue::Length(131, LengthUnit::Px);
    let color = DeclarationValue::Color(ColorValue {
        r: 255,
        g: 99,
        b: 71,
        a: 1,
    });

    assert_eq!("none", keyword.to_text());
    assert_eq!("13.1px", length.to_text());
    assert_eq!("#rgba(255, 99, 71, 1)", color.to_text());
}

#[test]
fn declaration_test_display() {
    let keyword = Declaration {
        name: String::from("display"),
        value: DeclarationValue::Keyword(String::from("none")),
    };

    let length = Declaration {
        name: String::from("margin-bottom"),
        value: DeclarationValue::Length(202, LengthUnit::Px),
    };

    let color = Declaration {
        name: String::from("color"),
        value: DeclarationValue::Color(ColorValue {
            r: 255,
            g: 99,
            b: 71,
            a: 1,
        }),
    };

    assert_eq!("display: none", keyword.to_text());
    assert_eq!("margin-bottom: 20.2px", length.to_text());
    assert_eq!("color: #rgba(255, 99, 71, 1)", color.to_text());
}

#[test]
fn length_unit_test_display() {
    let length_unit = LengthUnit::Px;
    assert_eq!("px", length_unit.to_text());
}

#[test]
fn selector_test_display() {
    let selector = Selector {
        tag_name: Some(String::from("div")),
        id: Some(String::from("answer")),
        classes: vec![
            String::from("note"),
            String::from("button"),
            String::from("topbar"),
        ],
    };

    println!("{}", selector.to_text());
    assert_eq!("div#answer.note.button.topbar", selector.to_text());
}

#[test]
fn whole_pixel_lengths_print_without_fraction() {
    assert_eq!("20px", DeclarationValue::Length(200, LengthUnit::Px).to_text());
    assert_eq!("0px", DeclarationValue::Length(0, LengthUnit::Px).to_text());
    assert_eq!("-3.5px", DeclarationValue::Length(-35, LengthUnit::Px).to_text());
}
