use rendercore::css_parser::CSSParser;
use rendercore::css_parser::convert_hex_to_rgb;
use rendercore::css_parser::declaration_value::DeclarationValue;
use rendercore::css_parser::length_unit::LengthUnit;
use rendercore::general_parser::GeneralParser;
use rendercore::html_parser::HTMLParser;
use rendercore::parse_error::ParseError;
use rendercore::parser::Parser;

#[test]
fn test_convert_hex_to_rgb() {
    assert_eq!((250, 128, 114), convert_hex_to_rgb("fa8072"));
}

#[test]
fn css_parser_test_parse() {
    let mut css_parser = CSSParser {
        general_parser: GeneralParser {
            content: "h1, h2, h3 { margin: auto; color: #cc0000; } div.note { margin-bottom: 20px; padding: 10px; } #answer { display: none; }".parse().unwrap(),
            current_position: 0
        }
    };

    let stylesheet = css_parser.parse().unwrap();
    assert_eq!("h1, h2, h3 { margin: auto; color: #rgba(204, 0, 0, 255); }
div.note { margin-bottom: 20px; padding: 10px; }
#answer { display: none; }", stylesheet.to_text());
}

#[test]
fn general_parser_test_is_eof() {
    let parser_eof = GeneralParser {
        content: String::from("asdfghjkl"),
        current_position: 9,
    };

    let parser_not_eof = GeneralParser {
        content: String::from("asdfghjkl"),
        current_position: 8,
    };

    assert_eq!(true, parser_eof.is_eof());
    assert_eq!(false, parser_not_eof.is_eof());
}

#[test]
fn general_parser_test_consume_char() {
    let mut parser = GeneralParser {
        content: String::from("dAg\u{c3}\u{178}j\u{e2}\u{201e}\u{11f}\u{178}\u{2019}\u{a3}"),
        current_position: 1,
    };

    assert_eq!('A', parser.pop_current_char());
    assert_eq!('g', parser.pop_current_char());
    assert_eq!('\u{c3}', parser.pop_current_char());
    assert_eq!('\u{178}', parser.pop_current_char());
    assert_eq!('j', parser.pop_current_char());
    assert_eq!('\u{e2}', parser.pop_current_char());
    assert_eq!('\u{201e}', parser.pop_current_char());
    assert_eq!('\u{11f}', parser.pop_current_char());
    assert_eq!('\u{178}', parser.pop_current_char());
    assert_eq!('\u{2019}', parser.pop_current_char());
    assert_eq!('\u{a3}', parser.pop_current_char());
    assert_eq!(true, parser.is_eof());
}

#[test]
fn general_parser_test_consume_whitespaces() {
    let mut parser = GeneralParser {
        content: String::from("d    A"),
        current_position: 1,
    };
    parser.consume_whitespaces();
    assert_eq!('A', parser.peek_current_char());
}

#[test]
fn parser_test_is_eof() {
    let parser_eof = Parser {
        content: String::from("asdfghjkl"),
        current_position: 9,
    };

    let parser_not_eof = Parser {
        content: String::from("asdfghjkl"),
        current_position: 8,
    };

    assert_eq!(true, parser_eof.is_eof());
    assert_eq!(false, parser_not_eof.is_eof());
}

#[test]
fn parser_test_consume_char() {
    let mut parser = Parser {
        content: String::from("dAg\u{c3}\u{178}j\u{e2}\u{201e}\u{11f}\u{178}\u{2019}\u{a3}"),
        current_position: 1,
    };

    assert_eq!('A', parser.pop_current_char());
    assert_eq!('g', parser.pop_current_char());
    assert_eq!('\u{c3}', parser.pop_current_char());
    assert_eq!('\u{178}', parser.pop_current_char());
    assert_eq!('j', parser.pop_current_char());
    assert_eq!('\u{e2}', parser.pop_current_char());
    assert_eq!('\u{201e}', parser.pop_current_char());
    assert_eq!('\u{11f}', parser.pop_current_char());
    assert_eq!('\u{178}', parser.pop_current_char());
    assert_eq!('\u{2019}', parser.pop_current_char());
    assert_eq!('\u{a3}', parser.pop_current_char());
    assert_eq!(true, parser.is_eof());
}

#[test]
fn parser_test_consume_whitespaces() {
    let mut parser = Parser {
        content: String::from("d    A"),
        current_position: 1,
    };
    parser.consume_whitespaces();
    assert_eq!('A', parser.peek_current_char());
}

#[test]
fn html_parser_test_parse() {
    let mut parser = HTMLParser {
        general_parser: GeneralParser {
            content: String::from("<html><body><h1>Title</h1><div id='main' class='test'><p>Hello <em>world</em>!</p></div></body></html>"),
            current_position: 0
        }
    };

    let node = parser.parse();
    assert!(node.is_ok());
}

#[test]
fn html_parser_rejects_mismatched_closing_tag() {
    let mut parser = HTMLParser {
        general_parser: GeneralParser {
            content: String::from("<div>text</span>"),
            current_position: 0,
        },
    };
    assert!(matches!(parser.parse(), Err(ParseError::MismatchedClosingTag)));
}

#[test]
fn css_parser_parses_values_exactly() {
    let mut css_parser = CSSParser {
        general_parser: GeneralParser {
            content: String::from("div { width: 20px; color: #fa8072; display: block; }"),
            current_position: 0,
        },
    };
    let sheet = css_parser.parse().unwrap();
    assert_eq!(1, sheet.rules.len());
    let rule = &sheet.rules[0];
    assert_eq!(3, rule.declarations.len());
    assert_eq!("width", rule.declarations[0].name);
    assert_eq!(
        DeclarationValue::Length(200, LengthUnit::Px),
        rule.declarations[0].value
    );
    match &rule.declarations[1].value {
        DeclarationValue::Color(c) => {
            assert_eq!((250, 128, 114, 255), (c.r, c.g, c.b, c.a));
        }
        other => panic!("expected a color, got {:?}", other),
    }
    assert_eq!(
        DeclarationValue::Keyword(String::from("block")),
        rule.declarations[2].value
    );
}

#[test]
fn css_parser_rejects_bad_unit() {
    let mut css_parser = CSSParser {
        general_parser: GeneralParser {
            content: String::from("div { width: 20em; }"),
            current_position: 0,
        },
    };
    assert!(matches!(css_parser.parse(), Err(ParseError::InvalidUnit)));
}

#[test]
fn css_parser_rejects_bad_color() {
    let mut css_parser = CSSParser {
        general_parser: GeneralParser {
            content: String::from("div { color: #zz0000; }"),
            current_position: 0,
        },
    };
    assert!(matches!(css_parser.parse(), Err(ParseError::InvalidColor)));
}

#[test]
fn css_parser_rejects_garbage_selector() {
    let mut css_parser = CSSParser {
        general_parser: GeneralParser {
            content: String::from("div ! { }"),
            current_position: 0,
        },
    };
    assert!(matches!(css_parser.parse(), Err(ParseError::UnexpectedChar)));
}

#[test]
fn css_parser_sorts_selectors_by_specificity() {
    let mut css_parser = CSSParser {
        general_parser: GeneralParser {
            content: String::from("#answer, h1, .note { display: none; }"),
            current_position: 0,
        },
    };
    let sheet = css_parser.parse().unwrap();
    let sels = &sheet.rules[0].selectors;
    assert_eq!(3, sels.len());
    assert_eq!((0, 0, 1), sels[0].get_specificity());
    assert_eq!((0, 1, 0), sels[1].get_specificity());
    assert_eq!((1, 0, 0), sels[2].get_specificity());
}

#[test]
fn equal_specificity_selectors_keep_source_order() {
    let mut css_parser = CSSParser {
        general_parser: GeneralParser {
            content: String::from("h1, h2, h3 { display: none; }"),
            current_position: 0,
        },
    };
    let sheet = css_parser.parse().unwrap();
    let sels = &sheet.rules[0].selectors;
    assert_eq!(Some(String::from("h1")), sels[0].tag_name);
    assert_eq!(Some(String::from("h2")), sels[1].tag_name);
    assert_eq!(Some(String::from("h3")), sels[2].tag_name);
}
