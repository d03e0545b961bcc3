//! The stylesheet parser and the data types it produces.

pub mod color_value;
pub mod declaration;
pub mod declaration_value;
pub mod length_unit;
pub mod rule;
pub mod selector;
pub mod stylesheet;

use vstd::prelude::*;
use crate::css_parser::color_value::ColorValue;
use crate::css_parser::declaration::Declaration;
use crate::css_parser::declaration_value::DeclarationValue;
use crate::css_parser::declaration_value::ValueModel;
use crate::css_parser::length_unit::LengthUnit;
use crate::css_parser::rule::Rule;
use crate::css_parser::selector::Selector;
use crate::css_parser::selector::SelectorModel;
use crate::css_parser::selector::spec_lex_le;
use crate::css_parser::selector::spec_specificity;
use crate::css_parser::selector::specificity_le;
use crate::css_parser::stylesheet::Stylesheet;
use crate::general_parser::GeneralParser;
use crate::parse_error::ParseError;
use vstd::string::StrSliceExecFns;

verus! {

/// A character an identifier may hold: letters, digits, underscore or
/// hyphen.
pub open spec fn spec_is_identifier_char(c: char) -> bool {
    ('a' <= c && c <= 'z') || ('A' <= c && c <= 'Z') || ('0' <= c && c <= '9') || c == '_' || c
        == '-'
}

/// Whether a character may appear in an identifier.
pub fn is_valid_identifier_char(char: char) -> (r: bool)
    ensures
        r == spec_is_identifier_char(char),
{
    ('a' <= char && char <= 'z') || ('A' <= char && char <= 'Z') || ('0' <= char && char <= '9')
        || char == '_' || char == '-'
}

/// A decimal digit.
pub open spec fn spec_is_digit(c: char) -> bool {
    '0' <= c && c <= '9'
}

/// The value of a decimal digit.
pub open spec fn spec_digit_val(c: char) -> int {
    c as int - '0' as int
}

/// A hexadecimal digit.
pub open spec fn spec_is_hex_digit(c: char) -> bool {
    ('0' <= c && c <= '9') || ('a' <= c && c <= 'f') || ('A' <= c && c <= 'F')
}

/// The value of a hexadecimal digit.
pub open spec fn spec_hex_val(c: char) -> int {
    if '0' <= c && c <= '9' {
        c as int - '0' as int
    } else if 'a' <= c && c <= 'f' {
        10 + (c as int - 'a' as int)
    } else {
        10 + (c as int - 'A' as int)
    }
}

/// Where saturation of parsed lengths sets in.
pub open spec fn spec_sat_limit() -> int {
    1000000000000000
}

/// The number a run of decimal digits denotes, saturating at the
/// parse limit.
pub open spec fn spec_digits_sat(s: Seq<char>) -> int
    decreases s.len(),
{
    if s.len() == 0 {
        0
    } else {
        let p = spec_digits_sat(s.drop_last());
        if p >= 100000000000000 {
            spec_sat_limit()
        } else {
            p * 10 + spec_digit_val(s.last())
        }
    }
}

/// The value of a hexadecimal digit.
fn hex_val(c: char) -> (r: u8)
    requires
        spec_is_hex_digit(c),
    ensures
        r as int == spec_hex_val(c),
{
    if '0' <= c && c <= '9' {
        (c as u8) - ('0' as u8)
    } else if 'a' <= c && c <= 'f' {
        10 + ((c as u8) - ('a' as u8))
    } else {
        10 + ((c as u8) - ('A' as u8))
    }
}

/// The red, green and blue channels a six-digit hexadecimal color
/// denotes, two digits per channel.
pub fn convert_hex_to_rgb(hex: &str) -> (r: (u8, u8, u8))
    requires
        hex@.len() >= 6,
        forall|j: int| 0 <= j < 6 ==> spec_is_hex_digit(#[trigger] hex@[j]),
    ensures
        r.0 as int == spec_hex_val(hex@[0]) * 16 + spec_hex_val(hex@[1]),
        r.1 as int == spec_hex_val(hex@[2]) * 16 + spec_hex_val(hex@[3]),
        r.2 as int == spec_hex_val(hex@[4]) * 16 + spec_hex_val(hex@[5]),
{
    let r0 = hex_val(hex.get_char(0)) * 16 + hex_val(hex.get_char(1));
    let r1 = hex_val(hex.get_char(2)) * 16 + hex_val(hex.get_char(3));
    let r2 = hex_val(hex.get_char(4)) * 16 + hex_val(hex.get_char(5));
    (r0, r1, r2)
}

/// The end of the identifier run starting at `pos`: the first
/// position at or after it holding no identifier character.
pub open spec fn spec_ident_end(content: Seq<char>, pos: int) -> int
    decreases content.len() - pos,
{
    if pos < 0 || pos >= content.len() || !spec_is_identifier_char(content[pos]) {
        pos
    } else {
        spec_ident_end(content, pos + 1)
    }
}

proof fn lemma_ident_end_ge(content: Seq<char>, pos: int)
    ensures
        spec_ident_end(content, pos) >= pos,
        spec_ident_end(content, pos) <= vstd::math::max(pos, content.len() as int),
    decreases content.len() - pos,
{
    if !(pos < 0 || pos >= content.len() || !spec_is_identifier_char(content[pos])) {
        lemma_ident_end_ge(content, pos + 1);
    }
}

proof fn lemma_ident_end_at(content: Seq<char>, pos: int, e: int)
    requires
        0 <= pos <= e <= content.len(),
        forall|j: int| pos <= j < e ==> spec_is_identifier_char(#[trigger] content[j]),
        e < content.len() ==> !spec_is_identifier_char(content[e]),
    ensures
        spec_ident_end(content, pos) == e,
    decreases e - pos,
{
    if pos < e {
        lemma_ident_end_at(content, pos + 1, e);
    }
}

/// What parsing a simple selector from `pos` yields, given the parts
/// gathered so far: the selector's content and the position after it.
/// A dot opens a class, a hash an id, a star is the universal
/// selector, an identifier run is a tag name; anything else ends the
/// selector.
pub open spec fn spec_parse_selector(content: Seq<char>, pos: int, cur: SelectorModel) -> (
    SelectorModel,
    int,
)
    decreases content.len() - pos,
    via spec_parse_selector_dec
{
    if pos < 0 || pos >= content.len() {
        (cur, pos)
    } else {
        let c = content[pos];
        if c == '.' {
            let e = spec_ident_end(content, pos + 1);
            spec_parse_selector(
                content,
                e,
                SelectorModel { classes: cur.classes.push(content.subrange(pos + 1, e)), ..cur },
            )
        } else if c == '#' {
            let e = spec_ident_end(content, pos + 1);
            spec_parse_selector(
                content,
                e,
                SelectorModel { id: Some(content.subrange(pos + 1, e)), ..cur },
            )
        } else if c == '*' {
            spec_parse_selector(content, pos + 1, cur)
        } else if spec_is_identifier_char(c) {
            let e = spec_ident_end(content, pos);
            spec_parse_selector(
                content,
                e,
                SelectorModel { tag_name: Some(content.subrange(pos, e)), ..cur },
            )
        } else {
            (cur, pos)
        }
    }
}

/// The end of the digit run starting at `pos`: the first position at
/// or after it holding no decimal digit.
pub open spec fn spec_digit_end(content: Seq<char>, pos: int) -> int
    decreases content.len() - pos,
{
    if pos < 0 || pos >= content.len() || !spec_is_digit(content[pos]) {
        pos
    } else {
        spec_digit_end(content, pos + 1)
    }
}

proof fn lemma_digit_end_at(content: Seq<char>, pos: int, e: int)
    requires
        0 <= pos <= e <= content.len(),
        forall|j: int| pos <= j < e ==> spec_is_digit(#[trigger] content[j]),
        e < content.len() ==> !spec_is_digit(content[e]),
    ensures
        spec_digit_end(content, pos) == e,
    decreases e - pos,
{
    if pos < e {
        lemma_digit_end_at(content, pos + 1, e);
    }
}

/// The byte two hexadecimal digits at `i` denote.
pub open spec fn spec_hex_pair(content: Seq<char>, i: int) -> int {
    spec_hex_val(content[i]) * 16 + spec_hex_val(content[i + 1])
}

/// What a successful color parse from `pos` yields: the cursor was on
/// `#`, the following identifier run holds at least six hexadecimal
/// digits, and the value is their three channels with full alpha.
pub open spec fn spec_parsed_color(
    content: Seq<char>,
    p: int,
    dv: DeclarationValue,
    endpos: int,
) -> bool {
    let e = spec_ident_end(content, p + 1);
    &&& p < content.len() && content[p] == '#'
    &&& e >= p + 7
    &&& (forall|j: int| p + 1 <= j < p + 7 ==> spec_is_hex_digit(#[trigger] content[j]))
    &&& dv@ == ValueModel::Color(
        ColorValue {
            r: spec_hex_pair(content, p + 1) as u8,
            g: spec_hex_pair(content, p + 3) as u8,
            b: spec_hex_pair(content, p + 5) as u8,
            a: 255,
        },
    )
    &&& endpos == e
}

/// What a successful length parse from `pos` yields: the digit run's
/// saturated value in `Px` units, followed by the two-letter unit
/// `px` in any letter case.
pub open spec fn spec_parsed_length(
    content: Seq<char>,
    p: int,
    dv: DeclarationValue,
    endpos: int,
) -> bool {
    let de = spec_digit_end(content, p);
    let e = spec_ident_end(content, de);
    &&& dv@ == ValueModel::Length(10 * spec_digits_sat(content.subrange(p, de)))
    &&& e == de + 2
    &&& (content[de] == 'p' || content[de] == 'P')
    &&& (content[de + 1] == 'x' || content[de + 1] == 'X')
    &&& endpos == e
}

/// What a keyword parse from `pos` yields: the maximal identifier run.
pub open spec fn spec_parsed_keyword(
    content: Seq<char>,
    p: int,
    dv: DeclarationValue,
    endpos: int,
) -> bool {
    &&& dv@ == ValueModel::Keyword(content.subrange(p, spec_ident_end(content, p)))
    &&& endpos == spec_ident_end(content, p)
}

#[via_fn]
proof fn spec_parse_selector_dec(content: Seq<char>, pos: int, cur: SelectorModel) {
    lemma_ident_end_ge(content, pos + 1);
    if 0 <= pos < content.len() && spec_is_identifier_char(content[pos]) {
        assert(spec_ident_end(content, pos) == spec_ident_end(content, pos + 1));
    }
}

/// Reads style-rule text into a stylesheet.
pub struct CSSParser {
    pub general_parser: GeneralParser,
}

impl CSSParser {
    /// Parse a whole stylesheet: rules until the end of the text.
    pub fn parse(&mut self) -> (r: Result<Stylesheet, ParseError>)
        requires
            old(self).general_parser.wf(),
        ensures
            final(self).general_parser.wf(),
            final(self).general_parser.content == old(self).general_parser.content,
            match r {
                Ok(sheet) => forall|i: int|
                    0 <= i < sheet.rules.len() ==> sorted_selectors(#[trigger] sheet.rules[i]),
                Err(_) => true,
            },
    {
        let rules = match self.parser_rules() {
            Ok(rules) => rules,
            Err(e) => {
                return Err(e);
            },
        };
        Ok(Stylesheet { rules })
    }

    /// Parse rules until the end of the text.
    pub fn parser_rules(&mut self) -> (r: Result<Vec<Rule>, ParseError>)
        requires
            old(self).general_parser.wf(),
        ensures
            final(self).general_parser.wf(),
            final(self).general_parser.content == old(self).general_parser.content,
            match r {
                Ok(rules) => forall|i: int|
                    0 <= i < rules.len() ==> sorted_selectors(#[trigger] rules[i]),
                Err(_) => true,
            },
    {
        let mut rules: Vec<Rule> = Vec::new();
        loop
            invariant
                self.general_parser.wf(),
                self.general_parser.content == old(self).general_parser.content,
                forall|i: int| 0 <= i < rules.len() ==> sorted_selectors(#[trigger] rules[i]),
            decreases self.general_parser.content@.len() - self.general_parser.current_position,
        {
            if self.general_parser.is_eof() {
                break ;
            }
            self.general_parser.consume_whitespaces();
            let rule = match self.parse_rule() {
                Ok(rule) => rule,
                Err(e) => {
                    return Err(e);
                },
            };
            rules.push(rule);
        }
        Ok(rules)
    }

    /// Parse one rule: its selectors, then its declaration block.
    pub fn parse_rule(&mut self) -> (r: Result<Rule, ParseError>)
        requires
            old(self).general_parser.wf(),
        ensures
            final(self).general_parser.wf(),
            final(self).general_parser.content == old(self).general_parser.content,
            final(self).general_parser.current_position > old(self).general_parser.current_position
                || r is Err,
            match r {
                Ok(rule) => sorted_selectors(rule),
                Err(_) => true,
            },
    {
        let selectors = match self.parse_selectors() {
            Ok(s) => s,
            Err(e) => {
                return Err(e);
            },
        };
        let declarations = match self.parse_declarations() {
            Ok(d) => d,
            Err(e) => {
                return Err(e);
            },
        };
        Ok(Rule { selectors, declarations })
    }

    /// Parse a comma-separated selector list up to the opening `{`,
    /// and sort it ascending by specificity, equal specificities
    /// keeping their source order.
    pub fn parse_selectors(&mut self) -> (r: Result<Vec<Selector>, ParseError>)
        requires
            old(self).general_parser.wf(),
        ensures
            final(self).general_parser.wf(),
            final(self).general_parser.content == old(self).general_parser.content,
            final(self).general_parser.current_position >= old(
                self,
            ).general_parser.current_position,
            match r {
                Ok(sels) => forall|a: int, b: int|
                    0 <= a < b < sels.len() ==> spec_lex_le(
                        spec_specificity((#[trigger] sels[a])@),
                        spec_specificity((#[trigger] sels[b])@),
                    ),
                Err(_) => true,
            },
    {
        let mut selectors: Vec<Selector> = Vec::new();
        loop
            invariant
                self.general_parser.wf(),
                self.general_parser.content == old(self).general_parser.content,
                self.general_parser.current_position >= old(self).general_parser.current_position,
            decreases self.general_parser.content@.len() - self.general_parser.current_position,
        {
            let sel = self.parse_selector();
            selectors.push(sel);
            self.general_parser.consume_whitespaces();
            if self.general_parser.is_eof() {
                return Err(ParseError::UnexpectedEnd);
            }
            let c = self.general_parser.peek_current_char();
            if c == ',' {
                self.general_parser.pop_current_char();
                self.general_parser.consume_whitespaces();
            } else if c == '{' {
                break ;
            } else {
                return Err(ParseError::UnexpectedChar);
            }
        }
        let sorted = sort_selectors(selectors);
        Ok(sorted)
    }

    /// Parse one simple selector: class, id, universal and tag-name
    /// parts until a character that belongs to none of them.
    pub fn parse_selector(&mut self) -> (r: Selector)
        requires
            old(self).general_parser.wf(),
        ensures
            final(self).general_parser.wf(),
            final(self).general_parser.content == old(self).general_parser.content,
            final(self).general_parser.current_position >= old(
                self,
            ).general_parser.current_position,
            (r@, final(self).general_parser.current_position as int) == spec_parse_selector(
                old(self).general_parser.content@,
                old(self).general_parser.current_position as int,
                SelectorModel { tag_name: None, id: None, classes: Seq::empty() },
            ),
    {
        let mut selector = Selector { tag_name: None, id: None, classes: Vec::new() };
        proof {
            assert(selector@ == (SelectorModel {
                tag_name: None,
                id: None,
                classes: Seq::empty(),
            })) by {
                assert(selector.classes.deep_view() =~= Seq::<Seq<char>>::empty());
            }
        }
        let ghost content = self.general_parser.content@;
        let ghost pos0 = self.general_parser.current_position as int;
        loop
            invariant
                self.general_parser.wf(),
                self.general_parser.content@ == content,
                self.general_parser.content == old(self).general_parser.content,
                self.general_parser.current_position >= old(self).general_parser.current_position,
                spec_parse_selector(content, pos0, SelectorModel {
                    tag_name: None,
                    id: None,
                    classes: Seq::empty(),
                }) == spec_parse_selector(
                    content,
                    self.general_parser.current_position as int,
                    selector@,
                ),
            ensures
                self.general_parser.content@ == content,
                self.general_parser.content == old(self).general_parser.content,
                self.general_parser.wf(),
                self.general_parser.current_position >= old(self).general_parser.current_position,
                (selector@, self.general_parser.current_position as int) == spec_parse_selector(
                    content,
                    pos0,
                    SelectorModel { tag_name: None, id: None, classes: Seq::empty() },
                ),
            decreases self.general_parser.content@.len() - self.general_parser.current_position,
        {
            let ghost p = self.general_parser.current_position as int;
            let ghost cur = selector@;
            if self.general_parser.is_eof() {
                break ;
            }
            let c = self.general_parser.peek_current_char();
            if c == '.' {
                self.general_parser.pop_current_char();
                let class = self.consume_identifier();
                proof {
                    assert forall|j2: int|
                        p + 1 <= j2 < p + 1 + class@.len() implies spec_is_identifier_char(
                        #[trigger] content[j2],
                    ) by {
                        assert(spec_is_identifier_char(content[(p + 1) + (j2 - (p + 1))]));
                    }
                    lemma_ident_end_at(content, p + 1, p + 1 + class@.len());
                    assert(class@ =~= content.subrange(p + 1, spec_ident_end(content, p + 1)));
                }
                selector.classes.push(class);
                proof {
                    assert(selector@.classes =~= cur.classes.push(class@));
                    assert(selector@ == (SelectorModel {
                        classes: cur.classes.push(content.subrange(
                            p + 1,
                            spec_ident_end(content, p + 1),
                        )),
                        ..cur
                    }));
                }
            } else if c == '#' {
                self.general_parser.pop_current_char();
                let id = self.consume_identifier();
                proof {
                    assert forall|j2: int|
                        p + 1 <= j2 < p + 1 + id@.len() implies spec_is_identifier_char(
                        #[trigger] content[j2],
                    ) by {
                        assert(spec_is_identifier_char(content[(p + 1) + (j2 - (p + 1))]));
                    }
                    lemma_ident_end_at(content, p + 1, p + 1 + id@.len());
                    assert(id@ =~= content.subrange(p + 1, spec_ident_end(content, p + 1)));
                }
                selector.id = Some(id);
                proof {
                    assert(selector@ == (SelectorModel {
                        id: Some(content.subrange(p + 1, spec_ident_end(content, p + 1))),
                        ..cur
                    }));
                }
            } else if c == '*' {
                self.general_parser.pop_current_char();
            } else if is_valid_identifier_char(c) {
                let tag = self.consume_identifier();
                proof {
                    assert forall|j2: int|
                        p <= j2 < p + tag@.len() implies spec_is_identifier_char(
                        #[trigger] content[j2],
                    ) by {
                        assert(spec_is_identifier_char(content[p + (j2 - p)]));
                    }
                    lemma_ident_end_at(content, p, p + tag@.len());
                    assert(tag@ =~= content.subrange(p, spec_ident_end(content, p)));
                    assert(tag@.len() > 0);
                }
                selector.tag_name = Some(tag);
                proof {
                    assert(selector@ == (SelectorModel {
                        tag_name: Some(content.subrange(p, spec_ident_end(content, p))),
                        ..cur
                    }));
                }
            } else {
                break ;
            }
        }
        selector
    }

    /// Consume the maximal identifier run under the cursor.
    fn consume_identifier(&mut self) -> (r: String)
        requires
            old(self).general_parser.wf(),
        ensures
            final(self).general_parser.wf(),
            final(self).general_parser.content == old(self).general_parser.content,
            final(self).general_parser.current_position == old(
                self,
            ).general_parser.current_position + r@.len(),
            r@ == old(self).general_parser.content@.subrange(
                old(self).general_parser.current_position as int,
                old(self).general_parser.current_position + r@.len(),
            ),
            forall|j: int|
                0 <= j < r@.len() ==> spec_is_identifier_char(
                    #[trigger] old(self).general_parser.content@[old(
                        self,
                    ).general_parser.current_position + j],
                ),
            final(self).general_parser.current_position < old(self).general_parser.content@.len()
                ==> !spec_is_identifier_char(
                old(self).general_parser.content@[final(self).general_parser.current_position as int],
            ),
    {
        let checker = |c: char| -> (b: bool)
            ensures
                b == spec_is_identifier_char(c),
            { is_valid_identifier_char(c) };
        let r = self.general_parser.consume_while(checker);
        proof {
            assert forall|j: int|
                0 <= j < r@.len() implies spec_is_identifier_char(
                #[trigger] old(self).general_parser.content@[old(
                    self,
                ).general_parser.current_position + j],
            ) by {
                assert(call_ensures(
                    checker,
                    (old(self).general_parser.content@[old(self).general_parser.current_position
                        + j],),
                    true,
                ));
            }
            if self.general_parser.current_position < old(self).general_parser.content@.len() {
                assert(call_ensures(
                    checker,
                    (old(self).general_parser.content@[self.general_parser.current_position as int],),
                    false,
                ));
            }
        }
        r
    }

    /// Parse a `{ ... }` declaration block.
    pub fn parse_declarations(&mut self) -> (r: Result<Vec<Declaration>, ParseError>)
        requires
            old(self).general_parser.wf(),
        ensures
            final(self).general_parser.wf(),
            final(self).general_parser.content == old(self).general_parser.content,
            final(self).general_parser.current_position >= old(
                self,
            ).general_parser.current_position,
            r is Ok ==> final(self).general_parser.current_position > old(
                self,
            ).general_parser.current_position,
    {
        let mut declarations: Vec<Declaration> = Vec::new();
        match crate::html_parser::pop_expected(&mut self.general_parser, '{') {
            Ok(_) => {},
            Err(e) => {
                return Err(e);
            },
        }
        self.general_parser.consume_whitespaces();
        loop
            invariant
                self.general_parser.wf(),
                self.general_parser.content == old(self).general_parser.content,
                self.general_parser.current_position > old(self).general_parser.current_position,
            decreases self.general_parser.content@.len() - self.general_parser.current_position,
        {
            if self.general_parser.is_eof() {
                break ;
            }
            let d = match self.parse_declaration() {
                Ok(d) => d,
                Err(e) => {
                    return Err(e);
                },
            };
            declarations.push(d);
            self.general_parser.consume_whitespaces();
            if self.general_parser.is_eof() {
                return Err(ParseError::UnexpectedEnd);
            }
            if self.general_parser.peek_current_char() == '}' {
                self.general_parser.pop_current_char();
                break ;
            }
        }
        Ok(declarations)
    }

    /// Parse one `name: value;` declaration.
    pub fn parse_declaration(&mut self) -> (r: Result<Declaration, ParseError>)
        requires
            old(self).general_parser.wf(),
        ensures
            final(self).general_parser.wf(),
            final(self).general_parser.content == old(self).general_parser.content,
            final(self).general_parser.current_position >= old(
                self,
            ).general_parser.current_position,
            match r {
                Ok(d) => d.name@ == old(self).general_parser.content@.subrange(
                    old(self).general_parser.current_position as int,
                    spec_ident_end(
                        old(self).general_parser.content@,
                        old(self).general_parser.current_position as int,
                    ),
                ) && final(self).general_parser.current_position > old(
                    self,
                ).general_parser.current_position,
                Err(_) => true,
            },
    {
        let ghost content = self.general_parser.content@;
        let ghost p = self.general_parser.current_position as int;
        let name = self.consume_identifier();
        proof {
            assert forall|j2: int| p <= j2 < p + name@.len() implies spec_is_identifier_char(
                #[trigger] content[j2],
            ) by {
                assert(spec_is_identifier_char(content[p + (j2 - p)]));
            }
            lemma_ident_end_at(content, p, p + name@.len());
        }
        self.general_parser.consume_whitespaces();
        match crate::html_parser::pop_expected(&mut self.general_parser, ':') {
            Ok(_) => {},
            Err(e) => {
                return Err(e);
            },
        }
        self.general_parser.consume_whitespaces();
        let value = match self.parse_declaration_value() {
            Ok(v) => v,
            Err(e) => {
                return Err(e);
            },
        };
        match crate::html_parser::pop_expected(&mut self.general_parser, ';') {
            Ok(_) => {},
            Err(e) => {
                return Err(e);
            },
        }
        Ok(Declaration { name, value })
    }

    /// Parse a declaration value: a color after `#`, a length after a
    /// digit, a bare keyword otherwise.
    pub fn parse_declaration_value(&mut self) -> (r: Result<DeclarationValue, ParseError>)
        requires
            old(self).general_parser.wf(),
        ensures
            final(self).general_parser.wf(),
            final(self).general_parser.content == old(self).general_parser.content,
            final(self).general_parser.current_position >= old(
                self,
            ).general_parser.current_position,
            match r {
                Ok(dv) => ({
                    let content = old(self).general_parser.content@;
                    let p = old(self).general_parser.current_position as int;
                    let endpos = final(self).general_parser.current_position as int;
                    &&& p < content.len()
                    &&& (content[p] == '#' ==> spec_parsed_color(content, p, dv, endpos))
                    &&& (spec_is_digit(content[p]) ==> spec_parsed_length(content, p, dv, endpos))
                    &&& (content[p] != '#' && !spec_is_digit(content[p]) ==> spec_parsed_keyword(
                        content,
                        p,
                        dv,
                        endpos,
                    ))
                }),
                Err(_) => true,
            },
    {
        if self.general_parser.is_eof() {
            return Err(ParseError::UnexpectedEnd);
        }
        let c = self.general_parser.peek_current_char();
        if c == '#' {
            self.parse_color()
        } else if '0' <= c && c <= '9' {
            self.parse_length()
        } else {
            Ok(self.parse_keyword())
        }
    }

    /// Parse a `#rrggbb` color into its channels, with full alpha.
    pub fn parse_color(&mut self) -> (r: Result<DeclarationValue, ParseError>)
        requires
            old(self).general_parser.wf(),
        ensures
            final(self).general_parser.wf(),
            final(self).general_parser.content == old(self).general_parser.content,
            final(self).general_parser.current_position >= old(
                self,
            ).general_parser.current_position,
            match r {
                Ok(dv) => spec_parsed_color(
                    old(self).general_parser.content@,
                    old(self).general_parser.current_position as int,
                    dv,
                    final(self).general_parser.current_position as int,
                ),
                Err(_) => true,
            },
    {
        let ghost content = self.general_parser.content@;
        let ghost p = self.general_parser.current_position as int;
        match crate::html_parser::pop_expected(&mut self.general_parser, '#') {
            Ok(_) => {},
            Err(e) => {
                return Err(e);
            },
        }
        let hex_value = self.consume_identifier();
        proof {
            assert forall|j2: int|
                p + 1 <= j2 < p + 1 + hex_value@.len() implies spec_is_identifier_char(
                #[trigger] content[j2],
            ) by {
                assert(spec_is_identifier_char(content[(p + 1) + (j2 - (p + 1))]));
            }
            lemma_ident_end_at(content, p + 1, p + 1 + hex_value@.len());
        }
        let n = hex_value.as_str().unicode_len();
        if n < 6 {
            return Err(ParseError::InvalidColor);
        }
        let mut j: usize = 0;
        while j < 6
            invariant
                j <= 6,
                hex_value@.len() >= 6,
                self.general_parser.wf(),
                self.general_parser.content == old(self).general_parser.content,
                self.general_parser.current_position >= old(self).general_parser.current_position,
                forall|k: int| 0 <= k < j ==> spec_is_hex_digit(#[trigger] hex_value@[k]),
            decreases 6 - j,
        {
            let c = hex_value.as_str().get_char(j);
            if !(('0' <= c && c <= '9') || ('a' <= c && c <= 'f') || ('A' <= c && c <= 'F')) {
                return Err(ParseError::InvalidColor);
            }
            j = j + 1;
        }
        let (r0, g, b) = convert_hex_to_rgb(hex_value.as_str());
        proof {
            assert(forall|j: int| 0 <= j < 6 ==> #[trigger] hex_value@[j] == content[p + 1 + j]);
            assert(forall|j: int|
                p + 1 <= j < p + 7 ==> spec_is_hex_digit(#[trigger] content[j]));
        }
        Ok(DeclarationValue::Color(ColorValue { r: r0, g, b, a: 255 }))
    }

    /// Parse a pixel length: a run of digits and the unit `px` (any
    /// letter case). The number saturates at the parse limit.
    pub fn parse_length(&mut self) -> (r: Result<DeclarationValue, ParseError>)
        requires
            old(self).general_parser.wf(),
        ensures
            final(self).general_parser.wf(),
            final(self).general_parser.content == old(self).general_parser.content,
            final(self).general_parser.current_position >= old(
                self,
            ).general_parser.current_position,
            match r {
                Ok(dv) => spec_parsed_length(
                    old(self).general_parser.content@,
                    old(self).general_parser.current_position as int,
                    dv,
                    final(self).general_parser.current_position as int,
                ),
                Err(_) => true,
            },
    {
        let ghost content = self.general_parser.content@;
        let ghost start = self.general_parser.current_position as int;
        let mut acc: u64 = 0;
        let ghost mut k: int = 0;
        let mut done = false;
        while !done
            invariant
                self.general_parser.wf(),
                self.general_parser.content == old(self).general_parser.content,
                start == old(self).general_parser.current_position,
                self.general_parser.current_position == start + k,
                0 <= k,
                start + k <= self.general_parser.content@.len(),
                forall|j: int|
                    0 <= j < k ==> spec_is_digit(#[trigger] self.general_parser.content@[start + j]),
                acc as int == spec_digits_sat(
                    self.general_parser.content@.subrange(start, start + k),
                ),
                acc <= 1000000000000000,
                done ==> (start + k == self.general_parser.content@.len() || !spec_is_digit(
                    self.general_parser.content@[start + k],
                )),
            ensures
                acc as int == spec_digits_sat(
                    self.general_parser.content@.subrange(start, start + k),
                ),
                forall|j: int|
                    0 <= j < k ==> spec_is_digit(#[trigger] self.general_parser.content@[start + j]),
                0 <= k,
                start + k <= self.general_parser.content@.len(),
                self.general_parser.current_position == start + k,
                start + k < self.general_parser.content@.len() ==> !spec_is_digit(
                    self.general_parser.content@[start + k],
                ),
                self.general_parser.content == old(self).general_parser.content,
                self.general_parser.wf(),
                self.general_parser.current_position >= old(self).general_parser.current_position,
            decreases self.general_parser.content@.len() - self.general_parser.current_position
                + 1, (if done { 0int } else { 1int }),
        {
            if self.general_parser.is_eof() {
                done = true;
            } else {
                let c = self.general_parser.peek_current_char();
                if '0' <= c && c <= '9' {
                    self.general_parser.pop_current_char();
                    let d: u64 = (c as u64) - ('0' as u64);
                    let ghost run0 = self.general_parser.content@.subrange(start, start + k);
                    if acc >= 100000000000000 {
                        acc = 1000000000000000;
                    } else {
                        acc = acc * 10 + d;
                    }
                    proof {
                        k = k + 1;
                        let run = self.general_parser.content@.subrange(start, start + k);
                        assert(run.drop_last() =~= run0);
                        assert(run.last() == c);
                    }
                } else {
                    done = true;
                }
            }
        }
        proof {
            assert forall|j2: int| start <= j2 < start + k implies spec_is_digit(
                #[trigger] content[j2],
            ) by {
                assert(spec_is_digit(content[start + (j2 - start)]));
            }
            lemma_digit_end_at(content, start, start + k);
        }
        let ghost de = start + k;
        let unit = self.consume_identifier();
        proof {
            assert forall|j2: int|
                de <= j2 < de + unit@.len() implies spec_is_identifier_char(
                #[trigger] content[j2],
            ) by {
                assert(spec_is_identifier_char(content[de + (j2 - de)]));
            }
            lemma_ident_end_at(content, de, de + unit@.len());
        }
        let un = unit.as_str().unicode_len();
        if un != 2 {
            return Err(ParseError::InvalidUnit);
        }
        let u0 = unit.as_str().get_char(0);
        let u1 = unit.as_str().get_char(1);
        if !((u0 == 'p' || u0 == 'P') && (u1 == 'x' || u1 == 'X')) {
            return Err(ParseError::InvalidUnit);
        }
        proof {
            assert(content[de] == unit@[0] && content[de + 1] == unit@[1]);
        }
        let number: i64 = (acc as i64) * 10;
        Ok(DeclarationValue::Length(number, LengthUnit::Px))
    }

    /// Parse a bare keyword value: the maximal identifier run under
    /// the cursor.
    pub fn parse_keyword(&mut self) -> (r: DeclarationValue)
        requires
            old(self).general_parser.wf(),
        ensures
            final(self).general_parser.wf(),
            final(self).general_parser.content == old(self).general_parser.content,
            final(self).general_parser.current_position >= old(
                self,
            ).general_parser.current_position,
            spec_parsed_keyword(
                old(self).general_parser.content@,
                old(self).general_parser.current_position as int,
                r,
                final(self).general_parser.current_position as int,
            ),
    {
        let ghost content = self.general_parser.content@;
        let ghost p = self.general_parser.current_position as int;
        let keyword = self.consume_identifier();
        proof {
            assert forall|j2: int| p <= j2 < p + keyword@.len() implies spec_is_identifier_char(
                #[trigger] content[j2],
            ) by {
                assert(spec_is_identifier_char(content[p + (j2 - p)]));
            }
            lemma_ident_end_at(content, p, p + keyword@.len());
        }
        DeclarationValue::Keyword(keyword)
    }
}

/// A rule's selectors are stored ascending by specificity.
pub open spec fn sorted_selectors(rule: Rule) -> bool {
    forall|a: int, b: int|
        0 <= a < b < rule.selectors.len() ==> spec_lex_le(
            spec_specificity((#[trigger] rule.selectors[a])@),
            spec_specificity((#[trigger] rule.selectors[b])@),
        )
}

/// A selector placed into a specificity-sorted list: after every
/// element whose specificity does not exceed its own, so elements of
/// equal specificity keep their insertion order.
pub open spec fn spec_insert_by_specificity(s: Seq<Selector>, x: Selector) -> Seq<Selector>
    decreases s.len(),
{
    if s.len() == 0 {
        seq![x]
    } else if spec_lex_le(spec_specificity(s[0]@), spec_specificity(x@)) {
        seq![s[0]] + spec_insert_by_specificity(s.drop_first(), x)
    } else {
        seq![x] + s
    }
}

/// The stable sort of a selector list by specificity: each element in
/// turn inserted after its equals.
pub open spec fn spec_sort_by_specificity(s: Seq<Selector>) -> Seq<Selector>
    decreases s.len(),
{
    if s.len() == 0 {
        Seq::empty()
    } else {
        spec_insert_by_specificity(spec_sort_by_specificity(s.drop_last()), s.last())
    }
}

/// Inserting at the position after the longest prefix of elements
/// whose specificity does not exceed the new one is the stable
/// insertion.
proof fn lemma_insert_position(s: Seq<Selector>, x: Selector, pos: int)
    requires
        0 <= pos <= s.len(),
        forall|a: int|
            0 <= a < pos ==> spec_lex_le(
                spec_specificity((#[trigger] s[a])@),
                spec_specificity(x@),
            ),
        pos < s.len() ==> !spec_lex_le(spec_specificity(s[pos]@), spec_specificity(x@)),
    ensures
        spec_insert_by_specificity(s, x) == s.insert(pos, x),
    decreases s.len(),
{
    if s.len() == 0 {
        assert(spec_insert_by_specificity(s, x) =~= s.insert(0, x));
    } else if pos == 0 {
        assert(spec_insert_by_specificity(s, x) =~= s.insert(0, x));
    } else {
        lemma_insert_position(s.drop_first(), x, pos - 1);
        assert(seq![s[0]] + s.drop_first().insert(pos - 1, x) =~= s.insert(pos, x));
    }
}

/// Sort selectors ascending by specificity; equal specificities keep
/// their input order (each element is placed after the existing run of
/// elements that do not exceed it).
fn sort_selectors(v: Vec<Selector>) -> (r: Vec<Selector>)
    ensures
        r.len() == v.len(),
        r@ == spec_sort_by_specificity(v@),
        forall|a: int, b: int|
            0 <= a < b < r.len() ==> spec_lex_le(
                spec_specificity((#[trigger] r[a])@),
                spec_specificity((#[trigger] r[b])@),
            ),
{
    let mut out: Vec<Selector> = Vec::new();
    let mut src = v;
    let ghost n = src.len() as int;
    let ghost all = src@;
    loop
        invariant
            out.len() + src.len() == n,
            all.len() == n,
            src@ == all.skip(out.len() as int),
            out@ == spec_sort_by_specificity(all.take(out.len() as int)),
            forall|a: int, b: int|
                0 <= a < b < out.len() ==> spec_lex_le(
                    spec_specificity((#[trigger] out[a])@),
                    spec_specificity((#[trigger] out[b])@),
                ),
        ensures
            src.len() == 0,
            out.len() == n,
        decreases src.len(),
    {
        if src.len() == 0 {
            break ;
        }
        let ghost k = out.len() as int;
        let x = src.remove(0);
        proof {
            assert(x == all[k]);
            assert(src@ =~= all.skip(k + 1));
        }
        let xs = x.get_specificity();
        let mut pos: usize = 0;
        while pos < out.len() && specificity_le(out[pos].get_specificity(), xs)
            invariant
                pos <= out.len(),
                forall|a: int|
                    0 <= a < pos ==> spec_lex_le(
                        spec_specificity((#[trigger] out[a])@),
                        spec_specificity(x@),
                    ),
                (xs.0 as int, xs.1 as int, xs.2 as int) == spec_specificity(x@),
                forall|a: int, b: int|
                    0 <= a < b < out.len() ==> spec_lex_le(
                        spec_specificity((#[trigger] out[a])@),
                        spec_specificity((#[trigger] out[b])@),
                    ),
            decreases out.len() - pos,
        {
            pos = pos + 1;
        }
        let ghost out0 = out@;
        out.insert(pos, x);
        proof {
            out0.insert_ensures(pos as int, x);
            lemma_insert_position(out0, x, pos as int);
            assert(all.take(k + 1).drop_last() =~= all.take(k));
            assert(all.take(k + 1).last() == all[k]);
            assert(out@ == spec_sort_by_specificity(all.take(k + 1)));
            assert forall|a: int, b: int| 0 <= a < b < out.len() implies spec_lex_le(
                spec_specificity((#[trigger] out[a])@),
                spec_specificity((#[trigger] out[b])@),
            ) by {
                if pos < out0.len() {
                    assert(!spec_lex_le(spec_specificity(out0[pos as int]@), spec_specificity(x@)));
                    crate::css_parser::selector::lemma_specificity_total_order(
                        spec_specificity(x@),
                        spec_specificity(out0[pos as int]@),
                        spec_specificity(x@),
                    );
                }
                assert forall|c: int| pos <= c < out0.len() implies spec_lex_le(
                    spec_specificity(x@),
                    spec_specificity((#[trigger] out0[c])@),
                ) by {
                    crate::css_parser::selector::lemma_specificity_total_order(
                        spec_specificity(x@),
                        spec_specificity(out0[pos as int]@),
                        spec_specificity(out0[c]@),
                    );
                }
            }
        }
    }
    proof {
        assert(all.take(n) =~= all);
    }
    out
}

} // verus!
