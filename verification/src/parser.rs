//! The combined document parser: the cursor operations and the markup
//! grammar in one type. Each operation hands the work to the dedicated
//! cursor and document parsers.

use vstd::prelude::*;
use vstd::string::StrSliceExecFns;
use crate::general_parser::GeneralParser;
use crate::general_parser::spec_is_whitespace;
use crate::html_parser::HTMLParser;
use crate::html_parser::node::Node;
use crate::html_parser::spec_is_tag_char;
use crate::parse_error::ParseError;
use crate::str_map::StrMap;

verus! {

/// A text with a cursor and the markup grammar on top of it; the
/// position counts characters from the start.
pub struct Parser {
    pub content: String,
    pub current_position: usize,
}

impl Parser {
    /// The cursor lies within the text.
    pub open spec fn wf(&self) -> bool {
        self.current_position <= self.content@.len()
    }

    /// The character under the cursor.
    pub fn peek_current_char(&self) -> (c: char)
        requires
            self.wf(),
            self.current_position < self.content@.len(),
        ensures
            c == self.content@[self.current_position as int],
    {
        self.content.as_str().get_char(self.current_position)
    }

    /// Whether the text from the cursor on starts with the given
    /// string.
    pub fn is_started_with(&self, starting_string: &str) -> (r: bool)
        requires
            self.wf(),
        ensures
            r == (self.current_position + starting_string@.len() <= self.content@.len()
                && self.content@.subrange(
                self.current_position as int,
                self.current_position + starting_string@.len(),
            ) == starting_string@),
    {
        let gp = GeneralParser {
            content: self.content.clone(),
            current_position: self.current_position,
        };
        gp.is_started_with(starting_string)
    }

    /// Whether the cursor has reached the end of the text.
    pub fn is_eof(&self) -> (r: bool)
        ensures
            r == (self.current_position >= self.content@.len()),
    {
        self.current_position >= self.content.as_str().unicode_len()
    }

    /// Pop the character under the cursor, advancing past it.
    pub fn pop_current_char(&mut self) -> (c: char)
        requires
            old(self).wf(),
            old(self).current_position < old(self).content@.len(),
        ensures
            final(self).wf(),
            c == old(self).content@[old(self).current_position as int],
            final(self).content == old(self).content,
            final(self).current_position == old(self).current_position + 1,
    {
        let current_char = self.peek_current_char();
        let len = self.content.as_str().unicode_len();
        proof {
            assert(self.current_position < len);
        }
        self.current_position = self.current_position + 1;
        current_char
    }

    /// Consume the longest run of characters the checker accepts,
    /// returning it.
    pub fn consume_while<F: Fn(char) -> bool>(&mut self, checker_function: F) -> (result: String)
        requires
            old(self).wf(),
            forall|c: char| #[trigger] call_requires(checker_function, (c,)),
        ensures
            final(self).wf(),
            final(self).content == old(self).content,
            final(self).current_position == old(self).current_position + result@.len(),
            final(self).current_position <= old(self).content@.len(),
            result@ == old(self).content@.subrange(
                old(self).current_position as int,
                old(self).current_position + result@.len(),
            ),
            forall|j: int|
                0 <= j < result@.len() ==> call_ensures(
                    checker_function,
                    (#[trigger] old(self).content@[old(self).current_position + j],),
                    true,
                ),
            final(self).current_position < old(self).content@.len() ==> call_ensures(
                checker_function,
                (old(self).content@[final(self).current_position as int],),
                false,
            ),
    {
        let mut gp = self.take_general_parser();
        let result = gp.consume_while(checker_function);
        self.put_general_parser(gp);
        result
    }

    /// Consume any run of whitespace under the cursor.
    pub fn consume_whitespaces(&mut self)
        requires
            old(self).wf(),
        ensures
            final(self).wf(),
            final(self).content == old(self).content,
            old(self).current_position <= final(self).current_position <= old(
                self,
            ).content@.len(),
            forall|j: int|
                old(self).current_position <= j < final(self).current_position
                    ==> spec_is_whitespace(#[trigger] old(self).content@[j]),
            final(self).current_position < old(self).content@.len() ==> !spec_is_whitespace(
                old(self).content@[final(self).current_position as int],
            ),
    {
        let mut gp = self.take_general_parser();
        gp.consume_whitespaces();
        self.put_general_parser(gp);
    }

    /// Move the text out into a cursor value.
    fn take_general_parser(&mut self) -> (gp: GeneralParser)
        ensures
            gp.content == old(self).content,
            gp.current_position == old(self).current_position,
    {
        let mut content = String::new();
        core::mem::swap(&mut content, &mut self.content);
        GeneralParser { content, current_position: self.current_position }
    }

    /// Move the text back in from a cursor value.
    fn put_general_parser(&mut self, gp: GeneralParser)
        ensures
            final(self).content == gp.content,
            final(self).current_position == gp.current_position,
    {
        let GeneralParser { content, current_position } = gp;
        self.content = content;
        self.current_position = current_position;
    }

    /// Move the text out into a document parser.
    fn take_html_parser(&mut self) -> (hp: HTMLParser)
        ensures
            hp.general_parser.content == old(self).content,
            hp.general_parser.current_position == old(self).current_position,
    {
        let gp = self.take_general_parser();
        HTMLParser { general_parser: gp }
    }

    /// Move the text back in from a document parser.
    fn put_html_parser(&mut self, hp: HTMLParser)
        ensures
            final(self).content == hp.general_parser.content,
            final(self).current_position == hp.general_parser.current_position,
    {
        let HTMLParser { general_parser } = hp;
        self.put_general_parser(general_parser);
    }

    /// Consume and return the maximal run of tag-name characters under
    /// the cursor.
    pub fn parse_tag_name(&mut self) -> (r: String)
        requires
            old(self).wf(),
        ensures
            final(self).wf(),
            final(self).content == old(self).content,
            final(self).current_position == old(self).current_position + r@.len(),
            r@ == old(self).content@.subrange(
                old(self).current_position as int,
                old(self).current_position + r@.len(),
            ),
            forall|j: int|
                0 <= j < r@.len() ==> spec_is_tag_char(
                    #[trigger] old(self).content@[old(self).current_position + j],
                ),
    {
        let mut hp = self.take_html_parser();
        let r = hp.parse_tag_name();
        self.put_html_parser(hp);
        r
    }

    /// Parse child nodes until the end of the text or a closing tag.
    pub fn parse_nodes(&mut self) -> (r: Result<Vec<Node>, ParseError>)
        requires
            old(self).wf(),
        ensures
            final(self).wf(),
            final(self).content == old(self).content,
            final(self).current_position >= old(self).current_position,
            match r {
                Ok(nodes) => forall|i: int|
                    0 <= i < nodes.len() ==> (#[trigger] nodes[i]).wf(),
                Err(_) => true,
            },
    {
        let mut hp = self.take_html_parser();
        let r = hp.parse_nodes();
        self.put_html_parser(hp);
        r
    }

    /// Parse one node: an element if the cursor is on `<`, a text leaf
    /// otherwise.
    pub fn parse_node(&mut self) -> (r: Result<Node, ParseError>)
        requires
            old(self).wf(),
            old(self).current_position < old(self).content@.len(),
        ensures
            final(self).wf(),
            final(self).content == old(self).content,
            final(self).current_position >= old(self).current_position,
            match r {
                Ok(n) => n.wf() && final(self).current_position > old(self).current_position,
                Err(_) => true,
            },
    {
        let mut hp = self.take_html_parser();
        let r = hp.parse_node();
        self.put_html_parser(hp);
        r
    }

    /// Parse attributes up to the closing `>` of an opening tag.
    pub fn parse_attributes(&mut self) -> (r: Result<StrMap<String>, ParseError>)
        requires
            old(self).wf(),
        ensures
            final(self).wf(),
            final(self).content == old(self).content,
            final(self).current_position >= old(self).current_position,
            match r {
                Ok(attrs) => attrs.wf(),
                Err(_) => true,
            },
    {
        let mut hp = self.take_html_parser();
        let r = hp.parse_attributes();
        self.put_html_parser(hp);
        r
    }

    /// Parse one `name="value"` attribute; single or double quotes are
    /// accepted.
    pub fn parse_attribute(&mut self) -> (r: Result<(String, String), ParseError>)
        requires
            old(self).wf(),
        ensures
            final(self).wf(),
            final(self).content == old(self).content,
            final(self).current_position >= old(self).current_position,
            r is Ok ==> final(self).current_position > old(self).current_position,
    {
        let mut hp = self.take_html_parser();
        let r = hp.parse_attribute();
        self.put_html_parser(hp);
        r
    }

    /// Parse one element: opening tag with attributes, children, and
    /// the matching closing tag.
    pub fn parse_element(&mut self) -> (r: Result<Node, ParseError>)
        requires
            old(self).wf(),
        ensures
            final(self).wf(),
            final(self).content == old(self).content,
            final(self).current_position >= old(self).current_position,
            match r {
                Ok(n) => n.wf() && final(self).current_position > old(self).current_position,
                Err(_) => true,
            },
    {
        let mut hp = self.take_html_parser();
        let r = hp.parse_element();
        self.put_html_parser(hp);
        r
    }

    /// Parse a text leaf: everything up to the next `<`.
    pub fn parse_text(&mut self) -> (r: Node)
        requires
            old(self).wf(),
        ensures
            final(self).wf(),
            final(self).content == old(self).content,
            final(self).current_position >= old(self).current_position,
            r.wf(),
            r.children.len() == 0,
    {
        let mut hp = self.take_html_parser();
        let r = hp.parse_text();
        self.put_html_parser(hp);
        r
    }

    /// Parse a whole document: a single root node, or a synthetic
    /// wrapper element when the text holds several.
    pub fn parse(&mut self) -> (r: Result<Node, ParseError>)
        requires
            old(self).wf(),
        ensures
            final(self).wf(),
            match r {
                Ok(n) => n.wf(),
                Err(_) => true,
            },
    {
        let mut hp = self.take_html_parser();
        let r = hp.parse();
        self.put_html_parser(hp);
        r
    }
}

} // verus!
