//! The document parser and the node types it produces.

pub mod element_data;
pub mod node;
pub mod node_type;

use vstd::prelude::*;
use crate::general_parser::GeneralParser;
use crate::html_parser::node::Node;
use crate::parse_error::ParseError;
use crate::str_map::StrMap;
use crate::text::str_eq;

verus! {

/// A character a tag or attribute name may hold: an ASCII letter or
/// digit.
pub open spec fn spec_is_tag_char(c: char) -> bool {
    ('a' <= c && c <= 'z') || ('A' <= c && c <= 'Z') || ('0' <= c && c <= '9')
}

/// The end of the tag-name run starting at `pos`: the first position
/// at or after it holding no tag-name character.
pub open spec fn spec_tag_end(content: Seq<char>, pos: int) -> int
    decreases content.len() - pos,
{
    if pos < 0 || pos >= content.len() || !spec_is_tag_char(content[pos]) {
        pos
    } else {
        spec_tag_end(content, pos + 1)
    }
}

proof fn lemma_tag_end_at(content: Seq<char>, pos: int, e: int)
    requires
        0 <= pos <= e <= content.len(),
        forall|j: int| pos <= j < e ==> spec_is_tag_char(#[trigger] content[j]),
        e < content.len() ==> !spec_is_tag_char(content[e]),
    ensures
        spec_tag_end(content, pos) == e,
    decreases e - pos,
{
    if pos < e {
        lemma_tag_end_at(content, pos + 1, e);
    }
}

/// The first position at or after `pos` holding the given character,
/// or the text's length if there is none.
pub open spec fn spec_find_char(content: Seq<char>, pos: int, q: char) -> int
    decreases content.len() - pos,
{
    if pos < 0 || pos >= content.len() || content[pos] == q {
        pos
    } else {
        spec_find_char(content, pos + 1, q)
    }
}

proof fn lemma_find_char_at(content: Seq<char>, pos: int, e: int, q: char)
    requires
        0 <= pos <= e <= content.len(),
        forall|j: int| pos <= j < e ==> #[trigger] content[j] != q,
        e < content.len() ==> content[e] == q,
    ensures
        spec_find_char(content, pos, q) == e,
    decreases e - pos,
{
    if pos < e {
        lemma_find_char_at(content, pos + 1, e, q);
    }
}

/// Pop one character and demand that it be the expected one.
pub(crate) fn pop_expected(gp: &mut GeneralParser, expected: char) -> (r: Result<(), ParseError>)
    requires
        old(gp).wf(),
    ensures
        final(gp).wf(),
        final(gp).content == old(gp).content,
        match r {
            Ok(_) => old(gp).current_position < old(gp).content@.len() && old(gp).content@[old(
                gp,
            ).current_position as int] == expected && final(gp).current_position == old(
                gp,
            ).current_position + 1,
            Err(_) => final(gp).current_position == old(gp).current_position,
        },
{
    if gp.is_eof() {
        return Err(ParseError::UnexpectedEnd);
    }
    let c = gp.peek_current_char();
    if c != expected {
        return Err(ParseError::UnexpectedChar);
    }
    gp.pop_current_char();
    Ok(())
}

/// Reads markup text into a document tree.
pub struct HTMLParser {
    pub general_parser: GeneralParser,
}

impl HTMLParser {
    /// Consume and return the maximal run of tag-name characters under
    /// the cursor.
    pub fn parse_tag_name(&mut self) -> (r: String)
        requires
            old(self).general_parser.wf(),
        ensures
            final(self).general_parser.wf(),
            final(self).general_parser.content == old(self).general_parser.content,
            final(self).general_parser.current_position == old(
                self,
            ).general_parser.current_position + r@.len(),
            final(self).general_parser.current_position <= old(
                self,
            ).general_parser.content@.len(),
            r@ == old(self).general_parser.content@.subrange(
                old(self).general_parser.current_position as int,
                old(self).general_parser.current_position + r@.len(),
            ),
            forall|j: int|
                0 <= j < r@.len() ==> spec_is_tag_char(
                    #[trigger] old(self).general_parser.content@[old(
                        self,
                    ).general_parser.current_position + j],
                ),
            final(self).general_parser.current_position < old(self).general_parser.content@.len()
                ==> !spec_is_tag_char(
                old(self).general_parser.content@[final(self).general_parser.current_position as int],
            ),
    {
        let checker = |c: char| -> (b: bool)
            ensures
                b == spec_is_tag_char(c),
            {
                ('a' <= c && c <= 'z') || ('A' <= c && c <= 'Z') || ('0' <= c && c <= '9')
            };
        let r = self.general_parser.consume_while(checker);
        proof {
            assert forall|j: int|
                0 <= j < r@.len() implies spec_is_tag_char(
                #[trigger] old(self).general_parser.content@[old(
                    self,
                ).general_parser.current_position + j],
            ) by {
                assert(call_ensures(
                    checker,
                    (old(self).general_parser.content@[old(self).general_parser.current_position
                        + j],),
                    true,
                ));
            }
            if self.general_parser.current_position < old(
                self,
            ).general_parser.content@.len() {
                assert(call_ensures(
                    checker,
                    (old(self).general_parser.content@[self.general_parser.current_position as int],),
                    false,
                ));
            }
        }
        r
    }

    /// Parse child nodes until the end of the text or a closing tag.
    pub fn parse_nodes(&mut self) -> (r: Result<Vec<Node>, ParseError>)
        requires
            old(self).general_parser.wf(),
        ensures
            final(self).general_parser.wf(),
            final(self).general_parser.content == old(self).general_parser.content,
            final(self).general_parser.current_position >= old(
                self,
            ).general_parser.current_position,
            match r {
                Ok(nodes) => forall|i: int|
                    0 <= i < nodes.len() ==> (#[trigger] nodes[i]).wf(),
                Err(_) => true,
            },
        decreases old(self).general_parser.content@.len() - old(
            self,
        ).general_parser.current_position, 2int,
    {
        let mut nodes: Vec<Node> = Vec::new();
        loop
            invariant
                self.general_parser.wf(),
                self.general_parser.content == old(self).general_parser.content,
                self.general_parser.current_position >= old(self).general_parser.current_position,
                forall|i: int| 0 <= i < nodes.len() ==> (#[trigger] nodes[i]).wf(),
            decreases self.general_parser.content@.len() - self.general_parser.current_position,
        {
            if self.general_parser.is_eof() {
                break ;
            }
            if self.general_parser.is_started_with("</") {
                break ;
            }
            self.general_parser.consume_whitespaces();
            if self.general_parser.is_eof() {
                return Err(ParseError::UnexpectedEnd);
            }
            let node = match self.parse_node() {
                Ok(n) => n,
                Err(e) => {
                    return Err(e);
                },
            };
            nodes.push(node);
        }
        Ok(nodes)
    }

    /// Parse one node: an element if the cursor is on `<`, a text leaf
    /// otherwise.
    pub fn parse_node(&mut self) -> (r: Result<Node, ParseError>)
        requires
            old(self).general_parser.wf(),
            old(self).general_parser.current_position < old(self).general_parser.content@.len(),
        ensures
            final(self).general_parser.wf(),
            final(self).general_parser.content == old(self).general_parser.content,
            final(self).general_parser.current_position >= old(
                self,
            ).general_parser.current_position,
            match r {
                Ok(n) => n.wf() && final(self).general_parser.current_position > old(
                    self,
                ).general_parser.current_position,
                Err(_) => true,
            },
        decreases old(self).general_parser.content@.len() - old(
            self,
        ).general_parser.current_position, 1int,
    {
        if self.general_parser.peek_current_char() == '<' {
            self.parse_element()
        } else {
            Ok(self.parse_text())
        }
    }

    /// Parse attributes up to the closing `>` of an opening tag.
    pub fn parse_attributes(&mut self) -> (r: Result<StrMap<String>, ParseError>)
        requires
            old(self).general_parser.wf(),
        ensures
            final(self).general_parser.wf(),
            final(self).general_parser.content == old(self).general_parser.content,
            final(self).general_parser.current_position >= old(
                self,
            ).general_parser.current_position,
            match r {
                Ok(attrs) => attrs.wf() && final(self).general_parser.current_position < final(self).general_parser.content@.len() && final(self).general_parser.content@[final(self).general_parser.current_position as int] == '>',
                Err(_) => true,
            },
    {
        let mut name_value_pairs: StrMap<String> = StrMap::new();
        loop
            invariant
                self.general_parser.wf(),
                self.general_parser.content == old(self).general_parser.content,
                self.general_parser.current_position >= old(self).general_parser.current_position,
                name_value_pairs.wf(),
            ensures
                self.general_parser.current_position < self.general_parser.content@.len(),
                self.general_parser.content@[self.general_parser.current_position as int] == '>',
            decreases self.general_parser.content@.len() - self.general_parser.current_position,
        {
            if self.general_parser.is_eof() {
                return Err(ParseError::UnexpectedEnd);
            }
            if self.general_parser.peek_current_char() == '>' {
                break ;
            }
            self.general_parser.consume_whitespaces();
            let (name, value) = match self.parse_attribute() {
                Ok(p) => p,
                Err(e) => {
                    return Err(e);
                },
            };
            name_value_pairs.insert(name, value);
        }
        Ok(name_value_pairs)
    }

    /// Parse one `name="value"` attribute; single or double quotes are
    /// accepted.
    pub fn parse_attribute(&mut self) -> (r: Result<(String, String), ParseError>)
        requires
            old(self).general_parser.wf(),
        ensures
            final(self).general_parser.wf(),
            final(self).general_parser.content == old(self).general_parser.content,
            final(self).general_parser.current_position >= old(
                self,
            ).general_parser.current_position,
            match r {
                Ok(pair) => ({
                    let content = old(self).general_parser.content@;
                    let p = old(self).general_parser.current_position as int;
                    let te = spec_tag_end(content, p);
                    let q = content[te + 1];
                    let ve = spec_find_char(content, te + 2, q);
                    &&& pair.0@ == content.subrange(p, te)
                    &&& te + 1 < content.len() && content[te] == '='
                    &&& (q == '"' || q == '\'')
                    &&& pair.1@ == content.subrange(te + 2, ve)
                    &&& ve < content.len() && content[ve] == q
                    &&& final(self).general_parser.current_position == ve + 1
                }),
                Err(_) => true,
            },
            r is Ok ==> final(self).general_parser.current_position > old(
                self,
            ).general_parser.current_position,
    {
        let ghost content = self.general_parser.content@;
        let ghost p = self.general_parser.current_position as int;
        let name = self.parse_tag_name();
        proof {
            assert forall|j2: int| p <= j2 < p + name@.len() implies spec_is_tag_char(
                #[trigger] content[j2],
            ) by {
                assert(spec_is_tag_char(content[p + (j2 - p)]));
            }
            lemma_tag_end_at(content, p, p + name@.len());
        }
        match pop_expected(&mut self.general_parser, '=') {
            Ok(_) => {},
            Err(e) => {
                return Err(e);
            },
        }
        if self.general_parser.is_eof() {
            return Err(ParseError::UnexpectedEnd);
        }
        let open_quote = self.general_parser.pop_current_char();
        if open_quote != '"' && open_quote != '\'' {
            return Err(ParseError::UnexpectedChar);
        }
        let ghost vstart = self.general_parser.current_position as int;
        let checker = |c: char| -> (b: bool)
            ensures
                b == (c != open_quote),
            { c != open_quote };
        let value = self.general_parser.consume_while(checker);
        proof {
            assert forall|j2: int|
                vstart <= j2 < vstart + value@.len() implies #[trigger] content[j2]
                != open_quote by {
                assert(call_ensures(checker, (content[vstart + (j2 - vstart)],), true));
            }
            if self.general_parser.current_position < content.len() {
                assert(call_ensures(
                    checker,
                    (content[self.general_parser.current_position as int],),
                    false,
                ));
            }
            lemma_find_char_at(
                content,
                vstart,
                vstart + value@.len(),
                open_quote,
            );
        }
        match pop_expected(&mut self.general_parser, open_quote) {
            Ok(_) => {},
            Err(e) => {
                return Err(e);
            },
        }
        Ok((name, value))
    }

    /// Parse one element: opening tag with attributes, children, and
    /// the matching closing tag.
    pub fn parse_element(&mut self) -> (r: Result<Node, ParseError>)
        requires
            old(self).general_parser.wf(),
        ensures
            final(self).general_parser.wf(),
            final(self).general_parser.content == old(self).general_parser.content,
            final(self).general_parser.current_position >= old(
                self,
            ).general_parser.current_position,
            match r {
                Ok(n) => n.wf() && final(self).general_parser.current_position > old(
                    self,
                ).general_parser.current_position,
                Err(_) => true,
            },
        decreases old(self).general_parser.content@.len() - old(
            self,
        ).general_parser.current_position, 0int,
    {
        match pop_expected(&mut self.general_parser, '<') {
            Ok(_) => {},
            Err(e) => {
                return Err(e);
            },
        }
        let tag_name = self.parse_tag_name();
        let attributes = match self.parse_attributes() {
            Ok(a) => a,
            Err(e) => {
                return Err(e);
            },
        };
        match pop_expected(&mut self.general_parser, '>') {
            Ok(_) => {},
            Err(e) => {
                return Err(e);
            },
        }
        let children = match self.parse_nodes() {
            Ok(c) => c,
            Err(e) => {
                return Err(e);
            },
        };
        match pop_expected(&mut self.general_parser, '<') {
            Ok(_) => {},
            Err(e) => {
                return Err(e);
            },
        }
        match pop_expected(&mut self.general_parser, '/') {
            Ok(_) => {},
            Err(e) => {
                return Err(e);
            },
        }
        let closing = self.parse_tag_name();
        if !str_eq(closing.as_str(), tag_name.as_str()) {
            return Err(ParseError::MismatchedClosingTag);
        }
        match pop_expected(&mut self.general_parser, '>') {
            Ok(_) => {},
            Err(e) => {
                return Err(e);
            },
        }
        Ok(Node::new_element(tag_name, attributes, children))
    }

    /// Parse a text leaf: everything up to the next `<`.
    pub fn parse_text(&mut self) -> (r: Node)
        requires
            old(self).general_parser.wf(),
        ensures
            final(self).general_parser.wf(),
            final(self).general_parser.content == old(self).general_parser.content,
            final(self).general_parser.current_position >= old(
                self,
            ).general_parser.current_position,
            r.wf(),
            r.children.len() == 0,
            match r.node_type {
                crate::html_parser::node_type::NodeType::Text(t) => {
                    &&& t@ == old(self).general_parser.content@.subrange(
                        old(self).general_parser.current_position as int,
                        old(self).general_parser.current_position + t@.len(),
                    )
                    &&& final(self).general_parser.current_position == old(
                        self,
                    ).general_parser.current_position + t@.len()
                    &&& (final(self).general_parser.current_position < old(
                        self,
                    ).general_parser.content@.len() ==> old(self).general_parser.content@[final(self).general_parser.current_position as int] == '<')
                },
                _ => false,
            },
            old(self).general_parser.current_position < old(self).general_parser.content@.len()
                && old(self).general_parser.content@[old(self).general_parser.current_position as int]
                != '<' ==> final(self).general_parser.current_position > old(
                self,
            ).general_parser.current_position,
    {
        let checker = |c: char| -> (b: bool)
            ensures
                b == (c != '<'),
            { c != '<' };
        let text = self.general_parser.consume_while(checker);
        proof {
            if self.general_parser.current_position < old(
                self,
            ).general_parser.content@.len() {
                assert(call_ensures(
                    checker,
                    (old(self).general_parser.content@[self.general_parser.current_position as int],),
                    false,
                ));
            }
            if old(self).general_parser.current_position < old(
                self,
            ).general_parser.content@.len() && old(self).general_parser.content@[old(
                self,
            ).general_parser.current_position as int] != '<' {
                if text@.len() == 0 {
                    assert(call_ensures(
                        checker,
                        (old(self).general_parser.content@[old(
                            self,
                        ).general_parser.current_position as int],),
                        false,
                    ));
                }
            }
        }
        Node::new_text(text)
    }

    /// Parse a whole document: a single root node, or a synthetic
    /// wrapper element when the text holds several.
    pub fn parse(&mut self) -> (r: Result<Node, ParseError>)
        requires
            old(self).general_parser.wf(),
        ensures
            final(self).general_parser.wf(),
            match r {
                Ok(n) => n.wf(),
                Err(_) => true,
            },
    {
        let mut nodes = match self.parse_nodes() {
            Ok(n) => n,
            Err(e) => {
                return Err(e);
            },
        };
        if nodes.len() == 1 {
            Ok(nodes.swap_remove(0))
        } else {
            proof {
                assert(forall|i: int|
                    0 <= i < nodes.len() ==> (#[trigger] nodes[i]).wf());
            }
            Ok(Node::new_element("html_parser".to_owned(), StrMap::new(), nodes))
        }
    }
}

} // verus!
