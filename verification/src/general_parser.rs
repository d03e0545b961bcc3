//! A cursor over a text: peeking, popping and consuming runs of
//! characters. Positions count characters.

use vstd::prelude::*;
use vstd::string::StrSliceExecFns;

verus! {

/// A whitespace character, as Rust's `char::is_whitespace` defines
/// the White_Space property.
pub open spec fn spec_is_whitespace(c: char) -> bool {
    c == ' ' || c == '\t' || c == '\n' || c == '\u{b}' || c == '\u{c}' || c == '\r' || c
        == '\u{85}' || c == '\u{a0}' || c == '\u{1680}' || ('\u{2000}' <= c && c <= '\u{200a}') || c
        == '\u{2028}' || c == '\u{2029}' || c == '\u{202f}' || c == '\u{205f}' || c == '\u{3000}'
}

/// Whether a character is whitespace.
pub fn is_whitespace_char(c: char) -> (r: bool)
    ensures
        r == spec_is_whitespace(c),
{
    c == ' ' || c == '\t' || c == '\n' || c == '\u{b}' || c == '\u{c}' || c == '\r' || c
        == '\u{85}' || c == '\u{a0}' || c == '\u{1680}' || ('\u{2000}' <= c && c <= '\u{200a}') || c
        == '\u{2028}' || c == '\u{2029}' || c == '\u{202f}' || c == '\u{205f}' || c == '\u{3000}'
}

/// A text with a cursor; the position counts characters from the
/// start.
pub struct GeneralParser {
    pub content: String,
    pub current_position: usize,
}

impl GeneralParser {
    /// The cursor lies within the text.
    pub open spec fn wf(&self) -> bool {
        self.current_position <= self.content@.len()
    }

    /// The text from the cursor on matches the given prefix.
    pub open spec fn spec_starts_with(&self, s: Seq<char>) -> bool {
        &&& self.current_position + s.len() <= self.content@.len()
        &&& self.content@.subrange(
            self.current_position as int,
            self.current_position + s.len(),
        ) == s
    }

    /// The character under the cursor.
    pub fn peek_current_char(&self) -> (c: char)
        requires
            self.wf(),
            self.current_position < self.content@.len(),
        ensures
            c == self.content@[self.current_position as int],
    {
        self.content.as_str().get_char(self.current_position)
    }

    /// Whether the text from the cursor on starts with the given
    /// string.
    pub fn is_started_with(&self, starting_string: &str) -> (r: bool)
        requires
            self.wf(),
        ensures
            r == self.spec_starts_with(starting_string@),
    {
        let n = starting_string.unicode_len();
        let len = self.content.as_str().unicode_len();
        if n > len || self.current_position > len - n {
            proof {
                assert(!self.spec_starts_with(starting_string@));
            }
            return false;
        }
        let mut i: usize = 0;
        while i < n
            invariant
                i <= n,
                n == starting_string@.len(),
                len == self.content@.len(),
                self.current_position + n <= len,
                forall|j: int|
                    0 <= j < i ==> self.content@[self.current_position + j]
                        == starting_string@[j],
            decreases n - i,
        {
            if self.content.as_str().get_char(self.current_position + i)
                != starting_string.get_char(i) {
                proof {
                    assert(self.content@.subrange(
                        self.current_position as int,
                        self.current_position + n,
                    )[i as int] != starting_string@[i as int]);
                }
                return false;
            }
            i = i + 1;
        }
        proof {
            assert(self.content@.subrange(
                self.current_position as int,
                self.current_position + n,
            ) =~= starting_string@);
        }
        true
    }

    /// Whether the cursor has reached the end of the text.
    pub fn is_eof(&self) -> (r: bool)
        ensures
            r == (self.current_position >= self.content@.len()),
    {
        self.current_position >= self.content.as_str().unicode_len()
    }

    /// Pop the character under the cursor, advancing past it.
    pub fn pop_current_char(&mut self) -> (c: char)
        requires
            old(self).wf(),
            old(self).current_position < old(self).content@.len(),
        ensures
            final(self).wf(),
            c == old(self).content@[old(self).current_position as int],
            final(self).content == old(self).content,
            final(self).current_position == old(self).current_position + 1,
    {
        let current_char = self.peek_current_char();
        let len = self.content.as_str().unicode_len();
        proof {
            assert(self.current_position < len);
        }
        self.current_position = self.current_position + 1;
        current_char
    }

    /// Consume the longest run of characters the checker accepts,
    /// returning it.
    pub fn consume_while<F: Fn(char) -> bool>(&mut self, checker_function: F) -> (result: String)
        requires
            old(self).wf(),
            forall|c: char| #[trigger] call_requires(checker_function, (c,)),
        ensures
            final(self).wf(),
            final(self).content == old(self).content,
            final(self).current_position == old(self).current_position + result@.len(),
            final(self).current_position <= old(self).content@.len(),
            result@ == old(self).content@.subrange(
                old(self).current_position as int,
                old(self).current_position + result@.len(),
            ),
            forall|j: int|
                0 <= j < result@.len() ==> call_ensures(
                    checker_function,
                    (#[trigger] old(self).content@[old(self).current_position + j],),
                    true,
                ),
            final(self).current_position < old(self).content@.len() ==> call_ensures(
                checker_function,
                (old(self).content@[final(self).current_position as int],),
                false,
            ),
    {
        let start = self.current_position;
        let len = self.content.as_str().unicode_len();
        let mut pos = start;
        let mut stopped = false;
        while pos < len && !stopped
            invariant
                start <= pos <= len,
                len == self.content@.len(),
                start == self.current_position,
                self.wf(),
                forall|c: char| #[trigger] call_requires(checker_function, (c,)),
                forall|j: int|
                    start <= j < pos ==> call_ensures(
                        checker_function,
                        (#[trigger] self.content@[j],),
                        true,
                    ),
                stopped ==> pos < len && call_ensures(
                    checker_function,
                    (self.content@[pos as int],),
                    false,
                ),
            decreases len - pos, (if stopped { 0int } else { 1int }),
        {
            let c = self.content.as_str().get_char(pos);
            if checker_function(c) {
                pos = pos + 1;
            } else {
                stopped = true;
            }
        }
        let result = self.content.as_str().substring_char(start, pos).to_owned();
        self.current_position = pos;
        result
    }

    /// Consume any run of whitespace under the cursor.
    pub fn consume_whitespaces(&mut self)
        requires
            old(self).wf(),
        ensures
            final(self).wf(),
            final(self).content == old(self).content,
            old(self).current_position <= final(self).current_position <= old(
                self,
            ).content@.len(),
            forall|j: int|
                old(self).current_position <= j < final(self).current_position
                    ==> spec_is_whitespace(#[trigger] old(self).content@[j]),
            final(self).current_position < old(self).content@.len() ==> !spec_is_whitespace(
                old(self).content@[final(self).current_position as int],
            ),
    {
        let checker = |c: char| -> (b: bool)
            ensures
                b == spec_is_whitespace(c),
            { is_whitespace_char(c) };
        let ghost start = self.current_position as int;
        let ws = self.consume_while(checker);
        proof {
            assert forall|j: int|
                start <= j < self.current_position implies spec_is_whitespace(
                #[trigger] old(self).content@[j],
            ) by {
                assert(call_ensures(checker, (old(self).content@[start + (j - start)],), true));
            }
            if self.current_position < old(self).content@.len() {
                assert(call_ensures(
                    checker,
                    (old(self).content@[self.current_position as int],),
                    false,
                ));
            }
        }
    }
}

} // verus!
