//! An element's tag name and attributes, and the `id`/`class`
//! accessors selector matching relies on.

use vstd::prelude::*;
use vstd::string::StrSliceExecFns;
use vstd::string::StringExecFns;
use crate::str_map::StrMap;

verus! {

/// Index of the first space in `s`, or `s.len()` if there is none.
pub open spec fn first_space_idx(s: Seq<char>) -> int
    decreases s.len(),
{
    if s.len() == 0 {
        0
    } else if s[0] == ' ' {
        0
    } else {
        1 + first_space_idx(s.drop_first())
    }
}

/// The tokens of `s` between single spaces, in order; an empty string
/// has the single empty token.
pub open spec fn split_spaces(s: Seq<char>) -> Seq<Seq<char>>
    decreases s.len(),
{
    let i = first_space_idx(s);
    if 0 <= i < s.len() {
        seq![s.take(i)] + split_spaces(s.skip(i + 1))
    } else {
        seq![s]
    }
}

proof fn lemma_first_space_at(s: Seq<char>, k: int)
    requires
        0 <= k < s.len(),
        s[k] == ' ',
        forall|j: int| 0 <= j < k ==> s[j] != ' ',
    ensures
        first_space_idx(s) == k,
    decreases s.len(),
{
    if s[0] != ' ' {
        lemma_first_space_at(s.drop_first(), k - 1);
    }
}

proof fn lemma_first_space_none(s: Seq<char>)
    requires
        forall|j: int| 0 <= j < s.len() ==> s[j] != ' ',
    ensures
        first_space_idx(s) == s.len(),
    decreases s.len(),
{
    if s.len() > 0 {
        lemma_first_space_none(s.drop_first());
    }
}

/// An element: tag name plus attribute map.
pub struct ElementData {
    pub tag_name: String,
    pub attributes: StrMap<String>,
}

/// The class tokens of an element: its `class` attribute split at
/// spaces, or nothing when the attribute is absent.
pub open spec fn spec_classes(attrs: Map<Seq<char>, Seq<char>>) -> Seq<Seq<char>> {
    if attrs.contains_key("class"@) {
        split_spaces(attrs["class"@])
    } else {
        Seq::empty()
    }
}

impl ElementData {
    /// The attribute map's entry list is well formed.
    pub open spec fn wf(&self) -> bool {
        self.attributes.wf()
    }

    /// Pack a tag name and attributes into an element.
    pub fn new(tag_name: String, attributes: StrMap<String>) -> (r: ElementData)
        ensures
            r.tag_name == tag_name,
            r.attributes == attributes,
    {
        ElementData { tag_name, attributes }
    }

    /// The element's `id` attribute, if any.
    pub fn get_id(&self) -> (r: Option<&String>)
        requires
            self.wf(),
        ensures
            match r {
                Some(v) => self.attributes@.contains_key("id"@) && v@ == self.attributes@["id"@],
                None => !self.attributes@.contains_key("id"@),
            },
    {
        self.attributes.get("id")
    }

    /// The element's class tokens: the `class` attribute split at
    /// single spaces.
    pub fn get_classes(&self) -> (r: Vec<String>)
        requires
            self.wf(),
        ensures
            r.deep_view() == spec_classes(self.attributes@),
    {
        match self.attributes.get("class") {
            None => Vec::new(),
            Some(classes) => split_at_spaces(classes.as_str()),
        }
    }
}

/// Split a string at single spaces, keeping empty tokens, as the
/// element's class list is split.
pub fn split_at_spaces(s: &str) -> (r: Vec<String>)
    ensures
        r.deep_view() == split_spaces(s@),
{
    let len = s.unicode_len();
    let mut result: Vec<String> = Vec::new();
    let mut start: usize = 0;
    let mut i: usize = 0;
    proof {
        assert(s@.skip(0) =~= s@);
        assert(result.deep_view() =~= Seq::<Seq<char>>::empty());
        assert(result.deep_view() + split_spaces(s@) =~= split_spaces(s@));
    }
    while i < len
        invariant
            start <= i <= len,
            len == s@.len(),
            forall|j: int| start <= j < i ==> s@[j] != ' ',
            split_spaces(s@) == result.deep_view() + split_spaces(s@.skip(start as int)),
        decreases len - i,
    {
        if s.get_char(i) == ' ' {
            let token = s.substring_char(start, i).to_owned();
            proof {
                let tail = s@.skip(start as int);
                assert(forall|j: int| 0 <= j < i - start ==> tail[j] != ' ');
                lemma_first_space_at(tail, i - start);
                assert(tail.take(i - start) =~= s@.subrange(start as int, i as int));
                assert(tail.skip(i - start + 1) =~= s@.skip(i + 1));
                assert((result.deep_view() + seq![token@]) + split_spaces(s@.skip(i + 1))
                    =~= result.deep_view() + split_spaces(s@.skip(start as int)));
            }
            result.push(token);
            proof {
                assert(result.deep_view() =~= result.deep_view().drop_last() + seq![token@]);
            }
            start = i + 1;
        }
        i = i + 1;
    }
    let token = s.substring_char(start, len).to_owned();
    proof {
        let tail = s@.skip(start as int);
        assert(forall|j: int| 0 <= j < tail.len() ==> tail[j] != ' ');
        lemma_first_space_none(tail);
        assert(tail =~= s@.subrange(start as int, len as int));
    }
    result.push(token);
    proof {
        assert(result.deep_view() =~= result.deep_view().drop_last() + seq![token@]);
        assert(result.deep_view() =~= split_spaces(s@));
    }
    result
}

} // verus!
