//! Matching rules against elements and resolving the cascade.

pub mod styled_node;

use vstd::prelude::*;
use crate::css_parser::rule::Rule;
use crate::css_parser::rule::RuleModel;
use crate::css_parser::selector::Selector;
use crate::css_parser::selector::SelectorModel;
use crate::css_parser::selector::spec_specificity;
use crate::css_parser::selector::spec_lex_le;
use crate::html_parser::element_data::ElementData;
use crate::html_parser::element_data::spec_classes;
use crate::css_parser::declaration_value::ValueModel;
use crate::css_parser::declaration_value::DeclarationValue;
use crate::css_parser::stylesheet::Stylesheet;
use crate::str_map::StrMap;
use crate::html_parser::node::Node;
use crate::html_parser::node_type::NodeType;
use crate::style_tree_builder::styled_node::StyledModel;
use crate::style_tree_builder::styled_node::StyledNode;

verus! {

broadcast use vstd::std_specs::vec::axiom_vec_index_decreases;

/// A tag constraint holds when absent or equal to the element's tag.
pub open spec fn spec_tag_matches(sel: Option<Seq<char>>, tag: Seq<char>) -> bool {
    match sel {
        Some(t) => t == tag,
        None => true,
    }
}

/// The element's `id` attribute, if present.
pub open spec fn spec_id_of(attrs: Map<Seq<char>, Seq<char>>) -> Option<Seq<char>> {
    if attrs.contains_key("id"@) {
        Some(attrs["id"@])
    } else {
        None
    }
}

/// An id constraint holds when absent or equal to the element's id; an
/// element without an id never satisfies a present id constraint.
pub open spec fn spec_id_matches(sel: Option<Seq<char>>, id: Option<Seq<char>>) -> bool {
    match sel {
        Some(s) => id == Some(s),
        None => true,
    }
}

/// Every required class occurs among the element's classes; extra
/// classes on the element are irrelevant, and no required classes
/// always holds.
pub open spec fn spec_classes_match(required: Seq<Seq<char>>, have: Seq<Seq<char>>) -> bool {
    forall|i: int| 0 <= i < required.len() ==> have.contains(#[trigger] required[i])
}

/// A selector matches an element exactly when all three constraints
/// hold.
pub open spec fn spec_selector_matches(sel: SelectorModel, e: ElementData) -> bool {
    &&& spec_tag_matches(sel.tag_name, e.tag_name@)
    &&& spec_id_matches(sel.id, spec_id_of(e.attributes@))
    &&& spec_classes_match(sel.classes, spec_classes(e.attributes@))
}

/// The three constraints gate a match independently: the match is
/// their conjunction, and an absent constraint never blocks.
pub proof fn lemma_selector_gates(sel: SelectorModel, e: ElementData)
    ensures
        spec_selector_matches(sel, e) <==> (spec_tag_matches(sel.tag_name, e.tag_name@)
            && spec_id_matches(sel.id, spec_id_of(e.attributes@)) && spec_classes_match(
            sel.classes,
            spec_classes(e.attributes@),
        )),
        sel.tag_name is None ==> spec_tag_matches(sel.tag_name, e.tag_name@),
        sel.id is None ==> spec_id_matches(sel.id, spec_id_of(e.attributes@)),
        sel.classes.len() == 0 ==> spec_classes_match(sel.classes, spec_classes(e.attributes@)),
{
}

/// An element that gains an extra class still matches every class
/// requirement it matched before.
pub proof fn lemma_extra_class_keeps_match(required: Seq<Seq<char>>, have: Seq<Seq<char>>, extra: Seq<char>)
    requires
        spec_classes_match(required, have),
    ensures
        spec_classes_match(required, have.push(extra)),
{
    assert forall|i: int| 0 <= i < required.len() implies have.push(extra).contains(
        #[trigger] required[i],
    ) by {
        let j = choose|j: int| 0 <= j < have.len() && have[j] == required[i];
        assert(have.push(extra)[j] == required[i]);
    }
}

/// Whether the selector's tag constraint accepts the element's tag.
pub fn check_if_tags_matched(tag_in_selector: &Option<String>, tag_in_element: &String) -> (r:
    bool)
    ensures
        r == spec_tag_matches(
            match tag_in_selector {
                Some(t) => Some(t@),
                None => None,
            },
            tag_in_element@,
        ),
{
    match tag_in_selector {
        Some(t) => crate::text::str_eq(t.as_str(), tag_in_element.as_str()),
        None => true,
    }
}

/// Whether the selector's id constraint accepts the element's id.
pub fn check_if_ids_matched(id_in_selector: &Option<String>, id_in_element: &Option<&String>) -> (r:
    bool)
    ensures
        r == spec_id_matches(
            match id_in_selector {
                Some(s) => Some(s@),
                None => None,
            },
            match id_in_element {
                Some(s) => Some(s@),
                None => None,
            },
        ),
{
    match id_in_selector {
        Some(s) => match id_in_element {
            Some(e) => crate::text::str_eq(s.as_str(), e.as_str()),
            None => false,
        },
        None => true,
    }
}

/// Whether every class the selector requires occurs in the element's
/// class list.
pub fn check_if_classes_matched(classes_in_selector: &Vec<String>, classes_in_element: &Vec<
    String,
>) -> (r: bool)
    ensures
        r == spec_classes_match(classes_in_selector.deep_view(), classes_in_element.deep_view()),
{
    let n = classes_in_selector.len();
    let mut i: usize = 0;
    while i < n
        invariant
            i <= n,
            n == classes_in_selector.len(),
            forall|k: int|
                0 <= k < i ==> classes_in_element.deep_view().contains(
                    #[trigger] classes_in_selector.deep_view()[k],
                ),
        decreases n - i,
    {
        let required = &classes_in_selector[i];
        let m = classes_in_element.len();
        let mut j: usize = 0;
        let mut found = false;
        while j < m
            invariant
                j <= m,
                m == classes_in_element.len(),
                i < n,
                n == classes_in_selector.len(),
                !found ==> forall|k: int|
                    0 <= k < j ==> classes_in_element.deep_view()[k] != required@,
                found ==> classes_in_element.deep_view().contains(required@),
                *required == classes_in_selector[i as int],
            decreases m - j,
        {
            if crate::text::str_eq(classes_in_element[j].as_str(), required.as_str()) {
                proof {
                    assert(classes_in_element.deep_view()[j as int] == required@);
                }
                found = true;
                j = m;
            } else {
                j = j + 1;
            }
        }
        if !found {
            proof {
                assert(forall|k: int|
                    0 <= k < classes_in_element.deep_view().len()
                        ==> classes_in_element.deep_view()[k] != required@);
                assert(!spec_classes_match(
                    classes_in_selector.deep_view(),
                    classes_in_element.deep_view(),
                )) by {
                    assert(classes_in_selector.deep_view()[i as int] == required@);
                }
            }
            return false;
        }
        i = i + 1;
    }
    true
}

/// Index of the first selector in stored order that matches the
/// element, or the list's length if none does.
pub open spec fn spec_first_match_idx(sels: Seq<SelectorModel>, e: ElementData) -> int
    decreases sels.len(),
{
    if sels.len() == 0 {
        0
    } else if spec_selector_matches(sels[0], e) {
        0
    } else {
        1 + spec_first_match_idx(sels.drop_first(), e)
    }
}

/// A rule applies to an element when any one of its selectors matches.
pub open spec fn spec_rule_applies(r: RuleModel, e: ElementData) -> bool {
    exists|i: int| 0 <= i < r.selectors.len() && spec_selector_matches(#[trigger] r.selectors[i], e)
}

/// The specificity credited to an applicable rule: that of the first
/// matching selector in the order the selectors are stored.
pub open spec fn spec_rule_specificity(r: RuleModel, e: ElementData) -> (int, int, int) {
    spec_specificity(r.selectors[spec_first_match_idx(r.selectors, e)])
}

proof fn lemma_first_match_at(sels: Seq<SelectorModel>, e: ElementData, k: int)
    requires
        0 <= k < sels.len(),
        spec_selector_matches(sels[k], e),
        forall|j: int| 0 <= j < k ==> !spec_selector_matches(#[trigger] sels[j], e),
    ensures
        spec_first_match_idx(sels, e) == k,
    decreases sels.len(),
{
    if !spec_selector_matches(sels[0], e) {
        lemma_first_match_at(sels.drop_first(), e, k - 1);
    }
}

/// If a rule applies, Some of the specificity of its first matching
/// selector together with the rule itself; otherwise None.
pub fn check_if_rule_and_element_match<'a>(rule: &'a Rule, element: &ElementData) -> (r: Option<
    ((usize, usize, usize), &'a Rule),
>)
    requires
        element.wf(),
    ensures
        r is Some <==> spec_rule_applies(rule@, *element),
        match r {
            Some(p) => {
                &&& (p.0.0 as int, p.0.1 as int, p.0.2 as int) == spec_rule_specificity(
                    rule@,
                    *element,
                )
                &&& p.1 == rule
            },
            None => true,
        },
{
    let n = rule.selectors.len();
    let mut i: usize = 0;
    while i < n
        invariant
            element.wf(),
            i <= n,
            n == rule.selectors.len(),
            forall|j: int| 0 <= j < i ==> !spec_selector_matches(#[trigger] rule@.selectors[j], *element),
        decreases n - i,
    {
        if check_if_selector_and_element_match(&rule.selectors[i], element) {
            let s = rule.selectors[i].get_specificity();
            proof {
                assert(rule@.selectors[i as int] == rule.selectors@.map_values(
                    |s: Selector| s@,
                )[i as int]);
                lemma_first_match_at(rule@.selectors, *element, i as int);
            }
            return Some((s, rule));
        }
        i = i + 1;
    }
    proof {
        assert(forall|j: int|
            0 <= j < rule@.selectors.len() ==> !spec_selector_matches(
                #[trigger] rule@.selectors[j],
                *element,
            ));
    }
    None
}

/// One applicable rule, recorded as its credited specificity and its
/// index in the stylesheet.
pub type MatchedRule = ((usize, usize, usize), usize);

/// A recorded match is sound: its index is in range, the rule there
/// applies, and the specificity is the credited one.
pub open spec fn spec_match_ok(rules: Seq<RuleModel>, e: ElementData, p: MatchedRule) -> bool {
    &&& 0 <= (p.1 as int) < rules.len()
    &&& spec_rule_applies(rules[p.1 as int], e)
    &&& (p.0.0 as int, p.0.1 as int, p.0.2 as int) == spec_rule_specificity(rules[p.1 as int], e)
}

/// The applicable rules of the stylesheet, each with its credited
/// specificity and its index, in stylesheet order.
pub fn match_rules_with_element(rules: &Vec<Rule>, element_data: &ElementData) -> (r: Vec<
    MatchedRule,
>)
    requires
        element_data.wf(),
    ensures
        forall|a: int|
            0 <= a < r.len() ==> spec_match_ok(
                rules@.map_values(|x: Rule| x@),
                *element_data,
                #[trigger] r@[a],
            ),
        forall|a: int, b: int| 0 <= a < b < r.len() ==> r@[a].1 < r@[b].1,
        forall|i: int|
            0 <= i < rules.len() && spec_rule_applies(
                (#[trigger] rules@[i])@,
                *element_data,
            ) ==> exists|a: int| 0 <= a < r.len() && (#[trigger] r@[a]).1 == i,
{
    let n = rules.len();
    let mut r: Vec<MatchedRule> = Vec::new();
    let mut i: usize = 0;
    while i < n
        invariant
            element_data.wf(),
            i <= n,
            n == rules.len(),
            forall|a: int|
                0 <= a < r.len() ==> spec_match_ok(
                    rules@.map_values(|x: Rule| x@),
                    *element_data,
                    #[trigger] r@[a],
                ),
            forall|a: int| 0 <= a < r.len() ==> (#[trigger] r@[a]).1 < i,
            forall|a: int, b: int| 0 <= a < b < r.len() ==> r@[a].1 < r@[b].1,
            forall|j: int|
                0 <= j < i && spec_rule_applies(
                    (#[trigger] rules@[j])@,
                    *element_data,
                ) ==> exists|a: int| 0 <= a < r.len() && (#[trigger] r@[a]).1 == j,
        decreases n - i,
    {
        match check_if_rule_and_element_match(&rules[i], element_data) {
            Some(p) => {
                let pair = (p.0, i);
                let ghost r0 = r@;
                r.push(pair);
                proof {
                    assert(rules@.map_values(|x: Rule| x@)[i as int] == rules@[i as int]@);
                    assert(r@ == r0.push(pair));
                    assert(forall|a: int| 0 <= a < r0.len() ==> r@[a] == r0[a]);
                    assert(r@[r0.len() as int] == pair);
                    assert forall|j: int|
                        0 <= j < i + 1 && spec_rule_applies(
                            (#[trigger] rules@[j])@,
                            *element_data,
                        ) implies exists|a: int| 0 <= a < r.len() && (#[trigger] r@[a]).1
                        == j by {
                        if j < i {
                            let a0 = choose|a: int| 0 <= a < r0.len() && (#[trigger] r0[a]).1 == j;
                            assert(r@[a0].1 == j);
                        } else {
                            assert(r@[r0.len() as int].1 == i);
                        }
                    }
                }
            },
            None => {},
        }
        i = i + 1;
    }
    r
}

/// Order on recorded matches: by specificity, ties broken by
/// stylesheet index, each compared lexicographically.
pub open spec fn spec_pair_le(a: MatchedRule, b: MatchedRule) -> bool {
    if a.0.0 != b.0.0 {
        a.0.0 < b.0.0
    } else if a.0.1 != b.0.1 {
        a.0.1 < b.0.1
    } else if a.0.2 != b.0.2 {
        a.0.2 < b.0.2
    } else {
        a.1 <= b.1
    }
}

/// Exec comparison matching `spec_pair_le`.
fn pair_le(a: &MatchedRule, b: &MatchedRule) -> (r: bool)
    ensures
        r == spec_pair_le(*a, *b),
{
    if a.0.0 != b.0.0 {
        a.0.0 < b.0.0
    } else if a.0.1 != b.0.1 {
        a.0.1 < b.0.1
    } else if a.0.2 != b.0.2 {
        a.0.2 < b.0.2
    } else {
        a.1 <= b.1
    }
}

/// Sort recorded matches ascending by (specificity, stylesheet
/// index). The result holds exactly the elements of the input.
pub fn sort_matched_rules(v: &Vec<MatchedRule>) -> (r: Vec<MatchedRule>)
    ensures
        r.len() == v.len(),
        forall|a: int, b: int| 0 <= a < b < r.len() ==> spec_pair_le(#[trigger] r@[a], #[trigger] r@[b]),
        forall|p: MatchedRule| r@.contains(p) <==> v@.contains(p),
{
    let n = v.len();
    let mut out: Vec<MatchedRule> = Vec::new();
    let mut i: usize = 0;
    while i < n
        invariant
            i <= n,
            n == v.len(),
            out.len() == i,
            forall|a: int, b: int|
                0 <= a < b < out.len() ==> spec_pair_le(#[trigger] out@[a], #[trigger] out@[b]),
            forall|p: MatchedRule| out@.contains(p) <==> v@.take(i as int).contains(p),
        decreases n - i,
    {
        let x = v[i];
        let mut pos: usize = 0;
        while pos < out.len() && pair_le(&out[pos], &x)
            invariant
                pos <= out.len(),
                forall|a: int| 0 <= a < pos ==> spec_pair_le(#[trigger] out@[a], x),
            decreases out.len() - pos,
        {
            pos = pos + 1;
        }
        let ghost out0 = out@;
        out.insert(pos, x);
        proof {
            out0.insert_ensures(pos as int, x);
            assert(out@ == out0.insert(pos as int, x));
            assert forall|a: int, b: int| 0 <= a < b < out.len() implies spec_pair_le(
                #[trigger] out@[a],
                #[trigger] out@[b],
            ) by {
                if pos < out0.len() {
                    assert(!spec_pair_le(out0[pos as int], x));
                    assert(spec_pair_le(x, out0[pos as int]));
                }
                assert(forall|c: int|
                    pos <= c < out0.len() ==> spec_pair_le(x, #[trigger] out0[c]));
            }
            assert forall|p: MatchedRule| out@.contains(p) <==> v@.take(i + 1).contains(p) by {
                assert(v@.take(i + 1) =~= v@.take(i as int).push(v@[i as int]));
                if out@.contains(p) {
                    let a = choose|a: int| 0 <= a < out@.len() && out@[a] == p;
                    if a < pos {
                        assert(out0[a] == p);
                    } else if a == pos {
                        assert(p == x);
                        assert(v@.take(i + 1)[i as int] == x);
                    } else {
                        assert(out0[a - 1] == p);
                    }
                    if out0.contains(p) {
                        let c = choose|c: int| 0 <= c < out0.len() && out0[c] == p;
                        assert(v@.take(i as int).contains(p));
                        let w = choose|w: int|
                            0 <= w < v@.take(i as int).len() && #[trigger] v@.take(i as int)[w] == p;
                        assert(v@.take(i + 1)[w] == p);
                    }
                }
                if v@.take(i + 1).contains(p) {
                    let w = choose|w: int| 0 <= w < v@.take(i + 1).len() && #[trigger] v@.take(i + 1)[w] == p;
                    if w < i {
                        assert(v@.take(i as int)[w] == p);
                        assert(v@.take(i as int).contains(p));
                        assert(out0.contains(p));
                        let c = choose|c: int| 0 <= c < out0.len() && out0[c] == p;
                        if c < pos {
                            assert(out@[c] == p);
                        } else {
                            assert(out@[c + 1] == p);
                        }
                    } else {
                        assert(p == x);
                        assert(out@[pos as int] == p);
                    }
                }
            }
        }
        i = i + 1;
    }
    proof {
        assert(v@.take(n as int) =~= v@);
    }
    out
}

/// Whether a selector matches an element.
pub fn check_if_selector_and_element_match(selector: &Selector, element: &ElementData) -> (r: bool)
    requires
        element.wf(),
    ensures
        r == spec_selector_matches(selector@, *element),
{
    if !check_if_tags_matched(&selector.tag_name, &element.tag_name) {
        return false;
    }
    let id = element.get_id();
    if !check_if_ids_matched(&selector.id, &id) {
        return false;
    }
    let classes = element.get_classes();
    if !check_if_classes_matched(&selector.classes, &classes) {
        return false;
    }
    true
}

/// Strict lexicographic order on specificity triples.
pub open spec fn lex3_lt(a: (int, int, int), b: (int, int, int)) -> bool {
    spec_lex_le(a, b) && a != b
}

/// The cascade key of a rule for an element: its credited specificity
/// and its stylesheet index, compared lexicographically.
pub open spec fn lex4_lt(a: ((int, int, int), int), b: ((int, int, int), int)) -> bool {
    lex3_lt(a.0, b.0) || (a.0 == b.0 && a.1 < b.1)
}

/// The cascade key of the rule at index `i`.
pub open spec fn spec_rule_key(rules: Seq<RuleModel>, e: ElementData, i: int) -> (
    (int, int, int),
    int,
) {
    (spec_rule_specificity(rules[i], e), i)
}

/// Whether an ordered declaration list declares a property.
pub open spec fn decls_declare(decls: Seq<(Seq<char>, ValueModel)>, p: Seq<char>) -> bool {
    exists|j: int| 0 <= j < decls.len() && (#[trigger] decls[j]).0 == p
}

/// The value of the last declaration of a property in an ordered
/// declaration list (meaningful only when the list declares it).
pub open spec fn spec_last_decl(decls: Seq<(Seq<char>, ValueModel)>, p: Seq<char>) -> ValueModel
    decreases decls.len(),
{
    if decls.len() == 0 {
        ValueModel::Keyword(Seq::empty())
    } else if decls.last().0 == p {
        decls.last().1
    } else {
        spec_last_decl(decls.drop_last(), p)
    }
}

/// Whether a rule declares a property.
pub open spec fn rule_declares(r: RuleModel, p: Seq<char>) -> bool {
    decls_declare(r.declarations, p)
}

/// The rule at index `i` wins the cascade for property `p`: it applies,
/// declares `p`, and its cascade key is strictly above that of every
/// other applicable rule declaring `p`.
pub open spec fn spec_wins(rules: Seq<RuleModel>, e: ElementData, p: Seq<char>, i: int) -> bool {
    &&& 0 <= i < rules.len()
    &&& spec_rule_applies(rules[i], e)
    &&& rule_declares(rules[i], p)
    &&& forall|k: int|
        0 <= k < rules.len() && k != i && spec_rule_applies(#[trigger] rules[k], e)
            && rule_declares(rules[k], p) ==> lex4_lt(
            spec_rule_key(rules, e, k),
            spec_rule_key(rules, e, i),
        )
}

/// The property map the cascade produces for an element: a property is
/// present exactly when some applicable rule declares it, and its value
/// is the last declaration of that property in the winning rule.
pub open spec fn spec_cascade(rules: Seq<RuleModel>, e: ElementData) -> Map<Seq<char>, ValueModel> {
    Map::new(
        |p: Seq<char>|
            exists|i: int|
                0 <= i < rules.len() && spec_rule_applies(#[trigger] rules[i], e) && rule_declares(
                    rules[i],
                    p,
                ),
        |p: Seq<char>|
            spec_last_decl(
                rules[choose|i: int| spec_wins(rules, e, p, i)].declarations,
                p,
            ),
    )
}

/// Among the first `n` rules there is one whose key is strictly above
/// the key of every other applicable rule declaring `p` among them.
proof fn lemma_best_rule(rules: Seq<RuleModel>, e: ElementData, p: Seq<char>, n: int) -> (i: int)
    requires
        0 < n <= rules.len(),
        exists|j: int|
            0 <= j < n && spec_rule_applies(#[trigger] rules[j], e) && rule_declares(rules[j], p),
    ensures
        0 <= i < n,
        spec_rule_applies(rules[i], e),
        rule_declares(rules[i], p),
        forall|k: int|
            0 <= k < n && k != i && spec_rule_applies(#[trigger] rules[k], e) && rule_declares(
                rules[k],
                p,
            ) ==> lex4_lt(spec_rule_key(rules, e, k), spec_rule_key(rules, e, i)),
    decreases n,
{
    let last_ok = spec_rule_applies(rules[n - 1], e) && rule_declares(rules[n - 1], p);
    if exists|j: int|
        0 <= j < n - 1 && spec_rule_applies(#[trigger] rules[j], e) && rule_declares(rules[j], p) {
        let b = lemma_best_rule(rules, e, p, n - 1);
        if last_ok {
            let kb = spec_rule_key(rules, e, b);
            let kn = spec_rule_key(rules, e, n - 1);
            if lex3_lt(kn.0, kb.0) {
                b
            } else {
                assert forall|k: int|
                    0 <= k < n && k != n - 1 && spec_rule_applies(#[trigger] rules[k], e)
                        && rule_declares(rules[k], p) implies lex4_lt(
                    spec_rule_key(rules, e, k),
                    kn,
                ) by {
                    crate::css_parser::selector::lemma_specificity_total_order(
                        spec_rule_key(rules, e, k).0,
                        kb.0,
                        kn.0,
                    );
                }
                n - 1
            }
        } else {
            b
        }
    } else {
        n - 1
    }
}

/// At most one rule wins the cascade for a property.
pub proof fn lemma_winner_unique(rules: Seq<RuleModel>, e: ElementData, p: Seq<char>, i: int, j: int)
    requires
        spec_wins(rules, e, p, i),
        spec_wins(rules, e, p, j),
    ensures
        i == j,
{
    if i != j {
        assert(lex4_lt(spec_rule_key(rules, e, i), spec_rule_key(rules, e, j)));
        assert(lex4_lt(spec_rule_key(rules, e, j), spec_rule_key(rules, e, i)));
    }
}

/// If some applicable rule declares `p`, a winner exists.
pub proof fn lemma_winner_exists(rules: Seq<RuleModel>, e: ElementData, p: Seq<char>)
    requires
        exists|i: int|
            0 <= i < rules.len() && spec_rule_applies(#[trigger] rules[i], e) && rule_declares(
                rules[i],
                p,
            ),
    ensures
        exists|i: int| spec_wins(rules, e, p, i),
{
    let i = lemma_best_rule(rules, e, p, rules.len() as int);
    assert(spec_wins(rules, e, p, i));
}

/// The winning rule determines the cascaded value: if rule `i` wins for
/// `p`, the cascade maps `p` to the last declaration of `p` in rule
/// `i`.
pub proof fn lemma_cascade_value(rules: Seq<RuleModel>, e: ElementData, p: Seq<char>, i: int)
    requires
        spec_wins(rules, e, p, i),
    ensures
        spec_cascade(rules, e).contains_key(p),
        spec_cascade(rules, e)[p] == spec_last_decl(rules[i].declarations, p),
{
    let w = choose|w: int| spec_wins(rules, e, p, w);
    lemma_winner_unique(rules, e, p, w, i);
}

/// Cascade tie-break: of two applicable rules with equal credited
/// specificity that both declare a property, the earlier one never
/// wins; and when the later one wins, its last declaration is the
/// cascaded value.
pub proof fn lemma_later_rule_wins_ties(
    rules: Seq<RuleModel>,
    e: ElementData,
    p: Seq<char>,
    i: int,
    j: int,
)
    requires
        0 <= i < j < rules.len(),
        spec_rule_applies(rules[i], e),
        spec_rule_applies(rules[j], e),
        rule_declares(rules[i], p),
        rule_declares(rules[j], p),
        spec_rule_specificity(rules[i], e) == spec_rule_specificity(rules[j], e),
    ensures
        !spec_wins(rules, e, p, i),
        spec_cascade(rules, e).contains_key(p),
        (forall|k: int|
            0 <= k < rules.len() && k != i && k != j && spec_rule_applies(#[trigger] rules[k], e)
                && rule_declares(rules[k], p) ==> lex4_lt(
                spec_rule_key(rules, e, k),
                spec_rule_key(rules, e, j),
            )) ==> spec_cascade(rules, e)[p] == spec_last_decl(rules[j].declarations, p),
{
    assert(!lex4_lt(spec_rule_key(rules, e, j), spec_rule_key(rules, e, i)));
    if forall|k: int|
        0 <= k < rules.len() && k != i && k != j && spec_rule_applies(#[trigger] rules[k], e)
            && rule_declares(rules[k], p) ==> lex4_lt(
            spec_rule_key(rules, e, k),
            spec_rule_key(rules, e, j),
        ) {
        assert(lex4_lt(spec_rule_key(rules, e, i), spec_rule_key(rules, e, j)));
        assert(spec_wins(rules, e, p, j));
        lemma_cascade_value(rules, e, p, j);
    }
}

/// Cascade by specificity: a rule whose credited specificity is
/// strictly below that of another applicable rule declaring the same
/// property never wins, whatever their source order.
pub proof fn lemma_higher_specificity_wins(
    rules: Seq<RuleModel>,
    e: ElementData,
    p: Seq<char>,
    i: int,
    j: int,
)
    requires
        0 <= i < rules.len(),
        0 <= j < rules.len(),
        i != j,
        spec_rule_applies(rules[i], e),
        spec_rule_applies(rules[j], e),
        rule_declares(rules[i], p),
        rule_declares(rules[j], p),
        lex3_lt(spec_rule_specificity(rules[i], e), spec_rule_specificity(rules[j], e)),
    ensures
        !spec_wins(rules, e, p, i),
{
    assert(!lex4_lt(spec_rule_key(rules, e, j), spec_rule_key(rules, e, i)));
}

/// The greatest position below `n` at which the listed rule declares
/// `p`.
proof fn max_declaring_pos(
    rules: Seq<RuleModel>,
    sorted: Seq<MatchedRule>,
    p: Seq<char>,
    n: int,
) -> (t: int)
    requires
        0 < n <= sorted.len(),
        forall|a: int| 0 <= a < sorted.len() ==> 0 <= (#[trigger] sorted[a]).1 < rules.len(),
        exists|t: int| 0 <= t < n && rule_declares(rules[(#[trigger] sorted[t]).1 as int], p),
    ensures
        0 <= t < n,
        rule_declares(rules[sorted[t].1 as int], p),
        forall|u: int| t < u < n ==> !rule_declares(rules[(#[trigger] sorted[u]).1 as int], p),
    decreases n,
{
    if rule_declares(rules[sorted[n - 1].1 as int], p) {
        n - 1
    } else {
        max_declaring_pos(rules, sorted, p, n - 1)
    }
}

/// Extending a declaration prefix by one declaration: what it
/// declares and what its last declaration of each property is.
proof fn lemma_decl_prefix_step(decls: Seq<(Seq<char>, ValueModel)>, d: int, q: Seq<char>)
    requires
        0 <= d < decls.len(),
    ensures
        decls_declare(decls.take(d + 1), q) <==> (decls_declare(decls.take(d), q) || decls[d].0
            == q),
        decls[d].0 != q ==> spec_last_decl(decls.take(d + 1), q) == spec_last_decl(
            decls.take(d),
            q,
        ),
        decls[d].0 == q ==> spec_last_decl(decls.take(d + 1), q) == decls[d].1,
{
    assert(decls.take(d + 1).drop_last() =~= decls.take(d));
    assert(decls.take(d + 1).last() == decls[d]);
    assert(decls.take(d + 1)[d] == decls[d]);
    if decls_declare(decls.take(d + 1), q) {
        let j = choose|j: int|
            0 <= j < decls.take(d + 1).len() && (#[trigger] decls.take(d + 1)[j]).0 == q;
        if j < d {
            assert(decls.take(d)[j].0 == q);
        }
    }
    if decls_declare(decls.take(d), q) {
        let j = choose|j: int|
            0 <= j < decls.take(d).len() && (#[trigger] decls.take(d)[j]).0 == q;
        assert(decls.take(d + 1)[j].0 == q);
    }
}

/// Apply every declaration of one rule to the property map in order,
/// overwriting existing entries.
fn apply_rule_declarations(css: StrMap<DeclarationValue>, rule: &Rule) -> (r: StrMap<
    DeclarationValue,
>)
    requires
        css.wf(),
    ensures
        r.wf(),
        forall|q: Seq<char>|
            r@.contains_key(q) <==> (css@.contains_key(q) || decls_declare(
                rule@.declarations,
                q,
            )),
        forall|q: Seq<char>|
            #[trigger] decls_declare(rule@.declarations, q) ==> r@[q] == spec_last_decl(
                rule@.declarations,
                q,
            ),
        forall|q: Seq<char>|
            !decls_declare(rule@.declarations, q) && css@.contains_key(q) ==> r@[q] == css@[q],
{
    let ghost decls = rule@.declarations;
    let ghost css0 = css@;
    let mut css = css;
    proof {
        assert(decls.take(0) =~= Seq::<(Seq<char>, ValueModel)>::empty());
    }
    let dn = rule.declarations.len();
    let mut d: usize = 0;
    while d < dn
        invariant
            css.wf(),
            dn == rule.declarations.len(),
            d <= dn,
            decls == rule@.declarations,
            decls.len() == dn,
            forall|j: int| 0 <= j < dn ==> (#[trigger] rule.declarations@[j])@ == decls[j],
            forall|q: Seq<char>|
                css@.contains_key(q) <==> (css0.contains_key(q) || decls_declare(
                    decls.take(d as int),
                    q,
                )),
            forall|q: Seq<char>|
                #[trigger] decls_declare(decls.take(d as int), q) ==> css@[q] == spec_last_decl(
                    decls.take(d as int),
                    q,
                ),
            forall|q: Seq<char>|
                !decls_declare(decls.take(d as int), q) && css0.contains_key(q) ==> css@[q]
                    == css0[q],
        decreases dn - d,
    {
        let ghost d0 = d as int;
        let ghost pre = css@;
        proof {
            assert(forall|q: Seq<char>|
                pre.contains_key(q) <==> (css0.contains_key(q) || decls_declare(
                    decls.take(d0),
                    q,
                )));
        }
        let decl = &rule.declarations[d];
        css.insert(decl.name.clone(), decl.value.duplicate());
        proof {
            let name = decl.name@;
            assert(decls[d0] == (name, decl.value@));
            assert(css@ == pre.insert(name, decl.value@));
            assert forall|q: Seq<char>|
                css@.contains_key(q) <==> (css0.contains_key(q) || decls_declare(
                    decls.take(d0 + 1),
                    q,
                )) by {
                lemma_decl_prefix_step(decls, d0, q);
                if q == name {
                    assert(css@.contains_key(q));
                    assert(decls[d0].0 == q);
                    assert(decls_declare(decls.take(d0 + 1), q));
                } else {
                    assert(css@.contains_key(q) == pre.contains_key(q));
                    assert(pre.contains_key(q) <==> (css0.contains_key(q) || decls_declare(
                        decls.take(d0),
                        q,
                    )));
                }
            }
            assert forall|q: Seq<char>|
                #[trigger] decls_declare(decls.take(d0 + 1), q) implies css@[q] == spec_last_decl(
                decls.take(d0 + 1),
                q,
            ) by {
                lemma_decl_prefix_step(decls, d0, q);
            }
            assert forall|q: Seq<char>|
                !decls_declare(decls.take(d0 + 1), q) && css0.contains_key(q) implies css@[q]
                == css0[q] by {
                lemma_decl_prefix_step(decls, d0, q);
            }
        }
        d = d + 1;
        proof {
            assert(d as int == d0 + 1);
        }
    }
    proof {
        assert(d == dn);
        assert(decls.take(d as int) =~= decls);
        assert(forall|q: Seq<char>|
            css@.contains_key(q) <==> (css0.contains_key(q) || decls_declare(
                decls.take(d as int),
                q,
            )));
        assert(forall|q: Seq<char>|
            #[trigger] decls_declare(decls.take(d as int), q) ==> css@[q] == spec_last_decl(
                decls.take(d as int),
                q,
            ));
        assert(forall|q: Seq<char>|
            !decls_declare(decls.take(d as int), q) && css0.contains_key(q) ==> css@[q]
                == css0[q]);
    }
    css
}

/// From the fold over the sorted applicable rules, the resulting map
/// is exactly the cascade map.
proof fn lemma_cascade_from_fold(
    rs: Seq<RuleModel>,
    e: ElementData,
    matched: Seq<MatchedRule>,
    sorted: Seq<MatchedRule>,
    css: Map<Seq<char>, ValueModel>,
)
    requires
        forall|a: int| 0 <= a < sorted.len() ==> spec_match_ok(rs, e, #[trigger] sorted[a]),
        forall|a: int, b: int|
            0 <= a < b < sorted.len() ==> spec_pair_le(#[trigger] sorted[a], #[trigger] sorted[b]),
        forall|p: MatchedRule| sorted.contains(p) <==> matched.contains(p),
        forall|i: int|
            0 <= i < rs.len() && spec_rule_applies(#[trigger] rs[i], e) ==> exists|a: int|
                0 <= a < matched.len() && (#[trigger] matched[a]).1 == i,
        forall|q: Seq<char>|
            css.contains_key(q) <==> exists|u: int|
                0 <= u < sorted.len() && rule_declares(rs[(#[trigger] sorted[u]).1 as int], q),
        forall|q: Seq<char>, u: int|
            0 <= u < sorted.len() && #[trigger] rule_declares(rs[sorted[u].1 as int], q) && (forall|
                w: int,
            |
                u < w < sorted.len() ==> !rule_declares(rs[(#[trigger] sorted[w]).1 as int], q))
                ==> css.contains_key(q) && css[q] == spec_last_decl(
                rs[sorted[u].1 as int].declarations,
                q,
            ),
    ensures
        css == spec_cascade(rs, e),
{
    assert forall|q: Seq<char>| css.contains_key(q) <==> spec_cascade(rs, e).contains_key(q) by {
        if css.contains_key(q) {
            let u = choose|u: int|
                0 <= u < sorted.len() && rule_declares(rs[(#[trigger] sorted[u]).1 as int], q);
            assert(spec_match_ok(rs, e, sorted[u]));
            let i = sorted[u].1 as int;
            assert(0 <= i < rs.len() && spec_rule_applies(rs[i], e) && rule_declares(rs[i], q));
        }
        if spec_cascade(rs, e).contains_key(q) {
            let i = choose|i: int|
                0 <= i < rs.len() && spec_rule_applies(#[trigger] rs[i], e) && rule_declares(
                    rs[i],
                    q,
                );
            let a = choose|a: int| 0 <= a < matched.len() && (#[trigger] matched[a]).1 == i;
            assert(matched.contains(matched[a]));
            assert(sorted.contains(matched[a]));
            let u = choose|u: int| 0 <= u < sorted.len() && #[trigger] sorted[u] == matched[a];
            assert(rule_declares(rs[sorted[u].1 as int], q));
            assert(css.contains_key(q));
        }
    }
    assert forall|q: Seq<char>| css.contains_key(q) implies css[q] == spec_cascade(rs, e)[q] by {
        let tstar = max_declaring_pos(rs, sorted, q, sorted.len() as int);
        let istar = sorted[tstar].1 as int;
        assert(css[q] == spec_last_decl(rs[istar].declarations, q));
        assert(spec_wins(rs, e, q, istar)) by {
            assert(spec_match_ok(rs, e, sorted[tstar]));
            assert forall|k: int|
                0 <= k < rs.len() && k != istar && spec_rule_applies(#[trigger] rs[k], e)
                    && rule_declares(rs[k], q) implies lex4_lt(
                spec_rule_key(rs, e, k),
                spec_rule_key(rs, e, istar),
            ) by {
                let a = choose|a: int| 0 <= a < matched.len() && (#[trigger] matched[a]).1 == k;
                assert(matched.contains(matched[a]));
                assert(sorted.contains(matched[a]));
                let u = choose|u: int| 0 <= u < sorted.len() && #[trigger] sorted[u] == matched[a];
                assert(rule_declares(rs[sorted[u].1 as int], q));
                assert(u <= tstar);
                assert(u != tstar);
                assert(spec_pair_le(sorted[u], sorted[tstar]));
                assert(spec_match_ok(rs, e, sorted[u]));
            }
        }
        lemma_winner_exists(rs, e, q);
        let w = choose|w: int| spec_wins(rs, e, q, w);
        lemma_winner_unique(rs, e, q, w, istar);
    }
    assert(css =~= spec_cascade(rs, e));
}

/// Resolve the cascade for one element: collect the applicable rules,
/// order them ascending by (specificity, source position), and apply
/// their declarations in that order, later insertions overwriting
/// earlier ones. The result is exactly the cascade map: the
/// highest-specificity declaration wins, and among equal specificity
/// the later rule in the stylesheet wins.
pub fn create_css_properties(stylesheet: &Stylesheet, element_data: &ElementData) -> (r: StrMap<
    DeclarationValue,
>)
    requires
        element_data.wf(),
    ensures
        r.wf(),
        r@ == spec_cascade(stylesheet@, *element_data),
{
    let ghost rs = stylesheet@;
    let ghost e = *element_data;
    let matched = match_rules_with_element(&stylesheet.rules, element_data);
    let sorted = sort_matched_rules(&matched);
    proof {
        assert(rs == stylesheet.rules@.map_values(|x: Rule| x@));
        assert forall|a: int| 0 <= a < sorted.len() implies spec_match_ok(
            rs,
            e,
            #[trigger] sorted@[a],
        ) by {
            assert(sorted@.contains(sorted@[a]));
            assert(matched@.contains(sorted@[a]));
            let b = choose|b: int| 0 <= b < matched@.len() && matched@[b] == sorted@[a];
        }
        assert forall|i: int|
            0 <= i < rs.len() && spec_rule_applies(#[trigger] rs[i], e) implies exists|a: int|
            0 <= a < matched.len() && (#[trigger] matched@[a]).1 == i by {
            assert(rs[i] == (stylesheet.rules@[i])@);
            assert(spec_rule_applies((stylesheet.rules@[i])@, e));
        }
    }
    let mut css: StrMap<DeclarationValue> = StrMap::new();
    let total = sorted.len();
    let mut t: usize = 0;
    while t < total
        invariant
            rs == stylesheet@,
            total == sorted.len(),
            t <= total,
            css.wf(),
            forall|a: int| 0 <= a < sorted.len() ==> spec_match_ok(rs, e, #[trigger] sorted@[a]),
            forall|q: Seq<char>|
                css@.contains_key(q) <==> exists|u: int|
                    0 <= u < t && rule_declares(rs[(#[trigger] sorted@[u]).1 as int], q),
            forall|q: Seq<char>, u: int|
                0 <= u < t && #[trigger] rule_declares(rs[sorted@[u].1 as int], q) && (forall|
                    w: int,
                |
                    u < w < t ==> !rule_declares(rs[(#[trigger] sorted@[w]).1 as int], q))
                    ==> css@.contains_key(q) && css@[q] == spec_last_decl(
                    rs[sorted@[u].1 as int].declarations,
                    q,
                ),
        decreases total - t,
    {
        let idx = sorted[t].1;
        proof {
            assert(spec_match_ok(rs, e, sorted@[t as int]));
        }
        let rule = &stylesheet.rules[idx];
        let ghost css0 = css@;
        let ghost t0 = t as int;
        proof {
            assert(rule@ == rs[idx as int]);
        }
        css = apply_rule_declarations(css, rule);
        proof {
            let ghost decls = rs[idx as int].declarations;
            assert forall|q: Seq<char>|
                css@.contains_key(q) <==> exists|u: int|
                    0 <= u < t0 + 1 && rule_declares(
                        rs[(#[trigger] sorted@[u]).1 as int],
                        q,
                    ) by {
                if css@.contains_key(q) {
                    if decls_declare(decls, q) {
                        assert(rule_declares(rs[sorted@[t0].1 as int], q));
                    } else {
                        assert(css0.contains_key(q));
                        let u = choose|u: int|
                            0 <= u < t0 && rule_declares(rs[(#[trigger] sorted@[u]).1 as int], q);
                        assert(rule_declares(rs[sorted@[u].1 as int], q));
                    }
                }
                if exists|u: int|
                    0 <= u < t0 + 1 && rule_declares(rs[(#[trigger] sorted@[u]).1 as int], q) {
                    let u = choose|u: int|
                        0 <= u < t0 + 1 && rule_declares(rs[(#[trigger] sorted@[u]).1 as int], q);
                    if u == t0 {
                        assert(decls_declare(decls, q));
                    } else {
                        assert(rule_declares(rs[sorted@[u].1 as int], q));
                        assert(css0.contains_key(q));
                    }
                }
            }
            assert forall|q: Seq<char>, u: int|
                0 <= u < t0 + 1 && #[trigger] rule_declares(rs[sorted@[u].1 as int], q) && (forall|
                    w: int,
                |
                    u < w < t0 + 1 ==> !rule_declares(
                        rs[(#[trigger] sorted@[w]).1 as int],
                        q,
                    )) implies css@.contains_key(q) && css@[q] == spec_last_decl(
                rs[sorted@[u].1 as int].declarations,
                q,
            ) by {
                if u == t0 {
                    assert(decls_declare(decls, q));
                } else {
                    assert(!rule_declares(rs[sorted@[t0].1 as int], q));
                    assert(!decls_declare(decls, q));
                    assert(css0.contains_key(q) && css@[q] == css0[q]);
                }
            }
        }
        t = t + 1;
    }
    proof {
        lemma_cascade_from_fold(rs, e, matched@, sorted@, css@);
    }
    css
}

/// The styled tree a document node resolves to under a stylesheet:
/// elements get their cascade map, text leaves an empty map, and the
/// children mirror the document tree.
pub open spec fn spec_resolve(rules: Seq<RuleModel>, node: Node) -> StyledModel
    decreases node,
{
    StyledModel {
        props: match node.node_type {
            NodeType::Text(_) => Map::empty(),
            NodeType::Element(e) => spec_cascade(rules, e),
        },
        children: Seq::new(
            node.children.len() as nat,
            |i: int|
                if 0 <= i < node.children.len() {
                    spec_resolve(rules, node.children[i])
                } else {
                    StyledModel { props: Map::empty(), children: Seq::empty() }
                },
        ),
    }
}

/// Build the styled tree for a document node: resolve its own
/// properties through the cascade and its children recursively, in
/// document order.
pub fn create_styled_node(dom_node: &Node, stylesheet: &Stylesheet) -> (r: StyledNode)
    requires
        dom_node.wf(),
    ensures
        r.wf(),
        r@ == spec_resolve(stylesheet@, *dom_node),
    decreases *dom_node,
{
    let css_properties = match &dom_node.node_type {
        NodeType::Text(_) => StrMap::new(),
        NodeType::Element(element) => create_css_properties(stylesheet, element),
    };
    let n = dom_node.children.len();
    let mut children: Vec<StyledNode> = Vec::new();
    let mut i: usize = 0;
    while i < n
        invariant
            dom_node.wf(),
            n == dom_node.children.len(),
            i <= n,
            children.len() == i,
            forall|j: int|
                0 <= j < i ==> (#[trigger] children[j]).wf() && children[j]@ == spec_resolve(
                    stylesheet@,
                    dom_node.children[j],
                ),
        decreases n - i,
    {
        let child = create_styled_node(&dom_node.children[i], stylesheet);
        children.push(child);
        i = i + 1;
    }
    let r = StyledNode { css_properties, children };
    proof {
        let m = spec_resolve(stylesheet@, *dom_node);
        assert(r@.children =~= m.children);
        assert(r@.props == m.props);
    }
    r
}

/// The debug text of one declaration value, in constructor form.
pub open spec fn spec_value_debug(v: DeclarationValue) -> Seq<char> {
    match v {
        DeclarationValue::Keyword(s) => "Keyword(\""@ + s@ + "\")"@,
        DeclarationValue::Length(t, _) => "Length("@
            + crate::css_parser::declaration_value::spec_number_text(t as int) + ", Px)"@,
        DeclarationValue::Color(c) => "Color("@ + crate::css_parser::color_value::spec_color_text(
            c,
        ) + ")"@,
    }
}

/// The debug text of the entries from index `i` on, comma-separated.
pub open spec fn spec_entries_debug(entries: Seq<(String, DeclarationValue)>, i: int) -> Seq<char>
    decreases entries.len() - i,
{
    if i < 0 || i >= entries.len() {
        Seq::empty()
    } else {
        "\""@ + entries[i].0@ + "\": "@ + spec_value_debug(entries[i].1) + (if i + 1
            < entries.len() {
            ", "@
        } else {
            Seq::empty()
        }) + spec_entries_debug(entries, i + 1)
    }
}

/// The debug text of a property map: brace-wrapped, quoted names,
/// values in constructor form.
pub open spec fn spec_props_debug(entries: Seq<(String, DeclarationValue)>) -> Seq<char> {
    "{"@ + spec_entries_debug(entries, 0) + "}"@
}

/// Render one declaration value in constructor form.
pub fn value_debug_text(v: &DeclarationValue) -> (r: String)
    ensures
        r@ == spec_value_debug(*v),
{
    match v {
        DeclarationValue::Keyword(s) => {
            let mut t = "Keyword(\"".to_owned();
            t.append(s.as_str());
            t.append("\")");
            proof {
                assert(t@ =~= spec_value_debug(*v));
            }
            t
        },
        DeclarationValue::Length(n, _) => {
            let mut t = "Length(".to_owned();
            t.append(crate::css_parser::declaration_value::number_text(*n).as_str());
            t.append(", Px)");
            proof {
                assert(t@ =~= spec_value_debug(*v));
            }
            t
        },
        DeclarationValue::Color(c) => {
            let mut t = "Color(".to_owned();
            t.append(c.to_text().as_str());
            t.append(")");
            proof {
                assert(t@ =~= spec_value_debug(*v));
            }
            t
        },
    }
}

/// Render a property map in debug form, entries in storage order.
pub fn properties_debug_text(props: &StrMap<DeclarationValue>) -> (r: String)
    ensures
        r@ == spec_props_debug(props.spec_entries()),
{
    let mut s = "{".to_owned();
    proof {
        reveal_strlit("{");
    }
    let ghost head = s@;
    let n = props.len();
    let mut i: usize = 0;
    while i < n
        invariant
            i <= n,
            n == props.spec_entries().len(),
            s@ + spec_entries_debug(props.spec_entries(), i as int) == head + spec_entries_debug(
                props.spec_entries(),
                0,
            ),
        decreases n - i,
    {
        let entry = props.entry_at(i);
        s.append("\"");
        s.append(entry.0.as_str());
        s.append("\": ");
        s.append(value_debug_text(&entry.1).as_str());
        if i + 1 < n {
            s.append(", ");
        }
        proof {
            reveal_strlit("\"");
            reveal_strlit("\": ");
            reveal_strlit(", ");
            assert(s@ + spec_entries_debug(props.spec_entries(), i + 1) =~= head
                + spec_entries_debug(props.spec_entries(), 0));
        }
        i = i + 1;
    }
    s.append("}");
    proof {
        reveal_strlit("}");
        assert(spec_entries_debug(props.spec_entries(), n as int) =~= Seq::<char>::empty());
        assert(s@ =~= spec_props_debug(props.spec_entries()));
    }
    s
}

} // verus!
