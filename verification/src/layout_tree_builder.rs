//! Building the layout tree and computing box geometry.

pub mod box_type;
pub mod dimensions;
pub mod display_type;
pub mod layout_box;

use vstd::prelude::*;
use crate::layout_tree_builder::box_type::BoxType;
use crate::layout_tree_builder::display_type::DisplayType;
use crate::layout_tree_builder::dimensions::spec_zero_dimensions;
use crate::layout_tree_builder::layout_box::BoxModel;
use crate::layout_tree_builder::layout_box::LayoutBox;
use crate::layout_tree_builder::layout_box::box_model;
use crate::render_error::RenderError;
use crate::style_tree_builder::styled_node::StyledModel;
use crate::style_tree_builder::styled_node::StyledNode;
use crate::style_tree_builder::styled_node::spec_display_value;

verus! {

broadcast use vstd::std_specs::vec::axiom_vec_index_decreases;

/// Append an inline-level box into the trailing inline slot of a box
/// with the given kind and children: inline and anonymous containers
/// take it directly; a block container reuses a trailing anonymous
/// wrapper, or opens a new one.
pub open spec fn spec_append_inline(
    parent_kind: BoxType,
    acc: Seq<BoxModel>,
    b: BoxModel,
) -> Seq<BoxModel> {
    match parent_kind {
        BoxType::Inline | BoxType::Anonymous => acc.push(b),
        BoxType::Block => if acc.len() > 0 && acc.last().box_type == BoxType::Anonymous {
            acc.update(
                acc.len() - 1,
                BoxModel { children: acc.last().children.push(b), ..acc.last() },
            )
        } else {
            acc.push(
                BoxModel {
                    props: None,
                    dimensions: spec_zero_dimensions(),
                    box_type: BoxType::Anonymous,
                    children: seq![b],
                },
            )
        },
    }
}

/// Fold the box-building step over the styled children from index `i`
/// on: `none` children are omitted with their subtrees, block children
/// append directly, inline children go through the trailing inline
/// slot.
pub open spec fn spec_build_children(
    children: Seq<StyledModel>,
    i: int,
    parent_kind: BoxType,
    acc: Seq<BoxModel>,
) -> Result<Seq<BoxModel>, RenderError>
    decreases children, children.len() - i, 0int,
{
    if i < 0 || i >= children.len() {
        Ok(acc)
    } else {
        match spec_display_value(children[i].props) {
            Err(e) => Err(e),
            Ok(DisplayType::Hidden) => spec_build_children(children, i + 1, parent_kind, acc),
            Ok(DisplayType::Block) => match spec_build_layout_tree(children[i]) {
                Err(e) => Err(e),
                Ok(b) => spec_build_children(children, i + 1, parent_kind, acc.push(b)),
            },
            Ok(DisplayType::Inline) => match spec_build_layout_tree(children[i]) {
                Err(e) => Err(e),
                Ok(b) => spec_build_children(
                    children,
                    i + 1,
                    parent_kind,
                    spec_append_inline(parent_kind, acc, b),
                ),
            },
        }
    }
}

/// The box tree a styled node produces: its kind from its `display`
/// value (an error when that is unsupported, or `none` for the node
/// itself), zero geometry, and its children grouped into anonymous
/// wrappers.
pub open spec fn spec_build_layout_tree(s: StyledModel) -> Result<BoxModel, RenderError>
    decreases s, 1int,
{
    match spec_display_value(s.props) {
        Err(e) => Err(e),
        Ok(DisplayType::Hidden) => Err(RenderError::RootDisplayNone),
        Ok(dt) => {
            let kind = if dt == DisplayType::Block {
                BoxType::Block
            } else {
                BoxType::Inline
            };
            match spec_build_children(s.children, 0, kind, Seq::empty()) {
                Err(e) => Err(e),
                Ok(kids) => Ok(
                    BoxModel {
                        props: Some(s.props),
                        dimensions: spec_zero_dimensions(),
                        box_type: kind,
                        children: kids,
                    },
                ),
            }
        },
    }
}

/// Build the layout tree for a styled node: classify it by its
/// `display` value, omit `none` subtrees, and group runs of inline
/// children of a block container into shared anonymous wrappers.
#[verifier::loop_isolation(false)]
pub fn build_layout_tree<'a>(styled_node: &'a StyledNode) -> (r: Result<LayoutBox<'a>, RenderError>)
    requires
        styled_node.wf(),
    ensures
        match r {
            Ok(b) => b.wf() && spec_build_layout_tree(styled_node@) == Ok::<BoxModel, RenderError>(
                box_model(b),
            ),
            Err(e) => spec_build_layout_tree(styled_node@) == Err::<BoxModel, RenderError>(e),
        },
    decreases *styled_node,
{
    let root_box_type = match styled_node.get_display_value() {
        Ok(DisplayType::Block) => BoxType::Block,
        Ok(DisplayType::Inline) => BoxType::Inline,
        Ok(DisplayType::Hidden) => {
            return Err(RenderError::RootDisplayNone);
        },
        Err(e) => {
            return Err(e);
        },
    };
    let mut root = LayoutBox::new(root_box_type);
    root.styled_node = Some(styled_node);
    let ghost ch = styled_node@.children;
    let n = styled_node.children.len();
    proof {
        assert(box_model(root).children =~= Seq::<BoxModel>::empty());
    }
    let mut i: usize = 0;
    while i < n
        invariant
            styled_node.wf(),
            n == styled_node.children.len(),
            i <= n,
            root.styled_node == Some(styled_node),
            root.box_type == root_box_type,
            root.dimensions == spec_zero_dimensions(),
            root.wf(),
            spec_build_children(ch, 0, root_box_type, Seq::empty()) == spec_build_children(
                ch,
                i as int,
                root_box_type,
                box_model(root).children,
            ),
        decreases n - i,
    {
        proof {
            assert(ch[i as int] == styled_node.children[i as int]@);
            assert(styled_node.children[i as int].wf());
        }
        let child = &styled_node.children[i];
        match child.get_display_value() {
            Err(e) => {
                return Err(e);
            },
            Ok(DisplayType::Hidden) => {
                proof {
                    assert(spec_build_children(ch, i as int, root_box_type, box_model(root).children)
                        == spec_build_children(ch, i + 1, root_box_type, box_model(root).children));
                }
            },
            Ok(DisplayType::Block) => {
                let b = match build_layout_tree(child) {
                    Ok(b) => b,
                    Err(e) => {
                        return Err(e);
                    },
                };
                let ghost acc0 = box_model(root).children;
                let ghost rootpre = root;
                root.children.push(b);
                proof {
                    assert(box_model(root).children =~= acc0.push(box_model(b)));
                    assert forall|j: int| 0 <= j < root.children.len() implies (
                    #[trigger] root.children[j]).wf() by {
                        if j < rootpre.children.len() {
                            assert(root.children[j] == rootpre.children[j]);
                            assert(rootpre.children[j].wf());
                        } else {
                            assert(root.children[j] == b);
                        }
                    }
                    assert(spec_build_children(ch, i as int, root_box_type, acc0)
                        == spec_build_children(ch, i + 1, root_box_type, box_model(root).children));
                }
            },
            Ok(DisplayType::Inline) => {
                let b = match build_layout_tree(child) {
                    Ok(b) => b,
                    Err(e) => {
                        return Err(e);
                    },
                };
                let ghost acc0 = box_model(root).children;
                match root.box_type {
                    BoxType::Inline | BoxType::Anonymous => {
                        let ghost rootpre = root;
                        root.children.push(b);
                        proof {
                            assert(box_model(root).children =~= acc0.push(box_model(b)));
                            assert(box_model(root).children == spec_append_inline(
                                root_box_type,
                                acc0,
                                box_model(b),
                            ));
                            assert forall|j: int| 0 <= j < root.children.len() implies (
                            #[trigger] root.children[j]).wf() by {
                                if j < rootpre.children.len() {
                                    assert(root.children[j] == rootpre.children[j]);
                                    assert(rootpre.children[j].wf());
                                } else {
                                    assert(root.children[j] == b);
                                }
                            }
                            assert(spec_build_children(ch, i as int, root_box_type, acc0)
                                == spec_build_children(
                                ch,
                                i + 1,
                                root_box_type,
                                box_model(root).children,
                            ));
                        }
                    },
                    BoxType::Block => {
                        let k = root.children.len();
                        let reuse = if k > 0 {
                            matches!(root.children[k - 1].box_type, BoxType::Anonymous)
                        } else {
                            false
                        };
                        if reuse {
                            let ghost rootpop = root;
                            let mut anon = match root.children.pop() {
                                Some(a) => a,
                                None => {
                                    proof {
                                        assert(false);
                                    }
                                    LayoutBox::new(BoxType::Anonymous)
                                },
                            };
                            let ghost anonpre = anon;
                            let ghost anon0 = box_model(anon);
                            let ghost rootpre = root;
                            anon.children.push(b);
                            proof {
                                assert(box_model(anon).children =~= anon0.children.push(
                                    box_model(b),
                                ));
                                assert(box_model(anon) == (BoxModel {
                                    children: anon0.children.push(box_model(b)),
                                    ..anon0
                                }));
                                assert(anon0 == acc0.last());
                                assert forall|j: int| 0 <= j < anon.children.len() implies (
                                #[trigger] anon.children[j]).wf() by {
                                    if j < anonpre.children.len() {
                                        assert(anon.children[j] == anonpre.children[j]);
                                        assert(anonpre == rootpop.children[rootpop.children.len()
                                            - 1]);
                                        assert(rootpop.children[rootpop.children.len() - 1].wf());
                                        assert(anonpre.children[j].wf());
                                    } else {
                                        assert(anon.children[j] == b);
                                    }
                                }
                                assert(anonpre == rootpop.children[rootpop.children.len() - 1]);
                                assert(anonpre.wf());
                                assert(anon.styled_node == anonpre.styled_node);
                                assert(anon.wf());
                            }
                            root.children.push(anon);
                            proof {
                                assert(box_model(root).children =~= acc0.update(
                                    acc0.len() - 1,
                                    BoxModel {
                                        children: acc0.last().children.push(box_model(b)),
                                        ..acc0.last()
                                    },
                                ));
                                assert(box_model(root).children == spec_append_inline(
                                    root_box_type,
                                    acc0,
                                    box_model(b),
                                ));
                                assert forall|j: int| 0 <= j < root.children.len() implies (
                                #[trigger] root.children[j]).wf() by {
                                    if j < rootpre.children.len() {
                                        assert(root.children[j] == rootpre.children[j]);
                                        assert(rootpre.children[j] == rootpop.children[j]);
                                        assert(rootpop.children[j].wf());
                                    } else {
                                        assert(root.children[j] == anon);
                                    }
                                }
                                assert(spec_build_children(ch, i as int, root_box_type, acc0)
                                    == spec_build_children(
                                    ch,
                                    i + 1,
                                    root_box_type,
                                    box_model(root).children,
                                ));
                            }
                        } else {
                            let mut anon = LayoutBox::new(BoxType::Anonymous);
                            anon.children.push(b);
                            proof {
                                assert(box_model(anon).children =~= seq![box_model(b)]);
                                assert(box_model(anon) == (BoxModel {
                                    props: None,
                                    dimensions: spec_zero_dimensions(),
                                    box_type: BoxType::Anonymous,
                                    children: seq![box_model(b)],
                                }));
                                assert(anon.children[0] == b);
                                assert(anon.wf());
                            }
                            let ghost rootpre = root;
                            root.children.push(anon);
                            proof {
                                assert(box_model(root).children =~= acc0.push(box_model(anon)));
                                if acc0.len() > 0 {
                                    assert(acc0.last() == box_model(
                                        rootpre.children[rootpre.children.len() - 1],
                                    ));
                                }
                                assert(box_model(root).children == spec_append_inline(
                                    root_box_type,
                                    acc0,
                                    box_model(b),
                                ));
                                assert forall|j: int| 0 <= j < root.children.len() implies (
                                #[trigger] root.children[j]).wf() by {
                                    if j < rootpre.children.len() {
                                        assert(root.children[j] == rootpre.children[j]);
                                        assert(rootpre.children[j].wf());
                                    } else {
                                        assert(root.children[j] == anon);
                                    }
                                }
                                assert(spec_build_children(ch, i as int, root_box_type, acc0)
                                    == spec_build_children(
                                    ch,
                                    i + 1,
                                    root_box_type,
                                    box_model(root).children,
                                ));
                            }
                        }
                    },
                }
            },
        }
        i = i + 1;
    }
    proof {
        assert(spec_build_children(ch, n as int, root_box_type, box_model(root).children) == Ok::<
            Seq<BoxModel>,
            RenderError,
        >(box_model(root).children));
    }
    Ok(root)
}

} // verus!
