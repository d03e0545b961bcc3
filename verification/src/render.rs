//! Walking the laid-out box tree in paint order and emitting draw
//! commands.

pub mod canvas;
pub mod display_command;

use vstd::prelude::*;
use crate::css_parser::color_value::ColorValue;
use crate::css_parser::declaration_value::ValueModel;
use crate::layout_tree_builder::box_type::BoxType;
use crate::layout_tree_builder::dimensions::Dimensions;
use crate::layout_tree_builder::dimensions::Rectangle;
use crate::layout_tree_builder::dimensions::spec_border_box;
use crate::layout_tree_builder::layout_box::BoxModel;
use crate::layout_tree_builder::layout_box::LayoutBox;
use crate::layout_tree_builder::layout_box::box_model;
use crate::layout_tree_builder::layout_box::spec_create_layout;
use crate::px::sadd;
use crate::px::spec_sadd;
use crate::px::spec_ssub;
use crate::px::ssub;
use crate::render::display_command::DisplayCommand;

verus! {

broadcast use vstd::std_specs::vec::axiom_vec_index_decreases;

/// Every non-anonymous box of the tree carries resolved properties.
pub open spec fn model_render_ready(b: BoxModel) -> bool
    decreases b,
{
    &&& (b.box_type != BoxType::Anonymous ==> b.props is Some)
    &&& forall|i: int|
        0 <= i < b.children.len() ==> model_render_ready(#[trigger] b.children[i])
}

/// The color a box paints for a property: block and inline boxes read
/// their properties, anonymous boxes carry no style and paint nothing.
pub open spec fn spec_get_color(b: BoxModel, name: Seq<char>) -> Option<ColorValue> {
    match b.box_type {
        BoxType::Block | BoxType::Inline => match b.props {
            Some(props) => if props.contains_key(name) && props[name] is Color {
                match props[name] {
                    ValueModel::Color(c) => Some(c),
                    _ => None,
                }
            } else {
                None
            },
            None => None,
        },
        BoxType::Anonymous => None,
    }
}

/// The background command of a box: one filled rectangle covering the
/// border box, when a `background` color is present.
pub open spec fn spec_background_cmds(b: BoxModel) -> Seq<DisplayCommand> {
    match spec_get_color(b, "background"@) {
        Some(c) => seq![DisplayCommand::SolidColor(c, spec_border_box(b.dimensions))],
        None => Seq::empty(),
    }
}

/// The border commands of a box: four filled rectangles flush against
/// the border box, when a `border-color` is present; zero-thickness
/// edges still emit zero-area commands.
pub open spec fn spec_border_cmds(b: BoxModel) -> Seq<DisplayCommand> {
    match spec_get_color(b, "border-color"@) {
        None => Seq::empty(),
        Some(c) => {
            let d = b.dimensions;
            let bb = spec_border_box(d);
            seq![
                DisplayCommand::SolidColor(
                    c,
                    Rectangle { x: bb.x, y: bb.y, width: d.border.left, height: bb.height },
                ),
                DisplayCommand::SolidColor(
                    c,
                    Rectangle {
                        x: spec_ssub(
                            spec_sadd(bb.x as int, bb.width as int),
                            d.border.right as int,
                        ) as crate::px::Px,
                        y: bb.y,
                        width: d.border.right,
                        height: bb.height,
                    },
                ),
                DisplayCommand::SolidColor(
                    c,
                    Rectangle { x: bb.x, y: bb.y, width: bb.width, height: d.border.top },
                ),
                DisplayCommand::SolidColor(
                    c,
                    Rectangle {
                        x: bb.x,
                        y: spec_ssub(
                            spec_sadd(bb.y as int, bb.height as int),
                            d.border.bottom as int,
                        ) as crate::px::Px,
                        width: bb.width,
                        height: d.border.bottom,
                    },
                ),
            ]
        },
    }
}

/// The display list of a box tree: the box's own background and border
/// commands, then its children's lists in document order (painter's
/// order: ancestors first).
pub open spec fn spec_display_list(b: BoxModel) -> Seq<DisplayCommand>
    decreases b, 1int,
{
    spec_background_cmds(b) + spec_border_cmds(b) + spec_display_list_children(b.children, 0)
}

/// The concatenated display lists of the children from index `i` on.
pub open spec fn spec_display_list_children(children: Seq<BoxModel>, i: int) -> Seq<
    DisplayCommand,
>
    decreases children, children.len() - i, 2int,
{
    if i < 0 || i >= children.len() {
        Seq::empty()
    } else {
        spec_display_list(children[i]) + spec_display_list_children(children, i + 1)
    }
}

/// The paint color of a box for a named color property, if any.
pub fn get_color(layout_box: &LayoutBox, name: &str) -> (r: Option<ColorValue>)
    requires
        layout_box.wf(),
        !(layout_box.box_type is Anonymous) ==> layout_box.styled_node is Some,
    ensures
        r == spec_get_color(box_model(*layout_box), name@),
{
    match layout_box.box_type {
        BoxType::Block | BoxType::Inline => {
            let sn = match layout_box.styled_node {
                Some(s) => s,
                None => {
                    proof {
                        assert(false);
                    }
                    return None;
                },
            };
            match sn.css_properties.get(name) {
                Some(v) => match v {
                    crate::css_parser::declaration_value::DeclarationValue::Color(c) => Some(*c),
                    _ => None,
                },
                None => None,
            }
        },
        BoxType::Anonymous => None,
    }
}

/// Append a box's background command to the list, if it has one.
pub fn render_background(list: &mut Vec<DisplayCommand>, layout_box: &LayoutBox)
    requires
        layout_box.wf(),
        !(layout_box.box_type is Anonymous) ==> layout_box.styled_node is Some,
    ensures
        final(list)@ == old(list)@ + spec_background_cmds(box_model(*layout_box)),
{
    let ghost pre = list@;
    match get_color(layout_box, "background") {
        Some(color) => {
            list.push(DisplayCommand::SolidColor(color, layout_box.dimensions.border_box()));
            proof {
                assert(list@ =~= pre + spec_background_cmds(box_model(*layout_box)));
            }
        },
        None => {
            proof {
                assert(list@ =~= pre + spec_background_cmds(box_model(*layout_box)));
            }
        },
    }
}

/// Append a box's four border commands to the list, if it has a
/// border color.
pub fn render_borders(list: &mut Vec<DisplayCommand>, layout_box: &LayoutBox)
    requires
        layout_box.wf(),
        !(layout_box.box_type is Anonymous) ==> layout_box.styled_node is Some,
    ensures
        final(list)@ == old(list)@ + spec_border_cmds(box_model(*layout_box)),
{
    let ghost pre = list@;
    let color = match get_color(layout_box, "border-color") {
        Some(color) => color,
        None => {
            proof {
                assert(list@ =~= pre + spec_border_cmds(box_model(*layout_box)));
            }
            return ;
        },
    };
    let d = &layout_box.dimensions;
    let border_box = d.border_box();
    list.push(
        DisplayCommand::SolidColor(
            color,
            Rectangle {
                x: border_box.x,
                y: border_box.y,
                width: d.border.left,
                height: border_box.height,
            },
        ),
    );
    list.push(
        DisplayCommand::SolidColor(
            color,
            Rectangle {
                x: ssub(sadd(border_box.x, border_box.width), d.border.right),
                y: border_box.y,
                width: d.border.right,
                height: border_box.height,
            },
        ),
    );
    list.push(
        DisplayCommand::SolidColor(
            color,
            Rectangle {
                x: border_box.x,
                y: border_box.y,
                width: border_box.width,
                height: d.border.top,
            },
        ),
    );
    list.push(
        DisplayCommand::SolidColor(
            color,
            Rectangle {
                x: border_box.x,
                y: ssub(sadd(border_box.y, border_box.height), d.border.bottom),
                width: border_box.width,
                height: d.border.bottom,
            },
        ),
    );
    proof {
        assert(list@ =~= pre + spec_border_cmds(box_model(*layout_box)));
    }
}

/// The display list of one box subtree: its own commands, then its
/// children's.
#[verifier::loop_isolation(false)]
fn display_list_of(layout_box: &LayoutBox) -> (r: Vec<DisplayCommand>)
    requires
        layout_box.wf(),
        model_render_ready(box_model(*layout_box)),
    ensures
        r@ == spec_display_list(box_model(*layout_box)),
    decreases *layout_box,
{
    let mut list: Vec<DisplayCommand> = Vec::new();
    render_background(&mut list, layout_box);
    render_borders(&mut list, layout_box);
    let ghost own = list@;
    let n = layout_box.children.len();
    let mut i: usize = 0;
    while i < n
        invariant
            n == layout_box.children.len(),
            i <= n,
            list@ == own + spec_display_list_children_prefix(box_model(*layout_box).children, i as int),
        decreases n - i,
    {
        proof {
            assert(box_model(*layout_box).children[i as int] == box_model(
                layout_box.children[i as int],
            ));
            assert(layout_box.children[i as int].wf());
            assert(model_render_ready(box_model(*layout_box).children[i as int]));
        }
        let mut sub = display_list_of(&layout_box.children[i]);
        list.append(&mut sub);
        proof {
            lemma_display_prefix_step(box_model(*layout_box).children, i as int);
        }
        i = i + 1;
    }
    proof {
        lemma_display_prefix_full(box_model(*layout_box).children);
        assert(list@ =~= spec_display_list(box_model(*layout_box)));
    }
    list
}

/// The concatenated display lists of the first `i` children.
pub open spec fn spec_display_list_children_prefix(children: Seq<BoxModel>, i: int) -> Seq<
    DisplayCommand,
>
    decreases i,
{
    if i <= 0 || i > children.len() {
        Seq::empty()
    } else {
        spec_display_list_children_prefix(children, i - 1) + spec_display_list(children[i - 1])
    }
}

proof fn lemma_display_prefix_step(children: Seq<BoxModel>, i: int)
    requires
        0 <= i < children.len(),
    ensures
        spec_display_list_children_prefix(children, i + 1)
            == spec_display_list_children_prefix(children, i) + spec_display_list(children[i]),
{
}

proof fn lemma_display_prefix_full(children: Seq<BoxModel>)
    ensures
        spec_display_list_children_prefix(children, children.len() as int)
            =~= spec_display_list_children(children, 0),
    decreases children.len(),
{
    lemma_display_prefix_suffix(children, 0);
}

proof fn lemma_display_prefix_suffix(children: Seq<BoxModel>, i: int)
    requires
        0 <= i <= children.len(),
    ensures
        spec_display_list_children_prefix(children, i) + spec_display_list_children(children, i)
            =~= spec_display_list_children_prefix(children, children.len() as int),
    decreases children.len() - i,
{
    if i == children.len() {
        assert(spec_display_list_children_prefix(children, i) + Seq::<DisplayCommand>::empty()
            =~= spec_display_list_children_prefix(children, i));
    } else {
        lemma_display_prefix_suffix(children, i + 1);
        lemma_display_prefix_step(children, i);
        assert((spec_display_list_children_prefix(children, i) + spec_display_list(children[i]))
            + spec_display_list_children(children, i + 1)
            =~= spec_display_list_children_prefix(children, i) + (spec_display_list(children[i])
            + spec_display_list_children(children, i + 1)));
    }
}

/// Walk a box subtree in paint order, appending its commands to the
/// list.
pub fn render_layout_box(list: &mut Vec<DisplayCommand>, layout_box: &LayoutBox)
    requires
        layout_box.wf(),
        model_render_ready(box_model(*layout_box)),
    ensures
        final(list)@ == old(list)@ + spec_display_list(box_model(*layout_box)),
{
    let mut sub = display_list_of(layout_box);
    list.append(&mut sub);
}

/// The flat, ordered display list of a laid-out box tree: each box's
/// background, then its borders, then its children, ancestors first.
pub fn build_display_list(layout_root: &LayoutBox) -> (r: Vec<DisplayCommand>)
    requires
        layout_root.wf(),
        model_render_ready(box_model(*layout_root)),
    ensures
        r@ == spec_display_list(box_model(*layout_root)),
{
    let mut list: Vec<DisplayCommand> = Vec::new();
    render_layout_box(&mut list, layout_root);
    proof {
        assert(list@ =~= spec_display_list(box_model(*layout_root)));
    }
    list
}

/// A tree that came out of block layout is ready to paint: layout
/// succeeds only on block boxes, and a laid-out block box keeps its
/// resolved properties.
pub proof fn lemma_layout_render_ready(b: BoxModel, cb: Dimensions, res: BoxModel)
    requires
        spec_create_layout(b, cb) == Ok::<BoxModel, crate::render_error::RenderError>(res),
    ensures
        model_render_ready(res),
    decreases b, 2int,
{
    let props = b.props->0;
    let d0 = crate::layout_tree_builder::layout_box::spec_position_step(
        props,
        cb,
        crate::layout_tree_builder::layout_box::spec_width_step(
            props,
            cb.content_area.width as int,
            b.dimensions,
        ),
    );
    lemma_layout_children_render_ready(b.children, 0, d0, res.children);
}

proof fn lemma_layout_children_render_ready(
    children: Seq<BoxModel>,
    i: int,
    d: Dimensions,
    out: Seq<BoxModel>,
)
    requires
        crate::layout_tree_builder::layout_box::spec_layout_children(children, i, d) matches Ok(p)
            && p.0 == out,
    ensures
        forall|j: int| 0 <= j < out.len() ==> model_render_ready(#[trigger] out[j]),
    decreases children, children.len() - i, 3int,
{
    if 0 <= i < children.len() {
        match crate::layout_tree_builder::layout_box::spec_create_layout(children[i], d) {
            Ok(c) => {
                lemma_layout_render_ready(children[i], d, c);
                let d2 = Dimensions {
                    content_area: Rectangle {
                        height: spec_sadd(
                            d.content_area.height as int,
                            crate::layout_tree_builder::dimensions::spec_margin_box(
                                c.dimensions,
                            ).height as int,
                        ) as crate::px::Px,
                        ..d.content_area
                    },
                    ..d
                };
                match crate::layout_tree_builder::layout_box::spec_layout_children(
                    children,
                    i + 1,
                    d2,
                ) {
                    Ok(rest) => {
                        lemma_layout_children_render_ready(children, i + 1, d2, rest.0);
                        assert forall|j: int| 0 <= j < out.len() implies model_render_ready(
                            #[trigger] out[j],
                        ) by {
                            if j == 0 {
                                assert(out[0] == c);
                            } else {
                                assert(out[j] == rest.0[j - 1]);
                            }
                        }
                    },
                    Err(_) => {},
                }
            },
            Err(_) => {},
        }
    }
}

} // verus!
