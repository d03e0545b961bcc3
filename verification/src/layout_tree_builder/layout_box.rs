//! Layout boxes and the block-layout algorithm: width distribution,
//! vertical positioning, child stacking and the height override.

use vstd::prelude::*;
use crate::css_parser::declaration_value::DeclarationValue;
use crate::css_parser::declaration_value::ValueModel;
use crate::css_parser::declaration_value::auto_model;
use crate::layout_tree_builder::box_type::BoxType;
use crate::layout_tree_builder::dimensions::Dimensions;
use crate::layout_tree_builder::dimensions::Rectangle;
use crate::layout_tree_builder::dimensions::Size;
use crate::layout_tree_builder::dimensions::spec_margin_box;
use crate::px::Px;
use crate::px::sadd;
use crate::px::shalf;
use crate::px::spec_sadd;
use crate::px::spec_shalf;
use crate::px::spec_ssub;
use crate::px::ssub;
use crate::render_error::RenderError;
use crate::style_tree_builder::styled_node::StyledNode;

verus! {

broadcast use vstd::std_specs::vec::axiom_vec_index_decreases;

/// The mathematical content of a layout box: the resolved properties
/// of its styled node (none for anonymous boxes), its geometry, its
/// kind, and its children.
pub struct BoxModel {
    pub props: Option<Map<Seq<char>, ValueModel>>,
    pub dimensions: Dimensions,
    pub box_type: BoxType,
    pub children: Seq<BoxModel>,
}

/// One box of the layout tree. Block and inline boxes reference the
/// styled node they came from; anonymous wrappers carry none.
pub struct LayoutBox<'a> {
    pub styled_node: Option<&'a StyledNode>,
    pub dimensions: Dimensions,
    pub box_type: BoxType,
    pub children: Vec<LayoutBox<'a>>,
}

/// The mathematical content of a layout box: its styled node's
/// resolved properties (none for anonymous boxes), its geometry, its
/// kind, and the models of its children.
pub open spec fn box_model<'a>(b: LayoutBox<'a>) -> BoxModel
    decreases b,
{
    BoxModel {
        props: match b.styled_node {
            Some(sn) => Some(sn@.props),
            None => None,
        },
        dimensions: b.dimensions,
        box_type: b.box_type,
        children: Seq::new(
            b.children.len() as nat,
            |i: int|
                if 0 <= i < b.children.len() {
                    box_model(b.children[i])
                } else {
                    BoxModel {
                        props: None,
                        dimensions: crate::layout_tree_builder::dimensions::spec_zero_dimensions(),
                        box_type: BoxType::Anonymous,
                        children: Seq::empty(),
                    }
                },
        ),
    }
}

/// The property map a box reads, or the given default when the
/// property is absent.
pub open spec fn spec_prop_or(
    props: Map<Seq<char>, ValueModel>,
    name: Seq<char>,
    default: ValueModel,
) -> ValueModel {
    if props.contains_key(name) {
        props[name]
    } else {
        default
    }
}

/// A length property with default zero.
pub open spec fn spec_len_prop(props: Map<Seq<char>, ValueModel>, name: Seq<char>) -> ValueModel {
    spec_prop_or(props, name, ValueModel::Length(0))
}

/// A value is usable in a numeric context: a length, or the keyword
/// `auto` (which counts as zero).
pub open spec fn val_ok(v: ValueModel) -> bool {
    v is Length || v == auto_model()
}

/// The numeric contribution of a value: a length's count, zero
/// otherwise.
pub open spec fn val_num(v: ValueModel) -> int {
    match v {
        ValueModel::Length(n) => n,
        _ => 0,
    }
}

/// The `width` value of a box, default `auto`.
pub open spec fn spec_width_value(props: Map<Seq<char>, ValueModel>) -> ValueModel {
    spec_prop_or(props, "width"@, auto_model())
}

/// All seven horizontal contributions are usable in a numeric context.
pub open spec fn spec_width_css_ok(props: Map<Seq<char>, ValueModel>) -> bool {
    &&& val_ok(spec_width_value(props))
    &&& val_ok(spec_len_prop(props, "margin-left"@))
    &&& val_ok(spec_len_prop(props, "margin-right"@))
    &&& val_ok(spec_len_prop(props, "padding-left"@))
    &&& val_ok(spec_len_prop(props, "padding-right"@))
    &&& val_ok(spec_len_prop(props, "border-left"@))
    &&& val_ok(spec_len_prop(props, "border-right"@))
}

/// The declared horizontal sum: width, paddings, margins and borders,
/// `auto` counting as zero, added left to right with saturation.
pub open spec fn spec_width_sum(props: Map<Seq<char>, ValueModel>) -> int {
    spec_sadd(
        spec_sadd(
            spec_sadd(
                spec_sadd(
                    spec_sadd(
                        spec_sadd(
                            val_num(spec_width_value(props)),
                            val_num(spec_len_prop(props, "padding-left"@)),
                        ),
                        val_num(spec_len_prop(props, "padding-right"@)),
                    ),
                    val_num(spec_len_prop(props, "margin-left"@)),
                ),
                val_num(spec_len_prop(props, "margin-right"@)),
            ),
            val_num(spec_len_prop(props, "border-left"@)),
        ),
        val_num(spec_len_prop(props, "border-right"@)),
    )
}

/// The resolved (width, margin-left, margin-right) triple of the width
/// algorithm, by which of the three are `auto`. Exactly one of five
/// cases applies; the underflow is the containing width minus the
/// declared sum.
pub open spec fn spec_width_resolved(props: Map<Seq<char>, ValueModel>, cbw: int) -> (
    int,
    int,
    int,
) {
    let w = spec_width_value(props);
    let ml = spec_len_prop(props, "margin-left"@);
    let mr = spec_len_prop(props, "margin-right"@);
    let sum = spec_width_sum(props);
    let wauto = w == auto_model();
    let force = !wauto && sum > cbw;
    let ml1 = if force && ml == auto_model() {
        ValueModel::Length(0)
    } else {
        ml
    };
    let mr1 = if force && mr == auto_model() {
        ValueModel::Length(0)
    } else {
        mr
    };
    let u = spec_ssub(cbw, sum);
    if !wauto && ml1 != auto_model() && mr1 != auto_model() {
        (val_num(w), val_num(ml1), spec_sadd(val_num(mr1), u))
    } else if !wauto && ml1 != auto_model() && mr1 == auto_model() {
        (val_num(w), val_num(ml1), u)
    } else if !wauto && ml1 == auto_model() && mr1 != auto_model() {
        (val_num(w), u, val_num(mr1))
    } else if wauto {
        let ml2 = if ml1 == auto_model() {
            0int
        } else {
            val_num(ml1)
        };
        let mr2 = if mr1 == auto_model() {
            0int
        } else {
            val_num(mr1)
        };
        if u >= 0 {
            (u, ml2, mr2)
        } else {
            (0int, ml2, spec_sadd(mr2, u))
        }
    } else {
        (val_num(w), spec_shalf(u), spec_shalf(u))
    }
}

/// The geometry after the width step: content width, horizontal
/// margins, paddings and borders are set; everything else is kept.
pub open spec fn spec_width_step(
    props: Map<Seq<char>, ValueModel>,
    cbw: int,
    d: Dimensions,
) -> Dimensions {
    let resolved = spec_width_resolved(props, cbw);
    Dimensions {
        content_area: Rectangle { width: resolved.0 as Px, ..d.content_area },
        padding: Size {
            left: val_num(spec_len_prop(props, "padding-left"@)) as Px,
            right: val_num(spec_len_prop(props, "padding-right"@)) as Px,
            ..d.padding
        },
        border: Size {
            left: val_num(spec_len_prop(props, "border-left"@)) as Px,
            right: val_num(spec_len_prop(props, "border-right"@)) as Px,
            ..d.border
        },
        margin: Size { left: resolved.1 as Px, right: resolved.2 as Px, ..d.margin },
    }
}

/// All six vertical contributions are usable in a numeric context.
pub open spec fn spec_position_ok(props: Map<Seq<char>, ValueModel>) -> bool {
    &&& val_ok(spec_len_prop(props, "margin-top"@))
    &&& val_ok(spec_len_prop(props, "margin-bottom"@))
    &&& val_ok(spec_len_prop(props, "border-top-width"@))
    &&& val_ok(spec_len_prop(props, "border-bottom-width"@))
    &&& val_ok(spec_len_prop(props, "padding-top"@))
    &&& val_ok(spec_len_prop(props, "padding-bottom"@))
}

/// The geometry after the position step: vertical edges are resolved,
/// and the content origin is placed inside the containing block, below
/// its accumulated content height.
pub open spec fn spec_position_step(
    props: Map<Seq<char>, ValueModel>,
    cb: Dimensions,
    d: Dimensions,
) -> Dimensions {
    let mt = val_num(spec_len_prop(props, "margin-top"@));
    let mb = val_num(spec_len_prop(props, "margin-bottom"@));
    let bt = val_num(spec_len_prop(props, "border-top-width"@));
    let bb = val_num(spec_len_prop(props, "border-bottom-width"@));
    let pt = val_num(spec_len_prop(props, "padding-top"@));
    let pb = val_num(spec_len_prop(props, "padding-bottom"@));
    let x = spec_sadd(
        spec_sadd(
            spec_sadd(cb.content_area.x as int, d.margin.left as int),
            d.border.left as int,
        ),
        d.padding.left as int,
    );
    let y = spec_sadd(
        spec_sadd(
            spec_sadd(
                spec_sadd(cb.content_area.height as int, cb.content_area.y as int),
                mt,
            ),
            bt,
        ),
        pt,
    );
    Dimensions {
        content_area: Rectangle { x: x as Px, y: y as Px, ..d.content_area },
        padding: Size { top: pt as Px, bottom: pb as Px, ..d.padding },
        border: Size { top: bt as Px, bottom: bb as Px, ..d.border },
        margin: Size { top: mt as Px, bottom: mb as Px, ..d.margin },
    }
}

/// The geometry after the height step: an explicit pixel `height`
/// replaces the accumulated content height; anything else leaves it.
pub open spec fn spec_height_step(props: Map<Seq<char>, ValueModel>, d: Dimensions) -> Dimensions {
    if props.contains_key("height"@) && props["height"@] is Length {
        Dimensions {
            content_area: Rectangle {
                height: val_num(props["height"@]) as Px,
                ..d.content_area
            },
            ..d
        }
    } else {
        d
    }
}

/// The laid-out box a box resolves to against a containing block, or
/// the fatal error the attempt raises. Only block boxes can be laid
/// out; a block box needs a styled node and numeric-usable values.
pub open spec fn spec_create_layout(b: BoxModel, cb: Dimensions) -> Result<BoxModel, RenderError>
    decreases b, 1int,
{
    if b.box_type != BoxType::Block {
        Err(RenderError::UnsupportedBoxKind)
    } else {
        match b.props {
            None => Err(RenderError::MissingStyledNode),
            Some(props) => if !spec_width_css_ok(props) {
                Err(RenderError::NonNumericValue)
            } else if !spec_position_ok(props) {
                Err(RenderError::NonNumericValue)
            } else {
                let d0 = spec_position_step(
                    props,
                    cb,
                    spec_width_step(props, cb.content_area.width as int, b.dimensions),
                );
                match spec_layout_children(b.children, 0, d0) {
                    Err(e) => Err(e),
                    Ok(done) => Ok(
                        BoxModel {
                            props: b.props,
                            dimensions: spec_height_step(props, done.1),
                            box_type: b.box_type,
                            children: done.0,
                        },
                    ),
                }
            },
        }
    }
}

/// Lay the children from index `i` on out against the parent's
/// geometry, adding each child's margin-box height to the parent's
/// content height, in document order.
pub open spec fn spec_layout_children(children: Seq<BoxModel>, i: int, d: Dimensions) -> Result<
    (Seq<BoxModel>, Dimensions),
    RenderError,
>
    decreases children, children.len() - i, 0int,
{
    if i < 0 || i >= children.len() {
        Ok((Seq::empty(), d))
    } else {
        match spec_create_layout(children[i], d) {
            Err(e) => Err(e),
            Ok(c) => {
                let d2 = Dimensions {
                    content_area: Rectangle {
                        height: spec_sadd(
                            d.content_area.height as int,
                            spec_margin_box(c.dimensions).height as int,
                        ) as Px,
                        ..d.content_area
                    },
                    ..d
                };
                match spec_layout_children(children, i + 1, d2) {
                    Err(e) => Err(e),
                    Ok(rest) => Ok((seq![c] + rest.0, rest.1)),
                }
            },
        }
    }
}

impl<'a> LayoutBox<'a> {
    /// The property maps this subtree references are all well formed.
    pub open spec fn wf(&self) -> bool
        decreases *self,
    {
        &&& match self.styled_node {
            Some(sn) => sn.css_properties.wf(),
            None => true,
        }
        &&& forall|i: int| 0 <= i < self.children.len() ==> (#[trigger] self.children[i]).wf()
    }

    /// A fresh box of the given kind: no styled node, zero geometry,
    /// no children.
    pub fn new(box_type: BoxType) -> (r: LayoutBox<'a>)
        ensures
            r.styled_node is None,
            r.dimensions == crate::layout_tree_builder::dimensions::spec_zero_dimensions(),
            r.box_type == box_type,
            r.children.len() == 0,
            r.wf(),
    {
        LayoutBox {
            styled_node: None,
            dimensions: Dimensions::default(),
            box_type,
            children: Vec::new(),
        }
    }
}

/// A property value of a styled node, or the given default when
/// absent.
fn css_value_or(sn: &StyledNode, name: &str, default: DeclarationValue) -> (r: DeclarationValue)
    requires
        sn.css_properties.wf(),
    ensures
        r@ == spec_prop_or(sn@.props, name@, default@),
{
    match sn.css_properties.get(name) {
        Some(v) => v.duplicate(),
        None => default,
    }
}

/// A length property of a styled node, default zero pixels.
fn css_len_or(sn: &StyledNode, name: &str) -> (r: DeclarationValue)
    requires
        sn.css_properties.wf(),
    ensures
        r@ == spec_len_prop(sn@.props, name@),
{
    css_value_or(sn, name, DeclarationValue::Length(0, crate::css_parser::length_unit::LengthUnit::Px))
}

/// The numeric contribution of a value known to be usable in a
/// numeric context.
fn numeric_of(v: &DeclarationValue) -> (n: Px)
    requires
        val_ok(v@),
    ensures
        n as int == val_num(v@),
{
    match v.length_to_numerical_value() {
        Some(n) => n,
        None => {
            proof {
                assert(false);
            }
            0
        },
    }
}

impl<'a> LayoutBox<'a> {
    /// Read the seven horizontal contributions from the styled node:
    /// the saturating declared sum, then width, margins, paddings and
    /// borders as declared (defaults: `auto` for width, zero length
    /// for the rest).
    pub fn calculate_width_from_css(&self) -> (r: Result<
        (
            Px,
            DeclarationValue,
            DeclarationValue,
            DeclarationValue,
            DeclarationValue,
            DeclarationValue,
            DeclarationValue,
            DeclarationValue,
        ),
        RenderError,
    >)
        requires
            self.wf(),
        ensures
            match self.styled_node {
                None => r == Err::<
                    (
                        Px,
                        DeclarationValue,
                        DeclarationValue,
                        DeclarationValue,
                        DeclarationValue,
                        DeclarationValue,
                        DeclarationValue,
                        DeclarationValue,
                    ),
                    RenderError,
                >(RenderError::MissingStyledNode),
                Some(sn) => if spec_width_css_ok(sn@.props) {
                    r matches Ok(t) && t.0 as int == spec_width_sum(sn@.props) && t.1@
                        == spec_width_value(sn@.props) && t.2@ == spec_len_prop(
                        sn@.props,
                        "margin-left"@,
                    ) && t.3@ == spec_len_prop(sn@.props, "margin-right"@) && t.4@
                        == spec_len_prop(sn@.props, "padding-left"@) && t.5@ == spec_len_prop(
                        sn@.props,
                        "padding-right"@,
                    ) && t.6@ == spec_len_prop(sn@.props, "border-left"@) && t.7@
                        == spec_len_prop(sn@.props, "border-right"@)
                } else {
                    r matches Err(e) && e == RenderError::NonNumericValue
                },
            },
    {
        let sn = match self.styled_node {
            Some(s) => s,
            None => {
                return Err(RenderError::MissingStyledNode);
            },
        };
        let width = css_value_or(sn, "width", DeclarationValue::Keyword("auto".to_owned()));
        let padding_left = css_len_or(sn, "padding-left");
        let padding_right = css_len_or(sn, "padding-right");
        let margin_left = css_len_or(sn, "margin-left");
        let margin_right = css_len_or(sn, "margin-right");
        let border_left = css_len_or(sn, "border-left");
        let border_right = css_len_or(sn, "border-right");
        let nw = match width.length_to_numerical_value() {
            Some(n) => n,
            None => {
                return Err(RenderError::NonNumericValue);
            },
        };
        let npl = match padding_left.length_to_numerical_value() {
            Some(n) => n,
            None => {
                return Err(RenderError::NonNumericValue);
            },
        };
        let npr = match padding_right.length_to_numerical_value() {
            Some(n) => n,
            None => {
                return Err(RenderError::NonNumericValue);
            },
        };
        let nml = match margin_left.length_to_numerical_value() {
            Some(n) => n,
            None => {
                return Err(RenderError::NonNumericValue);
            },
        };
        let nmr = match margin_right.length_to_numerical_value() {
            Some(n) => n,
            None => {
                return Err(RenderError::NonNumericValue);
            },
        };
        let nbl = match border_left.length_to_numerical_value() {
            Some(n) => n,
            None => {
                return Err(RenderError::NonNumericValue);
            },
        };
        let nbr = match border_right.length_to_numerical_value() {
            Some(n) => n,
            None => {
                return Err(RenderError::NonNumericValue);
            },
        };
        let width_sum = sadd(sadd(sadd(sadd(sadd(sadd(nw, npl), npr), nml), nmr), nbl), nbr);
        Ok(
            (
                width_sum,
                width,
                margin_left,
                margin_right,
                padding_left,
                padding_right,
                border_left,
                border_right,
            ),
        )
    }

    /// The width step: distribute the underflow between width and the
    /// horizontal margins by which of them are `auto`, and store the
    /// resolved horizontal geometry.
    pub fn calculate_width(&mut self, parent_block_dimensions: &Dimensions) -> (r: Result<
        (),
        RenderError,
    >)
        requires
            old(self).wf(),
        ensures
            final(self).styled_node == old(self).styled_node,
            final(self).box_type == old(self).box_type,
            final(self).children == old(self).children,
            final(self).wf(),
            match old(self).styled_node {
                None => r == Err::<(), RenderError>(RenderError::MissingStyledNode) && final(self).dimensions == old(self).dimensions,
                Some(sn) => if spec_width_css_ok(sn@.props) {
                    r == Ok::<(), RenderError>(()) && final(self).dimensions == spec_width_step(
                        sn@.props,
                        parent_block_dimensions.content_area.width as int,
                        old(self).dimensions,
                    )
                } else {
                    r == Err::<(), RenderError>(RenderError::NonNumericValue) && final(self).dimensions == old(self).dimensions
                },
            },
    {
        let (width_sum, width, mut margin_left, mut margin_right, padding_left, padding_right,
            border_left, border_right) = match self.calculate_width_from_css() {
            Ok(t) => t,
            Err(e) => {
                return Err(e);
            },
        };
        if !width.is_auto() && width_sum > parent_block_dimensions.content_area.width {
            if margin_left.is_auto() {
                margin_left = DeclarationValue::Length(
                    0,
                    crate::css_parser::length_unit::LengthUnit::Px,
                );
            }
            if margin_right.is_auto() {
                margin_right = DeclarationValue::Length(
                    0,
                    crate::css_parser::length_unit::LengthUnit::Px,
                );
            }
        }
        let underflow = ssub(parent_block_dimensions.content_area.width, width_sum);
        let mut final_width: Px = 0;
        let mut final_ml: Px = 0;
        let mut final_mr: Px = 0;
        match (width.is_auto(), margin_left.is_auto(), margin_right.is_auto()) {
            (false, false, false) => {
                final_width = numeric_of(&width);
                final_ml = numeric_of(&margin_left);
                final_mr = sadd(numeric_of(&margin_right), underflow);
            },
            (false, false, true) => {
                final_width = numeric_of(&width);
                final_ml = numeric_of(&margin_left);
                final_mr = underflow;
            },
            (false, true, false) => {
                final_width = numeric_of(&width);
                final_ml = underflow;
                final_mr = numeric_of(&margin_right);
            },
            (true, _, _) => {
                let ml2: Px = if margin_left.is_auto() {
                    0
                } else {
                    numeric_of(&margin_left)
                };
                let mr2: Px = if margin_right.is_auto() {
                    0
                } else {
                    numeric_of(&margin_right)
                };
                final_ml = ml2;
                if underflow >= 0 {
                    final_width = underflow;
                    final_mr = mr2;
                } else {
                    final_width = 0;
                    final_mr = sadd(mr2, underflow);
                }
            },
            (false, true, true) => {
                final_width = numeric_of(&width);
                final_ml = shalf(underflow);
                final_mr = shalf(underflow);
            },
        }
        self.dimensions.content_area.width = final_width;
        self.dimensions.padding.left = numeric_of(&padding_left);
        self.dimensions.padding.right = numeric_of(&padding_right);
        self.dimensions.border.left = numeric_of(&border_left);
        self.dimensions.border.right = numeric_of(&border_right);
        self.dimensions.margin.left = final_ml;
        self.dimensions.margin.right = final_mr;
        Ok(())
    }

    /// The position step: resolve the vertical edges and place the
    /// content origin inside the containing block, below its
    /// accumulated content height.
    pub fn calculate_position(&mut self, parent_block_dimensions: &Dimensions) -> (r: Result<
        (),
        RenderError,
    >)
        requires
            old(self).wf(),
        ensures
            final(self).styled_node == old(self).styled_node,
            final(self).box_type == old(self).box_type,
            final(self).children == old(self).children,
            final(self).wf(),
            match old(self).styled_node {
                None => r == Err::<(), RenderError>(RenderError::MissingStyledNode) && final(self).dimensions == old(self).dimensions,
                Some(sn) => if spec_position_ok(sn@.props) {
                    r == Ok::<(), RenderError>(()) && final(self).dimensions == spec_position_step(
                        sn@.props,
                        *parent_block_dimensions,
                        old(self).dimensions,
                    )
                } else {
                    r == Err::<(), RenderError>(RenderError::NonNumericValue) && final(self).dimensions == old(self).dimensions
                },
            },
    {
        let sn = match self.styled_node {
            Some(s) => s,
            None => {
                return Err(RenderError::MissingStyledNode);
            },
        };
        let margin_top = css_len_or(sn, "margin-top");
        let margin_bottom = css_len_or(sn, "margin-bottom");
        let border_top = css_len_or(sn, "border-top-width");
        let border_bottom = css_len_or(sn, "border-bottom-width");
        let padding_top = css_len_or(sn, "padding-top");
        let padding_bottom = css_len_or(sn, "padding-bottom");
        let mt = match margin_top.length_to_numerical_value() {
            Some(n) => n,
            None => {
                return Err(RenderError::NonNumericValue);
            },
        };
        let mb = match margin_bottom.length_to_numerical_value() {
            Some(n) => n,
            None => {
                return Err(RenderError::NonNumericValue);
            },
        };
        let bt = match border_top.length_to_numerical_value() {
            Some(n) => n,
            None => {
                return Err(RenderError::NonNumericValue);
            },
        };
        let bb = match border_bottom.length_to_numerical_value() {
            Some(n) => n,
            None => {
                return Err(RenderError::NonNumericValue);
            },
        };
        let pt = match padding_top.length_to_numerical_value() {
            Some(n) => n,
            None => {
                return Err(RenderError::NonNumericValue);
            },
        };
        let pb = match padding_bottom.length_to_numerical_value() {
            Some(n) => n,
            None => {
                return Err(RenderError::NonNumericValue);
            },
        };
        self.dimensions.margin.top = mt;
        self.dimensions.margin.bottom = mb;
        self.dimensions.border.top = bt;
        self.dimensions.border.bottom = bb;
        self.dimensions.padding.top = pt;
        self.dimensions.padding.bottom = pb;
        self.dimensions.content_area.x = sadd(
            sadd(
                sadd(parent_block_dimensions.content_area.x, self.dimensions.margin.left),
                self.dimensions.border.left,
            ),
            self.dimensions.padding.left,
        );
        self.dimensions.content_area.y = sadd(
            sadd(
                sadd(
                    sadd(
                        parent_block_dimensions.content_area.height,
                        parent_block_dimensions.content_area.y,
                    ),
                    self.dimensions.margin.top,
                ),
                self.dimensions.border.top,
            ),
            self.dimensions.padding.top,
        );
        Ok(())
    }

    /// The height step: an explicit pixel `height` declaration
    /// replaces the accumulated content height.
    pub fn calculate_height(&mut self) -> (r: Result<(), RenderError>)
        requires
            old(self).wf(),
        ensures
            final(self).styled_node == old(self).styled_node,
            final(self).box_type == old(self).box_type,
            final(self).children == old(self).children,
            final(self).wf(),
            match old(self).styled_node {
                None => r == Err::<(), RenderError>(RenderError::MissingStyledNode) && final(self).dimensions == old(self).dimensions,
                Some(sn) => r == Ok::<(), RenderError>(()) && final(self).dimensions
                    == spec_height_step(sn@.props, old(self).dimensions),
            },
    {
        let sn = match self.styled_node {
            Some(s) => s,
            None => {
                return Err(RenderError::MissingStyledNode);
            },
        };
        match sn.css_properties.get("height") {
            Some(v) => match v {
                DeclarationValue::Length(l, _) => {
                    self.dimensions.content_area.height = *l;
                },
                _ => {},
            },
            None => {},
        }
        Ok(())
    }

    /// Lay this box out as a block against the containing block,
    /// returning the laid-out tree: width, then position, then the
    /// children stacked vertically, then the height override.
    #[verifier::loop_isolation(false)]
    fn create_block_layout(&self, parent_block_dimensions: &Dimensions) -> (r: Result<
        LayoutBox<'a>,
        RenderError,
    >)
        requires
            self.wf(),
        ensures
            match r {
                Ok(res) => res.wf() && spec_create_layout(box_model(*self), *parent_block_dimensions)
                    == Ok::<BoxModel, RenderError>(box_model(res)),
                Err(e) => spec_create_layout(box_model(*self), *parent_block_dimensions) == Err::<BoxModel, RenderError>(e),
            },
        decreases *self,
    {
        if !matches!(self.box_type, BoxType::Block) {
            return Err(RenderError::UnsupportedBoxKind);
        }
        let mut result = LayoutBox {
            styled_node: self.styled_node,
            dimensions: self.dimensions,
            box_type: self.box_type,
            children: Vec::new(),
        };
        match result.calculate_width(parent_block_dimensions) {
            Ok(_) => {},
            Err(e) => {
                return Err(e);
            },
        }
        match result.calculate_position(parent_block_dimensions) {
            Ok(_) => {},
            Err(e) => {
                return Err(e);
            },
        }
        let ghost d0 = result.dimensions;
        let n = self.children.len();
        proof {
            assert(box_model(result).children =~= Seq::<BoxModel>::empty());
        }
        let mut i: usize = 0;
        while i < n
            invariant
                self.wf(),
                n == self.children.len(),
                i <= n,
                result.children.len() == i,
                result.styled_node == self.styled_node,
                result.box_type == self.box_type,
                result.styled_node is Some,
                result.wf(),
                matches!(self.box_type, BoxType::Block),
                match spec_layout_children(box_model(*self).children, i as int, result.dimensions) {
                    Ok(rest) => spec_layout_children(box_model(*self).children, 0, d0) == Ok::<
                        (Seq<BoxModel>, Dimensions),
                        RenderError,
                    >((box_model(result).children + rest.0, rest.1)),
                    Err(e) => spec_layout_children(box_model(*self).children, 0, d0) == Err::<
                        (Seq<BoxModel>, Dimensions),
                        RenderError,
                    >(e),
                },
            decreases n - i,
        {
            proof {
                assert(box_model(*self).children[i as int] == box_model(self.children[i as int]));
            }
            let laid = match self.children[i].create_block_layout(&result.dimensions) {
                Ok(b) => b,
                Err(e) => {
                    proof {
                        assert(spec_layout_children(box_model(*self).children, i as int, result.dimensions)
                            == Err::<(Seq<BoxModel>, Dimensions), RenderError>(e));
                    }
                    return Err(e);
                },
            };
            let ghost pre_children = box_model(result).children;
            let mh = laid.dimensions.margin_box().height;
            result.dimensions.content_area.height = sadd(
                result.dimensions.content_area.height,
                mh,
            );
            result.children.push(laid);
            proof {
                assert(box_model(result).children =~= pre_children + seq![box_model(laid)]);
                assert(forall|rest0: Seq<BoxModel>|
                    (pre_children + seq![box_model(laid)]) + rest0 =~= pre_children + (seq![
                        box_model(laid),
                    ] + rest0));
            }
            i = i + 1;
        }
        proof {
            assert(spec_layout_children(box_model(*self).children, n as int, result.dimensions) == Ok::<
                (Seq<BoxModel>, Dimensions),
                RenderError,
            >((Seq::empty(), result.dimensions)));
            assert(box_model(result).children + Seq::<BoxModel>::empty() =~= box_model(result).children);
        }
        match result.calculate_height() {
            Ok(_) => {},
            Err(_) => {
                proof {
                    assert(false);
                }
                return Err(RenderError::MissingStyledNode);
            },
        }
        Ok(result)
    }

    /// Lay this box out against the containing block in place. Only
    /// block boxes are supported; on an error the box is unchanged and
    /// no partial geometry is produced.
    pub fn create_layout(&mut self, dimensions: &Dimensions) -> (r: Result<(), RenderError>)
        requires
            old(self).wf(),
        ensures
            match r {
                Ok(_) => final(self).wf() && spec_create_layout(box_model(*old(self)), *dimensions)
                    == Ok::<BoxModel, RenderError>(box_model(*final(self))),
                Err(e) => spec_create_layout(box_model(*old(self)), *dimensions) == Err::<BoxModel, RenderError>(e) && *final(self)
                    == *old(self),
            },
    {
        match self.box_type {
            BoxType::Block => {
                let laid = match self.create_block_layout(dimensions) {
                    Ok(b) => b,
                    Err(e) => {
                        return Err(e);
                    },
                };
                *self = laid;
                Ok(())
            },
            BoxType::Inline => Err(RenderError::UnsupportedBoxKind),
            BoxType::Anonymous => Err(RenderError::UnsupportedBoxKind),
        }
    }
}

} // verus!
