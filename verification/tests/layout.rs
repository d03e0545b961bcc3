use rendercore::css_parser::declaration_value::DeclarationValue;
use rendercore::css_parser::length_unit::LengthUnit;
use rendercore::layout_tree_builder::box_type::BoxType;
use rendercore::layout_tree_builder::build_layout_tree;
use rendercore::layout_tree_builder::dimensions::Dimensions;
use rendercore::layout_tree_builder::display_type::DisplayType;
use rendercore::layout_tree_builder::layout_box::LayoutBox;
use rendercore::render_error::RenderError;
use rendercore::str_map::StrMap;
use rendercore::style_tree_builder::styled_node::StyledNode;

fn length(tenths: i64) -> DeclarationValue {
    DeclarationValue::Length(tenths, LengthUnit::Px)
}

fn keyword(word: &str) -> DeclarationValue {
    DeclarationValue::Keyword(String::from(word))
}

fn styled(props: &[(&str, DeclarationValue)], children: Vec<StyledNode>) -> StyledNode {
    let mut map = StrMap::new();
    for (name, value) in props {
        map.insert(String::from(*name), value.clone());
    }
    StyledNode {
        css_properties: map,
        children,
    }
}

fn containing(width_tenths: i64) -> Dimensions {
    let mut d = Dimensions::default();
    d.content_area.width = width_tenths;
    d
}

#[test]
fn test_get_css_value_by_name() {
    let mut styled_node = styled(&[("display", keyword("none"))], Vec::new());
    assert_eq!(
        "none",
        styled_node
            .get_css_value_by_name(String::from("display"))
            .unwrap()
            .to_text()
    );

    styled_node.css_properties = StrMap::new();
    assert!(styled_node
        .get_css_value_by_name(String::from("display"))
        .is_none());
}

#[test]
fn test_get_display_value() {
    let mut styled_node = styled(&[("display", keyword("none"))], Vec::new());
    assert_eq!(DisplayType::Hidden, styled_node.get_display_value().unwrap());

    styled_node.css_properties = StrMap::new();
    assert_eq!(DisplayType::Inline, styled_node.get_display_value().unwrap());
}

#[test]
fn test_calculate_width() {
    let mut layout_box = LayoutBox::new(BoxType::Block);
    let styled_node = styled(
        &[
            ("width", length(75)),
            ("margin-left", keyword("auto")),
            ("margin-right", length(22)),
            ("border-left", length(156)),
            ("border-right", length(63)),
            ("padding-left", length(78)),
            ("padding-right", length(89)),
        ],
        Vec::new(),
    );
    layout_box.styled_node = Some(&styled_node);

    assert_eq!(
        Ok((
            483,
            length(75),
            keyword("auto"),
            length(22),
            length(78),
            length(89),
            length(156),
            length(63)
        )),
        layout_box.calculate_width_from_css()
    );
}

#[test]
fn width_single_auto_margin_takes_the_underflow() {
    // Containing content width 300px; the declared sum is 48.3px, so
    // the sole auto margin resolves to 251.7px.
    let styled_node = styled(
        &[
            ("width", length(75)),
            ("margin-left", keyword("auto")),
            ("margin-right", length(22)),
            ("border-left", length(156)),
            ("border-right", length(63)),
            ("padding-left", length(78)),
            ("padding-right", length(89)),
        ],
        Vec::new(),
    );
    let mut layout_box = LayoutBox::new(BoxType::Block);
    layout_box.styled_node = Some(&styled_node);

    layout_box.calculate_width(&containing(3000)).unwrap();
    assert_eq!(2517, layout_box.dimensions.margin.left);
    assert_eq!(22, layout_box.dimensions.margin.right);
    assert_eq!(75, layout_box.dimensions.content_area.width);
}

#[test]
fn width_auto_takes_the_underflow() {
    let styled_node = styled(&[("margin-left", length(100))], Vec::new());
    let mut layout_box = LayoutBox::new(BoxType::Block);
    layout_box.styled_node = Some(&styled_node);
    layout_box.calculate_width(&containing(3000)).unwrap();
    assert_eq!(2900, layout_box.dimensions.content_area.width);
    assert_eq!(100, layout_box.dimensions.margin.left);
    assert_eq!(0, layout_box.dimensions.margin.right);
}

#[test]
fn width_no_auto_overflows_into_margin_right() {
    let styled_node = styled(
        &[
            ("width", length(2000)),
            ("margin-left", length(500)),
            ("margin-right", length(700)),
        ],
        Vec::new(),
    );
    let mut layout_box = LayoutBox::new(BoxType::Block);
    layout_box.styled_node = Some(&styled_node);
    layout_box.calculate_width(&containing(3000)).unwrap();
    // underflow = 3000 - 3200 = -200; margin-right absorbs it.
    assert_eq!(500, layout_box.dimensions.margin.left);
    assert_eq!(500, layout_box.dimensions.margin.right);
    assert_eq!(2000, layout_box.dimensions.content_area.width);
}

#[test]
fn width_both_margins_auto_split_the_underflow() {
    let styled_node = styled(
        &[
            ("width", length(1000)),
            ("margin-left", keyword("auto")),
            ("margin-right", keyword("auto")),
        ],
        Vec::new(),
    );
    let mut layout_box = LayoutBox::new(BoxType::Block);
    layout_box.styled_node = Some(&styled_node);
    layout_box.calculate_width(&containing(3000)).unwrap();
    assert_eq!(1000, layout_box.dimensions.margin.left);
    assert_eq!(1000, layout_box.dimensions.margin.right);
    assert_eq!(1000, layout_box.dimensions.content_area.width);
}

#[test]
fn vertical_flow_stacks_children_and_accumulates_height() {
    // Two block children of margin-box heights 40px and 60px: the
    // parent's auto content height is 100px, and the second child's
    // content y equals the first child's margin-box bottom edge.
    let child_one = styled(
        &[("display", keyword("block")), ("height", length(400))],
        Vec::new(),
    );
    let child_two = styled(
        &[("display", keyword("block")), ("height", length(600))],
        Vec::new(),
    );
    let parent = styled(
        &[("display", keyword("block"))],
        vec![child_one, child_two],
    );

    let mut root = build_layout_tree(&parent).unwrap();
    root.create_layout(&containing(3000)).unwrap();

    assert_eq!(1000, root.dimensions.content_area.height);
    assert_eq!(2, root.children.len());
    assert_eq!(0, root.children[0].dimensions.content_area.y);
    assert_eq!(400, root.children[0].dimensions.content_area.height);
    let first_bottom = root.children[0].dimensions.margin_box().y
        + root.children[0].dimensions.margin_box().height;
    assert_eq!(first_bottom, root.children[1].dimensions.content_area.y);
    assert_eq!(400, root.children[1].dimensions.content_area.y);
}

#[test]
fn explicit_height_overrides_accumulated_height() {
    let child = styled(
        &[("display", keyword("block")), ("height", length(400))],
        Vec::new(),
    );
    let parent = styled(
        &[("display", keyword("block")), ("height", length(123))],
        vec![child],
    );
    let mut root = build_layout_tree(&parent).unwrap();
    root.create_layout(&containing(3000)).unwrap();
    assert_eq!(123, root.dimensions.content_area.height);
}

#[test]
fn box_tree_groups_inline_runs_into_one_anonymous_wrapper() {
    let inline_one = styled(&[("display", keyword("inline"))], Vec::new());
    let inline_two = styled(&[("display", keyword("inline"))], Vec::new());
    let block_child = styled(&[("display", keyword("block"))], Vec::new());
    let inline_three = styled(&[("display", keyword("inline"))], Vec::new());
    let hidden = styled(&[("display", keyword("none"))], Vec::new());
    let parent = styled(
        &[("display", keyword("block"))],
        vec![inline_one, inline_two, block_child, hidden, inline_three],
    );

    let root = build_layout_tree(&parent).unwrap();
    assert_eq!(BoxType::Block, root.box_type);
    // Run of two inlines, then the block, then a fresh wrapper for the
    // trailing inline; the `none` child is omitted entirely.
    assert_eq!(3, root.children.len());
    assert_eq!(BoxType::Anonymous, root.children[0].box_type);
    assert_eq!(2, root.children[0].children.len());
    assert_eq!(BoxType::Inline, root.children[0].children[0].box_type);
    assert_eq!(BoxType::Block, root.children[1].box_type);
    assert_eq!(BoxType::Anonymous, root.children[2].box_type);
    assert_eq!(1, root.children[2].children.len());
}

#[test]
fn root_display_none_is_a_fatal_error() {
    let parent = styled(&[("display", keyword("none"))], Vec::new());
    assert!(matches!(build_layout_tree(&parent), Err(RenderError::RootDisplayNone)));
}

#[test]
fn unsupported_display_keyword_is_a_fatal_error() {
    let parent = styled(&[("display", keyword("grid"))], Vec::new());
    assert!(matches!(build_layout_tree(&parent), Err(RenderError::UnsupportedDisplay)));
}

#[test]
fn layout_on_a_non_block_box_is_a_fatal_error() {
    let parent = styled(&[("display", keyword("inline"))], Vec::new());
    let mut root = build_layout_tree(&parent).unwrap();
    assert_eq!(BoxType::Inline, root.box_type);
    assert_eq!(
        Err(RenderError::UnsupportedBoxKind),
        root.create_layout(&containing(3000))
    );
}

#[test]
fn non_numeric_width_is_a_fatal_error() {
    let color = DeclarationValue::Color(rendercore::css_parser::color_value::ColorValue {
        r: 1,
        g: 2,
        b: 3,
        a: 4,
    });
    let parent = styled(
        &[("display", keyword("block")), ("width", color)],
        Vec::new(),
    );
    let mut root = build_layout_tree(&parent).unwrap();
    assert_eq!(
        Err(RenderError::NonNumericValue),
        root.create_layout(&containing(3000))
    );
}

#[test]
fn block_without_styled_node_is_a_fatal_error() {
    let mut root: LayoutBox = LayoutBox::new(BoxType::Block);
    assert_eq!(
        Err(RenderError::MissingStyledNode),
        root.create_layout(&containing(3000))
    );
}

#[test]
fn margin_box_expands_content_by_all_edges() {
    let mut d = Dimensions::default();
    d.content_area.x = 100;
    d.content_area.y = 200;
    d.content_area.width = 50;
    d.content_area.height = 60;
    d.padding.left = 1;
    d.padding.right = 2;
    d.padding.top = 3;
    d.padding.bottom = 4;
    d.border.left = 5;
    d.border.right = 6;
    d.border.top = 7;
    d.border.bottom = 8;
    d.margin.left = 9;
    d.margin.right = 10;
    d.margin.top = 11;
    d.margin.bottom = 12;
    let mb = d.margin_box();
    assert_eq!(100 - 1 - 5 - 9, mb.x);
    assert_eq!(200 - 3 - 7 - 11, mb.y);
    assert_eq!(50 + 1 + 2 + 5 + 6 + 9 + 10, mb.width);
    assert_eq!(60 + 3 + 4 + 7 + 8 + 11 + 12, mb.height);
}
