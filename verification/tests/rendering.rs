use rendercore::css_parser::CSSParser;
use rendercore::css_parser::color_value::ColorValue;
use rendercore::general_parser::GeneralParser;
use rendercore::html_parser::HTMLParser;
use rendercore::layout_tree_builder::build_layout_tree;
use rendercore::layout_tree_builder::dimensions::Dimensions;
use rendercore::layout_tree_builder::dimensions::Rectangle;
use rendercore::render::build_display_list;
use rendercore::render::canvas::Canvas;
use rendercore::render::display_command::DisplayCommand;
use rendercore::layout_tree_builder::box_type::BoxType;
use rendercore::layout_tree_builder::layout_box::LayoutBox;
use rendercore::style_tree_builder::create_styled_node;

const RED: ColorValue = ColorValue {
    r: 255,
    g: 0,
    b: 0,
    a: 255,
};

const WHITE: ColorValue = ColorValue {
    r: 255,
    g: 255,
    b: 255,
    a: 255,
};

fn rect(x: i64, y: i64, width: i64, height: i64) -> Rectangle {
    Rectangle {
        x,
        y,
        width,
        height,
    }
}

#[test]
fn canvas_starts_all_white() {
    let canvas = Canvas::new(4, 3);
    assert_eq!(12, canvas.pixels.len());
    assert!(canvas.pixels.iter().all(|p| *p == WHITE));
}

#[test]
fn rasterizer_clips_left_overhang_to_the_buffer() {
    // A rectangle at x = -10px, 50px wide, on a 30px-wide buffer
    // paints columns [0, 30) only.
    let mut canvas = Canvas::new(30, 2);
    canvas.paint_item(&DisplayCommand::SolidColor(RED, rect(-100, 0, 500, 20)));
    for y in 0..2 {
        for x in 0..30 {
            assert_eq!(RED, canvas.pixels[y * 30 + x]);
        }
    }
}

#[test]
fn rasterizer_clips_partial_overlap() {
    let mut canvas = Canvas::new(30, 1);
    canvas.paint_item(&DisplayCommand::SolidColor(RED, rect(-100, 0, 200, 10)));
    for x in 0..30 {
        let expected = if x < 10 { RED } else { WHITE };
        assert_eq!(expected, canvas.pixels[x]);
    }
}

#[test]
fn rasterizer_ignores_rectangles_outside_the_buffer() {
    let mut canvas = Canvas::new(30, 2);
    canvas.paint_item(&DisplayCommand::SolidColor(RED, rect(400, 0, 100, 10)));
    canvas.paint_item(&DisplayCommand::SolidColor(RED, rect(0, -300, 300, 100)));
    assert!(canvas.pixels.iter().all(|p| *p == WHITE));
}

#[test]
fn later_commands_overwrite_earlier_ones() {
    let blue = ColorValue {
        r: 0,
        g: 0,
        b: 255,
        a: 255,
    };
    let mut canvas = Canvas::new(10, 1);
    canvas.paint_item(&DisplayCommand::SolidColor(RED, rect(0, 0, 100, 10)));
    canvas.paint_item(&DisplayCommand::SolidColor(blue, rect(0, 0, 50, 10)));
    for x in 0..10 {
        let expected = if x < 5 { blue } else { RED };
        assert_eq!(expected, canvas.pixels[x]);
    }
}

#[test]
fn end_to_end_single_red_block_fills_the_buffer() {
    // A single block with background #ff0000, width 100px, height
    // 50px and no edges, rendered into a 100-by-50 buffer: every
    // pixel is (255, 0, 0, 255), and only one command is emitted.
    let mut html_parser = HTMLParser {
        general_parser: GeneralParser {
            content: String::from("<div></div>"),
            current_position: 0,
        },
    };
    let dom = html_parser.parse().unwrap();

    let mut css_parser = CSSParser {
        general_parser: GeneralParser {
            content: String::from(
                "div { display: block; background: #ff0000; width: 100px; height: 50px; }",
            ),
            current_position: 0,
        },
    };
    let stylesheet = css_parser.parse().unwrap();

    let styled = create_styled_node(&dom, &stylesheet);
    let mut layout_root = build_layout_tree(&styled).unwrap();
    let mut viewport = Dimensions::default();
    viewport.content_area.width = 1000;
    layout_root.create_layout(&viewport).unwrap();

    let display_list = build_display_list(&layout_root);
    assert_eq!(1, display_list.len());
    let DisplayCommand::SolidColor(color, area) = display_list[0];
    assert_eq!(RED, color);
    assert_eq!(rect(0, 0, 1000, 500), area);

    let canvas = Canvas::paint(&layout_root, rect(0, 0, 1000, 500));
    assert_eq!(100, canvas.width);
    assert_eq!(50, canvas.height);
    assert_eq!(5000, canvas.pixels.len());
    assert!(canvas.pixels.iter().all(|p| *p == RED));
}

#[test]
fn borders_emit_four_edge_commands() {
    let mut html_parser = HTMLParser {
        general_parser: GeneralParser {
            content: String::from("<div></div>"),
            current_position: 0,
        },
    };
    let dom = html_parser.parse().unwrap();
    let mut css_parser = CSSParser {
        general_parser: GeneralParser {
            content: String::from(
                "div { display: block; border-color: #ff0000; width: 10px; border-left: 1px; border-top-width: 2px; }",
            ),
            current_position: 0,
        },
    };
    let stylesheet = css_parser.parse().unwrap();
    let styled = create_styled_node(&dom, &stylesheet);
    let mut layout_root = build_layout_tree(&styled).unwrap();
    let mut viewport = Dimensions::default();
    viewport.content_area.width = 200;
    layout_root.create_layout(&viewport).unwrap();
    let display_list = build_display_list(&layout_root);
    assert_eq!(4, display_list.len());
    // Left edge: 1px wide; top edge: 2px thick; right and bottom have
    // zero thickness but still emit zero-area commands.
    let DisplayCommand::SolidColor(_, left) = display_list[0];
    assert_eq!(10, left.width);
    let DisplayCommand::SolidColor(_, right) = display_list[1];
    assert_eq!(0, right.width);
    let DisplayCommand::SolidColor(_, top) = display_list[2];
    assert_eq!(20, top.height);
    let DisplayCommand::SolidColor(_, bottom) = display_list[3];
    assert_eq!(0, bottom.height);
}

#[test]
fn anonymous_boxes_paint_nothing_themselves() {
    let anon: LayoutBox = LayoutBox::new(BoxType::Anonymous);
    let display_list = build_display_list(&anon);
    assert!(display_list.is_empty());
}

#[test]
fn nested_blocks_paint_child_over_parent() {
    let mut html_parser = HTMLParser {
        general_parser: GeneralParser {
            content: String::from("<div><p></p></div>"),
            current_position: 0,
        },
    };
    let dom = html_parser.parse().unwrap();
    let mut css_parser = CSSParser {
        general_parser: GeneralParser {
            content: String::from(
                "div { display: block; background: #0000ff; width: 10px; } p { display: block; background: #ff0000; height: 4px; margin-left: 2px; }",
            ),
            current_position: 0,
        },
    };
    let stylesheet = css_parser.parse().unwrap();
    let styled = create_styled_node(&dom, &stylesheet);
    let mut layout_root = build_layout_tree(&styled).unwrap();
    let mut viewport = Dimensions::default();
    viewport.content_area.width = 100;
    layout_root.create_layout(&viewport).unwrap();

    // The child's auto width fills the parent minus its margin, and
    // the parent's auto height is the child's margin-box height.
    assert_eq!(40, layout_root.dimensions.content_area.height);
    assert_eq!(80, layout_root.children[0].dimensions.content_area.width);
    assert_eq!(20, layout_root.children[0].dimensions.content_area.x);

    let display_list = build_display_list(&layout_root);
    assert_eq!(2, display_list.len());

    let blue = ColorValue {
        r: 0,
        g: 0,
        b: 255,
        a: 255,
    };
    let canvas = Canvas::paint(&layout_root, rect(0, 0, 100, 40));
    assert_eq!((10, 4), (canvas.width, canvas.height));
    for y in 0..4 {
        for x in 0..10 {
            let expected = if x >= 2 { RED } else { blue };
            assert_eq!(expected, canvas.pixels[y * 10 + x]);
        }
    }
}
