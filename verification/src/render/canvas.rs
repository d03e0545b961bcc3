//! The pixel buffer and the painter that executes draw commands on
//! it.

use vstd::prelude::*;
use crate::css_parser::color_value::ColorValue;
use crate::layout_tree_builder::dimensions::Rectangle;
use crate::layout_tree_builder::layout_box::LayoutBox;
use crate::layout_tree_builder::layout_box::box_model;
use crate::px::PX_PER_PIXEL;
use crate::px::sadd;
use crate::px::spec_sadd;
use crate::render::display_command::DisplayCommand;
use crate::render::model_render_ready;
use crate::render::spec_display_list;

verus! {

/// Largest supported buffer side, in pixels; keeps the pixel count
/// within address range.
pub const MAX_DIM: usize = 32768;

/// Opaque white, the buffer's initial fill.
pub open spec fn spec_white() -> ColorValue {
    ColorValue { r: 255, g: 255, b: 255, a: 255 }
}

/// Clamp a `Px` coordinate into `[0, limit_px]` pixels and truncate to
/// whole pixels.
pub open spec fn spec_clip(v: int, limit_px: int) -> int {
    let c = if v < 0 {
        0
    } else if v > limit_px * (PX_PER_PIXEL as int) {
        limit_px * (PX_PER_PIXEL as int)
    } else {
        v
    };
    c / (PX_PER_PIXEL as int)
}

/// Whether the pixel at column `px`, row `py` lies inside the clipped
/// rectangle of a command on a `w`-by-`h` buffer.
pub open spec fn spec_in_clip(cmd: DisplayCommand, w: int, h: int, px: int, py: int) -> bool {
    match cmd {
        DisplayCommand::SolidColor(_, rect) => {
            let x0 = spec_clip(rect.x as int, w);
            let y0 = spec_clip(rect.y as int, h);
            let x1 = spec_clip(spec_sadd(rect.x as int, rect.width as int), w);
            let y1 = spec_clip(spec_sadd(rect.y as int, rect.height as int), h);
            x0 <= px < x1 && y0 <= py < y1
        },
    }
}

/// The command's fill color.
pub open spec fn spec_cmd_color(cmd: DisplayCommand) -> ColorValue {
    match cmd {
        DisplayCommand::SolidColor(c, _) => c,
    }
}

/// The buffer after one command: pixels inside the clipped rectangle
/// take the command's color, all others keep their value.
pub open spec fn spec_paint_one(
    pixels: Seq<ColorValue>,
    w: int,
    h: int,
    cmd: DisplayCommand,
) -> Seq<ColorValue> {
    Seq::new(
        pixels.len(),
        |idx: int|
            if w > 0 && spec_in_clip(cmd, w, h, idx % w, idx / w) {
                spec_cmd_color(cmd)
            } else {
                pixels[idx]
            },
    )
}

/// The buffer after the commands from index `i` on, executed in list
/// order.
pub open spec fn spec_paint_list(
    pixels: Seq<ColorValue>,
    w: int,
    h: int,
    cmds: Seq<DisplayCommand>,
    i: int,
) -> Seq<ColorValue>
    decreases cmds.len() - i,
{
    if i < 0 || i >= cmds.len() {
        pixels
    } else {
        spec_paint_list(spec_paint_one(pixels, w, h, cmds[i]), w, h, cmds, i + 1)
    }
}

/// A fixed-size pixel buffer, row-major.
pub struct Canvas {
    pub pixels: Vec<ColorValue>,
    pub width: usize,
    pub height: usize,
}

impl Canvas {
    /// The buffer holds exactly one color per pixel, within the
    /// supported size.
    pub open spec fn wf(&self) -> bool {
        &&& self.pixels.len() == self.width * self.height
        &&& self.width <= MAX_DIM
        &&& self.height <= MAX_DIM
    }

    /// A buffer of the given size, every pixel opaque white.
    pub fn new(width: usize, height: usize) -> (r: Canvas)
        requires
            width <= MAX_DIM,
            height <= MAX_DIM,
        ensures
            r.wf(),
            r.width == width,
            r.height == height,
            forall|i: int| 0 <= i < r.pixels.len() ==> r.pixels[i] == spec_white(),
    {
        let white = ColorValue { r: 255, g: 255, b: 255, a: 255 };
        proof {
            assert(width * height <= 0x4000_0000) by (nonlinear_arith)
                requires
                    width <= 32768,
                    height <= 32768,
            ;
        }
        let total: usize = width * height;
        let mut pixels: Vec<ColorValue> = Vec::new();
        let mut i: usize = 0;
        while i < total
            invariant
                i <= total,
                pixels.len() == i,
                white == spec_white(),
                forall|j: int| 0 <= j < i ==> pixels[j] == spec_white(),
            decreases total - i,
        {
            pixels.push(white);
            i = i + 1;
        }
        Canvas { pixels, width, height }
    }

    /// Execute one draw command: overwrite every pixel of the clipped
    /// rectangle with the command's color, without blending.
    #[verifier::loop_isolation(false)]
    pub fn paint_item(&mut self, item: &DisplayCommand)
        requires
            old(self).wf(),
        ensures
            final(self).wf(),
            final(self).width == old(self).width,
            final(self).height == old(self).height,
            final(self).pixels@ == spec_paint_one(
                old(self).pixels@,
                old(self).width as int,
                old(self).height as int,
                *item,
            ),
    {
        let DisplayCommand::SolidColor(color, rect) = *item;
        let w = self.width;
        let h = self.height;
        let wt: i64 = (w as i64) * PX_PER_PIXEL;
        let ht: i64 = (h as i64) * PX_PER_PIXEL;
        let cx0: i64 = if rect.x < 0 {
            0
        } else if rect.x > wt {
            wt
        } else {
            rect.x
        };
        let cy0: i64 = if rect.y < 0 {
            0
        } else if rect.y > ht {
            ht
        } else {
            rect.y
        };
        let ex: i64 = sadd(rect.x, rect.width);
        let ey: i64 = sadd(rect.y, rect.height);
        let cx1: i64 = if ex < 0 {
            0
        } else if ex > wt {
            wt
        } else {
            ex
        };
        let cy1: i64 = if ey < 0 {
            0
        } else if ey > ht {
            ht
        } else {
            ey
        };
        let x0: usize = ((cx0 as u64) / (PX_PER_PIXEL as u64)) as usize;
        let y0: usize = ((cy0 as u64) / (PX_PER_PIXEL as u64)) as usize;
        let x1: usize = ((cx1 as u64) / (PX_PER_PIXEL as u64)) as usize;
        let y1: usize = ((cy1 as u64) / (PX_PER_PIXEL as u64)) as usize;
        proof {
            assert(x0 == spec_clip(rect.x as int, w as int));
            assert(y0 == spec_clip(rect.y as int, h as int));
            assert(x1 == spec_clip(spec_sadd(rect.x as int, rect.width as int), w as int));
            assert(y1 == spec_clip(spec_sadd(rect.y as int, rect.height as int), h as int));
            assert(x1 <= w && y1 <= h);
        }
        let ghost pix0 = self.pixels@;
        let ghost target = spec_paint_one(pix0, w as int, h as int, *item);
        let mut y: usize = y0;
        while y < y1
            invariant
                y0 <= y <= if y1 > y0 { y1 } else { y0 },
                self.width == w,
                self.height == h,
                self.pixels@.len() == pix0.len(),
                target.len() == pix0.len(),
                forall|idx: int|
                    0 <= idx < pix0.len() ==> self.pixels@[idx] == (if w > 0 && spec_in_clip(
                        *item,
                        w as int,
                        h as int,
                        idx % (w as int),
                        idx / (w as int),
                    ) && idx / (w as int) < y {
                        color
                    } else {
                        pix0[idx]
                    }),
            decreases y1 - y,
        {
            let mut x: usize = x0;
            while x < x1
                invariant
                    y0 <= y < y1,
                    x0 <= x <= if x1 > x0 { x1 } else { x0 },
                    self.width == w,
                    self.height == h,
                    self.pixels@.len() == pix0.len(),
                    forall|idx: int|
                        0 <= idx < pix0.len() ==> self.pixels@[idx] == (if w > 0 && spec_in_clip(
                            *item,
                            w as int,
                            h as int,
                            idx % (w as int),
                            idx / (w as int),
                        ) && (idx / (w as int) < y || (idx / (w as int) == y && idx % (w as int)
                            < x)) {
                            color
                        } else {
                            pix0[idx]
                        }),
                decreases x1 - x,
            {
                proof {
                    assert(x + y * w < w * h) by (nonlinear_arith)
                        requires
                            x < x1,
                            x1 <= w,
                            y < y1,
                            y1 <= h,
                    ;
                    assert(w * h <= 0x4000_0000) by (nonlinear_arith)
                        requires
                            w <= 32768,
                            h <= 32768,
                    ;
                }
                let idx: usize = x + y * w;
                proof {
                    assert(idx < w * h);
                    assert((idx as int) % (w as int) == x && (idx as int) / (w as int) == y)
                        by (nonlinear_arith)
                        requires
                            0 <= x < w,
                            0 <= y,
                            idx == x + y * w,
                    ;
                }
                self.pixels[idx] = color;
                x = x + 1;
                proof {
                    assert forall|idx2: int| 0 <= idx2 < pix0.len() implies self.pixels@[idx2] == (
                    if w > 0 && spec_in_clip(
                        *item,
                        w as int,
                        h as int,
                        idx2 % (w as int),
                        idx2 / (w as int),
                    ) && (idx2 / (w as int) < y || (idx2 / (w as int) == y && idx2 % (w as int)
                        < x)) {
                        color
                    } else {
                        pix0[idx2]
                    }) by {
                        if idx2 != idx {
                            assert(idx2 % (w as int) != x - 1 || idx2 / (w as int) != y)
                                by (nonlinear_arith)
                                requires
                                    0 <= idx2,
                                    w > 0,
                                    idx2 != x - 1 + y * w,
                                    idx == x - 1 + y * w,
                            ;
                        }
                    }
                }
            }
            y = y + 1;
            proof {
                assert forall|idx: int| 0 <= idx < pix0.len() implies self.pixels@[idx] == (if w
                    > 0 && spec_in_clip(
                    *item,
                    w as int,
                    h as int,
                    idx % (w as int),
                    idx / (w as int),
                ) && idx / (w as int) < y {
                    color
                } else {
                    pix0[idx]
                }) by {
                    if w > 0 && spec_in_clip(
                        *item,
                        w as int,
                        h as int,
                        idx % (w as int),
                        idx / (w as int),
                    ) && idx / (w as int) == y - 1 {
                        assert(x0 <= idx % (w as int) < x1);
                        assert(x >= x1);
                    }
                }
            }
        }
        proof {
            assert forall|idx: int| 0 <= idx < pix0.len() implies self.pixels@[idx]
                == target[idx] by {
                if w > 0 {
                    assert(0 <= idx % (w as int) < w && idx / (w as int) >= 0) by (nonlinear_arith)
                        requires
                            w > 0,
                            0 <= idx,
                    ;
                }
            }
            assert(self.pixels@ =~= target);
        }
    }

    /// Render a laid-out box tree into a fresh buffer of the given
    /// bounds: build its display list and execute every command in
    /// order on an all-white canvas.
    pub fn paint(layout_root: &LayoutBox, bounds: Rectangle) -> (r: Canvas)
        requires
            layout_root.wf(),
            model_render_ready(box_model(*layout_root)),
            0 <= bounds.width <= MAX_DIM * (PX_PER_PIXEL as int),
            0 <= bounds.height <= MAX_DIM * (PX_PER_PIXEL as int),
        ensures
            r.wf(),
            r.width == spec_clip(bounds.width as int, MAX_DIM as int),
            r.height == spec_clip(bounds.height as int, MAX_DIM as int),
            r.pixels@ == spec_paint_list(
                Seq::new((r.width * r.height) as nat, |i: int| spec_white()),
                r.width as int,
                r.height as int,
                spec_display_list(box_model(*layout_root)),
                0,
            ),
    {
        let display_list = crate::render::build_display_list(layout_root);
        let w: usize = ((bounds.width as u64) / (PX_PER_PIXEL as u64)) as usize;
        let h: usize = ((bounds.height as u64) / (PX_PER_PIXEL as u64)) as usize;
        let mut canvas = Canvas::new(w, h);
        proof {
            assert(canvas.pixels@ =~= Seq::new(
                (canvas.width * canvas.height) as nat,
                |i: int| spec_white(),
            ));
        }
        let ghost base = canvas.pixels@;
        let n = display_list.len();
        let mut i: usize = 0;
        while i < n
            invariant
                n == display_list.len(),
                i <= n,
                canvas.wf(),
                canvas.width == w,
                canvas.height == h,
                spec_paint_list(base, w as int, h as int, display_list@, 0) == spec_paint_list(
                    canvas.pixels@,
                    w as int,
                    h as int,
                    display_list@,
                    i as int,
                ),
            decreases n - i,
        {
            canvas.paint_item(&display_list[i]);
            i = i + 1;
        }
        canvas
    }
}

} // verus!
