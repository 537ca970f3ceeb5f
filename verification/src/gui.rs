//! The interactive zoom controller: a three-state machine that decides, per
//! frame, whether to overlay a selection rectangle on a cached image,
//! recompute a fresh grid, or hold a finished frame, and that translates
//! pixel-space drag gestures into new complex-plane bounding boxes.
use crate::fixed::clip;
use crate::fixed::fx_add;
use crate::fixed::fx_mul_int;
use crate::fixed::fx_sub;
use crate::fixed::fxdiv;
use crate::fixed::fxtrunc_by;
use crate::fixed::Fx;
use crate::fixed::RAW_BOUND;
use crate::fixed::SCALE;
use crate::fractal::bounds_ok;
use crate::fractal::draw;
use crate::fractal::grid_cell;
use crate::fractal::rows_view;
use crate::fractal::sampled_rows;
use crate::fractal::Generator;
use crate::fractal::Grid;
use crate::fractal::Palette;
use crate::fractal::Point;
use crate::fractal::Renderer;
use crate::rgb::image_wf;
use crate::rgb::Color;
use crate::rgb::Image;
use crate::rgb::RGBRenderer;
use vstd::prelude::*;

verus! {

/// Width, in characters, of the text output grid.
pub const TERM_WIDTH: usize = 99;

/// Height, in characters, of the text output grid.
pub const TERM_HEIGHT: usize = 37;

/// Width, in pixels, of the interactive canvas.
pub const RGB_WIDTH: usize = 960;

/// Height, in pixels, of the interactive canvas.
pub const RGB_HEIGHT: usize = 640;

/// A cursor location, tracked in window-virtual coordinates as the host
/// runtime delivers them and in backing-surface pixel coordinates (scaled by
/// the device-pixel ratio and vertically flipped).
#[derive(Clone, Copy, Debug, PartialEq, Eq, Structural)]
pub struct Position {
    pub virtual_x: i32,
    pub virtual_y: i32,
    pub x: i32,
    pub y: i32,
}

/// The position at the origin.
pub open spec fn zero_position() -> Position {
    Position { virtual_x: 0, virtual_y: 0, x: 0, y: 0 }
}

impl Position {
    /// A fresh cursor position at the origin.
    pub fn new() -> (p: Position)
        ensures
            p == zero_position(),
    {
        Position { virtual_x: 0, virtual_y: 0, x: 0, y: 0 }
    }
}

/// What the front end knows of the output surface.
#[derive(Clone, Copy, Debug)]
pub struct CanvasInfo {
    pub width: usize,
    pub height: usize,
    pub dpi: Fx,
}

/// A usable surface: nonempty, and small enough for 32-bit pixel
/// coordinates.
pub open spec fn info_wf(info: CanvasInfo) -> bool {
    1 <= info.width <= 0x7fff_ffff && 1 <= info.height <= 0x7fff_ffff
}

/// One input event, as the library models the host runtime's events.
#[derive(Clone, Copy, Debug, PartialEq, Eq, Structural)]
pub enum InputEvent {
    /// Primary button pressed.
    LeftPress,
    /// Primary button released.
    LeftRelease,
    /// Secondary button pressed.
    RightPress,
    /// The cursor moved to this window-virtual location.
    CursorMove { x: i32, y: i32 },
    /// Any event the controller ignores.
    Other,
}

/// A bounding box of the complex plane.
#[derive(Clone, Copy, Debug, PartialEq, Eq, Structural)]
pub struct CanvasDims {
    pub min: Point,
    pub max: Point,
}

/// An in-progress rectangular selection.
pub struct DraggingState {
    pub initial_click: Position,
    pub current: Position,
    pub dims: CanvasDims,
    pub image: Image,
}

/// The three mutually exclusive rendering situations.
pub enum RenderState {
    /// Overlaying a selection rectangle on a snapshot of the cached frame.
    Dragging(DraggingState),
    /// A bounding box awaiting (re)computation.
    Recalc(Point, Point),
    /// The last rendered bounding box, the cursor, and the cached frame.
    Done(Point, Point, Position, Image),
}

/// The zoom controller's state.
pub struct CanvasState {
    pub initial_dims: CanvasDims,
    pub render_state: RenderState,
}

impl CanvasState {
    /// A controller that will first compute the view `[min, max]`, and that
    /// resets to it on a secondary-button press.
    pub fn new(min: Point, max: Point) -> (s: CanvasState)
        ensures
            s.initial_dims == (CanvasDims { min, max }),
            s.render_state == RenderState::Recalc(min, max),
    {
        CanvasState {
            initial_dims: CanvasDims { min, max },
            render_state: RenderState::Recalc(min, max),
        }
    }
}

/// A window-virtual coordinate scaled by the device-pixel ratio and rounded
/// toward zero.
pub open spec fn scaled_coord(dpi: Fx, v: int) -> int {
    fxtrunc_by(clip(dpi.raw * v), SCALE as int)
}

/// Where the cursor stands after a move to window-virtual `(x, y)`: the
/// pixel y axis grows upward, so the vertical coordinate is flipped before
/// scaling.
pub open spec fn moved_position(info: CanvasInfo, x: i32, y: i32) -> Position {
    Position {
        virtual_x: x,
        virtual_y: y,
        x: scaled_coord(info.dpi, x as int) as i32,
        y: scaled_coord(info.dpi, info.height - y as int) as i32,
    }
}

/// Scale one coordinate by the device-pixel ratio.
fn scale_to_pixel(dpi: Fx, v: i64) -> (r: i32)
    ensures
        r as int == scaled_coord(dpi, v as int),
{
    let f = dpi.mul_int(v);
    proof {
        assert(f.raw == clip(dpi.raw as int * v as int));
        if f.raw >= 0 {
            vstd::arithmetic::div_mod::lemma_div_is_ordered(
                f.raw as int,
                RAW_BOUND as int,
                SCALE as int,
            );
            vstd::arithmetic::div_mod::lemma_div_pos_is_pos(f.raw as int, SCALE as int);
        } else {
            vstd::arithmetic::div_mod::lemma_div_is_ordered(
                -(f.raw as int),
                RAW_BOUND as int,
                SCALE as int,
            );
            vstd::arithmetic::div_mod::lemma_div_pos_is_pos(-(f.raw as int), SCALE as int);
        }
        assert(RAW_BOUND as int / SCALE as int == 0x4000_0000);
    }
    let t = f.trunc();
    t as i32
}

/// The raw step of complex-plane units per surface pixel on one axis.
pub open spec fn axis_ratio(lo: int, hi: int, size: int) -> int {
    clip(fxdiv(fx_sub(hi, lo), size))
}

/// One coordinate of the bounding box a drag selects: the pixel offset times
/// the per-pixel ratio, offset by the old minimum.
pub open spec fn zoom_coord(lo: int, hi: int, px: int, size: int) -> int {
    fx_add(fx_mul_int(axis_ratio(lo, hi, size), px), lo)
}

/// The bounding box a drag from `a` to `b` selects inside the box `dims` on
/// a `width` × `height` surface.
pub open spec fn zoom_box(dims: CanvasDims, a: Position, b: Position, width: int, height: int) -> (
    Point,
    Point,
) {
    let lo_x = if b.x < a.x {
        b.x as int
    } else {
        a.x as int
    };
    let hi_x = if b.x < a.x {
        a.x as int
    } else {
        b.x as int
    };
    let lo_y = if b.y < a.y {
        b.y as int
    } else {
        a.y as int
    };
    let hi_y = if b.y < a.y {
        a.y as int
    } else {
        b.y as int
    };
    (
        Point {
            re: Fx {
                raw: zoom_coord(dims.min.re.raw as int, dims.max.re.raw as int, lo_x, width) as i64,
            },
            im: Fx {
                raw: zoom_coord(dims.min.im.raw as int, dims.max.im.raw as int, lo_y, height) as i64,
            },
        },
        Point {
            re: Fx {
                raw: zoom_coord(dims.min.re.raw as int, dims.max.re.raw as int, hi_x, width) as i64,
            },
            im: Fx {
                raw: zoom_coord(dims.min.im.raw as int, dims.max.im.raw as int, hi_y, height) as i64,
            },
        },
    )
}

/// Two images with the same size and the same pixels.
pub open spec fn image_like(a: Image, b: Image) -> bool {
    a.width == b.width && a.height == b.height && a.pixels@ == b.pixels@
}

/// Exactly how one input event changes the controller: the relation between
/// the state before (`pre`) and after (`post`) the call, and whether a
/// redraw is requested.
pub open spec fn input_transition(
    info: CanvasInfo,
    pre: CanvasState,
    ev: InputEvent,
    post: CanvasState,
    redraw: bool,
) -> bool {
    &&& post.initial_dims == pre.initial_dims
    &&& match (ev, pre.render_state) {
        (InputEvent::LeftPress, RenderState::Done(min, max, pos, img)) => {
            &&& !redraw
            &&& match post.render_state {
                RenderState::Dragging(d) => {
                    &&& d.initial_click == pos
                    &&& d.current == pos
                    &&& d.dims == (CanvasDims { min, max })
                    &&& image_like(d.image, img)
                },
                _ => false,
            }
        },
        (InputEvent::CursorMove { x, y }, RenderState::Dragging(d)) => {
            &&& !redraw
            &&& match post.render_state {
                RenderState::Dragging(d2) => {
                    &&& d2.initial_click == d.initial_click
                    &&& d2.dims == d.dims
                    &&& d2.image == d.image
                    &&& d2.current == moved_position(info, x, y)
                },
                _ => false,
            }
        },
        (InputEvent::CursorMove { x, y }, RenderState::Done(min, max, pos, img)) => {
            &&& !redraw
            &&& post.render_state == RenderState::Done(min, max, moved_position(info, x, y), img)
        },
        (InputEvent::LeftRelease, RenderState::Dragging(d)) => {
            &&& redraw
            &&& {
                let (nmin, nmax) = zoom_box(
                    d.dims,
                    d.initial_click,
                    d.current,
                    info.width as int,
                    info.height as int,
                );
                post.render_state == RenderState::Recalc(nmin, nmax)
            }
        },
        (InputEvent::RightPress, RenderState::Done(min, max, pos, img)) => {
            &&& redraw
            &&& post.render_state == RenderState::Recalc(pre.initial_dims.min, pre.initial_dims.max)
        },
        _ => {
            &&& !redraw
            &&& post == pre
        },
    }
}

impl CanvasState {
    /// React to one input event: left-press while done starts a drag,
    /// cursor moves track the pointer in place, left-release while dragging
    /// selects the dragged box for recomputation, right-press while done
    /// resets to the initial view, and everything else is a no-op. The
    /// result says whether a redraw is warranted.
    pub fn handle_input(info: &CanvasInfo, state: &mut CanvasState, event: &InputEvent) -> (redraw:
        bool)
        requires
            info_wf(*info),
        ensures
            input_transition(*info, *old(state), *event, *final(state), redraw),
    {
        let ev = *event;
        let zero = Point { re: Fx { raw: 0 }, im: Fx { raw: 0 } };
        let mut rs = RenderState::Recalc(zero, zero);
        core::mem::swap(&mut rs, &mut state.render_state);
        match (ev, rs) {
            (InputEvent::LeftPress, RenderState::Done(min, max, pos, img)) => {
                state.render_state = RenderState::Dragging(
                    DraggingState {
                        initial_click: pos,
                        current: pos,
                        dims: CanvasDims { min, max },
                        image: img,
                    },
                );
                false
            },
            (InputEvent::CursorMove { x, y }, RenderState::Dragging(d)) => {
                let pos = cursor_position(info, x, y);
                state.render_state = RenderState::Dragging(
                    DraggingState {
                        initial_click: d.initial_click,
                        current: pos,
                        dims: d.dims,
                        image: d.image,
                    },
                );
                false
            },
            (InputEvent::CursorMove { x, y }, RenderState::Done(min, max, _pos, img)) => {
                let pos = cursor_position(info, x, y);
                state.render_state = RenderState::Done(min, max, pos, img);
                false
            },
            (InputEvent::LeftRelease, RenderState::Dragging(d)) => {
                let (min_x, max_x) = if d.current.x < d.initial_click.x {
                    (d.current.x, d.initial_click.x)
                } else {
                    (d.initial_click.x, d.current.x)
                };
                let (min_y, max_y) = if d.current.y < d.initial_click.y {
                    (d.current.y, d.initial_click.y)
                } else {
                    (d.initial_click.y, d.current.y)
                };
                let x_ratio = d.dims.max.re.sub(d.dims.min.re).div_int(info.width as u32);
                let y_ratio = d.dims.max.im.sub(d.dims.min.im).div_int(info.height as u32);
                let nmin = Point {
                    re: x_ratio.mul_int(min_x as i64).add(d.dims.min.re),
                    im: y_ratio.mul_int(min_y as i64).add(d.dims.min.im),
                };
                let nmax = Point {
                    re: x_ratio.mul_int(max_x as i64).add(d.dims.min.re),
                    im: y_ratio.mul_int(max_y as i64).add(d.dims.min.im),
                };
                state.render_state = RenderState::Recalc(nmin, nmax);
                true
            },
            (InputEvent::RightPress, RenderState::Done(..)) => {
                state.render_state = RenderState::Recalc(
                    state.initial_dims.min,
                    state.initial_dims.max,
                );
                true
            },
            (_, other) => {
                state.render_state = other;
                false
            },
        }
    }
}

/// The cursor position for a window-virtual location.
fn cursor_position(info: &CanvasInfo, x: i32, y: i32) -> (p: Position)
    requires
        info_wf(*info),
    ensures
        p == moved_position(*info, x, y),
{
    let px = scale_to_pixel(info.dpi, x as i64);
    let py = scale_to_pixel(info.dpi, info.height as i64 - y as i64);
    Position { virtual_x: x, virtual_y: y, x: px, y: py }
}

/// A right-press while a frame is done always resets the controller to the
/// bounding box supplied at construction, whatever the state holds.
pub proof fn lemma_right_press_resets(
    info: CanvasInfo,
    pre: CanvasState,
    post: CanvasState,
    redraw: bool,
)
    requires
        input_transition(info, pre, InputEvent::RightPress, post, redraw),
        pre.render_state is Done,
    ensures
        post.render_state == RenderState::Recalc(pre.initial_dims.min, pre.initial_dims.max),
        redraw,
        post.initial_dims == pre.initial_dims,
{
}

/// A drag across the whole surface reproduces the viewed bounding box: the
/// minimum corner exactly, and each maximum coordinate within one pixel's
/// worth of plane units below the old maximum.
pub proof fn lemma_identity_zoom(dims: CanvasDims, width: int, height: int)
    requires
        1 <= width <= 0x7fff_ffff,
        1 <= height <= 0x7fff_ffff,
        -(RAW_BOUND as int) / 2 <= dims.min.re.raw <= dims.max.re.raw <= RAW_BOUND as int / 2,
        -(RAW_BOUND as int) / 2 <= dims.min.im.raw <= dims.max.im.raw <= RAW_BOUND as int / 2,
    ensures
        ({
            let corner = Position {
                virtual_x: 0,
                virtual_y: 0,
                x: width as i32,
                y: height as i32,
            };
            let (nmin, nmax) = zoom_box(dims, zero_position(), corner, width, height);
            &&& nmin == dims.min
            &&& 0 <= dims.max.re.raw - nmax.re.raw < width
            &&& 0 <= dims.max.im.raw - nmax.im.raw < height
        }),
{
    lemma_identity_zoom_axis(dims.min.re.raw as int, dims.max.re.raw as int, width);
    lemma_identity_zoom_axis(dims.min.im.raw as int, dims.max.im.raw as int, height);
}

/// The color of the selection rectangle's outline.
pub open spec fn highlight_color() -> Color {
    Color { r: 0, g: 255, b: 0 }
}

/// Whether pixel `(x, y)` lies on the outline of the rectangle with corners
/// `(sx, sy)` and `(ex, ey)`.
pub open spec fn on_outline(x: int, y: int, sx: int, ex: int, sy: int, ey: int) -> bool {
    ((y == sy || y == ey) && sx <= x < ex) || ((x == sx || x == ex) && sy <= y < ey)
}

/// Distinct pixel coordinates have distinct row-major buffer indices.
proof fn lemma_pixel_index_injective(w: int, x1: int, y1: int, x2: int, y2: int)
    by (nonlinear_arith)
    requires
        0 <= x1 < w,
        0 <= x2 < w,
        0 <= y1,
        0 <= y2,
        y1 * w + x1 == y2 * w + x2,
    ensures
        x1 == x2,
        y1 == y2,
{
}

/// Draw the outline of the rectangle with corners `(sx, sy)` and `(ex, ey)`
/// in the highlight color; every other pixel keeps its value.
fn draw_box(image: &mut Image, sx: usize, ex: usize, sy: usize, ey: usize)
    requires
        image_wf(*old(image)),
        sx <= ex < old(image).width,
        sy <= ey < old(image).height,
    ensures
        final(image).width == old(image).width,
        final(image).height == old(image).height,
        image_wf(*final(image)),
        forall|x: int, y: int|
            0 <= x < old(image).width && 0 <= y < old(image).height
                ==> #[trigger] final(image).pixels@[y * old(image).width + x] == (if on_outline(
                x,
                y,
                sx as int,
                ex as int,
                sy as int,
                ey as int,
            ) {
                highlight_color()
            } else {
                old(image).pixels@[y * old(image).width + x]
            }),
{
    let w = image.width;
    let h = image.height;
    let green = Color::rgb(0, 255, 0);
    let mut x: usize = sx;
    while x < ex
        invariant
            sx <= x <= ex,
            ex < w,
            ey < h,
            sy <= ey,
            sx <= ex,
            w == image.width,
            h == image.height,
            w == old(image).width,
            h == old(image).height,
            green == highlight_color(),
            image_wf(*image),
            forall|xx: int, yy: int|
                0 <= xx < w && 0 <= yy < h ==> #[trigger] image.pixels@[yy * w + xx] == (if ((yy
                    == sy || yy == ey) && sx <= xx < x) {
                    highlight_color()
                } else {
                    old(image).pixels@[yy * w + xx]
                }),
        decreases ex - x,
    {
        let ghost before = image.pixels@;
        image.put(x, sy, green);
        let ghost mid = image.pixels@;
        image.put(x, ey, green);
        proof {
            assert(0 <= sy * w + x < w * h && 0 <= ey * w + x < w * h) by (nonlinear_arith)
                requires
                    0 <= x < w,
                    0 <= sy < h,
                    0 <= ey < h,
            ;
            assert forall|xx: int, yy: int| 0 <= xx < w && 0 <= yy < h implies #[trigger] image.pixels@[yy
                * w + xx] == (if ((yy == sy || yy == ey) && sx <= xx < x + 1) {
                highlight_color()
            } else {
                old(image).pixels@[yy * w + xx]
            }) by {
                let i = yy * w + xx;
                assert(0 <= yy * w + xx < w * h) by (nonlinear_arith)
                    requires
                        0 <= xx < w,
                        0 <= yy < h,
                ;
                if i == sy * w + x || i == ey * w + x {
                    lemma_pixel_index_injective(
                        w as int,
                        xx,
                        yy,
                        x as int,
                        if i == sy * w + x {
                            sy as int
                        } else {
                            ey as int
                        },
                    );
                    if i == ey * w + x {
                        assert(image.pixels@[i] == green);
                    } else {
                        assert(image.pixels@[i] == mid[i]);
                        assert(mid[i] == green);
                    }
                } else {
                    assert(image.pixels@[i] == mid[i]);
                    assert(mid[i] == before[i]);
                }
            }
        }
        x = x + 1;
    }
    let mut y: usize = sy;
    while y < ey
        invariant
            sy <= y <= ey,
            ex < w,
            ey < h,
            sy <= ey,
            sx <= ex,
            w == image.width,
            h == image.height,
            w == old(image).width,
            h == old(image).height,
            green == highlight_color(),
            image_wf(*image),
            forall|xx: int, yy: int|
                0 <= xx < w && 0 <= yy < h ==> #[trigger] image.pixels@[yy * w + xx] == (if (((yy
                    == sy || yy == ey) && sx <= xx < ex) || ((xx == sx || xx == ex) && sy <= yy
                    < y)) {
                    highlight_color()
                } else {
                    old(image).pixels@[yy * w + xx]
                }),
        decreases ey - y,
    {
        let ghost before = image.pixels@;
        image.put(sx, y, green);
        let ghost mid = image.pixels@;
        image.put(ex, y, green);
        proof {
            assert(0 <= y * w + sx < w * h && 0 <= y * w + ex < w * h) by (nonlinear_arith)
                requires
                    0 <= sx < w,
                    0 <= ex < w,
                    0 <= y < h,
            ;
            assert forall|xx: int, yy: int| 0 <= xx < w && 0 <= yy < h implies #[trigger] image.pixels@[yy
                * w + xx] == (if (((yy == sy || yy == ey) && sx <= xx < ex) || ((xx == sx || xx
                == ex) && sy <= yy < y + 1)) {
                highlight_color()
            } else {
                old(image).pixels@[yy * w + xx]
            }) by {
                let i = yy * w + xx;
                assert(0 <= yy * w + xx < w * h) by (nonlinear_arith)
                    requires
                        0 <= xx < w,
                        0 <= yy < h,
                ;
                if i == y * w + sx || i == y * w + ex {
                    lemma_pixel_index_injective(
                        w as int,
                        xx,
                        yy,
                        if i == y * w + sx {
                            sx as int
                        } else {
                            ex as int
                        },
                        y as int,
                    );
                    if i == y * w + ex {
                        assert(image.pixels@[i] == green);
                    } else {
                        assert(image.pixels@[i] == mid[i]);
                        assert(mid[i] == green);
                    }
                } else {
                    assert(image.pixels@[i] == mid[i]);
                    assert(mid[i] == before[i]);
                }
            }
        }
        y = y + 1;
    }
}

/// The pixel colors the sampling pipeline produces for the view `[min, max]`
/// at resolution `w` × `h`, as the flat row-major buffer index `i` sees them.
pub open spec fn frame_pixel<C, G: Generator>(
    g: G,
    pal: Seq<C>,
    w: int,
    h: int,
    min: Point,
    max: Point,
    i: int,
) -> C {
    sampled_rows(g, pal, crate::fractal::grid_points(w, h, min, max))[i / w][i % w]
}

/// Drive one displayed frame: overlay the drag rectangle on the cached
/// snapshot while dragging, recompute and render the fractal (and move to
/// `Done` with the frame retained and a fresh cursor) when a recomputation
/// is pending, and leave a finished frame alone.
pub fn zoomable_canvas_render<G: Generator + Sync, P: Palette<Color> + Sync>(
    state: &mut CanvasState,
    image: &mut Image,
    generator: &G,
    palette: &P,
)
    requires
        palette.ramp_spec().len() >= 1,
        image_wf(*old(image)),
        2 <= old(image).width <= 0xffff_ffff,
        2 <= old(image).height <= 0xffff_ffff,
        match old(state).render_state {
            RenderState::Recalc(min, max) => bounds_ok(min, max),
            RenderState::Dragging(d) => {
                &&& d.image.width == old(image).width
                &&& d.image.height == old(image).height
                &&& image_wf(d.image)
                &&& 0 <= d.initial_click.x < old(image).width
                &&& 0 <= d.initial_click.y < old(image).height
                &&& 0 <= d.current.x < old(image).width
                &&& 0 <= d.current.y < old(image).height
            },
            RenderState::Done(..) => true,
        },
    ensures
        final(state).initial_dims == old(state).initial_dims,
        final(image).width == old(image).width,
        final(image).height == old(image).height,
        image_wf(*final(image)),
        match old(state).render_state {
            RenderState::Done(..) => {
                &&& *final(state) == *old(state)
                &&& *final(image) == *old(image)
            },
            RenderState::Dragging(d) => {
                let w = old(image).width as int;
                let sx = if d.initial_click.x < d.current.x {
                    d.initial_click.x as int
                } else {
                    d.current.x as int
                };
                let ex = if d.initial_click.x < d.current.x {
                    d.current.x as int
                } else {
                    d.initial_click.x as int
                };
                let sy = if d.initial_click.y < d.current.y {
                    d.initial_click.y as int
                } else {
                    d.current.y as int
                };
                let ey = if d.initial_click.y < d.current.y {
                    d.current.y as int
                } else {
                    d.initial_click.y as int
                };
                &&& *final(state) == *old(state)
                &&& forall|x: int, y: int|
                    0 <= x < old(image).width && 0 <= y < old(image).height
                        ==> #[trigger] final(image).pixels@[y * w + x] == (if on_outline(
                        x,
                        y,
                        sx,
                        ex,
                        sy,
                        ey,
                    ) {
                        highlight_color()
                    } else {
                        d.image.pixels@[y * w + x]
                    })
            },
            RenderState::Recalc(min, max) => {
                let w = old(image).width as int;
                let h = old(image).height as int;
                &&& forall|i: int|
                    0 <= i < final(image).pixels@.len() ==> #[trigger] final(image).pixels@[i]
                        == frame_pixel(*generator, palette.ramp_spec(), w, h, min, max, i)
                &&& match final(state).render_state {
                    RenderState::Done(dmin, dmax, pos, img) => {
                        &&& dmin == min
                        &&& dmax == max
                        &&& pos == zero_position()
                        &&& image_like(img, *final(image))
                    },
                    _ => false,
                }
            },
        },
{
    let w = image.width;
    let h = image.height;
    let recalc: Option<(Point, Point)> = match &state.render_state {
        RenderState::Recalc(mn, mx) => Some((*mn, *mx)),
        _ => None,
    };
    match recalc {
        Some((min, max)) => {
            let grid = match Grid::new(w, h, min, max) {
                Ok(g) => g,
                Err(_) => {
                    proof {
                        assert(false);
                    }
                    vstd::pervasive::unreached()
                },
            };
            let mut renderer = RGBRenderer::new(Image::new(0, 0));
            core::mem::swap(&mut renderer.image, image);
            proof {
                let pts = rows_view(grid);
                assert forall|r: int| 0 <= r < pts.len() implies #[trigger] pts[r].len()
                    == w by {
                    assert(pts[r] == grid.0@[r]@);
                }
                let rows = sampled_rows(*generator, palette.ramp_spec(), pts);
                assert forall|r: int| 0 <= r < rows.len() implies #[trigger] rows[r].len()
                    == w by {
                    assert(rows[r] == crate::fractal::row_colors(
                        *generator,
                        palette.ramp_spec(),
                        pts[r],
                    ));
                    assert(pts[r] == grid.0@[r]@);
                }
            }
            draw(generator, palette, &mut renderer, &grid);
            core::mem::swap(&mut renderer.image, image);
            proof {
                let pts = rows_view(grid);
                assert(pts =~~= crate::fractal::grid_points(w as int, h as int, min, max)) by {
                    assert forall|r: int| 0 <= r < pts.len() implies pts[r] =~= crate::fractal::grid_points(
                        w as int,
                        h as int,
                        min,
                        max,
                    )[r] by {
                        assert(pts[r] == grid.0@[r]@);
                    }
                }
            }
            let snapshot = image.clone();
            state.render_state = RenderState::Done(min, max, Position::new(), snapshot);
        },
        None => {
            match &state.render_state {
                RenderState::Dragging(d) => {
                    d.image.clone_onto(image);
                    let (sx, ex) = if d.initial_click.x < d.current.x {
                        (d.initial_click.x as usize, d.current.x as usize)
                    } else {
                        (d.current.x as usize, d.initial_click.x as usize)
                    };
                    let (sy, ey) = if d.initial_click.y < d.current.y {
                        (d.initial_click.y as usize, d.current.y as usize)
                    } else {
                        (d.current.y as usize, d.initial_click.y as usize)
                    };
                    draw_box(image, sx, ex, sy, ey);
                },
                _ => {},
            }
        },
    }
}

/// One axis of the identity-zoom law: offset zero lands exactly on the old
/// minimum, and offset `size` lands within one pixel step below the old
/// maximum.
proof fn lemma_identity_zoom_axis(lo: int, hi: int, size: int)
    requires
        1 <= size <= 0x7fff_ffff,
        -(RAW_BOUND as int) / 2 <= lo <= hi <= RAW_BOUND as int / 2,
    ensures
        zoom_coord(lo, hi, 0, size) == lo,
        0 <= hi - zoom_coord(lo, hi, size, size) < size,
{
    let diff = hi - lo;
    let ratio = diff / size;
    vstd::arithmetic::div_mod::lemma_div_pos_is_pos(diff, size);
    vstd::arithmetic::div_mod::lemma_div_nonincreasing(diff, size);
    assert(axis_ratio(lo, hi, size) == ratio);
    assert(fx_mul_int(ratio, 0) == 0) by {
        assert(ratio * 0 == 0);
    }
    assert(zoom_coord(lo, hi, 0, size) == lo);
    vstd::arithmetic::div_mod::lemma_fundamental_div_mod(diff, size);
    vstd::arithmetic::div_mod::lemma_mod_bound(diff, size);
    assert(ratio * size == size * ratio) by {
        vstd::arithmetic::mul::lemma_mul_is_commutative(ratio, size);
    }
    assert(ratio * size == diff - diff % size);
    assert(0 <= ratio * size <= diff);
    assert(fx_mul_int(ratio, size) == diff - diff % size);
    assert(zoom_coord(lo, hi, size, size) == lo + diff - diff % size);
}

} // verus!
