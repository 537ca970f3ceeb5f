//! Tests of the interactive zoom controller: the input state machine, the
//! drag-to-bounding-box translation, and the per-frame render callback.
use fractals::CanvasDims;
use fractals::CanvasInfo;
use fractals::CanvasState;
use fractals::Color;
use fractals::DraggingState;
use fractals::Fx;
use fractals::Image;
use fractals::InputEvent;
use fractals::Mandelbrot;
use fractals::Point;
use fractals::Position;
use fractals::RGBPalette;
use fractals::RenderState;
use fractals::SCALE;

fn fx(v: f64) -> Fx {
    Fx {
        raw: (v * SCALE as f64) as i64,
    }
}

fn pt(re: f64, im: f64) -> Point {
    Point {
        re: fx(re),
        im: fx(im),
    }
}

fn info(width: usize, height: usize, dpi: f64) -> CanvasInfo {
    CanvasInfo {
        width,
        height,
        dpi: fx(dpi),
    }
}

#[test]
fn construction_starts_in_recalc() {
    let s = CanvasState::new(pt(-1.5, -1.5), pt(1.5, 1.5));
    assert!(matches!(s.render_state, RenderState::Recalc(mn, mx)
        if mn == pt(-1.5, -1.5) && mx == pt(1.5, 1.5)));
    assert_eq!(s.initial_dims.min, pt(-1.5, -1.5));
    assert_eq!(s.initial_dims.max, pt(1.5, 1.5));
}

#[test]
fn full_surface_drag_is_an_identity_zoom() {
    let min = pt(0.0, 0.0);
    let max = pt(4.0, 4.0);
    let mut state = CanvasState {
        initial_dims: CanvasDims { min, max },
        render_state: RenderState::Done(min, max, Position::new(), Image::new(4, 4)),
    };
    let inf = info(4, 4, 1.0);
    // Left-press anchors the drag at the cursor, here the origin pixel.
    let redraw = CanvasState::handle_input(&inf, &mut state, &InputEvent::LeftPress);
    assert!(!redraw);
    // Window-virtual (4, 0) scales and flips to pixel (4, 4).
    let redraw = CanvasState::handle_input(
        &inf,
        &mut state,
        &InputEvent::CursorMove { x: 4, y: 0 },
    );
    assert!(!redraw);
    let redraw = CanvasState::handle_input(&inf, &mut state, &InputEvent::LeftRelease);
    assert!(redraw);
    match &state.render_state {
        RenderState::Recalc(nmin, nmax) => {
            assert_eq!(*nmin, min);
            assert_eq!(*nmax, max);
        }
        _ => panic!("expected a recalculation"),
    }
}

#[test]
fn half_surface_drag_halves_the_box() {
    let min = pt(0.0, 0.0);
    let max = pt(4.0, 4.0);
    let mut state = CanvasState {
        initial_dims: CanvasDims { min, max },
        render_state: RenderState::Done(min, max, Position::new(), Image::new(4, 4)),
    };
    let inf = info(4, 4, 1.0);
    CanvasState::handle_input(&inf, &mut state, &InputEvent::LeftPress);
    // Window-virtual (2, 2) scales and flips to pixel (2, 2).
    CanvasState::handle_input(&inf, &mut state, &InputEvent::CursorMove { x: 2, y: 2 });
    CanvasState::handle_input(&inf, &mut state, &InputEvent::LeftRelease);
    match &state.render_state {
        RenderState::Recalc(nmin, nmax) => {
            assert_eq!(*nmin, pt(0.0, 0.0));
            assert_eq!(*nmax, pt(2.0, 2.0));
        }
        _ => panic!("expected a recalculation"),
    }
}

#[test]
fn right_press_resets_to_the_initial_view() {
    let initial_min = pt(-2.25, -1.5);
    let initial_max = pt(0.75, 1.5);
    let mut state = CanvasState {
        initial_dims: CanvasDims {
            min: initial_min,
            max: initial_max,
        },
        render_state: RenderState::Done(
            pt(0.1, 0.1),
            pt(0.2, 0.2),
            Position::new(),
            Image::new(4, 4),
        ),
    };
    let inf = info(4, 4, 1.0);
    let redraw = CanvasState::handle_input(&inf, &mut state, &InputEvent::RightPress);
    assert!(redraw);
    match &state.render_state {
        RenderState::Recalc(nmin, nmax) => {
            assert_eq!(*nmin, initial_min);
            assert_eq!(*nmax, initial_max);
        }
        _ => panic!("expected a recalculation"),
    }
}

#[test]
fn cursor_moves_scale_by_the_device_pixel_ratio() {
    let min = pt(0.0, 0.0);
    let max = pt(4.0, 4.0);
    let mut state = CanvasState {
        initial_dims: CanvasDims { min, max },
        render_state: RenderState::Done(min, max, Position::new(), Image::new(4, 4)),
    };
    let inf = info(4, 4, 1.5);
    let redraw = CanvasState::handle_input(
        &inf,
        &mut state,
        &InputEvent::CursorMove { x: 2, y: 1 },
    );
    assert!(!redraw);
    match &state.render_state {
        RenderState::Done(_, _, pos, _) => {
            assert_eq!(pos.virtual_x, 2);
            assert_eq!(pos.virtual_y, 1);
            assert_eq!(pos.x, 3);
            assert_eq!(pos.y, 4);
        }
        _ => panic!("expected the done state to stay"),
    }
}

#[test]
fn ignored_events_change_nothing() {
    let min = pt(0.0, 0.0);
    let max = pt(4.0, 4.0);
    let mut state = CanvasState {
        initial_dims: CanvasDims { min, max },
        render_state: RenderState::Recalc(min, max),
    };
    let inf = info(4, 4, 1.0);
    assert!(!CanvasState::handle_input(&inf, &mut state, &InputEvent::Other));
    assert!(!CanvasState::handle_input(&inf, &mut state, &InputEvent::LeftPress));
    assert!(!CanvasState::handle_input(&inf, &mut state, &InputEvent::LeftRelease));
    assert!(!CanvasState::handle_input(&inf, &mut state, &InputEvent::RightPress));
    assert!(matches!(state.render_state, RenderState::Recalc(..)));
}

#[test]
fn recalc_renders_and_retains_the_frame() {
    let min = pt(0.0, 0.0);
    let max = pt(2.0, 2.0);
    let mut state = CanvasState::new(min, max);
    let mut image = Image::new(2, 2);
    let gen = Mandelbrot::new(pt(0.0, 0.0));
    let palette = RGBPalette::new();
    fractals::gui::zoomable_canvas_render(&mut state, &mut image, &gen, &palette);
    // Cell (0,0) never escapes and saturates at the ramp's last color; the
    // two cells that escape after two steps take the second color; the cell
    // that escapes after one step takes the first.
    let saturated = Color::rgb(255, 247, 236);
    let second = Color::rgb(254, 232, 200);
    let first = Color::rgb(255, 247, 236);
    assert_eq!(image.pixels, vec![saturated, second, second, first]);
    match &state.render_state {
        RenderState::Done(dmin, dmax, pos, cached) => {
            assert_eq!(*dmin, min);
            assert_eq!(*dmax, max);
            assert_eq!(*pos, Position::new());
            assert_eq!(cached.pixels, image.pixels);
        }
        _ => panic!("expected the done state"),
    }
}

#[test]
fn dragging_overlays_the_selection_rectangle() {
    let min = pt(0.0, 0.0);
    let max = pt(4.0, 4.0);
    let mut snapshot = Image::new(4, 4);
    let red = Color::rgb(200, 10, 10);
    snapshot.put(2, 2, red);
    let anchor = Position {
        virtual_x: 0,
        virtual_y: 0,
        x: 1,
        y: 1,
    };
    let current = Position {
        virtual_x: 0,
        virtual_y: 0,
        x: 3,
        y: 3,
    };
    let mut state = CanvasState {
        initial_dims: CanvasDims { min, max },
        render_state: RenderState::Dragging(DraggingState {
            initial_click: anchor,
            current,
            dims: CanvasDims { min, max },
            image: snapshot,
        }),
    };
    let mut image = Image::new(4, 4);
    let gen = Mandelbrot::new(pt(0.0, 0.0));
    let palette = RGBPalette::new();
    fractals::gui::zoomable_canvas_render(&mut state, &mut image, &gen, &palette);
    let green = Color::rgb(0, 255, 0);
    let black = Color::rgb(0, 0, 0);
    let at = |x: usize, y: usize| image.get(x, y);
    // The outline between (1,1) and (3,3) is green.
    assert_eq!(at(1, 1), green);
    assert_eq!(at(2, 1), green);
    assert_eq!(at(3, 1), green);
    assert_eq!(at(1, 2), green);
    assert_eq!(at(3, 2), green);
    assert_eq!(at(1, 3), green);
    assert_eq!(at(2, 3), green);
    // The interior shows the snapshot, not the live frame.
    assert_eq!(at(2, 2), red);
    // Pixels outside the rectangle keep the snapshot's background.
    assert_eq!(at(0, 0), black);
    assert_eq!(at(0, 3), black);
    // The state still drags.
    assert!(matches!(state.render_state, RenderState::Dragging(..)));
}

#[test]
fn done_leaves_the_frame_alone() {
    let min = pt(0.0, 0.0);
    let max = pt(4.0, 4.0);
    let mut state = CanvasState {
        initial_dims: CanvasDims { min, max },
        render_state: RenderState::Done(min, max, Position::new(), Image::new(4, 4)),
    };
    let mut image = Image::new(4, 4);
    let red = Color::rgb(200, 10, 10);
    image.put(1, 1, red);
    let gen = Mandelbrot::new(pt(0.0, 0.0));
    let palette = RGBPalette::new();
    fractals::gui::zoomable_canvas_render(&mut state, &mut image, &gen, &palette);
    assert_eq!(image.pixels[1 * 4 + 1], red);
    assert!(matches!(state.render_state, RenderState::Done(..)));
}

#[test]
fn drag_then_release_reaches_recalc_with_the_dragged_box() {
    // Done → Dragging → Recalc, exercising the full lifecycle on one state.
    let min = pt(0.0, 0.0);
    let max = pt(8.0, 8.0);
    let mut state = CanvasState {
        initial_dims: CanvasDims { min, max },
        render_state: RenderState::Done(min, max, Position::new(), Image::new(8, 8)),
    };
    let inf = info(8, 8, 1.0);
    CanvasState::handle_input(&inf, &mut state, &InputEvent::CursorMove { x: 2, y: 6 });
    CanvasState::handle_input(&inf, &mut state, &InputEvent::LeftPress);
    assert!(matches!(state.render_state, RenderState::Dragging(..)));
    CanvasState::handle_input(&inf, &mut state, &InputEvent::CursorMove { x: 6, y: 2 });
    CanvasState::handle_input(&inf, &mut state, &InputEvent::LeftRelease);
    match &state.render_state {
        RenderState::Recalc(nmin, nmax) => {
            assert_eq!(*nmin, pt(2.0, 2.0));
            assert_eq!(*nmax, pt(6.0, 6.0));
        }
        _ => panic!("expected a recalculation"),
    }
}
