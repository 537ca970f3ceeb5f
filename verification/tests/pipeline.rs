//! Tests of the sampling pipeline: the escape classifier, the generators,
//! the grid, the palettes, and the renderers.
use fractals::CharPalette;
use fractals::CharRenderer;
use fractals::Color;
use fractals::Fx;
use fractals::Generator;
use fractals::Grid;
use fractals::GridError;
use fractals::Image;
use fractals::Julia;
use fractals::Mandelbrot;
use fractals::Palette;
use fractals::Point;
use fractals::RGBPalette;
use fractals::RGBRenderer;
use fractals::Renderer;
use fractals::RAW_BOUND;
use fractals::SCALE;

fn fx(v: f64) -> Fx {
    Fx {
        raw: (v * SCALE as f64) as i64,
    }
}

fn pt(re: f64, im: f64) -> Point {
    Point {
        re: fx(re),
        im: fx(im),
    }
}

#[test]
fn color_tests() {
    for (i, expected) in [0, 0, 1, 2, 3, 3].iter().enumerate() {
        let mut points = vec![pt(0.0, 0.0); i];
        points.push(pt(8.0, 8.0));
        let palette = vec![0, 1, 2, 3];
        assert_eq!(*expected, fractals::choose_color(&palette, &points));
    }
}

#[test]
fn mandelbrot_mandelbrot_test() {
    let set = Mandelbrot::new(pt(0.0, 0.0)).generate(pt(0.5, 0.0), 4);
    for (left, right) in [0.5, 0.75, 1.0625, 1.62891]
        .iter()
        .zip(set.iter().map(|p| p.re.raw as f64 / SCALE as f64))
    {
        let val = left - right;
        let val = val * val;
        assert!(val < 0.001, "Expected {} to match {}", left, right);
    }
}

#[test]
fn main_mandelbrot_test() {
    let set = Mandelbrot::new(pt(0.0, 0.0)).generate(pt(0.5, 0.0), 4);
    for (left, right) in [0.5, 0.75, 1.0625, 1.62891]
        .iter()
        .zip(set.iter().map(|p| p.re.raw as f64 / SCALE as f64))
    {
        let val = left - right;
        let val = val * val;
        assert!(val < 0.001, "Expected {} to match {}", left, right);
    }
}

#[test]
fn julia_iterates_from_the_sampled_point() {
    // For Julia the sampled point is the seed and the parameter the constant:
    // from seed (0, 0) with constant (0.5, 0) the first iterate is (0.5, 0).
    let set = Julia::new(pt(0.5, 0.0)).generate(pt(0.0, 0.0), 2);
    assert_eq!(set[0], pt(0.5, 0.0));
    assert_eq!(set[1], pt(0.75, 0.0));
}

#[test]
fn fairly_close_is_a_disk_of_radius_ten() {
    assert!(Point::fairly_close(pt(0.0, 0.0)));
    assert!(Point::fairly_close(pt(8.0, 5.0)));
    assert!(!Point::fairly_close(pt(8.0, 8.0)));
    assert!(!Point::fairly_close(pt(10.0, 0.0)));
    assert!(Point::fairly_close(pt(9.9, 0.0)));
}

#[test]
fn next_is_the_quadratic_map() {
    // (x² − y² + u, 2xy + v) at c = (1, 2), z = (3, 4) is (−6, 26).
    let r = Point::next(pt(1.0, 2.0), pt(3.0, 4.0));
    assert_eq!(r, pt(-6.0, 26.0));
}

#[test]
fn grid_construction() {
    let grid = Grid::new(3, 3, pt(0.0, 0.0), pt(2.0, 2.0)).unwrap();
    assert_eq!(grid.0.len(), 3);
    for row in &grid.0 {
        assert_eq!(row.len(), 3);
    }
    assert_eq!(grid.0[0][0], pt(0.0, 0.0));
    assert_eq!(grid.0[0][2], pt(2.0, 0.0));
    assert_eq!(grid.0[2][0], pt(0.0, 2.0));
    assert_eq!(grid.0[2][2], pt(2.0, 2.0));
    assert_eq!(grid.0[1][1], pt(1.0, 1.0));
}

#[test]
fn grid_rejects_empty_boxes() {
    for (min, max) in [
        (pt(1.0, 0.0), pt(1.0, 2.0)),
        (pt(2.0, 0.0), pt(1.0, 2.0)),
        (pt(0.0, 2.0), pt(2.0, 2.0)),
        (pt(0.0, 3.0), pt(2.0, 2.0)),
    ] {
        assert!(matches!(
            Grid::new(3, 3, min, max),
            Err(GridError::InvalidBounds)
        ));
    }
}

#[test]
fn grid_rejects_degenerate_axes() {
    let min = pt(0.0, 0.0);
    let max = pt(2.0, 2.0);
    assert!(matches!(
        Grid::new(1, 3, min, max),
        Err(GridError::DegenerateAxis)
    ));
    assert!(matches!(
        Grid::new(3, 1, min, max),
        Err(GridError::DegenerateAxis)
    ));
    assert!(matches!(
        Grid::new(0, 0, min, max),
        Err(GridError::DegenerateAxis)
    ));
}

#[test]
fn char_palette_is_the_thirty_glyph_ramp() {
    let ramp = CharPalette.get();
    assert_eq!(ramp.len(), 30);
    assert_eq!(ramp[0], ' ');
    assert_eq!(ramp[2], ',');
    assert_eq!(ramp[29], '$');
}

#[test]
fn rgb_palette_is_the_mirrored_decoded_ramp() {
    let palette = RGBPalette::new();
    assert_eq!(palette.colors.len(), 18);
    assert_eq!(palette.colors[0], Color::rgb(255, 247, 236));
    assert_eq!(palette.colors[1], Color::rgb(254, 232, 200));
    assert_eq!(palette.colors[8], Color::rgb(127, 0, 0));
    // The second half mirrors the first, easing back toward the start.
    assert_eq!(palette.colors[9], Color::rgb(127, 0, 0));
    assert_eq!(palette.colors[17], Color::rgb(255, 247, 236));
    for i in 0..9 {
        assert_eq!(palette.colors[i], palette.colors[17 - i]);
    }
}

#[test]
fn make_image_classifies_single_points() {
    let gen = Mandelbrot::new(pt(0.0, 0.0));
    let ramp = CharPalette.get();
    // Point already outside the disk: first palette item.
    assert_eq!(fractals::make_image(&gen, &CharPalette, pt(8.0, 8.0)), ramp[0]);
    // Point that never escapes: saturates at the last item.
    assert_eq!(
        fractals::make_image(&gen, &CharPalette, pt(0.0, 0.0)),
        ramp[29]
    );
    // Point whose iterates leave the disk at step 5: the item of step 4.
    assert_eq!(fractals::make_image(&gen, &CharPalette, pt(0.5, 0.0)), ramp[4]);
}

#[test]
fn sample_maps_the_classifier_over_the_grid() {
    let gen = Mandelbrot::new(pt(0.0, 0.0));
    let grid = Grid::new(2, 2, pt(0.0, 0.0), pt(2.0, 2.0)).unwrap();
    let out = fractals::sample(&grid, &gen, &CharPalette);
    let ramp = CharPalette.get();
    assert_eq!(out.0.len(), 2);
    assert_eq!(out.0[0], vec![ramp[29], ramp[1]]);
    assert_eq!(out.0[1], vec![ramp[1], ramp[0]]);
}

#[test]
fn draw_renders_lines_in_row_order() {
    let gen = Mandelbrot::new(pt(0.0, 0.0));
    let grid = Grid::new(2, 2, pt(0.0, 0.0), pt(2.0, 2.0)).unwrap();
    let mut renderer = CharRenderer::new();
    fractals::draw(&gen, &CharPalette, &mut renderer, &grid);
    assert_eq!(renderer.lines.len(), 2);
    assert_eq!(renderer.lines[0], vec!['$', ' ']);
    assert_eq!(renderer.lines[1], vec![' ', ' ']);
}

#[test]
fn rgb_renderer_writes_each_cell_to_its_pixel() {
    let c = |n: u8| Color::rgb(n, n, n);
    let grid = Grid(vec![vec![c(1), c(2)], vec![c(3), c(4)]]);
    let mut renderer = RGBRenderer::new(Image::new(2, 2));
    renderer.render(grid);
    let image = renderer.into_image();
    assert_eq!(image.pixels, vec![c(1), c(2), c(3), c(4)]);
}

#[test]
fn image_clone_and_clone_onto_copy_pixels() {
    let mut a = Image::new(2, 2);
    a.put(1, 0, Color::rgb(9, 8, 7));
    let b = a.clone();
    assert_eq!(b.pixels, a.pixels);
    let mut c = Image::new(2, 2);
    a.clone_onto(&mut c);
    assert_eq!(c.pixels, a.pixels);
}

#[test]
fn fixed_point_arithmetic_is_exact_on_small_values() {
    assert_eq!(Fx::from_int(3).raw, 3 * SCALE);
    assert_eq!(Fx::from_int(3).add(Fx::from_int(-5)), Fx::from_int(-2));
    assert_eq!(Fx::from_int(3).sub(Fx::from_int(5)), Fx::from_int(-2));
    assert_eq!(Fx::from_int(3).mul(Fx::from_int(-2)), Fx::from_int(-6));
    assert_eq!(Fx::from_int(-3).div_int(2).raw, -3 * SCALE / 2);
    assert_eq!(Fx::from_int(-3).trunc(), -3);
    assert_eq!(Fx { raw: -SCALE - 1 }.trunc(), -1);
    assert_eq!(fx(1.5).double(), fx(3.0));
    assert!(fx(1.5).lt(fx(2.0)));
    assert!(!fx(2.0).lt(fx(1.5)));
}

#[test]
fn fixed_point_arithmetic_saturates() {
    assert_eq!(Fx::from_int(i64::MAX).raw, RAW_BOUND);
    let top = Fx { raw: RAW_BOUND };
    assert_eq!(top.add(top).raw, RAW_BOUND);
    assert_eq!(top.mul_int(-3).raw, -RAW_BOUND);
    assert_eq!(top.mul(top).raw, RAW_BOUND);
}
