//! The sampling pipeline: complex points, the quadratic iteration step, the
//! escape classifier, coordinate grids, and the interfaces the variants
//! implement (how a point's sequence is generated, how a classification maps
//! to a color, and how colors reach an output surface).
use crate::fixed::clip;
use crate::fixed::fx_add;
use crate::fixed::fx_mul;
use crate::fixed::fx_mul_int;
use crate::fixed::fx_sub;
use crate::fixed::fxdiv;
use crate::fixed::Fx;
use crate::fixed::SCALE;
use rayon::iter::IntoParallelRefIterator;
use rayon::iter::ParallelIterator;
use vstd::prelude::*;

verus! {

/// A point of the complex plane.
#[derive(Clone, Copy, Debug, PartialEq, Eq, Structural)]
pub struct Point {
    pub re: Fx,
    pub im: Fx,
}

/// Raw real part of the quadratic-map successor of `z` under constant `c`.
pub open spec fn next_re(c: Point, z: Point) -> int {
    fx_add(
        fx_sub(fx_mul(z.re.raw as int, z.re.raw as int), fx_mul(z.im.raw as int, z.im.raw as int)),
        c.re.raw as int,
    )
}

/// Raw imaginary part of the quadratic-map successor of `z` under constant `c`.
pub open spec fn next_im(c: Point, z: Point) -> int {
    fx_add(fx_mul_int(fx_mul(z.re.raw as int, z.im.raw as int), 2), c.im.raw as int)
}

/// The quadratic-map successor as a point.
pub open spec fn next_point(c: Point, z: Point) -> Point {
    Point { re: Fx { raw: next_re(c, z) as i64 }, im: Fx { raw: next_im(c, z) as i64 } }
}

/// True iff the point still lies inside the escape disk of radius 10.
pub open spec fn fairly_close_spec(p: Point) -> bool {
    (p.re.raw as int) * (p.re.raw as int) + (p.im.raw as int) * (p.im.raw as int) < 100 * (
    SCALE as int) * (SCALE as int)
}

impl Point {
    /// One step of the quadratic map:
    /// `(z.re² − z.im² + c.re, 2·z.re·z.im + c.im)`.
    pub fn next(c: Point, z: Point) -> (r: Point)
        ensures
            r == next_point(c, z),
    {
        let re = z.re.mul(z.re).sub(z.im.mul(z.im)).add(c.re);
        let im = z.re.mul(z.im).double().add(c.im);
        Point { re, im }
    }

    /// The escape test: true iff `re² + im² < 100`.
    pub fn fairly_close(p: Point) -> (r: bool)
        ensures
            r == fairly_close_spec(p),
    {
        proof {
            crate::fixed::lemma_i64_square_fits(p.re.raw as int);
            crate::fixed::lemma_i64_square_fits(p.im.raw as int);
        }
        let rr: i128 = (p.re.raw as i128) * (p.re.raw as i128);
        let ii: i128 = (p.im.raw as i128) * (p.im.raw as i128);
        let sum: u128 = (rr as u128) + (ii as u128);
        sum < 100u128 * (SCALE as u128) * (SCALE as u128)
    }
}

/// The capability of producing, per sampled point, the infinite iterate
/// sequence of the quadratic map. A variant fixes which of the sampled point
/// and its own parameter acts as the constant and which as the iterate seed.
pub trait Generator: Sized {
    /// The constant fed to every step of the quadratic map.
    spec fn constant_spec(&self, p: Point) -> Point;

    /// The value the iteration starts from.
    spec fn seed_spec(&self, p: Point) -> Point;

    /// The constant, as a value.
    fn constant_of(&self, p: Point) -> (c: Point)
        ensures
            c == self.constant_spec(p),
    ;

    /// The seed, as a value.
    fn seed_of(&self, p: Point) -> (s: Point)
        ensures
            s == self.seed_spec(p),
    ;

    /// The first `n` iterates for the sampled point `p`.
    fn generate(&self, p: Point, n: usize) -> (v: Vec<Point>)
        ensures
            v@ == iterate_prefix(self.constant_spec(p), self.seed_spec(p), n as nat),
    ;
}

/// The `k`-th iterate (0-indexed) of the quadratic map with constant `c`,
/// started from seed `s`.
pub open spec fn iterate_at(c: Point, s: Point, k: nat) -> Point
    decreases k,
{
    if k == 0 {
        next_point(c, s)
    } else {
        next_point(c, iterate_at(c, s, (k - 1) as nat))
    }
}

/// The first `n` iterates of the quadratic map with constant `c` and seed `s`.
pub open spec fn iterate_prefix(c: Point, s: Point, n: nat) -> Seq<Point> {
    Seq::new(n, |i: int| iterate_at(c, s, i as nat))
}

/// The iterates a generator yields for a sampled point.
pub open spec fn generated_prefix<G: Generator>(g: G, p: Point, n: nat) -> Seq<Point> {
    iterate_prefix(g.constant_spec(p), g.seed_spec(p), n)
}

/// Shared implementation of `Generator::generate`: run the step function.
pub fn iterate_points(c: Point, s: Point, n: usize) -> (v: Vec<Point>)
    ensures
        v@ == iterate_prefix(c, s, n as nat),
{
    let mut z = s;
    let mut v: Vec<Point> = Vec::new();
    let mut i: usize = 0;
    while i < n
        invariant
            i <= n,
            v@.len() == i,
            forall|j: int| 0 <= j < i ==> v@[j] == iterate_at(c, s, j as nat),
            z == if i == 0 {
                s
            } else {
                iterate_at(c, s, (i - 1) as nat)
            },
        decreases n - i,
    {
        z = Point::next(c, z);
        assert(z == iterate_at(c, s, i as nat));
        v.push(z);
        i = i + 1;
    }
    proof {
        assert(v@ =~= iterate_prefix(c, s, n as nat));
    }
    v
}

/// The capability of producing a finite, non-empty, ordered ramp of
/// color-like items.
pub trait Palette<C: Copy> {
    /// The ramp, as a mathematical sequence.
    spec fn ramp_spec(&self) -> Seq<C>;

    /// The ramp, as a vector of items.
    fn get(&self) -> (v: Vec<C>)
        ensures
            v@ == self.ramp_spec(),
    ;
}

/// How many leading points of `ps`, from index `i` up to `cap`, pass the
/// escape test.
pub open spec fn close_run(ps: Seq<Point>, i: int, cap: int) -> int
    recommends
        0 <= i,
        cap <= ps.len(),
    decreases cap - i,
{
    if i >= cap {
        0
    } else if fairly_close_spec(ps[i]) {
        1 + close_run(ps, i + 1, cap)
    } else {
        0
    }
}

/// The smaller of two lengths.
pub open spec fn spec_min(a: int, b: int) -> int {
    if a < b {
        a
    } else {
        b
    }
}

/// The color the classifier picks: pair palette items with the points while
/// they stay inside the disk, and keep the last item reached; if the first
/// point is already outside, the first item.
pub open spec fn chosen_color<C>(pal: Seq<C>, ps: Seq<Point>) -> C
    recommends
        pal.len() >= 1,
{
    let m = close_run(ps, 0, spec_min(pal.len() as int, ps.len() as int));
    if m == 0 {
        pal[0]
    } else {
        pal[m - 1]
    }
}

/// A run that stops at `m` (all points before `m` close, the one at `m`, if
/// any, not) has length exactly `m - s` from any start `s <= m`.
proof fn lemma_close_run_value(ps: Seq<Point>, s: int, cap: int, m: int)
    requires
        0 <= s <= m <= cap <= ps.len(),
        forall|j: int| s <= j < m ==> fairly_close_spec(ps[j]),
        m < cap ==> !fairly_close_spec(ps[m]),
    ensures
        close_run(ps, s, cap) == m - s,
    decreases m - s,
{
    if s < m {
        lemma_close_run_value(ps, s + 1, cap, m);
    }
}

/// Classify one sampled point: returns the palette item of the step at which
/// the sequence leaves the disk, the first item when it starts outside, and
/// the last item when it never leaves within the palette's length.
pub fn choose_color<C: Copy>(palette: &Vec<C>, points: &Vec<Point>) -> (c: C)
    requires
        palette.len() >= 1,
    ensures
        c == chosen_color(palette@, points@),
{
    let cap: usize = if palette.len() < points.len() {
        palette.len()
    } else {
        points.len()
    };
    let mut color = palette[0];
    let mut i: usize = 0;
    let mut escaped = false;
    while i < cap && !escaped
        invariant
            0 <= i <= cap,
            cap == spec_min(palette@.len() as int, points@.len() as int),
            palette@.len() >= 1,
            forall|j: int| 0 <= j < i ==> fairly_close_spec(points@[j]),
            color == if i == 0 {
                palette@[0]
            } else {
                palette@[i - 1]
            },
            escaped ==> i < cap && !fairly_close_spec(points@[i as int]),
        decreases cap - i + (if escaped {
            0int
        } else {
            1int
        }),
    {
        if Point::fairly_close(points[i]) {
            color = palette[i];
            i = i + 1;
        } else {
            escaped = true;
        }
    }
    proof {
        if escaped {
            lemma_close_run_value(points@, 0, cap as int, i as int);
        } else {
            lemma_close_run_value(points@, 0, cap as int, cap as int);
        }
    }
    color
}

/// For every non-empty palette and every iterate sequence whose points stay
/// inside the disk through step `k` (0-indexed, `k < |pal|`) and leave right
/// after, the classifier returns the palette item of step `k`.
pub proof fn lemma_escape_step_color<C>(pal: Seq<C>, ps: Seq<Point>, k: int)
    requires
        1 <= pal.len(),
        0 <= k < pal.len(),
        k < ps.len(),
        forall|j: int| 0 <= j <= k ==> fairly_close_spec(ps[j]),
        k + 1 < spec_min(pal.len() as int, ps.len() as int) ==> !fairly_close_spec(ps[k + 1]),
    ensures
        chosen_color(pal, ps) == pal[k],
{
    lemma_close_run_value(ps, 0, spec_min(pal.len() as int, ps.len() as int), k + 1);
}

/// For every non-empty palette, a point already outside the disk at the
/// first step (or an empty iterate sequence) is classified as the palette's
/// first item.
pub proof fn lemma_escape_at_start_color<C>(pal: Seq<C>, ps: Seq<Point>)
    requires
        1 <= pal.len(),
        ps.len() == 0 || !fairly_close_spec(ps[0]),
    ensures
        chosen_color(pal, ps) == pal[0],
{
    lemma_close_run_value(ps, 0, spec_min(pal.len() as int, ps.len() as int), 0);
}

/// For every non-empty palette, a sequence that stays inside the disk for at
/// least the palette's length saturates at the palette's last item.
pub proof fn lemma_saturation_color<C>(pal: Seq<C>, ps: Seq<Point>)
    requires
        1 <= pal.len() <= ps.len(),
        forall|j: int| 0 <= j < pal.len() ==> fairly_close_spec(ps[j]),
    ensures
        chosen_color(pal, ps) == pal[pal.len() - 1],
{
    lemma_close_run_value(
        ps,
        0,
        spec_min(pal.len() as int, ps.len() as int),
        spec_min(pal.len() as int, ps.len() as int),
    );
}

/// The color the classifier assigns to the point whose iteration has
/// constant `c` and seed `s`, under the palette `pal`.
pub open spec fn color_at<C>(pal: Seq<C>, c: Point, s: Point) -> C
    recommends
        pal.len() >= 1,
{
    chosen_color(pal, iterate_prefix(c, s, pal.len()))
}

/// Classify one sampled point with a generator and a palette.
pub fn make_image<C: Copy, G: Generator, P: Palette<C>>(generator: &G, palette: &P, p: Point) -> (c:
    C)
    requires
        palette.ramp_spec().len() >= 1,
    ensures
        c == color_at(palette.ramp_spec(), generator.constant_spec(p), generator.seed_spec(p)),
{
    let pal = palette.get();
    let pts = generator.generate(p, pal.len());
    choose_color(&pal, &pts)
}

/// A 2D, row-major matrix of items, all rows of equal length.
#[derive(Debug)]
pub struct Grid<C>(pub Vec<Vec<C>>);

/// Why a grid could not be built.
#[derive(Clone, Copy, Debug, PartialEq, Eq, Structural)]
pub enum GridError {
    /// The bounding box is empty on at least one axis.
    InvalidBounds,
    /// Fewer than two rows or columns were requested, so no step size exists.
    DegenerateAxis,
}

/// The rows of a grid as a sequence of sequences.
pub open spec fn rows_view<C>(g: Grid<C>) -> Seq<Seq<C>> {
    g.0@.map_values(|v: Vec<C>| v@)
}

/// A bounding box with positive extent on both axes.
pub open spec fn bounds_ok(min: Point, max: Point) -> bool {
    min.re.raw < max.re.raw && min.im.raw < max.im.raw
}

/// All conditions under which grid construction succeeds.
pub open spec fn grid_ok(col: int, row: int, min: Point, max: Point) -> bool {
    bounds_ok(min, max) && 2 <= col && 2 <= row
}

/// The raw horizontal step between grid columns.
pub open spec fn x_spread(col: int, min: Point, max: Point) -> int {
    clip(fxdiv(fx_sub(max.re.raw as int, min.re.raw as int), col - 1))
}

/// The raw vertical step between grid rows.
pub open spec fn y_spread(row: int, min: Point, max: Point) -> int {
    clip(fxdiv(fx_sub(max.im.raw as int, min.im.raw as int), row - 1))
}

/// The sample coordinate of cell `(r, c)`: linear interpolation from the
/// minimum corner.
pub open spec fn grid_cell(col: int, row: int, min: Point, max: Point, r: int, c: int) -> Point {
    Point {
        re: Fx { raw: fx_add(fx_mul_int(x_spread(col, min, max), c), min.re.raw as int) as i64 },
        im: Fx { raw: fx_add(fx_mul_int(y_spread(row, min, max), r), min.im.raw as int) as i64 },
    }
}

impl Grid<Point> {
    /// Build the `col` × `row` grid of sample coordinates over the bounding
    /// box `[min, max]`, or report why it cannot be built.
    pub fn new(col: usize, row: usize, min: Point, max: Point) -> (g: Result<
        Grid<Point>,
        GridError,
    >)
        requires
            col <= 0xffff_ffff,
            row <= 0xffff_ffff,
        ensures
            match g {
                Ok(gr) => grid_ok(col as int, row as int, min, max) && gr.0@.len() == row && (
                forall|r: int| 0 <= r < row ==> #[trigger] gr.0@[r]@.len() == col) && (forall|
                    r: int,
                    c: int,
                |
                    0 <= r < row && 0 <= c < col ==> #[trigger] gr.0@[r]@[c] == grid_cell(
                        col as int,
                        row as int,
                        min,
                        max,
                        r,
                        c,
                    )),
                Err(e) => match e {
                    GridError::InvalidBounds => !bounds_ok(min, max),
                    GridError::DegenerateAxis => bounds_ok(min, max) && (col < 2 || row < 2),
                },
            },
    {
        if !min.re.lt(max.re) || !min.im.lt(max.im) {
            return Err(GridError::InvalidBounds);
        }
        if col < 2 || row < 2 {
            return Err(GridError::DegenerateAxis);
        }
        let yspread = max.im.sub(min.im).div_int((row - 1) as u32);
        let xspread = max.re.sub(min.re).div_int((col - 1) as u32);
        let mut rows: Vec<Vec<Point>> = Vec::new();
        let mut r: usize = 0;
        while r < row
            invariant
                r <= row,
                rows@.len() == r,
                col <= 0xffff_ffff,
                row <= 0xffff_ffff,
                xspread.raw == x_spread(col as int, min, max),
                yspread.raw == y_spread(row as int, min, max),
                forall|i: int| 0 <= i < r ==> #[trigger] rows@[i]@.len() == col,
                forall|i: int, c: int|
                    0 <= i < r && 0 <= c < col ==> #[trigger] rows@[i]@[c] == grid_cell(
                        col as int,
                        row as int,
                        min,
                        max,
                        i,
                        c,
                    ),
            decreases row - r,
        {
            let y = yspread.mul_int(r as i64).add(min.im);
            let mut curr: Vec<Point> = Vec::new();
            let mut c: usize = 0;
            while c < col
                invariant
                    c <= col,
                    curr@.len() == c,
                    col <= 0xffff_ffff,
                    xspread.raw == x_spread(col as int, min, max),
                    y.raw == fx_add(fx_mul_int(y_spread(row as int, min, max), r as int), min.im.raw as int),
                    forall|k: int|
                        0 <= k < c ==> #[trigger] curr@[k] == grid_cell(
                            col as int,
                            row as int,
                            min,
                            max,
                            r as int,
                            k,
                        ),
                decreases col - c,
            {
                let x = xspread.mul_int(c as i64).add(min.re);
                curr.push(Point { re: x, im: y });
                c = c + 1;
            }
            rows.push(curr);
            r = r + 1;
        }
        Ok(Grid(rows))
    }
}

/// The full matrix of sample coordinates a grid holds when construction
/// succeeds.
pub open spec fn grid_points(col: int, row: int, min: Point, max: Point) -> Seq<Seq<Point>> {
    Seq::new(
        row as nat,
        |r: int| Seq::new(col as nat, |c: int| grid_cell(col, row, min, max, r, c)),
    )
}

/// The colors of one row of sample points.
pub open spec fn row_colors<C, G: Generator>(g: G, pal: Seq<C>, ps: Seq<Point>) -> Seq<C> {
    Seq::new(ps.len(), |i: int| color_at(pal, g.constant_spec(ps[i]), g.seed_spec(ps[i])))
}

/// Classify every point of one row, in order.
pub fn sample_row<C: Copy, G: Generator, P: Palette<C>>(
    row: &Vec<Point>,
    generator: &G,
    palette: &P,
) -> (out: Vec<C>)
    requires
        palette.ramp_spec().len() >= 1,
    ensures
        out@ == row_colors(*generator, palette.ramp_spec(), row@),
{
    let mut out: Vec<C> = Vec::new();
    let mut i: usize = 0;
    while i < row.len()
        invariant
            i <= row@.len(),
            out@.len() == i,
            palette.ramp_spec().len() >= 1,
            forall|j: int|
                0 <= j < i ==> #[trigger] out@[j] == color_at(
                    palette.ramp_spec(),
                    generator.constant_spec(row@[j]),
                    generator.seed_spec(row@[j]),
                ),
        decreases row@.len() - i,
    {
        let c = make_image(generator, palette, row[i]);
        out.push(c);
        i = i + 1;
    }
    proof {
        assert(out@ =~= row_colors(*generator, palette.ramp_spec(), row@));
    }
    out
}

/// Relies on rayon's `par_iter`/`map`/`collect` over a slice: the collected
/// vector holds, in order, one result of the mapped closure per input row;
/// the closure only calls the verified `sample_row`.
#[verifier::external_body]
fn par_map_rows<C: Copy + Send + Sync, G: Generator + Sync, P: Palette<C> + Sync>(
    rows: &Vec<Vec<Point>>,
    generator: &G,
    palette: &P,
) -> (out: Vec<Vec<C>>)
    requires
        palette.ramp_spec().len() >= 1,
    ensures
        out@.len() == rows@.len(),
        forall|r: int|
            0 <= r < rows@.len() ==> #[trigger] out@[r]@ == row_colors(
                *generator,
                palette.ramp_spec(),
                rows@[r]@,
            ),
{
    rows.par_iter().map(|row| sample_row(row, generator, palette)).collect()
}

/// Map the classifier over every cell of a grid of sample points,
/// independently and in parallel; the output has the shape of the input.
pub fn sample<C: Copy + Send + Sync, G: Generator + Sync, P: Palette<C> + Sync>(
    grid: &Grid<Point>,
    generator: &G,
    palette: &P,
) -> (out: Grid<C>)
    requires
        palette.ramp_spec().len() >= 1,
    ensures
        out.0@.len() == grid.0@.len(),
        forall|r: int|
            0 <= r < grid.0@.len() ==> #[trigger] out.0@[r]@ == row_colors(
                *generator,
                palette.ramp_spec(),
                grid.0@[r]@,
            ),
{
    Grid(par_map_rows(&grid.0, generator, palette))
}

/// The full grid of colors the pipeline produces for a grid of points.
pub open spec fn sampled_rows<C, G: Generator>(g: G, pal: Seq<C>, rows: Seq<Seq<Point>>) -> Seq<
    Seq<C>,
> {
    Seq::new(rows.len(), |r: int| row_colors(g, pal, rows[r]))
}

/// The capability of consuming a grid of items and presenting it.
pub trait Renderer<C: Copy>: Sized {
    /// What must hold of the rows for this renderer to accept them.
    spec fn render_req(&self, rows: Seq<Seq<C>>) -> bool;

    /// How rendering `rows` changes the renderer.
    spec fn render_ens(pre: Self, post: Self, rows: Seq<Seq<C>>) -> bool;

    /// Present the grid.
    fn render(&mut self, grid: Grid<C>)
        requires
            old(self).render_req(rows_view(grid)),
        ensures
            Self::render_ens(*old(self), *final(self), rows_view(grid)),
    ;
}

/// Run the whole pipeline: sample every grid point and hand the colors to
/// the renderer.
pub fn draw<
    C: Copy + Send + Sync,
    G: Generator + Sync,
    P: Palette<C> + Sync,
    R: Renderer<C>,
>(generator: &G, palette: &P, renderer: &mut R, points: &Grid<Point>)
    requires
        palette.ramp_spec().len() >= 1,
        old(renderer).render_req(
            sampled_rows(*generator, palette.ramp_spec(), rows_view(*points)),
        ),
    ensures
        R::render_ens(
            *old(renderer),
            *final(renderer),
            sampled_rows(*generator, palette.ramp_spec(), rows_view(*points)),
        ),
{
    let colored = sample(points, generator, palette);
    proof {
        assert(rows_view(colored) =~~= sampled_rows(
            *generator,
            palette.ramp_spec(),
            rows_view(*points),
        ));
    }
    renderer.render(colored);
}

} // verus!
