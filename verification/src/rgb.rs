//! The RGB variants: a palette built from an external color ramp, mirrored
//! into a palindromic cycle, and a renderer that writes each grid cell into
//! the matching position of a width × height pixel buffer.
use crate::fractal::Grid;
use crate::fractal::Palette;
use crate::fractal::Renderer;
use rayon::iter::IndexedParallelIterator;
use rayon::iter::IntoParallelRefMutIterator;
use rayon::iter::ParallelIterator;
use vstd::prelude::*;

verus! {

/// A color as three 8-bit channels.
#[derive(Clone, Copy, Debug, PartialEq, Eq, Structural)]
pub struct Color {
    pub r: u8,
    pub g: u8,
    pub b: u8,
}

impl Color {
    /// The color with the given channels.
    pub fn rgb(r: u8, g: u8, b: u8) -> (c: Color)
        ensures
            c == (Color { r, g, b }),
    {
        Color { r, g, b }
    }
}

/// The nine hex triples of the OrRd color ramp, as the external collaborator
/// supplies them.
pub open spec fn orrd_ramp_hex() -> Seq<Seq<char>> {
    seq![
        seq!['#', 'f', 'f', 'f', '7', 'e', 'c'],
        seq!['#', 'f', 'e', 'e', '8', 'c', '8'],
        seq!['#', 'f', 'd', 'd', '4', '9', 'e'],
        seq!['#', 'f', 'd', 'b', 'b', '8', '4'],
        seq!['#', 'f', 'c', '8', 'd', '5', '9'],
        seq!['#', 'e', 'f', '6', '5', '4', '8'],
        seq!['#', 'd', '7', '3', '0', '1', 'f'],
        seq!['#', 'b', '3', '0', '0', '0', '0'],
        seq!['#', '7', 'f', '0', '0', '0', '0'],
    ]
}

/// Relies on `colorbrewer::get_color_ramp`: for the OrRd palette and nine
/// requested colors it returns exactly the nine hex strings its source lists
/// (the ones `orrd_ramp_hex` spells out).
#[verifier::external_body]
fn orrd_ramp_nine() -> (ramp: Vec<Vec<char>>)
    ensures
        ramp@.len() == 9,
        forall|i: int| 0 <= i < 9 ==> #[trigger] ramp@[i]@ == orrd_ramp_hex()[i],
{
    let ramp = colorbrewer::get_color_ramp(colorbrewer::Palette::OrRd, 9).unwrap();
    ramp.into_iter().map(|s| s.chars().collect()).collect()
}

/// The value of a hexadecimal digit; other characters count as zero.
pub open spec fn hex_val(c: char) -> int {
    if '0' <= c && c <= '9' {
        c as int - '0' as int
    } else if 'a' <= c && c <= 'f' {
        c as int - 'a' as int + 10
    } else if 'A' <= c && c <= 'F' {
        c as int - 'A' as int + 10
    } else {
        0
    }
}

/// The color a hex triple `#rrggbb` denotes.
pub open spec fn decode_color(s: Seq<char>) -> Color {
    Color {
        r: (hex_val(s[1]) * 16 + hex_val(s[2])) as u8,
        g: (hex_val(s[3]) * 16 + hex_val(s[4])) as u8,
        b: (hex_val(s[5]) * 16 + hex_val(s[6])) as u8,
    }
}

/// A sequence followed by its own reverse.
pub open spec fn mirrored<T>(s: Seq<T>) -> Seq<T> {
    s + s.reverse()
}

/// The full RGB ramp: the external ramp decoded and mirrored, so the cycle
/// eases back toward its start instead of wrapping on a discontinuity.
pub open spec fn rgb_ramp() -> Seq<Color> {
    mirrored(orrd_ramp_hex().map_values(|s: Seq<char>| decode_color(s)))
}

/// The value of one hexadecimal digit character.
fn hex_val_of(c: char) -> (v: u8)
    ensures
        v as int == hex_val(c),
        v <= 15,
{
    if c >= '0' && c <= '9' {
        (c as u32 - '0' as u32) as u8
    } else if c >= 'a' && c <= 'f' {
        (c as u32 - 'a' as u32) as u8 + 10
    } else if c >= 'A' && c <= 'F' {
        (c as u32 - 'A' as u32) as u8 + 10
    } else {
        0
    }
}

/// Decode one `#rrggbb` hex triple into a color.
fn decode_entry(s: &Vec<char>) -> (c: Color)
    requires
        s@.len() == 7,
    ensures
        c == decode_color(s@),
{
    let r = hex_val_of(s[1]) * 16 + hex_val_of(s[2]);
    let g = hex_val_of(s[3]) * 16 + hex_val_of(s[4]);
    let b = hex_val_of(s[5]) * 16 + hex_val_of(s[6]);
    Color { r, g, b }
}

/// The palette of RGB colors derived from the external color ramp.
#[derive(Clone)]
pub struct RGBPalette {
    pub colors: Vec<Color>,
}

impl RGBPalette {
    /// Build the mirrored RGB ramp from the external collaborator's colors.
    pub fn new() -> (p: RGBPalette)
        ensures
            p.colors@ == rgb_ramp(),
            p.colors@.len() == 18,
    {
        let ramp = orrd_ramp_nine();
        let mut decoded: Vec<Color> = Vec::new();
        let mut i: usize = 0;
        while i < ramp.len()
            invariant
                i <= ramp@.len(),
                ramp@.len() == 9,
                forall|k: int| 0 <= k < 9 ==> #[trigger] ramp@[k]@ == orrd_ramp_hex()[k],
                decoded@.len() == i,
                forall|k: int|
                    0 <= k < i ==> #[trigger] decoded@[k] == decode_color(orrd_ramp_hex()[k]),
            decreases ramp@.len() - i,
        {
            assert(ramp@[i as int]@ == orrd_ramp_hex()[i as int]);
            assert(orrd_ramp_hex()[i as int].len() == 7);
            let c = decode_entry(&ramp[i]);
            decoded.push(c);
            i = i + 1;
        }
        let mut colors: Vec<Color> = Vec::new();
        let mut j: usize = 0;
        while j < decoded.len()
            invariant
                j <= decoded@.len(),
                colors@ == decoded@.subrange(0, j as int),
            decreases decoded@.len() - j,
        {
            colors.push(decoded[j]);
            proof {
                assert(colors@ =~= decoded@.subrange(0, j + 1));
            }
            j = j + 1;
        }
        let mut k: usize = decoded.len();
        while k > 0
            invariant
                k <= decoded@.len(),
                colors@.len() == decoded@.len() + (decoded@.len() - k),
                colors@.subrange(0, decoded@.len() as int) == decoded@,
                forall|m: int|
                    decoded@.len() <= m < colors@.len() ==> #[trigger] colors@[m] == decoded@[2
                        * decoded@.len() - 1 - m],
            decreases k,
        {
            k = k - 1;
            colors.push(decoded[k]);
        }
        let p = RGBPalette { colors };
        proof {
            let base = orrd_ramp_hex().map_values(|s: Seq<char>| decode_color(s));
            assert(decoded@ =~= base);
            assert(p.colors@ =~= mirrored(base));
        }
        p
    }
}

impl Palette<Color> for RGBPalette {
    open spec fn ramp_spec(&self) -> Seq<Color> {
        self.colors@
    }

    fn get(&self) -> (v: Vec<Color>) {
        let mut v: Vec<Color> = Vec::new();
        let mut i: usize = 0;
        while i < self.colors.len()
            invariant
                i <= self.colors@.len(),
                v@ == self.colors@.subrange(0, i as int),
            decreases self.colors@.len() - i,
        {
            v.push(self.colors[i]);
            proof {
                assert(v@ =~= self.colors@.subrange(0, i + 1));
            }
            i = i + 1;
        }
        proof {
            assert(v@ =~= self.colors@);
        }
        v
    }
}

/// A width × height pixel buffer in row-major order.
#[derive(Debug)]
pub struct Image {
    pub width: usize,
    pub height: usize,
    pub pixels: Vec<Color>,
}

/// An image holds exactly one pixel per cell of its rectangle.
pub open spec fn image_wf(img: Image) -> bool {
    img.pixels@.len() == img.width * img.height
}

impl Image {
    /// A black image of the given size.
    pub fn new(width: usize, height: usize) -> (img: Image)
        requires
            width * height <= usize::MAX,
        ensures
            img.width == width,
            img.height == height,
            image_wf(img),
            forall|i: int|
                0 <= i < img.pixels@.len() ==> #[trigger] img.pixels@[i] == (Color {
                    r: 0,
                    g: 0,
                    b: 0,
                }),
    {
        let n = width * height;
        let mut pixels: Vec<Color> = Vec::new();
        let mut i: usize = 0;
        while i < n
            invariant
                i <= n,
                pixels@.len() == i,
                forall|k: int|
                    0 <= k < i ==> #[trigger] pixels@[k] == (Color { r: 0, g: 0, b: 0 }),
            decreases n - i,
        {
            pixels.push(Color { r: 0, g: 0, b: 0 });
            i = i + 1;
        }
        Image { width, height, pixels }
    }

    /// Overwrite one pixel.
    pub fn put(&mut self, x: usize, y: usize, c: Color)
        requires
            image_wf(*old(self)),
            x < old(self).width,
            y < old(self).height,
        ensures
            final(self).width == old(self).width,
            final(self).height == old(self).height,
            image_wf(*final(self)),
            final(self).pixels@ == old(self).pixels@.update(
                y * old(self).width + x,
                c,
            ),
    {
        let n = self.pixels.len();
        proof {
            assert(y * self.width + x < self.width * self.height) by (nonlinear_arith)
                requires
                    x < self.width,
                    y < self.height,
            ;
        }
        let idx = y * self.width + x;
        self.pixels.set(idx, c);
    }

    /// Read one pixel.
    pub fn get(&self, x: usize, y: usize) -> (c: Color)
        requires
            image_wf(*self),
            x < self.width,
            y < self.height,
        ensures
            c == self.pixels@[y * self.width + x],
    {
        let n = self.pixels.len();
        proof {
            assert(y * self.width + x < self.width * self.height) by (nonlinear_arith)
                requires
                    x < self.width,
                    y < self.height,
            ;
        }
        self.pixels[y * self.width + x]
    }

    /// A deep copy of this image.
    pub fn clone(&self) -> (img: Image)
        ensures
            img.width == self.width,
            img.height == self.height,
            img.pixels@ == self.pixels@,
    {
        let mut pixels: Vec<Color> = Vec::new();
        let mut i: usize = 0;
        while i < self.pixels.len()
            invariant
                i <= self.pixels@.len(),
                pixels@ == self.pixels@.subrange(0, i as int),
            decreases self.pixels@.len() - i,
        {
            pixels.push(self.pixels[i]);
            proof {
                assert(pixels@ =~= self.pixels@.subrange(0, i + 1));
            }
            i = i + 1;
        }
        proof {
            assert(pixels@ =~= self.pixels@);
        }
        Image { width: self.width, height: self.height, pixels }
    }

    /// Copy this image's pixels onto another image of the same size.
    pub fn clone_onto(&self, other: &mut Image)
        requires
            old(other).width == self.width,
            old(other).height == self.height,
            old(other).pixels@.len() == self.pixels@.len(),
        ensures
            final(other).width == old(other).width,
            final(other).height == old(other).height,
            final(other).pixels@ == self.pixels@,
    {
        let mut i: usize = 0;
        while i < self.pixels.len()
            invariant
                i <= self.pixels@.len(),
                other.pixels@.len() == self.pixels@.len(),
                other.width == old(other).width,
                other.height == old(other).height,
                forall|k: int| 0 <= k < i ==> #[trigger] other.pixels@[k] == self.pixels@[k],
            decreases self.pixels@.len() - i,
        {
            let c = self.pixels[i];
            other.pixels.set(i, c);
            i = i + 1;
        }
        proof {
            assert(other.pixels@ =~= self.pixels@);
        }
    }
}

/// The grid cell that backs buffer index `i` in row-major order.
fn cell_at(rows: &Vec<Vec<Color>>, width: usize, i: usize) -> (c: Color)
    requires
        width >= 1,
        i < rows@.len() * width,
        forall|r: int| 0 <= r < rows@.len() ==> #[trigger] rows@[r]@.len() == width,
    ensures
        c == rows@[i as int / width as int]@[i as int % width as int],
{
    proof {
        assert(i < width * rows@.len()) by (nonlinear_arith)
            requires
                i < rows@.len() * width,
        ;
        vstd::arithmetic::div_mod::lemma_multiply_divide_lt(
            i as int,
            width as int,
            rows@.len() as int,
        );
        vstd::arithmetic::div_mod::lemma_mod_bound(i as int, width as int);
    }
    let y = i / width;
    let x = i % width;
    rows[y][x]
}

/// Relies on rayon's `par_iter_mut`/`enumerate`/`for_each` over a vector:
/// every element is overwritten exactly once, at its own index; the closure
/// only calls the verified `cell_at`.
#[verifier::external_body]
fn par_write_pixels(pixels: &mut Vec<Color>, rows: &Vec<Vec<Color>>, width: usize)
    requires
        width >= 1 || old(pixels)@.len() == 0,
        old(pixels)@.len() == rows@.len() * width,
        forall|r: int| 0 <= r < rows@.len() ==> #[trigger] rows@[r]@.len() == width,
    ensures
        final(pixels)@.len() == old(pixels)@.len(),
        forall|i: int|
            0 <= i < final(pixels)@.len() ==> #[trigger] final(pixels)@[i] == rows@[i / width as int]@[i % width as int],
{
    pixels.par_iter_mut().enumerate().for_each(|(i, px)| {
        *px = cell_at(rows, width, i);
    });
}

/// A renderer that writes each grid cell into the matching pixel of an
/// image it owns.
pub struct RGBRenderer {
    pub image: Image,
}

impl RGBRenderer {
    /// A renderer over the given image.
    pub fn new(image: Image) -> (r: RGBRenderer)
        ensures
            r.image.width == image.width,
            r.image.height == image.height,
            r.image.pixels@ == image.pixels@,
    {
        RGBRenderer { image }
    }

    /// Give the rendered image back.
    pub fn into_image(self) -> (img: Image)
        ensures
            img.width == self.image.width,
            img.height == self.image.height,
            img.pixels@ == self.image.pixels@,
    {
        self.image
    }
}

impl Renderer<Color> for RGBRenderer {
    open spec fn render_req(&self, rows: Seq<Seq<Color>>) -> bool {
        &&& image_wf(self.image)
        &&& rows.len() == self.image.height
        &&& forall|r: int| 0 <= r < rows.len() ==> #[trigger] rows[r].len() == self.image.width
    }

    open spec fn render_ens(pre: RGBRenderer, post: RGBRenderer, rows: Seq<Seq<Color>>) -> bool {
        &&& post.image.width == pre.image.width
        &&& post.image.height == pre.image.height
        &&& post.image.pixels@.len() == pre.image.pixels@.len()
        &&& forall|i: int|
            0 <= i < post.image.pixels@.len() ==> #[trigger] post.image.pixels@[i] == rows[i
                / pre.image.width as int][i % pre.image.width as int]
    }

    fn render(&mut self, grid: Grid<Color>) {
        let width = self.image.width;
        proof {
            assert(self.image.pixels@.len() == grid.0@.len() * width as int) by (nonlinear_arith)
                requires
                    self.image.pixels@.len() == self.image.width * self.image.height,
                    grid.0@.len() == self.image.height,
                    width == self.image.width,
            ;
        }
        proof {
            assert forall|r: int| 0 <= r < grid.0@.len() implies #[trigger] grid.0@[r]@.len()
                == width by {
                assert(crate::fractal::rows_view(grid)[r] == grid.0@[r]@);
            }
        }
        par_write_pixels(&mut self.image.pixels, &grid.0, width);
        proof {
            let rows = crate::fractal::rows_view(grid);
            assert forall|i: int| 0 <= i < self.image.pixels@.len() implies #[trigger] self.image.pixels@[i]
                == rows[i / width as int][i % width as int] by {
                assert(i < width * grid.0@.len()) by (nonlinear_arith)
                    requires
                        i < grid.0@.len() * width,
                ;
                vstd::arithmetic::div_mod::lemma_multiply_divide_lt(
                    i,
                    width as int,
                    grid.0@.len() as int,
                );
                vstd::arithmetic::div_mod::lemma_mod_bound(i, width as int);
                assert(rows[i / width as int] == grid.0@[i / width as int]@);
            }
        }
    }
}

} // verus!
