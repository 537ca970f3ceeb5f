//! The text variants: a fixed character ramp ordered from sparsest to
//! densest glyph, and a line-oriented renderer that collects one line of
//! characters per grid row.
use crate::fractal::Grid;
use crate::fractal::Palette;
use crate::fractal::Renderer;
use vstd::prelude::*;

verus! {

/// The character intensity ramp, sparsest glyph first.
pub open spec fn char_ramp() -> Seq<char> {
    seq![
        ' ',
        ' ',
        ',',
        '.',
        '\'',
        '"',
        '~',
        ':',
        ';',
        'o',
        '-',
        '!',
        '|',
        '?',
        '/',
        '<',
        '>',
        'X',
        '+',
        '=',
        '{',
        '^',
        '0',
        '#',
        '%',
        '&',
        '@',
        '8',
        '*',
        '$',
    ]
}

/// The palette of ASCII intensity characters.
pub struct CharPalette;

impl Palette<char> for CharPalette {
    open spec fn ramp_spec(&self) -> Seq<char> {
        char_ramp()
    }

    fn get(&self) -> (v: Vec<char>) {
        let mut v: Vec<char> = Vec::new();
        v.push(' ');
        v.push(' ');
        v.push(',');
        v.push('.');
        v.push('\'');
        v.push('"');
        v.push('~');
        v.push(':');
        v.push(';');
        v.push('o');
        v.push('-');
        v.push('!');
        v.push('|');
        v.push('?');
        v.push('/');
        v.push('<');
        v.push('>');
        v.push('X');
        v.push('+');
        v.push('=');
        v.push('{');
        v.push('^');
        v.push('0');
        v.push('#');
        v.push('%');
        v.push('&');
        v.push('@');
        v.push('8');
        v.push('*');
        v.push('$');
        proof {
            assert(v@ =~= char_ramp());
        }
        v
    }
}

/// The lines a character renderer has produced, as sequences of characters.
pub open spec fn lines_view(r: CharRenderer) -> Seq<Seq<char>> {
    r.lines@.map_values(|v: Vec<char>| v@)
}

/// A renderer that appends one line of characters per grid row, in row
/// order, to its output sink.
pub struct CharRenderer {
    pub lines: Vec<Vec<char>>,
}

impl CharRenderer {
    /// A renderer with an empty sink.
    pub fn new() -> (r: CharRenderer)
        ensures
            lines_view(r) == Seq::<Seq<char>>::empty(),
    {
        let r = CharRenderer { lines: Vec::new() };
        proof {
            assert(lines_view(r) =~= Seq::<Seq<char>>::empty());
        }
        r
    }
}

/// Copy a vector of characters.
fn copy_chars(v: &Vec<char>) -> (out: Vec<char>)
    ensures
        out@ == v@,
{
    let mut out: Vec<char> = Vec::new();
    let mut i: usize = 0;
    while i < v.len()
        invariant
            i <= v@.len(),
            out@ == v@.subrange(0, i as int),
        decreases v@.len() - i,
    {
        out.push(v[i]);
        proof {
            assert(out@ =~= v@.subrange(0, i + 1));
        }
        i = i + 1;
    }
    proof {
        assert(out@ =~= v@);
    }
    out
}

impl Renderer<char> for CharRenderer {
    open spec fn render_req(&self, rows: Seq<Seq<char>>) -> bool {
        true
    }

    open spec fn render_ens(pre: CharRenderer, post: CharRenderer, rows: Seq<Seq<char>>) -> bool {
        lines_view(post) == lines_view(pre) + rows
    }

    fn render(&mut self, grid: Grid<char>) {
        let mut i: usize = 0;
        while i < grid.0.len()
            invariant
                i <= grid.0@.len(),
                self.lines@.len() == old(self).lines@.len() + i,
                forall|j: int|
                    0 <= j < old(self).lines@.len() ==> #[trigger] self.lines@[j]@ == old(
                        self,
                    ).lines@[j]@,
                forall|j: int|
                    0 <= j < i ==> #[trigger] self.lines@[old(self).lines@.len() + j]@
                        == grid.0@[j]@,
            decreases grid.0@.len() - i,
        {
            let line = copy_chars(&grid.0[i]);
            self.lines.push(line);
            i = i + 1;
        }
        proof {
            let pre = lines_view(*old(self));
            let rows = crate::fractal::rows_view(grid);
            assert forall|k: int| 0 <= k < self.lines@.len() implies #[trigger] lines_view(
                *self,
            )[k] == (pre + rows)[k] by {
                if k < pre.len() {
                    assert(self.lines@[k]@ == old(self).lines@[k]@);
                } else {
                    let j = k - pre.len();
                    assert(self.lines@[old(self).lines@.len() + j]@ == grid.0@[j]@);
                }
            }
            assert(lines_view(*self) =~= pre + rows);
        }
    }
}

} // verus!
