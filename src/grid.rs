//! The character buffer as a grid of glyphs, and what drawing does to it.
use vstd::prelude::*;

verus! {

/// The grid of a character buffer, row by row.
pub open spec fn grid(buffer: &Vec<Vec<char>>) -> Seq<Seq<char>> {
    Seq::new(buffer@.len(), |r: int| buffer@[r]@)
}

/// `g` has `height` rows of `width` glyphs each.
pub open spec fn grid_shape(g: Seq<Seq<char>>, width: int, height: int) -> bool {
    &&& g.len() == height
    &&& forall|r: int| 0 <= r < height ==> #[trigger] g[r].len() == width
}

/// `g` with `glyph` written in each of its cells `(column, row)` that lies in `cells`.
pub open spec fn painted(g: Seq<Seq<char>>, cells: Set<(int, int)>, glyph: char) -> Seq<Seq<char>> {
    Seq::new(
        g.len(),
        |r: int|
            Seq::new(g[r].len(), |c: int| if cells.contains((c, r)) { glyph } else { g[r][c] }),
    )
}

/// The grid of `height` rows of `width` background glyphs `'.'`.
pub open spec fn blank_grid(width: int, height: int) -> Seq<Seq<char>> {
    Seq::new(height as nat, |r: int| Seq::new(width as nat, |c: int| '.'))
}

pub(crate) proof fn lemma_painted_shape(g: Seq<Seq<char>>, cells: Set<(int, int)>, glyph: char, width: int, height: int)
    requires
        grid_shape(g, width, height),
    ensures
        grid_shape(painted(g, cells, glyph), width, height),
{
}

pub(crate) proof fn lemma_paint_one(g: Seq<Seq<char>>, cells: Set<(int, int)>, glyph: char, x: int, y: int)
    requires
        0 <= y < g.len(),
        0 <= x < g[y].len(),
    ensures
        ({
            let p = painted(g, cells, glyph);
            p.update(y, p[y].update(x, glyph)) =~~= painted(g, cells.insert((x, y)), glyph)
        }),
{
}

pub(crate) proof fn lemma_paint_outside(g: Seq<Seq<char>>, cells: Set<(int, int)>, glyph: char, x: int, y: int)
    requires
        !(0 <= y < g.len() && 0 <= x < g[y].len()),
    ensures
        painted(g, cells, glyph) =~~= painted(g, cells.insert((x, y)), glyph),
{
}

} // verus!
