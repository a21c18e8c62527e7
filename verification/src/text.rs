//! Rendering the grid as text and reading such text back.
//!
//! A dump holds one line per row: the glyph '*' for a live cell, '.' for a
//! dead one, and a newline after every row.

use crate::grid::Cell;
use crate::grid::Universe;
use vstd::arithmetic::div_mod::lemma_fundamental_div_mod;
use vstd::arithmetic::div_mod::lemma_fundamental_div_mod_converse;
use vstd::prelude::*;
use vstd::string::StringExecFns;

verus! {

broadcast use vstd::arithmetic::div_mod::lemma_mod_bound;

/// The glyph for one cell in a rendered dump.
pub open spec fn glyph(c: Cell) -> char {
    match c {
        Cell::Alive => '*',
        Cell::Dead => '.',
    }
}

/// The rendered text of a width-w, height-h grid g: h lines of w glyphs in
/// row-major order, each line terminated by a newline.
pub open spec fn render_spec(g: Seq<Cell>, w: int, h: int) -> Seq<char> {
    Seq::new(
        (h * (w + 1)) as nat,
        |i: int|
            if i % (w + 1) == w {
                '\n'
            } else {
                glyph(g[(i / (w + 1)) * w + i % (w + 1)])
            },
    )
}

/// The width-w, height-h grid read back from rendered text with the same
/// glyph convention: a cell is alive exactly where its glyph is '*'.
pub open spec fn parse_spec(s: Seq<char>, w: int, h: int) -> Seq<Cell> {
    Seq::new(
        (w * h) as nat,
        |k: int|
            if s[(k / w) * (w + 1) + k % w] == '*' {
                Cell::Alive
            } else {
                Cell::Dead
            },
    )
}

/// Round trip: rendering a grid and parsing the text back with the same
/// glyph convention reproduces the grid exactly.
pub proof fn lemma_render_parse_round_trip(g: Seq<Cell>, w: int, h: int)
    requires
        1 <= w,
        1 <= h,
        g.len() == w * h,
    ensures
        parse_spec(render_spec(g, w, h), w, h) == g,
{
    let s = render_spec(g, w, h);
    assert forall|k: int| 0 <= k < w * h implies parse_spec(s, w, h)[k] == g[k] by {
        lemma_fundamental_div_mod(k, w);
        let r = k / w;
        let c = k % w;
        assert(0 <= r && r < h) by (nonlinear_arith)
            requires
                k == w * r + c,
                0 <= c && c < w,
                0 <= k && k < w * h,
                1 <= w,
                1 <= h,
        ;
        let i = r * (w + 1) + c;
        lemma_fundamental_div_mod_converse(i, w + 1, r, c);
        assert(0 <= i && i < h * (w + 1)) by (nonlinear_arith)
            requires
                i == r * (w + 1) + c,
                0 <= r && r < h,
                0 <= c && c < w,
                1 <= w,
        ;
        assert(r * w + c == k) by (nonlinear_arith)
            requires
                k == w * r + c,
        ;
        assert(s[i] == glyph(g[k]));
    }
    assert(parse_spec(s, w, h) =~= g);
}

/// A cleared grid renders as an all-dead dump: every character of the text
/// is either the dead glyph or a newline.
pub proof fn lemma_render_all_dead(g: Seq<Cell>, w: int, h: int)
    requires
        1 <= w,
        1 <= h,
        g.len() == w * h,
        forall|k: int| 0 <= k < g.len() ==> g[k] is Dead,
    ensures
        render_spec(g, w, h).len() == h * (w + 1),
        forall|i: int|
            0 <= i < h * (w + 1) ==> (render_spec(g, w, h)[i] == '.' || render_spec(g, w, h)[i]
                == '\n'),
{
    assert forall|i: int| 0 <= i < h * (w + 1) implies (render_spec(g, w, h)[i] == '.'
        || render_spec(g, w, h)[i] == '\n') by {
        lemma_fundamental_div_mod(i, w + 1);
        let r = i / (w + 1);
        let c = i % (w + 1);
        if c != w {
            assert(0 <= r && r < h) by (nonlinear_arith)
                requires
                    i == (w + 1) * r + c,
                    0 <= c && c < w + 1,
                    0 <= i && i < h * (w + 1),
                    1 <= w,
                    1 <= h,
            ;
            assert(0 <= r * w + c && r * w + c < w * h) by (nonlinear_arith)
                requires
                    0 <= r && r < h,
                    0 <= c && c < w,
                    1 <= w,
            ;
            assert(g[r * w + c] is Dead);
        }
    }
}

impl Universe {
    /// Render the grid as text: one line per row, a '*' glyph for each live
    /// cell and a '.' glyph for each dead one, every row terminated by a
    /// newline. Pure: the grid is left untouched.
    pub fn render(&self) -> (s: String)
        requires
            self.wf(),
        ensures
            s@ == render_spec(self.cells@, self.width as int, self.height as int),
    {
        let w = self.width;
        let h = self.height;
        let ghost target = render_spec(self.cells@, w as int, h as int);
        let mut s = String::new();
        let mut row: u32 = 0;
        while row < h
            invariant
                self.wf(),
                self.width == w,
                self.height == h,
                target == render_spec(self.cells@, w as int, h as int),
                row <= h,
                s@.len() == (row as int) * (w as int + 1),
                forall|i: int| 0 <= i < s@.len() ==> s@[i] == target[i],
            decreases h - row,
        {
            let mut col: u32 = 0;
            while col < w
                invariant
                    self.wf(),
                    self.width == w,
                    self.height == h,
                    target == render_spec(self.cells@, w as int, h as int),
                    row < h,
                    col <= w,
                    s@.len() == (row as int) * (w as int + 1) + col as int,
                    forall|i: int| 0 <= i < s@.len() ==> s@[i] == target[i],
                decreases w - col,
            {
                let idx = self.get_index(row, col);
                let cell = self.cells[idx];
                let gl = if cell == Cell::Alive {
                    "*"
                } else {
                    "."
                };
                proof {
                    reveal_strlit("*");
                    reveal_strlit(".");
                    let i = (row as int) * (w as int + 1) + col as int;
                    lemma_fundamental_div_mod_converse(i, w as int + 1, row as int, col as int);
                    assert(0 <= i && i < (h as int) * (w as int + 1)) by (nonlinear_arith)
                        requires
                            i == (row as int) * (w as int + 1) + col as int,
                            0 <= row as int && (row as int) < h as int,
                            0 <= col as int && (col as int) < w as int,
                            1 <= w as int,
                    ;
                    assert(target[i] == glyph(self.cells@[idx as int]));
                }
                s.append(gl);
                col += 1;
            }
            proof {
                reveal_strlit("\n");
                let i = (row as int) * (w as int + 1) + w as int;
                lemma_fundamental_div_mod_converse(i, w as int + 1, row as int, w as int);
                assert(0 <= i && i < (h as int) * (w as int + 1)) by (nonlinear_arith)
                    requires
                        i == (row as int) * (w as int + 1) + w as int,
                        0 <= row as int && (row as int) < h as int,
                        1 <= w as int,
                ;
                assert(target[i] == '\n');
                assert((row as int + 1) * (w as int + 1) == (row as int) * (w as int + 1) + (
                w as int + 1)) by (nonlinear_arith);
            }
            s.append("\n");
            row += 1;
        }
        proof {
            assert((h as int) * (w as int + 1) == target.len());
            assert(s@ =~= target);
        }
        s
    }
}

} // verus!
