use vstd::prelude::*;

use crate::text::{push_char, to_uppercase, uppercase_of};

verus! {

// ---------------------------------------------------------------------------
// The picture
//
// A word of `n` characters is drawn as the wire frame of a cube: two squares
// of side `n` (the characters run along each edge, two columns apart), the
// back one shifted half a side down, the front one half a side right, and
// `/` strokes joining their corners.  The picture is a grid of
// `cube_height(n)` rows of `cube_width(n)` cells, the rows separated by
// newlines; each row takes `cube_pitch(n)` characters of the output.
// ---------------------------------------------------------------------------

/// Number of cells in one row of the picture of an `n`-character word.
pub open spec fn cube_width(n: int) -> int {
    3 * n
}

/// Number of rows of the picture of an `n`-character word.
pub open spec fn cube_height(n: int) -> int {
    3 * n / 2
}

/// Distance between the starts of two consecutive rows (a row and its newline).
pub open spec fn cube_pitch(n: int) -> int {
    3 * n + 1
}

/// Length of the picture: every row followed by a newline, but the last.
pub open spec fn canvas_len(n: int) -> int {
    if cube_height(n) == 0 {
        0
    } else {
        cube_height(n) * cube_pitch(n) - 1
    }
}

/// Position of the cell `(x, y)` in a canvas whose rows are `pitch` cells apart.
pub open spec fn spec_idx2(x: int, y: int, pitch: int) -> int {
    y * pitch + x
}

/// Position of the cell `(x, y)` in a canvas whose rows are `pitch` cells apart.
fn idx2(x: usize, y: usize, pitch: usize) -> (r: usize)
    requires
        spec_idx2(x as int, y as int, pitch as int) <= usize::MAX,
    ensures
        r == spec_idx2(x as int, y as int, pitch as int),
{
    y * pitch + x
}

/// The cell `(x, y)` of an empty canvas: a space, or the newline that ends a row.
pub open spec fn blank_cell(n: int, x: int) -> char {
    if x == cube_width(n) {
        '\n'
    } else {
        ' '
    }
}

/// Which character of the word lies on the cell `(x, y)` of the square whose
/// top left corner is `(sx, sy)`: the word runs right along the top edge, down
/// the left edge, left along the bottom edge and up the right edge, its
/// characters two columns apart on the horizontal edges.
pub open spec fn square_index(n: int, sx: int, sy: int, x: int, y: int) -> Option<int> {
    let right = sx + 2 * (n - 1);
    let bottom = sy + n - 1;
    if y == sy && sx <= x <= right && (x - sx) % 2 == 0 {
        Some((x - sx) / 2)
    } else if x == sx && sy <= y <= bottom {
        Some(y - sy)
    } else if y == bottom && sx <= x <= right && (x - sx) % 2 == 0 {
        Some(n - 1 - (x - sx) / 2)
    } else if x == right && sy <= y <= bottom {
        Some(n - 1 - (y - sy))
    } else {
        None
    }
}

/// Whether step `i` of drawing a square writes the cell `(x, y)`.
pub open spec fn square_step_hits(n: int, sx: int, sy: int, i: int, x: int, y: int) -> bool {
    ||| (x == 2 * i + sx && y == sy)
    ||| (x == sx && y == i + sy)
    ||| (x == (n - 1) * 2 - i * 2 + sx && y == sy + n - 1)
    ||| (x == (n - 1) * 2 + sx && y == sy + n - 1 - i)
}

/// Whether one of the first `m` diagonal strokes (counted from 1) lies on `(x, y)`.
pub open spec fn diagonal_upto(n: int, m: int, x: int, y: int) -> bool {
    let h = n / 2;
    ||| (1 <= y < m && (x == 2 * (h - y) || x == 2 * (h - y) + 2 * n - 2))
    ||| (n <= y < m + n - 1 && (x == 2 * (h - (y - n + 1)) || x == 2 * (h - (y - n + 1)) + 2
        * n - 2))
}

/// Whether a `/` stroke joining the two squares lies on `(x, y)`.
pub open spec fn diagonal_cell(n: int, x: int, y: int) -> bool {
    diagonal_upto(n, n / 2, x, y)
}

/// The cell `(x, y)` of the finished picture of a word whose upper-case
/// characters are `upper` and whose length is `n`.  The strokes are drawn
/// last, over the back square, which is drawn over the front one.
pub open spec fn cube_cell(n: int, upper: Seq<char>, x: int, y: int) -> char {
    let h = n / 2;
    if x == cube_width(n) {
        '\n'
    } else if diagonal_cell(n, x, y) {
        '/'
    } else {
        match square_index(n, 0, h, x, y) {
            Some(j) => upper[j],
            None => match square_index(n, 2 * h, 0, x, y) {
                Some(j) => upper[j],
                None => ' ',
            },
        }
    }
}

/// The whole picture, cell by cell.
pub open spec fn cube_picture(n: int, upper: Seq<char>) -> Seq<char> {
    Seq::new(
        canvas_len(n) as nat,
        |k: int| cube_cell(n, upper, k % cube_pitch(n), k / cube_pitch(n)),
    )
}

// ---------------------------------------------------------------------------
// Arithmetic on canvas positions
// ---------------------------------------------------------------------------

proof fn lemma_cell_of(k: int, p: int, x: int, y: int)
    requires
        p > 0,
        0 <= x < p,
        k == y * p + x,
    ensures
        k % p == x,
        k / p == y,
{
    vstd::arithmetic::div_mod::lemma_fundamental_div_mod_converse(k, p, y, x);
}

proof fn lemma_split(k: int, p: int)
    requires
        p > 0,
        0 <= k,
    ensures
        k == (k / p) * p + k % p,
        0 <= k % p < p,
        0 <= k / p,
{
    vstd::arithmetic::div_mod::lemma_fundamental_div_mod(k, p);
    vstd::arithmetic::mul::lemma_mul_is_commutative(p, k / p);
    vstd::arithmetic::div_mod::lemma_mod_bound(k, p);
    vstd::arithmetic::div_mod::lemma_div_pos_is_pos(k, p);
}

/// A cell inside the grid lies inside the canvas.
proof fn lemma_in_canvas(n: int, x: int, y: int)
    requires
        n >= 1,
        0 <= x < cube_width(n),
        0 <= y < cube_height(n),
    ensures
        0 <= spec_idx2(x, y, cube_pitch(n)) < canvas_len(n),
        spec_idx2(x, y, cube_pitch(n)) % cube_pitch(n) == x,
        spec_idx2(x, y, cube_pitch(n)) / cube_pitch(n) == y,
{
    let p = cube_pitch(n);
    let hgt = cube_height(n);
    assert(y * p <= (hgt - 1) * p) by (nonlinear_arith)
        requires
            y <= hgt - 1,
            p > 0,
    ;
    assert((hgt - 1) * p == hgt * p - p) by (nonlinear_arith);
    assert(0 <= y * p) by (nonlinear_arith)
        requires
            y >= 0,
            p > 0,
    ;
    lemma_cell_of(y * p + x, p, x, y);
}

// ---------------------------------------------------------------------------
// The facts about the squares and strokes that the drawing loops need
// ---------------------------------------------------------------------------

/// Step `i` writes exactly the cells whose character is the `i`-th one.
proof fn lemma_square_step(n: int, sx: int, sy: int, i: int, x: int, y: int)
    requires
        0 <= i < n,
    ensures
        square_step_hits(n, sx, sy, i, x, y) <==> square_index(n, sx, sy, x, y) == Some(i),
{
}

/// The canvas, whose rows are `p` cells apart, after the first `m` steps of
/// drawing a square over `canvas`.
pub open spec fn with_square(
    n: int,
    upper: Seq<char>,
    sx: int,
    sy: int,
    m: int,
    p: int,
    canvas: Seq<char>,
) -> Seq<char> {
    Seq::new(
        canvas.len(),
        |k: int|
            match square_index(n, sx, sy, k % p, k / p) {
                Some(j) => if j < m {
                    upper[j]
                } else {
                    canvas[k]
                },
                None => canvas[k],
            },
    )
}

/// The canvas, whose rows are `p` cells apart, after the first `m` strokes
/// have been drawn over `canvas`.
pub open spec fn with_strokes(n: int, m: int, p: int, canvas: Seq<char>) -> Seq<char> {
    Seq::new(
        canvas.len(),
        |k: int|
            if diagonal_upto(n, m, k % p, k / p) {
                '/'
            } else {
                canvas[k]
            },
    )
}

/// Whether the square of side `n` with top left corner `(sx, sy)` fits a
/// canvas of `len` cells whose rows are `p` cells apart: its right edge lies
/// within a row, and its bottom right corner within the canvas.
pub open spec fn square_fits(n: int, sx: int, sy: int, p: int, len: int) -> bool {
    n > 0 ==> {
        &&& sx + 2 * (n - 1) < p
        &&& (sy + n - 1) * p + sx + 2 * (n - 1) < len
    }
}

/// Whether the strokes joining two squares of side `n` fit a canvas of `len`
/// cells whose rows are `p` cells apart (there are none for `n < 4`).
pub open spec fn strokes_fit(n: int, p: int, len: int) -> bool {
    let h = n / 2;
    h >= 2 ==> {
        &&& 2 * (h - 1) + 2 * n - 2 < p
        &&& (h + n - 2) * p + 2 * (h - 1) + 2 * n - 2 < len
    }
}

/// A cell in the rectangle from `(0, 0)` to `(xmax, ymax)` of a canvas that
/// holds the rectangle's bottom right corner lies inside the canvas.
proof fn lemma_cell_in_bounds(x: int, y: int, xmax: int, ymax: int, p: int, len: int)
    requires
        0 <= x <= xmax < p,
        0 <= y <= ymax,
        ymax * p + xmax < len,
    ensures
        0 <= spec_idx2(x, y, p) < len,
        spec_idx2(x, y, p) % p == x,
        spec_idx2(x, y, p) / p == y,
        y <= y * p,
{
    assert(y * p <= ymax * p) by (nonlinear_arith)
        requires
            y <= ymax,
            p > 0,
    ;
    assert(0 <= y * p && y <= y * p) by (nonlinear_arith)
        requires
            y >= 0,
            p > 0,
    ;
    lemma_cell_of(y * p + x, p, x, y);
}

/// A canvas with nothing drawn on it yet.
pub open spec fn blank_canvas(n: int) -> Seq<char> {
    Seq::new(canvas_len(n) as nat, |k: int| blank_cell(n, k % cube_pitch(n)))
}

/// Both squares and the strokes of the picture fit its canvas.
proof fn lemma_picture_layout_fits(n: int)
    requires
        n >= 0,
    ensures
        square_fits(n, 2 * (n / 2), 0, cube_pitch(n), canvas_len(n)),
        square_fits(n, 0, n / 2, cube_pitch(n), canvas_len(n)),
        strokes_fit(n, cube_pitch(n), canvas_len(n)),
{
    let h = n / 2;
    let p = cube_pitch(n);
    if n > 0 {
        assert(cube_height(n) == n + h);
        assert((n + h) * p == (n - 1) * p + (h + 1) * p) by (nonlinear_arith);
        assert((h + 1) * p >= p) by (nonlinear_arith)
            requires
                h >= 0,
                p > 0,
        ;
        assert((n + h) * p == (h + n - 1) * p + p) by (nonlinear_arith);
        assert((n + h) * p == (h + n - 2) * p + 2 * p) by (nonlinear_arith);
    }
}

/// Drawing the front square, then the back one, then the strokes over a
/// blank canvas gives the picture.
proof fn lemma_layers_make_picture(n: int, upper: Seq<char>, blank: Seq<char>)
    requires
        n >= 0,
        blank == blank_canvas(n),
    ensures
        with_strokes(
            n,
            n / 2,
            cube_pitch(n),
            with_square(
                n,
                upper,
                0,
                n / 2,
                n,
                cube_pitch(n),
                with_square(n, upper, 2 * (n / 2), 0, n, cube_pitch(n), blank),
            ),
        ) == cube_picture(n, upper),
{
    let p = cube_pitch(n);
    let front = with_square(n, upper, 2 * (n / 2), 0, n, p, blank);
    let back = with_square(n, upper, 0, n / 2, n, p, front);
    let all = with_strokes(n, n / 2, p, back);
    assert forall|k: int| 0 <= k < blank.len() implies #[trigger] all[k] == cube_picture(
        n,
        upper,
    )[k] by {
        lemma_split(k, p);
    }
    assert(all =~= cube_picture(n, upper));
}

/// Drawing a square puts the `i`-th character of the word on its top edge
/// `2i` cells right of the corner, on its left edge `i` rows down, on its
/// bottom edge `2i` cells left of the bottom right corner, and on its right
/// edge `i` rows up from that corner.
pub proof fn lemma_square_cells(
    n: int,
    upper: Seq<char>,
    sx: int,
    sy: int,
    p: int,
    canvas: Seq<char>,
    i: int,
)
    requires
        upper.len() == n,
        0 <= i < n,
        0 <= sx,
        0 <= sy,
        square_fits(n, sx, sy, p, canvas.len() as int),
    ensures
        ({
            let drawn = with_square(n, upper, sx, sy, n, p, canvas);
            &&& drawn[spec_idx2(sx + 2 * i, sy, p)] == upper[i]
            &&& drawn[spec_idx2(sx, sy + i, p)] == upper[i]
            &&& drawn[spec_idx2(sx + 2 * (n - 1 - i), sy + n - 1, p)] == upper[i]
            &&& drawn[spec_idx2(sx + 2 * (n - 1), sy + n - 1 - i, p)] == upper[i]
        }),
{
    let xmax = sx + 2 * (n - 1);
    let ymax = sy + n - 1;
    let len = canvas.len() as int;
    lemma_cell_in_bounds(sx + 2 * i, sy, xmax, ymax, p, len);
    lemma_cell_in_bounds(sx, sy + i, xmax, ymax, p, len);
    lemma_cell_in_bounds(sx + 2 * (n - 1 - i), sy + n - 1, xmax, ymax, p, len);
    lemma_cell_in_bounds(sx + 2 * (n - 1), sy + n - 1 - i, xmax, ymax, p, len);
    lemma_square_step(n, sx, sy, i, sx + 2 * i, sy);
    lemma_square_step(n, sx, sy, i, sx, sy + i);
    lemma_square_step(n, sx, sy, i, sx + 2 * (n - 1 - i), sy + n - 1);
    lemma_square_step(n, sx, sy, i, sx + 2 * (n - 1), sy + n - 1 - i);
}

/// Drawing the same square twice changes nothing the second time: every
/// cell of the square gets the same character whichever step writes it.
pub proof fn lemma_square_twice(
    n: int,
    upper: Seq<char>,
    sx: int,
    sy: int,
    p: int,
    canvas: Seq<char>,
)
    ensures
        with_square(n, upper, sx, sy, n, p, with_square(n, upper, sx, sy, n, p, canvas))
            == with_square(n, upper, sx, sy, n, p, canvas),
{
    assert(with_square(n, upper, sx, sy, n, p, with_square(n, upper, sx, sy, n, p, canvas))
        =~= with_square(n, upper, sx, sy, n, p, canvas));
}

/// Drawing the strokes twice changes nothing the second time.
pub proof fn lemma_strokes_twice(n: int, p: int, canvas: Seq<char>)
    ensures
        with_strokes(n, n / 2, p, with_strokes(n, n / 2, p, canvas)) == with_strokes(
            n,
            n / 2,
            p,
            canvas,
        ),
{
    assert(with_strokes(n, n / 2, p, with_strokes(n, n / 2, p, canvas)) =~= with_strokes(
        n,
        n / 2,
        p,
        canvas,
    ));
}

struct CubeDrawer {
    input: String,
    pitch: usize,
    len: usize,
    canvas: Vec<char>,
}

impl CubeDrawer {
    /// Draws the square whose top left corner is `(start_x, start_y)`: the
    /// word runs along its top edge, down its left edge, back along its
    /// bottom edge and up its right edge.
    fn draw2d(&mut self, start_x: usize, start_y: usize)
        requires
            old(self).input@.len() == old(self).len,
            square_fits(
                old(self).len as int,
                start_x as int,
                start_y as int,
                old(self).pitch as int,
                old(self).canvas@.len() as int,
            ),
        ensures
            final(self).input == old(self).input,
            final(self).len == old(self).len,
            final(self).pitch == old(self).pitch,
            final(self).canvas@ == with_square(
                old(self).len as int,
                old(self).input@,
                start_x as int,
                start_y as int,
                old(self).len as int,
                old(self).pitch as int,
                old(self).canvas@,
            ),
    {
        broadcast use vstd::string::group_string_axioms;

        let ghost n = self.len as int;
        let ghost p = self.pitch as int;
        let ghost upper = self.input@;
        let ghost before = self.canvas@;
        let cells = self.canvas.len();
        let mut i: usize = 0;
        for c in it: self.input.chars()
            invariant
                self.canvas@.len() == cells,
                i == it.index(),
                it.seq() == upper,
                upper == self.input@,
                upper.len() == n,
                self.input == old(self).input,
                self.len == old(self).len,
                self.pitch == old(self).pitch,
                n == self.len,
                p == self.pitch,
                before.len() == cells,
                square_fits(n, start_x as int, start_y as int, p, cells as int),
                self.canvas@ == with_square(
                    n,
                    upper,
                    start_x as int,
                    start_y as int,
                    i as int,
                    p,
                    before,
                ),
        {
            assert(c == upper[i as int]);
            assert(0 <= i < n);
            let ghost xmax = start_x + 2 * (n - 1);
            let ghost ymax = start_y + n - 1;
            proof {
                lemma_cell_in_bounds(0, ymax, xmax, ymax, p, cells as int);
            }
            let x1 = i * 2 + start_x;
            let y1 = start_y;
            let x2 = start_x;
            let y2 = i + start_y;
            let x3 = (self.len - 1) * 2 - (i * 2) + start_x;
            let y3 = start_y + self.len - 1;
            let x4 = (self.len - 1) * 2 + start_x;
            let y4 = start_y + self.len - 1 - i;
            proof {
                lemma_cell_in_bounds(x1 as int, y1 as int, xmax, ymax, p, cells as int);
                lemma_cell_in_bounds(x2 as int, y2 as int, xmax, ymax, p, cells as int);
                lemma_cell_in_bounds(x3 as int, y3 as int, xmax, ymax, p, cells as int);
                lemma_cell_in_bounds(x4 as int, y4 as int, xmax, ymax, p, cells as int);
            }
            let k1 = idx2(x1, y1, self.pitch);
            let k2 = idx2(x2, y2, self.pitch);
            let k3 = idx2(x3, y3, self.pitch);
            let k4 = idx2(x4, y4, self.pitch);
            // Top row
            self.canvas[k1] = c;
            // Left column
            self.canvas[k2] = c;
            // Bottom row
            self.canvas[k3] = c;
            // Right column
            self.canvas[k4] = c;
            proof {
                let next = with_square(n, upper, start_x as int, start_y as int, i + 1, p, before);
                assert forall|k: int| 0 <= k < before.len() implies #[trigger] self.canvas@[k]
                    == next[k] by {
                    lemma_split(k, p);
                    let x = k % p;
                    let y = k / p;
                    lemma_square_step(n, start_x as int, start_y as int, i as int, x, y);
                    if k == k1 || k == k2 || k == k3 || k == k4 {
                        assert(square_step_hits(n, start_x as int, start_y as int, i as int, x, y));
                    } else {
                        assert(!square_step_hits(n, start_x as int, start_y as int, i as int, x, y));
                    }
                }
                assert(self.canvas@ =~= next);
            }
            i = i + 1;
        }
    }

    /// Draws the `/` strokes that join the corners of the two squares.
    fn draw_diagonals(&mut self)
        requires
            strokes_fit(old(self).len as int, old(self).pitch as int, old(self).canvas@.len() as int),
        ensures
            final(self).input == old(self).input,
            final(self).len == old(self).len,
            final(self).pitch == old(self).pitch,
            final(self).canvas@ == with_strokes(
                old(self).len as int,
                old(self).len as int / 2,
                old(self).pitch as int,
                old(self).canvas@,
            ),
    {
        let ghost n = self.len as int;
        let ghost p = self.pitch as int;
        let ghost before = self.canvas@;
        let cells = self.canvas.len();
        proof {
            assert forall|k: int| 0 <= k < before.len() implies #[trigger] before[k]
                == with_strokes(n, 1, p, before)[k] by {
                if p > 0 {
                    lemma_split(k, p);
                }
            }
        }
        assert(self.canvas@ =~= with_strokes(n, 1, p, before));
        let mut i: usize = 1;
        while i < self.len / 2
            invariant
                self.canvas@.len() == cells,
                1 <= i,
                i <= n / 2 || i == 1,
                self.input == old(self).input,
                self.len == old(self).len,
                self.pitch == old(self).pitch,
                n == self.len,
                p == self.pitch,
                before.len() == cells,
                strokes_fit(n, p, cells as int),
                self.canvas@ == with_strokes(n, i as int, p, before),
            decreases self.len / 2 - i,
        {
            let ghost xmax = 2 * (n / 2 - 1) + 2 * n - 2;
            let ghost ymax = n / 2 + n - 2;
            proof {
                lemma_cell_in_bounds(0, ymax, xmax, ymax, p, cells as int);
            }
            let h = self.len / 2;
            let xl = (h - i) * 2;
            let xr = (h - i) * 2 + self.len * 2 - 2;
            let yt = i;
            let yb = i + self.len - 1;
            proof {
                lemma_cell_in_bounds(xl as int, yt as int, xmax, ymax, p, cells as int);
                lemma_cell_in_bounds(xl as int, yb as int, xmax, ymax, p, cells as int);
                lemma_cell_in_bounds(xr as int, yt as int, xmax, ymax, p, cells as int);
                lemma_cell_in_bounds(xr as int, yb as int, xmax, ymax, p, cells as int);
            }
            let k1 = idx2(xl, yt, self.pitch);
            let k2 = idx2(xl, yb, self.pitch);
            let k3 = idx2(xr, yt, self.pitch);
            let k4 = idx2(xr, yb, self.pitch);
            self.canvas[k1] = '/';
            self.canvas[k2] = '/';
            self.canvas[k3] = '/';
            self.canvas[k4] = '/';
            proof {
                let next = with_strokes(n, i + 1, p, before);
                assert forall|k: int| 0 <= k < before.len() implies #[trigger] self.canvas@[k]
                    == next[k] by {
                    lemma_split(k, p);
                }
                assert(self.canvas@ =~= next);
            }
            i = i + 1;
        }
        proof {
            if i != n / 2 {
                assert forall|k: int| 0 <= k < before.len() implies #[trigger] self.canvas@[k]
                    == with_strokes(n, n / 2, p, before)[k] by {
                    if p > 0 {
                        lemma_split(k, p);
                    }
                }
            }
        }
        assert(self.canvas@ =~= with_strokes(n, n / 2, p, before));
    }

    /// Draws the cube picture of `input`, in upper case.
    fn draw(input: &str) -> (out: String)
        requires
            input@.len() * 3 < usize::MAX,
            uppercase_of(input@).len() == input@.len(),
        ensures
            out@ == cube_picture(input@.len() as int, uppercase_of(input@)),
    {
        let len = input.unicode_len();
        let ghost n = len as int;
        let mut canvas: Vec<char> = Vec::new();

        let width = len * 3;
        let height = len * 3 / 2;
        let pitch = width + 1;
        assert(canvas@.len() == 0 * pitch);
        for y in 0..height
            invariant
                n == len,
                width == cube_width(n),
                height == cube_height(n),
                pitch == cube_pitch(n),
                canvas@.len() == y * pitch,
                forall|k: int|
                    0 <= k < canvas@.len() ==> #[trigger] canvas@[k] == blank_cell(n, k % pitch as int),
        {
            for x in 0..width
                invariant
                    n == len,
                    width == cube_width(n),
                    height == cube_height(n),
                    pitch == cube_pitch(n),
                    y < height,
                    canvas@.len() == y * pitch + x,
                    forall|k: int|
                        0 <= k < canvas@.len() ==> #[trigger] canvas@[k] == blank_cell(n, k % pitch as int),
            {
                proof {
                    lemma_cell_of(y * pitch + x, pitch as int, x as int, y as int);
                }
                canvas.push(' ');
            }
            proof {
                lemma_cell_of(y * pitch + width, pitch as int, width as int, y as int);
                assert((y + 1) * pitch == y * pitch + pitch) by (nonlinear_arith);
            }
            canvas.push('\n');
        }
        assert(canvas@.len() == height * pitch);
        proof {
            if height > 0 {
                assert(height * pitch >= 1) by (nonlinear_arith)
                    requires
                        height > 0,
                        pitch > 0,
                ;
            } else {
                assert(height * pitch == 0);
            }
        }
        canvas.pop();
        let ghost blank = canvas@;
        assert(blank =~= blank_canvas(n));

        let mut cube_drawer = CubeDrawer { input: to_uppercase(input), pitch, len, canvas };
        let ghost upper = cube_drawer.input@;
        proof {
            lemma_picture_layout_fits(n);
        }

        cube_drawer.draw2d(if len % 2 == 0 { len } else { len - 1 }, 0);
        cube_drawer.draw2d(0, len / 2);
        cube_drawer.draw_diagonals();

        proof {
            lemma_layers_make_picture(n, upper, blank);
        }

        let mut output = String::new();
        for i in 0..cube_drawer.canvas.len()
            invariant
                output@ == cube_drawer.canvas@.subrange(0, i as int),
        {
            push_char(&mut output, cube_drawer.canvas[i]);
            assert(output@ =~= cube_drawer.canvas@.subrange(0, i + 1));
        }
        assert(output@ =~= cube_drawer.canvas@);
        output
    }
}

/// Whether `draw` can picture a word with the characters `s`: its upper-case
/// form has as many characters as it has (upper-casing `ß` gives `SS`, and
/// the longer word no longer fits the cube), and the picture's width fits a
/// `usize`.
pub open spec fn drawable(s: Seq<char>) -> bool {
    &&& s.len() * 3 < usize::MAX
    &&& uppercase_of(s).len() == s.len()
}

/// Draws `input`, in upper case, as the wire frame of a cube.
pub fn draw(input: &str) -> (out: String)
    requires
        drawable(input@),
    ensures
        out@ == cube_picture(input@.len() as int, uppercase_of(input@)),
{
    CubeDrawer::draw(input)
}

/// Draws `input` as `draw` does where it can be drawn, and gives `None` where
/// it cannot.
pub fn try_draw(input: &str) -> (out: Option<String>)
    ensures
        out is Some <==> drawable(input@),
        out matches Some(s) ==> s@ == cube_picture(input@.len() as int, uppercase_of(input@)),
{
    let len = input.unicode_len();
    if len > (usize::MAX - 1) / 3 {
        return None;
    }
    let upper = to_uppercase(input);
    if upper.as_str().unicode_len() != len {
        return None;
    }
    Some(draw(input))
}

// ---------------------------------------------------------------------------
// Laws
// ---------------------------------------------------------------------------

/// The picture is made of `cube_height(n)` lines of `cube_width(n)` cells:
/// where the word holds no newline, the picture has one exactly at the end of
/// each line but the last.
pub proof fn lemma_picture_lines(n: int, upper: Seq<char>, k: int)
    requires
        n >= 0,
        upper.len() == n,
        forall|i: int| 0 <= i < n ==> upper[i] != '\n',
        0 <= k < canvas_len(n),
    ensures
        cube_picture(n, upper).len() == canvas_len(n),
        cube_picture(n, upper)[k] == '\n' <==> k % cube_pitch(n) == cube_width(n),
{
    lemma_split(k, cube_pitch(n));
    let x = k % cube_pitch(n);
    let y = k / cube_pitch(n);
    let h = n / 2;
    if let Some(j) = square_index(n, 0, h, x, y) {
        assert(0 <= j < n);
    }
    if let Some(j) = square_index(n, 2 * h, 0, x, y) {
        assert(0 <= j < n);
    }
}

/// The word reads from left to right along the top edge of the front
/// square, one character every two cells, in the first line.
pub proof fn lemma_word_on_top_edge(n: int, upper: Seq<char>, i: int)
    requires
        upper.len() == n,
        0 <= i < n,
    ensures
        cube_picture(n, upper)[spec_idx2(2 * (n / 2) + 2 * i, 0, cube_pitch(n))] == upper[i],
{
    lemma_in_canvas(n, 2 * (n / 2) + 2 * i, 0);
}

/// Every cell of the picture is a character of the word, a space, a `/` or a
/// newline.
pub proof fn lemma_picture_alphabet(n: int, upper: Seq<char>, k: int)
    requires
        n >= 0,
        upper.len() == n,
        0 <= k < canvas_len(n),
    ensures
        ({
            let c = cube_picture(n, upper)[k];
            c == ' ' || c == '/' || c == '\n' || upper.contains(c)
        }),
{
    lemma_split(k, cube_pitch(n));
    let x = k % cube_pitch(n);
    let y = k / cube_pitch(n);
    let h = n / 2;
    if let Some(j) = square_index(n, 0, h, x, y) {
        assert(0 <= j < n);
    }
    if let Some(j) = square_index(n, 2 * h, 0, x, y) {
        assert(0 <= j < n);
    }
}

/// The `/` strokes join the corners of the two squares: for
/// `1 <= i < n / 2`, stroke `i` of the top left corner lies `i` rows down
/// and `2i` cells left of the front square's corner (at column
/// `2 * (n / 2 - i)`), and the strokes of the other three corners are the
/// same shifted `2n - 2` cells right, `n - 1` rows down, or both.
pub proof fn lemma_strokes_join_corners(n: int, upper: Seq<char>, i: int)
    requires
        upper.len() == n,
        1 <= i < n / 2,
    ensures
        ({
            let picture = cube_picture(n, upper);
            let p = 3 * n + 1;
            let x = 2 * (n / 2 - i);
            &&& picture[i * p + x] == '/'
            &&& picture[i * p + x + 2 * n - 2] == '/'
            &&& picture[(i + n - 1) * p + x] == '/'
            &&& picture[(i + n - 1) * p + x + 2 * n - 2] == '/'
        }),
{
    let x = 2 * (n / 2 - i);
    lemma_in_canvas(n, x, i);
    lemma_in_canvas(n, x + 2 * n - 2, i);
    lemma_in_canvas(n, x, i + n - 1);
    lemma_in_canvas(n, x + 2 * n - 2, i + n - 1);
}

} // verus!
