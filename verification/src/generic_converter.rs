//! The character grid renderer: drives the token parser over every line of
//! an ASCII-art block, renders one cell bitmap per token (each distinct token
//! only once, through a memoization map), and assembles the validated grid.

use vstd::prelude::*;

use std::collections::HashMap;
use std::rc::Rc;

use crate::error::{ImageError, ImgiiError, ParseError, ParseImageError};
use crate::image_data::{ImageData, ImageView};
use crate::options::ImgiiOptions;
use crate::render_char_to_png::{
    is_blank_image, str_to_png, str_to_transparent_png, ColoredStr,
};
use crate::token_parser::{
    chars_of, err_matches_bad_channel, err_matches_truncated, find_from, lemma_find_from,
    lemma_find_from_is, parse_line, spec_parse_line, LineParse,
};

verus! {

/// The views of a sequence of vectors.
pub open spec fn views_of<T>(vs: Seq<Vec<T>>) -> Seq<Seq<T>> {
    Seq::new(vs.len(), |i: int| vs[i]@)
}

/// A line with its trailing carriage return removed, as `str::lines` strips
/// it.
pub open spec fn strip_cr(l: Seq<char>) -> Seq<char> {
    if l.len() > 0 && l.last() == '\r' {
        l.drop_last()
    } else {
        l
    }
}

/// The lines of a text: split at every line feed, each line stripped of a
/// trailing carriage return, with no empty line after a final line feed.
pub open spec fn spec_lines(s: Seq<char>) -> Seq<Seq<char>>
    decreases s.len() via spec_lines_decreases
{
    if s.len() == 0 {
        seq![]
    } else {
        let e = find_from(s, 0, '\n');
        if e >= s.len() {
            seq![strip_cr(s)]
        } else {
            seq![strip_cr(s.subrange(0, e))] + spec_lines(s.subrange(e + 1, s.len() as int))
        }
    }
}

#[via_fn]
proof fn spec_lines_decreases(s: Seq<char>) {
    if s.len() > 0 {
        lemma_find_from(s, 0, '\n');
    }
}

/// Copies the characters `chars[a..b]` into a fresh vector.
fn copy_range(chars: &Vec<char>, a: usize, b: usize) -> (r: Vec<char>)
    requires
        a <= b <= chars@.len(),
    ensures
        r@ == chars@.subrange(a as int, b as int),
{
    let mut v: Vec<char> = Vec::new();
    let mut k = a;
    while k < b
        invariant
            a <= k <= b,
            b <= chars@.len(),
            v@ == chars@.subrange(a as int, k as int),
        decreases b - k,
    {
        v.push(chars[k]);
        proof {
            assert(chars@.subrange(a as int, k as int).push(chars@[k as int]) =~= chars@.subrange(
                a as int,
                k as int + 1,
            ));
        }
        k = k + 1;
    }
    v
}

/// Finds the first position at or after `from` where `c` stands, or the
/// text's length when it does not occur there.
fn find_char_from(chars: &Vec<char>, from: usize, c: char) -> (r: usize)
    requires
        from <= chars@.len(),
    ensures
        r == find_from(chars@, from as int, c),
{
    let n = chars.len();
    let mut k = from;
    while k < n
        invariant
            from <= k <= n,
            n == chars@.len(),
            forall|t: int| from <= t < k ==> chars@[t] != c,
        decreases n - k,
    {
        if chars[k] == c {
            proof {
                lemma_find_from_is(chars@, from as int, c, k as int);
            }
            return k;
        }
        k = k + 1;
    }
    proof {
        lemma_find_from_is(chars@, from as int, c, n as int);
    }
    n
}

/// Cuts one line out of the text: `chars[p..e]`, with a trailing carriage
/// return stripped.
fn cut_line(chars: &Vec<char>, p: usize, e: usize) -> (r: Vec<char>)
    requires
        p <= e <= chars@.len(),
    ensures
        r@ == strip_cr(chars@.subrange(p as int, e as int)),
{
    let ghost full = chars@.subrange(p as int, e as int);
    if e > p && chars[e - 1] == '\r' {
        let r = copy_range(chars, p, e - 1);
        proof {
            assert(full.last() == chars@[e as int - 1]);
            assert(r@ =~= full.drop_last());
        }
        r
    } else {
        let r = copy_range(chars, p, e);
        proof {
            if full.len() > 0 {
                assert(full.last() == chars@[e as int - 1]);
            }
        }
        r
    }
}

/// Splits a text into its lines, as [`spec_lines`] describes them.
fn split_lines(chars: &Vec<char>) -> (r: Vec<Vec<char>>)
    ensures
        views_of(r@) == spec_lines(chars@),
{
    let ghost s = chars@;
    let n = chars.len();
    let mut r: Vec<Vec<char>> = Vec::new();
    let mut p: usize = 0;
    let mut done = false;
    proof {
        assert(s.subrange(0, n as int) =~= s);
        assert(views_of(r@) =~= Seq::<Seq<char>>::empty());
        assert(Seq::<Seq<char>>::empty() + spec_lines(s) =~= spec_lines(s));
    }
    while !done
        invariant
            p <= n,
            n == s.len(),
            s == chars@,
            done ==> p == n,
            spec_lines(s) == views_of(r@) + spec_lines(s.subrange(p as int, n as int)),
        decreases n - p + (if done { 0int } else { 1int }),
    {
        if p == n {
            done = true;
        } else {
            let ghost suffix = s.subrange(p as int, n as int);
            let e = find_char_from(chars, p, '\n');
            proof {
                lemma_find_from(s, p as int, '\n');
                // The first line feed of the suffix stands at `e - p`.
                assert forall|t: int| 0 <= t < e - p implies suffix[t] != '\n' by {
                    assert(suffix[t] == s[p + t]);
                }
                if e < n {
                    assert(suffix[e - p] == s[e as int]);
                }
                lemma_find_from_is(suffix, 0, '\n', e - p as int);
            }
            let ghost pre = r@;
            if e == n {
                let line = cut_line(chars, p, n);
                proof {
                    assert(s.subrange(p as int, n as int) =~= suffix);
                    assert(spec_lines(suffix) == seq![strip_cr(suffix)]);
                }
                r.push(line);
                proof {
                    assert(views_of(r@) =~= views_of(pre).push(strip_cr(suffix)));
                    assert(views_of(pre) + spec_lines(suffix) =~= views_of(r@) + spec_lines(
                        s.subrange(n as int, n as int),
                    ));
                }
                p = n;
            } else {
                let line = cut_line(chars, p, e);
                proof {
                    assert(suffix.subrange(0, e - p as int) =~= s.subrange(p as int, e as int));
                    assert(suffix.subrange(e - p as int + 1, suffix.len() as int) =~= s.subrange(
                        e as int + 1,
                        n as int,
                    ));
                    assert(spec_lines(suffix) == seq![strip_cr(s.subrange(p as int, e as int))]
                        + spec_lines(s.subrange(e as int + 1, n as int)));
                }
                r.push(line);
                proof {
                    assert(views_of(r@) =~= views_of(pre).push(
                        strip_cr(s.subrange(p as int, e as int)),
                    ));
                    assert(views_of(pre) + spec_lines(suffix) =~= views_of(r@) + spec_lines(
                        s.subrange(e as int + 1, n as int),
                    ));
                }
                p = e + 1;
            }
        }
    }
    proof {
        assert(spec_lines(s.subrange(p as int, n as int)).len() == 0) by {
            assert(s.subrange(p as int, n as int) =~= Seq::<char>::empty());
        }
        assert(views_of(r@) + spec_lines(s.subrange(p as int, n as int)) =~= views_of(r@));
    }
    r
}

/// What parsing a whole block of lines yields: the token grid, or the first
/// failure, row by row.
pub ghost enum BlockParse {
    /// Every line parsed and every row has `width` tokens.
    Grid { rows: Seq<Seq<ColoredStr>>, width: nat },
    /// The line at `row` failed to parse.
    ParseFail { row: int, fail: LineParse },
    /// The line at `row` parsed to `got` tokens where `expected` were owed.
    WidthFail { row: int, expected: nat, got: nat },
}

/// Parses the lines from row `i` on, each row owing exactly `width` tokens.
pub open spec fn spec_rows_from(lines: Seq<Seq<char>>, i: int, width: nat) -> BlockParse
    decreases lines.len() - i when 0 <= i <= lines.len()
{
    if i >= lines.len() {
        BlockParse::Grid { rows: seq![], width }
    } else {
        match spec_parse_line(lines[i]) {
            LineParse::Tokens { tokens } => {
                if tokens.len() != width {
                    BlockParse::WidthFail { row: i, expected: width, got: tokens.len() }
                } else {
                    match spec_rows_from(lines, i + 1, width) {
                        BlockParse::Grid { rows, width: w } => BlockParse::Grid {
                            rows: seq![tokens] + rows,
                            width,
                        },
                        other => other,
                    }
                }
            },
            fail => BlockParse::ParseFail { row: i, fail },
        }
    }
}

/// What a whole ASCII-art block parses to: the first line of its text
/// establishes the width that every later line owes.
pub open spec fn spec_parse_block(s: Seq<char>) -> BlockParse {
    let lines = spec_lines(s);
    if lines.len() == 0 {
        BlockParse::Grid { rows: seq![], width: 0 }
    } else {
        match spec_parse_line(lines[0]) {
            LineParse::Tokens { tokens } => spec_rows_from(lines, 0, tokens.len()),
            fail => BlockParse::ParseFail { row: 0, fail },
        }
    }
}

/// Rows already parsed from the top of the block, put back before the
/// outcome of the rest.
pub open spec fn prepend_rows(pre: Seq<Seq<ColoredStr>>, rest: BlockParse) -> BlockParse {
    match rest {
        BlockParse::Grid { rows, width } => BlockParse::Grid { rows: pre + rows, width },
        other => other,
    }
}

proof fn lemma_prepend_rows_assoc(pre: Seq<Seq<ColoredStr>>, row: Seq<ColoredStr>, rest: BlockParse)
    ensures
        prepend_rows(pre, prepend_rows(seq![row], rest)) == prepend_rows(pre.push(row), rest),
{
    match rest {
        BlockParse::Grid { rows, width } => {
            assert(pre + (seq![row] + rows) =~= pre.push(row) + rows);
        },
        _ => {},
    }
}

/// A grid of cell bitmaps: `width * height` cells in row-major order, each
/// possibly shared with other equal cells.
#[derive(Debug, Clone)]
pub struct Imgii2dImage {
    /// The cells, row by row; equal tokens share one bitmap.
    pub image_2d: Vec<Rc<ImageData>>,
    /// Cells per row.
    pub width: usize,
    /// Number of rows.
    pub height: usize,
}

/// The view of the cell at `(row, col)` in a flat row-major cell sequence.
pub open spec fn seq_cell(cells: Seq<Rc<ImageData>>, width: int, row: int, col: int) -> ImageView {
    cells[row * width + col]@
}

impl Imgii2dImage {
    /// The view of the cell at `(row, col)`.
    pub open spec fn cell(self, row: int, col: int) -> ImageView {
        seq_cell(self.image_2d@, self.width as int, row, col)
    }

    /// Clones the grid; the cells stay shared, never deep-copied.
    pub fn clone_grid(&self) -> (r: Self)
        ensures
            r.width == self.width,
            r.height == self.height,
            r.image_2d@ == self.image_2d@,
    {
        let n = self.image_2d.len();
        let mut cells: Vec<Rc<ImageData>> = Vec::new();
        let mut k: usize = 0;
        while k < n
            invariant
                k <= n,
                n == self.image_2d@.len(),
                cells@.len() == k,
                forall|t: int| 0 <= t < k ==> #[trigger] cells@[t] == self.image_2d@[t],
            decreases n - k,
        {
            cells.push(rc_clone(&self.image_2d[k]));
            k = k + 1;
        }
        proof {
            assert(cells@ =~= self.image_2d@);
        }
        Self { image_2d: cells, width: self.width, height: self.height }
    }

    /// The grid is rectangular and its cells all have the same well-formed
    /// dimensions.
    pub open spec fn wf(&self) -> bool {
        &&& self.image_2d@.len() == self.width * self.height
        &&& forall|k: int|
            0 <= k < self.image_2d@.len() ==> (#[trigger] self.image_2d@[k]@).wf()
        &&& forall|k: int|
            0 <= k < self.image_2d@.len() ==> (#[trigger] self.image_2d@[k]@).width
                == self.image_2d@[0]@.width
        &&& forall|k: int|
            0 <= k < self.image_2d@.len() ==> (#[trigger] self.image_2d@[k]@).height
                == self.image_2d@[0]@.height
    }
}

/// The dimensions every rendered cell of a run has.
pub open spec fn cell_shape(v: ImageView, font_size: u32) -> bool {
    &&& v.wf()
    &&& v.width == font_size / 2
    &&& v.height == font_size
}

/// What the bitmap of one grid position owes its token: the blank cell for a
/// white-space token, else a cell-sized glyph bitmap.
pub open spec fn cell_matches_token(
    cell: ImageView,
    tok: ColoredStr,
    font_size: u32,
    background: bool,
) -> bool {
    if tok.spec_is_blank() {
        is_blank_image(cell, (font_size / 2) as nat, font_size as nat, background)
    } else {
        cell_shape(cell, font_size)
    }
}

/// What a returned grid owes the parsed token rows: the layout, each cell's
/// shape (blank cells exactly), and one shared bitmap per repeated token.
pub open spec fn grid_matches_rows(
    g: Imgii2dImage,
    rows: Seq<Seq<ColoredStr>>,
    width: nat,
    font_size: u32,
    background: bool,
) -> bool {
    &&& g.width == width
    &&& g.height == rows.len()
    &&& g.image_2d@.len() == rows.len() * width
    &&& forall|row: int, col: int|
        0 <= row < rows.len() && 0 <= col < width ==> cell_matches_token(
            #[trigger] g.cell(row, col),
            rows[row][col],
            font_size,
            background,
        )
    &&& forall|r1: int, c1: int, r2: int, c2: int|
        #![trigger g.cell(r1, c1), g.cell(r2, c2)]
        0 <= r1 < rows.len() && 0 <= c1 < width && 0 <= r2 < rows.len() && 0 <= c2 < width
            && rows[r1][c1] == rows[r2][c2] ==> g.cell(r1, c1) == g.cell(r2, c2)
}

/// The error owed for a line that failed to parse.
pub open spec fn parse_error_matches(e: ParseError, fail: LineParse) -> bool {
    match fail {
        LineParse::BadChannel { channel, text } => err_matches_bad_channel(e, channel, text),
        LineParse::Truncated { column } => err_matches_truncated(e, column),
        LineParse::Tokens { .. } => false,
    }
}

/// What [`render_ascii_generic`] owes for each outcome of
/// [`spec_parse_block`].
pub open spec fn render_result_matches(
    r: Result<Imgii2dImage, ImgiiError>,
    outcome: BlockParse,
    font_size: u32,
    background: bool,
) -> bool {
    match outcome {
        BlockParse::Grid { rows, width } => r is Ok && grid_matches_rows(
            r->Ok_0,
            rows,
            width,
            font_size,
            background,
        ),
        BlockParse::ParseFail { row, fail } => {
            &&& r is Err
            &&& r->Err_0 matches ImgiiError::Parse(pe)
            &&& parse_error_matches(pe, fail)
        },
        BlockParse::WidthFail { row, expected, got } => {
            &&& r is Err
            &&& r->Err_0 matches ImgiiError::Image(ie)
            &&& ie matches ImageError::ParseImage(w)
            &&& w.image_row_number == row
            &&& w.expected_width == expected
            &&& w.got_width == got
        },
    }
}

/// The memoization key of a token: its character and channels packed into
/// one integer.
pub open spec fn token_key(t: ColoredStr) -> u64 {
    ((t.text as u64) * 0x1000000 + (t.red as u64) * 0x10000 + (t.green as u64) * 0x100 + (
    t.blue as u64)) as u64
}

/// Computes the memoization key of a token.
fn token_key_exec(t: &ColoredStr) -> (r: u64)
    ensures
        r == token_key(*t),
{
    (t.text as u64) * 0x1000000 + (t.red as u64) * 0x10000 + (t.green as u64) * 0x100 + (
    t.blue as u64)
}

/// Relies on `Rc::clone`: the returned handle is the same shared bitmap.
#[verifier::external_body]
fn rc_clone(rc: &Rc<ImageData>) -> (r: Rc<ImageData>)
    ensures
        r == *rc,
{
    Rc::clone(rc)
}

/// Every bitmap the memoization map holds is a well-formed cell.
pub open spec fn map_shape_ok(m: Map<u64, Rc<ImageData>>, font_size: u32) -> bool {
    forall|k: u64| m.contains_key(k) ==> cell_shape((#[trigger] m[k])@, font_size)
}

/// What one placed cell owes: the blank bitmap for a white-space token, else
/// the bitmap the memoization map holds for its token.
pub open spec fn placed_cell_ok(
    cells: Seq<Rc<ImageData>>,
    rows: Seq<Seq<ColoredStr>>,
    width: int,
    m: Map<u64, Rc<ImageData>>,
    blank: ImageView,
    row: int,
    col: int,
) -> bool {
    let tok = rows[row][col];
    if tok.spec_is_blank() {
        seq_cell(cells, width, row, col) == blank
    } else {
        &&& m.contains_key(token_key(tok))
        &&& seq_cell(cells, width, row, col) == m[token_key(tok)]@
    }
}

/// Every cell placed before `(ri, ci)` in row-major order is in order.
pub open spec fn placed_upto(
    cells: Seq<Rc<ImageData>>,
    rows: Seq<Seq<ColoredStr>>,
    width: int,
    m: Map<u64, Rc<ImageData>>,
    blank: ImageView,
    ri: int,
    ci: int,
) -> bool {
    forall|r2: int, c2: int|
        0 <= r2 && 0 <= c2 < width && (r2 < ri || (r2 == ri && c2 < ci))
            ==> #[trigger] placed_cell_ok(cells, rows, width, m, blank, r2, c2)
}

/// An earlier row-major position has a smaller flat index.
proof fn lemma_flat_index_lt(r2: int, c2: int, ri: int, ci: int, w: int)
    requires
        0 <= c2 < w,
        0 <= r2,
        0 <= ci,
        r2 < ri || (r2 == ri && c2 < ci),
    ensures
        0 <= r2 * w + c2,
        r2 * w + c2 < ri * w + ci,
{
    assert(0 <= r2 * w + c2 && r2 * w + c2 < ri * w + ci) by (nonlinear_arith)
        requires
            0 <= c2 < w,
            0 <= r2,
            0 <= ci,
            r2 < ri || (r2 == ri && c2 < ci),
    ;
}

proof fn lemma_rows_from_shape(lines: Seq<Seq<char>>, i: int, width: nat)
    requires
        0 <= i <= lines.len(),
    ensures
        spec_rows_from(lines, i, width) matches BlockParse::Grid { rows, width: w } ==> {
            &&& w == width
            &&& rows.len() == lines.len() - i
            &&& forall|j: int| 0 <= j < rows.len() ==> (#[trigger] rows[j]).len() == width
            &&& forall|j: int|
                0 <= j < rows.len() ==> spec_parse_line(lines[i + j]) == (LineParse::Tokens {
                    tokens: #[trigger] rows[j],
                })
        },
    decreases lines.len() - i,
{
    if i < lines.len() {
        lemma_rows_from_shape(lines, i + 1, width);
        match spec_parse_line(lines[i]) {
            LineParse::Tokens { tokens } => {
                if tokens.len() == width {
                    match spec_rows_from(lines, i + 1, width) {
                        BlockParse::Grid { rows: rest, width: _ } => {
                            let rows = seq![tokens] + rest;
                            assert forall|j: int|
                                0 <= j < rows.len() implies spec_parse_line(lines[i + j]) == (
                            LineParse::Tokens { tokens: #[trigger] rows[j] }) by {
                                if j > 0 {
                                    assert(rows[j] == rest[j - 1]);
                                }
                            }
                        },
                        _ => {},
                    }
                }
            },
            _ => {},
        }
    }
}

/// Law: row-width invariant. In a block that parses, there is one token row
/// per line of the text, each row is exactly what its own line parses to,
/// and every row holds exactly as many tokens as the first line
/// established; a block with a deviating line does not parse to a grid at
/// all, but to a width failure naming the row and both widths.
pub proof fn lemma_row_width_invariant(s: Seq<char>)
    ensures
        spec_parse_block(s) matches BlockParse::Grid { rows, width } ==> {
            &&& rows.len() == spec_lines(s).len()
            &&& forall|i: int| 0 <= i < rows.len() ==> (#[trigger] rows[i]).len() == width
            &&& forall|i: int|
                0 <= i < rows.len() ==> spec_parse_line(spec_lines(s)[i]) == (LineParse::Tokens {
                    tokens: #[trigger] rows[i],
                })
        },
{
    let lines = spec_lines(s);
    if lines.len() > 0 {
        match spec_parse_line(lines[0]) {
            LineParse::Tokens { tokens } => {
                lemma_rows_from_shape(lines, 0, tokens.len());
            },
            _ => {},
        }
    }
}

/// A grid that matches its parsed token rows is well-formed, so it can be
/// composited.
pub proof fn lemma_grid_matches_implies_wf(
    g: Imgii2dImage,
    rows: Seq<Seq<ColoredStr>>,
    width: nat,
    font_size: u32,
    background: bool,
)
    requires
        grid_matches_rows(g, rows, width, font_size, background),
    ensures
        g.wf(),
{
    assert(g.image_2d@.len() == g.width * g.height) by (nonlinear_arith)
        requires
            g.image_2d@.len() == rows.len() * width,
            g.width == width,
            g.height == rows.len(),
    ;
    if g.image_2d@.len() > 0 {
        assert(width > 0 && rows.len() > 0) by (nonlinear_arith)
            requires
                rows.len() * width > 0,
        ;
        assert forall|k: int| 0 <= k < g.image_2d@.len() implies cell_shape(
            (#[trigger] g.image_2d@[k])@,
            font_size,
        ) by {
            let w = g.width as int;
            let row = k / w;
            let col = k % w;
            vstd::arithmetic::div_mod::lemma_fundamental_div_mod(k, w);
            vstd::arithmetic::div_mod::lemma_mod_bound(k, w);
            assert(row < rows.len()) by (nonlinear_arith)
                requires
                    k < rows.len() * w,
                    k == w * row + col,
                    0 <= col < w,
                    w > 0,
            ;
            assert(0 <= row) by (nonlinear_arith)
                requires
                    0 <= k,
                    k == w * row + col,
                    0 <= col < w,
                    w > 0,
            ;
            assert(row * w + col == k) by (nonlinear_arith)
                requires
                    k == w * row + col,
            ;
            assert(cell_matches_token(g.cell(row, col), rows[row][col], font_size, background));
            if rows[row][col].spec_is_blank() {
                assert(is_blank_image(
                    g.cell(row, col),
                    (font_size / 2) as nat,
                    font_size as nat,
                    background,
                ));
            }
        }
        assert(cell_shape(g.image_2d@[0]@, font_size));
    }
}

/// Parses every line of `ascii_text` into tokens — the first line fixes the
/// width that every row owes — and renders the grid. The blank cell is
/// computed once and shared by every white-space token, and each distinct
/// colored token is rasterized once and shared among all its repeats, so
/// cells whose tokens are equal hold the identical bitmap.
pub fn render_ascii_generic(
    imgii_options: &ImgiiOptions,
    ascii_text: &str,
    font: &ab_glyph::FontRef<'_>,
) -> (r: Result<Imgii2dImage, ImgiiError>)
    requires
        imgii_options.wf(),
    ensures
        render_result_matches(
            r,
            spec_parse_block(ascii_text@),
            imgii_options.font_size,
            imgii_options.background,
        ),
{
    broadcast use vstd::std_specs::hash::group_hash_axioms;

    let ghost s = ascii_text@;
    let chars = chars_of(ascii_text);
    let lines = split_lines(&chars);
    let ghost linesv = views_of(lines@);
    let nlines = lines.len();
    if nlines == 0 {
        let g = Imgii2dImage { image_2d: Vec::new(), width: 0, height: 0 };
        proof {
            assert(g.image_2d@.len() == 0);
        }
        return Ok(g);
    }
    let first = match parse_line(&lines[0]) {
        Ok(t) => t,
        Err(e) => {
            proof {
                assert(linesv[0] == lines@[0]@);
            }
            return Err(ImgiiError::Parse(e));
        },
    };
    let width = first.len();
    let mut rows_tokens: Vec<Vec<ColoredStr>> = Vec::new();
    proof {
        assert(linesv[0] == lines@[0]@);
        assert(spec_parse_block(s) == spec_rows_from(linesv, 0, width as nat));
        assert(spec_rows_from(linesv, 0, width as nat) == prepend_rows(
            seq![first@],
            spec_rows_from(linesv, 1, width as nat),
        ));
    }
    let ghost first_view = first@;
    rows_tokens.push(first);
    proof {
        assert(views_of(rows_tokens@) =~= seq![first_view]);
    }
    let mut li: usize = 1;
    while li < nlines
        invariant
            1 <= li <= nlines,
            nlines == lines@.len(),
            linesv == views_of(lines@),
            s == ascii_text@,
            width == first_view.len(),
            rows_tokens@.len() == li,
            forall|k: int| 0 <= k < li ==> (#[trigger] rows_tokens@[k])@.len() == width,
            spec_parse_block(s) == prepend_rows(
                views_of(rows_tokens@),
                spec_rows_from(linesv, li as int, width as nat),
            ),
        decreases nlines - li,
    {
        let toks = match parse_line(&lines[li]) {
            Ok(t) => t,
            Err(e) => {
                proof {
                    assert(linesv[li as int] == lines@[li as int]@);
                    assert(spec_rows_from(linesv, li as int, width as nat)
                        == BlockParse::ParseFail {
                        row: li as int,
                        fail: spec_parse_line(linesv[li as int]),
                    });
                }
                return Err(ImgiiError::Parse(e));
            },
        };
        if toks.len() != width {
            proof {
                assert(linesv[li as int] == lines@[li as int]@);
                assert(spec_rows_from(linesv, li as int, width as nat) == BlockParse::WidthFail {
                    row: li as int,
                    expected: width as nat,
                    got: toks@.len(),
                });
            }
            return Err(
                ImgiiError::Image(
                    ImageError::ParseImage(ParseImageError::new(li, width, toks.len())),
                ),
            );
        }
        let ghost pre_rows = rows_tokens@;
        proof {
            assert(linesv[li as int] == lines@[li as int]@);
            assert(spec_rows_from(linesv, li as int, width as nat) == prepend_rows(
                seq![toks@],
                spec_rows_from(linesv, li as int + 1, width as nat),
            ));
            lemma_prepend_rows_assoc(
                views_of(pre_rows),
                toks@,
                spec_rows_from(linesv, li as int + 1, width as nat),
            );
        }
        rows_tokens.push(toks);
        proof {
            assert(views_of(rows_tokens@) =~= views_of(pre_rows).push(rows_tokens@.last()@));
        }
        li = li + 1;
    }
    let ghost rows = views_of(rows_tokens@);
    proof {
        assert(spec_rows_from(linesv, nlines as int, width as nat) == (BlockParse::Grid {
            rows: seq![],
            width: width as nat,
        }));
        assert(rows + Seq::<Seq<ColoredStr>>::empty() =~= rows);
        assert(spec_parse_block(s) == (BlockParse::Grid { rows, width: width as nat }));
    }
    let ghost fs = imgii_options.font_size;
    let ghost bg = imgii_options.background;
    let blank = Rc::new(str_to_transparent_png(imgii_options));
    let mut rendered: HashMap<u64, Rc<ImageData>> = HashMap::new();
    let mut cells: Vec<Rc<ImageData>> = Vec::new();
    let mut ri: usize = 0;
    while ri < nlines
        invariant
            ri <= nlines,
            nlines == rows_tokens@.len(),
            rows == views_of(rows_tokens@),
            forall|k: int| 0 <= k < nlines ==> (#[trigger] rows_tokens@[k])@.len() == width,
            cells@.len() == ri * width,
            imgii_options.wf(),
            fs == imgii_options.font_size,
            bg == imgii_options.background,
            is_blank_image(blank@, (fs / 2) as nat, fs as nat, bg),
            map_shape_ok(rendered@, fs),
            placed_upto(cells@, rows, width as int, rendered@, blank@, ri as int, 0),
        decreases nlines - ri,
    {
        let row = &rows_tokens[ri];
        let mut ci: usize = 0;
        while ci < width
            invariant
                ci <= width,
                ri < nlines,
                nlines == rows_tokens@.len(),
                rows == views_of(rows_tokens@),
                forall|k: int| 0 <= k < nlines ==> (#[trigger] rows_tokens@[k])@.len() == width,
                row@ == rows_tokens@[ri as int]@,
                cells@.len() == ri * width + ci,
                imgii_options.wf(),
                fs == imgii_options.font_size,
                bg == imgii_options.background,
                is_blank_image(blank@, (fs / 2) as nat, fs as nat, bg),
                map_shape_ok(rendered@, fs),
                placed_upto(cells@, rows, width as int, rendered@, blank@, ri as int, ci as int),
            decreases width - ci,
        {
            let tok = row[ci];
            proof {
                assert(rows[ri as int] == rows_tokens@[ri as int]@);
                assert(rows[ri as int][ci as int] == tok);
            }
            let ghost pre_cells = cells@;
            let ghost pre_map = rendered@;
            if tok.is_blank() {
                cells.push(rc_clone(&blank));
            } else {
                let key = token_key_exec(&tok);
                let cached: Option<Rc<ImageData>> = match rendered.get(&key) {
                    Some(rc) => Some(rc_clone(rc)),
                    None => None,
                };
                match cached {
                    Some(rc) => {
                        proof {
                            assert(pre_map.contains_key(key) && pre_map[key] == rc);
                        }
                        cells.push(rc);
                    },
                    None => {
                        proof {
                            assert(!pre_map.contains_key(key));
                        }
                        let img = str_to_png(&tok, font, imgii_options);
                        let rc = Rc::new(img);
                        let rc2 = rc_clone(&rc);
                        rendered.insert(key, rc);
                        cells.push(rc2);
                        proof {
                            assert(rendered@ == pre_map.insert(key, rendered@[key]));
                            assert(map_shape_ok(rendered@, fs)) by {
                                assert forall|k: u64| rendered@.contains_key(k) implies cell_shape(
                                    (#[trigger] rendered@[k])@,
                                    fs,
                                ) by {
                                    if k != key {
                                        assert(pre_map.contains_key(k) && rendered@[k]
                                            == pre_map[k]);
                                    }
                                }
                            }
                        }
                    },
                }
            }
            proof {
                let w = width as int;
                let m = rendered@;
                assert(placed_upto(cells@, rows, w, m, blank@, ri as int, ci as int + 1)) by {
                    assert forall|r2: int, c2: int|
                        0 <= r2 && 0 <= c2 < w && (r2 < ri as int || (r2 == ri as int && c2 < ci
                            as int + 1)) implies #[trigger] placed_cell_ok(
                        cells@,
                        rows,
                        w,
                        m,
                        blank@,
                        r2,
                        c2,
                    ) by {
                        if r2 == ri as int && c2 == ci as int {
                            assert(cells@[r2 * w + c2] == cells@.last());
                            if !tok.spec_is_blank() {
                                assert(m.contains_key(token_key(tok)));
                                assert(cells@.last()@ == m[token_key(tok)]@);
                            }
                        } else {
                            assert(placed_cell_ok(pre_cells, rows, w, pre_map, blank@, r2, c2));
                            lemma_flat_index_lt(r2, c2, ri as int, ci as int, w);
                            assert(cells@[r2 * w + c2] == pre_cells[r2 * w + c2]);
                            let t2 = rows[r2][c2];
                            if !t2.spec_is_blank() {
                                assert(pre_map.contains_key(token_key(t2)));
                                assert(m.contains_key(token_key(t2)) && m[token_key(t2)]
                                    == pre_map[token_key(t2)]);
                            }
                        }
                    }
                }
            }
            ci = ci + 1;
        }
        proof {
            assert(ri * width + width == (ri + 1) * width) by (nonlinear_arith);
        }
        ri = ri + 1;
    }
    let g = Imgii2dImage { image_2d: cells, width, height: nlines };
    proof {
        let w = width as int;
        let m = rendered@;
        assert(rows.len() == nlines);
        assert(g.image_2d@.len() == rows.len() * width);
        assert forall|row: int, col: int|
            0 <= row < rows.len() && 0 <= col < width implies cell_matches_token(
            #[trigger] g.cell(row, col),
            rows[row][col],
            fs,
            bg,
        ) by {
            assert(placed_cell_ok(g.image_2d@, rows, w, m, blank@, row, col));
            let t = rows[row][col];
            if !t.spec_is_blank() {
                assert(cell_shape(m[token_key(t)]@, fs));
            }
        }
        assert forall|r1: int, c1: int, r2: int, c2: int|
            #![trigger g.cell(r1, c1), g.cell(r2, c2)]
            0 <= r1 < rows.len() && 0 <= c1 < width && 0 <= r2 < rows.len() && 0 <= c2 < width
                && rows[r1][c1] == rows[r2][c2] implies g.cell(r1, c1) == g.cell(r2, c2) by {
            assert(placed_cell_ok(g.image_2d@, rows, w, m, blank@, r1, c1));
            assert(placed_cell_ok(g.image_2d@, rows, w, m, blank@, r2, c2));
        }
    }
    Ok(g)
}

} // verus!

