use vstd::prelude::*;
use vstd::arithmetic::div_mod::lemma_fundamental_div_mod_converse;

use crate::layers::{deep, is_whitespace, layer_rows, pad_rows, padded_cell, rows_of_layer, white_space, widest};
use crate::palette::Palette;

verus! {

/// Which characters of a layer stand for a block.
pub struct SolidRule {
    /// Every character but white space is a block.
    pub any_non_whitespace_is_solid: bool,
    /// Characters that are blocks even without a palette entry.
    pub solid_chars: Vec<char>,
}

/// The shape a character places: a full cube, or the bottom (`'_'`) or top
/// (`'-'`) half of its cell.
#[derive(Clone, Copy, Debug, PartialEq, Eq, Structural)]
pub enum Shape {
    Cube,
    BottomSlab,
    TopSlab,
}

/// A block to place: the layer, row and column of its character in a layer
/// grid of `rows` by `cols` cells, the character and its shape.
#[derive(Clone, Copy, Debug, PartialEq, Eq, Structural)]
pub struct Placement {
    pub layer: usize,
    pub row: usize,
    pub col: usize,
    pub rows: usize,
    pub cols: usize,
    pub ch: char,
    pub shape: Shape,
}

pub open spec fn spec_shape_of(ch: char) -> Shape {
    if ch == '_' {
        Shape::BottomSlab
    } else if ch == '-' {
        Shape::TopSlab
    } else {
        Shape::Cube
    }
}

/// Whether `ch` stands for a block: under `any_non_whitespace_is_solid` every
/// character but white space does; otherwise the listed solid characters,
/// those of the palette and the two slab characters do.
pub open spec fn solid<T>(rule: &SolidRule, palette: &Palette<T>, ch: char) -> bool {
    if rule.any_non_whitespace_is_solid {
        !white_space(ch)
    } else {
        rule.solid_chars@.contains(ch) || palette.has(ch) || ch == '_' || ch == '-'
    }
}

/// The placements of the first `n` cells, in row-major order, of a layer
/// whose rows are padded to `cols` columns.
pub open spec fn plan_cells<T>(
    layer: int,
    rows: Seq<Seq<char>>,
    cols: int,
    rule: &SolidRule,
    palette: &Palette<T>,
    n: int,
) -> Seq<Placement>
    decreases n,
{
    if n <= 0 || cols <= 0 {
        seq![]
    } else {
        let k = n - 1;
        let ch = padded_cell(rows, k / cols, k % cols);
        let before = plan_cells(layer, rows, cols, rule, palette, k);
        if solid(rule, palette, ch) {
            before.push(
                Placement {
                    layer: layer as usize,
                    row: (k / cols) as usize,
                    col: (k % cols) as usize,
                    rows: rows.len() as usize,
                    cols: cols as usize,
                    ch,
                    shape: spec_shape_of(ch),
                },
            )
        } else {
            before
        }
    }
}

/// The placements of a layer text, row by row and column by column.
pub open spec fn layer_plan<T>(layer: int, text: Seq<char>, rule: &SolidRule, palette: &Palette<T>) -> Seq<
    Placement,
> {
    let rows = layer_rows(text);
    let cols = widest(rows);
    plan_cells(layer, rows, cols as int, rule, palette, (rows.len() * cols) as int)
}

/// The placements of the first `n` layers, layer `k` being `texts[k]`.
pub open spec fn scene_plan<T>(texts: Seq<String>, rule: &SolidRule, palette: &Palette<T>, n: int) -> Seq<
    Placement,
>
    decreases n,
{
    if n <= 0 {
        seq![]
    } else {
        scene_plan(texts, rule, palette, n - 1) + layer_plan(n - 1, texts[n - 1]@, rule, palette)
    }
}

impl SolidRule {
    /// The rule of a palette-driven scene: `'X'` and the two slab characters
    /// are solid besides the palette's own characters.
    pub fn palette_driven() -> (r: SolidRule)
        ensures
            !r.any_non_whitespace_is_solid,
            r.solid_chars@ == seq!['X', '_', '-'],
    {
        SolidRule { any_non_whitespace_is_solid: false, solid_chars: vec!['X', '_', '-'] }
    }
}

pub fn shape_of(ch: char) -> (r: Shape)
    ensures
        r == spec_shape_of(ch),
{
    if ch == '_' {
        Shape::BottomSlab
    } else if ch == '-' {
        Shape::TopSlab
    } else {
        Shape::Cube
    }
}

/// Whether `ch` stands for a block under `rule` and `palette`.
pub fn is_solid<T>(rule: &SolidRule, palette: &Palette<T>, ch: char) -> (r: bool)
    ensures
        r == solid(rule, palette, ch),
{
    if rule.any_non_whitespace_is_solid {
        !is_whitespace(ch)
    } else {
        let mut listed = false;
        let mut k: usize = 0;
        while k < rule.solid_chars.len()
            invariant
                k <= rule.solid_chars@.len(),
                listed <==> exists|q: int| 0 <= q < k && rule.solid_chars@[q] == ch,
            decreases rule.solid_chars@.len() - k,
        {
            if rule.solid_chars[k] == ch {
                listed = true;
            }
            k = k + 1;
        }
        listed || palette.contains(ch) || ch == '_' || ch == '-'
    }
}

/// The blocks of one layer: every solid cell of its padded rows, in row-major
/// order, numbered `layer`.
pub fn layer_placements<T>(layer: usize, text: &str, rule: &SolidRule, palette: &Palette<T>) -> (r: Vec<
    Placement,
>)
    ensures
        r@ == layer_plan(layer as int, text@, rule, palette),
{
    let rows = rows_of_layer(text);
    let (cols, grid) = pad_rows(&rows);
    let ghost rs = deep(rows@);
    let n_rows = rows.len();
    let mut out: Vec<Placement> = Vec::new();
    if cols == 0 {
        return out;
    }
    let mut r: usize = 0;
    while r < n_rows
        invariant
            n_rows == rs.len(),
            rs == layer_rows(text@),
            cols == widest(rs),
            cols >= 1,
            grid@.len() == n_rows,
            forall|q: int|
                0 <= q < n_rows ==> (#[trigger] grid@[q])@ == Seq::new(
                    cols as nat,
                    |c: int| padded_cell(rs, q, c),
                ),
            r <= n_rows,
            out@ == plan_cells(layer as int, rs, cols as int, rule, palette, r * cols),
        decreases n_rows - r,
    {
        let line = &grid[r];
        assert(line@ == Seq::new(cols as nat, |c: int| padded_cell(rs, r as int, c)));
        let mut c: usize = 0;
        while c < cols
            invariant
                n_rows == rs.len(),
                r < n_rows,
                cols >= 1,
                c <= cols,
                line@ == Seq::new(cols as nat, |cc: int| padded_cell(rs, r as int, cc)),
                out@ == plan_cells(layer as int, rs, cols as int, rule, palette, r * cols + c),
            decreases cols - c,
        {
            let ch = line[c];
            proof {
                lemma_fundamental_div_mod_converse(r * cols + c, cols as int, r as int, c as int);
            }
            if is_solid(rule, palette, ch) {
                out.push(
                    Placement {
                        layer,
                        row: r,
                        col: c,
                        rows: n_rows,
                        cols,
                        ch,
                        shape: shape_of(ch),
                    },
                );
            }
            c = c + 1;
        }
        proof {
            assert((r + 1) * cols == r * cols + cols) by (nonlinear_arith);
        }
        r = r + 1;
    }
    out
}

/// The blocks of a whole scene: the layers in the order given, layer `k`
/// being `layers[k]` (an empty layer keeps its number).
pub fn scene_placements<T>(layers: &Vec<String>, rule: &SolidRule, palette: &Palette<T>) -> (r: Vec<
    Placement,
>)
    ensures
        r@ == scene_plan(layers@, rule, palette, layers@.len() as int),
{
    let mut out: Vec<Placement> = Vec::new();
    let n = layers.len();
    let mut k: usize = 0;
    while k < n
        invariant
            n == layers@.len(),
            k <= n,
            out@ == scene_plan(layers@, rule, palette, k as int),
        decreases n - k,
    {
        let mut layer = layer_placements(k, layers[k].as_str(), rule, palette);
        let ghost prev = out@;
        out.append(&mut layer);
        assert(out@ =~= prev + layer_plan(k as int, layers@[k as int]@, rule, palette));
        k = k + 1;
    }
    out
}

} // verus!
