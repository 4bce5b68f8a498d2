use vstd::prelude::*;
use vstd::arithmetic::div_mod::lemma_fundamental_div_mod_converse;

use crate::face::Face;

verus! {

/// The cells an object's bounding box touches on each axis, as inclusive
/// index ranges `lo[a] ..= hi[a]`. The bounds are the raw floor values and may
/// lie outside the grid: the grid clamps them to its own extent.
#[derive(Clone, Copy, Debug)]
pub struct CellRange {
    pub lo: [i32; 3],
    pub hi: [i32; 3],
}

impl CellRange {
    /// Whether the cell `(x, y, z)` lies inside this range.
    pub open spec fn covers(self, x: int, y: int, z: int) -> bool {
        &&& self.lo@[0] <= x <= self.hi@[0]
        &&& self.lo@[1] <= y <= self.hi@[1]
        &&& self.lo@[2] <= z <= self.hi@[2]
    }
}

/// Flat position of the cell `(x, y, z)` in a grid `nx` cells wide and `ny`
/// cells deep: `(z * ny + y) * nx + x`.
pub open spec fn flat_index(nx: int, ny: int, x: int, y: int, z: int) -> int {
    (z * ny + y) * nx + x
}

/// The indices, in increasing order, of those among the first `n` ranges
/// that cover the cell `(x, y, z)`.
pub open spec fn members(ranges: Seq<CellRange>, n: int, x: int, y: int, z: int) -> Seq<usize>
    decreases n,
{
    if n <= 0 {
        seq![]
    } else {
        let before = members(ranges, n - 1, x, y, z);
        if ranges[n - 1].covers(x, y, z) {
            before.push((n - 1) as usize)
        } else {
            before
        }
    }
}

pub proof fn lemma_flat_index(nx: int, ny: int, nz: int, x: int, y: int, z: int)
    requires
        0 <= x < nx,
        0 <= y < ny,
        0 <= z < nz,
    ensures
        0 <= flat_index(nx, ny, x, y, z) < nx * ny * nz,
        flat_index(nx, ny, x, y, z) % nx == x,
        flat_index(nx, ny, x, y, z) / nx == z * ny + y,
        (z * ny + y) % ny == y,
        (z * ny + y) / ny == z,
{
    assert(0 <= z * ny) by (nonlinear_arith)
        requires
            0 <= z,
            0 < ny,
    ;
    assert(z * ny + y < nz * ny) by (nonlinear_arith)
        requires
            0 <= y < ny,
            0 <= z < nz,
    ;
    assert(0 <= (z * ny + y) * nx) by (nonlinear_arith)
        requires
            0 <= z * ny + y,
            0 < nx,
    ;
    assert((z * ny + y) * nx + x < nx * ny * nz) by (nonlinear_arith)
        requires
            0 <= x < nx,
            0 <= z * ny + y < nz * ny,
    ;
    lemma_fundamental_div_mod_converse(flat_index(nx, ny, x, y, z), nx, z * ny + y, x);
    lemma_fundamental_div_mod_converse(z * ny + y, ny, z, y);
}

/// Distinct cells of a grid have distinct flat positions.
pub proof fn lemma_flat_index_injective(
    nx: int,
    ny: int,
    nz: int,
    x: int,
    y: int,
    z: int,
    x2: int,
    y2: int,
    z2: int,
)
    requires
        0 <= x < nx,
        0 <= y < ny,
        0 <= z < nz,
        0 <= x2 < nx,
        0 <= y2 < ny,
        0 <= z2 < nz,
        flat_index(nx, ny, x, y, z) == flat_index(nx, ny, x2, y2, z2),
    ensures
        x == x2 && y == y2 && z == z2,
{
    lemma_flat_index(nx, ny, nz, x, y, z);
    lemma_flat_index(nx, ny, nz, x2, y2, z2);
}

/// Executable form of `flat_index` for a cell inside the grid.
fn flat_at(nx: usize, ny: usize, nz: usize, x: usize, y: usize, z: usize) -> (r: usize)
    requires
        x < nx,
        y < ny,
        z < nz,
        nx * ny * nz <= usize::MAX,
    ensures
        r == flat_index(nx as int, ny as int, x as int, y as int, z as int),
        r < nx * ny * nz,
{
    proof {
        lemma_flat_index(nx as int, ny as int, nz as int, x as int, y as int, z as int);
        assert(0 <= z * ny <= z * ny + y <= (z * ny + y) * nx) by (nonlinear_arith)
            requires
                nx >= 1,
                y >= 0,
                z >= 0,
                ny >= 1,
        ;
    }
    (z * ny + y) * nx + x
}

/// The list held at the flat position of `(x, y, z)`.
pub open spec fn cell_of(cells: Seq<Vec<usize>>, nx: int, ny: int, x: int, y: int, z: int) -> Seq<usize> {
    cells[flat_index(nx, ny, x, y, z)]@
}

/// Whether `(x, y, z)` is a cell of a grid of the given size.
pub open spec fn inside(nx: int, ny: int, nz: int, x: int, y: int, z: int) -> bool {
    0 <= x < nx && 0 <= y < ny && 0 <= z < nz
}

/// Appends `obj` to the cells `(x, y, z)` with `x0 <= x <= x1`.
fn push_row(
    cells: &mut Vec<Vec<usize>>,
    nx: usize,
    ny: usize,
    nz: usize,
    obj: usize,
    y: usize,
    z: usize,
    x0: usize,
    x1: usize,
)
    requires
        old(cells)@.len() == nx * ny * nz,
        y < ny,
        z < nz,
        x0 <= x1 < nx,
    ensures
        final(cells)@.len() == old(cells)@.len(),
        forall|a: int, b: int, c: int|
            inside(nx as int, ny as int, nz as int, a, b, c) ==> #[trigger] cell_of(final(cells)@, nx as int, ny as int, a, b, c) == if b == y && c == z && x0 <= a <= x1 {
                cell_of(old(cells)@, nx as int, ny as int, a, b, c).push(obj)
            } else {
                cell_of(old(cells)@, nx as int, ny as int, a, b, c)
            },
{
    let ghost before = cells@;
    let len = cells.len();
    let mut x = x0;
    while x <= x1
        invariant
            cells@.len() == before.len(),
            before.len() == nx * ny * nz,
            len == before.len(),
            y < ny,
            z < nz,
            x1 < nx,
            x0 <= x,
            x <= x1 + 1,
            forall|a: int, b: int, c: int|
                inside(nx as int, ny as int, nz as int, a, b, c) ==> #[trigger] cell_of(cells@, nx as int, ny as int, a, b, c) == if b == y && c == z && x0 <= a < x {
                    cell_of(before, nx as int, ny as int, a, b, c).push(obj)
                } else {
                    cell_of(before, nx as int, ny as int, a, b, c)
                },
        decreases x1 + 1 - x,
    {
        let k = flat_at(nx, ny, nz, x, y, z);
        let ghost mid = cells@;
        cells[k].push(obj);
        proof {
            assert forall|a: int, b: int, c: int|
                inside(nx as int, ny as int, nz as int, a, b, c) implies #[trigger] cell_of(cells@, nx as int, ny as int, a, b, c) == if b == y && c == z && x0 <= a < x + 1 {
                    cell_of(before, nx as int, ny as int, a, b, c).push(obj)
                } else {
                    cell_of(before, nx as int, ny as int, a, b, c)
                } by {
                lemma_flat_index(nx as int, ny as int, nz as int, a, b, c);
                if flat_index(nx as int, ny as int, a, b, c) == k {
                    lemma_flat_index_injective(nx as int, ny as int, nz as int, a, b, c, x as int, y as int, z as int);
                    assert(cell_of(cells@, nx as int, ny as int, a, b, c) == cell_of(mid, nx as int, ny as int, a, b, c).push(obj));
                } else {
                    assert(cell_of(cells@, nx as int, ny as int, a, b, c) == cell_of(mid, nx as int, ny as int, a, b, c));
                }
            }
        }
        x = x + 1;
    }
}

/// Appends `obj` to the cells `(x, y, z)` with `y0 <= y <= y1` and `x0 <= x <= x1`.
fn push_slab(
    cells: &mut Vec<Vec<usize>>,
    nx: usize,
    ny: usize,
    nz: usize,
    obj: usize,
    z: usize,
    x0: usize,
    x1: usize,
    y0: usize,
    y1: usize,
)
    requires
        old(cells)@.len() == nx * ny * nz,
        z < nz,
        x0 <= x1 < nx,
        y0 <= y1 < ny,
    ensures
        final(cells)@.len() == old(cells)@.len(),
        forall|a: int, b: int, c: int|
            inside(nx as int, ny as int, nz as int, a, b, c) ==> #[trigger] cell_of(final(cells)@, nx as int, ny as int, a, b, c) == if c == z && y0 <= b <= y1 && x0 <= a
                <= x1 {
                cell_of(old(cells)@, nx as int, ny as int, a, b, c).push(obj)
            } else {
                cell_of(old(cells)@, nx as int, ny as int, a, b, c)
            },
{
    let ghost before = cells@;
    let mut y = y0;
    while y <= y1
        invariant
            cells@.len() == before.len(),
            before.len() == nx * ny * nz,
            z < nz,
            x0 <= x1 < nx,
            y1 < ny,
            y0 <= y,
            y <= y1 + 1,
            forall|a: int, b: int, c: int|
                inside(nx as int, ny as int, nz as int, a, b, c) ==> #[trigger] cell_of(cells@, nx as int, ny as int, a, b, c) == if c == z && y0 <= b < y && x0 <= a <= x1 {
                    cell_of(before, nx as int, ny as int, a, b, c).push(obj)
                } else {
                    cell_of(before, nx as int, ny as int, a, b, c)
                },
        decreases y1 + 1 - y,
    {
        push_row(cells, nx, ny, nz, obj, y, z, x0, x1);
        y = y + 1;
    }
}

/// Appends `obj` to every cell of the box `x0..=x1`, `y0..=y1`, `z0..=z1`.
fn push_box(
    cells: &mut Vec<Vec<usize>>,
    nx: usize,
    ny: usize,
    nz: usize,
    obj: usize,
    x0: usize,
    x1: usize,
    y0: usize,
    y1: usize,
    z0: usize,
    z1: usize,
)
    requires
        old(cells)@.len() == nx * ny * nz,
        x0 <= x1 < nx,
        y0 <= y1 < ny,
        z0 <= z1 < nz,
    ensures
        final(cells)@.len() == old(cells)@.len(),
        forall|a: int, b: int, c: int|
            inside(nx as int, ny as int, nz as int, a, b, c) ==> #[trigger] cell_of(final(cells)@, nx as int, ny as int, a, b, c) == if z0 <= c <= z1 && y0 <= b <= y1
                && x0 <= a <= x1 {
                cell_of(old(cells)@, nx as int, ny as int, a, b, c).push(obj)
            } else {
                cell_of(old(cells)@, nx as int, ny as int, a, b, c)
            },
{
    let ghost before = cells@;
    let mut z = z0;
    while z <= z1
        invariant
            cells@.len() == before.len(),
            before.len() == nx * ny * nz,
            x0 <= x1 < nx,
            y0 <= y1 < ny,
            z1 < nz,
            z0 <= z,
            z <= z1 + 1,
            forall|a: int, b: int, c: int|
                inside(nx as int, ny as int, nz as int, a, b, c) ==> #[trigger] cell_of(cells@, nx as int, ny as int, a, b, c) == if z0 <= c < z && y0 <= b <= y1 && x0 <= a <= x1 {
                    cell_of(before, nx as int, ny as int, a, b, c).push(obj)
                } else {
                    cell_of(before, nx as int, ny as int, a, b, c)
                },
        decreases z1 + 1 - z,
    {
        push_slab(cells, nx, ny, nz, obj, z, x0, x1, y0, y1);
        z = z + 1;
    }
}

/// Cell lists of a uniform grid: for each of its `nx * ny * nz` cells, the
/// indices of the objects whose bounding box overlaps that cell.
pub struct CellGrid {
    nx: usize,
    ny: usize,
    nz: usize,
    cells: Vec<Vec<usize>>,
}

impl CellGrid {
    pub closed spec fn dims(&self) -> (nat, nat, nat) {
        (self.nx as nat, self.ny as nat, self.nz as nat)
    }

    pub open spec fn in_bounds(&self, x: int, y: int, z: int) -> bool {
        &&& 0 <= x < self.dims().0
        &&& 0 <= y < self.dims().1
        &&& 0 <= z < self.dims().2
    }

    pub closed spec fn wf(&self) -> bool {
        &&& self.nx >= 1
        &&& self.ny >= 1
        &&& self.nz >= 1
        &&& self.cells@.len() == self.nx * self.ny * self.nz
    }

    /// The object indices listed in the cell `(x, y, z)`.
    pub closed spec fn cell(&self, x: int, y: int, z: int) -> Seq<usize> {
        self.cells@[flat_index(self.nx as int, self.ny as int, x, y, z)]@
    }

    /// Builds the cell lists of a grid of `dims` cells (x, y, z): object `i`
    /// is listed in every cell of the grid that `ranges[i]` covers, and each
    /// cell lists its objects in increasing order.
    pub fn build(dims: [i32; 3], ranges: &Vec<CellRange>) -> (r: CellGrid)
        requires
            dims@[0] >= 1,
            dims@[1] >= 1,
            dims@[2] >= 1,
            dims@[0] * dims@[1] * dims@[2] <= usize::MAX,
        ensures
            r.wf(),
            r.dims() == (dims@[0] as nat, dims@[1] as nat, dims@[2] as nat),
            forall|x: int, y: int, z: int|
                r.in_bounds(x, y, z) ==> #[trigger] r.cell(x, y, z) == members(
                    ranges@,
                    ranges@.len() as int,
                    x,
                    y,
                    z,
                ),
    {
        let nx = dims[0] as usize;
        let ny = dims[1] as usize;
        let nz = dims[2] as usize;
        proof {
            assert(nx * ny <= nx * ny * nz) by (nonlinear_arith)
                requires
                    nx >= 1,
                    ny >= 1,
                    nz >= 1,
            ;
        }
        let total = nx * ny * nz;
        let mut cells: Vec<Vec<usize>> = Vec::new();
        while cells.len() < total
            invariant
                cells@.len() <= total,
                forall|j: int| 0 <= j < cells@.len() ==> (#[trigger] cells@[j])@ == Seq::<usize>::empty(),
            decreases total - cells@.len(),
        {
            cells.push(Vec::new());
        }
        let n = ranges.len();
        let mut i: usize = 0;
        proof {
            assert forall|a: int, b: int, c: int|
                inside(nx as int, ny as int, nz as int, a, b, c) implies #[trigger] cell_of(
                    cells@,
                    nx as int,
                    ny as int,
                    a,
                    b,
                    c,
                ) == members(ranges@, 0, a, b, c) by {
                lemma_flat_index(nx as int, ny as int, nz as int, a, b, c);
            }
        }
        while i < n
            invariant
                n == ranges@.len(),
                i <= n,
                nx == dims@[0],
                ny == dims@[1],
                nz == dims@[2],
                nx >= 1,
                ny >= 1,
                nz >= 1,
                cells@.len() == nx * ny * nz,
                forall|a: int, b: int, c: int|
                    inside(nx as int, ny as int, nz as int, a, b, c) ==> #[trigger] cell_of(
                        cells@,
                        nx as int,
                        ny as int,
                        a,
                        b,
                        c,
                    ) == members(ranges@, i as int, a, b, c),
            decreases n - i,
        {
            let range = ranges[i];
            let x0 = if range.lo[0] > 0 { range.lo[0] } else { 0 };
            let y0 = if range.lo[1] > 0 { range.lo[1] } else { 0 };
            let z0 = if range.lo[2] > 0 { range.lo[2] } else { 0 };
            let x1 = if range.hi[0] < dims[0] - 1 { range.hi[0] } else { dims[0] - 1 };
            let y1 = if range.hi[1] < dims[1] - 1 { range.hi[1] } else { dims[1] - 1 };
            let z1 = if range.hi[2] < dims[2] - 1 { range.hi[2] } else { dims[2] - 1 };
            let ghost before = cells@;
            if x0 <= x1 && y0 <= y1 && z0 <= z1 {
                push_box(
                    &mut cells,
                    nx,
                    ny,
                    nz,
                    i,
                    x0 as usize,
                    x1 as usize,
                    y0 as usize,
                    y1 as usize,
                    z0 as usize,
                    z1 as usize,
                );
            }
            proof {
                assert forall|a: int, b: int, c: int|
                    inside(nx as int, ny as int, nz as int, a, b, c) implies #[trigger] cell_of(
                        cells@,
                        nx as int,
                        ny as int,
                        a,
                        b,
                        c,
                    ) == members(ranges@, i + 1, a, b, c) by {
                    assert(cell_of(before, nx as int, ny as int, a, b, c) == members(ranges@, i as int, a, b, c));
                }
            }
            i = i + 1;
        }
        let r = CellGrid { nx, ny, nz, cells };
        proof {
            assert forall|x: int, y: int, z: int| r.in_bounds(x, y, z) implies #[trigger] r.cell(
                x,
                y,
                z,
            ) == members(ranges@, ranges@.len() as int, x, y, z) by {
                assert(cell_of(r.cells@, nx as int, ny as int, x, y, z) == members(ranges@, n as int, x, y, z));
            }
        }
        r
    }

    pub open spec fn dim(&self, axis: int) -> nat {
        if axis == 0 {
            self.dims().0
        } else if axis == 1 {
            self.dims().1
        } else {
            self.dims().2
        }
    }

    /// The cell a walk starts in: each raw floor index clamped to `0 ..= n - 1`.
    pub fn clamp_cell(&self, raw: [i32; 3]) -> (r: [usize; 3])
        requires
            self.wf(),
        ensures
            forall|a: int|
                0 <= a < 3 ==> #[trigger] r@[a] == if raw@[a] < 0 {
                    0
                } else if raw@[a] >= self.dim(a) {
                    self.dim(a) - 1
                } else {
                    raw@[a] as int
                },
            self.in_bounds(r@[0] as int, r@[1] as int, r@[2] as int),
    {
        let n = [self.nx, self.ny, self.nz];
        let mut r: [usize; 3] = [0, 0, 0];
        let mut a: usize = 0;
        while a < 3
            invariant
                a <= 3,
                n@ == seq![self.nx, self.ny, self.nz],
                self.wf(),
                forall|b: int|
                    0 <= b < a ==> #[trigger] r@[b] == if raw@[b] < 0 {
                        0
                    } else if raw@[b] >= self.dim(b) {
                        self.dim(b) - 1
                    } else {
                        raw@[b] as int
                    },
            decreases 3 - a,
        {
            let v = raw[a];
            let c: usize = if v < 0 {
                0
            } else if v as usize >= n[a] {
                n[a] - 1
            } else {
                v as usize
            };
            r[a] = c;
            a = a + 1;
        }
        r
    }

    /// One step of a grid walk: moves `cell` by `step` along `axis`, or
    /// returns `None` when that leaves the grid.
    pub fn step_cell(&self, cell: [usize; 3], axis: usize, step: i32) -> (r: Option<[usize; 3]>)
        requires
            self.wf(),
            self.in_bounds(cell@[0] as int, cell@[1] as int, cell@[2] as int),
            axis < 3,
            -1 <= step <= 1,
        ensures
            r.is_some() <==> 0 <= cell@[axis as int] + step < self.dim(axis as int),
            r.is_some() ==> {
                let c = r.unwrap();
                &&& c@[axis as int] == cell@[axis as int] + step
                &&& forall|b: int| 0 <= b < 3 && b != axis ==> #[trigger] c@[b] == cell@[b]
                &&& self.in_bounds(c@[0] as int, c@[1] as int, c@[2] as int)
            },
    {
        let n = [self.nx, self.ny, self.nz];
        let cur = cell[axis];
        if step < 0 {
            if cur == 0 {
                return None;
            }
            let mut c = cell;
            c[axis] = cur - 1;
            Some(c)
        } else if step > 0 {
            if cur + 1 >= n[axis] {
                return None;
            }
            let mut c = cell;
            c[axis] = cur + 1;
            Some(c)
        } else {
            Some(cell)
        }
    }

    pub fn nx(&self) -> (r: usize)
        ensures
            r == self.dims().0,
    {
        self.nx
    }

    pub fn ny(&self) -> (r: usize)
        ensures
            r == self.dims().1,
    {
        self.ny
    }

    pub fn nz(&self) -> (r: usize)
        ensures
            r == self.dims().2,
    {
        self.nz
    }

    /// Flat position of the cell `(ix, iy, iz)`: `(iz * ny + iy) * nx + ix`.
    pub fn cell_index(&self, ix: usize, iy: usize, iz: usize) -> (r: usize)
        requires
            self.wf(),
            self.in_bounds(ix as int, iy as int, iz as int),
        ensures
            r == flat_index(self.dims().0 as int, self.dims().1 as int, ix as int, iy as int, iz as int),
            r < self.dims().0 * self.dims().1 * self.dims().2,
    {
        let total = self.cells.len();
        flat_at(self.nx, self.ny, self.nz, ix, iy, iz)
    }

    /// The objects listed in the cell `(ix, iy, iz)`.
    pub fn objects_in(&self, ix: usize, iy: usize, iz: usize) -> (r: &Vec<usize>)
        requires
            self.wf(),
            self.in_bounds(ix as int, iy as int, iz as int),
        ensures
            r@ == self.cell(ix as int, iy as int, iz as int),
    {
        let k = self.cell_index(ix, iy, iz);
        &self.cells[k]
    }
}

/// The cell next to `cell` across `face`: one step along the face's outward
/// normal.
pub fn neighbor_cell(cell: [i32; 3], face: Face) -> (r: [i64; 3])
    ensures
        forall|a: int| 0 <= a < 3 ==> #[trigger] r@[a] == cell@[a] + face.spec_normal()[a],
{
    let n = face.normal();
    [
        cell[0] as i64 + n[0] as i64,
        cell[1] as i64 + n[1] as i64,
        cell[2] as i64 + n[2] as i64,
    ]
}

} // verus!
