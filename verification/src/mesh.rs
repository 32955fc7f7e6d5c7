//! The regular triangle grid a canopy panel is subdivided into.
//!
//! A panel with `n` subdivisions has grid vertices `(i, j)` with `i + j <= n`
//! and `n * n` congruent triangles.
use vstd::prelude::*;

verus! {

/// A vertex of a panel's grid: `i` steps towards the second corner, `j`
/// towards the third.
#[derive(Clone, Copy, Debug, PartialEq, Eq, Structural)]
pub struct GridVert {
    pub i: usize,
    pub j: usize,
}

/// A triangle of a panel's grid.
#[derive(Clone, Copy, Debug, PartialEq, Eq, Structural)]
pub struct GridTri {
    pub a: GridVert,
    pub b: GridVert,
    pub c: GridVert,
}

impl GridVert {
    pub open spec fn within(self, n: nat) -> bool {
        self.i + self.j <= n
    }
}

impl GridTri {
    pub open spec fn within(self, n: nat) -> bool {
        self.a.within(n) && self.b.within(n) && self.c.within(n)
    }
}

/// The vertices with first coordinate `i`.
pub open spec fn vert_row(n: nat, i: int) -> Seq<GridVert> {
    Seq::new((n - i + 1) as nat, |j: int| GridVert { i: i as usize, j: j as usize })
}

/// The vertices whose first coordinate is below `rows`, in ascending order.
pub open spec fn verts_below(n: nat, rows: nat) -> Seq<GridVert>
    decreases rows,
{
    if rows == 0 {
        Seq::empty()
    } else {
        verts_below(n, (rows - 1) as nat) + vert_row(n, rows - 1)
    }
}

/// The vertices of a panel with `n` subdivisions, in ascending order.
pub open spec fn grid_verts(n: nat) -> Seq<GridVert> {
    verts_below(n, n + 1)
}

/// How many vertices have a first coordinate below `i`.
pub open spec fn row_start(n: nat, i: nat) -> nat
    decreases i,
{
    if i == 0 {
        0
    } else {
        row_start(n, (i - 1) as nat) + (n - (i - 1) + 1) as nat
    }
}

/// The place of a vertex in the list.
pub open spec fn vert_index(n: nat, v: GridVert) -> nat {
    row_start(n, v.i as nat) + v.j as nat
}

/// The upward triangle at `(i, j)`.
pub open spec fn up_tri(i: int, j: int) -> GridTri {
    GridTri {
        a: GridVert { i: i as usize, j: j as usize },
        b: GridVert { i: (i + 1) as usize, j: j as usize },
        c: GridVert { i: i as usize, j: (j + 1) as usize },
    }
}

/// The downward triangle at `(i, j)`.
pub open spec fn down_tri(i: int, j: int) -> GridTri {
    GridTri {
        a: GridVert { i: (i + 1) as usize, j: j as usize },
        b: GridVert { i: (i + 1) as usize, j: (j + 1) as usize },
        c: GridVert { i: i as usize, j: (j + 1) as usize },
    }
}

/// The upward triangles of the rows below `rows`: row `j` has `n - j`.
pub open spec fn ups_below(n: nat, rows: nat) -> Seq<GridTri>
    decreases rows,
{
    if rows == 0 {
        Seq::empty()
    } else {
        ups_below(n, (rows - 1) as nat) + Seq::new(
            (n - (rows - 1)) as nat,
            |i: int| up_tri(i, rows - 1),
        )
    }
}

/// The downward triangles of the rows below `rows`: row `j` has `n - 1 - j`.
pub open spec fn downs_below(n: nat, rows: nat) -> Seq<GridTri>
    decreases rows,
{
    if rows == 0 {
        Seq::empty()
    } else {
        downs_below(n, (rows - 1) as nat) + Seq::new(
            (n - 1 - (rows - 1)) as nat,
            |i: int| down_tri(i, rows - 1),
        )
    }
}

/// All triangles of a panel with `n` subdivisions: the upward ones row by row,
/// then the downward ones.
pub open spec fn grid_tris(n: nat) -> Seq<GridTri> {
    ups_below(n, n) + downs_below(n, (n - 1) as nat)
}

pub proof fn verts_below_len(n: nat, rows: nat)
    requires
        rows <= n + 1,
    ensures
        verts_below(n, rows).len() == row_start(n, rows),
        2 * row_start(n, rows) == rows * (2 * n + 3 - rows),
    decreases rows,
{
    if rows > 0 {
        verts_below_len(n, (rows - 1) as nat);
        let r = rows as int;
        let m = n as int;
        assert((r - 1) * (2 * m + 3 - (r - 1)) + 2 * (m - (r - 1) + 1) == r * (2 * m + 3 - r))
            by (nonlinear_arith);
    } else {
        assert(rows * (2 * n + 3 - rows) == 0) by (nonlinear_arith)
            requires
                rows == 0,
        ;
    }
}

/// A panel with `n` subdivisions has `(n + 1)(n + 2) / 2` vertices.
pub proof fn vertex_count(n: nat)
    ensures
        2 * grid_verts(n).len() == (n + 1) * (n + 2),
{
    verts_below_len(n, n + 1);
    let m = n as int;
    assert((m + 1) * (2 * m + 3 - (m + 1)) == (m + 1) * (m + 2)) by (nonlinear_arith);
}

pub proof fn row_start_grows(n: nat, a: nat, b: nat)
    requires
        a <= b <= n + 1,
    ensures
        row_start(n, a) <= row_start(n, b),
        a < b ==> row_start(n, a) + (n - a + 1) <= row_start(n, b),
    decreases b - a,
{
    if a < b {
        row_start_grows(n, a, (b - 1) as nat);
    }
}

/// The list holds every vertex at its index.
pub proof fn vert_at_index(n: nat, v: GridVert)
    requires
        v.within(n),
        n < usize::MAX,
    ensures
        vert_index(n, v) < grid_verts(n).len(),
        grid_verts(n)[vert_index(n, v) as int] == v,
{
    vert_in_prefix(n, n + 1, v);
}

proof fn vert_in_prefix(n: nat, rows: nat, v: GridVert)
    requires
        v.within(n),
        v.i < rows <= n + 1,
        n < usize::MAX,
    ensures
        vert_index(n, v) < verts_below(n, rows).len(),
        verts_below(n, rows)[vert_index(n, v) as int] == v,
    decreases rows,
{
    verts_below_len(n, (rows - 1) as nat);
    if v.i == rows - 1 {
        let row = vert_row(n, rows - 1);
        assert(row[v.j as int] == v);
    } else {
        vert_in_prefix(n, (rows - 1) as nat, v);
    }
}

proof fn ups_are_within(n: nat, rows: nat)
    requires
        rows <= n < usize::MAX,
    ensures
        forall|k: int| 0 <= k < ups_below(n, rows).len() ==> (#[trigger] ups_below(n, rows)[k]).within(n),
        2 * ups_below(n, rows).len() == rows * (2 * n + 1 - rows),
    decreases rows,
{
    if rows > 0 {
        ups_are_within(n, (rows - 1) as nat);
        let a = ups_below(n, (rows - 1) as nat);
        let b = Seq::new((n - (rows - 1)) as nat, |i: int| up_tri(i, rows - 1));
        assert forall|k: int| 0 <= k < (a + b).len() implies (#[trigger] (a + b)[k]).within(n) by {
            if k >= a.len() {
                assert((a + b)[k] == b[k - a.len()]);
            }
        }
        let r = rows as int;
        let m = n as int;
        assert((r - 1) * (2 * m + 1 - (r - 1)) + 2 * (m - (r - 1)) == r * (2 * m + 1 - r))
            by (nonlinear_arith);
    } else {
        assert(rows * (2 * n + 1 - rows) == 0) by (nonlinear_arith)
            requires
                rows == 0,
        ;
    }
}

proof fn downs_are_within(n: nat, rows: nat)
    requires
        n > 0,
        rows <= n - 1,
        n < usize::MAX,
    ensures
        forall|k: int|
            0 <= k < downs_below(n, rows).len() ==> (#[trigger] downs_below(n, rows)[k]).within(n),
        2 * downs_below(n, rows).len() == rows * (2 * n - 1 - rows),
    decreases rows,
{
    if rows > 0 {
        downs_are_within(n, (rows - 1) as nat);
        let a = downs_below(n, (rows - 1) as nat);
        let b = Seq::new((n - 1 - (rows - 1)) as nat, |i: int| down_tri(i, rows - 1));
        assert forall|k: int| 0 <= k < (a + b).len() implies (#[trigger] (a + b)[k]).within(n) by {
            if k >= a.len() {
                assert((a + b)[k] == b[k - a.len()]);
            }
        }
        let r = rows as int;
        let m = n as int;
        assert((r - 1) * (2 * m - 1 - (r - 1)) + 2 * (m - 1 - (r - 1)) == r * (2 * m - 1 - r))
            by (nonlinear_arith);
    } else {
        assert(rows * (2 * n - 1 - rows) == 0) by (nonlinear_arith)
            requires
                rows == 0,
        ;
    }
}

/// A panel with `n` subdivisions has `n * n` triangles, all of whose corners
/// are vertices of its grid.
pub proof fn triangle_count(n: nat)
    requires
        0 < n < usize::MAX,
    ensures
        grid_tris(n).len() == n * n,
        forall|k: int| 0 <= k < grid_tris(n).len() ==> (#[trigger] grid_tris(n)[k]).within(n),
{
    ups_are_within(n, n);
    downs_are_within(n, (n - 1) as nat);
    let u = ups_below(n, n);
    let d = downs_below(n, (n - 1) as nat);
    let m = n as int;
    assert(m * (2 * m + 1 - m) + (m - 1) * (2 * m - 1 - (m - 1)) == 2 * (m * m)) by (nonlinear_arith);
    assert forall|k: int| 0 <= k < grid_tris(n).len() implies (#[trigger] grid_tris(n)[k]).within(
        n,
    ) by {
        if k < u.len() {
            assert(grid_tris(n)[k] == u[k]);
        } else {
            assert(grid_tris(n)[k] == d[k - u.len()]);
        }
    }
}

/// How many of the first `m` triangles have a corner at the vertex: so many
/// thirds of a triangle's fabric it carries.
pub open spec fn shares(tris: Seq<GridTri>, v: GridVert, m: nat) -> nat
    decreases m,
{
    if m == 0 {
        0
    } else {
        let t = tris[m - 1];
        shares(tris, v, (m - 1) as nat) + one_if(t.a == v) + one_if(t.b == v) + one_if(t.c == v)
    }
}

pub open spec fn one_if(b: bool) -> nat {
    if b {
        1
    } else {
        0
    }
}

/// What the first `k` vertices carry of the first `m` triangles.
pub open spec fn shares_of_all(
    verts: Seq<GridVert>,
    tris: Seq<GridTri>,
    m: nat,
    k: nat,
) -> nat
    decreases k,
{
    if k == 0 {
        0
    } else {
        shares_of_all(verts, tris, m, (k - 1) as nat) + shares(tris, verts[k - 1], m)
    }
}

/// How often a vertex is among the first `k`.
spec fn occurrences(verts: Seq<GridVert>, v: GridVert, k: nat) -> nat
    decreases k,
{
    if k == 0 {
        0
    } else {
        occurrences(verts, v, (k - 1) as nat) + one_if(verts[k - 1] == v)
    }
}

/// The list holds at a place the vertex whose index that is.
proof fn index_of_vert(n: nat, rows: nat, k: int)
    requires
        rows <= n + 1,
        n < usize::MAX,
        0 <= k < verts_below(n, rows).len(),
    ensures
        vert_index(n, verts_below(n, rows)[k]) == k,
    decreases rows,
{
    let before = verts_below(n, (rows - 1) as nat);
    verts_below_len(n, (rows - 1) as nat);
    if k < before.len() {
        index_of_vert(n, (rows - 1) as nat, k);
    } else {
        let row = vert_row(n, rows - 1);
        assert(verts_below(n, rows)[k] == row[k - before.len()]);
    }
}

proof fn occurs_once(n: nat, v: GridVert, k: nat)
    requires
        v.within(n),
        n < usize::MAX,
        k <= grid_verts(n).len(),
    ensures
        occurrences(grid_verts(n), v, k) == one_if(vert_index(n, v) < k),
    decreases k,
{
    if k > 0 {
        occurs_once(n, v, (k - 1) as nat);
        vert_at_index(n, v);
        index_of_vert(n, n + 1, k - 1);
    }
}

proof fn shares_with_triangle(verts: Seq<GridVert>, tris: Seq<GridTri>, m: nat, k: nat)
    requires
        m > 0,
    ensures
        ({
            let t = tris[m - 1];
            shares_of_all(verts, tris, m, k) == shares_of_all(verts, tris, (m - 1) as nat, k)
                + occurrences(verts, t.a, k) + occurrences(verts, t.b, k) + occurrences(
                verts,
                t.c,
                k,
            )
        }),
    decreases k,
{
    if k > 0 {
        shares_with_triangle(verts, tris, m, (k - 1) as nat);
    }
}

proof fn shares_of_triangles(n: nat, m: nat)
    requires
        0 < n < usize::MAX,
        m <= grid_tris(n).len(),
    ensures
        shares_of_all(grid_verts(n), grid_tris(n), m, grid_verts(n).len()) == 3 * m,
    decreases m,
{
    let verts = grid_verts(n);
    let k = verts.len();
    if m > 0 {
        shares_of_triangles(n, (m - 1) as nat);
        triangle_count(n);
        let t = grid_tris(n)[m - 1];
        shares_with_triangle(verts, grid_tris(n), m, k);
        occurs_once(n, t.a, k);
        occurs_once(n, t.b, k);
        occurs_once(n, t.c, k);
        vert_at_index(n, t.a);
        vert_at_index(n, t.b);
        vert_at_index(n, t.c);
    } else {
        no_shares(verts, grid_tris(n), k);
    }
}

proof fn no_shares(verts: Seq<GridVert>, tris: Seq<GridTri>, k: nat)
    ensures
        shares_of_all(verts, tris, 0, k) == 0,
    decreases k,
{
    if k > 0 {
        no_shares(verts, tris, (k - 1) as nat);
    }
}

/// The vertices carry all of the fabric, whatever the subdivisions: the `n * n`
/// triangles, a third of each at each of its corners.
pub proof fn fabric_is_shared_out(n: nat)
    requires
        0 < n < usize::MAX,
    ensures
        shares_of_all(grid_verts(n), grid_tris(n), grid_tris(n).len(), grid_verts(n).len()) == 3 * (
        n * n),
{
    triangle_count(n);
    shares_of_triangles(n, grid_tris(n).len());
}

/// The vertices of a panel with `n` subdivisions, in ascending order.
pub fn panel_vertices(n: usize) -> (r: Vec<GridVert>)
    requires
        n < usize::MAX,
    ensures
        r@ == grid_verts(n as nat),
{
    let mut out: Vec<GridVert> = Vec::new();
    let mut i: usize = 0;
    while i <= n
        invariant
            n < usize::MAX,
            i <= n + 1,
            out@ == verts_below(n as nat, i as nat),
        decreases n + 1 - i,
    {
        let len: usize = n - i + 1;
        let ghost before = out@;
        let mut j: usize = 0;
        while j < len
            invariant
                n < usize::MAX,
                i <= n,
                len == n - i + 1,
                j <= len,
                out@ == before + vert_row(n as nat, i as int).take(j as int),
            decreases len - j,
        {
            out.push(GridVert { i, j });
            assert(out@ =~= before + vert_row(n as nat, i as int).take(j as int + 1));
            j += 1;
        }
        assert(vert_row(n as nat, i as int).take(len as int) =~= vert_row(n as nat, i as int));
        i += 1;
    }
    out
}

/// The triangles of a panel with `n` subdivisions.
pub fn panel_triangles(n: usize) -> (r: Vec<GridTri>)
    requires
        0 < n < usize::MAX,
    ensures
        r@ == grid_tris(n as nat),
        r@.len() == n * n,
        forall|k: int| 0 <= k < r@.len() ==> (#[trigger] r@[k]).within(n as nat),
{
    let mut out: Vec<GridTri> = Vec::new();
    let mut j: usize = 0;
    while j < n
        invariant
            0 < n < usize::MAX,
            j <= n,
            out@ == ups_below(n as nat, j as nat),
        decreases n - j,
    {
        let ghost before = out@;
        let ghost row = Seq::new((n - j) as nat, |i: int| up_tri(i, j as int));
        let mut i: usize = 0;
        while i < n - j
            invariant
                n < usize::MAX,
                j < n,
                i <= n - j,
                row == Seq::new((n - j) as nat, |i: int| up_tri(i, j as int)),
                out@ == before + row.take(i as int),
            decreases n - j - i,
        {
            out.push(
                GridTri {
                    a: GridVert { i, j },
                    b: GridVert { i: i + 1, j },
                    c: GridVert { i, j: j + 1 },
                },
            );
            assert(out@ =~= before + row.take(i as int + 1));
            i += 1;
        }
        assert(row.take(n - j) =~= row);
        j += 1;
    }
    let ghost ups = out@;
    let mut j: usize = 0;
    proof {
        assert(out@ =~= ups + downs_below(n as nat, 0));
    }
    while j < n - 1
        invariant
            0 < n < usize::MAX,
            j <= n - 1,
            out@ == ups + downs_below(n as nat, j as nat),
        decreases n - 1 - j,
    {
        let ghost before = out@;
        let ghost row = Seq::new((n - 1 - j) as nat, |i: int| down_tri(i, j as int));
        let mut i: usize = 0;
        while i < n - 1 - j
            invariant
                n < usize::MAX,
                j < n - 1,
                i <= n - 1 - j,
                row == Seq::new((n - 1 - j) as nat, |i: int| down_tri(i, j as int)),
                out@ == before + row.take(i as int),
            decreases n - 1 - j - i,
        {
            out.push(
                GridTri {
                    a: GridVert { i: i + 1, j },
                    b: GridVert { i: i + 1, j: j + 1 },
                    c: GridVert { i, j: j + 1 },
                },
            );
            assert(out@ =~= before + row.take(i as int + 1));
            i += 1;
        }
        assert(row.take(n - 1 - j) =~= row);
        j += 1;
        assert(out@ =~= ups + downs_below(n as nat, j as nat));
    }
    proof {
        triangle_count(n as nat);
    }
    out
}

} // verus!
