//! Linear index <-> 3D coordinate arithmetic and the index tables that map a
//! 4x4x4 block with its ghost zone onto the global data layout.

use vstd::prelude::*;
use vstd::arithmetic::div_mod::{lemma_fundamental_div_mod, lemma_mod_bound};

verus! {

/// The x coordinate of linear index `i` in a grid whose rows hold `dx` cells
/// and whose layers hold `dx * dy` cells.
pub open spec fn coord_x(i: int, dx: int, dy: int) -> int {
    (i % (dx * dy)) % dx
}

/// The y coordinate of linear index `i` (see `coord_x`).
pub open spec fn coord_y(i: int, dx: int, dy: int) -> int {
    (i % (dx * dy)) / dx
}

/// The z coordinate of linear index `i` (see `coord_x`).
pub open spec fn coord_z(i: int, dx: int, dy: int) -> int {
    i / (dx * dy)
}

/// The linear index of coordinate `(x, y, z)` in a `dx * dy * _` grid.
pub open spec fn linear_index(x: int, y: int, z: int, dx: int, dy: int) -> int {
    x + y * dx + z * dx * dy
}

/// `n - (n / d) * d` is the remainder of `n` by a positive `d`.
proof fn lemma_sub_quotient(n: int, d: int)
    requires
        0 <= n,
        0 < d,
    ensures
        0 <= (n / d) * d <= n,
        n - (n / d) * d == n % d,
        0 <= n % d < d,
        0 <= n / d <= n,
{
    lemma_fundamental_div_mod(n, d);
    lemma_mod_bound(n, d);
    assert(0 <= n / d) by (nonlinear_arith)
        requires 0 <= n, 0 < d;
    assert(n / d <= n) by (nonlinear_arith)
        requires 0 <= n, 0 < d;
    assert((n / d) * d == d * (n / d)) by (nonlinear_arith);
}

/// Composing the coordinates of a linear index gives the index back: for
/// every index `i >= 0` of a grid with `dx * dy > 0`,
/// `coord_x + coord_y * dx + coord_z * dx * dy == i`, with `coord_x < dx` and
/// `coord_y < dy`.
pub proof fn lemma_coords_compose(i: int, dx: int, dy: int)
    requires
        0 <= i,
        0 < dx,
        0 < dy,
    ensures
        linear_index(coord_x(i, dx, dy), coord_y(i, dx, dy), coord_z(i, dx, dy), dx, dy) == i,
        0 <= coord_x(i, dx, dy) < dx,
        0 <= coord_y(i, dx, dy) < dy,
        0 <= coord_z(i, dx, dy),
{
    let wh = dx * dy;
    assert(wh > 0) by (nonlinear_arith)
        requires 0 < dx, 0 < dy, wh == dx * dy;
    lemma_sub_quotient(i, wh);
    let r = i % wh;
    lemma_sub_quotient(r, dx);
    assert(r / dx < dy) by (nonlinear_arith)
        requires r < dx * dy, 0 < dx, 0 <= r;
    assert(coord_z(i, dx, dy) * dx * dy == (i / wh) * wh) by (nonlinear_arith)
        requires wh == dx * dy;
}

/// Splitting the linear index of an in-range coordinate gives the coordinate
/// back: for `0 <= x < dx`, `0 <= y < dy` and `0 <= z`, the coordinates of
/// `x + y * dx + z * dx * dy` are `(x, y, z)`.
pub proof fn lemma_index_split(x: int, y: int, z: int, dx: int, dy: int)
    requires
        0 <= x < dx,
        0 <= y < dy,
        0 <= z,
    ensures
        coord_x(linear_index(x, y, z, dx, dy), dx, dy) == x,
        coord_y(linear_index(x, y, z, dx, dy), dx, dy) == y,
        coord_z(linear_index(x, y, z, dx, dy), dx, dy) == z,
{
    let wh = dx * dy;
    let r = x + y * dx;
    assert(0 <= r < wh) by (nonlinear_arith)
        requires 0 <= x < dx, 0 <= y < dy, r == x + y * dx, wh == dx * dy;
    assert(linear_index(x, y, z, dx, dy) == z * wh + r) by (nonlinear_arith)
        requires wh == dx * dy, r == x + y * dx;
    lemma_split_position(z, wh, r);
    lemma_split_position(y, dx, x);
    assert(y * dx + x == r);
}

/// Splits the linear work index `work_index` into its `[x, y, z]` coordinates
/// in a grid of `dim_x * dim_y * _` cells (`dim_z` plays no part).
pub fn work_x_index_to_uvec3(work_index: u32, dim_x: u32, dim_y: u32, dim_z: u32) -> (r: [i32; 3])
    requires
        0 < dim_x * dim_y <= u32::MAX,
    ensures
        r[0] == coord_x(work_index as int, dim_x as int, dim_y as int) as i32,
        r[1] == coord_y(work_index as int, dim_x as int, dim_y as int) as i32,
        r[2] == coord_z(work_index as int, dim_x as int, dim_y as int) as i32,
{
    let c = index_to_uvec3(work_index, dim_x, dim_y);
    [c[0] as i32, c[1] as i32, c[2] as i32]
}

/// Splits the linear index `the_index` into its `[x, y, z]` coordinates in a
/// grid of `dim_x * dim_y * _` cells.
pub fn index_to_uvec3(the_index: u32, dim_x: u32, dim_y: u32) -> (r: [u32; 3])
    requires
        0 < dim_x * dim_y <= u32::MAX,
    ensures
        r[0] == coord_x(the_index as int, dim_x as int, dim_y as int),
        r[1] == coord_y(the_index as int, dim_x as int, dim_y as int),
        r[2] == coord_z(the_index as int, dim_x as int, dim_y as int),
        r[0] < dim_x,
        r[1] < dim_y,
{
    let mut index = the_index;
    let wh = dim_x * dim_y;
    proof {
        lemma_sub_quotient(the_index as int, wh as int);
    }
    let z = index / wh;
    index -= z * wh;
    proof {
        assert(dim_x > 0) by (nonlinear_arith)
            requires 0 < dim_x * dim_y, dim_y >= 0;
        lemma_sub_quotient(index as int, dim_x as int);
        assert(index < dim_x * dim_y);
        assert(index / dim_x < dim_y) by (nonlinear_arith)
            requires index < dim_x * dim_y, 0 < dim_x, 0 <= index;
    }
    let y = index / dim_x;
    index -= y * dim_x;
    let x = index;
    [x, y, z]
}


/// The value that the cast `v as i32` gives, as an integer.
pub open spec fn as_i32(v: int) -> int {
    (v as i32) as int
}

/// Whether `v` is a value of `u32`.
pub open spec fn in_u32(v: int) -> bool {
    0 <= v <= u32::MAX
}

/// Whether `v` is a value of `i32`.
pub open spec fn in_i32(v: int) -> bool {
    i32::MIN <= v <= i32::MAX
}

/// A table entry `[x, y, z, offset]` read as integers.
pub open spec fn quad_of(q: [i32; 4]) -> (int, int, int, int) {
    (q[0] as int, q[1] as int, q[2] as int, q[3] as int)
}

/// The entries of a table read as integers.
pub open spec fn quads(s: Seq<[i32; 4]>) -> Seq<(int, int, int, int)> {
    s.map_values(|q: [i32; 4]| quad_of(q))
}

/// Number of cells of a block of `x * y * z` cells that get an entry of their
/// own: the block is walked by an `i32` counter up to `block_size as i32`, so a
/// block of `2^31` cells or more gets none.
pub open spec fn interior_count(x: int, y: int, z: int) -> int {
    if x * y * z < 0x8000_0000 {
        x * y * z
    } else {
        0
    }
}

/// Offset between a cell and its neighbour in the block below or above.
pub open spec fn offset_z(x: int, y: int, z: int, gx: int, gy: int) -> int {
    as_i32(x * y * z * gx * gy - x * y)
}

/// Offset between a cell and its neighbour in the block in front or behind.
pub open spec fn offset_y(x: int, y: int, z: int, gx: int) -> int {
    as_i32(x * y * z * gx - (x * y - x))
}

/// Offset between a cell and its neighbour in the block to the left or right.
pub open spec fn offset_x(x: int, y: int, z: int) -> int {
    as_i32(1 + (x * y * z - x))
}

/// The block cell whose neighbour the `j`th entry of ghost side `side` is.
pub open spec fn ghost_source(side: int, j: int, x: int, y: int) -> int {
    if side == 0 {
        j
    } else if side == 1 {
        j + x * y * 3
    } else if side == 2 {
        j * 4 + 3
    } else if side == 3 {
        x * j
    } else if side == 4 {
        j % y + (j / y) * x * y
    } else {
        x * y - x + j % y + (j / y) * x * y
    }
}

/// The unsigned value whose `i32` cast is added to the side's offset.
pub open spec fn ghost_label(side: int, j: int, x: int, y: int) -> int {
    if side == 1 {
        48 + j
    } else {
        ghost_source(side, j, x, y)
    }
}

/// The signed offset of ghost side `side`.
pub open spec fn ghost_base(side: int, oz: int, oy: int, ox: int) -> int {
    if side == 0 {
        -oz
    } else if side == 1 {
        oz
    } else if side == 2 {
        ox
    } else if side == 3 {
        -ox
    } else if side == 4 {
        -oy
    } else {
        oy
    }
}

/// The coordinate step from a block cell to its ghost neighbour on side `side`:
/// below, above, right, left, in front, behind.
pub open spec fn ghost_step(side: int) -> (int, int, int) {
    if side == 0 {
        (0, 0, -1)
    } else if side == 1 {
        (0, 0, 1)
    } else if side == 2 {
        (1, 0, 0)
    } else if side == 3 {
        (-1, 0, 0)
    } else if side == 4 {
        (0, -1, 0)
    } else {
        (0, 1, 0)
    }
}

/// The `j`th entry of ghost side `side`.
pub open spec fn ghost_entry(side: int, j: int, x: int, y: int, oz: int, oy: int, ox: int) -> (
    int,
    int,
    int,
    int,
) {
    let s = ghost_source(side, j, x, y);
    let st = ghost_step(side);
    (
        as_i32(coord_x(s, x, y)) + st.0,
        as_i32(coord_y(s, x, y)) + st.1,
        as_i32(coord_z(s, x, y)) + st.2,
        ghost_base(side, oz, oy, ox) + as_i32(ghost_label(side, j, x, y)),
    )
}

/// The `k`th entry of the index table of an `x * y * z` block in a grid of
/// `gx * gy * _` blocks: first one entry per block cell, then `x * y` entries
/// for each of the six ghost sides.
pub open spec fn fmm_entry(k: int, x: int, y: int, z: int, gx: int, gy: int) -> (int, int, int, int) {
    let nb = interior_count(x, y, z);
    if k < nb {
        (as_i32(coord_x(k, x, y)), as_i32(coord_y(k, x, y)), as_i32(coord_z(k, x, y)), k)
    } else {
        let g = k - nb;
        ghost_entry(
            g / (x * y),
            g % (x * y),
            x,
            y,
            offset_z(x, y, z, gx, gy),
            offset_y(x, y, z, gx),
            offset_x(x, y, z),
        )
    }
}

/// The index table of an `x * y * z` block in a grid of `gx * gy * _` blocks.
pub open spec fn fmm_table(x: int, y: int, z: int, gx: int, gy: int) -> Seq<(int, int, int, int)> {
    Seq::new(
        (interior_count(x, y, z) + 6 * (x * y)) as nat,
        |k: int| fmm_entry(k, x, y, z, gx, gy),
    )
}

/// The offsets of the table are computed without `u32` overflow.
pub open spec fn fmm_header_ok(x: int, y: int, z: int, gx: int, gy: int) -> bool {
    &&& in_u32(x * y)
    &&& in_u32(x * y * z)
    &&& in_u32(x * y * z * gx)
    &&& in_u32(x * y * z * gx * gy)
    &&& x * y <= x * y * z * gx * gy
    &&& x <= x * y
    &&& x * y - x <= x * y * z * gx
    &&& x <= x * y * z
    &&& in_u32(1 + (x * y * z - x))
}

/// The `j`th entry of ghost side `side` is computed without overflow.
pub open spec fn ghost_ok(side: int, j: int, x: int, y: int, oz: int, oy: int, ox: int) -> bool {
    let s = ghost_source(side, j, x, y);
    let st = ghost_step(side);
    let base = ghost_base(side, oz, oy, ox);
    &&& (side == 1 ==> in_u32(x * y * 3) && in_u32(j + x * y * 3) && in_u32(48 + j))
    &&& (side == 2 ==> in_u32(j * 4 + 3))
    &&& (side == 3 ==> in_u32(x * j))
    &&& (side == 4 || side == 5 ==> in_u32((j / y) * x) && in_u32((j / y) * x * y))
    &&& (side == 4 ==> in_u32(j % y + (j / y) * x * y))
    &&& (side == 5 ==> in_u32(x * y - x + j % y + (j / y) * x * y))
    &&& in_i32(as_i32(coord_x(s, x, y)) + st.0)
    &&& in_i32(as_i32(coord_y(s, x, y)) + st.1)
    &&& in_i32(as_i32(coord_z(s, x, y)) + st.2)
    &&& in_i32(base)
    &&& in_i32(base + as_i32(ghost_label(side, j, x, y)))
}

/// The whole table is computed without overflow: the condition under which
/// `create_fmm_index_table` does not panic.
pub open spec fn fmm_table_ok(x: int, y: int, z: int, gx: int, gy: int) -> bool {
    &&& fmm_header_ok(x, y, z, gx, gy)
    &&& forall|side: int, j: int|
        0 <= side < 6 && 0 <= j < x * y ==> #[trigger] ghost_ok(
            side,
            j,
            x,
            y,
            offset_z(x, y, z, gx, gy),
            offset_y(x, y, z, gx),
            offset_x(x, y, z),
        )
}

proof fn lemma_cast_u32_i32(v: u32)
    ensures
        ((v as i32) as u32) == v,
        v < 0x8000_0000 ==> (v as i32) as int == v as int,
        v < 0x8000_0000 ==> (v as i32) >= 0,
        v >= 0x8000_0000 ==> (v as i32) < 0,
{
    assert(((v as i32) as u32) == v) by (bit_vector);
    assert(v < 0x8000_0000 ==> (v as i32) as int == v as int) by (bit_vector);
    assert(v < 0x8000_0000 ==> (v as i32) >= 0) by (bit_vector);
    assert(v >= 0x8000_0000 ==> (v as i32) < 0) by (bit_vector);
}

/// The entry of ghost side `side` for the `j`th cell of that side.
fn ghost_zone_entry(
    side: u32,
    j: u32,
    x_dim: u32,
    y_dim: u32,
    z_dim: u32,
    index_offset_z: i32,
    index_offset_y: i32,
    index_offset_x: i32,
) -> (r: [i32; 4])
    requires
        side < 6,
        j < x_dim * y_dim <= u32::MAX,
        x_dim <= x_dim * y_dim,
        ghost_ok(
            side as int,
            j as int,
            x_dim as int,
            y_dim as int,
            index_offset_z as int,
            index_offset_y as int,
            index_offset_x as int,
        ),
    ensures
        quad_of(r) == ghost_entry(
            side as int,
            j as int,
            x_dim as int,
            y_dim as int,
            index_offset_z as int,
            index_offset_y as int,
            index_offset_x as int,
        ),
{
    if side == 0 {
        let coord = work_x_index_to_uvec3(j, x_dim, y_dim, z_dim);
        [coord[0], coord[1], coord[2] - 1, -index_offset_z + j as i32]
    } else if side == 1 {
        let coord = work_x_index_to_uvec3(j + x_dim * y_dim * 3, x_dim, y_dim, z_dim);
        [coord[0], coord[1], coord[2] + 1, index_offset_z + (48 + j) as i32]
    } else if side == 2 {
        let index = (j * 4 + 3) as i32;
        proof {
            lemma_cast_u32_i32((j * 4 + 3) as u32);
        }
        let coord = work_x_index_to_uvec3(index as u32, x_dim, y_dim, z_dim);
        [coord[0] + 1, coord[1], coord[2], index_offset_x + index]
    } else if side == 3 {
        let index = (x_dim * j) as i32;
        proof {
            lemma_cast_u32_i32((x_dim * j) as u32);
        }
        let coord = work_x_index_to_uvec3(index as u32, x_dim, y_dim, z_dim);
        [coord[0] - 1, coord[1], coord[2], -index_offset_x + index]
    } else if side == 4 {
        proof {
            assert(y_dim > 0) by (nonlinear_arith)
                requires j < x_dim * y_dim, 0 <= j;
        }
        let index = (j % y_dim + (j / y_dim) * x_dim * y_dim) as i32;
        proof {
            lemma_cast_u32_i32((j % y_dim + (j / y_dim) * x_dim * y_dim) as u32);
        }
        let coord = work_x_index_to_uvec3(index as u32, x_dim, y_dim, z_dim);
        [coord[0], coord[1] - 1, coord[2], -index_offset_y + index]
    } else {
        proof {
            assert(y_dim > 0) by (nonlinear_arith)
                requires j < x_dim * y_dim, 0 <= j;
        }
        let index = (x_dim * y_dim - x_dim + j % y_dim + (j / y_dim) * x_dim * y_dim) as i32;
        proof {
            lemma_cast_u32_i32(
                (x_dim * y_dim - x_dim + j % y_dim + (j / y_dim) * x_dim * y_dim) as u32,
            );
        }
        let coord = work_x_index_to_uvec3(index as u32, x_dim, y_dim, z_dim);
        [coord[0], coord[1] + 1, coord[2], index_offset_y + index]
    }
}


/// `(n * d + r) / d == n` and `(n * d + r) % d == r` for `0 <= r < d`.
proof fn lemma_split_position(n: int, d: int, r: int)
    requires
        0 <= n,
        0 <= r < d,
    ensures
        (n * d + r) / d == n,
        (n * d + r) % d == r,
{
    vstd::arithmetic::div_mod::lemma_fundamental_div_mod_converse(n * d + r, d, n, r);
}

/// Builds the index table of an `x_dim * y_dim * z_dim` block that lies in a
/// grid of `global_dim_x * global_dim_y * global_dim_z` blocks.
///
/// Each entry is `[x, y, z, offset]`: first one entry per block cell with its
/// coordinate and its own index, then the ghost zone, six sides of
/// `x_dim * y_dim` entries each (below, above, right, left, in front, behind),
/// with the neighbour's coordinate and its offset in the global data.
pub fn create_fmm_index_table(
    x_dim: u32,
    y_dim: u32,
    z_dim: u32,
    global_dim_x: u32,
    global_dim_y: u32,
    global_dim_z: u32,
) -> (result: Vec<[i32; 4]>)
    requires
        fmm_table_ok(
            x_dim as int,
            y_dim as int,
            z_dim as int,
            global_dim_x as int,
            global_dim_y as int,
        ),
    ensures
        quads(result@) == fmm_table(
            x_dim as int,
            y_dim as int,
            z_dim as int,
            global_dim_x as int,
            global_dim_y as int,
        ),
{
    let ghost (x, y, z, gx, gy) = (
        x_dim as int,
        y_dim as int,
        z_dim as int,
        global_dim_x as int,
        global_dim_y as int,
    );
    let block_size = x_dim * y_dim * z_dim;

    let index_offset_z: i32 = (block_size * global_dim_x * global_dim_y - x_dim * y_dim) as i32;
    let index_offset_y: i32 = (block_size * global_dim_x - (x_dim * y_dim - x_dim)) as i32;
    let index_offset_x: i32 = (1 + (block_size - x_dim)) as i32;
    assert(index_offset_z as int == offset_z(x, y, z, gx, gy));
    assert(index_offset_y as int == offset_y(x, y, z, gx));
    assert(index_offset_x as int == offset_x(x, y, z));

    let mut result: Vec<[i32; 4]> = Vec::new();

    // The block's own cells.
    let n: i32 = block_size as i32;
    proof {
        lemma_cast_u32_i32(block_size);
    }
    let mut i: i32 = 0;
    while i < n
        invariant
            0 <= i,
            n > 0 ==> i <= n,
            n <= 0 ==> i == 0,
            x == x_dim,
            y == y_dim,
            z == z_dim,
            gx == global_dim_x,
            gy == global_dim_y,
            block_size < 0x8000_0000 ==> n == block_size,
            block_size >= 0x8000_0000 ==> n < 0,
            n as int == as_i32(x * y * z),
            0 <= x * y <= u32::MAX,
            block_size == x * y * z,
            n > 0 ==> n == block_size,
            result.len() == i,
            forall|k: int|
                0 <= k < result.len() ==> #[trigger] quad_of(result@[k]) == fmm_entry(
                    k,
                    x,
                    y,
                    z,
                    gx,
                    gy,
                ),
        decreases n - i,
    {
        proof {
            assert(x * y > 0) by (nonlinear_arith)
                requires x * y * z > 0, 0 <= x * y, z >= 0;
            assert(interior_count(x, y, z) == block_size);
        }
        let coordinate = work_x_index_to_uvec3(i as u32, x_dim, y_dim, z_dim);
        result.push([coordinate[0], coordinate[1], coordinate[2], i]);
        i = i + 1;
    }
    assert(result.len() == interior_count(x, y, z));

    // The ghost zone, side by side.
    let ghost nb = interior_count(x, y, z);
    let mut side: u32 = 0;
    while side < 6
        invariant
            side <= 6,
            x == x_dim,
            y == y_dim,
            z == z_dim,
            gx == global_dim_x,
            gy == global_dim_y,
            nb == interior_count(x, y, z),
            fmm_table_ok(x, y, z, gx, gy),
            index_offset_z as int == offset_z(x, y, z, gx, gy),
            index_offset_y as int == offset_y(x, y, z, gx),
            index_offset_x as int == offset_x(x, y, z),
            result.len() == nb + side * (x * y),
            forall|k: int|
                0 <= k < result.len() ==> #[trigger] quad_of(result@[k]) == fmm_entry(
                    k,
                    x,
                    y,
                    z,
                    gx,
                    gy,
                ),
        decreases 6 - side,
    {
        let mut j: u32 = 0;
        while j < x_dim * y_dim
            invariant
                side < 6,
                j <= x * y,
                x == x_dim,
                y == y_dim,
                z == z_dim,
                gx == global_dim_x,
                gy == global_dim_y,
                nb == interior_count(x, y, z),
                fmm_table_ok(x, y, z, gx, gy),
                index_offset_z as int == offset_z(x, y, z, gx, gy),
                index_offset_y as int == offset_y(x, y, z, gx),
                index_offset_x as int == offset_x(x, y, z),
                result.len() == nb + side * (x * y) + j,
                forall|k: int|
                    0 <= k < result.len() ==> #[trigger] quad_of(result@[k]) == fmm_entry(
                        k,
                        x,
                        y,
                        z,
                        gx,
                        gy,
                    ),
            decreases x * y - j,
        {
            assert(ghost_ok(
                side as int,
                j as int,
                x,
                y,
                offset_z(x, y, z, gx, gy),
                offset_y(x, y, z, gx),
                offset_x(x, y, z),
            ));
            let entry = ghost_zone_entry(
                side,
                j,
                x_dim,
                y_dim,
                z_dim,
                index_offset_z,
                index_offset_y,
                index_offset_x,
            );
            proof {
                lemma_split_position(side as int, x * y, j as int);
                assert(side * (x * y) == (side as int) * (x * y));
            }
            result.push(entry);
            j = j + 1;
        }
        proof {
            assert(nb + side * (x * y) + x * y == nb + (side + 1) * (x * y)) by (nonlinear_arith);
        }
        side = side + 1;
    }
    assert(quads(result@) =~= fmm_table(x, y, z, gx, gy));
    result
}


/// An index table entry read as integers: `(x, y, z, offset)`.
pub type Quad = (int, int, int, int);

/// Whether two entries hold the same coordinate.
pub open spec fn same_coords(a: Quad, b: Quad) -> bool {
    a.0 == b.0 && a.1 == b.1 && a.2 == b.2
}

/// The first position at or after `start` whose entry has the coordinate of
/// `c`, or `t.len()` when there is none.
pub open spec fn first_match_from(t: Seq<Quad>, c: Quad, start: int) -> int
    decreases t.len() - start,
{
    if start >= t.len() || start < 0 {
        t.len() as int
    } else if same_coords(t[start], c) {
        start
    } else {
        first_match_from(t, c, start + 1)
    }
}

/// The entry that a search through one iterator over `t` finds for the
/// `k`th entry: the searches for entries `0, 1, ..., k` are made in turn on
/// the same iterator, so each starts just after the previous find.
pub open spec fn iter_match(t: Seq<Quad>, k: int) -> int
    decreases k,
{
    if k <= 0 {
        first_match_from(t, t[0], 0)
    } else {
        first_match_from(t, t[k], iter_match(t, k - 1) + 1)
    }
}

/// The first position of the table whose entry has the coordinate of the
/// `k`th entry.
pub open spec fn first_match(t: Seq<Quad>, k: int) -> int {
    first_match_from(t, t[k], 0)
}

/// The coordinate component `v` moved by one and cast to `u32`.
pub open spec fn shifted_u32(v: int) -> int {
    ((v + 1) as u32) as int
}

/// The hash of an entry's coordinate moved by `(1, 1, 1)`, computed in `u32`.
pub open spec fn hash_u32(q: Quad, xo: int, yo: int) -> int {
    shifted_u32(q.0) + shifted_u32(q.1) * xo + shifted_u32(q.2) * xo * yo
}

/// The hash of an entry's coordinate moved by `(1, 1, 1)`, computed in `i32`
/// with the row and layer sizes cast to `i32`.
pub open spec fn hash_i32(q: Quad, xo: int, yo: int) -> int {
    (q.0 + 1) + (q.1 + 1) * as_i32(xo) + (q.2 + 1) * as_i32(xo) * as_i32(yo)
}

/// The `u32` hash of the entry is computed without overflow and lies in the
/// mapping of `len` cells.
pub open spec fn hash_u32_ok(q: Quad, xo: int, yo: int, len: int) -> bool {
    let (a0, a1, a2) = (shifted_u32(q.0), shifted_u32(q.1), shifted_u32(q.2));
    &&& in_i32(q.0 + 1)
    &&& in_i32(q.1 + 1)
    &&& in_i32(q.2 + 1)
    &&& in_u32(a1 * xo)
    &&& in_u32(a0 + a1 * xo)
    &&& in_u32(a2 * xo)
    &&& in_u32(a2 * xo * yo)
    &&& in_u32(a0 + a1 * xo + a2 * xo * yo)
    &&& hash_u32(q, xo, yo) < len
}

/// The `i32` hash of the entry is computed without overflow and lies in the
/// mapping of `len` cells.
pub open spec fn hash_i32_ok(q: Quad, xo: int, yo: int, len: int) -> bool {
    let (b0, b1, b2) = (q.0 + 1, q.1 + 1, q.2 + 1);
    let (xi, yi) = (as_i32(xo), as_i32(yo));
    &&& in_i32(b0)
    &&& in_i32(b1)
    &&& in_i32(b2)
    &&& in_i32(b1 * xi)
    &&& in_i32(b0 + b1 * xi)
    &&& in_i32(b2 * xi)
    &&& in_i32(b2 * xi * yi)
    &&& in_i32(b0 + b1 * xi + b2 * xi * yi)
    &&& 0 <= hash_i32(q, xo, yo) < len
}

/// The number of cells of the mapping: the block grown by one cell on each side.
pub open spec fn padded_len(x: int, y: int, z: int) -> int {
    (x + 2) * (y + 2) * (z + 2)
}

/// The condition under which `create_hash_table` does not panic.
pub open spec fn hash_table_ok(x: int, y: int, z: int, gx: int, gy: int) -> bool {
    let t = fmm_table(x, y, z, gx, gy);
    &&& fmm_table_ok(x, y, z, gx, gy)
    &&& in_u32(x + 2)
    &&& in_u32(y + 2)
    &&& in_u32(z + 2)
    &&& (x + 2) * (y + 2) <= usize::MAX
    &&& padded_len(x, y, z) <= usize::MAX
    &&& forall|k: int|
        0 <= k < t.len() ==> hash_u32_ok(#[trigger] t[k], x + 2, y + 2, padded_len(x, y, z))
            && hash_i32_ok(t[k], x + 2, y + 2, padded_len(x, y, z))
}

/// The last of the first `n` entries whose `u32` hash is `p`.
pub open spec fn last_u32_writer(t: Seq<Quad>, p: int, xo: int, yo: int, n: int) -> Option<int>
    decreases n,
{
    if n <= 0 {
        None
    } else if hash_u32(t[n - 1], xo, yo) == p {
        Some(n - 1)
    } else {
        last_u32_writer(t, p, xo, yo, n - 1)
    }
}

/// The last of the first `n` entries whose `i32` hash is `p`.
pub open spec fn last_i32_writer(t: Seq<Quad>, p: int, xo: int, yo: int, n: int) -> Option<int>
    decreases n,
{
    if n <= 0 {
        None
    } else if hash_i32(t[n - 1], xo, yo) == p {
        Some(n - 1)
    } else {
        last_i32_writer(t, p, xo, yo, n - 1)
    }
}

/// Cell `p` of the offset mapping: the offset of the entry that the iterator
/// search found for the last entry hashed to `p`, or 0.
pub open spec fn mapping_cell(t: Seq<Quad>, p: int, xo: int, yo: int) -> int {
    match last_u32_writer(t, p, xo, yo, t.len() as int) {
        Some(k) => t[iter_match(t, k)].3,
        None => 0,
    }
}

/// Cell `p` of the thread mapping: the first table position with the
/// coordinate of the last entry hashed to `p`, cast to `u32`, or 777.
pub open spec fn thread_cell(t: Seq<Quad>, p: int, xo: int, yo: int) -> int {
    match last_i32_writer(t, p, xo, yo, t.len() as int) {
        Some(k) => (first_match(t, k) as u32) as int,
        None => 777,
    }
}

proof fn lemma_first_match_from(t: Seq<Quad>, c: Quad, start: int, k: int)
    requires
        0 <= start <= k < t.len(),
        same_coords(t[k], c),
    ensures
        start <= first_match_from(t, c, start) <= k,
        same_coords(t[first_match_from(t, c, start)], c),
        forall|i: int| start <= i < first_match_from(t, c, start) ==> !same_coords(#[trigger] t[i], c),
    decreases k - start,
{
    if !same_coords(t[start], c) {
        lemma_first_match_from(t, c, start + 1, k);
    }
}

proof fn lemma_iter_match(t: Seq<Quad>, k: int)
    requires
        0 <= k < t.len(),
    ensures
        0 <= iter_match(t, k) <= k,
        same_coords(t[iter_match(t, k)], t[k]),
    decreases k,
{
    if k == 0 {
        lemma_first_match_from(t, t[0], 0, 0);
    } else {
        lemma_iter_match(t, k - 1);
        lemma_first_match_from(t, t[k], iter_match(t, k - 1) + 1, k);
    }
}

/// Builds the lookup tables of the GPU kernel for an `x_dim * y_dim * z_dim`
/// block (with ghost zone) in a grid of `global_dim_x * global_dim_y *
/// global_dim_z` blocks.
///
/// Returns `(mapping, thread_id_mapping, table)`: `table` is the index table
/// of `create_fmm_index_table`; both mappings have one cell per coordinate of
/// the block grown by one cell on each side, addressed by the hash
/// `x + y * (x_dim + 2) + z * (x_dim + 2) * (y_dim + 2)` of the coordinate
/// moved by `(1, 1, 1)`. `mapping` holds the offset of the entry found for the
/// coordinate (0 where none), `thread_id_mapping` the position of the first
/// table entry with that coordinate (777 where none).
pub fn create_hash_table(
    x_dim: u32,
    y_dim: u32,
    z_dim: u32,
    global_dim_x: u32,
    global_dim_y: u32,
    global_dim_z: u32,
) -> (r: (Vec<i32>, Vec<u32>, Vec<[i32; 4]>))
    requires
        hash_table_ok(
            x_dim as int,
            y_dim as int,
            z_dim as int,
            global_dim_x as int,
            global_dim_y as int,
        ),
    ensures
        ({
            let t = fmm_table(
                x_dim as int,
                y_dim as int,
                z_dim as int,
                global_dim_x as int,
                global_dim_y as int,
            );
            let (xo, yo) = (x_dim + 2, y_dim + 2);
            let len = padded_len(x_dim as int, y_dim as int, z_dim as int);
            &&& quads(r.2@) == t
            &&& r.0@.len() == len
            &&& r.1@.len() == len
            &&& forall|p: int| 0 <= p < len ==> #[trigger] r.0@[p] == mapping_cell(t, p, xo, yo)
            &&& forall|p: int| 0 <= p < len ==> #[trigger] r.1@[p] == thread_cell(t, p, xo, yo)
        }),
{
    let ghost (x, y, z, gx, gy) = (
        x_dim as int,
        y_dim as int,
        z_dim as int,
        global_dim_x as int,
        global_dim_y as int,
    );
    let table = create_fmm_index_table(
        x_dim,
        y_dim,
        z_dim,
        global_dim_x,
        global_dim_y,
        global_dim_z,
    );
    let ghost t = fmm_table(x, y, z, gx, gy);
    let x_offset = x_dim + 2;
    let y_offset = y_dim + 2;
    let z_offset = z_dim + 2;
    let ghost (xo, yo) = (x_offset as int, y_offset as int);
    let len: usize = x_offset as usize * y_offset as usize * z_offset as usize;
    assert(len == padded_len(x, y, z));

    let mut mapping: Vec<i32> = vec![0; len];
    let mut thread_id_mapping: Vec<u32> = vec![777; len];
    assert(table@.len() == t.len());

    // Offsets, looked up through one iterator over the table.
    let mut pos: usize = 0;
    let mut k: usize = 0;
    while k < table.len()
        invariant
            quads(table@) == t,
            hash_table_ok(x, y, z, gx, gy),
            t == fmm_table(x, y, z, gx, gy),
            xo == x + 2,
            yo == y + 2,
            x_offset == xo,
            y_offset == yo,
            len == padded_len(x, y, z),
            mapping@.len() == len,
            k <= table@.len(),
            k == 0 ==> pos == 0,
            k > 0 ==> pos == iter_match(t, k - 1) + 1,
            forall|p: int|
                0 <= p < len ==> #[trigger] mapping@[p] == match last_u32_writer(
                    t,
                    p,
                    xo,
                    yo,
                    k as int,
                ) {
                    Some(w) => t[iter_match(t, w)].3,
                    None => 0,
                },
        decreases table@.len() - k,
    {
        let coordinate = table[k];
        proof {
            assert(t[k as int] == quad_of(coordinate));
            assert(hash_u32_ok(t[k as int], xo, yo, len as int));
        }
        let c0 = (coordinate[0] + 1) as u32;
        let c1 = (coordinate[1] + 1) as u32;
        let c2 = (coordinate[2] + 1) as u32;
        let hash_value = c0 + c1 * x_offset + c2 * x_offset * y_offset;
        assert(hash_value == hash_u32(t[k as int], xo, yo));

        proof {
            if k > 0 {
                lemma_iter_match(t, k - 1);
            }
            lemma_first_match_from(t, t[k as int], pos as int, k as int);
        }
        let mut m: usize = pos;
        while !(table[m][0] == coordinate[0] && table[m][1] == coordinate[1] && table[m][2]
            == coordinate[2])
            invariant
                quads(table@) == t,
                pos <= m <= first_match_from(t, t[k as int], pos as int),
                first_match_from(t, t[k as int], pos as int) <= k < table@.len(),
                coordinate == table@[k as int],
                same_coords(t[first_match_from(t, t[k as int], pos as int)], t[k as int]),
                forall|i: int|
                    pos <= i < first_match_from(t, t[k as int], pos as int) ==> !same_coords(
                        #[trigger] t[i],
                        t[k as int],
                    ),
            decreases k - m,
        {
            assert(t[m as int] == quad_of(table@[m as int]));
            m = m + 1;
        }
        proof {
            assert(t[m as int] == quad_of(table@[m as int]));
            assert(m == first_match_from(t, t[k as int], pos as int));
            assert(m == iter_match(t, k as int));
        }
        mapping[hash_value as usize] = table[m][3];
        pos = m + 1;
        k = k + 1;
    }

    // Thread ids: the first table position of each coordinate.
    let mut k: usize = 0;
    while k < table.len()
        invariant
            quads(table@) == t,
            hash_table_ok(x, y, z, gx, gy),
            t == fmm_table(x, y, z, gx, gy),
            xo == x + 2,
            yo == y + 2,
            x_offset == xo,
            y_offset == yo,
            len == padded_len(x, y, z),
            thread_id_mapping@.len() == len,
            k <= table@.len(),
            forall|p: int|
                0 <= p < len ==> #[trigger] thread_id_mapping@[p] == match last_i32_writer(
                    t,
                    p,
                    xo,
                    yo,
                    k as int,
                ) {
                    Some(w) => (first_match(t, w) as u32) as int,
                    None => 777,
                },
        decreases table@.len() - k,
    {
        let coordinate = table[k];
        proof {
            assert(t[k as int] == quad_of(coordinate));
            lemma_first_match_from(t, t[k as int], 0, k as int);
        }
        let mut i: usize = 0;
        while !(table[i][0] == coordinate[0] && table[i][1] == coordinate[1] && table[i][2]
            == coordinate[2])
            invariant
                quads(table@) == t,
                i <= first_match(t, k as int),
                first_match(t, k as int) <= k < table@.len(),
                coordinate == table@[k as int],
                same_coords(t[first_match(t, k as int)], t[k as int]),
                forall|j: int|
                    0 <= j < first_match(t, k as int) ==> !same_coords(
                        #[trigger] t[j],
                        t[k as int],
                    ),
            decreases k - i,
        {
            assert(t[i as int] == quad_of(table@[i as int]));
            i = i + 1;
        }
        let temp = table[i];
        proof {
            assert(t[i as int] == quad_of(temp));
            assert(hash_i32_ok(t[k as int], xo, yo, len as int));
        }
        let translated_coordinate = [temp[0] + 1, temp[1] + 1, temp[2] + 1, temp[3]];
        let translated_hash_index = translated_coordinate[0] + translated_coordinate[1]
            * x_offset as i32 + translated_coordinate[2] * x_offset as i32 * y_offset as i32;
        assert(translated_hash_index == hash_i32(t[k as int], xo, yo));
        thread_id_mapping[translated_hash_index as usize] = i as u32;
        k = k + 1;
    }
    (mapping, thread_id_mapping, table)
}


/// The table position of the entry with translated coordinate
/// `(tx, ty, tz)` (the coordinate moved by `(1, 1, 1)`) for a 4x4x4 block:
/// the block cells, then the six faces of its ghost zone.
spec fn block4_position(tx: int, ty: int, tz: int) -> int {
    if 1 <= tx <= 4 && 1 <= ty <= 4 && 1 <= tz <= 4 {
        (tx - 1) + 4 * (ty - 1) + 16 * (tz - 1)
    } else if tz == 0 {
        64 + (tx - 1) + 4 * (ty - 1)
    } else if tz == 5 {
        80 + (tx - 1) + 4 * (ty - 1)
    } else if tx == 5 {
        96 + (ty - 1) + 4 * (tz - 1)
    } else if tx == 0 {
        112 + (ty - 1) + 4 * (tz - 1)
    } else if ty == 0 {
        128 + (tx - 1) + 4 * (tz - 1)
    } else {
        144 + (tx - 1) + 4 * (tz - 1)
    }
}

/// The hash that the lookup tables give the coordinate of entry `q` of a
/// 4x4x4 block: `(x + 1) + (y + 1) * 6 + (z + 1) * 36`.
pub open spec fn block4_hash(q: Quad) -> int {
    (q.0 + 1) + (q.1 + 1) * 6 + (q.2 + 1) * 36
}

/// The entries of a 4x4x4 block lie in the grown block, and the position of
/// each can be read back from its coordinate.
proof fn lemma_block4_entry(gx: int, gy: int, k: int)
    requires
        0 <= k < 160,
    ensures
        ({
            let q = fmm_table(4, 4, 4, gx, gy)[k];
            &&& -1 <= q.0 <= 4
            &&& -1 <= q.1 <= 4
            &&& -1 <= q.2 <= 4
            &&& block4_position(q.0 + 1, q.1 + 1, q.2 + 1) == k
            &&& hash_u32(q, 6, 6) == block4_hash(q)
            &&& hash_i32(q, 6, 6) == block4_hash(q)
            &&& 0 <= block4_hash(q) < 216
        }),
{
    let q = fmm_table(4, 4, 4, gx, gy)[k];
    assert(interior_count(4, 4, 4) == 64);
    assert(q == fmm_entry(k, 4, 4, 4, gx, gy));
    if k < 64 {
        assert(coord_x(k, 4, 4) == (k % 16) % 4);
        assert(coord_y(k, 4, 4) == (k % 16) / 4);
        assert(coord_z(k, 4, 4) == k / 16);
    } else {
        let g = k - 64;
        let side = g / 16;
        let j = g % 16;
        assert(4 * 4 == 16);
        assert(0 <= side < 6 && 0 <= j < 16 && k == 64 + 16 * side + j);
        let s = ghost_source(side, j, 4, 4);
        if side == 0 {
            assert(s == j);
        } else if side == 1 {
            assert(s == j + 48);
        } else if side == 2 {
            assert(s == j * 4 + 3);
            assert(s % 16 == (j % 4) * 4 + 3 && s / 16 == j / 4);
        } else if side == 3 {
            assert(s == 4 * j);
            assert(s % 16 == (j % 4) * 4 && s / 16 == j / 4);
        } else if side == 4 {
            assert(s == j % 4 + (j / 4) * 16);
        } else {
            assert(s == 12 + j % 4 + (j / 4) * 16);
        }
        assert(coord_x(s, 4, 4) == (s % 16) % 4);
        assert(coord_y(s, 4, 4) == (s % 16) / 4);
        assert(coord_z(s, 4, 4) == s / 16);
    }
    assert(-1 <= q.0 <= 4 && -1 <= q.1 <= 4 && -1 <= q.2 <= 4);
    lemma_block4_hash(q);
}

proof fn lemma_block4_hash(q: Quad)
    requires
        -1 <= q.0 <= 4,
        -1 <= q.1 <= 4,
        -1 <= q.2 <= 4,
    ensures
        hash_u32(q, 6, 6) == block4_hash(q),
        hash_i32(q, 6, 6) == block4_hash(q),
        0 <= block4_hash(q) < 216,
{
    assert(shifted_u32(q.0) == q.0 + 1);
    assert(shifted_u32(q.1) == q.1 + 1);
    assert(shifted_u32(q.2) == q.2 + 1);
    assert(as_i32(6) == 6);
}

/// The search from `start` for the coordinate of entry `k` finds `k` when
/// no entry in between has that coordinate.
proof fn lemma_first_match_is(t: Seq<Quad>, start: int, k: int)
    requires
        0 <= start <= k < t.len(),
        forall|i: int| start <= i < k ==> !same_coords(#[trigger] t[i], t[k]),
    ensures
        first_match_from(t, t[k], start) == k,
    decreases k - start,
{
    if start < k {
        lemma_first_match_is(t, start + 1, k);
    }
}

/// The last of the first `n` entries hashed to `hash_u32(t[k])` is `k` when
/// no later entry has that hash.
proof fn lemma_last_u32_writer(t: Seq<Quad>, xo: int, yo: int, k: int, n: int)
    requires
        0 <= k < n <= t.len(),
        forall|i: int|
            k < i < n ==> hash_u32(#[trigger] t[i], xo, yo) != hash_u32(t[k], xo, yo),
    ensures
        last_u32_writer(t, hash_u32(t[k], xo, yo), xo, yo, n) == Some(k),
    decreases n - k,
{
    if n - 1 > k {
        lemma_last_u32_writer(t, xo, yo, k, n - 1);
    }
}

/// The last of the first `n` entries hashed to `hash_i32(t[k])` is `k` when
/// no later entry has that hash.
proof fn lemma_last_i32_writer(t: Seq<Quad>, xo: int, yo: int, k: int, n: int)
    requires
        0 <= k < n <= t.len(),
        forall|i: int|
            k < i < n ==> hash_i32(#[trigger] t[i], xo, yo) != hash_i32(t[k], xo, yo),
    ensures
        last_i32_writer(t, hash_i32(t[k], xo, yo), xo, yo, n) == Some(k),
    decreases n - k,
{
    if n - 1 > k {
        lemma_last_i32_writer(t, xo, yo, k, n - 1);
    }
}

/// In the lookup tables of a 4x4x4 block (in a grid of any size), every
/// entry of the index table can be looked up by its coordinate: at the hash
/// `(x + 1) + (y + 1) * 6 + (z + 1) * 36` of the coordinate of the `k`th
/// entry, the offset mapping holds that entry's offset and the thread mapping
/// holds `k`.
pub proof fn lemma_block4_lookup(gx: int, gy: int, k: int)
    requires
        0 <= k < 160,
    ensures
        ({
            let t = fmm_table(4, 4, 4, gx, gy);
            let p = block4_hash(t[k]);
            &&& t.len() == 160
            &&& 0 <= p < padded_len(4, 4, 4)
            &&& mapping_cell(t, p, 6, 6) == t[k].3
            &&& thread_cell(t, p, 6, 6) == k
        }),
{
    let t = fmm_table(4, 4, 4, gx, gy);
    assert(interior_count(4, 4, 4) == 64);
    assert(t.len() == 160);
    lemma_block4_distinct(gx, gy);
    lemma_block4_entry(gx, gy, k);
    let p = block4_hash(t[k]);
    assert forall|i: int| k < i < 160 implies hash_u32(#[trigger] t[i], 6, 6) != p && hash_i32(
        t[i],
        6,
        6,
    ) != p by {
        lemma_block4_entry(gx, gy, i);
    }
    lemma_last_u32_writer(t, 6, 6, k, 160);
    lemma_last_i32_writer(t, 6, 6, k, 160);
    lemma_iter_match_distinct(t, k);
    lemma_first_match_is(t, 0, k);
}

/// Distinct entries of the table of a 4x4x4 block have distinct coordinates
/// and distinct hashes.
#[verifier::spinoff_prover]
proof fn lemma_block4_distinct(gx: int, gy: int)
    ensures
        ({
            let t = fmm_table(4, 4, 4, gx, gy);
            forall|i: int, j: int|
                0 <= i < 160 && 0 <= j < 160 && i != j ==> !same_coords(
                    #[trigger] t[i],
                    #[trigger] t[j],
                ) && block4_hash(t[i]) != block4_hash(t[j])
        }),
{
    let t = fmm_table(4, 4, 4, gx, gy);
    assert forall|i: int, j: int|
        0 <= i < 160 && 0 <= j < 160 && i != j implies !same_coords(
            #[trigger] t[i],
            #[trigger] t[j],
        ) && block4_hash(t[i]) != block4_hash(t[j]) by {
        lemma_block4_entry(gx, gy, i);
        lemma_block4_entry(gx, gy, j);
        lemma_base6(t[i], t[j]);
    }
}

/// Coordinates in `[-1, 4]` with the same hash are the same.
proof fn lemma_base6(a: Quad, b: Quad)
    requires
        -1 <= a.0 <= 4,
        -1 <= a.1 <= 4,
        -1 <= a.2 <= 4,
        -1 <= b.0 <= 4,
        -1 <= b.1 <= 4,
        -1 <= b.2 <= 4,
    ensures
        block4_hash(a) == block4_hash(b) <==> same_coords(a, b),
{
}

/// In a table whose entries have distinct coordinates, the search through
/// one iterator finds each entry itself.
proof fn lemma_iter_match_distinct(t: Seq<Quad>, m: int)
    requires
        0 <= m < t.len(),
        forall|i: int, j: int|
            0 <= i < t.len() && 0 <= j < t.len() && i != j ==> !same_coords(
                #[trigger] t[i],
                #[trigger] t[j],
            ),
    ensures
        iter_match(t, m) == m,
    decreases m,
{
    if m > 0 {
        lemma_iter_match_distinct(t, m - 1);
    }
    lemma_first_match_is(t, if m > 0 { m } else { 0 }, m);
}


/// The lookup tables of a 4x4x4 block are built without overflow in a grid
/// of at least one block each way whose cell count `64 * gx * gy` (per layer
/// of blocks) is at most `0x7FFF_FFD0` (so that every offset, up to
/// `64 * gx * gy - 16 + 63`, fits in `i32`): the conditions of
/// `create_fmm_index_table` and `create_hash_table` hold.
pub proof fn lemma_block4_tables_ok(gx: int, gy: int)
    requires
        1 <= gx,
        1 <= gy,
        64 * gx * gy <= 0x7FFF_FFD0,
    ensures
        fmm_table_ok(4, 4, 4, gx, gy),
        hash_table_ok(4, 4, 4, gx, gy),
{
    assert(gx <= gx * gy && 64 * gx <= 64 * gx * gy) by (nonlinear_arith)
        requires 1 <= gx, 1 <= gy;
    assert(64 * gx * gy >= 64) by (nonlinear_arith)
        requires 1 <= gx, 1 <= gy;
    assert(4 * 4 * 4 * gx * gy == 64 * gx * gy) by (nonlinear_arith);
    assert(4 * 4 * 4 * gx == 64 * gx);
    let oz = offset_z(4, 4, 4, gx, gy);
    let oy = offset_y(4, 4, 4, gx);
    let ox = offset_x(4, 4, 4);
    assert(oz == 64 * gx * gy - 16);
    assert(oy == 64 * gx - 12);
    assert(ox == 61);
    assert forall|side: int, j: int| 0 <= side < 6 && 0 <= j < 4 * 4 implies #[trigger] ghost_ok(
        side,
        j,
        4,
        4,
        oz,
        oy,
        ox,
    ) by {
        let s = ghost_source(side, j, 4, 4);
        assert(0 <= s < 64) by {
            if side == 4 || side == 5 {
                assert(0 <= j / 4 < 4);
            }
        }
        assert(0 <= coord_x(s, 4, 4) < 4);
        assert(0 <= coord_y(s, 4, 4) < 4);
        assert(0 <= coord_z(s, 4, 4) < 4);
        assert(as_i32(coord_x(s, 4, 4)) == coord_x(s, 4, 4));
        assert(as_i32(coord_y(s, 4, 4)) == coord_y(s, 4, 4));
        assert(as_i32(coord_z(s, 4, 4)) == coord_z(s, 4, 4));
        assert(0 <= ghost_label(side, j, 4, 4) < 64);
        assert(as_i32(ghost_label(side, j, 4, 4)) == ghost_label(side, j, 4, 4));
    }
    assert(fmm_table_ok(4, 4, 4, gx, gy));
    let t = fmm_table(4, 4, 4, gx, gy);
    assert(interior_count(4, 4, 4) == 64);
    assert forall|k: int| 0 <= k < t.len() implies hash_u32_ok(#[trigger] t[k], 6, 6, 216)
        && hash_i32_ok(t[k], 6, 6, 216) by {
        lemma_block4_entry(gx, gy, k);
        let q = t[k];
        assert(shifted_u32(q.0) == q.0 + 1);
        assert(shifted_u32(q.1) == q.1 + 1);
        assert(shifted_u32(q.2) == q.2 + 1);
        assert(as_i32(6) == 6);
    }
    assert(padded_len(4, 4, 4) == 216);
}


/// The entries of the index table of a 4x4x4 block in a grid of `gx * gy * _`
/// blocks, in closed form. Entry `k < 64` is block cell `k` at
/// `(k % 4, (k / 4) % 4, k / 16)` with offset `k`. Then come six faces of 16
/// ghost cells each, the `j`th at `(j % 4, j / 4)` across the face, with the
/// offset of the neighbouring block's cell: below (`z = -1`), above
/// (`z = 4`), right (`x = 4`), left (`x = -1`), in front (`y = -1`) and
/// behind (`y = 4`).
pub open spec fn block4_entry(k: int, gx: int, gy: int) -> Quad {
    let (layer, row) = (64 * gx * gy - 16, 64 * gx - 12);
    if k < 64 {
        (k % 4, (k / 4) % 4, k / 16, k)
    } else {
        let side = (k - 64) / 16;
        let j = (k - 64) % 16;
        let (a, b) = (j % 4, j / 4);
        if side == 0 {
            (a, b, -1, j - layer)
        } else if side == 1 {
            (a, b, 4, layer + 48 + j)
        } else if side == 2 {
            (4, a, b, 61 + 4 * j + 3)
        } else if side == 3 {
            (-1, a, b, 4 * j - 61)
        } else if side == 4 {
            (a, -1, b, a + 16 * b - row)
        } else {
            (a, 4, b, row + 12 + a + 16 * b)
        }
    }
}

/// The index table of a 4x4x4 block has 160 entries, given in closed form by
/// `block4_entry`, in a grid of `gx * gy * _` blocks as in
/// `lemma_block4_tables_ok`.
pub proof fn lemma_block4_table(gx: int, gy: int, k: int)
    requires
        1 <= gx,
        1 <= gy,
        64 * gx * gy <= 0x7FFF_FFD0,
        0 <= k < 160,
    ensures
        fmm_table(4, 4, 4, gx, gy).len() == 160,
        fmm_table(4, 4, 4, gx, gy)[k] == block4_entry(k, gx, gy),
{
    assert(gx <= gx * gy && 64 * gx <= 64 * gx * gy) by (nonlinear_arith)
        requires 1 <= gx, 1 <= gy;
    assert(64 * gx * gy >= 64) by (nonlinear_arith)
        requires 1 <= gx, 1 <= gy;
    assert(4 * 4 * 4 * gx * gy == 64 * gx * gy) by (nonlinear_arith);
    assert(4 * 4 * 4 * gx == 64 * gx);
    assert(interior_count(4, 4, 4) == 64);
    assert(offset_z(4, 4, 4, gx, gy) == 64 * gx * gy - 16);
    assert(offset_y(4, 4, 4, gx) == 64 * gx - 12);
    assert(offset_x(4, 4, 4) == 61);
    let q = fmm_table(4, 4, 4, gx, gy)[k];
    assert(q == fmm_entry(k, 4, 4, 4, gx, gy));
    if k < 64 {
        assert(coord_x(k, 4, 4) == k % 4);
        assert(coord_y(k, 4, 4) == (k / 4) % 4);
        assert(coord_z(k, 4, 4) == k / 16);
    } else {
        let g = k - 64;
        let side = g / 16;
        let j = g % 16;
        assert(4 * 4 == 16);
        let s = ghost_source(side, j, 4, 4);
        if side == 0 {
            assert(s == j);
        } else if side == 1 {
            assert(s == j + 48);
        } else if side == 2 {
            assert(s == j * 4 + 3);
            assert(s % 16 == (j % 4) * 4 + 3 && s / 16 == j / 4);
        } else if side == 3 {
            assert(s == 4 * j);
            assert(s % 16 == (j % 4) * 4 && s / 16 == j / 4);
        } else if side == 4 {
            assert(s == j % 4 + (j / 4) * 16);
        } else {
            assert(s == 12 + j % 4 + (j / 4) * 16);
        }
        assert(0 <= s < 64);
        assert(coord_x(s, 4, 4) == (s % 16) % 4);
        assert(coord_y(s, 4, 4) == (s % 16) / 4);
        assert(coord_z(s, 4, 4) == s / 16);
        assert(as_i32(coord_x(s, 4, 4)) == coord_x(s, 4, 4));
        assert(as_i32(coord_y(s, 4, 4)) == coord_y(s, 4, 4));
        assert(as_i32(coord_z(s, 4, 4)) == coord_z(s, 4, 4));
        assert(0 <= ghost_label(side, j, 4, 4) < 64);
        assert(as_i32(ghost_label(side, j, 4, 4)) == ghost_label(side, j, 4, 4));
    }
}

} // verus!
