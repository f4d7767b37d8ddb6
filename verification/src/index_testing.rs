//! A dense 3D array addressed by `(x, y, z)` coordinates.

use vstd::prelude::*;
use crate::index_tables::{coord_x, coord_y, coord_z, linear_index, index_to_uvec3};

verus! {

/// A 3D array of `dimension.0 * dimension.1 * dimension.2` cells stored
/// row by row (x fastest), layer by layer.
pub struct Array3D<T> {
    array: Vec<T>,
    dimension: (u32, u32, u32),
}

impl<T> Array3D<T> {
    #[verifier::type_invariant]
    spec fn well_formed(self) -> bool {
        &&& self.array@.len() == self.dimension.0 * self.dimension.1 * self.dimension.2
        &&& self.dimension.0 * self.dimension.1 * self.dimension.2 <= u32::MAX
    }

    /// The array's dimensions.
    pub closed spec fn dims(self) -> (int, int, int) {
        (self.dimension.0 as int, self.dimension.1 as int, self.dimension.2 as int)
    }

    /// The array's cells in storage order.
    pub closed spec fn cells(self) -> Seq<T> {
        self.array@
    }

    /// The number of cells of the array.
    pub open spec fn size(self) -> int {
        self.dims().0 * self.dims().1 * self.dims().2
    }
}

impl<T: Copy> Array3D<T> {

    /// An `x * y * z` array whose cells all hold `default_value`.
    pub fn init(x: u32, y: u32, z: u32, default_value: T) -> (r: Self)
        requires
            x * y <= u32::MAX,
            x * y * z <= u32::MAX,
        ensures
            r.dims() == (x as int, y as int, z as int),
            r.cells() == Seq::new((x * y * z) as nat, |i: int| default_value),
    {
        let n = x * y * z;
        let mut array: Vec<T> = Vec::new();
        let mut i: u32 = 0;
        while i < n
            invariant
                i <= n,
                array@ == Seq::new(i as nat, |k: int| default_value),
            decreases n - i,
        {
            array.push(default_value);
            i = i + 1;
        }
        assert(array@ =~= Seq::new((x * y * z) as nat, |k: int| default_value));
        Self { array, dimension: (x, y, z) }
    }

    /// The storage index of cell `(x, y, z)`, which must lie in the array.
    pub fn get_index(&self, x: u32, y: u32, z: u32) -> (r: u32)
        requires
            x < self.dims().0,
            y < self.dims().1,
            z < self.dims().2,
        ensures
            r == linear_index(x as int, y as int, z as int, self.dims().0, self.dims().1),
            r < self.size(),
    {
        proof {
            use_type_invariant(self);
            let (d0, d1, d2) = self.dims();
            assert(x + y * d0 + z * d0 * d1 < d0 * d1 * d2) by (nonlinear_arith)
                requires x < d0, y < d1, z < d2, x >= 0, y >= 0, z >= 0;
            assert(y * d0 <= d0 * d1) by (nonlinear_arith)
                requires y < d1, y >= 0, d0 >= 0;
            assert(z * d0 * d1 <= d0 * d1 * d2) by (nonlinear_arith)
                requires z < d2, z >= 0, d0 >= 0, d1 >= 0;
            assert(d0 * d1 <= d0 * d1 * d2) by (nonlinear_arith)
                requires z < d2, d0 >= 0, d1 >= 0;
            assert(z * d0 <= z * d0 * d1) by (nonlinear_arith)
                requires y < d1, y >= 0, z >= 0, d0 >= 0;
        }
        let result = x + y * self.dimension.0 + z * self.dimension.0 * self.dimension.1;
        result
    }

    /// The coordinate `(x, y, z)` of storage index `index`, which must lie in
    /// the array: the inverse of `get_index`.
    pub fn get_3d_index(&self, index: u32) -> (r: (u32, u32, u32))
        requires
            index < self.size(),
        ensures
            r.0 == coord_x(index as int, self.dims().0, self.dims().1),
            r.1 == coord_y(index as int, self.dims().0, self.dims().1),
            r.2 == coord_z(index as int, self.dims().0, self.dims().1),
    {
        proof {
            use_type_invariant(self);
            let (d0, d1, d2) = self.dims();
            assert(d0 * d1 > 0) by (nonlinear_arith)
                requires index < d0 * d1 * d2, index >= 0, d0 >= 0, d1 >= 0, d2 >= 0;
            assert(d0 * d1 <= d0 * d1 * d2) by (nonlinear_arith)
                requires index < d0 * d1 * d2, index >= 0, d0 >= 0, d1 >= 0, d2 >= 0;
        }
        let c = index_to_uvec3(index, self.dimension.0, self.dimension.1);
        (c[0], c[1], c[2])
    }
}

/// Reading back the storage index of a cell gives the cell's coordinate:
/// `get_3d_index(get_index(x, y, z)) == (x, y, z)`.
pub proof fn lemma_get_3d_index_of_get_index<T>(a: Array3D<T>, x: int, y: int, z: int)
    requires
        0 <= x < a.dims().0,
        0 <= y < a.dims().1,
        0 <= z < a.dims().2,
    ensures
        ({
            let (d0, d1) = (a.dims().0, a.dims().1);
            let index = linear_index(x, y, z, d0, d1);
            (coord_x(index, d0, d1), coord_y(index, d0, d1), coord_z(index, d0, d1)) == (x, y, z)
        }),
{
    crate::index_tables::lemma_index_split(x, y, z, a.dims().0, a.dims().1);
}

} // verus!
