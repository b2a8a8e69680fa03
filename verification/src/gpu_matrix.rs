use vstd::prelude::*;

verus! {

/// Converts a value on the CPU side into the raw layout that the GPU reads.
pub trait IntoGPUMatrix {
    type RAW;

    fn into_gmat(&self) -> Self::RAW;
}

/// A 4x4 matrix, entry `(r, c)` at `rows[r][c]`.
#[derive(Debug)]
pub struct Matrix4<T> {
    pub rows: [[T; 4]; 4],
}

impl<T: Copy> IntoGPUMatrix for Matrix4<T> {
    type RAW = [[T; 4]; 4];

    /// The matrix in column-major order: column `c` of the matrix is array
    /// `c`, so that entry `(r, c)` lands at `[c][r]`.
    fn into_gmat(&self) -> (raw: [[T; 4]; 4])
        ensures
            forall|c: int, r: int| 0 <= c < 4 && 0 <= r < 4 ==> #[trigger] raw@[c]@[r] == self.rows@[r]@[c],
    {
        let m = &self.rows;
        let raw = [
            [m[0][0], m[1][0], m[2][0], m[3][0]],
            [m[0][1], m[1][1], m[2][1], m[3][1]],
            [m[0][2], m[1][2], m[2][2], m[3][2]],
            [m[0][3], m[1][3], m[2][3], m[3][3]],
        ];
        raw
    }
}

} // verus!
