use vstd::prelude::*;

verus! {

/// A framebuffer side as the GPU surface takes it: at least one pixel.
pub open spec fn surface_side(side: i32) -> u32 {
    if side < 1 {
        1
    } else {
        side as u32
    }
}

/// A side of at least one pixel is kept as it is, and only a smaller one is
/// raised to one pixel.
pub proof fn lemma_surface_side_keeps_real_sides(side: i32)
    ensures
        side >= 1 ==> surface_side(side) == side,
        side < 1 ==> surface_side(side) == 1,
{
}

/// The surface size for a framebuffer of `dim.0` by `dim.1` pixels, as the
/// window system reports it: each side raised to at least one pixel, since
/// a minimised window reports zero.
pub fn surface_dim(dim: (i32, i32)) -> (d: (u32, u32))
    ensures
        d == (surface_side(dim.0), surface_side(dim.1)),
        d.0 >= 1 && d.1 >= 1,
        dim.0 >= 1 ==> d.0 == dim.0,
        dim.0 < 1 ==> d.0 == 1,
        dim.1 >= 1 ==> d.1 == dim.1,
        dim.1 < 1 ==> d.1 == 1,
{
    let w: u32 = if dim.0 < 1 {
        1
    } else {
        dim.0 as u32
    };
    let h: u32 = if dim.1 < 1 {
        1
    } else {
        dim.1 as u32
    };
    (w, h)
}

} // verus!

verus! {

/// The index of the format to render to, given for each format the surface
/// supports whether it is sRGB: the first sRGB one, else the first one.
pub fn preferred_format(is_srgb: &Vec<bool>) -> (i: usize)
    requires
        is_srgb.len() > 0,
    ensures
        i < is_srgb.len(),
        is_srgb@.contains(true) ==> is_srgb[i as int] && forall|j: int| 0 <= j < i ==> !is_srgb[j],
        !is_srgb@.contains(true) ==> i == 0,
{
    let n = is_srgb.len();
    let mut i: usize = 0;
    while i < n
        invariant
            n == is_srgb.len(),
            i <= n,
            forall|j: int| 0 <= j < i ==> !is_srgb[j],
        decreases n - i,
    {
        if is_srgb[i] {
            return i;
        }
        i = i + 1;
    }
    proof {
        if is_srgb@.contains(true) {
            let j = choose|j: int| 0 <= j < n && is_srgb@[j] == true;
            assert(!is_srgb[j]);
        }
    }
    0
}

} // verus!
