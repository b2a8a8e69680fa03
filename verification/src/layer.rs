use vstd::prelude::*;

verus! {

/// The layer a quad is drawn on; later layers are drawn over earlier ones.
#[derive(Clone, Copy, Debug)]
#[allow(non_camel_case_types)]
pub enum RenderLayer {
    CLEAR,
    TOP,
}

impl RenderLayer {
    /// Number of layers.
    pub const COUNT: usize = 2;

    /// The layer's number, counted from the back.
    pub open spec fn number(self) -> u8 {
        match self {
            RenderLayer::CLEAR => 0,
            RenderLayer::TOP => 1,
        }
    }

    /// The layer's number, counted from the back: the value of its `u8`
    /// representation.
    pub fn as_u8(self) -> (n: u8)
        ensures
            n == self.number(),
            (n as usize) < Self::COUNT,
    {
        match self {
            RenderLayer::CLEAR => 0,
            RenderLayer::TOP => 1,
        }
    }
}

} // verus!
