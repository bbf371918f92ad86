//! Depths and heights of the search tree.
use vstd::prelude::*;

verus! {

/// A [`Depth`] with half the size.
#[derive(Clone, Copy, Debug, PartialEq, Eq, Structural)]
pub struct CompressedDepth(pub u8);

/// The difference between the leaf node and the current node.
#[derive(Clone, Copy, Debug, PartialEq, Eq, Structural)]
pub struct Depth(pub i16);

/// The difference between the root node and the current node.
#[derive(Clone, Copy, Debug, PartialEq, Eq, Structural)]
pub struct Height(pub u8);

impl Depth {
    /// The maximum depth permissible.
    pub const MAX: i16 = 255;

    /// Converts the depth to a usize.
    pub fn to_index(self) -> (index: usize)
        requires
            self.0 >= 0,
        ensures
            index == self.0,
    {
        self.0 as usize
    }

    /// Converts a [`CompressedDepth`] into a [`Depth`].
    pub fn from_compressed(depth: CompressedDepth) -> (result: Self)
        ensures
            result.0 == depth.0,
    {
        Self(depth.0 as i16)
    }

    /// Converts the depth into a [`CompressedDepth`], for depths from 0 to
    /// [`Depth::MAX`].
    pub fn compress(self) -> (result: CompressedDepth)
        requires
            0 <= self.0 <= Depth::MAX,
        ensures
            result.0 == self.0,
    {
        CompressedDepth(self.0 as u8)
    }
}

impl Height {
    /// Checks if the height has reached [`Depth::MAX`].
    pub fn is_maximum(self) -> (is_max: bool)
        ensures
            is_max == (self.0 == Depth::MAX),
    {
        self.0 as i16 == Depth::MAX
    }

    /// Converts the height to a usize.
    pub fn to_index(self) -> (index: usize)
        ensures
            index == self.0,
    {
        self.0 as usize
    }
}

} // verus!
