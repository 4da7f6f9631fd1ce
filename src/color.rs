use vstd::prelude::*;

verus! {

/// An RGBA color whose channels are of type `T`.
#[derive(Debug, Copy, Clone, PartialEq, Eq)]
pub struct Color<T> {
    pub r: T,
    pub g: T,
    pub b: T,
    pub a: T,
}

/// A color with 8-bit channels, as stored in an 8-bit image.
pub type ColorU8 = Color<u8>;

impl<T: Copy> Color<T> {
    /// A color from its four channels.
    pub fn rgba(r: T, g: T, b: T, a: T) -> (c: Self)
        ensures
            c.r == r,
            c.g == g,
            c.b == b,
            c.a == a,
    {
        Color { r, g, b, a }
    }

    /// The channels in the order red, green, blue, alpha.
    pub fn to_array(self) -> (c: [T; 4])
        ensures
            c@ == seq![self.r, self.g, self.b, self.a],
    {
        let c = [self.r, self.g, self.b, self.a];
        assert(c@ =~= seq![self.r, self.g, self.b, self.a]);
        c
    }
}

} // verus!
