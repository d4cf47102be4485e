use vstd::prelude::*;

verus! {

/// One of the two sides.
#[derive(Debug, Copy, Clone, PartialEq, Eq, Structural)]
pub enum Color {
    White,
    Black,
}

impl Color {
    /// The other side.
    pub open spec fn spec_inverse(self) -> Color {
        match self {
            Color::White => Color::Black,
            Color::Black => Color::White,
        }
    }

    /// Returns the opposing side.
    #[verifier::when_used_as_spec(spec_inverse)]
    pub fn inverse(self) -> (r: Self)
        ensures
            r == self.spec_inverse(),
    {
        match self {
            Color::White => Color::Black,
            Color::Black => Color::White,
        }
    }
}

} // verus!
