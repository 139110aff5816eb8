//! Simulation parameters: exact probabilities and the error kinds.

use vstd::prelude::*;

verus! {

/// An error raised while setting a simulation up. Once a simulation runs,
/// every per-cell transition is a probabilistic outcome, never an error.
#[derive(Clone, Copy, PartialEq, Eq, Structural, Debug)]
pub enum FireError {
    /// A probability outside [0, 1], or a grid of size zero.
    InvalidParameter,
    /// No tree to ignite anywhere in the grid.
    NoFuelAvailable,
}

/// A probability in [0, 1], held exactly as the ratio num / den.
#[derive(Clone, Copy, PartialEq, Eq, Structural, Debug)]
pub struct Prob {
    pub(crate) num: u32,
    pub(crate) den: u32,
}

impl Prob {
    /// The numerator of the ratio.
    pub closed spec fn num(&self) -> int {
        self.num as int
    }

    /// The denominator of the ratio.
    pub closed spec fn den(&self) -> int {
        self.den as int
    }

    /// A valid probability: a ratio of at most 1 with a positive denominator.
    /// Every value built by `Prob::new` satisfies this.
    pub open spec fn valid(&self) -> bool {
        0 < self.den() && self.num() <= self.den()
    }

    /// The probability 0: a trial never succeeds.
    pub open spec fn is_never(&self) -> bool {
        self.num() == 0
    }

    /// The probability 1: a trial always succeeds.
    pub open spec fn is_always(&self) -> bool {
        self.num() == self.den()
    }

    /// Read the numerator of the ratio.
    pub fn num_val(&self) -> (n: u32)
        ensures
            n as int == self.num(),
    {
        self.num
    }

    /// Read the denominator of the ratio.
    pub fn den_val(&self) -> (d: u32)
        ensures
            d as int == self.den(),
    {
        self.den
    }

    /// Build the probability num / den, rejecting a ratio above 1 or a zero
    /// denominator as `InvalidParameter`.
    pub fn new(num: u32, den: u32) -> (r: Result<Prob, FireError>)
        ensures
            r is Ok <==> (0 < den && num <= den),
            r matches Ok(p) ==> p.valid() && p.num() == num && p.den() == den,
            r is Err ==> r == Err::<Prob, FireError>(FireError::InvalidParameter),
    {
        if den > 0 && num <= den {
            Ok(Prob { num, den })
        } else {
            Err(FireError::InvalidParameter)
        }
    }
}

} // verus!
