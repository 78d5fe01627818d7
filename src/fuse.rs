use vstd::prelude::*;

verus! {

/// A one-way latch: once blown it stays blown.
#[derive(Debug)]
pub struct Fuse {
    blown: bool,
}

impl Fuse {
    /// Whether the latch has been tripped.
    pub closed spec fn is_blown(&self) -> bool {
        self.blown
    }

    /// A fuse that has not been tripped.
    pub fn new() -> (r: Fuse)
        ensures
            !r.is_blown(),
    {
        Fuse { blown: false }
    }

    /// Trips the latch; there is no way back.
    pub fn blow(&mut self)
        ensures
            final(self).is_blown(),
    {
        self.blown = true;
    }

    /// Reports whether the latch has been tripped.
    pub fn blown(&self) -> (r: bool)
        ensures
            r == self.is_blown(),
    {
        self.blown
    }
}

} // verus!
