//! Boundary conditions of a boundary value problem in one dimension.
use vstd::prelude::*;

verus! {

/// Dirichlet boundary conditions: `left_bc` is the value that the solution
/// takes at the left end of the domain, `right_bc` the value at the right
/// end.
#[derive(Debug)]
pub struct BoundaryConditions<T> {
    pub left_bc: T,
    pub right_bc: T,
}

impl<T: Copy> Clone for BoundaryConditions<T> {
    fn clone(&self) -> (copy: Self)
        ensures
            copy == *self,
    {
        BoundaryConditions { left_bc: self.left_bc, right_bc: self.right_bc }
    }
}

impl<T> BoundaryConditions<T> {
    /// Dirichlet boundary conditions with the value `left_bc` at the left
    /// end and `right_bc` at the right end.
    pub fn new_dirichlet_bcs(left_bc: T, right_bc: T) -> (conditions: Self)
        ensures
            conditions.left_bc == left_bc,
            conditions.right_bc == right_bc,
    {
        BoundaryConditions { left_bc, right_bc }
    }
}

} // verus!
