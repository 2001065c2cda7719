//! Narrow-phase collision of convex shapes. The geometry is the caller's, in
//! whatever number type it likes; here are the decisions: how the simplex of
//! the intersection test grows and shrinks and when the test is over, and how
//! the polytope of the penetration search grows and when it gives up.

pub mod epa;
pub mod gjk;
