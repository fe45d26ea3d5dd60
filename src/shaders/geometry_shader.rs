use crate::types::Triangle;
use vstd::prelude::*;

verus! {

/// Maps one assembled triangle to one triangle.
pub trait GeometryShader {
    /// The triangle that `triangle` becomes.
    spec fn apply(&self, triangle: Triangle) -> Triangle;

    fn run(&self, triangle: Triangle) -> (r: Triangle)
        requires
            triangle.wf(),
        ensures
            r == self.apply(triangle),
            r.wf(),
    ;
}

/// Passes triangles through unchanged.
pub struct DefaultGeometryShader;

impl GeometryShader for DefaultGeometryShader {
    open spec fn apply(&self, triangle: Triangle) -> Triangle {
        triangle
    }

    fn run(&self, triangle: Triangle) -> (r: Triangle) {
        triangle
    }
}

} // verus!
