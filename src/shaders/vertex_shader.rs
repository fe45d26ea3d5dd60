use crate::types::{transform, Mat4, RawPoint, TriangleVertex, Vec4, ONE};
use vstd::prelude::*;

verus! {

/// The transforms bound before a frame: model to world, world to camera,
/// camera to clip space.
#[derive(Clone, Copy, Debug)]
pub struct Transforms {
    pub model: Mat4,
    pub view: Mat4,
    pub projection: Mat4,
}

impl Transforms {
    pub open spec fn wf(self) -> bool {
        self.model.wf() && self.view.wf() && self.projection.wf()
    }
}

/// A model-space point carried to clip space: `projection * view * model`
/// applied to it in homogeneous form, one matrix at a time.
pub open spec fn clip_position(t: Transforms, p: Vec4) -> Vec4 {
    transform(t.projection, transform(t.view, transform(t.model, p)))
}

/// Maps one raw vertex to one shaded vertex.
pub trait VertexShader {
    /// The shaded vertex for `vertex` under `transforms`.
    spec fn shade(&self, transforms: Transforms, vertex: RawPoint) -> TriangleVertex;

    fn run(&self, transforms: &Transforms, vertex: &RawPoint) -> (r: TriangleVertex)
        requires
            transforms.wf(),
            vertex.wf(),
        ensures
            r == self.shade(*transforms, *vertex),
            r.wf(),
    ;
}

/// Transforms the position and passes the attribute channels through.
pub struct DefaultVertexShader;

impl VertexShader for DefaultVertexShader {
    open spec fn shade(&self, transforms: Transforms, vertex: RawPoint) -> TriangleVertex {
        TriangleVertex {
            position: clip_position(
                transforms,
                Vec4 { x: vertex.position.x, y: vertex.position.y, z: vertex.position.z, w: ONE },
            ),
            parameters: vertex.parameters,
        }
    }

    fn run(&self, transforms: &Transforms, vertex: &RawPoint) -> (r: TriangleVertex) {
        let p = Vec4 { x: vertex.position.x, y: vertex.position.y, z: vertex.position.z, w: ONE };
        let world = transforms.model.mul_vec(&p);
        let camera = transforms.view.mul_vec(&world);
        let clip = transforms.projection.mul_vec(&camera);
        TriangleVertex { position: clip, parameters: vertex.parameters }
    }
}

} // verus!
