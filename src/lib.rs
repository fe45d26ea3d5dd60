//! A software triangle rasterization pipeline on 16.16 fixed-point numbers:
//! vertex transformation, triangle assembly, back-face culling, perspective
//! divide, depth testing and a scanline rasterizer with perspective-correct
//! attribute interpolation.
pub mod gpu;
pub mod graphics;
pub mod pipeline;
pub mod shaders;
pub mod shapes;
pub mod types;

pub use gpu::{Gpu, ZBuffer};
pub use graphics::draw_triangle;
pub use pipeline::Pipeline;
pub use shaders::geometry_shader::{DefaultGeometryShader, GeometryShader};
pub use shaders::mesh_shader::DefaultMeshShader;
pub use shaders::pixel_shader::{ColorBlend, PixelShader, Texture, Textured};
pub use shaders::vertex_shader::{DefaultVertexShader, Transforms, VertexShader};
pub use shapes::{cube, plane};
pub use types::{
    Color, Fragment, IndexedTriangle, Mat4, RawPoint, Triangle, TriangleEdge, TriangleVertex, Vec3,
    Vec4,
};
