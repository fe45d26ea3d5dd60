//! The programmable stages of the pipeline.
pub mod geometry_shader;
pub mod mesh_shader;
pub mod pixel_shader;
pub mod vertex_shader;
