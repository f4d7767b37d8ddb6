//! Index tables, index arithmetic, input state tracking and small helpers of
//! a wgpu based compute/render engine for the fast marching method.

pub mod index_tables;
pub mod index_testing;
pub mod misc;
pub mod input;
pub mod gpu;
pub mod render_pipelines;
pub mod render_shaders;
pub mod compute;
pub mod buffer;
pub mod pipeline;
pub mod texture;
pub mod wgpu_system;
pub mod fmm;
