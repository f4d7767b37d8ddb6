//! Descriptions of the resources and draw calls of render passes.

use vstd::prelude::*;

verus! {

/// A struct that holds information for one draw call: the vertex buffer by
/// name, an optional index buffer, the vertex range and the instance count.
#[allow(dead_code)]
pub struct VertexBufferInfo {
    vertex_buffer_name: String,
    _index_buffer: Option<String>,
    start_index: u32,
    end_index: u32,
    instances: u32,
}

/// A resource bound to a pipeline, by name.
pub enum Resource {
    TextureView(&'static str),
    TextureSampler(&'static str),
    Buffer(&'static str),
}

} // verus!
