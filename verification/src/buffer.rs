//! What one draw call from a vertex buffer needs.

use vstd::prelude::*;

verus! {

/// A struct that holds information for one draw call: the vertex buffer by
/// name, an optional index buffer, the vertex range and the instance count.
#[allow(dead_code)]
pub struct VertexBufferInfo {
    vertex_buffer_name: String,
    _index_buffer: Option<String>,
    start_index: u32,
    end_index: u32,
    instances: u32,
}

} // verus!
