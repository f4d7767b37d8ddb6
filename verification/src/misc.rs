//! Small helpers: colour packing, sample counts and vertex buffer layouts.

use vstd::prelude::*;

verus! {

/// The `u32` that `encode_rgba_u32` packs the four channels into:
/// `r` in the highest byte, then `g`, `b` and `a` in the lowest.
pub open spec fn rgba_value(r: u8, g: u8, b: u8, a: u8) -> int {
    r * 0x100_0000 + g * 0x1_0000 + b * 0x100 + a
}

/// Packs the four colour channels into one `u32`, `r` in the highest byte and
/// `a` in the lowest: `vec4(x, y, z, w) => xxyyzzww`.
pub fn encode_rgba_u32(r: u8, g: u8, b: u8, a: u8) -> (c: u32)
    ensures
        c == rgba_value(r, g, b, a),
{
    let c = ((r as u32) << 24) | ((g as u32) << 16) | ((b as u32) << 8) | a as u32;
    assert(c == ((r as u32) << 24) | ((g as u32) << 16) | ((b as u32) << 8) | a as u32);
    assert(((r as u32) << 24) | ((g as u32) << 16) | ((b as u32) << 8) | a as u32
        == r as u32 * 0x100_0000 + g as u32 * 0x1_0000 + b as u32 * 0x100 + a as u32) by (bit_vector);
    c
}

/// Each channel can be read back from the packed colour: shifting it down and
/// keeping the lowest byte gives `r`, `g`, `b` and `a` again.
pub proof fn lemma_rgba_channels(r: u8, g: u8, b: u8, a: u8, c: u32)
    requires
        c == rgba_value(r, g, b, a),
    ensures
        (c >> 24) & 0xff == r as u32,
        (c >> 16) & 0xff == g as u32,
        (c >> 8) & 0xff == b as u32,
        c & 0xff == a as u32,
{
    let (r32, g32, b32, a32) = (r as u32, g as u32, b as u32, a as u32);
    assert(c == r32 * 0x100_0000 + g32 * 0x1_0000 + b32 * 0x100 + a32);
    assert(r32 < 0x100 && g32 < 0x100 && b32 < 0x100 && a32 < 0x100);
    assert((c >> 24) & 0xff == r32 && (c >> 16) & 0xff == g32 && (c >> 8) & 0xff == b32 && c
        & 0xff == a32) by (bit_vector)
        requires
            c == r32 * 0x100_0000 + g32 * 0x1_0000 + b32 * 0x100 + a32,
            r32 < 0x100,
            g32 < 0x100,
            b32 < 0x100,
            a32 < 0x100,
    ;
}

/// The sample counts that a render target may have.
pub open spec fn legal_sample_count(sample_count: u32) -> bool {
    sample_count == 1 || sample_count == 2 || sample_count == 4 || sample_count == 8
        || sample_count == 16
}

/// Whether a render target with `sample_count` samples per pixel is
/// multisampled; the count must be 1, 2, 4, 8 or 16.
pub fn multisampled(sample_count: u32) -> (r: bool)
    requires
        legal_sample_count(sample_count),
    ensures
        r == (sample_count != 1),
{
    match sample_count {
        1 => false,
        2 => true,
        4 => true,
        8 => true,
        _ => true,
    }
}

/// The format of one vertex attribute: component type and count.
#[derive(Clone, Copy, Debug, PartialEq, Eq, Structural)]
pub enum VertexFormat {
    Uint8x2,
    Uint8x4,
    Sint8x2,
    Sint8x4,
    Unorm8x2,
    Unorm8x4,
    Snorm8x2,
    Snorm8x4,
    Uint16x2,
    Uint16x4,
    Sint16x2,
    Sint16x4,
    Unorm16x2,
    Unorm16x4,
    Snorm16x2,
    Snorm16x4,
    Float16x2,
    Float16x4,
    Float32,
    Float32x2,
    Float32x3,
    Float32x4,
    Uint32,
    Uint32x2,
    Uint32x3,
    Uint32x4,
    Sint32,
    Sint32x2,
    Sint32x3,
    Sint32x4,
    Float64,
    Float64x2,
    Float64x3,
    Float64x4,
}

/// The formats whose size `create_vb_descriptor` knows: all but the half and
/// double precision ones.
pub open spec fn format_supported(f: VertexFormat) -> bool {
    match f {
        VertexFormat::Float16x2 | VertexFormat::Float16x4 | VertexFormat::Float64
        | VertexFormat::Float64x2 | VertexFormat::Float64x3 | VertexFormat::Float64x4 => false,
        _ => true,
    }
}

/// The size in bytes of one attribute of a supported format.
pub open spec fn format_size(f: VertexFormat) -> int {
    match f {
        VertexFormat::Uint8x2 | VertexFormat::Sint8x2 | VertexFormat::Unorm8x2
        | VertexFormat::Snorm8x2 => 2,
        VertexFormat::Uint8x4 | VertexFormat::Sint8x4 | VertexFormat::Unorm8x4
        | VertexFormat::Snorm8x4 => 4,
        VertexFormat::Uint16x2 | VertexFormat::Sint16x2 | VertexFormat::Unorm16x2
        | VertexFormat::Snorm16x2 => 4,
        VertexFormat::Uint16x4 | VertexFormat::Sint16x4 | VertexFormat::Unorm16x4
        | VertexFormat::Snorm16x4 => 8,
        VertexFormat::Float32 | VertexFormat::Uint32 | VertexFormat::Sint32 => 4,
        VertexFormat::Float32x2 | VertexFormat::Uint32x2 | VertexFormat::Sint32x2 => 8,
        VertexFormat::Float32x3 | VertexFormat::Uint32x3 | VertexFormat::Sint32x3 => 12,
        VertexFormat::Float32x4 | VertexFormat::Uint32x4 | VertexFormat::Sint32x4 => 16,
        _ => 0,
    }
}

/// The total size of attributes of the formats `s`, one after the other.
pub open spec fn formats_size(s: Seq<VertexFormat>) -> int
    decreases s.len(),
{
    if s.len() == 0 {
        0
    } else {
        formats_size(s.drop_last()) + format_size(s.last())
    }
}

/// One attribute of a vertex buffer layout.
#[derive(Clone, Copy, Debug, PartialEq, Eq, Structural)]
pub struct VertexAttribute {
    pub format: VertexFormat,
    pub offset: u64,
    pub shader_location: u32,
}

/// The size in bytes of one attribute of format `format`.
fn vertex_format_size(format: VertexFormat) -> (size: u64)
    requires
        format_supported(format),
    ensures
        size == format_size(format),
{
    match format {
        VertexFormat::Uint8x2 => 2,
        VertexFormat::Uint8x4 => 4,
        VertexFormat::Sint8x2 => 2,
        VertexFormat::Sint8x4 => 4,
        VertexFormat::Unorm8x2 => 2,
        VertexFormat::Unorm8x4 => 4,
        VertexFormat::Snorm8x2 => 2,
        VertexFormat::Snorm8x4 => 4,
        VertexFormat::Uint16x2 => 4,
        VertexFormat::Uint16x4 => 8,
        VertexFormat::Sint16x2 => 4,
        VertexFormat::Sint16x4 => 8,
        VertexFormat::Unorm16x2 => 4,
        VertexFormat::Unorm16x4 => 8,
        VertexFormat::Snorm16x2 => 4,
        VertexFormat::Snorm16x4 => 8,
        VertexFormat::Float32 => 4,
        VertexFormat::Float32x2 => 8,
        VertexFormat::Float32x3 => 12,
        VertexFormat::Float32x4 => 16,
        VertexFormat::Uint32 => 4,
        VertexFormat::Uint32x2 => 8,
        VertexFormat::Uint32x3 => 12,
        VertexFormat::Uint32x4 => 16,
        VertexFormat::Sint32 => 4,
        VertexFormat::Sint32x2 => 8,
        VertexFormat::Sint32x3 => 12,
        _ => 16,
    }
}

proof fn lemma_formats_size_prefix(s: Seq<VertexFormat>, i: int)
    requires
        0 <= i < s.len(),
    ensures
        formats_size(s.take(i + 1)) == formats_size(s.take(i)) + format_size(s[i]),
{
    assert(s.take(i + 1).drop_last() =~= s.take(i));
}

proof fn lemma_formats_size_monotone(s: Seq<VertexFormat>, i: int, j: int)
    requires
        0 <= i <= j <= s.len(),
    ensures
        formats_size(s.take(i)) <= formats_size(s.take(j)),
    decreases j - i,
{
    if i < j {
        lemma_formats_size_monotone(s, i, j - 1);
        lemma_formats_size_prefix(s, j - 1);
    }
}

/// The vertex buffer layout of attributes of the formats `formats`, laid out
/// one after the other: returns the stride (the total size) and, for the
/// `i`th format, an attribute at shader location `i` whose offset is the size
/// of the formats before it.
pub fn create_vb_descriptor(formats: &Vec<VertexFormat>) -> (r: (u64, Vec<VertexAttribute>))
    requires
        forall|i: int| 0 <= i < formats@.len() ==> format_supported(#[trigger] formats@[i]),
        formats_size(formats@) <= u64::MAX,
    ensures
        r.0 == formats_size(formats@),
        r.1@.len() == formats@.len(),
        forall|i: int|
            0 <= i < formats@.len() ==> #[trigger] r.1@[i] == (VertexAttribute {
                format: formats@[i],
                offset: formats_size(formats@.take(i)) as u64,
                shader_location: i as u32,
            }),
{
    let mut attribute_descriptors: Vec<VertexAttribute> = Vec::new();
    let mut stride: u64 = 0;
    let mut i: usize = 0;
    while i < formats.len()
        invariant
            i <= formats@.len(),
            forall|k: int| 0 <= k < formats@.len() ==> format_supported(#[trigger] formats@[k]),
            formats_size(formats@) <= u64::MAX,
            stride == formats_size(formats@.take(i as int)),
            attribute_descriptors@.len() == i,
            forall|k: int|
                0 <= k < i ==> #[trigger] attribute_descriptors@[k] == (VertexAttribute {
                    format: formats@[k],
                    offset: formats_size(formats@.take(k)) as u64,
                    shader_location: k as u32,
                }),
        decreases formats@.len() - i,
    {
        let format = formats[i];
        let size = vertex_format_size(format);
        proof {
            lemma_formats_size_prefix(formats@, i as int);
            lemma_formats_size_monotone(formats@, i + 1, formats@.len() as int);
            assert(formats@.take(formats@.len() as int) =~= formats@);
        }
        attribute_descriptors.push(
            VertexAttribute { format: format, offset: stride, shader_location: i as u32 },
        );
        stride = stride + size;
        i = i + 1;
    }
    assert(formats@.take(formats@.len() as int) =~= formats@);
    (stride, attribute_descriptors)
}


/// The number of components of an attribute of format `f`.
pub open spec fn component_count(f: VertexFormat) -> int {
    match f {
        VertexFormat::Float32 | VertexFormat::Uint32 | VertexFormat::Sint32
        | VertexFormat::Float64 => 1,
        VertexFormat::Uint8x2 | VertexFormat::Sint8x2 | VertexFormat::Unorm8x2
        | VertexFormat::Snorm8x2 | VertexFormat::Uint16x2 | VertexFormat::Sint16x2
        | VertexFormat::Unorm16x2 | VertexFormat::Snorm16x2 | VertexFormat::Float16x2
        | VertexFormat::Float32x2 | VertexFormat::Uint32x2 | VertexFormat::Sint32x2
        | VertexFormat::Float64x2 => 2,
        VertexFormat::Float32x3 | VertexFormat::Uint32x3 | VertexFormat::Sint32x3
        | VertexFormat::Float64x3 => 3,
        _ => 4,
    }
}

/// The width in bytes of one component of an attribute of format `f`.
pub open spec fn component_width(f: VertexFormat) -> int {
    match f {
        VertexFormat::Uint8x2 | VertexFormat::Uint8x4 | VertexFormat::Sint8x2
        | VertexFormat::Sint8x4 | VertexFormat::Unorm8x2 | VertexFormat::Unorm8x4
        | VertexFormat::Snorm8x2 | VertexFormat::Snorm8x4 => 1,
        VertexFormat::Uint16x2 | VertexFormat::Uint16x4 | VertexFormat::Sint16x2
        | VertexFormat::Sint16x4 | VertexFormat::Unorm16x2 | VertexFormat::Unorm16x4
        | VertexFormat::Snorm16x2 | VertexFormat::Snorm16x4 | VertexFormat::Float16x2
        | VertexFormat::Float16x4 => 2,
        VertexFormat::Float64 | VertexFormat::Float64x2 | VertexFormat::Float64x3
        | VertexFormat::Float64x4 => 8,
        _ => 4,
    }
}

/// The total size of the components of attributes of the formats `s`.
pub open spec fn components_size(s: Seq<VertexFormat>) -> int
    decreases s.len(),
{
    if s.len() == 0 {
        0
    } else {
        components_size(s.drop_last()) + component_count(s.last()) * component_width(s.last())
    }
}

/// An attribute of a supported format takes its component count times its
/// component width in bytes.
pub proof fn lemma_format_size_components(f: VertexFormat)
    requires
        format_supported(f),
    ensures
        format_size(f) == component_count(f) * component_width(f),
{
}

/// The vertex buffer layout of supported formats packs their components:
/// the stride is the sum of component count times component width over the
/// formats, and attribute `i` starts after the components of the formats
/// before it.
pub proof fn lemma_vb_layout_packs_components(formats: Seq<VertexFormat>, i: int)
    requires
        forall|k: int| 0 <= k < formats.len() ==> format_supported(#[trigger] formats[k]),
        0 <= i <= formats.len(),
    ensures
        formats_size(formats) == components_size(formats),
        formats_size(formats.take(i)) == components_size(formats.take(i)),
    decreases formats.len(),
{
    if formats.len() > 0 {
        let d = formats.drop_last();
        assert forall|k: int| 0 <= k < d.len() implies format_supported(#[trigger] d[k]) by {
            assert(d[k] == formats[k]);
        }
        lemma_format_size_components(formats.last());
        if i < formats.len() {
            assert(d.take(i) =~= formats.take(i));
            lemma_vb_layout_packs_components(d, i);
        } else {
            lemma_vb_layout_packs_components(d, 0);
            assert(formats.take(i) =~= formats);
        }
    }
}

} // verus!
