//! The GPU objects of wgpu that the library carries, and the device and
//! queue calls that it makes.
//!
//! A GPU object is a handle to state kept by the GPU driver. Beside each
//! handle the library keeps, as plain values, what it handed to wgpu when
//! the object was made: a buffer's size, usage and the words the library
//! wrote into it; a bind group layout's entries; a bind group's bindings.
//! The wgpu calls below panic (through wgpu's default error handler) on the
//! inputs that wgpu's validation refuses, and each wrapper's `requires`
//! leaves those inputs out. Some of wgpu's checks compare with the limits
//! the device was requested with: a `GpuDevice` reads them from the device
//! once, and the conditions below are stated over them. Running out of GPU
//! memory, or a lost device, also ends in a panic; nothing here rules that
//! out. Nor does anything here carry which device made an object: a bind
//! group is taken to be made, on one device, of a layout and buffers made on
//! that device.

use vstd::prelude::*;
use wgpu::util::DeviceExt;

verus! {

#[verifier::external_type_specification]
#[verifier::external_body]
pub struct ExDevice(wgpu::Device);

#[verifier::external_type_specification]
#[verifier::external_body]
pub struct ExQueue(wgpu::Queue);

#[verifier::external_type_specification]
#[verifier::external_body]
pub struct ExBuffer(wgpu::Buffer);

#[verifier::external_type_specification]
#[verifier::external_body]
pub struct ExBindGroup(wgpu::BindGroup);

#[verifier::external_type_specification]
#[verifier::external_body]
pub struct ExBindGroupLayout(wgpu::BindGroupLayout);

#[verifier::external_type_specification]
#[verifier::external_body]
pub struct ExRenderPipeline(wgpu::RenderPipeline);

#[verifier::external_type_specification]
#[verifier::external_body]
pub struct ExComputePipeline(wgpu::ComputePipeline);

#[verifier::external_type_specification]
#[verifier::external_body]
pub struct ExBindingType(wgpu::BindingType);

#[verifier::external_type_specification]
#[verifier::external_body]
pub struct ExTextureSampleType(wgpu::TextureSampleType);

#[verifier::external_type_specification]
#[verifier::external_body]
pub struct ExTextureViewDimension(wgpu::TextureViewDimension);

/// The buffer usage bits of wgpu: mapped for reading.
pub const MAP_READ: u32 = 1;

/// The buffer usage bits of wgpu: mapped for writing.
pub const MAP_WRITE: u32 = 2;

/// The buffer usage bits of wgpu: source of a copy.
pub const COPY_SRC: u32 = 4;

/// The buffer usage bits of wgpu: destination of a copy.
pub const COPY_DST: u32 = 8;

/// The buffer usage bits of wgpu: index buffer.
pub const INDEX: u32 = 16;

/// The buffer usage bits of wgpu: vertex buffer.
pub const VERTEX: u32 = 32;

/// The buffer usage bits of wgpu: uniform buffer.
pub const UNIFORM: u32 = 64;

/// The buffer usage bits of wgpu: storage buffer.
pub const STORAGE: u32 = 128;

/// The buffer usage bits of wgpu: indirect draw arguments.
pub const INDIRECT: u32 = 256;

/// The shader stage bits of wgpu: the vertex stage.
pub const VERTEX_STAGE: u32 = 1;

/// The shader stage bits of wgpu: the fragment stage.
pub const FRAGMENT_STAGE: u32 = 2;

/// The shader stage bits of wgpu: the compute stage.
pub const COMPUTE_STAGE: u32 = 4;

/// The usage flags `usage` has all the bits of `bits`.
pub open spec fn has_usage(usage: u32, bits: u32) -> bool {
    usage & bits == bits
}

/// wgpu accepts a buffer of the usage flags whose bits are `usage` (bits
/// that name no flag are dropped): some flag is set, and a mappable buffer
/// is either mapped for writing and copied from, or mapped for reading and
/// copied to.
pub open spec fn usage_ok(usage: u32) -> bool {
    let u = usage & 0x1ff;
    &&& u != 0
    &&& (u & 3 != 0 ==> (u | 6 == 6 || u | 9 == 9))
}

/// A GPU buffer of `u32` words, with the size and usage it was made with and
/// the words the library has written into it.
pub struct GpuBuffer {
    buffer: wgpu::Buffer,
    size: u64,
    usage: u32,
    words: Ghost<Seq<u32>>,
}

impl GpuBuffer {
    /// The size is that of the words.
    #[verifier::type_invariant]
    spec fn well_formed(self) -> bool {
        self.size == 4 * self.words@.len()
    }

    /// The wgpu buffer.
    pub closed spec fn handle(self) -> wgpu::Buffer {
        self.buffer
    }

    /// The size of the buffer in bytes.
    pub closed spec fn size(self) -> u64 {
        self.size
    }

    /// The usage bits the buffer was made with.
    pub closed spec fn usage(self) -> u32 {
        self.usage
    }

    /// The words the library has put in the buffer: those it was made with,
    /// overwritten by the writes made since through `queue_write_buffer_u32`.
    /// Writes by shaders on the GPU are not seen here.
    pub closed spec fn words(self) -> Seq<u32> {
        self.words@
    }

    /// The wgpu buffer.
    pub fn raw(&self) -> (r: &wgpu::Buffer)
        ensures
            *r == self.handle(),
    {
        &self.buffer
    }

    /// The size of the buffer in bytes: four per word.
    pub fn size_in_bytes(&self) -> (r: u64)
        ensures
            r == self.size(),
            r == 4 * self.words().len(),
    {
        proof {
            use_type_invariant(self);
        }
        self.size
    }

    /// The usage bits the buffer was made with.
    pub fn usage_bits(&self) -> (r: u32)
        ensures
            r == self.usage(),
    {
        self.usage
    }
}

/// Calls `wgpu::util::DeviceExt::create_buffer_init` with no label, the
/// bytes of `contents` (through `bytemuck::cast_slice`) and the usage flags
/// whose bits are `usage`. wgpu makes a buffer of `4 * contents.len()` bytes
/// (a multiple of its copy alignment of 4 bytes, so no padding is added)
/// holding `contents`. wgpu refuses, and panics on, a usage that
/// `usage_ok` rules out.
#[verifier::external_body]
fn device_create_buffer_init_u32(device: &GpuDevice, contents: &[u32], usage: u32, size: u64) -> (r:
    GpuBuffer)
    requires
        usage_ok(usage),
        size == 4 * contents@.len(),
    ensures
        r.size() == size,
        r.usage() == usage,
        r.words() == contents@,
{
    GpuBuffer {
        buffer: device.device.create_buffer_init(
            &wgpu::util::BufferInitDescriptor {
                label: None,
                contents: bytemuck::cast_slice(contents),
                usage: wgpu::BufferUsage::from_bits_truncate(usage),
            },
        ),
        size: size,
        usage: usage,
        words: Ghost(contents@),
    }
}

impl GpuBuffer {
    /// A new buffer of usage `usage` holding `contents`.
    pub fn init_u32(device: &GpuDevice, contents: &[u32], usage: u32) -> (r: Self)
        requires
            usage_ok(usage),
            4 * contents@.len() <= u64::MAX,
        ensures
            r.size() == 4 * contents@.len(),
            r.usage() == usage,
            r.words() == contents@,
    {
        let size = 4 * contents.len() as u64;
        device_create_buffer_init_u32(device, contents, usage, size)
    }
}


/// The words `words` with `data` written over them from word `start` on.
pub open spec fn write_words(words: Seq<u32>, start: int, data: Seq<u32>) -> Seq<u32> {
    words.subrange(0, start) + data + words.subrange(start + data.len(), words.len() as int)
}

/// wgpu accepts a write of `len` words at byte `offset` of `buffer`: an
/// empty write is ignored; otherwise the offset is a multiple of 4, the
/// write ends within the buffer, and the buffer was made as a copy
/// destination.
pub open spec fn write_ok(buffer: GpuBuffer, offset: u64, len: int) -> bool {
    len > 0 ==> {
        &&& offset % 4 == 0
        &&& offset + 4 * len <= buffer.size()
        &&& has_usage(buffer.usage(), COPY_DST)
    }
}

/// Calls `wgpu::Queue::write_buffer` with the bytes of `data` (through
/// `bytemuck::cast_slice`) at byte `offset` of the buffer. wgpu ignores an
/// empty write, refuses (and panics on) the others that `write_ok` rules
/// out, and otherwise queues the write of those bytes: the buffer's words
/// from word `offset / 4` on become `data`.
#[verifier::external_body]
pub(crate) fn queue_write_buffer_u32(
    queue: &wgpu::Queue,
    buffer: &mut GpuBuffer,
    offset: u64,
    data: &[u32],
)
    requires
        write_ok(*old(buffer), offset, data@.len() as int),
    ensures
        final(buffer).handle() == old(buffer).handle(),
        final(buffer).size() == old(buffer).size(),
        final(buffer).usage() == old(buffer).usage(),
        final(buffer).words() == if data@.len() == 0 {
            old(buffer).words()
        } else {
            write_words(old(buffer).words(), (offset / 4) as int, data@)
        },
{
    queue.write_buffer(&buffer.buffer, offset, bytemuck::cast_slice(data))
}

/// The sample type of a texture binding (wgpu's `TextureSampleType`).
#[derive(Clone, Copy, Debug, PartialEq, Eq, Structural)]
pub enum SampleType {
    Float { filterable: bool },
    Depth,
    Sint,
    Uint,
}

/// The view dimension of a texture binding (wgpu's `TextureViewDimension`).
#[derive(Clone, Copy, Debug, PartialEq, Eq, Structural)]
pub enum ViewDimension {
    D1,
    D2,
    D2Array,
    Cube,
    CubeArray,
    D3,
}

/// What a bind group layout entry binds: a uniform or storage buffer (whole,
/// without dynamic offset or minimum size), a sampled texture, or a sampler.
#[derive(Clone, Copy, Debug, PartialEq, Eq, Structural)]
pub enum EntryKind {
    Uniform,
    Storage { read_only: bool },
    Texture { sample_type: SampleType, view_dimension: ViewDimension, multisampled: bool },
    Sampler { filtering: bool, comparison: bool },
}

/// A bind group layout entry: its binding number, the shader stages (bits:
/// vertex 1, fragment 2, compute 4) that see it, and what it binds. It has
/// no array count.
#[derive(Clone, Copy, Debug, PartialEq, Eq, Structural)]
pub struct LayoutEntry {
    pub binding: u32,
    pub visibility: u32,
    pub kind: EntryKind,
}

/// The entry binds a buffer.
pub open spec fn binds_buffer(entry: LayoutEntry) -> bool {
    entry.kind is Uniform || entry.kind is Storage
}

/// The limits of a device that its bind group layouts and bind groups are
/// held to (fields of wgpu's `Limits`).
#[derive(Clone, Copy, Debug, PartialEq, Eq, Structural)]
pub struct DeviceLimits {
    pub max_sampled_textures_per_shader_stage: u32,
    pub max_samplers_per_shader_stage: u32,
    pub max_storage_buffers_per_shader_stage: u32,
    pub max_uniform_buffers_per_shader_stage: u32,
    pub max_uniform_buffer_binding_size: u32,
    pub max_storage_buffer_binding_size: u32,
}

/// Calls `wgpu::Device::limits`, the limits the device was requested with,
/// and keeps the fields of `DeviceLimits`. They are the device's state, of
/// which nothing is stated here; they do not change over the device's life.
#[verifier::external_body]
fn read_device_limits(device: &wgpu::Device) -> DeviceLimits {
    let l = device.limits();
    DeviceLimits {
        max_sampled_textures_per_shader_stage: l.max_sampled_textures_per_shader_stage,
        max_samplers_per_shader_stage: l.max_samplers_per_shader_stage,
        max_storage_buffers_per_shader_stage: l.max_storage_buffers_per_shader_stage,
        max_uniform_buffers_per_shader_stage: l.max_uniform_buffers_per_shader_stage,
        max_uniform_buffer_binding_size: l.max_uniform_buffer_binding_size,
        max_storage_buffer_binding_size: l.max_storage_buffer_binding_size,
    }
}

/// A GPU device with the limits it was requested with.
pub struct GpuDevice {
    device: wgpu::Device,
    limits: DeviceLimits,
}

impl GpuDevice {
    /// The wgpu device.
    pub closed spec fn handle(self) -> wgpu::Device {
        self.device
    }

    /// The device's limits, as wgpu reported them when the device was taken.
    pub closed spec fn device_limits(self) -> DeviceLimits {
        self.limits
    }

    /// Takes `device`, reading its limits once.
    pub fn new(device: wgpu::Device) -> (r: Self)
        ensures
            r.handle() == device,
    {
        let limits = read_device_limits(&device);
        GpuDevice { device, limits }
    }

    /// The wgpu device.
    pub fn raw(&self) -> (r: &wgpu::Device)
        ensures
            *r == self.handle(),
    {
        &self.device
    }

    /// The device's limits.
    pub fn limits(&self) -> (r: DeviceLimits)
        ensures
            r == self.device_limits(),
    {
        self.limits
    }
}

/// The kinds of binding that wgpu counts against a per-stage limit.
#[derive(Clone, Copy, Debug, PartialEq, Eq, Structural)]
pub enum BindingClass {
    UniformBuffer,
    StorageBuffer,
    SampledTexture,
    Sampler,
}

/// The class an entry is counted in.
pub open spec fn class_of(kind: EntryKind) -> BindingClass {
    match kind {
        EntryKind::Uniform => BindingClass::UniformBuffer,
        EntryKind::Storage { .. } => BindingClass::StorageBuffer,
        EntryKind::Texture { .. } => BindingClass::SampledTexture,
        EntryKind::Sampler { .. } => BindingClass::Sampler,
    }
}

/// The device's limit on the bindings of class `class` per shader stage.
pub open spec fn class_limit(limits: DeviceLimits, class: BindingClass) -> int {
    match class {
        BindingClass::UniformBuffer => limits.max_uniform_buffers_per_shader_stage as int,
        BindingClass::StorageBuffer => limits.max_storage_buffers_per_shader_stage as int,
        BindingClass::SampledTexture => limits.max_sampled_textures_per_shader_stage as int,
        BindingClass::Sampler => limits.max_samplers_per_shader_stage as int,
    }
}

/// The visibility bits hold shader stage `stage` (0 vertex, 1 fragment,
/// 2 compute).
pub open spec fn sees_stage(visibility: u32, stage: int) -> bool {
    if stage == 0 {
        visibility % 2 == 1
    } else if stage == 1 {
        (visibility / 2) % 2 == 1
    } else {
        (visibility / 4) % 2 == 1
    }
}

/// The number of entries of class `class` seen by shader stage `stage`.
pub open spec fn stage_count(entries: Seq<LayoutEntry>, stage: int, class: BindingClass) -> int
    decreases entries.len(),
{
    if entries.len() == 0 {
        0
    } else {
        let e = entries.last();
        stage_count(entries.drop_last(), stage, class) + if sees_stage(e.visibility, stage)
            && class_of(e.kind) == class {
            1int
        } else {
            0
        }
    }
}

/// No shader stage sees more bindings of class `class` than the device
/// allows.
pub open spec fn class_within_limit(limits: DeviceLimits, entries: Seq<LayoutEntry>, class: BindingClass) -> bool {
    &&& stage_count(entries, 0, class) <= class_limit(limits, class)
    &&& stage_count(entries, 1, class) <= class_limit(limits, class)
    &&& stage_count(entries, 2, class) <= class_limit(limits, class)
}

/// wgpu accepts, on a device of limits `limits`, a bind group layout of
/// `entries`: binding numbers are distinct, no writable storage buffer is
/// seen by the vertex stage (that takes a device feature), and no shader
/// stage sees more uniform buffers, storage buffers, sampled textures or
/// samplers than the device allows.
pub open spec fn layout_ok(limits: DeviceLimits, entries: Seq<LayoutEntry>) -> bool {
    &&& forall|i: int, j: int|
        0 <= i < j < entries.len() ==> #[trigger] entries[i].binding != #[trigger] entries[j].binding
    &&& forall|i: int|
        0 <= i < entries.len() ==> !(#[trigger] entries[i].kind == (EntryKind::Storage {
            read_only: false,
        }) && sees_stage(entries[i].visibility, 0))
    &&& class_within_limit(limits, entries, BindingClass::UniformBuffer)
    &&& class_within_limit(limits, entries, BindingClass::StorageBuffer)
    &&& class_within_limit(limits, entries, BindingClass::SampledTexture)
    &&& class_within_limit(limits, entries, BindingClass::Sampler)
}

/// A bind group layout, with the entries it was made from.
pub struct GpuBindGroupLayout {
    layout: wgpu::BindGroupLayout,
    entries: Vec<LayoutEntry>,
}

impl GpuBindGroupLayout {
    /// The wgpu bind group layout.
    pub closed spec fn handle(self) -> wgpu::BindGroupLayout {
        self.layout
    }

    /// The entries the layout was made from.
    pub closed spec fn entries(self) -> Seq<LayoutEntry> {
        self.entries@
    }

    /// The wgpu bind group layout.
    pub fn raw(&self) -> (r: &wgpu::BindGroupLayout)
        ensures
            *r == self.handle(),
    {
        &self.layout
    }
}

/// wgpu's sample type for `t` (one variant for one).
#[verifier::external_body]
fn sample_type_of(t: SampleType) -> wgpu::TextureSampleType {
    match t {
        SampleType::Float { filterable } => wgpu::TextureSampleType::Float { filterable },
        SampleType::Depth => wgpu::TextureSampleType::Depth,
        SampleType::Sint => wgpu::TextureSampleType::Sint,
        SampleType::Uint => wgpu::TextureSampleType::Uint,
    }
}

/// wgpu's view dimension for `d` (one variant for one).
#[verifier::external_body]
fn view_dimension_of(d: ViewDimension) -> wgpu::TextureViewDimension {
    match d {
        ViewDimension::D1 => wgpu::TextureViewDimension::D1,
        ViewDimension::D2 => wgpu::TextureViewDimension::D2,
        ViewDimension::D2Array => wgpu::TextureViewDimension::D2Array,
        ViewDimension::Cube => wgpu::TextureViewDimension::Cube,
        ViewDimension::CubeArray => wgpu::TextureViewDimension::CubeArray,
        ViewDimension::D3 => wgpu::TextureViewDimension::D3,
    }
}

/// wgpu's binding type for `k` (one variant for one; a buffer has no dynamic
/// offset and no minimum size).
#[verifier::external_body]
fn binding_type_of(k: EntryKind) -> wgpu::BindingType {
    let (no_offset, no_min) = (false, None);
    match k {
        EntryKind::Uniform => wgpu::BindingType::Buffer { ty: wgpu::BufferBindingType::Uniform, has_dynamic_offset: no_offset, min_binding_size: no_min },
        EntryKind::Storage { read_only } => wgpu::BindingType::Buffer { ty: wgpu::BufferBindingType::Storage { read_only }, has_dynamic_offset: no_offset, min_binding_size: no_min },
        EntryKind::Texture { sample_type, view_dimension, multisampled } => wgpu::BindingType::Texture { sample_type: sample_type_of(sample_type), view_dimension: view_dimension_of(view_dimension), multisampled },
        EntryKind::Sampler { filtering, comparison } => wgpu::BindingType::Sampler { filtering, comparison },
    }
}

/// Calls `wgpu::Device::create_bind_group_layout` with no label and one
/// wgpu entry per entry of `entries`: the same binding number, the shader
/// stages of its visibility bits, its binding type, and no count. wgpu
/// refuses (and panics on) the layouts that `layout_ok` rules out for the
/// device's limits.
#[verifier::external_body]
pub(crate) fn device_create_bind_group_layout(
    device: &GpuDevice,
    entries: &Vec<LayoutEntry>,
) -> (r: GpuBindGroupLayout)
    requires
        layout_ok(device.device_limits(), entries@),
    ensures
        r.entries() == entries@,
{
    let raw: Vec<wgpu::BindGroupLayoutEntry> = entries.iter().map(|e| wgpu::BindGroupLayoutEntry {
        binding: e.binding,
        visibility: wgpu::ShaderStage::from_bits_truncate(e.visibility),
        ty: binding_type_of(e.kind),
        count: None,
    }).collect();
    let desc = wgpu::BindGroupLayoutDescriptor { entries: raw.as_slice(), label: None };
    GpuBindGroupLayout { layout: device.device.create_bind_group_layout(&desc), entries: entries.clone() }
}

/// A bind group, with the layout entries it was made for and, per entry, the
/// binding number and the buffer bound there.
pub struct GpuBindGroup {
    group: wgpu::BindGroup,
    entries: Vec<LayoutEntry>,
    bound: Ghost<Seq<(u32, wgpu::Buffer)>>,
}

impl GpuBindGroup {
    /// The wgpu bind group.
    pub closed spec fn handle(self) -> wgpu::BindGroup {
        self.group
    }

    /// The layout entries of the layout the group was made with.
    pub closed spec fn layout_entries(self) -> Seq<LayoutEntry> {
        self.entries@
    }

    /// The binding number and the buffer of each binding of the group.
    pub closed spec fn bindings(self) -> Seq<(u32, wgpu::Buffer)> {
        self.bound@
    }

    /// The wgpu bind group.
    pub fn raw(&self) -> (r: &wgpu::BindGroup)
        ensures
            *r == self.handle(),
    {
        &self.group
    }
}

/// The buffer `buffer` may be bound to the buffer entry `entry` on a device
/// of limits `limits`: it was made for the entry's kind of binding, is not
/// empty, and fits the device's binding size limit of that kind.
pub open spec fn buffer_fits(limits: DeviceLimits, entry: LayoutEntry, buffer: GpuBuffer) -> bool {
    &&& buffer.size() > 0
    &&& match entry.kind {
        EntryKind::Uniform => has_usage(buffer.usage(), UNIFORM) && buffer.size()
            <= limits.max_uniform_buffer_binding_size,
        EntryKind::Storage { .. } => has_usage(buffer.usage(), STORAGE) && buffer.size()
            <= limits.max_storage_buffer_binding_size,
        _ => false,
    }
}

/// The entry only reads its buffer.
pub open spec fn read_only_entry(entry: LayoutEntry) -> bool {
    entry.kind != (EntryKind::Storage { read_only: false })
}

/// wgpu accepts, on a device of limits `limits`, a bind group of the layout
/// of `entries` that binds, for each `j`, buffer `buffers[j].1` at binding
/// `buffers[j].0`: binding `j` is that of the `j`th layout entry, each entry
/// binds a buffer and the buffer fits it, and a buffer bound twice is only
/// read. (Texture and sampler entries are not bound here.)
pub open spec fn bind_group_ok(
    limits: DeviceLimits,
    entries: Seq<LayoutEntry>,
    buffers: Seq<(u32, &GpuBuffer)>,
) -> bool {
    &&& buffers.len() == entries.len()
    &&& forall|j: int|
        0 <= j < entries.len() ==> #[trigger] buffers[j].0 == entries[j].binding && buffer_fits(
            limits,
            entries[j],
            *buffers[j].1,
        )
    &&& forall|j: int, k: int|
        0 <= j < k < entries.len() && (#[trigger] buffers[j].1).handle() == (
        #[trigger] buffers[k].1).handle() ==> read_only_entry(entries[j]) && read_only_entry(
            entries[k],
        )
}

/// The bindings of a bind group of `buffers`: each binding number with the
/// wgpu buffer bound there.
pub open spec fn bound_buffers(buffers: Seq<(u32, &GpuBuffer)>) -> Seq<(u32, wgpu::Buffer)> {
    Seq::new(buffers.len(), |j: int| (buffers[j].0, buffers[j].1.handle()))
}

/// Calls `wgpu::Device::create_bind_group` with no label, the layout, and
/// one entry per `(binding, buffer)` pair: the whole buffer
/// (`Buffer::as_entire_binding`) at that binding. wgpu refuses (and panics
/// on) the bind groups that `bind_group_ok` rules out for the device's
/// limits.
#[verifier::external_body]
pub(crate) fn device_create_bind_group(
    device: &GpuDevice,
    layout: &GpuBindGroupLayout,
    buffers: &Vec<(u32, &GpuBuffer)>,
) -> (r: GpuBindGroup)
    requires
        bind_group_ok(device.device_limits(), layout.entries(), buffers@),
    ensures
        r.layout_entries() == layout.entries(),
        r.bindings() == bound_buffers(buffers@),
{
    let raw: Vec<wgpu::BindGroupEntry> = buffers.iter().map(
        |(binding, buffer)| wgpu::BindGroupEntry { binding: *binding, resource: buffer.buffer.as_entire_binding() },
    ).collect();
    let group = device.device.create_bind_group(
        &wgpu::BindGroupDescriptor { label: None, layout: &layout.layout, entries: raw.as_slice() },
    );
    GpuBindGroup { group, entries: layout.entries.clone(), bound: Ghost(bound_buffers(buffers@)) }
}

} // verus!
