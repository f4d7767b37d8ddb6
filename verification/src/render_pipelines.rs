//! Bind group layouts and bind groups built from layout entries and binding
//! resources.

use vstd::prelude::*;
use crate::gpu::{
    bound_buffers, buffer_fits, device_create_bind_group, device_create_bind_group_layout, layout_ok,
    read_only_entry, stage_count, DeviceLimits, EntryKind, SampleType, ViewDimension, GpuBindGroup, GpuBindGroupLayout, GpuBuffer, GpuDevice, LayoutEntry,
};

verus! {

/// The number of groups among `groups` that have at least one entry.
pub open spec fn nonempty_groups<T>(groups: Seq<Vec<T>>) -> int
    decreases groups.len(),
{
    if groups.len() == 0 {
        0
    } else {
        nonempty_groups(groups.drop_last()) + if groups.last()@.len() > 0 {
            1int
        } else {
            0
        }
    }
}

/// Creates one bind group layout per group of layout entries, in order:
/// layout `i` is made from group `i`.
pub fn create_bind_group_layouts(
    device: &GpuDevice,
    layout_entries: &Vec<Vec<LayoutEntry>>,
) -> (r: Vec<GpuBindGroupLayout>)
    requires
        forall|i: int| 0 <= i < layout_entries@.len() ==> layout_ok(device.device_limits(), #[trigger] layout_entries@[i]@),
    ensures
        r@.len() == layout_entries@.len(),
        forall|i: int| 0 <= i < r@.len() ==> (#[trigger] r@[i]).entries() == layout_entries@[i]@,
{
    let mut bind_group_layouts: Vec<GpuBindGroupLayout> = Vec::new();
    let mut i: usize = 0;
    while i < layout_entries.len()
        invariant
            i <= layout_entries@.len(),
            bind_group_layouts@.len() == i,
            forall|k: int| 0 <= k < layout_entries@.len() ==> layout_ok(device.device_limits(), #[trigger] layout_entries@[k]@),
            forall|k: int|
                0 <= k < i ==> (#[trigger] bind_group_layouts@[k]).entries() == layout_entries@[k]@,
        decreases layout_entries@.len() - i,
    {
        bind_group_layouts.push(device_create_bind_group_layout(device, &layout_entries[i]));
        i = i + 1;
    }
    bind_group_layouts
}

/// The bind group of group `entries` that binds the `j`th entry, at binding
/// `j`, to the whole of buffer `buffers[j]`: its layout entries and its
/// bindings.
pub open spec fn group_model(entries: Seq<LayoutEntry>, buffers: Seq<&GpuBuffer>) -> (
    Seq<LayoutEntry>,
    Seq<(u32, wgpu::Buffer)>,
) {
    (entries, Seq::new(entries.len(), |j: int| (j as u32, buffers[j].handle())))
}

/// The bind groups that `create_bind_groups` makes: one per group that has
/// entries, in order.
pub open spec fn groups_model(groups: Seq<Vec<LayoutEntry>>, buffers: Seq<Vec<&GpuBuffer>>) -> Seq<
    (Seq<LayoutEntry>, Seq<(u32, wgpu::Buffer)>),
>
    decreases groups.len(),
{
    if groups.len() == 0 {
        Seq::empty()
    } else {
        let before = groups_model(groups.drop_last(), buffers);
        if groups.last()@.len() > 0 {
            before.push(group_model(groups.last()@, buffers[groups.len() - 1]@))
        } else {
            before
        }
    }
}

/// The binding numbers of group `entries` are `0, 1, ...`, and the `j`th
/// buffer fits the `j`th entry, buffers bound twice being only read.
pub open spec fn group_bindable(
    limits: DeviceLimits,
    entries: Seq<LayoutEntry>,
    buffers: Seq<&GpuBuffer>,
) -> bool {
    &&& buffers.len() >= entries.len()
    &&& forall|j: int|
        0 <= j < entries.len() ==> (#[trigger] entries[j]).binding == j && buffer_fits(
            limits,
            entries[j],
            *buffers[j],
        )
    &&& forall|j: int, k: int|
        0 <= j < k < entries.len() && (#[trigger] buffers[j]).handle() == (
        #[trigger] buffers[k]).handle() ==> read_only_entry(entries[j]) && read_only_entry(
            entries[k],
        )
}

/// Creates one bind group per group of layout entries that has entries: the
/// `j`th entry of group `i` is bound at binding `j` to the whole of buffer
/// `bindings[i][j]`, with a layout made from group `i`. A group without
/// entries gets no bind group. The layouts of all groups are made (and must
/// be valid) for each group.
pub fn create_bind_groups(
    device: &GpuDevice,
    entry_layouts: &Vec<Vec<LayoutEntry>>,
    bindings: &Vec<Vec<&GpuBuffer>>,
) -> (r: Vec<GpuBindGroup>)
    requires
        bindings@.len() >= entry_layouts@.len(),
        forall|i: int| 0 <= i < entry_layouts@.len() ==> layout_ok(device.device_limits(), #[trigger] entry_layouts@[i]@),
        forall|i: int|
            0 <= i < entry_layouts@.len() ==> group_bindable(
                device.device_limits(),
                #[trigger] entry_layouts@[i]@,
                bindings@[i]@,
            ),
    ensures
        r@.len() == nonempty_groups(entry_layouts@),
        r@.len() == groups_model(entry_layouts@, bindings@).len(),
        forall|k: int|
            0 <= k < r@.len() ==> ((#[trigger] r@[k]).layout_entries(), r@[k].bindings())
                == groups_model(entry_layouts@, bindings@)[k],
{
    let mut result: Vec<GpuBindGroup> = Vec::new();
    let mut i: usize = 0;
    while i < entry_layouts.len()
        invariant
            i <= entry_layouts@.len(),
            bindings@.len() >= entry_layouts@.len(),
            forall|k: int| 0 <= k < entry_layouts@.len() ==> layout_ok(device.device_limits(), #[trigger] entry_layouts@[k]@),
            forall|k: int|
                0 <= k < entry_layouts@.len() ==> group_bindable(
                    device.device_limits(),
                    #[trigger] entry_layouts@[k]@,
                    bindings@[k]@,
                ),
            result@.len() == nonempty_groups(entry_layouts@.take(i as int)),
            result@.len() == groups_model(entry_layouts@.take(i as int), bindings@).len(),
            forall|k: int|
                0 <= k < result@.len() ==> ((#[trigger] result@[k]).layout_entries(),
                result@[k].bindings()) == groups_model(entry_layouts@.take(i as int), bindings@)[k],
        decreases entry_layouts@.len() - i,
    {
        let ghost prev = groups_model(entry_layouts@.take(i as int), bindings@);
        let mut inner_group: Vec<(u32, &GpuBuffer)> = Vec::new();
        let layouts = create_bind_group_layouts(device, entry_layouts);
        let n = entry_layouts[i].len();
        let ghost before = result@;
        let ghost entries = entry_layouts@[i as int]@;
        let ghost bufs = bindings@[i as int]@;
        assert(group_bindable(device.device_limits(), entries, bufs));
        let mut j: usize = 0;
        while j < n
            invariant
                i < entry_layouts@.len(),
                n == entries.len(),
                entries == entry_layouts@[i as int]@,
                bufs == bindings@[i as int]@,
                group_bindable(device.device_limits(), entries, bufs),
                bindings@.len() >= entry_layouts@.len(),
                layouts@.len() == entry_layouts@.len(),
                layouts@[i as int].entries() == entries,
                j <= n,
                inner_group@.len() == j,
                forall|k: int| 0 <= k < j ==> (#[trigger] inner_group@[k]) == (k as u32, bufs[k]),
                j < n ==> result@ == before,
                j == n && n > 0 ==> result@ == before.push(result@.last()),
                j == n && n > 0 ==> (result@.last().layout_entries(), result@.last().bindings())
                    == group_model(entries, bufs),
                n == 0 ==> result@ == before,
            decreases n - j,
        {
            inner_group.push((j as u32, bindings[i][j]));
            if j == n - 1 {
                proof {
                    assert forall|k: int| 0 <= k < inner_group@.len() implies #[trigger] inner_group@[k].0
                        == entries[k].binding && buffer_fits(device.device_limits(), entries[k], *inner_group@[k].1) by {
                        assert(entries[k].binding == k);
                    }
                }
                let group = device_create_bind_group(device, &layouts[i], &inner_group);
                proof {
                    assert(bound_buffers(inner_group@) =~= group_model(entries, bufs).1);
                }
                result.push(group);
            }
            j = j + 1;
        }
        proof {
            let t1 = entry_layouts@.take(i + 1);
            assert(t1.drop_last() =~= entry_layouts@.take(i as int));
            assert(t1.last() == entry_layouts@[i as int]);
            assert(t1.len() - 1 == i);
            assert forall|k: int| 0 <= k < result@.len() implies ((#[trigger] result@[k]).layout_entries(),
                result@[k].bindings()) == groups_model(t1, bindings@)[k] by {
                if k < before.len() {
                    assert(result@[k] == before[k]);
                }
            }
        }
        i = i + 1;
    }
    assert(entry_layouts@.take(entry_layouts@.len() as int) =~= entry_layouts@);
    result
}

/// The kind of binding that a bind group layout entry declares.
#[derive(Clone, Copy, Debug, PartialEq, Eq, Structural)]
pub enum BindingKind {
    Buffer,
    Sampler,
    Texture,
    StorageTexture,
}

/// The kind of a resource bound to a bind group entry.
#[derive(Clone, Copy, Debug, PartialEq, Eq, Structural)]
pub enum ResourceKind {
    Buffer,
    BufferArray,
    Sampler,
    TextureView,
    TextureViewArray,
}

/// A layout entry and a resource correspond: a buffer entry takes a buffer,
/// a texture entry a texture view and a sampler entry a sampler. Storage
/// textures are not supported.
pub open spec fn corresponds(entry: BindingKind, resource: ResourceKind) -> bool {
    match entry {
        BindingKind::Buffer => resource == ResourceKind::Buffer,
        BindingKind::Texture => resource == ResourceKind::TextureView,
        BindingKind::Sampler => resource == ResourceKind::Sampler,
        BindingKind::StorageTexture => false,
    }
}

/// The binding resources match the bind group layout: as many groups, as
/// many entries in each group, and each resource corresponds to its entry.
pub open spec fn bindings_correspond(
    entries: Seq<Vec<BindingKind>>,
    resources: Seq<Vec<ResourceKind>>,
) -> bool {
    &&& entries.len() == resources.len()
    &&& forall|i: int| 0 <= i < entries.len() ==> #[trigger] entries[i]@.len() == resources[i]@.len()
    &&& forall|i: int, j: int|
        0 <= i < entries.len() && 0 <= j < entries[i]@.len() ==> corresponds(
            #[trigger] entries[i]@[j],
            resources[i]@[j],
        )
}

/// Each kind of layout entry takes exactly one kind of resource, and each
/// kind of resource serves one kind of entry: a buffer entry a buffer, a
/// texture entry a texture view, a sampler entry a sampler; a storage texture
/// entry takes none, and arrays of buffers or texture views serve no entry.
pub proof fn lemma_correspondence_is_one_to_one(
    e1: BindingKind,
    e2: BindingKind,
    r1: ResourceKind,
    r2: ResourceKind,
)
    ensures
        corresponds(e1, r1) && corresponds(e1, r2) ==> r1 == r2,
        corresponds(e1, r1) && corresponds(e2, r1) ==> e1 == e2,
        corresponds(BindingKind::Buffer, r1) <==> r1 == ResourceKind::Buffer,
        corresponds(BindingKind::Texture, r1) <==> r1 == ResourceKind::TextureView,
        corresponds(BindingKind::Sampler, r1) <==> r1 == ResourceKind::Sampler,
        !corresponds(BindingKind::StorageTexture, r1),
        !corresponds(e1, ResourceKind::BufferArray),
        !corresponds(e1, ResourceKind::TextureViewArray),
{
}

/// `bindings_match` answers no as soon as one resource is not of the kind
/// its entry takes: a group whose `j`th entry is a sampler and whose `j`th
/// resource is anything but a sampler (a texture view, say) does not match.
pub proof fn lemma_mismatch_is_refused(
    entries: Seq<Vec<BindingKind>>,
    resources: Seq<Vec<ResourceKind>>,
    i: int,
    j: int,
)
    requires
        0 <= i < entries.len(),
        0 <= j < entries[i]@.len(),
        i < resources.len(),
        j < resources[i]@.len(),
        entries[i]@[j] == BindingKind::Sampler && resources[i]@[j] != ResourceKind::Sampler
            || entries[i]@[j] == BindingKind::Buffer && resources[i]@[j] != ResourceKind::Buffer
            || entries[i]@[j] == BindingKind::Texture && resources[i]@[j]
            != ResourceKind::TextureView,
    ensures
        !bindings_correspond(entries, resources),
{
    lemma_correspondence_is_one_to_one(
        entries[i]@[j],
        entries[i]@[j],
        resources[i]@[j],
        resources[i]@[j],
    );
}

/// Whether the binding resources match the bind group layout
/// (`bindings_correspond`), checked entry by entry: the answer for any
/// input, where `check_correspondence` takes matching input only.
pub fn bindings_match(
    bind_group_layout_entries: &Vec<Vec<BindingKind>>,
    binding_resources: &Vec<Vec<ResourceKind>>,
) -> (r: bool)
    ensures
        r == bindings_correspond(bind_group_layout_entries@, binding_resources@),
{
    let entries = bind_group_layout_entries;
    let resources = binding_resources;
    if entries.len() != resources.len() {
        return false;
    }
    let mut i: usize = 0;
    while i < entries.len()
        invariant
            entries == bind_group_layout_entries,
            resources == binding_resources,
            i <= entries@.len(),
            entries@.len() == resources@.len(),
            forall|k: int| 0 <= k < i ==> #[trigger] entries@[k]@.len() == resources@[k]@.len(),
            forall|k: int, j: int|
                0 <= k < i && 0 <= j < entries@[k]@.len() ==> corresponds(
                    #[trigger] entries@[k]@[j],
                    resources@[k]@[j],
                ),
        decreases entries@.len() - i,
    {
        if entries[i].len() != resources[i].len() {
            proof {
                let (e, r) = (bind_group_layout_entries@, binding_resources@);
                assert(e[i as int]@.len() != r[i as int]@.len());
                assert(!bindings_correspond(e, r));
            }
            return false;
        }
        let mut j: usize = 0;
        while j < entries[i].len()
            invariant
                entries == bind_group_layout_entries,
                resources == binding_resources,
                i < entries@.len(),
                entries@.len() == resources@.len(),
                entries@[i as int]@.len() == resources@[i as int]@.len(),
                j <= entries@[i as int]@.len(),
                forall|l: int|
                    0 <= l < j ==> corresponds(
                        #[trigger] entries@[i as int]@[l],
                        resources@[i as int]@[l],
                    ),
            decreases entries@[i as int]@.len() - j,
        {
            let ok = match entries[i][j] {
                BindingKind::Buffer => resources[i][j] == ResourceKind::Buffer,
                BindingKind::Texture => resources[i][j] == ResourceKind::TextureView,
                BindingKind::Sampler => resources[i][j] == ResourceKind::Sampler,
                BindingKind::StorageTexture => false,
            };
            if !ok {
                proof {
                    let (e, r) = (bind_group_layout_entries@, binding_resources@);
                    assert(!corresponds(e[i as int]@[j as int], r[i as int]@[j as int]));
                    assert(!bindings_correspond(e, r));
                }
                return false;
            }
            j = j + 1;
        }
        i = i + 1;
    }
    true
}

/// A debug helper that checks that the binding resources match the bind
/// group layout (see `bindings_correspond`); a mismatch is a programming
/// error, so the resources must match, and the answer is then `true`.
pub fn check_correspondence(
    bind_group_layout_entries: &Vec<Vec<BindingKind>>,
    binding_resources: &Vec<Vec<ResourceKind>>,
) -> (r: bool)
    requires
        bindings_correspond(bind_group_layout_entries@, binding_resources@),
    ensures
        r,
{
    let mut i: usize = 0;
    while i < bind_group_layout_entries.len()
        invariant
            i <= bind_group_layout_entries@.len(),
            bindings_correspond(bind_group_layout_entries@, binding_resources@),
        decreases bind_group_layout_entries@.len() - i,
    {
        let mut j: usize = 0;
        while j < bind_group_layout_entries[i].len()
            invariant
                i < bind_group_layout_entries@.len(),
                j <= bind_group_layout_entries@[i as int]@.len(),
                bindings_correspond(bind_group_layout_entries@, binding_resources@),
            decreases bind_group_layout_entries@[i as int]@.len() - j,
        {
            let entry = bind_group_layout_entries[i][j];
            let resource = binding_resources[i][j];
            assert(corresponds(entry, resource));
            j = j + 1;
        }
        i = i + 1;
    }
    true
}


/// A texture entry of the fragment stage: a filterable float 2D texture,
/// not multisampled.
pub open spec fn fragment_texture(binding: u32) -> LayoutEntry {
    LayoutEntry {
        binding,
        visibility: 2,
        kind: EntryKind::Texture {
            sample_type: SampleType::Float { filterable: true },
            view_dimension: ViewDimension::D2,
            multisampled: false,
        },
    }
}

/// A filtering, non-comparison sampler entry of the fragment stage.
pub open spec fn fragment_sampler(binding: u32) -> LayoutEntry {
    LayoutEntry { binding, visibility: 2, kind: EntryKind::Sampler { filtering: true, comparison: false } }
}

/// A render pipeline of two bind groups: the camera uniform (vertex and
/// fragment stages), and two textures with their samplers (fragment stage).
pub struct TestLayoutEntry {
    /// The layout entries, one group per bind group.
    pub layout_entries: Vec<Vec<LayoutEntry>>,
    /// The bind group layouts, made from the groups of entries.
    pub bind_group_layouts: Vec<GpuBindGroupLayout>,
    /// The render pipeline.
    pub pipeline: wgpu::RenderPipeline,
}

impl TestLayoutEntry {
    /// The groups of layout entries: group 0 holds the camera uniform at
    /// binding 0; group 1 a texture at 0, its sampler at 1, a texture at 2
    /// and its sampler at 3.
    pub open spec fn entry_groups() -> Seq<Seq<LayoutEntry>> {
        seq![
            seq![LayoutEntry { binding: 0, visibility: 3, kind: EntryKind::Uniform }],
            seq![fragment_texture(0), fragment_sampler(1), fragment_texture(2), fragment_sampler(3)],
        ]
    }

    /// The layout entries of the pipeline and the bind group layouts made
    /// from them, from which its pipeline layout is to be made.
    pub fn layouts(device: &GpuDevice) -> (r: (Vec<Vec<LayoutEntry>>, Vec<GpuBindGroupLayout>))
        requires
            device.device_limits().max_uniform_buffers_per_shader_stage >= 1,
            device.device_limits().max_sampled_textures_per_shader_stage >= 2,
            device.device_limits().max_samplers_per_shader_stage >= 2,
        ensures
            r.0@.len() == 2,
            r.0@[0]@ == Self::entry_groups()[0],
            r.0@[1]@ == Self::entry_groups()[1],
            r.1@.len() == 2,
            forall|i: int| 0 <= i < 2 ==> (#[trigger] r.1@[i]).entries() == r.0@[i]@,
    {
        let texture = EntryKind::Texture {
            sample_type: SampleType::Float { filterable: true },
            view_dimension: ViewDimension::D2,
            multisampled: false,
        };
        let sampler = EntryKind::Sampler { filtering: true, comparison: false };
        let layout_entries = vec![
            vec![LayoutEntry { binding: 0, visibility: 3, kind: EntryKind::Uniform }],
            vec![
                LayoutEntry { binding: 0, visibility: 2, kind: texture },
                LayoutEntry { binding: 1, visibility: 2, kind: sampler },
                LayoutEntry { binding: 2, visibility: 2, kind: texture },
                LayoutEntry { binding: 3, visibility: 2, kind: sampler },
            ],
        ];
        proof {
            let g0 = layout_entries@[0]@;
            let g1 = layout_entries@[1]@;
            assert(g0 =~= Self::entry_groups()[0]);
            assert(g1 =~= Self::entry_groups()[1]);
            reveal_with_fuel(stage_count, 5);
            assert(g1.drop_last() =~= seq![g1[0], g1[1], g1[2]]);
            assert(g1.drop_last().drop_last() =~= seq![g1[0], g1[1]]);
            assert(g1.drop_last().drop_last().drop_last() =~= seq![g1[0]]);
            assert(layout_ok(device.device_limits(), g0));
            assert(layout_ok(device.device_limits(), g1));
        }
        let layouts = create_bind_group_layouts(device, &layout_entries);
        (layout_entries, layouts)
    }
}

} // verus!
