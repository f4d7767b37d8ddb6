//! The initial block list of the fast marching method, and the bind group
//! layouts of its compute pipelines.

use vstd::prelude::*;
use crate::gpu::{
    layout_ok, sees_stage, stage_count, BindingClass, EntryKind, GpuBindGroupLayout, GpuDevice,
    LayoutEntry, class_of,
};
use crate::render_pipelines::create_bind_group_layouts;

verus! {

/// A block of the fast marching grid: its index and the number of its band
/// points.
#[allow(non_camel_case_types)]
#[derive(Clone, Copy, Debug, PartialEq, Eq, Structural)]
pub struct FMM_Block {
    pub index: u32,
    pub band_points_count: u32,
}

/// The number of leading blocks that are listed as active.
pub open spec fn active_prefix(number_of_blocks: int) -> int {
    if number_of_blocks < 512 {
        number_of_blocks
    } else {
        512
    }
}

/// The `k`th block of the initial list for a grid of `number_of_blocks`
/// blocks: first the active blocks in index order, each with three band
/// points, then one free slot (index 777, no band points) per block.
pub open spec fn initial_block(k: int, number_of_blocks: int) -> FMM_Block {
    if k < active_prefix(number_of_blocks) {
        FMM_Block { index: k as u32, band_points_count: 3 }
    } else {
        FMM_Block { index: 777, band_points_count: 0 }
    }
}

/// The initial block list of a grid of `block_dimension[0] *
/// block_dimension[1] * block_dimension[2]` blocks: the blocks are walked in
/// order and the first 512 of them, which are all active, are listed with
/// three band points each; then one free slot follows for every block.
pub fn create_fmm_blocks(block_dimension: [u32; 3]) -> (r: Vec<FMM_Block>)
    requires
        block_dimension[0] * block_dimension[1] <= u32::MAX,
        block_dimension[0] * block_dimension[1] * block_dimension[2] <= u32::MAX,
    ensures
        ({
            let n = block_dimension[0] * block_dimension[1] * block_dimension[2];
            &&& r@.len() == active_prefix(n) + n
            &&& forall|k: int| 0 <= k < r@.len() ==> #[trigger] r@[k] == initial_block(k, n)
        }),
{
    let number_of_blocks = block_dimension[0] * block_dimension[1] * block_dimension[2];
    let ghost n = number_of_blocks as int;
    let mut test_blocks: Vec<FMM_Block> = Vec::new();
    let mut index_counter: u32 = 0;
    while index_counter < number_of_blocks
        invariant
            n == number_of_blocks,
            index_counter <= number_of_blocks,
            test_blocks@.len() == active_prefix(index_counter as int),
            forall|k: int|
                0 <= k < test_blocks@.len() ==> #[trigger] test_blocks@[k] == initial_block(k, n),
        decreases number_of_blocks - index_counter,
    {
        if index_counter < 512 {
            test_blocks.push(FMM_Block { index: index_counter, band_points_count: 3 });
        }
        index_counter = index_counter + 1;
    }
    let ghost active = test_blocks@.len();
    let mut i: u32 = 0;
    while i < number_of_blocks
        invariant
            n == number_of_blocks,
            active == active_prefix(n),
            i <= number_of_blocks,
            test_blocks@.len() == active + i,
            forall|k: int|
                0 <= k < test_blocks@.len() ==> #[trigger] test_blocks@[k] == initial_block(k, n),
        decreases number_of_blocks - i,
    {
        test_blocks.push(FMM_Block { index: 777, band_points_count: 0 });
        i = i + 1;
    }
    test_blocks
}


/// A compute stage entry at `binding`.
pub open spec fn compute_entry(binding: u32, kind: EntryKind) -> LayoutEntry {
    LayoutEntry { binding, visibility: 4, kind }
}

/// The number of entries of `class` among `entries`.
pub open spec fn class_count(entries: Seq<LayoutEntry>, class: BindingClass) -> int
    decreases entries.len(),
{
    if entries.len() == 0 {
        0
    } else {
        class_count(entries.drop_last(), class) + if class_of(entries.last().kind) == class {
            1int
        } else {
            0
        }
    }
}

/// Entries seen by the compute stage alone are counted only there, once
/// each.
proof fn lemma_compute_counts(entries: Seq<LayoutEntry>)
    requires
        forall|i: int| 0 <= i < entries.len() ==> (#[trigger] entries[i]).visibility == 4,
    ensures
        forall|c: BindingClass| #[trigger] stage_count(entries, 0, c) == 0,
        forall|c: BindingClass| #[trigger] stage_count(entries, 1, c) == 0,
        forall|c: BindingClass| #[trigger] stage_count(entries, 2, c) == class_count(entries, c),
    decreases entries.len(),
{
    if entries.len() > 0 {
        let d = entries.drop_last();
        assert forall|i: int| 0 <= i < d.len() implies (#[trigger] d[i]).visibility == 4 by {
            assert(d[i] == entries[i]);
        }
        lemma_compute_counts(d);
        assert(entries.last() == entries[entries.len() - 1]);
        assert(sees_stage(4, 2) && !sees_stage(4, 0) && !sees_stage(4, 1));
        assert forall|c: BindingClass| #[trigger] stage_count(entries, 1, c) == 0 by {
            assert(stage_count(d, 1, c) == 0);
        }
        assert forall|c: BindingClass| #[trigger] stage_count(entries, 2, c) == class_count(entries, c) by {
            assert(stage_count(d, 2, c) == class_count(d, c));
        }
        assert forall|c: BindingClass| #[trigger] stage_count(entries, 0, c) == 0 by {
            assert(stage_count(d, 0, c) == 0);
        }
    }
}

/// The compute pipeline of the fast marching method: a uniform at binding 0,
/// read-write storage buffers at 1 to 5, read-only storage buffers at 6 and 7,
/// and a uniform at 8.
#[allow(non_camel_case_types)]
pub struct FMM_debug_pipeline {
    layout_entries: Vec<Vec<LayoutEntry>>,
    bind_group_layouts: Vec<GpuBindGroupLayout>,
    pipeline: wgpu::ComputePipeline,
}

impl FMM_debug_pipeline {
    /// The layout entries of the pipeline's one bind group, all of the
    /// compute stage.
    pub open spec fn entries() -> Seq<LayoutEntry> {
        seq![
            compute_entry(0, EntryKind::Uniform),
            compute_entry(1, EntryKind::Storage { read_only: false }),
            compute_entry(2, EntryKind::Storage { read_only: false }),
            compute_entry(3, EntryKind::Storage { read_only: false }),
            compute_entry(4, EntryKind::Storage { read_only: false }),
            compute_entry(5, EntryKind::Storage { read_only: false }),
            compute_entry(6, EntryKind::Storage { read_only: true }),
            compute_entry(7, EntryKind::Storage { read_only: true }),
            compute_entry(8, EntryKind::Uniform),
        ]
    }

    /// One group of the entries, and its layout.
    #[verifier::type_invariant]
    spec fn well_formed(self) -> bool {
        &&& self.layout_entries@.len() == 1
        &&& self.layout_entries@[0]@ == Self::entries()
        &&& self.bind_group_layouts@.len() == 1
        &&& self.bind_group_layouts@[0].entries() == Self::entries()
    }

    /// The compute pipeline.
    pub closed spec fn compute_pipeline(self) -> wgpu::ComputePipeline {
        self.pipeline
    }

    /// The layout entries of the pipeline (one group) and the bind group
    /// layout made from them, from which the compute pipeline's layout is to
    /// be made.
    pub fn layouts(device: &GpuDevice) -> (r: (Vec<Vec<LayoutEntry>>, Vec<GpuBindGroupLayout>))
        requires
            device.device_limits().max_storage_buffers_per_shader_stage >= 7,
            device.device_limits().max_uniform_buffers_per_shader_stage >= 2,
        ensures
            r.0@.len() == 1,
            r.0@[0]@ == Self::entries(),
            r.1@.len() == 1,
            r.1@[0].entries() == Self::entries(),
    {
        let layout_entries = vec![vec![
            LayoutEntry { binding: 0, visibility: 4, kind: EntryKind::Uniform },
            LayoutEntry { binding: 1, visibility: 4, kind: EntryKind::Storage { read_only: false } },
            LayoutEntry { binding: 2, visibility: 4, kind: EntryKind::Storage { read_only: false } },
            LayoutEntry { binding: 3, visibility: 4, kind: EntryKind::Storage { read_only: false } },
            LayoutEntry { binding: 4, visibility: 4, kind: EntryKind::Storage { read_only: false } },
            LayoutEntry { binding: 5, visibility: 4, kind: EntryKind::Storage { read_only: false } },
            LayoutEntry { binding: 6, visibility: 4, kind: EntryKind::Storage { read_only: true } },
            LayoutEntry { binding: 7, visibility: 4, kind: EntryKind::Storage { read_only: true } },
            LayoutEntry { binding: 8, visibility: 4, kind: EntryKind::Uniform },
        ]];
        proof {
            let g = layout_entries@[0]@;
            assert(g =~= Self::entries());
            reveal_with_fuel(stage_count, 10);
            lemma_compute_counts(g);
            assert(layout_ok(device.device_limits(), g));
        }
        let layouts = create_bind_group_layouts(device, &layout_entries);
        (layout_entries, layouts)
    }

    /// Bundles a compute pipeline with the layout entries and layout that
    /// `layouts` made.
    pub fn from_parts(
        layout_entries: Vec<Vec<LayoutEntry>>,
        bind_group_layouts: Vec<GpuBindGroupLayout>,
        pipeline: wgpu::ComputePipeline,
    ) -> (r: Self)
        requires
            layout_entries@.len() == 1,
            layout_entries@[0]@ == Self::entries(),
            bind_group_layouts@.len() == 1,
            bind_group_layouts@[0].entries() == Self::entries(),
        ensures
            r.compute_pipeline() == pipeline,
    {
        Self { layout_entries, bind_group_layouts, pipeline }
    }

    /// The compute pipeline.
    pub fn get_pipeline(&self) -> (r: &wgpu::ComputePipeline)
        ensures
            *r == self.compute_pipeline(),
    {
        &self.pipeline
    }

    /// The bind group layouts: one, made from the entries.
    pub fn get_bind_group_layouts(&self) -> (r: &Vec<GpuBindGroupLayout>)
        ensures
            r@.len() == 1,
            r@[0].entries() == Self::entries(),
    {
        proof {
            use_type_invariant(self);
        }
        &self.bind_group_layouts
    }

    /// The layout entries: one group.
    pub fn get_bind_group_layout_entries(&self) -> (r: &Vec<Vec<LayoutEntry>>)
        ensures
            r@.len() == 1,
            r@[0]@ == Self::entries(),
    {
        proof {
            use_type_invariant(self);
        }
        &self.layout_entries
    }
}

/// The compute pipeline that generates the fast marching method's data: a
/// uniform at binding 0, read-write storage buffers at 1 to 4, read-only
/// storage buffers at 5 and 6, and uniforms at 7 and 8.
#[allow(non_camel_case_types)]
pub struct FMM_data_generator_debug_pipeline {
    layout_entries: Vec<Vec<LayoutEntry>>,
    bind_group_layouts: Vec<GpuBindGroupLayout>,
    pipeline: wgpu::ComputePipeline,
}

impl FMM_data_generator_debug_pipeline {
    /// The layout entries of the pipeline's one bind group, all of the
    /// compute stage.
    pub open spec fn entries() -> Seq<LayoutEntry> {
        seq![
            compute_entry(0, EntryKind::Uniform),
            compute_entry(1, EntryKind::Storage { read_only: false }),
            compute_entry(2, EntryKind::Storage { read_only: false }),
            compute_entry(3, EntryKind::Storage { read_only: false }),
            compute_entry(4, EntryKind::Storage { read_only: false }),
            compute_entry(5, EntryKind::Storage { read_only: true }),
            compute_entry(6, EntryKind::Storage { read_only: true }),
            compute_entry(7, EntryKind::Uniform),
            compute_entry(8, EntryKind::Uniform),
        ]
    }

    /// One group of the entries, and its layout.
    #[verifier::type_invariant]
    spec fn well_formed(self) -> bool {
        &&& self.layout_entries@.len() == 1
        &&& self.layout_entries@[0]@ == Self::entries()
        &&& self.bind_group_layouts@.len() == 1
        &&& self.bind_group_layouts@[0].entries() == Self::entries()
    }

    /// The compute pipeline.
    pub closed spec fn compute_pipeline(self) -> wgpu::ComputePipeline {
        self.pipeline
    }

    /// The layout entries of the pipeline (one group) and the bind group
    /// layout made from them, from which the compute pipeline's layout is to
    /// be made.
    pub fn layouts(device: &GpuDevice) -> (r: (Vec<Vec<LayoutEntry>>, Vec<GpuBindGroupLayout>))
        requires
            device.device_limits().max_storage_buffers_per_shader_stage >= 6,
            device.device_limits().max_uniform_buffers_per_shader_stage >= 3,
        ensures
            r.0@.len() == 1,
            r.0@[0]@ == Self::entries(),
            r.1@.len() == 1,
            r.1@[0].entries() == Self::entries(),
    {
        let layout_entries = vec![vec![
            LayoutEntry { binding: 0, visibility: 4, kind: EntryKind::Uniform },
            LayoutEntry { binding: 1, visibility: 4, kind: EntryKind::Storage { read_only: false } },
            LayoutEntry { binding: 2, visibility: 4, kind: EntryKind::Storage { read_only: false } },
            LayoutEntry { binding: 3, visibility: 4, kind: EntryKind::Storage { read_only: false } },
            LayoutEntry { binding: 4, visibility: 4, kind: EntryKind::Storage { read_only: false } },
            LayoutEntry { binding: 5, visibility: 4, kind: EntryKind::Storage { read_only: true } },
            LayoutEntry { binding: 6, visibility: 4, kind: EntryKind::Storage { read_only: true } },
            LayoutEntry { binding: 7, visibility: 4, kind: EntryKind::Uniform },
            LayoutEntry { binding: 8, visibility: 4, kind: EntryKind::Uniform },
        ]];
        proof {
            let g = layout_entries@[0]@;
            assert(g =~= Self::entries());
            reveal_with_fuel(stage_count, 10);
            lemma_compute_counts(g);
            assert(layout_ok(device.device_limits(), g));
        }
        let layouts = create_bind_group_layouts(device, &layout_entries);
        (layout_entries, layouts)
    }

    /// Bundles a compute pipeline with the layout entries and layout that
    /// `layouts` made.
    pub fn from_parts(
        layout_entries: Vec<Vec<LayoutEntry>>,
        bind_group_layouts: Vec<GpuBindGroupLayout>,
        pipeline: wgpu::ComputePipeline,
    ) -> (r: Self)
        requires
            layout_entries@.len() == 1,
            layout_entries@[0]@ == Self::entries(),
            bind_group_layouts@.len() == 1,
            bind_group_layouts@[0].entries() == Self::entries(),
        ensures
            r.compute_pipeline() == pipeline,
    {
        Self { layout_entries, bind_group_layouts, pipeline }
    }

    /// The compute pipeline.
    pub fn get_pipeline(&self) -> (r: &wgpu::ComputePipeline)
        ensures
            *r == self.compute_pipeline(),
    {
        &self.pipeline
    }

    /// The bind group layouts: one, made from the entries.
    pub fn get_bind_group_layouts(&self) -> (r: &Vec<GpuBindGroupLayout>)
        ensures
            r@.len() == 1,
            r@[0].entries() == Self::entries(),
    {
        proof {
            use_type_invariant(self);
        }
        &self.bind_group_layouts
    }

    /// The layout entries: one group.
    pub fn get_bind_group_layout_entries(&self) -> (r: &Vec<Vec<LayoutEntry>>)
        ensures
            r@.len() == 1,
            r@[0]@ == Self::entries(),
    {
        proof {
            use_type_invariant(self);
        }
        &self.layout_entries
    }
}

/// The buffers of the fast marching method's compute shader, by binding:
/// 0 Dimensions (uniform), 1 Prefix_sums, 2 Points_out, 3 FMM_Nodes,
/// 4 FMM_Blocks, 5 Counters (all written by the shader), 6 OffsetTable and
/// 7 VecToHashTable (only read), 8 FMM_Attributes (uniform).
pub open spec fn fmm_shader_uniform(binding: int) -> bool {
    binding == 0 || binding == 8
}

/// The fast marching method's shader writes the buffers at bindings 1 to 5.
pub open spec fn fmm_shader_writes(binding: int) -> bool {
    1 <= binding <= 5
}

/// The buffers of the data generator's compute shader, by binding:
/// 0 camera (uniform), 1 Counters, 2 Points_out, 3 FMM_Nodes, 4
/// Triangle_data (all written by the shader), 5 OffsetTable and 6
/// VecToHashTable (only read), 7 FMM_Attributes and 8 General_params
/// (uniforms).
pub open spec fn generator_shader_uniform(binding: int) -> bool {
    binding == 0 || binding == 7 || binding == 8
}

/// The data generator's shader writes the buffers at bindings 1 to 4.
pub open spec fn generator_shader_writes(binding: int) -> bool {
    1 <= binding <= 4
}

/// The layout of the fast marching method's compute pipeline is the
/// interface of its shader: one compute stage entry per binding 0 to 8, a
/// uniform where the shader reads a uniform block, a read-write storage
/// buffer where it writes, and a read-only storage buffer elsewhere.
pub proof fn lemma_fmm_layout_is_shader_interface(k: int)
    requires
        0 <= k < 9,
    ensures
        FMM_debug_pipeline::entries().len() == 9,
        FMM_debug_pipeline::entries()[k].binding == k,
        FMM_debug_pipeline::entries()[k].visibility == 4,
        fmm_shader_uniform(k) ==> FMM_debug_pipeline::entries()[k].kind == EntryKind::Uniform,
        !fmm_shader_uniform(k) ==> FMM_debug_pipeline::entries()[k].kind == (EntryKind::Storage {
            read_only: !fmm_shader_writes(k),
        }),
{
}

/// The layout of the data generator's compute pipeline is the interface of
/// its shader, in the same way.
pub proof fn lemma_generator_layout_is_shader_interface(k: int)
    requires
        0 <= k < 9,
    ensures
        FMM_data_generator_debug_pipeline::entries().len() == 9,
        FMM_data_generator_debug_pipeline::entries()[k].binding == k,
        FMM_data_generator_debug_pipeline::entries()[k].visibility == 4,
        generator_shader_uniform(k) ==> FMM_data_generator_debug_pipeline::entries()[k].kind
            == EntryKind::Uniform,
        !generator_shader_uniform(k) ==> FMM_data_generator_debug_pipeline::entries()[k].kind == (
        EntryKind::Storage { read_only: !generator_shader_writes(k) }),
{
}

} // verus!
