//! Render pipelines for vertex data with camera: `vvvvnnnn` (position and
//! normal, four floats each) and `vvvc` (three position floats and a packed
//! colour). Each binds one camera uniform buffer at binding 0 of bind group 0.

use vstd::prelude::*;
use crate::gpu::{
    buffer_fits, layout_ok, stage_count, EntryKind, GpuBindGroup, GpuBindGroupLayout, GpuBuffer,
    GpuDevice, LayoutEntry,
};
use crate::render_pipelines::{
    create_bind_group_layouts, create_bind_groups, group_bindable, groups_model, nonempty_groups,
};

verus! {

/// The camera uniform entry: a uniform buffer at binding 0, seen by the
/// shader stages `visibility`.
pub open spec fn camera_entry(visibility: u32) -> LayoutEntry {
    LayoutEntry { binding: 0, visibility, kind: EntryKind::Uniform }
}

/// A pipeline and its layout entries for render shaders that consume vvvvnnnn data.
#[allow(non_camel_case_types)]
pub struct Render_vvvvnnnn {
    layout_entries: Vec<Vec<LayoutEntry>>,
    bind_group_layouts: Vec<GpuBindGroupLayout>,
    pipeline: wgpu::RenderPipeline,
}

impl Render_vvvvnnnn {
    /// The layout entries of the pipeline: one group holding the camera
    /// uniform at binding 0, seen by the vertex and fragment stages (bits 3).
    pub open spec fn camera_groups() -> Seq<Seq<LayoutEntry>> {
        seq![seq![camera_entry(3)]]
    }

    /// The layout entries are the camera group, and the one layout is made
    /// from them.
    #[verifier::type_invariant]
    spec fn well_formed(self) -> bool {
        &&& self.layout_entries@.len() == 1
        &&& self.layout_entries@[0]@ == Self::camera_groups()[0]
        &&& self.bind_group_layouts@.len() == 1
        &&& self.bind_group_layouts@[0].entries() == self.layout_entries@[0]@
    }

    /// The bind group layouts.
    pub closed spec fn layouts(self) -> Seq<GpuBindGroupLayout> {
        self.bind_group_layouts@
    }

    /// The render pipeline.
    pub closed spec fn render_pipeline(self) -> wgpu::RenderPipeline {
        self.pipeline
    }

    /// The layout entries of the pipeline (the camera group) and the bind
    /// group layout made from them, from which the render pipeline's layout
    /// is to be made.
    pub fn camera_layouts(device: &GpuDevice) -> (r: (Vec<Vec<LayoutEntry>>, Vec<GpuBindGroupLayout>))
        requires
            device.device_limits().max_uniform_buffers_per_shader_stage >= 1,
        ensures
            r.0@.len() == 1,
            r.0@[0]@ == Self::camera_groups()[0],
            r.1@.len() == 1,
            r.1@[0].entries() == Self::camera_groups()[0],
    {
        let layout_entries = vec![vec![LayoutEntry { binding: 0, visibility: 3, kind: EntryKind::Uniform }]];
        proof {
            assert(layout_entries@[0]@ =~= Self::camera_groups()[0]);
            reveal_with_fuel(stage_count, 2);
            assert(layout_ok(device.device_limits(), layout_entries@[0]@));
        }
        let layouts = create_bind_group_layouts(device, &layout_entries);
        (layout_entries, layouts)
    }

    /// Bundles a render pipeline with the layout entries and layouts that
    /// `camera_layouts` made.
    pub fn from_parts(
        layout_entries: Vec<Vec<LayoutEntry>>,
        bind_group_layouts: Vec<GpuBindGroupLayout>,
        pipeline: wgpu::RenderPipeline,
    ) -> (r: Self)
        requires
            layout_entries@.len() == 1,
            layout_entries@[0]@ == Self::camera_groups()[0],
            bind_group_layouts@.len() == 1,
            bind_group_layouts@[0].entries() == Self::camera_groups()[0],
        ensures
            r.layouts() == bind_group_layouts@,
            r.render_pipeline() == pipeline,
    {
        Self { layout_entries, bind_group_layouts, pipeline }
    }

    /// The render pipeline.
    pub fn get_pipeline(&self) -> (r: &wgpu::RenderPipeline)
        ensures
            *r == self.render_pipeline(),
    {
        &self.pipeline
    }

    /// The bind group layouts: one, made from the camera group.
    pub fn get_bind_group_layouts(&self) -> (r: &Vec<GpuBindGroupLayout>)
        ensures
            r@ == self.layouts(),
            r@.len() == 1,
            r@[0].entries() == Self::camera_groups()[0],
    {
        proof {
            use_type_invariant(self);
        }
        &self.bind_group_layouts
    }

    /// The layout entries: the camera group.
    pub fn get_bind_group_layout_entries(&self) -> (r: &Vec<Vec<LayoutEntry>>)
        ensures
            r@.len() == 1,
            r@[0]@ == Self::camera_groups()[0],
    {
        proof {
            use_type_invariant(self);
        }
        &self.layout_entries
    }

    /// Creates the bind group of the pipeline: one group, of the camera
    /// group's layout, binding the whole of `camera_buffer` at binding 0.
    pub fn create_bind_groups(&self, device: &GpuDevice, camera_buffer: &GpuBuffer) -> (r:
        Vec<GpuBindGroup>)
        requires
            device.device_limits().max_uniform_buffers_per_shader_stage >= 1,
            buffer_fits(device.device_limits(), camera_entry(3), *camera_buffer),
        ensures
            r@.len() == 1,
            r@[0].layout_entries() == Self::camera_groups()[0],
            r@[0].bindings() == seq![(0u32, camera_buffer.handle())],
    {
        proof {
            use_type_invariant(self);
            reveal_with_fuel(nonempty_groups, 2);
            reveal_with_fuel(groups_model, 2);
            reveal_with_fuel(stage_count, 2);
        }
        let bindings = vec![vec![camera_buffer]];
        proof {
            let g = self.layout_entries@;
            assert(layout_ok(device.device_limits(), g[0]@));
            assert(group_bindable(device.device_limits(), g[0]@, bindings@[0]@));
        }
        let r = create_bind_groups(device, &self.layout_entries, &bindings);
        proof {
            let m = groups_model(self.layout_entries@, bindings@);
            assert(self.layout_entries@.drop_last() =~= Seq::<Vec<LayoutEntry>>::empty());
            assert(m[0].1 =~= seq![(0u32, camera_buffer.handle())]);
            assert(r@[0].layout_entries() == m[0].0);
        }
        r
    }
}

/// A pipeline and its layout entries for rendering vvvc data (c: packed colour).
#[allow(non_camel_case_types)]
pub struct Render_vvvc {
    layout_entries: Vec<Vec<LayoutEntry>>,
    bind_group_layouts: Vec<GpuBindGroupLayout>,
    pipeline: wgpu::RenderPipeline,
}

impl Render_vvvc {
    /// The layout entries of the pipeline: one group holding the camera
    /// uniform at binding 0, seen by the vertex stage (bit 1).
    pub open spec fn camera_groups() -> Seq<Seq<LayoutEntry>> {
        seq![seq![camera_entry(1)]]
    }

    /// The layout entries are the camera group, and the one layout is made
    /// from them.
    #[verifier::type_invariant]
    spec fn well_formed(self) -> bool {
        &&& self.layout_entries@.len() == 1
        &&& self.layout_entries@[0]@ == Self::camera_groups()[0]
        &&& self.bind_group_layouts@.len() == 1
        &&& self.bind_group_layouts@[0].entries() == self.layout_entries@[0]@
    }

    /// The bind group layouts.
    pub closed spec fn layouts(self) -> Seq<GpuBindGroupLayout> {
        self.bind_group_layouts@
    }

    /// The render pipeline.
    pub closed spec fn render_pipeline(self) -> wgpu::RenderPipeline {
        self.pipeline
    }

    /// The layout entries of the pipeline (the camera group) and the bind
    /// group layout made from them, from which the render pipeline's layout
    /// is to be made.
    pub fn camera_layouts(device: &GpuDevice) -> (r: (Vec<Vec<LayoutEntry>>, Vec<GpuBindGroupLayout>))
        requires
            device.device_limits().max_uniform_buffers_per_shader_stage >= 1,
        ensures
            r.0@.len() == 1,
            r.0@[0]@ == Self::camera_groups()[0],
            r.1@.len() == 1,
            r.1@[0].entries() == Self::camera_groups()[0],
    {
        let layout_entries = vec![vec![LayoutEntry { binding: 0, visibility: 1, kind: EntryKind::Uniform }]];
        proof {
            assert(layout_entries@[0]@ =~= Self::camera_groups()[0]);
            reveal_with_fuel(stage_count, 2);
            assert(layout_ok(device.device_limits(), layout_entries@[0]@));
        }
        let layouts = create_bind_group_layouts(device, &layout_entries);
        (layout_entries, layouts)
    }

    /// Bundles a render pipeline with the layout entries and layouts that
    /// `camera_layouts` made.
    pub fn from_parts(
        layout_entries: Vec<Vec<LayoutEntry>>,
        bind_group_layouts: Vec<GpuBindGroupLayout>,
        pipeline: wgpu::RenderPipeline,
    ) -> (r: Self)
        requires
            layout_entries@.len() == 1,
            layout_entries@[0]@ == Self::camera_groups()[0],
            bind_group_layouts@.len() == 1,
            bind_group_layouts@[0].entries() == Self::camera_groups()[0],
        ensures
            r.layouts() == bind_group_layouts@,
            r.render_pipeline() == pipeline,
    {
        Self { layout_entries, bind_group_layouts, pipeline }
    }

    /// The render pipeline.
    pub fn get_pipeline(&self) -> (r: &wgpu::RenderPipeline)
        ensures
            *r == self.render_pipeline(),
    {
        &self.pipeline
    }

    /// The bind group layouts: one, made from the camera group.
    pub fn get_bind_group_layouts(&self) -> (r: &Vec<GpuBindGroupLayout>)
        ensures
            r@ == self.layouts(),
            r@.len() == 1,
            r@[0].entries() == Self::camera_groups()[0],
    {
        proof {
            use_type_invariant(self);
        }
        &self.bind_group_layouts
    }

    /// The layout entries: the camera group.
    pub fn get_bind_group_layout_entries(&self) -> (r: &Vec<Vec<LayoutEntry>>)
        ensures
            r@.len() == 1,
            r@[0]@ == Self::camera_groups()[0],
    {
        proof {
            use_type_invariant(self);
        }
        &self.layout_entries
    }

    /// Creates the bind group of the pipeline: one group, of the camera
    /// group's layout, binding the whole of `camera_buffer` at binding 0.
    pub fn create_bind_groups(&self, device: &GpuDevice, camera_buffer: &GpuBuffer) -> (r:
        Vec<GpuBindGroup>)
        requires
            device.device_limits().max_uniform_buffers_per_shader_stage >= 1,
            buffer_fits(device.device_limits(), camera_entry(1), *camera_buffer),
        ensures
            r@.len() == 1,
            r@[0].layout_entries() == Self::camera_groups()[0],
            r@[0].bindings() == seq![(0u32, camera_buffer.handle())],
    {
        proof {
            use_type_invariant(self);
            reveal_with_fuel(nonempty_groups, 2);
            reveal_with_fuel(groups_model, 2);
            reveal_with_fuel(stage_count, 2);
        }
        let bindings = vec![vec![camera_buffer]];
        proof {
            let g = self.layout_entries@;
            assert(layout_ok(device.device_limits(), g[0]@));
            assert(group_bindable(device.device_limits(), g[0]@, bindings@[0]@));
        }
        let r = create_bind_groups(device, &self.layout_entries, &bindings);
        proof {
            let m = groups_model(self.layout_entries@, bindings@);
            assert(self.layout_entries@.drop_last() =~= Seq::<Vec<LayoutEntry>>::empty());
            assert(m[0].1 =~= seq![(0u32, camera_buffer.handle())]);
            assert(r@[0].layout_entries() == m[0].0);
        }
        r
    }
}

} // verus!
