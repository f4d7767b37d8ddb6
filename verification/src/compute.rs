//! GPU buffers of counters and of compute dispatch dimensions.

use vstd::prelude::*;
use crate::gpu::{
    queue_write_buffer_u32, usage_ok, GpuBuffer, GpuDevice, COPY_DST, COPY_SRC, STORAGE, UNIFORM,
};

verus! {

/// The usage of the dimension buffers: copy source and destination, uniform
/// and storage.
pub open spec fn dimensions_usage() -> u32 {
    COPY_DST | UNIFORM | COPY_SRC | STORAGE
}

/// The usage of a histogram's buffer: copy source and destination, storage.
pub open spec fn histogram_usage() -> u32 {
    COPY_DST | COPY_SRC | STORAGE
}

/// The numbers of work groups and the data dimensions of a compute dispatch,
/// each in a GPU buffer of three `u32`.
pub struct CompDimensions {
    invocations: GpuBuffer,
    dimensions: GpuBuffer,
}

impl CompDimensions {
    /// The buffer of the numbers of work groups.
    pub closed spec fn invocations_buffer(self) -> GpuBuffer {
        self.invocations
    }

    /// The buffer of the data dimensions.
    pub closed spec fn dimensions_buffer(self) -> GpuBuffer {
        self.dimensions
    }

    /// Uploads the numbers of work groups and the data dimensions, each to a
    /// buffer of three words usable as copy source and destination, uniform
    /// and storage.
    pub fn init(device: &GpuDevice, invocations: [u32; 3], dimensions: [u32; 3]) -> (r: Self)
        ensures
            r.invocations_buffer().words() == invocations@,
            r.dimensions_buffer().words() == dimensions@,
            r.invocations_buffer().usage() == dimensions_usage(),
            r.dimensions_buffer().usage() == dimensions_usage(),
            r.invocations_buffer().size() == 12,
            r.dimensions_buffer().size() == 12,
    {
        let usage = COPY_DST | UNIFORM | COPY_SRC | STORAGE;
        assert(usage_ok(usage)) by (bit_vector)
            requires
                usage == 8u32 | 64u32 | 4u32 | 128u32;
        Self {
            invocations: GpuBuffer::init_u32(device, invocations.as_slice(), usage),
            dimensions: GpuBuffer::init_u32(device, dimensions.as_slice(), usage),
        }
    }

    /// The buffer of the numbers of work groups.
    pub fn get_invocations(&self) -> (r: &wgpu::Buffer)
        ensures
            *r == self.invocations_buffer().handle(),
    {
        self.invocations.raw()
    }

    /// The buffer of the data dimensions.
    pub fn get_dimensions(&self) -> (r: &wgpu::Buffer)
        ensures
            *r == self.dimensions_buffer().handle(),
    {
        self.dimensions.raw()
    }
}

/// A GPU buffer of `u32` counters, of a fixed number set by its initial
/// values.
pub struct Histogram {
    histogram: GpuBuffer,
    data: Vec<u32>,
}

impl Histogram {
    /// There is at least one counter, and the buffer holds one word per
    /// counter and has the histogram's usage.
    pub closed spec fn well_formed(self) -> bool {
        &&& self.data@.len() > 0
        &&& self.histogram.words().len() == self.data@.len()
        &&& self.histogram.usage() == histogram_usage()
        &&& self.histogram.size() == 4 * self.histogram.words().len()
    }

    /// The values the histogram was created with; their number is the number
    /// of counters.
    pub closed spec fn initial_values(self) -> Seq<u32> {
        self.data@
    }

    /// The GPU buffer of the counters.
    pub closed spec fn buffer(self) -> GpuBuffer {
        self.histogram
    }

    /// The counters as the library last wrote them.
    pub open spec fn counters(self) -> Seq<u32> {
        self.buffer().words()
    }

    /// Uploads `initial_values`, which must not be empty, to a new buffer usable
    /// as copy source and destination and as storage.
    pub fn init(device: &GpuDevice, initial_values: &Vec<u32>) -> (r: Self)
        requires
            initial_values@.len() > 0,
            4 * initial_values@.len() <= u64::MAX,
        ensures
            r.well_formed(),
            r.initial_values() == initial_values@,
            r.counters() == initial_values@,
            r.buffer().usage() == histogram_usage(),
    {
        let usage = COPY_DST | COPY_SRC | STORAGE;
        assert(usage_ok(usage)) by (bit_vector)
            requires
                usage == 8u32 | 4u32 | 128u32;
        let histogram = GpuBuffer::init_u32(device, initial_values.as_slice(), usage);
        let mut data: Vec<u32> = Vec::new();
        let mut i: usize = 0;
        while i < initial_values.len()
            invariant
                i <= initial_values@.len(),
                data@ == initial_values@.take(i as int),
            decreases initial_values@.len() - i,
        {
            data.push(initial_values[i]);
            proof {
                assert(initial_values@.take(i + 1) =~= initial_values@.take(i as int).push(
                    initial_values@[i as int],
                ));
            }
            i = i + 1;
        }
        assert(initial_values@.take(initial_values@.len() as int) =~= initial_values@);
        Self { histogram: histogram, data: data }
    }

    /// The number of counters.
    pub fn counter_count(&self) -> (r: usize)
        requires
            self.well_formed(),
        ensures
            r == self.counters().len(),
            r == self.initial_values().len(),
    {
        self.data.len()
    }

    /// The GPU buffer of the counters.
    pub fn get_histogram(&self) -> (r: &wgpu::Buffer)
        ensures
            *r == self.buffer().handle(),
    {
        self.histogram.raw()
    }

    /// Writes `value`, one value per counter, to the counters.
    pub fn set_values_cpu_version(&mut self, queue: &wgpu::Queue, value: &Vec<u32>)
        requires
            old(self).well_formed(),
            value@.len() == old(self).initial_values().len(),
        ensures
            final(self).well_formed(),
            final(self).counters() == value@,
            final(self).initial_values() == old(self).initial_values(),
            final(self).buffer().handle() == old(self).buffer().handle(),
    {
        assert((8u32 | 4u32 | 128u32) & 8u32 == 8u32) by (bit_vector);
        queue_write_buffer_u32(queue, &mut self.histogram, 0, value.as_slice());
        proof {
            let w = old(self).counters();
            assert(w.subrange(0, 0) + value@ + w.subrange(value@.len() as int, w.len() as int)
                =~= value@);
        }
    }

    /// Sets every counter to `value`.
    pub fn reset_cpu_version(&mut self, queue: &wgpu::Queue, value: u32)
        requires
            old(self).well_formed(),
        ensures
            final(self).well_formed(),
            final(self).counters() == Seq::new(old(self).initial_values().len(), |i: int| value),
            final(self).initial_values() == old(self).initial_values(),
            final(self).buffer().handle() == old(self).buffer().handle(),
    {
        let values = vec![value; self.data.len()];
        assert((8u32 | 4u32 | 128u32) & 8u32 == 8u32) by (bit_vector);
        queue_write_buffer_u32(queue, &mut self.histogram, 0, values.as_slice());
        proof {
            let w = old(self).counters();
            assert(w.subrange(0, 0) + values@ + w.subrange(values@.len() as int, w.len() as int)
                =~= Seq::new(old(self).initial_values().len(), |i: int| value));
        }
    }
}

} // verus!
