# jaankaup_core

The core of a wgpu based engine for the fast marching method (FMM) on the
GPU, written in Verus.

- `src/` is the verified library: the FMM index and hash tables of a block
  and its ghost zone, index arithmetic, a dense 3D array, input state
  machines, vertex buffer layouts, PNG texture decoding, the FMM block list,
  and the bind group layouts and bind groups of the render and compute
  pipelines. GPU objects (devices, buffers, layouts, bind groups) are held
  with a plain model of what they were made from; the wgpu calls sit behind
  a few trusted wrappers in `src/gpu.rs` and `src/texture.rs`.
- `tests/` runs the library on concrete values.
- `app/` is the program around it: the window, the device, the event loop,
  the render and compute pipelines' shaders, drawing and GPU read-back.
