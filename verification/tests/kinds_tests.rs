use jaankaup_core::texture::TextureType;
use jaankaup_core::pipeline::Resource;
use jaankaup_core::wgpu_system::{BasicLoop, ControlFlowKind, LoopEvent};

#[test]
fn texture_and_resource_kinds() {
    let t = TextureType::Depth;
    assert!(matches!(t, TextureType::Depth));
    let r = Resource::Buffer("camera");
    assert!(matches!(r, Resource::Buffer("camera")));
    let _l = BasicLoop::init();
}

#[test]
fn basic_loop_steps() {
    let l = BasicLoop::init();
    let s = l.step(LoopEvent::MainEventsCleared);
    assert!(s.run_pending_tasks && !s.update_input);
    assert_eq!(s.control_flow, ControlFlowKind::Poll);
    let s = l.step(LoopEvent::WindowEvent { close_requested: false });
    assert!(!s.run_pending_tasks && s.update_input);
    assert_eq!(s.control_flow, ControlFlowKind::Poll);
    let s = l.step(LoopEvent::WindowEvent { close_requested: true });
    assert!(s.update_input);
    assert_eq!(s.control_flow, ControlFlowKind::Exit);
    let s = l.step(LoopEvent::Other);
    assert!(!s.run_pending_tasks && !s.update_input);
    assert_eq!(s.control_flow, ControlFlowKind::Poll);
}
