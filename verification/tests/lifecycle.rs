use tokimo_vm::config::{ImagePaths, SandboxConfig};
use tokimo_vm::linux::sandbox::{QemuSandbox, StartEvent};
use tokimo_vm::state::SandboxState;

/// Runs a sandbox through its life and writes down its states.
fn life() -> Vec<SandboxState> {
    let image = ImagePaths { kernel: "/k".to_string(), initrd: "/i".to_string(), rootfs: None };
    let config = SandboxConfig::new("x".to_string()).image(image);
    let mut b: QemuSandbox<u8> = QemuSandbox::new(config);
    let begin = || StartEvent::Begin { temp_dir: "/tmp".to_string(), pid: 1 };
    let mut states = vec![b.state()];
    b.start(begin());
    states.push(b.state());
    b.start(StartEvent::RuntimeMade(Ok(())));
    b.start(StartEvent::Spawned(Ok(())));
    b.start(StartEvent::Connected(Ok(())));
    states.push(b.state());
    b.start(begin());
    states.push(b.state());
    b.stop();
    states.push(b.state());
    b.qemu_ended();
    states.push(b.state());
    b.stop();
    b.start(begin());
    states.push(b.state());
    states
}

#[test]
fn no_state_comes_back() {
    assert_eq!(
        life(),
        vec![
            SandboxState::Created,
            SandboxState::Starting,
            SandboxState::Running,
            SandboxState::Running,
            SandboxState::Stopping,
            SandboxState::Stopped,
            SandboxState::Stopped,
        ]
    );
}
