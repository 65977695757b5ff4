use husk::api::map_error;
use husk::catalog::{
    Catalog, CreateHostGroupRequest, CreateImageRequest, CreateServiceRequest,
    CreateSnapshotRequest, Inventory,
};
use husk::client::AgentError;
use husk::ip::ipv4;
use husk::net::{command_line, IpAllocator, NetError};
use husk::orchestrator::{
    undo_actions, CoreError, CreateEvent, CreateStep, CreateVmRequest, DestroyEvent, DestroyStep,
    HostNetwork, HuskCore, UndoAction, VmOp,
};
use husk::state::{PortForwardRecord, StateError, StateStore, VmRecord};
use husk::storage::{BootFiles, KernelFile, StorageConfig, StorageError};
use husk::unread::UnreadRows;
use husk::upkeep::rotate_serial_log;
use husk::vmm::{VmInfo, VmState, VmmError};

const NOW: &str = "2026-01-02T03:04:05+00:00";
const ID: u128 = 0x1234;

fn record(id: u128, name: &str, state: &str) -> VmRecord {
    VmRecord {
        id,
        name: name.into(),
        state: state.into(),
        pid: Some(9999),
        vcpu_count: 1,
        mem_size_mib: 128,
        vsock_cid: 3,
        tap_device: None,
        host_ip: None,
        guest_ip: None,
        kernel_path: "/boot/vmlinux".into(),
        rootfs_path: "/images/rootfs.ext4".into(),
        created_at: NOW.into(),
        updated_at: NOW.into(),
        userdata: None,
        userdata_status: None,
        userdata_env: None,
    }
}

fn core_with(records: Vec<VmRecord>) -> HuskCore {
    let mut state = StateStore::open_memory();
    for r in records {
        state.insert_vm(r).unwrap();
    }
    HuskCore::new(
        state,
        Some(HostNetwork {
            ip_allocator: IpAllocator::new(ipv4(172, 20, 0, 0), 24),
            host_interface: "eth0".into(),
        }),
        StorageConfig { data_dir: "/tmp/husk-mock-test".into() },
        "/tmp/husk-mock-test/run".into(),
    )
}

fn boot_files(initrd_exists: bool) -> BootFiles {
    BootFiles { kernel: KernelFile::Present, rootfs_exists: true, initrd_exists }
}

fn core_with_vm(name: &str, state: &str) -> HuskCore {
    core_with(vec![record(ID, name, state)])
}

/// Does an operation with a monitor that obliges.
fn run(core: &mut HuskCore, name: &str, op: VmOp) -> Result<(), CoreError> {
    let planned = match op {
        VmOp::Stop => core.stop_vm(name),
        VmOp::Pause => core.pause_vm(name),
        VmOp::Resume => core.resume_vm(name),
    }?;
    match planned {
        Some(id) => core.complete_op(id, op, Ok(())),
        None => Ok(()),
    }
}

fn destroy(core: &mut HuskCore, name: &str) -> Result<(), CoreError> {
    destroy_with(core, name, Ok(())).map(|_| ())
}

/// Destroys a VM with a monitor that answers as given, and says what was to be removed.
fn destroy_with(
    core: &mut HuskCore,
    name: &str,
    answer: Result<(), VmmError>,
) -> Result<Vec<UndoAction>, CoreError> {
    let (mut d, step) = core.destroy_vm(name)?;
    assert!(matches!(step, DestroyStep::Ask(id) if id == d.id));
    let removed = match core.destroy_step(&mut d, DestroyEvent::Asked(answer)) {
        DestroyStep::Remove(actions) => actions,
        DestroyStep::Failed(e) => return Err(e),
        _ => panic!("expected a removal"),
    };
    match core.destroy_step(&mut d, DestroyEvent::Removed) {
        DestroyStep::Destroyed => Ok(removed),
        DestroyStep::Failed(e) => Err(e),
        _ => panic!("expected the end"),
    }
}

/// Begins to create a VM, with a monitor that obliges. A stopped VM of that name goes first.
fn begin(
    core: &mut HuskCore,
    request: CreateVmRequest,
    files: BootFiles,
) -> Result<CreateStep, CoreError> {
    if core.check_name(&request.name)? {
        destroy(core, &request.name)?;
    }
    match core.create_vm(request, files).1 {
        CreateStep::Failed { error, .. } => Err(error),
        step => Ok(step),
    }
}

fn no_files() -> BootFiles {
    BootFiles { kernel: KernelFile::Missing, rootfs_exists: false, initrd_exists: false }
}

fn state_of(core: &HuskCore, name: &str) -> String {
    core.get_vm(name).unwrap().state.clone()
}

fn invalid_state(e: CoreError) -> (String, String) {
    match e {
        CoreError::InvalidState { actual, expected, .. } => (actual, expected),
        other => panic!("expected InvalidState, got: {}", other.message()),
    }
}

#[test]
fn pause_running_vm() {
    let mut core = core_with_vm("test-vm", "running");
    run(&mut core, "test-vm", VmOp::Pause).unwrap();
    assert_eq!(state_of(&core, "test-vm"), "paused");
}

#[test]
fn resume_paused_vm() {
    let mut core = core_with_vm("test-vm", "paused");
    run(&mut core, "test-vm", VmOp::Resume).unwrap();
    assert_eq!(state_of(&core, "test-vm"), "running");
}

#[test]
fn stop_running_vm() {
    let mut core = core_with_vm("test-vm", "running");
    run(&mut core, "test-vm", VmOp::Stop).unwrap();
    assert_eq!(state_of(&core, "test-vm"), "stopped");
}

#[test]
fn stop_paused_vm() {
    let mut core = core_with_vm("test-vm", "paused");
    run(&mut core, "test-vm", VmOp::Stop).unwrap();
    assert_eq!(state_of(&core, "test-vm"), "stopped");
}

fn destroys(state: &str) {
    let mut core = core_with_vm("test-vm", state);
    destroy(&mut core, "test-vm").unwrap();
    assert!(matches!(core.get_vm("test-vm"), Err(CoreError::VmNotFound(_))));
}

#[test]
fn destroy_running_vm() {
    destroys("running");
}

#[test]
fn destroy_stopped_vm() {
    destroys("stopped");
}

#[test]
fn destroy_paused_vm() {
    destroys("paused");
}

#[test]
fn destroy_failed_vm() {
    destroys("failed");
}

#[test]
fn pause_stopped_vm_fails() {
    let mut core = core_with_vm("test-vm", "stopped");
    let err = run(&mut core, "test-vm", VmOp::Pause).unwrap_err();
    assert_eq!(invalid_state(err), ("stopped".to_string(), "running".to_string()));
}

#[test]
fn pause_paused_vm_is_noop() {
    let mut core = core_with_vm("test-vm", "paused");
    assert_eq!(core.pause_vm("test-vm").unwrap(), None);
    run(&mut core, "test-vm", VmOp::Pause).unwrap();
    assert_eq!(state_of(&core, "test-vm"), "paused");
}

#[test]
fn resume_running_vm_is_noop() {
    let mut core = core_with_vm("test-vm", "running");
    assert_eq!(core.resume_vm("test-vm").unwrap(), None);
    run(&mut core, "test-vm", VmOp::Resume).unwrap();
    assert_eq!(state_of(&core, "test-vm"), "running");
}

#[test]
fn resume_stopped_vm_fails() {
    let mut core = core_with_vm("test-vm", "stopped");
    let err = run(&mut core, "test-vm", VmOp::Resume).unwrap_err();
    assert_eq!(invalid_state(err), ("stopped".to_string(), "paused".to_string()));
}

#[test]
fn stop_stopped_vm_is_noop() {
    let mut core = core_with_vm("test-vm", "stopped");
    assert_eq!(core.stop_vm("test-vm").unwrap(), None);
    run(&mut core, "test-vm", VmOp::Stop).unwrap();
    assert_eq!(state_of(&core, "test-vm"), "stopped");
}

#[test]
fn pause_nonexistent_vm_fails() {
    let core = core_with_vm("test-vm", "running");
    assert!(matches!(core.pause_vm("no-such-vm"), Err(CoreError::VmNotFound(_))));
}

#[test]
fn resume_nonexistent_vm_fails() {
    let core = core_with_vm("test-vm", "running");
    assert!(matches!(core.resume_vm("no-such-vm"), Err(CoreError::VmNotFound(_))));
}

#[test]
fn full_lifecycle_run_pause_resume_stop_destroy() {
    let mut core = core_with_vm("test-vm", "running");
    run(&mut core, "test-vm", VmOp::Pause).unwrap();
    assert_eq!(state_of(&core, "test-vm"), "paused");
    run(&mut core, "test-vm", VmOp::Resume).unwrap();
    assert_eq!(state_of(&core, "test-vm"), "running");
    run(&mut core, "test-vm", VmOp::Pause).unwrap();
    run(&mut core, "test-vm", VmOp::Stop).unwrap();
    assert_eq!(state_of(&core, "test-vm"), "stopped");
    destroy(&mut core, "test-vm").unwrap();
    assert!(core.get_vm("test-vm").is_err());
}

#[test]
fn multiple_pause_resume_cycles() {
    let mut core = core_with_vm("test-vm", "running");
    for _ in 0..5 {
        run(&mut core, "test-vm", VmOp::Pause).unwrap();
        assert_eq!(state_of(&core, "test-vm"), "paused");
        run(&mut core, "test-vm", VmOp::Resume).unwrap();
        assert_eq!(state_of(&core, "test-vm"), "running");
    }
}

fn rejects_connection(state: &str) {
    let core = core_with_vm("test-vm", state);
    let err = match core.agent_connect("test-vm") {
        Err(e) => e,
        Ok(_) => panic!("agent_connect should reject non-running VM"),
    };
    assert_eq!(invalid_state(err), (state.to_string(), "running".to_string()));
}

#[test]
fn agent_connect_rejects_paused_vm() {
    rejects_connection("paused");
}

#[test]
fn agent_connect_rejects_stopped_vm() {
    rejects_connection("stopped");
}

#[test]
fn agent_connect_rejects_failed_vm() {
    rejects_connection("failed");
}

#[test]
fn agent_connect_missing_vm_returns_not_found() {
    let core = core_with(vec![]);
    let msg = core.agent_connect("no-such-vm").unwrap_err().message();
    assert!(msg.contains("VM not found"), "unexpected agent_connect error: {msg}");
    assert_eq!(core_with_vm("a", "running").agent_connect("a").unwrap(), ID);
}

fn failing(state: &str, op: VmOp) {
    let mut core = core_with_vm("vm", state);
    let id = core.plan_op("vm", op).unwrap().unwrap();
    let r = core.complete_op_at(id, op, Err(VmmError::ApiError("injected".into())), NOW);
    assert!(matches!(r, Err(CoreError::Vmm(VmmError::ApiError(_)))));
    assert_eq!(state_of(&core, "vm"), state);
}

#[test]
fn stop_failure_keeps_vm_running_in_state_store() {
    failing("running", VmOp::Stop);
}

#[test]
fn pause_failure_keeps_vm_running_in_state_store() {
    failing("running", VmOp::Pause);
}

#[test]
fn resume_failure_keeps_vm_paused_in_state_store() {
    failing("paused", VmOp::Resume);
}

#[test]
fn destroy_failure_keeps_vm_record_present() {
    let mut core = core_with_vm("vm-destroy-fail", "running");
    let injected = Err(VmmError::ApiError("injected".into()));
    let err = destroy_with(&mut core, "vm-destroy-fail", injected).err().unwrap();
    assert!(matches!(err, CoreError::Vmm(VmmError::ApiError(_))));
    assert_eq!(core.get_vm("vm-destroy-fail").unwrap().state, "running");
}

#[test]
fn drain_vms_stops_running_and_paused() {
    let mut core = core_with(vec![
        record(1, "running-vm", "running"),
        record(2, "paused-vm", "paused"),
        record(3, "stopped-vm", "stopped"),
    ]);
    assert_eq!(core.drain_targets(), [1, 2]);
    assert_eq!(core.drain_vms(), 2);
    assert_eq!(state_of(&core, "running-vm"), "stopped");
    assert_eq!(state_of(&core, "paused-vm"), "stopped");
    assert_eq!(state_of(&core, "stopped-vm"), "stopped");
}

#[test]
fn drain_vms_continues_when_stop_fails() {
    let mut core = core_with_vm("vm-fail", "running");
    assert_eq!(core.drain_targets(), vec![ID]);
    assert_eq!(core.drain_vms(), 1);
    assert_eq!(core.get_vm("vm-fail").unwrap().state, "stopped");
}

#[test]
fn drain_vms_returns_zero_when_no_vm_needs_drain() {
    let mut core = core_with(vec![record(1, "a", "stopped"), record(2, "b", "failed")]);
    assert_eq!(core.drain_vms(), 0);
    assert_eq!(state_of(&core, "b"), "failed");
}

#[test]
fn serial_log_path_uses_vm_id_filename() {
    let core = core_with_vm("vm-logs", "running");
    assert_eq!(
        core.serial_log_path("vm-logs").unwrap(),
        "/tmp/husk-mock-test/run/00000000-0000-0000-0000-000000001234.serial.log"
    );
}

#[test]
fn serial_log_path_missing_vm_returns_error() {
    let err = core_with(vec![]).serial_log_path("no-such-vm").unwrap_err().message();
    assert!(err.contains("VM not found"), "unexpected missing-vm error: {err}");
}

#[test]
fn list_vms_returns_inserted_records() {
    let core = core_with(vec![record(1, "vm-a", "running"), record(2, "vm-b", "stopped")]);
    let names: Vec<&str> = core.list_vms().unwrap().iter().map(|vm| vm.name.as_str()).collect();
    assert_eq!(names.len(), 2);
    assert!(names.contains(&"vm-a"));
    assert!(names.contains(&"vm-b"));
}

#[test]
fn create_vm_rejects_duplicate_running_name_before_validation() {
    let mut core = core_with_vm("dup-vm", "running");
    let mut asked = request("dup-vm");
    asked.kernel_path = "/path/that/does/not/matter".into();
    asked.rootfs_path = "/path/that/also/does/not/matter".into();
    let err = begin(&mut core, asked, no_files()).err().unwrap();
    assert!(matches!(err, CoreError::VmAlreadyExists(ref name) if name == "dup-vm"));
}

#[test]
fn create_vm_replaces_stopped_vm_before_validation() {
    let mut core = core_with_vm("replace-vm", "stopped");
    let mut asked = request("replace-vm");
    asked.kernel_path = "/missing-kernel-after-replace".into();
    asked.rootfs_path = "/missing-rootfs-after-replace".into();
    let err = begin(&mut core, asked, no_files()).err().unwrap().message();
    assert!(err.contains("kernel not found"), "unexpected create_vm error after replace: {err}");
    assert!(matches!(core.get_vm("replace-vm"), Err(CoreError::VmNotFound(_))));
}

fn request(name: &str) -> CreateVmRequest {
    CreateVmRequest {
        name: name.into(),
        kernel_path: "/boot/vmlinux".into(),
        rootfs_path: "/images/rootfs.ext4".into(),
        vcpu_count: None,
        mem_size_mib: Some(512),
        initrd_path: None,
        userdata: Some("echo hi".into()),
        env: vec![],
    }
}

fn booted(cid: u32) -> VmInfo {
    VmInfo {
        id: 77,
        name: "new".into(),
        state: VmState::Running,
        pid: Some(5),
        vcpu_count: 1,
        mem_size_mib: 512,
        vsock_cid: cid,
    }
}

#[test]
fn creation_goes_through_its_steps() {
    let mut core = core_with(vec![]);
    let (mut c, step) = core.create_vm(request("new"), boot_files(false));
    match step {
        CreateStep::Run(plan) => assert!(command_line(&plan[0].command).contains("husk3")),
        _ => panic!("expected a TAP device"),
    }
    assert!(matches!(core.create_step_at(&mut c, CreateEvent::Done, NOW), CreateStep::Run(_)));
    match core.create_step_at(&mut c, CreateEvent::Done, NOW) {
        CreateStep::Copy { source, dest } => {
            assert_eq!(source, "/images/rootfs.ext4");
            assert_eq!(dest, "/tmp/husk-mock-test/vms/new/rootfs.ext4");
        }
        _ => panic!("expected a copy"),
    }
    match core.create_step_at(&mut c, CreateEvent::Done, NOW) {
        CreateStep::Boot(config) => {
            assert_eq!(config.vcpu_count, 1);
            assert_eq!(config.mem_size_mib, 512);
            assert_eq!(config.vsock_cid, 3);
            assert_eq!(config.tap_device.as_deref(), Some("husk3"));
            assert_eq!(config.guest_mac.as_deref(), Some("AA:FC:00:00:00:03"));
            assert_eq!(
                config.kernel_args.as_deref(),
                Some(
                    "console=ttyS0 reboot=k panic=1 pci=off \
                     ip=172.20.0.2::172.20.0.1:255.255.255.252::eth0:off"
                )
            );
        }
        _ => panic!("expected to boot"),
    }
    match core.create_step_at(&mut c, CreateEvent::Booted(booted(3)), NOW) {
        CreateStep::Created(r) => {
            assert_eq!(r.name, "new");
            assert_eq!(r.state, "running");
            assert_eq!(r.guest_ip.as_deref(), Some("172.20.0.2"));
            assert_eq!(r.userdata_status.as_deref(), Some("pending"));
            assert_eq!(r.userdata_env, None);
        }
        _ => panic!("expected a VM"),
    }
    assert_eq!(core.get_vm("new").unwrap().id, 77);
}

#[test]
fn creation_without_host_network_copies_first() {
    let mut core = core_with(vec![]);
    core.network = None;
    let (mut c, step) = core.create_vm(request("mac"), boot_files(true));
    assert!(matches!(step, CreateStep::Copy { .. }));
    match core.create_step_at(&mut c, CreateEvent::Done, NOW) {
        CreateStep::Boot(config) => {
            assert_eq!(
                config.kernel_args.as_deref(),
                Some("console=hvc0 root=/dev/vda rw init=/sbin/init")
            );
            assert_eq!(
                config.initrd_path.as_deref(),
                Some("/tmp/husk-mock-test/kernels/initramfs-virt.gz")
            );
            assert!(config.tap_device.is_none());
        }
        _ => panic!("expected to boot"),
    }
}

#[test]
fn failed_creation_gives_back_what_it_took() {
    let mut core = core_with(vec![]);
    let (mut c, _) = core.create_vm(request("new"), boot_files(false));
    core.create_step_at(&mut c, CreateEvent::Done, NOW);
    core.create_step_at(&mut c, CreateEvent::Done, NOW);
    let failed = CreateEvent::Failed(CoreError::Vmm(VmmError::ApiError("no".into())));
    match core.create_step_at(&mut c, failed, NOW) {
        CreateStep::Failed { error, undo } => {
            assert!(matches!(error, CoreError::Vmm(_)));
            assert!(matches!(
                &undo[..],
                [UndoAction::RemoveDir(dir), UndoAction::RemoveNetwork(tap)]
                    if dir == "/tmp/husk-mock-test/vms/new" && tap == "husk3"
            ));
        }
        _ => panic!("expected a failure"),
    }
    assert_eq!(undo_actions(&c.resources).len(), 2);
    core.rollback_create(&c.resources);
    let (c2, _) = core.create_vm(request("again"), boot_files(false));
    assert_eq!(c2.cid, 3);
    assert_eq!(c2.ips, Some((ipv4(172, 20, 0, 1), ipv4(172, 20, 0, 2))));
}

#[test]
fn failing_step_is_undone_too() {
    let failed = || CreateEvent::Failed(CoreError::Vmm(VmmError::ApiError("no".into())));
    // While the TAP device is made, while the rules are added, while the disk is copied, while
    // the VM starts.
    for (done, dir) in [(0, false), (1, false), (2, true), (3, true)] {
        let mut core = core_with(vec![]);
        let (mut c, _) = core.create_vm(request("new"), boot_files(false));
        for _ in 0..done {
            core.create_step_at(&mut c, CreateEvent::Done, NOW);
        }
        let CreateStep::Failed { undo, .. } = core.create_step_at(&mut c, failed(), NOW) else {
            panic!("expected a failure");
        };
        let dirs = undo.iter().filter(|a| matches!(a, UndoAction::RemoveDir(_))).count();
        assert_eq!(dirs == 1, dir);
        assert!(matches!(undo.last(), Some(UndoAction::RemoveNetwork(tap)) if tap == "husk3"));
    }
}

#[test]
fn creation_that_is_not_kept_is_taken_back() {
    let mut core = core_with(vec![]);
    let (mut c, _) = core.create_vm(request("new"), boot_files(false));
    for _ in 0..3 {
        core.create_step_at(&mut c, CreateEvent::Done, NOW);
    }
    let created = core.create_step_at(&mut c, CreateEvent::Booted(booted(3)), NOW);
    assert!(matches!(created, CreateStep::Created(_)));
    match core.creation_not_kept(&mut c, StateError::Io("disk full".into())) {
        CreateStep::Failed { error: CoreError::State(StateError::Io(_)), undo } => {
            assert!(matches!(undo[0], UndoAction::DestroyVm(77)));
            assert_eq!(undo.len(), 3);
        }
        _ => panic!("expected a failure"),
    }
    assert!(core.get_vm("new").is_err());
    core.rollback_create(&c.resources);
    let (c2, _) = core.create_vm(request("again"), boot_files(false));
    assert_eq!(c2.cid, 3);
}

#[test]
fn destroying_a_vm_that_is_gone_fails() {
    let mut core = core_with_vm("vm", "running");
    let (mut d, _) = core.destroy_vm("vm").unwrap();
    destroy(&mut core, "vm").unwrap();
    core.destroy_step(&mut d, DestroyEvent::Asked(Ok(())));
    assert!(matches!(
        core.destroy_step(&mut d, DestroyEvent::Removed),
        DestroyStep::Failed(CoreError::State(StateError::VmNotFound(ID)))
    ));
}

#[test]
fn name_taken_while_booting_fails_the_creation() {
    let mut core = core_with(vec![]);
    let (mut c, _) = core.create_vm(request("new"), boot_files(false));
    for _ in 0..3 {
        core.create_step_at(&mut c, CreateEvent::Done, NOW);
    }
    core.state.insert_vm(record(5, "new", "running")).unwrap();
    match core.create_step_at(&mut c, CreateEvent::Booted(booted(3)), NOW) {
        CreateStep::Failed { error: CoreError::VmAlreadyExists(n), undo } => {
            assert_eq!(n, "new");
            assert!(matches!(undo[0], UndoAction::DestroyVm(77)));
        }
        _ => panic!("expected a failure"),
    }
}

#[test]
fn creation_fails_without_an_address() {
    let mut core = core_with(vec![]);
    core.network = Some(HostNetwork {
        ip_allocator: IpAllocator::new(ipv4(10, 0, 0, 0), 30),
        host_interface: "eth0".into(),
    });
    let (_, first) = core.create_vm(request("a"), boot_files(false));
    assert!(matches!(first, CreateStep::Run(_)));
    let (_, second) = core.create_vm(request("b"), boot_files(false));
    assert!(matches!(
        second,
        CreateStep::Failed { error: CoreError::Network(NetError::PoolExhausted), .. }
    ));
}

#[test]
fn destroying_frees_address_and_context_id() {
    let mut core = core_with(vec![]);
    let (mut c, _) = core.create_vm(request("new"), boot_files(false));
    for _ in 0..3 {
        core.create_step_at(&mut c, CreateEvent::Done, NOW);
    }
    match core.create_step(&mut c, CreateEvent::Booted(booted(3))) {
        CreateStep::Created(r) => assert_eq!(r.created_at, r.updated_at),
        _ => panic!("expected a VM"),
    }
    let removed = destroy_with(&mut core, "new", Ok(())).unwrap();
    assert!(matches!(
        &removed[..],
        [UndoAction::RemoveNetwork(tap), UndoAction::RemoveDir(dir)]
            if tap == "husk3" && dir == "/tmp/husk-mock-test/vms/new"
    ));
    let (c2, _) = core.create_vm(request("again"), boot_files(false));
    assert_eq!(c2.cid, 3);
    assert_eq!(c2.ips, Some((ipv4(172, 20, 0, 1), ipv4(172, 20, 0, 2))));
}

#[test]
fn rotate_serial_logs_rotates_only_large_serial_files() {
    let large = 11 * 1024 * 1024;
    let start = rotate_serial_log("large.serial.log", large).unwrap();
    let rotated_size = large - start;
    assert!(
        rotated_size < 11 * 1024 * 1024 && rotated_size >= 4 * 1024 * 1024,
        "unexpected rotated size: {rotated_size}"
    );
    assert_eq!(rotate_serial_log("small.serial.log", 1024), None);
    assert_eq!(rotate_serial_log("notes.txt", large), None);
}

fn with_userdata(name: &str, state: &str) -> HuskCore {
    with_script(name, state, "exit 0")
}

fn with_script(name: &str, state: &str, script: &str) -> HuskCore {
    let mut r = record(ID, name, state);
    r.userdata = Some(script.into());
    r.userdata_status = Some("pending".into());
    r.userdata_env = Some("[[\"GREETING\",\"hello\"]]".into());
    core_with(vec![r])
}

#[test]
fn run_userdata_marks_completed_on_success() {
    let mut core = with_userdata("vm-userdata-ok", "running");
    let run = core.run_userdata("vm-userdata-ok").unwrap().unwrap();
    assert_eq!((run.command.as_str(), run.args), ("/bin/sh", vec!["-c".into(), "exit 0".into()]));
    assert_eq!(run.env, vec![("GREETING".to_string(), "hello".to_string())]);
    core.finish_userdata(run.id, Ok(0)).unwrap();
    let vm = core.get_vm("vm-userdata-ok").unwrap();
    assert_eq!(vm.userdata_status.as_deref(), Some("completed"));
}

#[test]
fn script_runs_in_the_requested_environment() {
    let env = vec![
        ("GREETING".to_string(), "hello".to_string()),
        ("QUOTED".to_string(), "a \"b\" \\ \n\u{1}\u{e9}".to_string()),
    ];
    let mut core = core_with(vec![]);
    let mut asked = request("new");
    asked.env = env.clone();
    let (mut c, _) = core.create_vm(asked, boot_files(false));
    for _ in 0..3 {
        core.create_step_at(&mut c, CreateEvent::Done, NOW);
    }
    match core.create_step_at(&mut c, CreateEvent::Booted(booted(3)), NOW) {
        CreateStep::Created(r) => assert_eq!(
            r.userdata_env.as_deref(),
            Some("[[\"GREETING\",\"hello\"],[\"QUOTED\",\"a \\\"b\\\" \\\\ \\n\\u0001\u{e9}\"]]")
        ),
        _ => panic!("expected a VM"),
    }
    let run = core.run_userdata("new").unwrap().unwrap();
    assert_eq!((run.command.as_str(), run.args), ("/bin/sh", vec!["-c".into(), "echo hi".into()]));
    assert_eq!(run.env, env);
}

#[test]
fn unreadable_environment_stands_for_none() {
    for text in ["", "not json", "{}", "[1]", "[[\"A\"]]", "[[\"A\",1]]", "[[\"A\",\"B\",\"C\"]]"] {
        let mut r = record(ID, "vm", "running");
        r.userdata = Some("true".into());
        r.userdata_env = Some(text.into());
        let mut core = core_with(vec![r]);
        assert_eq!(core.run_userdata("vm").unwrap().unwrap().env, vec![]);
    }
}

#[test]
fn run_userdata_marks_failed_on_nonzero_exit() {
    let mut core = with_script("vm-userdata-fail", "running", "exit 37");
    let run = core.run_userdata("vm-userdata-fail").unwrap().unwrap();
    assert_eq!(run.args[1], "exit 37");
    core.finish_userdata(run.id, Ok(37)).unwrap();
    let vm = core.get_vm("vm-userdata-fail").unwrap();
    assert_eq!(vm.userdata_status.as_deref(), Some("failed"));
}

#[test]
fn userdata_fails_where_the_agent_does() {
    let mut core = with_userdata("vm", "running");
    let r = core.finish_userdata(ID, Err(AgentError::UnexpectedResponse));
    assert!(matches!(r, Err(CoreError::Agent(_))));
    assert_eq!(core.get_vm("vm").unwrap().userdata_status.as_deref(), Some("failed"));
    assert!(matches!(core.finish_userdata(1, Ok(0)), Err(CoreError::State(_))));
}

#[test]
fn run_userdata_without_script_is_noop() {
    let mut core = core_with_vm("vm-no-userdata", "running");
    assert!(core.run_userdata("vm-no-userdata").unwrap().is_none());
    assert!(core.get_vm("vm-no-userdata").unwrap().userdata_status.is_none());
}

#[test]
fn run_userdata_on_non_running_vm_marks_failed_and_returns_error() {
    let mut core = with_userdata("vm-paused-userdata", "paused");
    let err = match core.run_userdata("vm-paused-userdata") {
        Err(e) => e,
        Ok(_) => panic!("expected an error"),
    };
    assert_eq!(invalid_state(err), ("paused".to_string(), "running".to_string()));
    let vm = core.get_vm("vm-paused-userdata").unwrap();
    assert_eq!(vm.userdata_status.as_deref(), Some("failed"));
}

fn with_addresses(name: &str, guest_ip: Option<&str>, tap: Option<&str>) -> HuskCore {
    let mut r = record(ID, name, "running");
    r.guest_ip = guest_ip.map(|s| s.to_string());
    r.tap_device = tap.map(|s| s.to_string());
    core_with(vec![r])
}

#[test]
fn add_port_forward_rejects_missing_guest_ip() {
    let core = with_addresses("vm-no-guest-ip", None, Some("husk7"));
    let err = core.add_port_forward("vm-no-guest-ip", 18080, 80).err().unwrap().message();
    assert!(err.contains("no guest IP"), "unexpected error: {err}");
}

#[test]
fn add_port_forward_rejects_invalid_guest_ip() {
    let core = with_addresses("vm-invalid-guest-ip", Some("not-an-ip"), Some("husk8"));
    let err = core.add_port_forward("vm-invalid-guest-ip", 18081, 81).err().unwrap().message();
    assert!(err.contains("invalid guest IP"), "unexpected error: {err}");
}

#[test]
fn add_port_forward_rejects_missing_tap_device() {
    let core = with_addresses("vm-no-tap", Some("172.20.0.2"), None);
    let err = core.add_port_forward("vm-no-tap", 18082, 82).err().unwrap().message();
    assert!(err.contains("no TAP device"), "unexpected error: {err}");
}

#[test]
fn remove_port_forward_rejects_missing_tap_device() {
    let core = with_addresses("vm-no-tap-rm", Some("172.20.0.3"), None);
    let err = core.remove_port_forward("vm-no-tap-rm", 18090, None).err().unwrap().message();
    assert!(err.contains("no TAP device"), "unexpected error: {err}");
}

#[test]
fn port_forward_is_added_listed_and_removed() {
    let mut core = with_addresses("vm", Some("172.20.0.2"), Some("husk3"));
    let (id, plan) = core.add_port_forward("vm", 8080, 80).unwrap();
    assert!(command_line(&plan[0].command).contains("172.20.0.2:80"));
    core.finish_add_port_forward(id, 8080, 80).unwrap();
    assert_eq!(core.list_port_forwards("vm").unwrap().len(), 1);
    let err = core.finish_add_port_forward_at(id, 8080, 81, NOW).unwrap_err();
    assert!(matches!(err, CoreError::PortAlreadyForwarded(8080)));
    assert_eq!(err.message(), "host port 8080 is already forwarded");
    assert_eq!(map_error(&err).status, 409);
    assert_eq!(core.list_port_forwards("vm").unwrap().len(), 1);
    let gone = core.finish_add_port_forward_at(9, 8081, 81, NOW).unwrap_err();
    assert!(matches!(gone, CoreError::VmNotFound(_)));
    assert_eq!(core.reconcile_port_forwards_from_state().iter().flatten().count(), 1);
    core.finish_remove_port_forward(8080);
    assert!(core.list_port_forwards("vm").unwrap().is_empty());
    assert!(core.list_port_forwards("nope").is_err());
}

#[test]
fn reconcile_port_forwards_skips_invalid_guest_ip() {
    let mut core = with_addresses("vm-bad-ip", Some("nope"), Some("husk9"));
    core.state
        .insert_port_forward(PortForwardRecord {
            id: 0,
            vm_id: ID,
            host_port: 19000,
            guest_port: 9000,
            protocol: "tcp".into(),
            created_at: NOW.into(),
        })
        .unwrap();
    let plans = core.reconcile_port_forwards_from_state();
    assert_eq!(plans.len(), 1);
    assert_eq!(plans.iter().flatten().count(), 0);
}

#[test]
fn create_snapshot_requires_stopped_vm() {
    let core = core_with_vm("running-vm", "running");
    let inv = Inventory::new();
    let req = CreateSnapshotRequest { name: "snap-1".into(), vm: "running-vm".into() };
    let err = inv.create_snapshot(&core, &req).unwrap_err();
    assert!(matches!(err, CoreError::InvalidState { .. }));
}

#[test]
fn snapshot_roundtrip_create_list_get_delete() {
    let core = core_with_vm("stopped-vm", "stopped");
    let mut inv = Inventory::new();
    let req = CreateSnapshotRequest { name: "snap-1".into(), vm: "stopped-vm".into() };
    let plan = inv.create_snapshot(&core, &req).unwrap();
    assert_eq!(plan.source, "/tmp/husk-mock-test/vms/stopped-vm/rootfs.ext4");
    assert_eq!(plan.target, "/tmp/husk-mock-test/images/snapshots/snap-1.ext4");
    inv.finish_snapshot(req, plan.target).unwrap();

    assert_eq!(inv.snapshots.entries.len(), 1);
    let snapshot = inv.get_snapshot("snap-1").unwrap();
    assert_eq!(snapshot.name, "snap-1");
    assert_eq!(snapshot.source_vm_name, "stopped-vm");
    assert_eq!(snapshot.id >> 76 & 0xf, 4);

    let again = CreateSnapshotRequest { name: "snap-1".into(), vm: "stopped-vm".into() };
    assert!(matches!(
        inv.create_snapshot(&core, &again),
        Err(CoreError::SnapshotAlreadyExists(_))
    ));
    let file = inv.delete_snapshot("snap-1").unwrap();
    assert_eq!(file, "/tmp/husk-mock-test/images/snapshots/snap-1.ext4");
    assert!(inv.snapshots.entries.is_empty());
    assert!(matches!(inv.get_snapshot("snap-1"), Err(CoreError::SnapshotNotFound(_))));
    assert!(matches!(inv.delete_snapshot("snap-1"), Err(CoreError::SnapshotNotFound(_))));
}

#[test]
fn restore_missing_snapshot_returns_404() {
    let inv = Inventory::new();
    assert!(matches!(
        inv.restore_snapshot("missing", request("restored-vm")),
        Err(CoreError::SnapshotNotFound(_))
    ));
}

#[test]
fn snapshot_is_restored_from_its_file() {
    let mut inv = Inventory::new();
    let req = CreateSnapshotRequest { name: "s".into(), vm: "v".into() };
    inv.finish_snapshot(req, "/snap.ext4".into()).unwrap();
    let q = inv.restore_snapshot("s", request("restored-vm")).unwrap();
    assert_eq!(q.rootfs_path, "/snap.ext4");
    assert_eq!(q.name, "restored-vm");
}

#[test]
fn host_group_and_service_crud_basic() {
    let mut inv = Inventory::new();
    let group = CreateHostGroupRequest {
        name: "default".into(),
        description: Some("default hosts".into()),
    };
    inv.create_host_group(group).unwrap();
    assert_eq!(inv.get_host_group("default").unwrap().description.as_deref(), Some("default hosts"));
    let twice = CreateHostGroupRequest { name: "default".into(), description: None };
    assert!(matches!(
        inv.create_host_group(twice),
        Err(CoreError::HostGroupAlreadyExists(_))
    ));

    let service = CreateServiceRequest {
        name: "api".into(),
        host_group: Some("default".into()),
        desired_instances: 2,
        image: Some("ghcr.io/example/api:latest".into()),
    };
    inv.create_service(service).unwrap();
    let s = inv.get_service("api").unwrap();
    assert_eq!(s.desired_instances, 2);
    assert_eq!(s.host_group_id, Some(inv.get_host_group("default").unwrap().id));
    assert_ne!(s.id, inv.get_host_group("default").unwrap().id);
    assert_eq!(s.created_at, s.updated_at);

    inv.delete_service("api").unwrap();
    assert!(matches!(inv.get_service("api"), Err(CoreError::ServiceNotFound(_))));
    assert!(matches!(inv.delete_service("api"), Err(CoreError::ServiceNotFound(_))));
    inv.delete_host_group("default").unwrap();
    assert!(matches!(inv.get_host_group("default"), Err(CoreError::HostGroupNotFound(_))));
    assert!(matches!(inv.delete_host_group("default"), Err(CoreError::HostGroupNotFound(_))));
}

fn service(desired: u32, group: Option<&str>) -> CreateServiceRequest {
    CreateServiceRequest {
        name: "api".into(),
        host_group: group.map(|g| g.to_string()),
        desired_instances: desired,
        image: None,
    }
}

#[test]
fn create_service_unknown_host_group_returns_404() {
    let mut inv = Inventory::new();
    assert!(matches!(
        inv.create_service(service(1, Some("missing-group"))),
        Err(CoreError::HostGroupNotFound(g)) if g == "missing-group"
    ));
}

#[test]
fn create_service_invalid_desired_instances_returns_400() {
    let mut inv = Inventory::new();
    assert!(matches!(
        inv.create_service(service(0, None)),
        Err(CoreError::InvalidArgument(_))
    ));
    inv.create_service(service(1, None)).unwrap();
    assert!(matches!(
        inv.create_service(service(1, None)),
        Err(CoreError::ServiceAlreadyExists(_))
    ));
}

#[test]
fn scale_service_updates_desired_instances() {
    let mut inv = Inventory::new();
    inv.create_service(service(1, None)).unwrap();
    inv.scale_service("api", 4).unwrap();
    assert_eq!(inv.get_service("api").unwrap().desired_instances, 4);
    assert!(matches!(inv.scale_service("no", 4), Err(CoreError::ServiceNotFound(_))));
}

#[test]
fn scale_service_zero_instances_returns_400() {
    let mut inv = Inventory::new();
    inv.create_service(service(1, None)).unwrap();
    assert!(matches!(inv.scale_service("api", 0), Err(CoreError::InvalidArgument(_))));
    assert_eq!(inv.get_service("api").unwrap().desired_instances, 1);
}

#[test]
fn image_endpoints_roundtrip() {
    let mut inv = Inventory::new();
    let req = CreateImageRequest {
        name: "ubuntu-base".into(),
        source_path: "/tmp/source.ext4".into(),
    };
    let plan = inv.create_image("/data", &req).unwrap();
    assert_eq!(plan.target, "/data/images/ubuntu-base.ext4");
    inv.finish_image(req, plan.target).unwrap();
    let image = inv.get_image("ubuntu-base").unwrap();
    assert_eq!(image.name, "ubuntu-base");
    assert_eq!(image.format, "ext4");
    let again = CreateImageRequest { name: "ubuntu-base".into(), source_path: "/x".into() };
    assert!(matches!(inv.create_image("/data", &again), Err(CoreError::ImageAlreadyExists(_))));
    assert_eq!(inv.delete_image("ubuntu-base").unwrap(), "/data/images/ubuntu-base.ext4");
    assert!(matches!(inv.get_image("ubuntu-base"), Err(CoreError::ImageNotFound(_))));
}

#[test]
fn image_without_an_extension_is_raw() {
    let inv = Inventory::new();
    for (source, format) in [("/a.b/disk", "raw"), ("/.hidden", "raw"), ("/x.tar.gz", "gz"), ("y.", "raw")] {
        let req = CreateImageRequest { name: "i".into(), source_path: source.into() };
        let plan = inv.create_image("/d", &req).unwrap();
        assert_eq!(plan.target, format!("/d/images/i.{format}"), "{source}");
    }
}

#[test]
fn catalog_keeps_other_names() {
    let mut c: Catalog<husk::catalog::SnapshotRecord> = Catalog::new();
    for name in ["a", "b", "c"] {
        c.push(husk::catalog::SnapshotRecord {
            id: 1,
            name: name.into(),
            source_vm_name: "v".into(),
            file_path: "/f".into(),
            created_at: NOW.into(),
        });
    }
    assert_eq!(c.remove("b").unwrap().name, "b");
    assert!(c.get("b").is_none());
    assert_eq!(c.position("c"), Some(1));
    assert!(c.remove("b").is_none());
}

#[test]
fn operation_errors_in_words() {
    assert_eq!(CoreError::VmNotFound("x".into()).message(), "VM not found: x");
    assert_eq!(
        CoreError::InvalidState { name: "v".into(), actual: "a".into(), expected: "e".into() }.message(),
        "VM 'v' is a, expected e"
    );
    assert_eq!(CoreError::ImageNotFound("x".into()).message(), "image not found: x");
}

#[test]
fn create_vm_missing_kernel_returns_storage_error() {
    let mut core = core_with(vec![]);
    let missing = BootFiles {
        kernel: KernelFile::Missing,
        rootfs_exists: false,
        initrd_exists: false,
    };
    let (_, step) = core.create_vm(request("vm-missing-kernel"), missing);
    match step {
        CreateStep::Failed { error, .. } => {
            assert!(error.message().contains("kernel not found"), "{}", error.message())
        }
        _ => panic!("the kernel is missing"),
    }
}

#[test]
fn creation_under_a_taken_name_allocates_nothing() {
    let mut core = core_with_vm("dup-vm", "stopped");
    let (c, step) = core.create_vm(request("dup-vm"), boot_files(false));
    assert!(c.resources.cid.is_none() && c.resources.host_ip.is_none());
    assert!(matches!(
        step,
        CreateStep::Failed { error: CoreError::VmAlreadyExists(n), .. } if n == "dup-vm"
    ));
}

#[test]
fn creation_without_files_allocates_nothing() {
    let mut core = core_with(vec![]);
    let missing = BootFiles {
        kernel: KernelFile::Missing,
        rootfs_exists: false,
        initrd_exists: false,
    };
    let (c, step) = core.create_vm(request("new"), missing);
    assert!(c.resources.cid.is_none() && c.resources.host_ip.is_none());
    match step {
        CreateStep::Failed { error: CoreError::Storage(StorageError::KernelNotFound(p)), undo } => {
            assert_eq!(p, request("new").kernel_path);
            assert!(undo.is_empty());
        }
        _ => panic!("the kernel is missing"),
    }
    let no_disk =
        BootFiles { kernel: KernelFile::Present, rootfs_exists: false, initrd_exists: false };
    let (_, step) = core.create_vm(request("new"), no_disk);
    assert!(matches!(
        step,
        CreateStep::Failed { error: CoreError::Storage(StorageError::RootfsNotFound(_)), .. }
    ));
    let compressed = BootFiles {
        kernel: KernelFile::Header(vec![0; 10]),
        rootfs_exists: true,
        initrd_exists: false,
    };
    let (_, step) = core.create_vm(request("new"), compressed);
    assert!(matches!(
        step,
        CreateStep::Failed { error: CoreError::Storage(StorageError::InvalidKernel(_)), .. }
    ));
    let unreadable = BootFiles {
        kernel: KernelFile::Unreadable("permission denied".into()),
        rootfs_exists: true,
        initrd_exists: false,
    };
    let (_, step) = core.create_vm(request("new"), unreadable);
    match step {
        CreateStep::Failed { error, .. } => {
            assert_eq!(error.message(), "storage error: IO error: permission denied")
        }
        _ => panic!("the kernel cannot be read"),
    }
    let (c, _) = core.create_vm(request("new"), boot_files(false));
    assert_eq!(c.cid, 3);
}

/// Records of which the rows of the VM "bad" and of one port forward cannot be read.
fn core_with_unread() -> HuskCore {
    let mut store = StateStore::open_memory();
    store.insert_vm(record(1, "good", "running")).unwrap();
    store.insert_vm(record(2, "bad", "running")).unwrap();
    for port in [8080, 9090] {
        store
            .insert_port_forward(PortForwardRecord {
                id: 0,
                vm_id: 1,
                host_port: port,
                guest_port: 80,
                protocol: "tcp".into(),
                created_at: NOW.into(),
            })
            .unwrap();
    }
    let mut tables = store.to_tables(&UnreadRows::none());
    tables.vms[1].id = "no id".into();
    tables.forwards[1].created_at = "no time".into();
    let (store, unread) = StateStore::from_tables(&tables);
    let storage = StorageConfig { data_dir: "/tmp/husk-mock-test".into() };
    HuskCore::new(store, None, storage, "/tmp/husk-mock-test/run".into()).with_unread(unread)
}

#[test]
fn unread_rows_concern_only_what_meets_them() {
    let mut core = core_with_unread();
    assert_eq!(core.get_vm("good").unwrap().id, 1);
    assert!(core.pause_vm("good").is_ok());
    assert!(matches!(core.get_vm("bad"), Err(CoreError::State(StateError::Database(_)))));
    assert!(matches!(core.destroy_vm("bad"), Err(CoreError::State(_))));
    assert!(matches!(core.list_vms(), Err(CoreError::State(_))));
    assert!(matches!(core.check_name("bad"), Err(CoreError::State(_))));
    assert!(matches!(core.check_name("new"), Ok(false)));
    assert!(matches!(
        core.create_vm(request("bad"), boot_files(false)).1,
        CreateStep::Failed { error: CoreError::VmAlreadyExists(_), .. }
    ));
    assert!(matches!(core.list_port_forwards("good"), Err(CoreError::State(_))));
    assert!(matches!(
        core.finish_add_port_forward(1, 9090, 90),
        Err(CoreError::PortAlreadyForwarded(9090))
    ));
    core.finish_remove_port_forward(9090);
    assert_eq!(core.list_port_forwards("good").unwrap().len(), 1);
    core.finish_add_port_forward(1, 9090, 90).unwrap();
}

#[test]
fn unread_port_forwards_go_with_their_vm() {
    let mut core = core_with_unread();
    assert_eq!(core.unread.forwards.len(), 1);
    destroy(&mut core, "good").unwrap();
    assert!(core.unread.forwards.is_empty());
    assert_eq!(core.unread.vms.len(), 1);
}

#[test]
fn first_unread_row_is_told() {
    let mut store = StateStore::open_memory();
    for (id, name, created) in [(1, "late", "c"), (2, "early", "a"), (3, "middle", "b")] {
        let mut r = record(id, name, "running");
        r.created_at = created.into();
        store.insert_vm(r).unwrap();
    }
    store.insert_vm(record(4, "good", "running")).unwrap();
    for port in [9090, 8080] {
        store
            .insert_port_forward(PortForwardRecord {
                id: 0,
                vm_id: 4,
                host_port: port,
                guest_port: 80,
                protocol: "tcp".into(),
                created_at: NOW.into(),
            })
            .unwrap();
    }
    let mut tables = store.to_tables(&UnreadRows::none());
    tables.vms[1].pid = Some(-2);
    tables.forwards[0].guest_port = -90;
    tables.forwards[1].guest_port = -80;
    let (store, unread) = StateStore::from_tables(&tables);
    let storage = StorageConfig { data_dir: "/tmp/husk-mock-test".into() };
    let core =
        HuskCore::new(store, None, storage, "/tmp/husk-mock-test/run".into()).with_unread(unread);
    assert_eq!(core.unread.vms.len(), 3);
    let e = core.list_vms().unwrap_err().message();
    assert!(e.contains("Integer -2 out of range"), "{e}");
    let e = core.list_port_forwards("good").unwrap_err().message();
    assert!(e.contains("Integer -80 out of range"), "{e}");
}
