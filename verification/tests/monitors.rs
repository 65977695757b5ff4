use husk::apple_vz::{
    check_connection_fd, check_socket_device, connection_outcome, AppleVzBackend, SocketDevice,
};
use husk::firecracker::{
    check_handshake, configure_requests, connect_request, request_outcome, response_outcome,
    serial_log_path, spawn_arguments, FcChange, FcPaths, FcRequest, FirecrackerBackend, Launch,
    LaunchEvent, LaunchStep, ProcessStatus,
};
use husk::json::{parse, to_text, Json};
use husk::vmm::{VmConfig, VmInfo, VmState, VmmError};

fn config(name: &str) -> VmConfig {
    VmConfig {
        name: name.into(),
        vcpu_count: 2,
        mem_size_mib: 256,
        kernel_path: "/var/lib/husk/kernels/vmlinux".into(),
        rootfs_path: "/var/lib/husk/images/ubuntu.ext4".into(),
        kernel_args: None,
        initrd_path: None,
        vsock_cid: 3,
        tap_device: Some("husk3".into()),
        guest_mac: Some("AA:FC:00:00:00:03".into()),
    }
}

fn info(id: u128, name: &str) -> VmInfo {
    VmInfo {
        id,
        name: name.into(),
        state: VmState::Running,
        pid: Some(999),
        vcpu_count: 1,
        mem_size_mib: 128,
        vsock_cid: 3,
    }
}

fn paths() -> FcPaths {
    FcPaths {
        socket_path: "/run/t.sock".into(),
        log_path: "/run/t.log".into(),
        vsock_path: "/run/t.vsock".into(),
        serial_log_path: "/run/t.serial.log".into(),
    }
}

fn text_of(j: &Json, key: &str) -> String {
    j.text_member(key).unwrap().clone()
}

#[test]
fn vm_state_display() {
    assert_eq!(VmState::Creating.name(), "creating");
    assert_eq!(VmState::Running.name(), "running");
    assert_eq!(VmState::Paused.name(), "paused");
    assert_eq!(VmState::Stopped.name(), "stopped");
    assert_eq!(VmState::Failed.name(), "failed");
}

#[test]
fn vm_state_json_roundtrip() {
    for state in [
        VmState::Creating,
        VmState::Running,
        VmState::Paused,
        VmState::Stopped,
        VmState::Failed,
    ] {
        assert_eq!(VmState::from_name(state.name()), Some(state));
    }
    assert_eq!(VmState::from_name("gone"), None);
}

#[test]
fn path_to_str_valid() {
    assert_eq!(
        FirecrackerBackend::path_to_str(Some("/tmp/test.sock".into()), "test").unwrap(),
        "/tmp/test.sock"
    );
    assert!(matches!(
        FirecrackerBackend::path_to_str(None, "test"),
        Err(VmmError::InvalidConfig(_))
    ));
}

#[test]
fn boot_source_payload_omits_initrd_when_not_set() {
    let payload = FirecrackerBackend::boot_source_payload("/tmp/vmlinux", "console=ttyS0", None);
    assert_eq!(text_of(&payload, "kernel_image_path"), "/tmp/vmlinux");
    assert_eq!(text_of(&payload, "boot_args"), "console=ttyS0");
    assert!(
        payload.member("initrd_path").is_none(),
        "initrd_path should be omitted when not configured"
    );
}

#[test]
fn boot_source_payload_includes_initrd_when_set() {
    let payload = FirecrackerBackend::boot_source_payload(
        "/tmp/vmlinux",
        "console=ttyS0",
        Some("/tmp/initrd.img"),
    );
    assert_eq!(text_of(&payload, "kernel_image_path"), "/tmp/vmlinux");
    assert_eq!(text_of(&payload, "boot_args"), "console=ttyS0");
    assert_eq!(text_of(&payload, "initrd_path"), "/tmp/initrd.img");
}

#[test]
fn firecracker_duplicate_name_rejected() {
    let mut backend = FirecrackerBackend::new("firecracker".into(), "/run".into());
    backend.add_instance(info(1, "existing"), paths());
    let err = backend.create_vm("existing").unwrap_err();
    assert!(
        matches!(err, VmmError::VmAlreadyExists(ref name) if name == "existing"),
        "expected VmAlreadyExists, got: {}",
        err.message()
    );
}

#[test]
fn firecracker_vm_not_found() {
    let mut backend = FirecrackerBackend::new("firecracker".into(), "/run".into());
    assert!(matches!(
        backend.vm_info(1, ProcessStatus::Alive),
        Err(VmmError::VmNotFound(1))
    ));
    for change in [FcChange::Stop, FcChange::Pause, FcChange::Resume] {
        assert!(matches!(backend.plan_change(1, change), Err(VmmError::VmNotFound(1))));
    }
    assert!(matches!(backend.destroy_vm(1), Err(VmmError::VmNotFound(1))));
    assert!(matches!(backend.vsock_path(1), Err(VmmError::VmNotFound(1))));
}

#[test]
fn destroy_cleans_up_files() {
    let mut backend = FirecrackerBackend::new("firecracker".into(), "/run".into());
    backend.add_instance(info(1, "cleanup-test"), paths());
    let gone = backend.destroy_vm(1).unwrap();
    assert_eq!(gone.paths.socket_path, "/run/t.sock");
    assert_eq!(gone.paths.vsock_path, "/run/t.vsock");
    assert_eq!(gone.paths.log_path, "/run/t.log");
    assert_eq!(gone.paths.serial_log_path, "/run/t.serial.log");
    assert!(backend.instances.is_empty());
}

#[test]
fn vm_info_detects_dead_process() {
    let mut backend = FirecrackerBackend::new("firecracker".into(), "/run".into());
    backend.add_instance(info(1, "dead-test"), paths());
    let alive = backend.vm_info(1, ProcessStatus::Alive).unwrap();
    assert_eq!(alive.state, VmState::Running);
    let dead = backend.vm_info(1, ProcessStatus::Exited).unwrap();
    assert_eq!(dead.state, VmState::Stopped);
    assert!(dead.pid.is_none());
}

#[test]
fn files_are_named_after_the_id() {
    let backend = FirecrackerBackend::new("firecracker".into(), "/run".into());
    let p = backend.create_vm_as("new", 7).unwrap();
    let id = "00000000-0000-0000-0000-000000000007";
    assert_eq!(p.serial_log_path, format!("/run/{id}.serial.log"));
    assert_eq!(serial_log_path("/run", 7), p.serial_log_path);
    assert!(p.socket_path.contains(id) && p.vsock_path.contains(id) && p.log_path.contains(id));
    let args = spawn_arguments(&p);
    assert!(args.contains(&p.socket_path));
}

#[test]
fn launch_polls_then_configures_then_is_done() {
    let wanted = configure_requests(&config("vm"), "/run/t.vsock").len();
    let (mut launch, mut step) = Launch::start(7, config("vm"), "/run/t.vsock", Some(42));
    let mut sent = 0;
    let mut polls = 0;
    loop {
        step = match step {
            LaunchStep::CheckSocket => {
                polls += 1;
                launch.step(LaunchEvent::Socket(polls > 3))
            }
            LaunchStep::Sleep(ms) => {
                assert_eq!(ms, 100);
                launch.step(LaunchEvent::Slept)
            }
            LaunchStep::Send(_) => {
                sent += 1;
                launch.step(LaunchEvent::Sent)
            }
            LaunchStep::Done(done) => {
                assert_eq!(done.id, 7);
                assert_eq!(done.pid, Some(42));
                assert_eq!(done.state, VmState::Running);
                assert_eq!(done.vcpu_count, 2);
                break;
            }
            LaunchStep::Fail(e) => panic!("{}", e.message()),
        };
    }
    assert_eq!(sent, wanted);
}

#[test]
fn launch_gives_up_without_a_socket() {
    let (mut launch, mut step) = Launch::start(7, config("vm"), "/run/t.vsock", None);
    let mut naps = 0;
    loop {
        step = match step {
            LaunchStep::CheckSocket => launch.step(LaunchEvent::Socket(false)),
            LaunchStep::Sleep(_) => {
                naps += 1;
                launch.step(LaunchEvent::Slept)
            }
            LaunchStep::Fail(VmmError::ProcessError(_)) => break,
            _ => panic!("expected no socket"),
        };
    }
    assert_eq!(naps, 50);
}

#[test]
fn launch_fails_with_the_first_request_that_fails() {
    let (mut launch, step) = Launch::start(7, config("vm"), "/run/t.vsock", None);
    assert!(matches!(step, LaunchStep::CheckSocket));
    let step = launch.step(LaunchEvent::Socket(true));
    let step = match step {
        LaunchStep::CheckSocket => launch.step(LaunchEvent::Socket(true)),
        other => other,
    };
    assert!(matches!(step, LaunchStep::Send(_)));
    let failed = launch.step(LaunchEvent::SendFailed(VmmError::ApiError("bad".into())));
    assert!(matches!(failed, LaunchStep::Fail(VmmError::ApiError(m)) if m == "bad"));
}

#[test]
fn mock_fc_error_response_includes_body() {
    assert!(request_outcome("PUT", "/boot-source", 204, "204 No Content", "").is_ok());
    assert!(response_outcome("PUT", "/vsock", 200, "200 OK", b"").is_ok());
    let err = response_outcome("PUT", "/vsock", 500, "500 Internal Server Error", b"no\xffroom");
    assert_eq!(
        err.unwrap_err().message(),
        "API error: PUT /vsock returned 500 Internal Server Error: no\u{fffd}room"
    );
    let err = request_outcome("PUT", "/boot-source", 400, "400 Bad Request", "bad kernel").unwrap_err();
    assert!(err.message().contains("bad kernel"), "{}", err.message());
    assert!(err.message().contains("/boot-source"), "{}", err.message());
}

#[test]
fn vsock_handshake() {
    assert_eq!(connect_request(52), "CONNECT 52\n");
    assert!(check_handshake("OK 1073741824\n", 52).is_ok());
    assert!(check_handshake("", 52).is_err());
    assert!(check_handshake("NO", 52).is_err());
}

#[test]
fn change_is_asked_for_at_the_socket() {
    let mut backend = FirecrackerBackend::new("firecracker".into(), "/run".into());
    backend.add_instance(info(1, "vm"), paths());
    let (socket, request) = backend.plan_change(1, FcChange::Pause).unwrap();
    assert_eq!(socket, "/run/t.sock");
    assert_eq!(request.path, "/vm");
    assert_eq!(text_of(&request.body, "state"), "Paused");
    backend.complete_change(1, FcChange::Pause);
    assert_eq!(backend.vm_info(1, ProcessStatus::Alive).unwrap().state, VmState::Paused);
    assert_eq!(backend.vsock_path(1).unwrap(), "/run/t.vsock");
}

#[test]
fn apple_vz_keeps_its_machines() {
    let mut b = AppleVzBackend::new();
    let setup = b.create_vm_as(7, &config("mac")).unwrap();
    assert_eq!(setup.memory_bytes, 256 * 1024 * 1024);
    assert_eq!(setup.cpu_count, 2);
    b.add_instance(7, &config("mac"));
    assert!(matches!(b.create_vm_as(8, &config("mac")), Err(VmmError::VmAlreadyExists(_))));
    b.complete_change(7, VmState::Paused);
    assert_eq!(b.vm_info(7).unwrap().state, VmState::Paused);
    assert!(b.destroy_vm(7).is_ok());
    assert!(matches!(b.vm_info(7), Err(VmmError::VmNotFound(7))));
}

#[test]
fn apple_vz_connection_checks() {
    assert!(check_socket_device(SocketDevice::Virtio).is_ok());
    assert!(check_socket_device(SocketDevice::Missing).is_err());
    assert!(check_socket_device(SocketDevice::NotVirtio).is_err());
    assert!(connection_outcome(true, None).is_ok());
    assert!(connection_outcome(false, Some("refused".into())).unwrap_err().message().contains("refused"));
    assert!(connection_outcome(false, None).is_err());
    assert_eq!(check_connection_fd(5).unwrap(), 5);
    assert!(check_connection_fd(-1).is_err());
}

#[test]
fn new_vms_get_random_ids() {
    let backend = FirecrackerBackend::new("firecracker".into(), "/run".into());
    let (a, paths) = backend.create_vm("a").unwrap();
    let (b, setup) = AppleVzBackend::new().create_vm(&config("b")).unwrap();
    assert_ne!(a, b);
    for id in [a, b] {
        assert_eq!(id >> 76 & 0xf, 4);
        assert_eq!(id >> 62 & 0x3, 2);
    }
    assert_eq!(paths.serial_log_path, serial_log_path("/run", a));
    assert!(setup.queue_label.starts_with("com.husk.vm."));
}

#[test]
fn sent_bodies_are_read_back() {
    let pause = FcRequest {
        path: "/vm".into(),
        body: Json::Object(vec![("state".into(), Json::Text("Paused".into()))]),
    };
    assert_eq!(pause.body_text(), "{\"state\":\"Paused\"}");

    let mut quoted = config("vm");
    quoted.kernel_args = Some("init=\"/sbin/init\" \\ \n".into());
    for request in configure_requests(&quoted, "/run/t.vsock") {
        let read = parse(&request.body_text()).unwrap();
        let (sent, got) = match (&request.body, &read) {
            (Json::Object(sent), Json::Object(got)) => (sent, got),
            _ => panic!("expected objects"),
        };
        assert_eq!(sent.len(), got.len());
        for (key, value) in sent {
            assert_eq!(format!("{:?}", read.member(key).unwrap()), format!("{value:?}"));
        }
    }
}

#[test]
fn nested_values_are_written() {
    let inner = Json::Object(vec![("b".into(), Json::Number(Some(7)))]);
    let value = Json::Array(vec![
        Json::Null,
        Json::Bool(true),
        Json::Text("a\"b".into()),
        Json::Array(vec![]),
        inner,
    ]);
    assert_eq!(to_text(&value), "[null,true,\"a\\\"b\",[],{\"b\":7}]");
    assert_eq!(format!("{:?}", parse(&to_text(&value)).unwrap()), format!("{value:?}"));
}
