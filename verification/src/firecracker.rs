//! The Firecracker monitor: how a process is launched and configured, and which VMs it runs.
//!
//! Processes, sockets and files are left to the caller. Launching a VM is a [`Launch`] that says
//! step by step what to do next.
use crate::ident;
use crate::ident::{format_uuid, new_uuid};
use crate::json;
use crate::json::{bool_entry, object, text_entry, uint_entry, Json, JsonView};
use crate::path;
use crate::path::join_path;
use crate::text;
use crate::text::{decimal_of, has_prefix, same_text, text_of_bytes};
use crate::vmm::{VmConfig, VmConfigView, VmInfo, VmInfoView, VmState, VmmError, VmmErrorView};
use vstd::prelude::*;
use vstd::string::*;

verus! {

/// How often the API socket is looked for before the launch is given up.
pub const SOCKET_POLLS: u32 = 50;

/// Milliseconds between two looks for the API socket.
pub const SOCKET_POLL_MS: u64 = 100;

/// A PUT request to the Firecracker API.
pub struct FcRequest {
    pub path: String,
    pub body: Json,
}

/// A request, over sequences.
pub struct FcRequestView {
    pub path: Seq<char>,
    pub body: JsonView,
}

impl View for FcRequest {
    type V = FcRequestView;

    open spec fn view(&self) -> FcRequestView {
        FcRequestView { path: self.path@, body: self.body@ }
    }
}

/// Whether what is sent for a request is sure to be read as its body.
pub open spec fn sendable(r: FcRequestView) -> bool {
    json::writable(r.body) && json::nests_within(r.body, 100)
}

impl FcRequest {
    /// What is sent as the body of the request.
    pub fn body_text(&self) -> (s: String)
        ensures
            sendable(self@) ==> json::json_in(s@) is Some && json::agrees(
                self@.body,
                json::json_in(s@)->0,
            ),
    {
        json::to_text(&self.body)
    }
}

/// The requests, over sequences.
pub open spec fn request_views(v: Seq<FcRequest>) -> Seq<FcRequestView> {
    v.map_values(|r: FcRequest| r@)
}

fn request(path: &str, members: Vec<(String, Json)>) -> (r: FcRequest)
    ensures
        r@.path == path@,
        r@.body == JsonView::Object(json::member_views(members@)),
{
    FcRequest { path: path.to_owned(), body: object(members) }
}

/// The files of a VM.
#[derive(Debug, Clone)]
pub struct FcPaths {
    pub socket_path: String,
    pub log_path: String,
    pub vsock_path: String,
    pub serial_log_path: String,
}

/// The files of a VM, with their paths as characters.
pub struct FcPathsView {
    pub socket_path: Seq<char>,
    pub log_path: Seq<char>,
    pub vsock_path: Seq<char>,
    pub serial_log_path: Seq<char>,
}

impl View for FcPaths {
    type V = FcPathsView;

    open spec fn view(&self) -> FcPathsView {
        FcPathsView {
            socket_path: self.socket_path@,
            log_path: self.log_path@,
            vsock_path: self.vsock_path@,
            serial_log_path: self.serial_log_path@,
        }
    }
}

/// The files of the VM with the given id below a runtime directory.
pub open spec fn paths_for(runtime_dir: Seq<char>, id: u128) -> FcPathsView {
    FcPathsView {
        socket_path: path::joined(runtime_dir, ident::uuid_text(id) + ".sock"@),
        log_path: path::joined(runtime_dir, ident::uuid_text(id) + ".log"@),
        vsock_path: path::joined(runtime_dir, ident::uuid_text(id) + ".vsock"@),
        serial_log_path: serial_log_of(runtime_dir, id),
    }
}

/// Where the serial console of the VM with the given id is logged.
pub open spec fn serial_log_of(runtime_dir: Seq<char>, id: u128) -> Seq<char> {
    path::joined(runtime_dir, ident::uuid_text(id) + ".serial.log"@)
}

/// Where the serial console of the VM with the given id is logged.
pub fn serial_log_path(runtime_dir: &str, id: u128) -> (p: String)
    ensures
        p@ == serial_log_of(runtime_dir@, id),
{
    let mut name = format_uuid(id);
    name.append(".serial.log");
    join_path(runtime_dir, name.as_str())
}

fn fc_paths(runtime_dir: &str, id: u128) -> (p: FcPaths)
    ensures
        p@ == paths_for(runtime_dir@, id),
{
    let mut socket = format_uuid(id);
    socket.append(".sock");
    let mut log = format_uuid(id);
    log.append(".log");
    let mut vsock = format_uuid(id);
    vsock.append(".vsock");
    FcPaths {
        socket_path: join_path(runtime_dir, socket.as_str()),
        log_path: join_path(runtime_dir, log.as_str()),
        vsock_path: join_path(runtime_dir, vsock.as_str()),
        serial_log_path: serial_log_path(runtime_dir, id),
    }
}

/// A VM that Firecracker runs.
#[derive(Debug)]
pub struct FcInstance {
    pub info: VmInfo,
    pub paths: FcPaths,
}

/// A VM that Firecracker runs, with texts as characters.
pub struct FcInstanceView {
    pub info: VmInfoView,
    pub paths: FcPathsView,
}

impl View for FcInstance {
    type V = FcInstanceView;

    open spec fn view(&self) -> FcInstanceView {
        FcInstanceView { info: self.info@, paths: self.paths@ }
    }
}

/// The VMs, with texts as characters.
pub open spec fn instance_views(v: Seq<FcInstance>) -> Seq<FcInstanceView> {
    v.map_values(|i: FcInstance| i@)
}

/// The Firecracker monitor and the VMs that it runs.
pub struct FirecrackerBackend {
    pub firecracker_bin: String,
    pub runtime_dir: String,
    pub instances: Vec<FcInstance>,
}

/// The monitor, with texts as characters.
pub struct FirecrackerView {
    pub firecracker_bin: Seq<char>,
    pub runtime_dir: Seq<char>,
    pub instances: Seq<FcInstanceView>,
}

impl View for FirecrackerBackend {
    type V = FirecrackerView;

    open spec fn view(&self) -> FirecrackerView {
        FirecrackerView {
            firecracker_bin: self.firecracker_bin@,
            runtime_dir: self.runtime_dir@,
            instances: instance_views(self.instances@),
        }
    }
}

impl FirecrackerView {
    /// The ids of the VMs are unique.
    pub open spec fn wf(self) -> bool {
        forall|i: int, j: int|
            0 <= i < j < self.instances.len() ==> (#[trigger] self.instances[i]).info.id != (
            #[trigger] self.instances[j]).info.id
    }

    /// Whether a VM with the given id runs.
    pub open spec fn has_id(self, id: u128) -> bool {
        exists|i: int|
            0 <= i < self.instances.len() && (#[trigger] self.instances[i]).info.id == id
    }

    /// Whether a VM with the given name runs.
    pub open spec fn has_name(self, name: Seq<char>) -> bool {
        exists|i: int|
            0 <= i < self.instances.len() && (#[trigger] self.instances[i]).info.name == name
    }

    /// Position `i` holds the VM with the given id.
    pub open spec fn at(self, i: int, id: u128) -> bool {
        0 <= i < self.instances.len() && self.instances[i].info.id == id
    }

    /// The monitor with other VMs.
    pub open spec fn with_instances(self, instances: Seq<FcInstanceView>) -> FirecrackerView {
        FirecrackerView { instances, ..self }
    }

    /// The monitor with the state and the process of the VM at position `i` changed.
    pub open spec fn with_state(self, i: int, state: VmState, pid: Option<u32>) -> FirecrackerView {
        self.with_instances(
            self.instances.update(
                i,
                FcInstanceView {
                    info: VmInfoView { state, pid, ..self.instances[i].info },
                    ..self.instances[i]
                },
            ),
        )
    }
}

/// A change of a running VM that Firecracker is asked for.
#[derive(Debug, Clone, Copy, PartialEq, Eq, Structural)]
pub enum FcChange {
    Stop,
    Pause,
    Resume,
}

/// The request for a change.
pub open spec fn change_request(change: FcChange) -> FcRequestView {
    match change {
        FcChange::Stop => FcRequestView {
            path: "/actions"@,
            body: JsonView::Object(
                seq![("action_type"@, JsonView::Text("SendCtrlAltDel"@))],
            ),
        },
        FcChange::Pause => FcRequestView {
            path: "/vm"@,
            body: JsonView::Object(seq![("state"@, JsonView::Text("Paused"@))]),
        },
        FcChange::Resume => FcRequestView {
            path: "/vm"@,
            body: JsonView::Object(seq![("state"@, JsonView::Text("Resumed"@))]),
        },
    }
}

/// The state that a VM has after a change.
pub open spec fn changed_state(change: FcChange) -> VmState {
    match change {
        FcChange::Stop => VmState::Stopped,
        FcChange::Pause => VmState::Paused,
        FcChange::Resume => VmState::Running,
    }
}

/// What is known of the process of a VM.
#[derive(Debug, Clone, Copy, PartialEq, Eq, Structural)]
pub enum ProcessStatus {
    Alive,
    Exited,
    Unknown,
}

/// The state and the process of a VM whose process was looked at. Only a VM that should be
/// running is affected.
pub open spec fn observed(info: VmInfoView, status: ProcessStatus) -> (VmState, Option<u32>) {
    if info.state == VmState::Running || info.state == VmState::Paused {
        match status {
            ProcessStatus::Alive => (info.state, info.pid),
            ProcessStatus::Exited => (VmState::Stopped, None),
            ProcessStatus::Unknown => (VmState::Failed, None),
        }
    } else {
        (info.state, info.pid)
    }
}

impl FirecrackerBackend {
    /// A monitor that runs no VM yet.
    pub fn new(firecracker_bin: String, runtime_dir: String) -> (b: FirecrackerBackend)
        ensures
            b@.wf(),
            b@.firecracker_bin == firecracker_bin@,
            b@.runtime_dir == runtime_dir@,
            b@.instances.len() == 0,
    {
        FirecrackerBackend { firecracker_bin, runtime_dir, instances: Vec::new() }
    }

    fn index_of(&self, id: u128) -> (r: Option<usize>)
        ensures
            match r {
                Some(i) => self@.at(i as int, id),
                None => !self@.has_id(id),
            },
    {
        let mut i: usize = 0;
        while i < self.instances.len()
            invariant
                i <= self.instances@.len(),
                forall|k: int| 0 <= k < i ==> (#[trigger] self@.instances[k]).info.id != id,
            decreases self.instances.len() - i,
        {
            if self.instances[i].info.id == id {
                return Some(i);
            }
            i = i + 1;
        }
        None
    }

    /// Begins to create a VM: its id, and the files that it will have. A name that is taken is
    /// refused.
    pub fn create_vm(&self, name: &str) -> (r: Result<(u128, FcPaths), VmmError>)
        ensures
            match r {
                Ok((id, paths)) => !self@.has_name(name@) && ident::is_random_uuid(id) && paths@
                    == paths_for(self@.runtime_dir, id),
                Err(e) => self@.has_name(name@) && e@ == VmmErrorView::VmAlreadyExists(name@),
            },
    {
        let id = new_uuid();
        match self.create_vm_as(name, id) {
            Ok(paths) => Ok((id, paths)),
            Err(e) => Err(e),
        }
    }

    /// Begins to create a VM under the given id.
    pub fn create_vm_as(&self, name: &str, id: u128) -> (r: Result<FcPaths, VmmError>)
        ensures
            match r {
                Ok(paths) => !self@.has_name(name@) && paths@ == paths_for(self@.runtime_dir, id),
                Err(e) => self@.has_name(name@) && e@ == VmmErrorView::VmAlreadyExists(name@),
            },
    {
        let mut i: usize = 0;
        while i < self.instances.len()
            invariant
                i <= self.instances@.len(),
                forall|k: int| 0 <= k < i ==> (#[trigger] self@.instances[k]).info.name != name@,
            decreases self.instances.len() - i,
        {
            if same_text(self.instances[i].info.name.as_str(), name) {
                assert(self@.instances[i as int].info.name == name@);
                return Err(VmmError::VmAlreadyExists(name.to_owned()));
            }
            i = i + 1;
        }
        Ok(fc_paths(self.runtime_dir.as_str(), id))
    }

    /// Notes a VM that was launched.
    pub fn add_instance(&mut self, info: VmInfo, paths: FcPaths)
        requires
            old(self)@.wf(),
            !old(self)@.has_id(info.id),
        ensures
            final(self)@.wf(),
            final(self)@ == old(self)@.with_instances(
                old(self)@.instances.push(FcInstanceView { info: info@, paths: paths@ }),
            ),
    {
        let ghost before = self@;
        self.instances.push(FcInstance { info, paths });
        proof {
            assert(self@.instances =~= before.instances.push(
                FcInstanceView { info: info@, paths: paths@ },
            ));
        }
    }

    /// The socket and the request for a change of a VM.
    pub fn plan_change(&self, id: u128, change: FcChange) -> (r: Result<
        (String, FcRequest),
        VmmError,
    >)
        ensures
            match r {
                Ok((socket, req)) => {
                    &&& exists|i: int| #[trigger]
                        self@.at(i, id) && socket@ == self@.instances[i].paths.socket_path
                    &&& req@ == change_request(change)
                    &&& requested_state(req@) == Some(changed_state(change))
                    &&& change == FcChange::Resume ==> req@.path == "/vm"@
                        && req@.body.text_member("state"@) == Some("Resumed"@)
                    &&& change == FcChange::Pause ==> req@.path == "/vm"@
                        && req@.body.text_member("state"@) == Some("Paused"@)
                    &&& change == FcChange::Stop ==> req@.path == "/actions"@
                        && req@.body.text_member("action_type"@) == Some("SendCtrlAltDel"@)
                },
                Err(e) => !self@.has_id(id) && e@ == VmmErrorView::VmNotFound(id),
            },
    {
        match self.index_of(id) {
            Some(i) => {
                let req = match change {
                    FcChange::Stop => request(
                        "/actions",
                        vec![text_entry("action_type", "SendCtrlAltDel")],
                    ),
                    FcChange::Pause => request("/vm", vec![text_entry("state", "Paused")]),
                    FcChange::Resume => request("/vm", vec![text_entry("state", "Resumed")]),
                };
                proof {
                    assert(req@.body->Object_0 =~= change_request(change).body->Object_0);
                    assert(self@.at(i as int, id));
                    change_names(change);
                    change_leads_to_the_noted_state(change, change);
                }
                Ok((self.instances[i].paths.socket_path.clone(), req))
            },
            None => Err(VmmError::VmNotFound(id)),
        }
    }

    /// Notes that Firecracker has made a change. A VM that is gone by now stays gone.
    pub fn complete_change(&mut self, id: u128, change: FcChange)
        requires
            old(self)@.wf(),
        ensures
            final(self)@.wf(),
            old(self)@.has_id(id) ==> exists|i: int| #[trigger]
                old(self)@.at(i, id) && final(self)@ == old(self)@.with_state(
                    i,
                    changed_state(change),
                    old(self)@.instances[i].info.pid,
                ),
            !old(self)@.has_id(id) ==> final(self)@ == old(self)@,
    {
        if let Some(i) = self.index_of(id) {
            let ghost before = self@;
            let state = match change {
                FcChange::Stop => VmState::Stopped,
                FcChange::Pause => VmState::Paused,
                FcChange::Resume => VmState::Running,
            };
            self.instances[i].info.state = state;
            proof {
                assert(before.at(i as int, id));
                assert(self@.instances =~= before.with_state(
                    i as int,
                    state,
                    before.instances[i as int].info.pid,
                ).instances);
            }
        }
    }

    /// Takes a VM out, for its process to be killed and its files to be removed.
    pub fn destroy_vm(&mut self, id: u128) -> (r: Result<FcInstance, VmmError>)
        requires
            old(self)@.wf(),
        ensures
            final(self)@.wf(),
            match r {
                Ok(instance) => exists|i: int| #[trigger]
                    old(self)@.at(i, id) && instance@ == old(self)@.instances[i] && final(self)@
                        == old(self)@.with_instances(old(self)@.instances.remove(i)),
                Err(e) => {
                    &&& !old(self)@.has_id(id)
                    &&& e@ == VmmErrorView::VmNotFound(id)
                    &&& final(self)@ == old(self)@
                },
            },
    {
        match self.index_of(id) {
            Some(i) => {
                let ghost before = self@;
                let instance = self.instances.remove(i);
                proof {
                    assert(before.at(i as int, id));
                    assert(self@.instances =~= before.instances.remove(i as int));
                    assert forall|a: int, b: int| 0 <= a < b < self@.instances.len() implies (
                    #[trigger] self@.instances[a]).info.id != (
                    #[trigger] self@.instances[b]).info.id by {
                        let a2 = if a < i {
                            a
                        } else {
                            a + 1
                        };
                        let b2 = if b < i {
                            b
                        } else {
                            b + 1
                        };
                        assert(self@.instances[a] == before.instances[a2]);
                        assert(self@.instances[b] == before.instances[b2]);
                    }
                }
                Ok(instance)
            },
            None => Err(VmmError::VmNotFound(id)),
        }
    }

    /// What is known of a VM, after its process was looked at.
    pub fn vm_info(&mut self, id: u128, status: ProcessStatus) -> (r: Result<VmInfo, VmmError>)
        requires
            old(self)@.wf(),
        ensures
            final(self)@.wf(),
            match r {
                Ok(info) => exists|i: int| #[trigger]
                    old(self)@.at(i, id) && final(self)@ == ({
                        let (state, pid) = observed(old(self)@.instances[i].info, status);
                        old(self)@.with_state(i, state, pid)
                    }) && info@ == final(self)@.instances[i].info,
                Err(e) => {
                    &&& !old(self)@.has_id(id)
                    &&& e@ == VmmErrorView::VmNotFound(id)
                    &&& final(self)@ == old(self)@
                },
            },
    {
        match self.index_of(id) {
            Some(i) => {
                let ghost before = self@;
                let was = self.instances[i].info.state;
                if was == VmState::Running || was == VmState::Paused {
                    match status {
                        ProcessStatus::Exited => {
                            self.instances[i].info.state = VmState::Stopped;
                            self.instances[i].info.pid = None;
                        },
                        ProcessStatus::Alive => {},
                        ProcessStatus::Unknown => {
                            self.instances[i].info.state = VmState::Failed;
                            self.instances[i].info.pid = None;
                        },
                    }
                }
                proof {
                    let (state, pid) = observed(before.instances[i as int].info, status);
                    assert(before.at(i as int, id));
                    assert(self@.instances =~= before.with_state(i as int, state, pid).instances);
                }
                Ok(self.instances[i].info.copy())
            },
            None => Err(VmmError::VmNotFound(id)),
        }
    }

    /// The vsock socket of a VM.
    pub fn vsock_path(&self, id: u128) -> (r: Result<String, VmmError>)
        ensures
            match r {
                Ok(path) => exists|i: int| #[trigger]
                    self@.at(i, id) && path@ == self@.instances[i].paths.vsock_path,
                Err(e) => !self@.has_id(id) && e@ == VmmErrorView::VmNotFound(id),
            },
    {
        match self.index_of(id) {
            Some(i) => {
                assert(self@.at(i as int, id));
                Ok(self.instances[i].paths.vsock_path.clone())
            },
            None => Err(VmmError::VmNotFound(id)),
        }
    }

    /// A path that is text, or an error that names what is not.
    pub fn path_to_str(path: Option<String>, label: &str) -> (r: Result<String, VmmError>)
        ensures
            match r {
                Ok(s) => path matches Some(p) && s@ == p@,
                Err(e) => path is None && e@ == VmmErrorView::InvalidConfig(
                    label@ + " is not valid UTF-8"@,
                ),
            },
    {
        match path {
            Some(p) => Ok(p),
            None => {
                let mut m = label.to_owned();
                m.append(" is not valid UTF-8");
                Err(VmmError::InvalidConfig(m))
            },
        }
    }

    /// The body of the request that sets the boot source. Without an initrd the field is left
    /// out.
    pub fn boot_source_payload(
        kernel_image_path: &str,
        boot_args: &str,
        initrd_path: Option<&str>,
    ) -> (body: Json)
        ensures
            body@ == boot_source_body(
                kernel_image_path@,
                boot_args@,
                match initrd_path {
                    Some(p) => Some(p@),
                    None => None,
                },
            ),
    {
        let mut members: Vec<(String, Json)> = vec![
            text_entry("kernel_image_path", kernel_image_path),
            text_entry("boot_args", boot_args),
        ];
        if let Some(p) = initrd_path {
            members.push(text_entry("initrd_path", p));
        }
        let body = object(members);
        proof {
            let want = boot_source_body(
                kernel_image_path@,
                boot_args@,
                match initrd_path {
                    Some(p) => Some(p@),
                    None => None,
                },
            );
            assert(body@->Object_0 =~= want->Object_0);
        }
        body
    }
}

/// The body of the request that sets the boot source.
pub open spec fn boot_source_body(
    kernel_image_path: Seq<char>,
    boot_args: Seq<char>,
    initrd_path: Option<Seq<char>>,
) -> JsonView {
    let members = seq![
        ("kernel_image_path"@, JsonView::Text(kernel_image_path)),
        ("boot_args"@, JsonView::Text(boot_args)),
    ];
    match initrd_path {
        Some(p) => JsonView::Object(members.push(("initrd_path"@, JsonView::Text(p)))),
        None => JsonView::Object(members),
    }
}

/// The kernel arguments of a VM that has none configured.
pub open spec fn default_kernel_args() -> Seq<char> {
    "console=ttyS0 reboot=k panic=1 pci=off ip=172.20.0.2::172.20.0.1:255.255.255.252::eth0:off"@
}

/// The requests that configure and start a VM, in order.
pub open spec fn configure_plan(c: VmConfigView, vsock_path: Seq<char>) -> Seq<FcRequestView> {
    let boot = FcRequestView {
        path: "/boot-source"@,
        body: boot_source_body(
            c.kernel_path,
            match c.kernel_args {
                Some(args) => args,
                None => default_kernel_args(),
            },
            c.initrd_path,
        ),
    };
    let drive = FcRequestView {
        path: "/drives/rootfs"@,
        body: JsonView::Object(
            seq![
                ("drive_id"@, JsonView::Text("rootfs"@)),
                ("path_on_host"@, JsonView::Text(c.rootfs_path)),
                ("is_root_device"@, JsonView::Bool(true)),
                ("is_read_only"@, JsonView::Bool(false)),
            ],
        ),
    };
    let machine = FcRequestView {
        path: "/machine-config"@,
        body: JsonView::Object(
            seq![
                ("vcpu_count"@, JsonView::Number(Some(c.vcpu_count as u64))),
                ("mem_size_mib"@, JsonView::Number(Some(c.mem_size_mib as u64))),
            ],
        ),
    };
    let network = match c.tap_device {
        Some(tap) => seq![
            FcRequestView {
                path: "/network-interfaces/eth0"@,
                body: JsonView::Object(
                    seq![
                        ("iface_id"@, JsonView::Text("eth0"@)),
                        (
                            "guest_mac"@,
                            JsonView::Text(
                                match c.guest_mac {
                                    Some(mac) => mac,
                                    None => "AA:FC:00:00:00:01"@,
                                },
                            ),
                        ),
                        ("host_dev_name"@, JsonView::Text(tap)),
                    ],
                ),
            },
        ],
        None => seq![],
    };
    let vsock = FcRequestView {
        path: "/vsock"@,
        body: JsonView::Object(
            seq![
                ("guest_cid"@, JsonView::Number(Some(c.vsock_cid as u64))),
                ("uds_path"@, JsonView::Text(vsock_path)),
            ],
        ),
    };
    let start = FcRequestView {
        path: "/actions"@,
        body: JsonView::Object(seq![("action_type"@, JsonView::Text("InstanceStart"@))]),
    };
    seq![boot, drive, machine] + network + seq![vsock, start]
}

/// The requests that configure and start a VM, in order.
pub fn configure_requests(config: &VmConfig, vsock_path: &str) -> (plan: Vec<FcRequest>)
    ensures
        request_views(plan@) == configure_plan(config@, vsock_path@),
        ({
            let sent = request_views(plan@);
            let vcpus = JsonView::Number(Some(config.vcpu_count as u64));
            let memory = JsonView::Number(Some(config.mem_size_mib as u64));
            let cid = JsonView::Number(Some(config.vsock_cid as u64));
            let disk = JsonView::Text(config.rootfs_path@);
            &&& asks(sent, "/machine-config"@, "vcpu_count"@, Some(vcpus))
            &&& asks(sent, "/machine-config"@, "mem_size_mib"@, Some(memory))
            &&& asks(sent, "/drives/rootfs"@, "path_on_host"@, Some(disk))
            &&& asks(sent, "/drives/rootfs"@, "is_read_only"@, Some(JsonView::Bool(false)))
            &&& config.tap_device matches Some(tap) ==> asks(
                sent,
                "/network-interfaces/eth0"@,
                "host_dev_name"@,
                Some(JsonView::Text(tap@)),
            )
            &&& config.tap_device is Some && config.guest_mac is Some ==> asks(
                sent,
                "/network-interfaces/eth0"@,
                "guest_mac"@,
                Some(JsonView::Text(config.guest_mac->0@)),
            )
            &&& asks(sent, "/vsock"@, "guest_cid"@, Some(cid))
        }),
{
    let mut plan: Vec<FcRequest> = Vec::new();
    let ghost want = configure_plan(config@, vsock_path@);
    let args = match &config.kernel_args {
        Some(args) => args.as_str(),
        None =>
            "console=ttyS0 reboot=k panic=1 pci=off ip=172.20.0.2::172.20.0.1:255.255.255.252::eth0:off",
    };
    let initrd = match &config.initrd_path {
        Some(p) => Some(p.as_str()),
        None => None,
    };
    plan.push(
        FcRequest {
            path: "/boot-source".to_owned(),
            body: FirecrackerBackend::boot_source_payload(
                config.kernel_path.as_str(),
                args,
                initrd,
            ),
        },
    );
    assert(plan@[0]@ == want[0]);
    plan.push(
        request(
            "/drives/rootfs",
            vec![
                text_entry("drive_id", "rootfs"),
                text_entry("path_on_host", config.rootfs_path.as_str()),
                bool_entry("is_root_device", true),
                bool_entry("is_read_only", false),
            ],
        ),
    );
    assert(plan@[1]@.body->Object_0 =~= want[1].body->Object_0);
    plan.push(
        request(
            "/machine-config",
            vec![
                uint_entry("vcpu_count", config.vcpu_count as u64),
                uint_entry("mem_size_mib", config.mem_size_mib as u64),
            ],
        ),
    );
    assert(plan@[2]@.body->Object_0 =~= want[2].body->Object_0);
    let ghost first = request_views(plan@);
    assert(first =~= want.take(3));
    if let Some(tap) = &config.tap_device {
        let mac = match &config.guest_mac {
            Some(mac) => mac.as_str(),
            None => "AA:FC:00:00:00:01",
        };
        plan.push(
            request(
                "/network-interfaces/eth0",
                vec![
                    text_entry("iface_id", "eth0"),
                    text_entry("guest_mac", mac),
                    text_entry("host_dev_name", tap.as_str()),
                ],
            ),
        );
        assert(plan@[3]@.body->Object_0 =~= want[3].body->Object_0);
    }
    let ghost n = plan@.len() as int;
    assert(request_views(plan@) =~= want.take(n));
    plan.push(
        request(
            "/vsock",
            vec![
                uint_entry("guest_cid", config.vsock_cid as u64),
                text_entry("uds_path", vsock_path),
            ],
        ),
    );
    assert(plan@[n]@.body->Object_0 =~= want[n].body->Object_0);
    plan.push(request("/actions", vec![text_entry("action_type", "InstanceStart")]));
    assert(plan@[n + 1]@.body->Object_0 =~= want[n + 1].body->Object_0);
    assert(request_views(plan@) =~= want);
    proof {
        configured_vm_is_asked_for(config@, vsock_path@);
    }
    plan
}

/// How far a launch has come.
#[derive(Debug, Clone, Copy, PartialEq, Eq, Structural)]
pub enum LaunchStage {
    /// The API socket was looked for `polls` times without success.
    Polling { polls: u32 },
    /// The wait for the API socket is over; it is looked for once more.
    Confirming,
    /// The configuration is being sent.
    Configuring,
}

/// The launch of a VM whose Firecracker process has been started.
pub struct Launch {
    pub stage: LaunchStage,
    /// The requests that are still to be sent.
    pub pending: Vec<FcRequest>,
    /// What will be known of the VM once it runs.
    pub info: VmInfo,
}

/// A launch, over sequences.
pub struct LaunchView {
    pub stage: LaunchStage,
    pub pending: Seq<FcRequestView>,
    pub info: VmInfoView,
}

impl View for Launch {
    type V = LaunchView;

    open spec fn view(&self) -> LaunchView {
        LaunchView {
            stage: self.stage,
            pending: request_views(self.pending@),
            info: self.info@,
        }
    }
}

/// What became of the last step of a launch.
pub enum LaunchEvent {
    /// Whether the API socket is there.
    Socket(bool),
    /// The pause is over.
    Slept,
    /// The request was answered with success.
    Sent,
    /// The request failed.
    SendFailed(VmmError),
}

/// An event of a launch, with texts as characters.
pub enum LaunchEventView {
    Socket(bool),
    Slept,
    Sent,
    SendFailed(VmmErrorView),
}

impl View for LaunchEvent {
    type V = LaunchEventView;

    open spec fn view(&self) -> LaunchEventView {
        match self {
            LaunchEvent::Socket(there) => LaunchEventView::Socket(*there),
            LaunchEvent::Slept => LaunchEventView::Slept,
            LaunchEvent::Sent => LaunchEventView::Sent,
            LaunchEvent::SendFailed(e) => LaunchEventView::SendFailed(e@),
        }
    }
}

/// What to do next in a launch.
pub enum LaunchStep {
    /// Look whether the API socket is there.
    CheckSocket,
    /// Pause for so many milliseconds.
    Sleep(u64),
    /// Send a request.
    Send(FcRequest),
    /// The VM runs.
    Done(VmInfo),
    /// The launch has failed; the serial log is to be removed.
    Fail(VmmError),
}

/// A step of a launch, over sequences.
pub enum LaunchStepView {
    CheckSocket,
    Sleep(u64),
    Send(FcRequestView),
    Done(VmInfoView),
    Fail(VmmErrorView),
}

impl View for LaunchStep {
    type V = LaunchStepView;

    open spec fn view(&self) -> LaunchStepView {
        match self {
            LaunchStep::CheckSocket => LaunchStepView::CheckSocket,
            LaunchStep::Sleep(ms) => LaunchStepView::Sleep(*ms),
            LaunchStep::Send(r) => LaunchStepView::Send(r@),
            LaunchStep::Done(info) => LaunchStepView::Done(info@),
            LaunchStep::Fail(e) => LaunchStepView::Fail(e@),
        }
    }
}

impl LaunchView {
    /// The launch is still looking for the socket within its bound, or is past that.
    pub open spec fn wf(self) -> bool {
        self.stage matches LaunchStage::Polling { polls } ==> polls < SOCKET_POLLS
    }

    /// The events that can follow the last step.
    pub open spec fn expects(self, event: LaunchEventView) -> bool {
        match (self.stage, event) {
            (LaunchStage::Polling { .. }, LaunchEventView::Socket(_)) => true,
            (LaunchStage::Polling { .. }, LaunchEventView::Slept) => true,
            (LaunchStage::Confirming, LaunchEventView::Socket(_)) => true,
            (LaunchStage::Configuring, LaunchEventView::Sent) => true,
            (LaunchStage::Configuring, LaunchEventView::SendFailed(_)) => true,
            _ => false,
        }
    }

    /// The launch at another stage.
    pub open spec fn at_stage(self, stage: LaunchStage) -> LaunchView {
        LaunchView { stage, ..self }
    }

    /// The next request, or the end where all were sent.
    pub open spec fn send_next(self) -> (LaunchView, LaunchStepView) {
        if self.pending.len() == 0 {
            (self.at_stage(LaunchStage::Configuring), LaunchStepView::Done(self.info))
        } else {
            (
                LaunchView {
                    stage: LaunchStage::Configuring,
                    pending: self.pending.skip(1),
                    ..self
                },
                LaunchStepView::Send(self.pending[0]),
            )
        }
    }

    /// The launch and the step after an event.
    pub open spec fn after(self, event: LaunchEventView) -> (LaunchView, LaunchStepView) {
        match (self.stage, event) {
            (LaunchStage::Polling { polls }, LaunchEventView::Socket(there)) => if there {
                (self.at_stage(LaunchStage::Confirming), LaunchStepView::CheckSocket)
            } else {
                (self, LaunchStepView::Sleep(SOCKET_POLL_MS))
            },
            (LaunchStage::Polling { polls }, _) => if polls + 1 < SOCKET_POLLS {
                (
                    self.at_stage(LaunchStage::Polling { polls: (polls + 1) as u32 }),
                    LaunchStepView::CheckSocket,
                )
            } else {
                (self.at_stage(LaunchStage::Confirming), LaunchStepView::CheckSocket)
            },
            (LaunchStage::Confirming, LaunchEventView::Socket(there)) => if there {
                self.send_next()
            } else {
                (
                    self,
                    LaunchStepView::Fail(
                        VmmErrorView::ProcessError("Firecracker socket did not appear within 5s"@),
                    ),
                )
            },
            (_, LaunchEventView::SendFailed(e)) => (self, LaunchStepView::Fail(e)),
            _ => self.send_next(),
        }
    }
}

/// What is known of a VM that runs with the given configuration.
pub open spec fn running_info(id: u128, config: VmConfigView, pid: Option<u32>) -> VmInfoView {
    VmInfoView {
        id,
        name: config.name,
        state: VmState::Running,
        pid,
        vcpu_count: config.vcpu_count,
        mem_size_mib: config.mem_size_mib,
        vsock_cid: config.vsock_cid,
    }
}

impl Launch {
    /// The launch of a VM whose process was started, and its first step.
    pub fn start(id: u128, config: VmConfig, vsock_path: &str, pid: Option<u32>) -> (r: (
        Launch,
        LaunchStep,
    ))
        ensures
            r.0@.wf(),
            r.0@.stage == (LaunchStage::Polling { polls: 0 }),
            r.0@.pending == configure_plan(config@, vsock_path@),
            ({
                let sent = r.0@.pending;
                let vcpus = JsonView::Number(Some(config.vcpu_count as u64));
                let memory = JsonView::Number(Some(config.mem_size_mib as u64));
                let cid = JsonView::Number(Some(config.vsock_cid as u64));
                let disk = JsonView::Text(config.rootfs_path@);
                &&& asks(sent, "/machine-config"@, "vcpu_count"@, Some(vcpus))
                &&& asks(sent, "/machine-config"@, "mem_size_mib"@, Some(memory))
                &&& asks(sent, "/drives/rootfs"@, "path_on_host"@, Some(disk))
                &&& asks(sent, "/drives/rootfs"@, "is_read_only"@, Some(JsonView::Bool(false)))
                &&& config.tap_device matches Some(tap) ==> asks(
                    sent,
                    "/network-interfaces/eth0"@,
                    "host_dev_name"@,
                    Some(JsonView::Text(tap@)),
                )
                &&& config.tap_device is Some && config.guest_mac is Some ==> asks(
                    sent,
                    "/network-interfaces/eth0"@,
                    "guest_mac"@,
                    Some(JsonView::Text(config.guest_mac->0@)),
                )
                &&& asks(sent, "/vsock"@, "guest_cid"@, Some(cid))
            }),
            r.0@.info == running_info(id, config@, pid),
            r.1@ == LaunchStepView::CheckSocket,
    {
        let pending = configure_requests(&config, vsock_path);
        let info = VmInfo {
            id,
            name: config.name,
            state: VmState::Running,
            pid,
            vcpu_count: config.vcpu_count,
            mem_size_mib: config.mem_size_mib,
            vsock_cid: config.vsock_cid,
        };
        (Launch { stage: LaunchStage::Polling { polls: 0 }, pending, info }, LaunchStep::CheckSocket)
    }

    fn send_next(&mut self) -> (step: LaunchStep)
        ensures
            ({
                let (state, next) = old(self)@.send_next();
                final(self)@ == state && step@ == next
            }),
    {
        let ghost before = self@;
        self.stage = LaunchStage::Configuring;
        if self.pending.len() == 0 {
            LaunchStep::Done(self.info.copy())
        } else {
            let r = self.pending.remove(0);
            proof {
                assert(self@.pending =~= before.pending.skip(1));
            }
            LaunchStep::Send(r)
        }
    }

    /// Takes what became of the last step and says what to do next.
    pub fn step(&mut self, event: LaunchEvent) -> (step: LaunchStep)
        requires
            old(self)@.wf(),
            old(self)@.expects(event@),
        ensures
            final(self)@.wf(),
            ({
                let (state, next) = old(self)@.after(event@);
                final(self)@ == state && step@ == next
            }),
    {
        match event {
            LaunchEvent::Socket(there) => match self.stage {
                LaunchStage::Polling { polls } => {
                    if there {
                        self.stage = LaunchStage::Confirming;
                        LaunchStep::CheckSocket
                    } else {
                        LaunchStep::Sleep(SOCKET_POLL_MS)
                    }
                },
                _ => {
                    if there {
                        self.send_next()
                    } else {
                        LaunchStep::Fail(
                            VmmError::ProcessError(
                                "Firecracker socket did not appear within 5s".to_owned(),
                            ),
                        )
                    }
                },
            },
            LaunchEvent::Slept => {
                let polls: u32 = match self.stage {
                    LaunchStage::Polling { polls } => polls,
                    _ => 0,
                };
                if polls + 1 < SOCKET_POLLS {
                    self.stage = LaunchStage::Polling { polls: polls + 1 };
                } else {
                    self.stage = LaunchStage::Confirming;
                }
                LaunchStep::CheckSocket
            },
            LaunchEvent::Sent => self.send_next(),
            LaunchEvent::SendFailed(e) => LaunchStep::Fail(e),
        }
    }
}

/// The requests that a launch sends, and what it ends with, where every request from `step` on
/// succeeds.
pub open spec fn all_sent(launch: LaunchView, step: LaunchStepView) -> (
    Seq<FcRequestView>,
    LaunchStepView,
)
    decreases launch.pending.len(), if step is Send { 1int } else { 0int },
{
    match step {
        LaunchStepView::Send(r) => {
            let (next, then_step) = launch.after(LaunchEventView::Sent);
            if next.pending.len() < launch.pending.len() || !(then_step is Send) {
                let (rest, end) = all_sent(next, then_step);
                (seq![r] + rest, end)
            } else {
                (seq![r], then_step)
            }
        },
        _ => (seq![], step),
    }
}

/// A launch whose socket is there and whose requests all succeed sends the whole plan, in order,
/// and ends with the VM running.
pub proof fn launch_sends_the_plan(launch: LaunchView)
    ensures
        ({
            let (next, step) = launch.send_next();
            all_sent(next, step)
        }) == (launch.pending, LaunchStepView::Done(launch.info)),
    decreases launch.pending.len(),
{
    let (next, step) = launch.send_next();
    if launch.pending.len() == 0 {
        assert(launch.pending =~= seq![]);
    } else {
        launch_sends_the_plan(next);
        assert(seq![launch.pending[0]] + launch.pending.skip(1) =~= launch.pending);
        let (after, then_step) = next.send_next();
        if next.pending.len() > 0 {
            assert(after.pending.len() < next.pending.len());
        }
    }
}

/// The arguments with which Firecracker is started.
pub open spec fn spawn_args(paths: FcPathsView) -> Seq<Seq<char>> {
    seq![
        "--api-sock"@,
        paths.socket_path,
        "--log-path"@,
        paths.log_path,
        "--level"@,
        "Info"@,
    ]
}

/// The arguments with which Firecracker is started.
pub fn spawn_arguments(paths: &FcPaths) -> (args: Vec<String>)
    ensures
        text::texts(args@) == spawn_args(paths@),
{
    let args = crate::text::owned_texts(
        &[
            "--api-sock",
            paths.socket_path.as_str(),
            "--log-path",
            paths.log_path.as_str(),
            "--level",
            "Info",
        ],
    );
    assert(text::texts(args@) =~= spawn_args(paths@));
    args
}

/// What becomes of an API request that was answered: an error unless the status is one of
/// success.
pub fn request_outcome(method: &str, path: &str, status: u16, status_text: &str, detail: &str) -> (r:
    Result<(), VmmError>)
    ensures
        match r {
            Ok(_) => 200 <= status < 300,
            Err(e) => !(200 <= status < 300) && e@ == VmmErrorView::ApiError(
                method@ + " "@ + path@ + " returned "@ + status_text@ + ": "@ + detail@,
            ),
        },
{
    if 200 <= status && status < 300 {
        return Ok(());
    }
    let mut m = method.to_owned();
    m.append(" ");
    m.append(path);
    m.append(" returned ");
    m.append(status_text);
    m.append(": ");
    m.append(detail);
    Err(VmmError::ApiError(m))
}

/// What becomes of an API request that was answered with the given bytes.
pub fn response_outcome(method: &str, path: &str, status: u16, status_text: &str, body: &[u8]) -> (r:
    Result<(), VmmError>)
    ensures
        match r {
            Ok(_) => 200 <= status < 300,
            Err(e) => !(200 <= status < 300) && e@ == VmmErrorView::ApiError(
                method@ + " "@ + path@ + " returned "@ + status_text@ + ": "@ + text::lossy_text(
                    body@,
                ),
            ),
        },
{
    request_outcome(method, path, status, status_text, text_of_bytes(body).as_str())
}

/// The line with which a guest's vsock port is asked for.
pub open spec fn connect_line(port: u32) -> Seq<char> {
    "CONNECT "@ + text::decimal(port as nat) + "\n"@
}

/// The line with which a guest's vsock port is asked for.
pub fn connect_request(port: u32) -> (s: String)
    ensures
        s@ == connect_line(port),
{
    let mut s = "CONNECT ".to_owned();
    s.append(decimal_of(port as u64).as_str());
    s.append("\n");
    s
}

/// Whether the answer to a connect line grants the connection.
pub open spec fn grants_connection(response: Seq<char>) -> bool {
    text::starts_with(response, "OK "@)
}

/// Checks the answer to a connect line.
pub fn check_handshake(response: &str, port: u32) -> (r: Result<(), VmmError>)
    ensures
        match r {
            Ok(_) => grants_connection(response@),
            Err(e) => !grants_connection(response@) && e@ == VmmErrorView::ProcessError(
                "vsock CONNECT rejected (port "@ + text::decimal(port as nat) + ")"@,
            ),
        },
{
    if has_prefix(response, "OK ") {
        return Ok(());
    }
    let mut m = "vsock CONNECT rejected (port ".to_owned();
    m.append(decimal_of(port as u64).as_str());
    m.append(")");
    Err(VmmError::ProcessError(m))
}

/// Each request that configures and starts a VM is read as it is meant: no object has two members
/// of one name.
pub proof fn configuration_can_be_sent(c: VmConfigView, vsock_path: Seq<char>)
    ensures
        forall|i: int|
            0 <= i < configure_plan(c, vsock_path).len() ==> sendable(
                #[trigger] configure_plan(c, vsock_path)[i],
            ),
{
    reveal_strlit("kernel_image_path");
    reveal_strlit("boot_args");
    reveal_strlit("initrd_path");
    reveal_strlit("drive_id");
    reveal_strlit("path_on_host");
    reveal_strlit("is_root_device");
    reveal_strlit("is_read_only");
    reveal_strlit("vcpu_count");
    reveal_strlit("mem_size_mib");
    reveal_strlit("iface_id");
    reveal_strlit("guest_mac");
    reveal_strlit("host_dev_name");
    reveal_strlit("guest_cid");
    reveal_strlit("uds_path");
    assert("path_on_host"@[0] != "is_read_only"@[0]);
    let plan = configure_plan(c, vsock_path);
    assert forall|i: int| 0 <= i < plan.len() implies sendable(#[trigger] plan[i]) by {
        let members = plan[i].body->Object_0;
        assert(json::distinct_keys(members)) by {
            assert forall|a: int, b: int| 0 <= a < b < members.len() implies (
            #[trigger] members[a]).0 != (#[trigger] members[b]).0 by {
                assert(members[a].0.len() != members[b].0.len() || members[a].0[0]
                    != members[b].0[0]);
            }
        }
        assert forall|k: int| #![trigger members[k]] 0 <= k < members.len() implies json::writable(
            members[k].1,
        ) && json::nests_within(members[k].1, 99) by {
        }
        assert(plan[i].body == JsonView::Object(members));
    }
}

/// The request for a change of a VM is read as it is meant.
pub proof fn change_can_be_sent(change: FcChange)
    ensures
        sendable(change_request(change)),
{
    reveal_with_fuel(json::writable, 2);
    reveal_with_fuel(json::nests_within, 2);
}

/// Whether request `i` goes to `path`.
pub open spec fn goes_to(requests: Seq<FcRequestView>, i: int, path: Seq<char>) -> bool {
    0 <= i < requests.len() && requests[i].path == path
}

/// Whether the requests to `path`, of which there is at least one, have `value` as the member
/// `key` of their body, or no such member where it is `None`.
pub open spec fn asks(
    requests: Seq<FcRequestView>,
    path: Seq<char>,
    key: Seq<char>,
    value: Option<JsonView>,
) -> bool {
    &&& exists|i: int| #[trigger] goes_to(requests, i, path)
    &&& forall|i: int| #[trigger]
        goes_to(requests, i, path) ==> requests[i].body.member(key) == value
}

/// The state in which Firecracker leaves a VM after a request that concerns its state.
pub open spec fn requested_state(r: FcRequestView) -> Option<VmState> {
    if r.path == "/vm"@ {
        if r.body.text_member("state"@) == Some("Paused"@) {
            Some(VmState::Paused)
        } else if r.body.text_member("state"@) == Some("Resumed"@) {
            Some(VmState::Running)
        } else {
            None
        }
    } else if r.path == "/actions"@ {
        if r.body.text_member("action_type"@) == Some("InstanceStart"@) {
            Some(VmState::Running)
        } else if r.body.text_member("action_type"@) == Some("SendCtrlAltDel"@) {
            Some(VmState::Stopped)
        } else {
            None
        }
    } else {
        None
    }
}

/// Where the requests of a plan go: each to another place.
proof fn lemma_plan_paths(c: VmConfigView, vsock_path: Seq<char>)
    ensures
        ({
            let plan = configure_plan(c, vsock_path);
            let n = plan.len() as int;
            &&& n == if c.tap_device is Some { 6int } else { 5int }
            &&& forall|i: int| #[trigger] goes_to(plan, i, "/boot-source"@) <==> i == 0
            &&& forall|i: int| #[trigger] goes_to(plan, i, "/drives/rootfs"@) <==> i == 1
            &&& forall|i: int| #[trigger] goes_to(plan, i, "/machine-config"@) <==> i == 2
            &&& forall|i: int| #[trigger]
                goes_to(plan, i, "/network-interfaces/eth0"@) <==> i == 3 && c.tap_device is Some
            &&& forall|i: int| #[trigger] goes_to(plan, i, "/vsock"@) <==> i == n - 2
            &&& forall|i: int| #[trigger] goes_to(plan, i, "/actions"@) <==> i == n - 1
        }),
{
    reveal_strlit("/boot-source");
    reveal_strlit("/drives/rootfs");
    reveal_strlit("/machine-config");
    reveal_strlit("/network-interfaces/eth0");
    reveal_strlit("/vsock");
    reveal_strlit("/actions");
    assert("/boot-source"@.len() == 12 && "/drives/rootfs"@.len() == 14 && "/machine-config"@.len()
        == 15 && "/network-interfaces/eth0"@.len() == 24 && "/vsock"@.len() == 6
        && "/actions"@.len() == 8);
    let plan = configure_plan(c, vsock_path);
    assert(plan[0].path == "/boot-source"@ && plan[1].path == "/drives/rootfs"@ && plan[2].path
        == "/machine-config"@);
    assert(plan[plan.len() - 2].path == "/vsock"@ && plan[plan.len() - 1].path == "/actions"@);
}

/// A request is asked what the member at position `k` of its body says.
proof fn lemma_asked(requests: Seq<FcRequestView>, i: int, k: int)
    requires
        0 <= i < requests.len(),
        requests[i].body is Object,
        sendable(requests[i]),
        0 <= k < requests[i].body->Object_0.len(),
        forall|j: int| #[trigger] goes_to(requests, j, requests[i].path) <==> j == i,
    ensures
        asks(
            requests,
            requests[i].path,
            requests[i].body->Object_0[k].0,
            Some(requests[i].body->Object_0[k].1),
        ),
{
    assert(goes_to(requests, i, requests[i].path));
    json::lemma_member_found(requests[i].body->Object_0, k);
}

/// Firecracker is asked for the VM that was configured: so many vCPUs and so much memory, the
/// kernel with its arguments and its initial RAM disk, the disk as a root device that can be
/// written, the network device with the MAC address, the vsock with the context id and the socket.
/// The last request, and no other, starts the VM.
pub proof fn configured_vm_is_asked_for(c: VmConfigView, vsock_path: Seq<char>)
    ensures
        ({
            let plan = configure_plan(c, vsock_path);
            let vcpus = JsonView::Number(Some(c.vcpu_count as u64));
            let memory = JsonView::Number(Some(c.mem_size_mib as u64));
            let cid = JsonView::Number(Some(c.vsock_cid as u64));
            &&& asks(plan, "/machine-config"@, "vcpu_count"@, Some(vcpus))
            &&& asks(plan, "/machine-config"@, "mem_size_mib"@, Some(memory))
            &&& asks(
                plan,
                "/boot-source"@,
                "kernel_image_path"@,
                Some(JsonView::Text(c.kernel_path)),
            )
            &&& c.kernel_args matches Some(args) ==> asks(
                plan,
                "/boot-source"@,
                "boot_args"@,
                Some(JsonView::Text(args)),
            )
            &&& c.initrd_path matches Some(p) ==> asks(
                plan,
                "/boot-source"@,
                "initrd_path"@,
                Some(JsonView::Text(p)),
            )
            &&& c.initrd_path is None ==> asks(plan, "/boot-source"@, "initrd_path"@, None)
            &&& asks(
                plan,
                "/drives/rootfs"@,
                "path_on_host"@,
                Some(JsonView::Text(c.rootfs_path)),
            )
            &&& asks(plan, "/drives/rootfs"@, "is_root_device"@, Some(JsonView::Bool(true)))
            &&& asks(plan, "/drives/rootfs"@, "is_read_only"@, Some(JsonView::Bool(false)))
            &&& c.tap_device matches Some(tap) ==> asks(
                plan,
                "/network-interfaces/eth0"@,
                "host_dev_name"@,
                Some(JsonView::Text(tap)),
            ) && (c.guest_mac matches Some(mac) ==> asks(
                plan,
                "/network-interfaces/eth0"@,
                "guest_mac"@,
                Some(JsonView::Text(mac)),
            ))
            &&& c.tap_device is None ==> forall|i: int|
                !(#[trigger] goes_to(plan, i, "/network-interfaces/eth0"@))
            &&& asks(plan, "/vsock"@, "guest_cid"@, Some(cid))
            &&& asks(plan, "/vsock"@, "uds_path"@, Some(JsonView::Text(vsock_path)))
            &&& forall|i: int|
                0 <= i < plan.len() ==> (requested_state(#[trigger] plan[i]) == Some(
                    VmState::Running,
                ) <==> i == plan.len() - 1)
        }),
{
    let plan = configure_plan(c, vsock_path);
    let n = plan.len() as int;
    lemma_plan_paths(c, vsock_path);
    configuration_can_be_sent(c, vsock_path);
    assert(plan[0].path == "/boot-source"@);
    lemma_asked(plan, 0, 0);
    lemma_asked(plan, 0, 1);
    if c.initrd_path is Some {
        lemma_asked(plan, 0, 2);
    } else {
        let members = plan[0].body->Object_0;
        assert(goes_to(plan, 0, "/boot-source"@));
        assert forall|k: int| 0 <= k < members.len() implies (#[trigger] members[k]).0
            != "initrd_path"@ by {
            reveal_strlit("kernel_image_path");
            reveal_strlit("boot_args");
            reveal_strlit("initrd_path");
            assert(members[k].0.len() != "initrd_path"@.len());
        }
        json::lemma_member_missing(members, "initrd_path"@);
    }
    assert(plan[1].path == "/drives/rootfs"@);
    lemma_asked(plan, 1, 1);
    lemma_asked(plan, 1, 2);
    lemma_asked(plan, 1, 3);
    assert(plan[2].path == "/machine-config"@);
    lemma_asked(plan, 2, 0);
    lemma_asked(plan, 2, 1);
    if c.tap_device is Some {
        assert(plan[3].path == "/network-interfaces/eth0"@);
        lemma_asked(plan, 3, 1);
        lemma_asked(plan, 3, 2);
    }
    assert(plan[n - 2].path == "/vsock"@);
    lemma_asked(plan, n - 2, 0);
    lemma_asked(plan, n - 2, 1);
    assert forall|i: int| 0 <= i < plan.len() implies (requested_state(#[trigger] plan[i]) == Some(
        VmState::Running,
    ) <==> i == plan.len() - 1) by {
        reveal_strlit("/vm");
        reveal_strlit("/boot-source");
        reveal_strlit("/drives/rootfs");
        reveal_strlit("/machine-config");
        reveal_strlit("/network-interfaces/eth0");
        reveal_strlit("/vsock");
        reveal_strlit("/actions");
        assert("/vm"@.len() != plan[i].path.len());
        if i == n - 1 {
            json::lemma_member_found(plan[i].body->Object_0, 0);
        } else {
            assert(!goes_to(plan, i, "/actions"@));
        }
    }
}

/// Firecracker is asked for the state that is noted of a VM afterwards, and different changes are
/// asked for in different ways.
pub proof fn change_leads_to_the_noted_state(change: FcChange, other: FcChange)
    ensures
        requested_state(change_request(change)) == Some(changed_state(change)),
        change == FcChange::Resume ==> changed_state(change) == VmState::Running,
        change == FcChange::Pause ==> changed_state(change) == VmState::Paused,
        change == FcChange::Stop ==> changed_state(change) == VmState::Stopped,
        change != other ==> change_request(change) != change_request(other),
{
    change_names(change);
    change_names(other);
    reveal_strlit("/vm");
    reveal_strlit("/actions");
    reveal_strlit("Paused");
    reveal_strlit("Resumed");
    reveal_strlit("InstanceStart");
    reveal_strlit("SendCtrlAltDel");
    assert("/vm"@.len() != "/actions"@.len());
    assert("Paused"@.len() != "Resumed"@.len());
    assert("InstanceStart"@.len() != "SendCtrlAltDel"@.len());
}

/// A VM is paused and resumed at `/vm`, by the state that it is to have, and stopped by an action
/// at `/actions`.
pub proof fn change_names(change: FcChange)
    ensures
        change == FcChange::Resume ==> change_request(change).path == "/vm"@ && change_request(
            change,
        ).body.text_member("state"@) == Some("Resumed"@),
        change == FcChange::Pause ==> change_request(change).path == "/vm"@ && change_request(
            change,
        ).body.text_member("state"@) == Some("Paused"@),
        change == FcChange::Stop ==> change_request(change).path == "/actions"@
            && change_request(change).body.text_member("action_type"@) == Some("SendCtrlAltDel"@),
{
}

/// The four files of a VM are four different files, and none is a file of another VM.
pub proof fn files_of_vms_stay_apart(runtime_dir: Seq<char>, a: u128, b: u128)
    ensures
        ({
            let p = paths_for(runtime_dir, a);
            let q = paths_for(runtime_dir, b);
            &&& p.socket_path != p.log_path && p.socket_path != p.vsock_path && p.socket_path
                != p.serial_log_path
            &&& p.log_path != p.vsock_path && p.log_path != p.serial_log_path && p.vsock_path
                != p.serial_log_path
            &&& a != b ==> p.socket_path != q.socket_path && p.log_path != q.log_path
                && p.vsock_path != q.vsock_path && p.serial_log_path != q.serial_log_path
        }),
{
    reveal_strlit(".sock");
    reveal_strlit(".log");
    reveal_strlit(".vsock");
    reveal_strlit(".serial.log");
    ident::lemma_uuid_start(a);
    ident::lemma_uuid_start(b);
    ident::uuid_text_is_injective(a, b);
    let x = ident::uuid_text(a);
    let y = ident::uuid_text(b);
    path::names_stay_apart(runtime_dir, x + ".sock"@, x + ".log"@);
    path::names_stay_apart(runtime_dir, x + ".sock"@, x + ".vsock"@);
    path::names_stay_apart(runtime_dir, x + ".sock"@, x + ".serial.log"@);
    path::names_stay_apart(runtime_dir, x + ".log"@, x + ".vsock"@);
    path::names_stay_apart(runtime_dir, x + ".log"@, x + ".serial.log"@);
    path::names_stay_apart(runtime_dir, x + ".vsock"@, x + ".serial.log"@);
    assert((x + ".sock"@).len() == 41 && (x + ".log"@).len() == 40 && (x + ".vsock"@).len() == 42
        && (x + ".serial.log"@).len() == 47);
    path::names_stay_apart(runtime_dir, x + ".sock"@, y + ".sock"@);
    path::names_stay_apart(runtime_dir, x + ".log"@, y + ".log"@);
    path::names_stay_apart(runtime_dir, x + ".vsock"@, y + ".vsock"@);
    path::names_stay_apart(runtime_dir, x + ".serial.log"@, y + ".serial.log"@);
    assert((x + ".sock"@).take(36) =~= x && (y + ".sock"@).take(36) =~= y);
    assert((x + ".log"@).take(36) =~= x && (y + ".log"@).take(36) =~= y);
    assert((x + ".vsock"@).take(36) =~= x && (y + ".vsock"@).take(36) =~= y);
    assert((x + ".serial.log"@).take(36) =~= x && (y + ".serial.log"@).take(36) =~= y);
}

/// Firecracker listens at the socket at which a VM is changed, and writes the log of that VM.
pub proof fn process_serves_the_socket(runtime_dir: Seq<char>, id: u128)
    ensures
        ({
            let paths = paths_for(runtime_dir, id);
            &&& text::argument(spawn_args(paths), "--api-sock"@) == Some(paths.socket_path)
            &&& text::argument(spawn_args(paths), "--log-path"@) == Some(paths.log_path)
        }),
{
    reveal_strlit("--api-sock");
    reveal_strlit("--log-path");
    let paths = paths_for(runtime_dir, id);
    let args = spawn_args(paths);
    let name = ident::uuid_text(id) + ".sock"@;
    ident::lemma_uuid_start(id);
    path::names_stay_apart(runtime_dir, name, name);
    text::lemma_argument(args, "--api-sock"@, 0);
    assert("--api-sock"@[2] != "--log-path"@[2]);
    assert(args[1].len() >= 36);
    assert forall|j: int| 0 <= j < 2 implies #[trigger] args[j] != "--log-path"@ by {}
    text::lemma_argument(args, "--log-path"@, 2);
}

/// The line that asks for a port is one line, and the port is read back from it.
pub proof fn connect_line_names_the_port(port: u32)
    ensures
        ({
            let line = connect_line(port);
            let n = line.len() as int;
            &&& text::starts_with(line, "CONNECT "@)
            &&& line[n - 1] == '\n'
            &&& text::uint_value(line.subrange(8, n - 1), 10, u32::MAX as nat) == Ok::<
                nat,
                text::IntFault,
            >(port as nat)
        }),
{
    reveal_strlit("CONNECT ");
    reveal_strlit("\n");
    let line = connect_line(port);
    text::decimal_is_read_back(port as nat, u32::MAX as nat);
    assert(line.take(8) =~= "CONNECT "@);
    assert(line.subrange(8, line.len() - 1) =~= text::decimal(port as nat));
}

/// A VM whose process has exited is not shown as running, and has no process. While the process
/// is alive nothing changes, nor for a VM that was not running.
pub proof fn exited_process_is_noticed(info: VmInfoView, status: ProcessStatus)
    ensures
        ({
            let (state, pid) = observed(info, status);
            &&& status != ProcessStatus::Alive ==> state != VmState::Running && state
                != VmState::Paused
            &&& status != ProcessStatus::Alive && (info.state == VmState::Running || info.state
                == VmState::Paused) ==> pid is None
            &&& status == ProcessStatus::Exited && (info.state == VmState::Running || info.state
                == VmState::Paused) ==> state == VmState::Stopped
            &&& status == ProcessStatus::Unknown && (info.state == VmState::Running || info.state
                == VmState::Paused) ==> state == VmState::Failed
            &&& status == ProcessStatus::Alive ==> (state, pid) == (info.state, info.pid)
            &&& info.state != VmState::Running && info.state != VmState::Paused ==> (state, pid)
                == (info.state, info.pid)
        }),
{
}

/// A VM that was taken out is gone, and all other ones stay as they are.
pub proof fn destroyed_vm_is_gone(b: FirecrackerView, i: int, id: u128)
    requires
        b.wf(),
        b.at(i, id),
    ensures
        ({
            let after = b.with_instances(b.instances.remove(i));
            &&& !after.has_id(id)
            &&& forall|vm: FcInstanceView|
                vm.info.id != id ==> after.instances.contains(vm) == b.instances.contains(vm)
        }),
{
    let after = b.with_instances(b.instances.remove(i));
    assert forall|k: int| 0 <= k < after.instances.len() implies (
    #[trigger] after.instances[k]).info.id != id by {
        let m = if k < i {
            k
        } else {
            k + 1
        };
        assert(after.instances[k] == b.instances[m]);
        assert(b.instances[i].info.id == id);
    }
    assert forall|vm: FcInstanceView| vm.info.id != id implies after.instances.contains(vm)
        == b.instances.contains(vm) by {
        if b.instances.contains(vm) {
            let m = choose|m: int| 0 <= m < b.instances.len() && b.instances[m] == vm;
            let k = if m < i {
                m
            } else {
                m - 1
            };
            assert(after.instances[k] == vm);
        }
        if after.instances.contains(vm) {
            let k = choose|k: int| 0 <= k < after.instances.len() && after.instances[k] == vm;
            let m = if k < i {
                k
            } else {
                k + 1
            };
            assert(b.instances[m] == vm);
        }
    }
}

/// The socket of a monitor that was started is waited for for five seconds. While it is not there
/// the launch pauses and looks again; once it is there, the requests are sent; if it does not come,
/// the launch fails. A request that fails ends the launch with that failure.
pub proof fn socket_is_waited_for(launch: LaunchView, polls: u32, e: VmmErrorView)
    requires
        launch.pending.len() > 0,
        launch.stage == (LaunchStage::Polling { polls }),
        polls < SOCKET_POLLS,
    ensures
        SOCKET_POLLS * SOCKET_POLL_MS == 5000,
        launch.after(LaunchEventView::Socket(false)).1 == LaunchStepView::Sleep(SOCKET_POLL_MS),
        ({
            let (next, step) = launch.after(LaunchEventView::Slept);
            &&& step is CheckSocket
            &&& next.stage == (if polls + 1 < SOCKET_POLLS {
                LaunchStage::Polling { polls: (polls + 1) as u32 }
            } else {
                LaunchStage::Confirming
            })
        }),
        ({
            let (seen, step) = launch.after(LaunchEventView::Socket(true));
            let (sending, first) = seen.after(LaunchEventView::Socket(true));
            let (_, failed) = seen.after(LaunchEventView::Socket(false));
            let (_, refused) = sending.after(LaunchEventView::SendFailed(e));
            &&& step is CheckSocket
            &&& first == LaunchStepView::Send(launch.pending[0])
            &&& failed is Fail
            &&& refused == LaunchStepView::Fail(e)
        }),
{
}

} // verus!
