//! Apple's Virtualization.framework as a monitor: what a VM is configured with, and which VMs
//! run.
//!
//! The framework's objects live on dispatch queues of the caller. What is decided about them is
//! here.
use crate::firecracker;
use crate::ident;
use crate::ident::{format_uuid, new_uuid};
use crate::text;
use crate::text::{copy_opt, same_text};
use crate::vmm::{VmConfig, VmConfigView, VmInfo, VmInfoView, VmState, VmmError, VmmErrorView};
use vstd::prelude::*;
use vstd::string::*;

verus! {

/// What the framework is told of a VM.
#[derive(Debug)]
pub struct VzSetup {
    /// Label of the VM's dispatch queue.
    pub queue_label: String,
    pub kernel_path: String,
    pub command_line: Option<String>,
    pub cpu_count: u32,
    pub memory_bytes: u64,
    /// Disk image, attached for reading and writing.
    pub rootfs_path: String,
}

/// The VMs that the framework runs.
pub struct AppleVzBackend {
    pub instances: Vec<VmInfo>,
}

/// What is known of the VMs, with names as characters.
pub open spec fn info_views(v: Seq<VmInfo>) -> Seq<VmInfoView> {
    v.map_values(|i: VmInfo| i@)
}

impl View for AppleVzBackend {
    type V = Seq<VmInfoView>;

    open spec fn view(&self) -> Seq<VmInfoView> {
        info_views(self.instances@)
    }
}

/// The ids of the VMs are unique.
pub open spec fn unique_ids(v: Seq<VmInfoView>) -> bool {
    forall|i: int, j: int|
        0 <= i < j < v.len() ==> (#[trigger] v[i]).id != (#[trigger] v[j]).id
}

/// Whether a VM with the given id runs.
pub open spec fn runs_id(v: Seq<VmInfoView>, id: u128) -> bool {
    exists|i: int| 0 <= i < v.len() && (#[trigger] v[i]).id == id
}

/// Whether a VM with the given name runs.
pub open spec fn runs_name(v: Seq<VmInfoView>, name: Seq<char>) -> bool {
    exists|i: int| 0 <= i < v.len() && (#[trigger] v[i]).name == name
}

/// Position `i` holds the VM with the given id.
pub open spec fn holds(v: Seq<VmInfoView>, i: int, id: u128) -> bool {
    0 <= i < v.len() && v[i].id == id
}

/// What is known of a VM, with another state.
pub open spec fn with_state(info: VmInfoView, state: VmState) -> VmInfoView {
    VmInfoView { state, ..info }
}

/// What the framework is told of a VM with the given id and configuration.
pub open spec fn setup_for(s: VzSetup, id: u128, c: VmConfigView) -> bool {
    &&& s.queue_label@ == "com.husk.vm."@ + ident::uuid_text(id)
    &&& s.kernel_path@ == c.kernel_path
    &&& text::opt_text(s.command_line) == c.kernel_args
    &&& s.cpu_count == c.vcpu_count
    &&& s.memory_bytes == c.mem_size_mib * 1024 * 1024
    &&& s.rootfs_path@ == c.rootfs_path
}

impl AppleVzBackend {
    /// A monitor that runs no VM yet.
    pub fn new() -> (b: AppleVzBackend)
        ensures
            b@.len() == 0,
            unique_ids(b@),
    {
        AppleVzBackend { instances: Vec::new() }
    }

    fn index_of(&self, id: u128) -> (r: Option<usize>)
        ensures
            match r {
                Some(i) => holds(self@, i as int, id),
                None => !runs_id(self@, id),
            },
    {
        let mut i: usize = 0;
        while i < self.instances.len()
            invariant
                i <= self.instances@.len(),
                forall|k: int| 0 <= k < i ==> (#[trigger] self@[k]).id != id,
            decreases self.instances.len() - i,
        {
            if self.instances[i].id == id {
                return Some(i);
            }
            i = i + 1;
        }
        None
    }

    /// Begins to create a VM: its id, and what the framework is to be told of it. A name that is
    /// taken is refused.
    pub fn create_vm(&self, config: &VmConfig) -> (r: Result<(u128, VzSetup), VmmError>)
        ensures
            match r {
                Ok((id, setup)) => !runs_name(self@, config.name@) && ident::is_random_uuid(id)
                    && setup_for(setup, id, config@),
                Err(e) => runs_name(self@, config.name@) && e@ == VmmErrorView::VmAlreadyExists(
                    config.name@,
                ),
            },
    {
        let id = new_uuid();
        match self.create_vm_as(id, config) {
            Ok(setup) => Ok((id, setup)),
            Err(e) => Err(e),
        }
    }

    /// Begins to create a VM under the given id.
    pub fn create_vm_as(&self, id: u128, config: &VmConfig) -> (r: Result<VzSetup, VmmError>)
        ensures
            match r {
                Ok(setup) => {
                    &&& !runs_name(self@, config.name@)
                    &&& setup_for(setup, id, config@)
                    &&& setup.cpu_count == config.vcpu_count
                    &&& setup.memory_bytes == config.mem_size_mib * 1048576
                    &&& setup.kernel_path@ == config.kernel_path@
                    &&& setup.rootfs_path@ == config.rootfs_path@
                },
                Err(e) => runs_name(self@, config.name@) && e@ == VmmErrorView::VmAlreadyExists(
                    config.name@,
                ),
            },
    {
        let mut i: usize = 0;
        while i < self.instances.len()
            invariant
                i <= self.instances@.len(),
                forall|k: int| 0 <= k < i ==> (#[trigger] self@[k]).name != config.name@,
            decreases self.instances.len() - i,
        {
            if same_text(self.instances[i].name.as_str(), config.name.as_str()) {
                assert(self@[i as int].name == config.name@);
                return Err(VmmError::VmAlreadyExists(config.name.clone()));
            }
            i = i + 1;
        }
        let mut queue_label = "com.husk.vm.".to_owned();
        queue_label.append(format_uuid(id).as_str());
        Ok(
            VzSetup {
                queue_label,
                kernel_path: config.kernel_path.clone(),
                command_line: copy_opt(&config.kernel_args),
                cpu_count: config.vcpu_count,
                memory_bytes: config.mem_size_mib as u64 * 1024 * 1024,
                rootfs_path: config.rootfs_path.clone(),
            },
        )
    }

    /// Notes a VM that the framework has started.
    pub fn add_instance(&mut self, id: u128, config: &VmConfig) -> (info: VmInfo)
        requires
            unique_ids(old(self)@),
            !runs_id(old(self)@, id),
        ensures
            unique_ids(final(self)@),
            info@ == firecracker::running_info(id, config@, None),
            final(self)@ == old(self)@.push(info@),
    {
        let info = VmInfo {
            id,
            name: config.name.clone(),
            state: VmState::Running,
            pid: None,
            vcpu_count: config.vcpu_count,
            mem_size_mib: config.mem_size_mib,
            vsock_cid: config.vsock_cid,
        };
        let ghost before = self@;
        self.instances.push(info.copy());
        proof {
            assert(self@ =~= before.push(info@));
        }
        info
    }

    /// Notes that the framework has changed the state of a VM. A VM that is gone by now stays
    /// gone.
    pub fn complete_change(&mut self, id: u128, state: VmState)
        requires
            unique_ids(old(self)@),
        ensures
            unique_ids(final(self)@),
            runs_id(old(self)@, id) ==> exists|i: int| #[trigger]
                holds(old(self)@, i, id) && final(self)@ == old(self)@.update(
                    i,
                    with_state(old(self)@[i], state),
                ),
            !runs_id(old(self)@, id) ==> final(self)@ == old(self)@,
    {
        if let Some(i) = self.index_of(id) {
            let ghost before = self@;
            self.instances[i].state = state;
            proof {
                assert(holds(before, i as int, id));
                assert(self@ =~= before.update(i as int, with_state(before[i as int], state)));
            }
        }
    }

    /// Takes a VM out, for the framework to stop it.
    pub fn destroy_vm(&mut self, id: u128) -> (r: Result<VmInfo, VmmError>)
        requires
            unique_ids(old(self)@),
        ensures
            unique_ids(final(self)@),
            match r {
                Ok(info) => exists|i: int| #[trigger]
                    holds(old(self)@, i, id) && info@ == old(self)@[i] && final(self)@ == old(
                        self)@.remove(i),
                Err(e) => {
                    &&& !runs_id(old(self)@, id)
                    &&& e@ == VmmErrorView::VmNotFound(id)
                    &&& final(self)@ == old(self)@
                },
            },
    {
        match self.index_of(id) {
            Some(i) => {
                let ghost before = self@;
                let info = self.instances.remove(i);
                proof {
                    assert(holds(before, i as int, id));
                    assert(self@ =~= before.remove(i as int));
                    assert forall|a: int, b: int| 0 <= a < b < self@.len() implies (
                    #[trigger] self@[a]).id != (#[trigger] self@[b]).id by {
                        let a2 = if a < i {
                            a
                        } else {
                            a + 1
                        };
                        let b2 = if b < i {
                            b
                        } else {
                            b + 1
                        };
                        assert(self@[a] == before[a2]);
                        assert(self@[b] == before[b2]);
                    }
                }
                Ok(info)
            },
            None => Err(VmmError::VmNotFound(id)),
        }
    }

    /// What is known of a VM.
    pub fn vm_info(&self, id: u128) -> (r: Result<VmInfo, VmmError>)
        ensures
            match r {
                Ok(info) => exists|i: int| #[trigger] holds(self@, i, id) && info@ == self@[i],
                Err(e) => !runs_id(self@, id) && e@ == VmmErrorView::VmNotFound(id),
            },
    {
        match self.index_of(id) {
            Some(i) => {
                assert(holds(self@, i as int, id));
                Ok(self.instances[i].copy())
            },
            None => Err(VmmError::VmNotFound(id)),
        }
    }
}

/// What a VM's socket devices turned out to be.
#[derive(Debug, Clone, Copy, PartialEq, Eq, Structural)]
pub enum SocketDevice {
    Missing,
    NotVirtio,
    Virtio,
}

/// Whether a connection can be asked for, given the VM's first socket device.
pub fn check_socket_device(device: SocketDevice) -> (r: Result<(), VmmError>)
    ensures
        match device {
            SocketDevice::Virtio => r is Ok,
            SocketDevice::NotVirtio => r matches Err(e) && e@ == VmmErrorView::ProcessError(
                "socket device is not a VZVirtioSocketDevice"@,
            ),
            SocketDevice::Missing => r matches Err(e) && e@ == VmmErrorView::ProcessError(
                "no socket devices configured"@,
            ),
        },
{
    match device {
        SocketDevice::Virtio => Ok(()),
        SocketDevice::NotVirtio => Err(
            VmmError::ProcessError("socket device is not a VZVirtioSocketDevice".to_owned()),
        ),
        SocketDevice::Missing => Err(
            VmmError::ProcessError("no socket devices configured".to_owned()),
        ),
    }
}

/// What becomes of a connection that was asked for: whether there is one, and the framework's
/// error, if any. An error counts more than a connection.
pub fn connection_outcome(connected: bool, error: Option<String>) -> (r: Result<(), VmmError>)
    ensures
        match error {
            Some(desc) => r matches Err(e) && e@ == VmmErrorView::ProcessError(
                "vsock connect: "@ + desc@,
            ),
            None => if connected {
                r is Ok
            } else {
                r matches Err(e) && e@ == VmmErrorView::ProcessError(
                    "vsock connect returned null connection"@,
                )
            },
        },
{
    match error {
        Some(desc) => {
            let mut m = "vsock connect: ".to_owned();
            m.append(desc.as_str());
            Err(VmmError::ProcessError(m))
        },
        None => {
            if connected {
                Ok(())
            } else {
                Err(VmmError::ProcessError("vsock connect returned null connection".to_owned()))
            }
        },
    }
}

/// Checks the file descriptor of a connection.
pub fn check_connection_fd(raw_fd: i32) -> (r: Result<i32, VmmError>)
    ensures
        match r {
            Ok(fd) => raw_fd >= 0 && fd == raw_fd,
            Err(e) => raw_fd < 0 && e@ == VmmErrorView::ProcessError(
                "vsock connection returned invalid fd"@,
            ),
        },
{
    if raw_fd < 0 {
        Err(VmmError::ProcessError("vsock connection returned invalid fd".to_owned()))
    } else {
        Ok(raw_fd)
    }
}

/// The framework is told of the VM that was configured: as many processors as it has vCPUs, its
/// memory in bytes, its kernel with its arguments, and its disk. Two VMs have two queues.
pub proof fn configured_vm_is_set_up(
    s: VzSetup,
    t: VzSetup,
    id: u128,
    other: u128,
    c: VmConfigView,
    d: VmConfigView,
)
    requires
        setup_for(s, id, c),
        setup_for(t, other, d),
    ensures
        s.cpu_count == c.vcpu_count,
        s.memory_bytes == c.mem_size_mib * 1048576,
        s.kernel_path@ == c.kernel_path,
        s.rootfs_path@ == c.rootfs_path,
        c.kernel_args matches Some(args) ==> (s.command_line matches Some(line) && line@ == args),
        id != other ==> s.queue_label@ != t.queue_label@,
{
    ident::uuid_text_is_injective(id, other);
    let n = "com.husk.vm."@.len() as int;
    assert(s.queue_label@.skip(n) =~= ident::uuid_text(id));
    assert(t.queue_label@.skip(n) =~= ident::uuid_text(other));
}

} // verus!
