//! What a virtual machine monitor is told of a VM, and what it tells back.
use crate::ident;
use crate::ident::format_uuid;
use crate::text;
use vstd::prelude::*;
use vstd::string::*;

verus! {

/// What a VM is made of.
#[derive(Debug, Clone)]
pub struct VmConfig {
    pub name: String,
    pub vcpu_count: u32,
    pub mem_size_mib: u32,
    pub kernel_path: String,
    pub rootfs_path: String,
    pub kernel_args: Option<String>,
    pub initrd_path: Option<String>,
    pub vsock_cid: u32,
    pub tap_device: Option<String>,
    pub guest_mac: Option<String>,
}

/// What a VM is made of, with texts as characters.
pub struct VmConfigView {
    pub name: Seq<char>,
    pub vcpu_count: u32,
    pub mem_size_mib: u32,
    pub kernel_path: Seq<char>,
    pub rootfs_path: Seq<char>,
    pub kernel_args: Option<Seq<char>>,
    pub initrd_path: Option<Seq<char>>,
    pub vsock_cid: u32,
    pub tap_device: Option<Seq<char>>,
    pub guest_mac: Option<Seq<char>>,
}

impl View for VmConfig {
    type V = VmConfigView;

    open spec fn view(&self) -> VmConfigView {
        VmConfigView {
            name: self.name@,
            vcpu_count: self.vcpu_count,
            mem_size_mib: self.mem_size_mib,
            kernel_path: self.kernel_path@,
            rootfs_path: self.rootfs_path@,
            kernel_args: text::opt_text(self.kernel_args),
            initrd_path: text::opt_text(self.initrd_path),
            vsock_cid: self.vsock_cid,
            tap_device: text::opt_text(self.tap_device),
            guest_mac: text::opt_text(self.guest_mac),
        }
    }
}

/// The state of a VM.
#[derive(Debug, Clone, Copy, PartialEq, Eq, Structural)]
pub enum VmState {
    Creating,
    Running,
    Paused,
    Stopped,
    Failed,
}

impl VmState {
    /// The name of the state.
    pub open spec fn text(self) -> Seq<char> {
        match self {
            VmState::Creating => "creating"@,
            VmState::Running => "running"@,
            VmState::Paused => "paused"@,
            VmState::Stopped => "stopped"@,
            VmState::Failed => "failed"@,
        }
    }

    /// The name of the state.
    pub fn name(&self) -> (s: &'static str)
        ensures
            s@ == self.text(),
    {
        match self {
            VmState::Creating => "creating",
            VmState::Running => "running",
            VmState::Paused => "paused",
            VmState::Stopped => "stopped",
            VmState::Failed => "failed",
        }
    }

    /// The state with the given name, if there is one.
    pub fn from_name(name: &str) -> (r: Option<VmState>)
        ensures
            match r {
                Some(state) => state.text() == name@,
                None => forall|state: VmState| (#[trigger] state.text()) != name@,
            },
    {
        if crate::text::same_text(name, "creating") {
            Some(VmState::Creating)
        } else if crate::text::same_text(name, "running") {
            Some(VmState::Running)
        } else if crate::text::same_text(name, "paused") {
            Some(VmState::Paused)
        } else if crate::text::same_text(name, "stopped") {
            Some(VmState::Stopped)
        } else if crate::text::same_text(name, "failed") {
            Some(VmState::Failed)
        } else {
            None
        }
    }
}

/// Different states have different names.
pub proof fn state_names_differ(a: VmState, b: VmState)
    ensures
        a.text() == b.text() ==> a == b,
{
    reveal_strlit("creating");
    reveal_strlit("running");
    reveal_strlit("paused");
    reveal_strlit("stopped");
    reveal_strlit("failed");
    assert("creating"@[0] == 'c' && "running"@[0] == 'r' && "paused"@[0] == 'p' && "stopped"@[0]
        == 's' && "failed"@[0] == 'f');
}

/// What is known of a VM while it is there.
#[derive(Debug, Clone)]
pub struct VmInfo {
    pub id: u128,
    pub name: String,
    pub state: VmState,
    pub pid: Option<u32>,
    pub vcpu_count: u32,
    pub mem_size_mib: u32,
    pub vsock_cid: u32,
}

/// What is known of a VM, with its name as characters.
pub struct VmInfoView {
    pub id: u128,
    pub name: Seq<char>,
    pub state: VmState,
    pub pid: Option<u32>,
    pub vcpu_count: u32,
    pub mem_size_mib: u32,
    pub vsock_cid: u32,
}

impl View for VmInfo {
    type V = VmInfoView;

    open spec fn view(&self) -> VmInfoView {
        VmInfoView {
            id: self.id,
            name: self.name@,
            state: self.state,
            pid: self.pid,
            vcpu_count: self.vcpu_count,
            mem_size_mib: self.mem_size_mib,
            vsock_cid: self.vsock_cid,
        }
    }
}

impl VmInfo {
    /// A copy.
    pub fn copy(&self) -> (r: VmInfo)
        ensures
            r@ == self@,
    {
        VmInfo {
            id: self.id,
            name: self.name.clone(),
            state: self.state,
            pid: self.pid,
            vcpu_count: self.vcpu_count,
            mem_size_mib: self.mem_size_mib,
            vsock_cid: self.vsock_cid,
        }
    }
}

/// What can go wrong with a virtual machine monitor.
#[derive(Debug)]
pub enum VmmError {
    VmNotFound(u128),
    VmAlreadyExists(String),
    ProcessError(String),
    ApiError(String),
    InvalidConfig(String),
    /// Input or output failed; in the words of the operating system.
    Io(String),
}

/// A monitor's error, with its texts as characters.
pub enum VmmErrorView {
    VmNotFound(u128),
    VmAlreadyExists(Seq<char>),
    ProcessError(Seq<char>),
    ApiError(Seq<char>),
    InvalidConfig(Seq<char>),
    Io(Seq<char>),
}

impl View for VmmError {
    type V = VmmErrorView;

    open spec fn view(&self) -> VmmErrorView {
        match self {
            VmmError::VmNotFound(id) => VmmErrorView::VmNotFound(*id),
            VmmError::VmAlreadyExists(name) => VmmErrorView::VmAlreadyExists(name@),
            VmmError::ProcessError(m) => VmmErrorView::ProcessError(m@),
            VmmError::ApiError(m) => VmmErrorView::ApiError(m@),
            VmmError::InvalidConfig(m) => VmmErrorView::InvalidConfig(m@),
            VmmError::Io(m) => VmmErrorView::Io(m@),
        }
    }
}

impl VmmErrorView {
    /// The error in words.
    pub open spec fn text(self) -> Seq<char> {
        match self {
            VmmErrorView::VmNotFound(id) => "VM not found: "@ + ident::uuid_text(id),
            VmmErrorView::VmAlreadyExists(name) => "VM already exists: "@ + name,
            VmmErrorView::ProcessError(m) => "VMM process error: "@ + m,
            VmmErrorView::ApiError(m) => "API error: "@ + m,
            VmmErrorView::InvalidConfig(m) => "invalid configuration: "@ + m,
            VmmErrorView::Io(m) => "IO error: "@ + m,
        }
    }
}

impl VmmError {
    /// The error in words.
    pub fn message(&self) -> (s: String)
        ensures
            s@ == self@.text(),
    {
        match self {
            VmmError::VmNotFound(id) => {
                let mut s = "VM not found: ".to_owned();
                s.append(format_uuid(*id).as_str());
                s
            },
            VmmError::VmAlreadyExists(name) => {
                let mut s = "VM already exists: ".to_owned();
                s.append(name.as_str());
                s
            },
            VmmError::ProcessError(m) => {
                let mut s = "VMM process error: ".to_owned();
                s.append(m.as_str());
                s
            },
            VmmError::ApiError(m) => {
                let mut s = "API error: ".to_owned();
                s.append(m.as_str());
                s
            },
            VmmError::InvalidConfig(m) => {
                let mut s = "invalid configuration: ".to_owned();
                s.append(m.as_str());
                s
            },
            VmmError::Io(m) => {
                let mut s = "IO error: ".to_owned();
                s.append(m.as_str());
                s
            },
        }
    }
}

/// An error of a monitor tells which VM, or what went wrong.
pub proof fn errors_tell_what_it_is(e: VmmErrorView)
    ensures
        match e {
            VmmErrorView::VmNotFound(id) => crate::text::ends_with(e.text(), ident::uuid_text(id)),
            VmmErrorView::VmAlreadyExists(name) => crate::text::ends_with(e.text(), name),
            VmmErrorView::ProcessError(m) => crate::text::ends_with(e.text(), m),
            VmmErrorView::ApiError(m) => crate::text::ends_with(e.text(), m),
            VmmErrorView::InvalidConfig(m) => crate::text::ends_with(e.text(), m),
            VmmErrorView::Io(m) => crate::text::ends_with(e.text(), m),
        },
{
    match e {
        VmmErrorView::VmNotFound(id) => crate::text::lemma_ends_with(
            "VM not found: "@,
            ident::uuid_text(id),
        ),
        VmmErrorView::VmAlreadyExists(name) => crate::text::lemma_ends_with(
            "VM already exists: "@,
            name,
        ),
        VmmErrorView::ProcessError(m) => crate::text::lemma_ends_with("VMM process error: "@, m),
        VmmErrorView::ApiError(m) => crate::text::lemma_ends_with("API error: "@, m),
        VmmErrorView::InvalidConfig(m) => crate::text::lemma_ends_with(
            "invalid configuration: "@,
            m,
        ),
        VmmErrorView::Io(m) => crate::text::lemma_ends_with("IO error: "@, m),
    }
}

} // verus!
