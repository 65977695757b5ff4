//! The orchestrator: which VMs there are, what may be done with them in which state, and how a VM
//! is created and taken down.
//!
//! The monitor, the network and the file system are left to the caller. An operation says what is
//! to be done there, and takes notice when it was done; records change only then.
use crate::client::{AgentError, AgentErrorView};
use crate::firecracker;
use crate::firecracker::serial_log_path;
use crate::ident;
use crate::ident::current_time;
use crate::ip;
use crate::ip::{format_ip, parse_ip};
use crate::json;
use crate::json::write_pairs;
use crate::net;
use crate::net::{
    generate_mac, IpAllocator, IpAllocatorView, NetError, NetErrorView, PlannedCommand,
    PlannedCommandView,
};
use crate::path;
use crate::path::join_path;
use crate::state;
use crate::state::{StateError, StateErrorView, StateStore, StateStoreView, VmRecord, VmRecordView};
use crate::storage;
use crate::storage::{
    validate_boot_files, BootFiles, StorageConfig, StorageError, StorageErrorView,
};
use crate::text;
use crate::text::{copy_opt, decimal_of, same_text};
use crate::unread;
use crate::unread::{UnreadRows, UnreadRowsView};
use crate::vmm::{VmConfig, VmConfigView, VmInfo, VmInfoView, VmmError, VmmErrorView};
use vstd::prelude::*;
use vstd::string::*;

verus! {

/// What can go wrong with an operation.
#[derive(Debug)]
pub enum CoreError {
    VmNotFound(String),
    HostGroupNotFound(String),
    ServiceNotFound(String),
    SnapshotNotFound(String),
    ImageNotFound(String),
    /// The operation is not possible in the state that the VM is in.
    InvalidState { name: String, actual: String, expected: String },
    InvalidArgument(String),
    VmAlreadyExists(String),
    HostGroupAlreadyExists(String),
    ServiceAlreadyExists(String),
    SnapshotAlreadyExists(String),
    ImageAlreadyExists(String),
    /// The port of the host is forwarded to some VM already.
    PortAlreadyForwarded(u16),
    Vmm(VmmError),
    Network(NetError),
    Storage(StorageError),
    State(StateError),
    Agent(AgentError),
}

/// An operation's error, with its texts as characters.
pub enum CoreErrorView {
    VmNotFound(Seq<char>),
    HostGroupNotFound(Seq<char>),
    ServiceNotFound(Seq<char>),
    SnapshotNotFound(Seq<char>),
    ImageNotFound(Seq<char>),
    InvalidState { name: Seq<char>, actual: Seq<char>, expected: Seq<char> },
    InvalidArgument(Seq<char>),
    VmAlreadyExists(Seq<char>),
    HostGroupAlreadyExists(Seq<char>),
    ServiceAlreadyExists(Seq<char>),
    SnapshotAlreadyExists(Seq<char>),
    ImageAlreadyExists(Seq<char>),
    PortAlreadyForwarded(u16),
    Vmm(VmmErrorView),
    Network(NetErrorView),
    Storage(StorageErrorView),
    State(StateErrorView),
    Agent(AgentErrorView),
}

impl View for CoreError {
    type V = CoreErrorView;

    open spec fn view(&self) -> CoreErrorView {
        match self {
            CoreError::VmNotFound(s) => CoreErrorView::VmNotFound(s@),
            CoreError::HostGroupNotFound(s) => CoreErrorView::HostGroupNotFound(s@),
            CoreError::ServiceNotFound(s) => CoreErrorView::ServiceNotFound(s@),
            CoreError::SnapshotNotFound(s) => CoreErrorView::SnapshotNotFound(s@),
            CoreError::ImageNotFound(s) => CoreErrorView::ImageNotFound(s@),
            CoreError::InvalidArgument(s) => CoreErrorView::InvalidArgument(s@),
            CoreError::VmAlreadyExists(s) => CoreErrorView::VmAlreadyExists(s@),
            CoreError::HostGroupAlreadyExists(s) => CoreErrorView::HostGroupAlreadyExists(s@),
            CoreError::ServiceAlreadyExists(s) => CoreErrorView::ServiceAlreadyExists(s@),
            CoreError::SnapshotAlreadyExists(s) => CoreErrorView::SnapshotAlreadyExists(s@),
            CoreError::ImageAlreadyExists(s) => CoreErrorView::ImageAlreadyExists(s@),
            CoreError::PortAlreadyForwarded(port) => CoreErrorView::PortAlreadyForwarded(*port),
            CoreError::InvalidState { name, actual, expected } => CoreErrorView::InvalidState {
                name: name@,
                actual: actual@,
                expected: expected@,
            },
            CoreError::Vmm(e) => CoreErrorView::Vmm(e@),
            CoreError::Network(e) => CoreErrorView::Network(e@),
            CoreError::Storage(e) => CoreErrorView::Storage(e@),
            CoreError::State(e) => CoreErrorView::State(e@),
            CoreError::Agent(e) => CoreErrorView::Agent(e@),
        }
    }
}

impl CoreErrorView {
    /// The error in words.
    pub open spec fn text(self) -> Seq<char> {
        match self {
            CoreErrorView::VmNotFound(s) => "VM not found: "@ + s,
            CoreErrorView::HostGroupNotFound(s) => "host group not found: "@ + s,
            CoreErrorView::ServiceNotFound(s) => "service not found: "@ + s,
            CoreErrorView::SnapshotNotFound(s) => "snapshot not found: "@ + s,
            CoreErrorView::ImageNotFound(s) => "image not found: "@ + s,
            CoreErrorView::InvalidArgument(s) => "invalid argument: "@ + s,
            CoreErrorView::VmAlreadyExists(s) => "VM already exists: "@ + s,
            CoreErrorView::HostGroupAlreadyExists(s) => "host group already exists: "@ + s,
            CoreErrorView::ServiceAlreadyExists(s) => "service already exists: "@ + s,
            CoreErrorView::SnapshotAlreadyExists(s) => "snapshot already exists: "@ + s,
            CoreErrorView::ImageAlreadyExists(s) => "image already exists: "@ + s,
            CoreErrorView::PortAlreadyForwarded(port) => "host port "@ + text::decimal(port as nat)
                + " is already forwarded"@,
            CoreErrorView::InvalidState { name, actual, expected } => "VM '"@ + name + "' is "@
                + actual + ", expected "@ + expected,
            CoreErrorView::Vmm(e) => "VMM error: "@ + e.text(),
            CoreErrorView::Network(e) => "network error: "@ + e.text(),
            CoreErrorView::Storage(e) => "storage error: "@ + e.text(),
            CoreErrorView::State(e) => "state error: "@ + e.text(),
            CoreErrorView::Agent(e) => "agent error: "@ + e.text(),
        }
    }
}

fn prefixed(prefix: &str, rest: &str) -> (s: String)
    ensures
        s@ == prefix@ + rest@,
{
    let mut s = prefix.to_owned();
    s.append(rest);
    s
}

impl CoreError {
    /// The error in words.
    pub fn message(&self) -> (s: String)
        ensures
            s@ == self@.text(),
    {
        match self {
            CoreError::VmNotFound(s) => prefixed("VM not found: ", s.as_str()),
            CoreError::HostGroupNotFound(s) => prefixed("host group not found: ", s.as_str()),
            CoreError::ServiceNotFound(s) => prefixed("service not found: ", s.as_str()),
            CoreError::SnapshotNotFound(s) => prefixed("snapshot not found: ", s.as_str()),
            CoreError::ImageNotFound(s) => prefixed("image not found: ", s.as_str()),
            CoreError::InvalidArgument(s) => prefixed("invalid argument: ", s.as_str()),
            CoreError::VmAlreadyExists(s) => prefixed("VM already exists: ", s.as_str()),
            CoreError::HostGroupAlreadyExists(s) => prefixed("host group already exists: ", s.as_str()),
            CoreError::ServiceAlreadyExists(s) => prefixed("service already exists: ", s.as_str()),
            CoreError::SnapshotAlreadyExists(s) => prefixed("snapshot already exists: ", s.as_str()),
            CoreError::ImageAlreadyExists(s) => prefixed("image already exists: ", s.as_str()),
            CoreError::PortAlreadyForwarded(port) => {
                let mut s = "host port ".to_owned();
                s.append(decimal_of(*port as u64).as_str());
                s.append(" is already forwarded");
                s
            },
            CoreError::InvalidState { name, actual, expected } => {
                let mut s = "VM '".to_owned();
                s.append(name.as_str());
                s.append("' is ");
                s.append(actual.as_str());
                s.append(", expected ");
                s.append(expected.as_str());
                s
            },
            CoreError::Vmm(e) => prefixed("VMM error: ", e.message().as_str()),
            CoreError::Network(e) => prefixed("network error: ", e.message().as_str()),
            CoreError::Storage(e) => prefixed("storage error: ", e.message().as_str()),
            CoreError::State(e) => prefixed("state error: ", e.message().as_str()),
            CoreError::Agent(e) => prefixed("agent error: ", e.message().as_str()),
        }
    }
}

/// The host's network, for monitors that need it.
pub struct HostNetwork {
    pub ip_allocator: IpAllocator,
    /// The interface over which guests reach the outside.
    pub host_interface: String,
}

/// The orchestrator.
pub struct HuskCore {
    pub state: StateStore,
    /// Rows that could not be read.
    pub unread: UnreadRows,
    /// `None` where the monitor brings its own network.
    pub network: Option<HostNetwork>,
    pub storage: StorageConfig,
    /// Where sockets and logs are.
    pub runtime_dir: String,
}

/// The orchestrator, over sequences.
pub struct HuskCoreView {
    pub state: StateStoreView,
    pub unread: UnreadRowsView,
    pub ips: Option<IpAllocatorView>,
    pub host_interface: Seq<char>,
    pub data_dir: Seq<char>,
    pub runtime_dir: Seq<char>,
}

impl View for HuskCore {
    type V = HuskCoreView;

    open spec fn view(&self) -> HuskCoreView {
        HuskCoreView {
            state: self.state@,
            unread: self.unread@,
            ips: match self.network {
                Some(n) => Some(n.ip_allocator@),
                None => None,
            },
            host_interface: match self.network {
                Some(n) => n.host_interface@,
                None => seq![],
            },
            data_dir: self.storage.data_dir@,
            runtime_dir: self.runtime_dir@,
        }
    }
}

impl HuskCoreView {
    /// The orchestrator with other records.
    pub open spec fn with_records(self, state: StateStoreView) -> HuskCoreView {
        HuskCoreView { state, ..self }
    }

    /// The orchestrator with other unread rows.
    pub open spec fn with_unread(self, unread: UnreadRowsView) -> HuskCoreView {
        HuskCoreView { unread, ..self }
    }

    /// Whether a VM has the given name, be it one whose row could not be read.
    pub open spec fn name_taken(self, name: Seq<char>) -> bool {
        self.state.has_name(name) || unread::fault_named(self.unread.vms, name) is Some
    }

    /// The error where no VM of the given name can be used: what is wrong with its row, or that it
    /// is not there.
    pub open spec fn missing(self, name: Seq<char>) -> CoreErrorView {
        match unread::fault_named(self.unread.vms, name) {
            Some(e) => CoreErrorView::State(e),
            None => CoreErrorView::VmNotFound(name),
        }
    }
}

/// An operation that changes the state of a VM.
#[derive(Debug, Clone, Copy, PartialEq, Eq, Structural)]
pub enum VmOp {
    Stop,
    Pause,
    Resume,
}

/// What an operation comes down to in a given state.
pub enum OpDecision {
    /// The VM is as it should be.
    Nothing,
    /// The monitor has to be asked.
    Ask,
    /// The VM would have to be in the named state.
    Refuse(Seq<char>),
}

/// The state that an operation brings about.
pub open spec fn op_target(op: VmOp) -> Seq<char> {
    match op {
        VmOp::Stop => "stopped"@,
        VmOp::Pause => "paused"@,
        VmOp::Resume => "running"@,
    }
}

/// What an operation comes down to: nothing where its target is reached; a VM can be paused
/// only while it runs, and resumed only while it is paused.
pub open spec fn decide(op: VmOp, state: Seq<char>) -> OpDecision {
    if state == op_target(op) {
        OpDecision::Nothing
    } else {
        match op {
            VmOp::Stop => OpDecision::Ask,
            VmOp::Pause => if state == "running"@ {
                OpDecision::Ask
            } else {
                OpDecision::Refuse("running"@)
            },
            VmOp::Resume => if state == "paused"@ {
                OpDecision::Ask
            } else {
                OpDecision::Refuse("paused"@)
            },
        }
    }
}

/// The error for a VM that would have to be in another state.
pub open spec fn wrong_state(record: VmRecordView, expected: Seq<char>) -> CoreErrorView {
    CoreErrorView::InvalidState { name: record.name, actual: record.state, expected }
}

/// How far the destruction of a VM has come.
#[derive(Debug, Clone, Copy, PartialEq, Eq, Structural)]
pub enum DestroyStage {
    /// The monitor is destroying the VM.
    Asking,
    /// What belonged to the VM is being removed.
    Removing,
    /// The destruction is over.
    Over,
}

/// A VM that is being taken down.
pub struct Destruction {
    pub stage: DestroyStage,
    pub id: u128,
    pub tap_device: Option<String>,
    pub vm_dir: String,
}

/// What became of the last step of a destruction.
pub enum DestroyEvent {
    /// What the monitor said.
    Asked(Result<(), VmmError>),
    /// What belonged to the VM was removed, as far as it could be.
    Removed,
}

/// What to do next in a destruction.
pub enum DestroyStep {
    /// Have the monitor destroy the VM.
    Ask(u128),
    /// Remove what belonged to the VM, in order. A removal that fails is passed over.
    Remove(Vec<UndoAction>),
    /// The VM is gone.
    Destroyed,
    Failed(CoreError),
}

/// What to do next in a destruction, over sequences.
pub enum DestroyStepView {
    Ask(u128),
    Remove(Seq<UndoView>),
    Destroyed,
    Failed(CoreErrorView),
}

impl View for DestroyStep {
    type V = DestroyStepView;

    open spec fn view(&self) -> DestroyStepView {
        match self {
            DestroyStep::Ask(id) => DestroyStepView::Ask(*id),
            DestroyStep::Remove(actions) => DestroyStepView::Remove(undo_views(actions@)),
            DestroyStep::Destroyed => DestroyStepView::Destroyed,
            DestroyStep::Failed(e) => DestroyStepView::Failed(e@),
        }
    }
}

impl Destruction {
    /// The events that can follow the last step.
    pub open spec fn expects(&self, event: DestroyEvent) -> bool {
        match event {
            DestroyEvent::Asked(_) => self.stage == DestroyStage::Asking,
            DestroyEvent::Removed => self.stage == DestroyStage::Removing,
        }
    }

    /// What belonged to the VM: its TAP device with the rules of it, then its directory.
    pub open spec fn belongings(&self) -> Seq<UndoView> {
        let dir = seq![UndoView::RemoveDir(self.vm_dir@)];
        match self.tap_device {
            Some(tap) => seq![UndoView::RemoveNetwork(tap@)] + dir,
            None => dir,
        }
    }

    /// The destruction at another stage.
    pub open spec fn at(self, stage: DestroyStage) -> Destruction {
        Destruction { stage, ..self }
    }
}

/// The orchestrator after the VM `id` was taken out of the records: its address and its context id
/// are free again, and its records are gone, also rows of its port forwards that could not be read.
pub open spec fn vm_forgotten(before: HuskCoreView, after: HuskCoreView, id: u128) -> bool {
    &&& exists|i: int|
        0 <= i < before.state.vms.len() && (#[trigger] before.state.vms[i]).id == id && after.state
            == before.state.without_vm(i).with_freed_cid(before.state.vms[i].vsock_cid)
            && host_ip_given_back(before.ips, after.ips, before.state.vms[i].host_ip)
    &&& after.unread == before.unread.without_vm(id)
    &&& after.host_interface == before.host_interface
    &&& after.data_dir == before.data_dir
    &&& after.runtime_dir == before.runtime_dir
}

/// One step of a destruction. The monitor comes first: where it fails, nothing is removed and the
/// records stay. Once it has destroyed the VM, what belonged to the VM is removed, and only then
/// its records go.
pub open spec fn destroy_stepped(
    before: HuskCoreView,
    after: HuskCoreView,
    d: Destruction,
    d_after: Destruction,
    event: DestroyEvent,
    step: DestroyStepView,
) -> bool {
    match event {
        DestroyEvent::Asked(Err(e)) => {
            &&& step == DestroyStepView::Failed(CoreErrorView::Vmm(e@))
            &&& after == before
            &&& d_after == d.at(DestroyStage::Over)
        },
        DestroyEvent::Asked(Ok(_)) => {
            &&& step == DestroyStepView::Remove(d.belongings())
            &&& after == before
            &&& d_after == d.at(DestroyStage::Removing)
        },
        DestroyEvent::Removed => {
            &&& d_after == d.at(DestroyStage::Over)
            &&& if before.state.has_id(d.id) {
                step == DestroyStepView::Destroyed && vm_forgotten(before, after, d.id)
            } else {
                &&& step == DestroyStepView::Failed(
                    CoreErrorView::State(StateErrorView::VmNotFound(d.id)),
                )
                &&& after == before
            }
        },
    }
}

impl HuskCore {
    /// The records and the addresses are in order, and no address that can be handed out is
    /// beyond the address space.
    pub open spec fn wf(&self) -> bool {
        &&& self.state.wf()
        &&& self.network matches Some(n) ==> n.ip_allocator.wf() && n.ip_allocator@.fits()
    }

    /// An orchestrator over the given records.
    pub fn new(
        state: StateStore,
        network: Option<HostNetwork>,
        storage: StorageConfig,
        runtime_dir: String,
    ) -> (c: HuskCore)
        ensures
            c.state == state,
            c.unread@ == UnreadRowsView::none(),
            c.network == network,
            c.storage == storage,
            c.runtime_dir == runtime_dir,
    {
        HuskCore { state, unread: UnreadRows::none(), network, storage, runtime_dir }
    }

    /// The orchestrator, with rows that could not be read.
    pub fn with_unread(self, unread: UnreadRows) -> (c: HuskCore)
        ensures
            c@ == self@.with_unread(unread@),
            self.wf() ==> c.wf(),
    {
        HuskCore { unread, ..self }
    }

    /// The VM with the given name.
    pub fn get_vm(&self, name: &str) -> (r: Result<&VmRecord, CoreError>)
        ensures
            match r {
                Ok(record) => self@.state.vms.contains(record@) && record.name@ == name@,
                Err(e) => !self@.state.has_name(name@) && e@ == self@.missing(name@),
            },
    {
        match self.state.get_vm_by_name(name) {
            Ok(record) => Ok(record),
            Err(_) => match self.unread.vm_named(name) {
                Some(e) => Err(CoreError::State(e)),
                None => Err(CoreError::VmNotFound(name.to_owned())),
            },
        }
    }

    /// All VMs, in the order of their creation times. Fails with the first of them whose row could
    /// not be read.
    pub fn list_vms(&self) -> (r: Result<Vec<&VmRecord>, CoreError>)
        ensures
            match r {
                Ok(list) => {
                    &&& self@.unread.vms.len() == 0
                    &&& state::by_creation(state::vm_ref_views(list@))
                    &&& state::vm_ref_views(list@).to_multiset() == self@.state.vms.to_multiset()
                },
                Err(e) => e@ matches CoreErrorView::State(fault) && unread::is_first_fault(
                    self@.unread.vms,
                    fault,
                ),
            },
    {
        match self.unread.first_vm() {
            Some(e) => Err(CoreError::State(e)),
            None => Ok(self.state.list_vms()),
        }
    }

    /// Plans a change of a VM's state: the id of the VM that the monitor has to be asked for,
    /// or `None` where nothing is to be done.
    pub fn plan_op(&self, name: &str, op: VmOp) -> (r: Result<Option<u128>, CoreError>)
        ensures
            match r {
                Ok(None) => exists|v: VmRecordView| #[trigger]
                    self@.state.vms.contains(v) && v.name == name@ && decide(op, v.state) is Nothing,
                Ok(Some(id)) => exists|v: VmRecordView| #[trigger]
                    self@.state.vms.contains(v) && v.name == name@ && v.id == id && decide(
                        op,
                        v.state,
                    ) is Ask,
                Err(e) => if !self@.state.has_name(name@) {
                    e@ == self@.missing(name@)
                } else {
                    exists|v: VmRecordView| #[trigger]
                        self@.state.vms.contains(v) && v.name == name@ && (decide(
                            op,
                            v.state,
                        ) matches OpDecision::Refuse(expected) && e@ == wrong_state(v, expected))
                },
            },
    {
        let record = match self.get_vm(name) {
            Ok(record) => record,
            Err(e) => return Err(e),
        };
        proof {
            let k = choose|k: int| 0 <= k < self@.state.vms.len() && self@.state.vms[k] == record@;
            assert(self@.state.vms[k].name == name@);
            assert(self@.state.has_name(name@));
        }
        let running = same_text(record.state.as_str(), "running");
        let paused = same_text(record.state.as_str(), "paused");
        let stopped = same_text(record.state.as_str(), "stopped");
        let done = match op {
            VmOp::Stop => stopped,
            VmOp::Pause => paused,
            VmOp::Resume => running,
        };
        if done {
            return Ok(None);
        }
        let possible = match op {
            VmOp::Stop => true,
            VmOp::Pause => running,
            VmOp::Resume => paused,
        };
        if possible {
            return Ok(Some(record.id));
        }
        let expected = match op {
            VmOp::Pause => "running",
            _ => "paused",
        };
        Err(
            CoreError::InvalidState {
                name: record.name.clone(),
                actual: record.state.clone(),
                expected: expected.to_owned(),
            },
        )
    }

    /// Plans to stop a VM. A stopped VM is left as it is.
    pub fn stop_vm(&self, name: &str) -> (r: Result<Option<u128>, CoreError>)
        ensures
            match r {
                Ok(None) => exists|v: VmRecordView| #[trigger]
                    self@.state.vms.contains(v) && v.name == name@ && v.state == "stopped"@,
                Ok(Some(id)) => exists|v: VmRecordView| #[trigger]
                    self@.state.vms.contains(v) && v.name == name@ && v.id == id && v.state
                        != "stopped"@,
                Err(e) => !self@.state.has_name(name@) && e@ == self@.missing(name@),
            },
    {
        self.plan_op(name, VmOp::Stop)
    }

    /// Plans to pause a VM. A paused VM is left as it is; any other VM has to be running.
    pub fn pause_vm(&self, name: &str) -> (r: Result<Option<u128>, CoreError>)
        ensures
            match r {
                Ok(None) => exists|v: VmRecordView| #[trigger]
                    self@.state.vms.contains(v) && v.name == name@ && v.state == "paused"@,
                Ok(Some(id)) => exists|v: VmRecordView| #[trigger]
                    self@.state.vms.contains(v) && v.name == name@ && v.id == id && v.state
                        == "running"@,
                Err(e) => if !self@.state.has_name(name@) {
                    e@ == self@.missing(name@)
                } else {
                    exists|v: VmRecordView| #[trigger]
                        self@.state.vms.contains(v) && v.name == name@ && v.state != "paused"@
                            && v.state != "running"@ && e@ == wrong_state(v, "running"@)
                },
            },
    {
        self.plan_op(name, VmOp::Pause)
    }

    /// Plans to resume a VM. A running VM is left as it is; any other VM has to be paused.
    pub fn resume_vm(&self, name: &str) -> (r: Result<Option<u128>, CoreError>)
        ensures
            match r {
                Ok(None) => exists|v: VmRecordView| #[trigger]
                    self@.state.vms.contains(v) && v.name == name@ && v.state == "running"@,
                Ok(Some(id)) => exists|v: VmRecordView| #[trigger]
                    self@.state.vms.contains(v) && v.name == name@ && v.id == id && v.state
                        == "paused"@,
                Err(e) => if !self@.state.has_name(name@) {
                    e@ == self@.missing(name@)
                } else {
                    exists|v: VmRecordView| #[trigger]
                        self@.state.vms.contains(v) && v.name == name@ && v.state != "running"@
                            && v.state != "paused"@ && e@ == wrong_state(v, "paused"@)
                },
            },
    {
        self.plan_op(name, VmOp::Resume)
    }

    /// Takes notice now of what the monitor made of an operation.
    pub fn complete_op(&mut self, id: u128, op: VmOp, outcome: Result<(), VmmError>) -> (r: Result<
        (),
        CoreError,
    >)
        requires
            old(self).wf(),
        ensures
            final(self).wf(),
            match outcome {
                Err(err) => r matches Err(e) && e@ == CoreErrorView::Vmm(err@) && final(self)@
                    == old(self)@,
                Ok(_) => match r {
                    Ok(_) => exists|i: int, now: Seq<char>|
                        0 <= i < old(self)@.state.vms.len() && (#[trigger] old(
                            self)@.state.vms[i]).id == id && #[trigger] ident::is_utc(now) && final(
                            self)@ == old(self)@.with_records(
                            old(self)@.state.with_vms(
                                old(self)@.state.vms.update(
                                    i,
                                    old(self)@.state.vms[i].with_state(op_target(op), now),
                                ),
                            ),
                        ),
                    Err(e) => {
                        &&& !old(self)@.state.has_id(id)
                        &&& e@ == CoreErrorView::State(StateErrorView::VmNotFound(id))
                        &&& final(self)@ == old(self)@
                    },
                },
            },
    {
        let now = current_time();
        self.complete_op_at(id, op, outcome, now.as_str())
    }

    /// Takes notice of what the monitor made of an operation. Only where it succeeded does the
    /// record change.
    pub fn complete_op_at(
        &mut self,
        id: u128,
        op: VmOp,
        outcome: Result<(), VmmError>,
        now: &str,
    ) -> (r: Result<(), CoreError>)
        requires
            old(self).wf(),
        ensures
            final(self).wf(),
            match outcome {
                Err(err) => r matches Err(e) && e@ == CoreErrorView::Vmm(err@) && final(self)@
                    == old(self)@,
                Ok(_) => match r {
                    Ok(_) => exists|i: int|
                        0 <= i < old(self)@.state.vms.len() && (#[trigger] old(
                            self)@.state.vms[i]).id == id && final(self)@ == old(
                            self)@.with_records(
                            old(self)@.state.with_vms(
                                old(self)@.state.vms.update(
                                    i,
                                    old(self)@.state.vms[i].with_state(op_target(op), now@),
                                ),
                            ),
                        ),
                    Err(e) => {
                        &&& !old(self)@.state.has_id(id)
                        &&& e@ == CoreErrorView::State(StateErrorView::VmNotFound(id))
                        &&& final(self)@ == old(self)@
                    },
                },
            },
    {
        match outcome {
            Err(e) => return Err(CoreError::Vmm(e)),
            Ok(_) => {},
        }
        let target = match op {
            VmOp::Stop => "stopped",
            VmOp::Pause => "paused",
            VmOp::Resume => "running",
        };
        match self.state.update_vm_state_at(id, target, now) {
            Ok(_) => {
                proof {
                    let s = old(self)@.state;
                    let i = choose|i: int|
                        0 <= i < s.vms.len() && (#[trigger] s.vms[i]).id == id && self@.state
                            == s.with_vms(
                            s.vms.update(i, s.vms[i].with_state(op_target(op), now@)),
                        );
                    assert(old(self)@.state.vms[i].id == id);
                    assert(self@ == old(self)@.with_records(self@.state));
                }
                Ok(())
            },
            Err(e) => Err(CoreError::State(e)),
        }
    }

    /// The VM whose agent may be talked to: only that of a running VM.
    pub fn agent_connect(&self, name: &str) -> (r: Result<u128, CoreError>)
        ensures
            match r {
                Ok(id) => exists|v: VmRecordView| #[trigger]
                    self@.state.vms.contains(v) && v.name == name@ && v.id == id && v.state
                        == "running"@,
                Err(e) => if !self@.state.has_name(name@) {
                    e@ == self@.missing(name@)
                } else {
                    exists|v: VmRecordView| #[trigger]
                        self@.state.vms.contains(v) && v.name == name@ && v.state != "running"@
                            && e@ == wrong_state(v, "running"@)
                },
            },
    {
        let record = match self.get_vm(name) {
            Ok(record) => record,
            Err(e) => return Err(e),
        };
        proof {
            let k = choose|k: int| 0 <= k < self@.state.vms.len() && self@.state.vms[k] == record@;
            assert(self@.state.vms[k].name == name@);
            assert(self@.state.has_name(name@));
        }
        if same_text(record.state.as_str(), "running") {
            return Ok(record.id);
        }
        Err(
            CoreError::InvalidState {
                name: record.name.clone(),
                actual: record.state.clone(),
                expected: "running".to_owned(),
            },
        )
    }

    /// Where the serial console of a VM is logged.
    pub fn serial_log_path(&self, name: &str) -> (r: Result<String, CoreError>)
        ensures
            match r {
                Ok(path) => exists|v: VmRecordView| #[trigger]
                    self@.state.vms.contains(v) && v.name == name@ && path@ == firecracker::serial_log_of(
                        self@.runtime_dir,
                        v.id,
                    ),
                Err(e) => !self@.state.has_name(name@) && e@ == self@.missing(name@),
            },
    {
        match self.get_vm(name) {
            Ok(record) => {
                proof {
                    assert(self@.state.vms.contains(record@));
                }
                Ok(serial_log_path(self.runtime_dir.as_str(), record.id))
            },
            Err(e) => Err(e),
        }
    }

    /// Begins to take a VM down, whatever state it is in: the monitor is to destroy it.
    pub fn destroy_vm(&self, name: &str) -> (r: Result<(Destruction, DestroyStep), CoreError>)
        ensures
            match r {
                Ok((d, step)) => {
                    &&& d.stage == DestroyStage::Asking
                    &&& step@ == DestroyStepView::Ask(d.id)
                    &&& exists|v: VmRecordView| #[trigger]
                        self@.state.vms.contains(v) && v.name == name@ && d.id == v.id
                            && text::opt_text(d.tap_device) == v.tap_device && d.vm_dir@
                            == storage::vm_dir_of(self@.data_dir, v.name)
                },
                Err(e) => !self@.state.has_name(name@) && e@ == self@.missing(name@),
            },
    {
        match self.get_vm(name) {
            Ok(record) => {
                proof {
                    assert(self@.state.vms.contains(record@));
                }
                let d = Destruction {
                    stage: DestroyStage::Asking,
                    id: record.id,
                    tap_device: copy_opt(&record.tap_device),
                    vm_dir: self.storage.vm_dir(record.name.as_str()),
                };
                Ok((d, DestroyStep::Ask(record.id)))
            },
            Err(e) => Err(e),
        }
    }
}

/// The addresses after the host address `ip` was given back, where it was in use.
pub open spec fn ip_given_back(before: IpAllocatorView, after: IpAllocatorView, ip: u32) -> bool {
    ||| exists|i: u32| #[trigger] before.releases(ip, i) && after == before.after_release(i)
    ||| (forall|i: u32| !(#[trigger] before.releases(ip, i))) && after == before
}

/// The addresses after the host address in a record was given back. A text that is no address is
/// passed over.
pub open spec fn host_ip_given_back(
    before: Option<IpAllocatorView>,
    after: Option<IpAllocatorView>,
    host_ip: Option<Seq<char>>,
) -> bool {
    match before {
        None => after is None,
        Some(ips) => after matches Some(left) && match host_ip {
            Some(text) => match ip::ip_value(text) {
                Some(ip) => ip_given_back(ips, left, ip),
                None => left == ips,
            },
            None => left == ips,
        },
    }
}

impl HuskCore {
    fn give_back_ip(&mut self, ip: u32)
        requires
            old(self).wf(),
        ensures
            final(self).wf(),
            final(self)@.state == old(self)@.state,
            final(self)@.unread == old(self)@.unread,
            final(self)@.host_interface == old(self)@.host_interface,
            final(self)@.data_dir == old(self)@.data_dir,
            final(self)@.runtime_dir == old(self)@.runtime_dir,
            match old(self)@.ips {
                None => final(self)@.ips is None,
                Some(ips) => final(self)@.ips matches Some(left) && ip_given_back(ips, left, ip),
            },
    {
        match self.network.take() {
            Some(n) => {
                let mut n = n;
                let _ = n.ip_allocator.release(ip);
                self.network = Some(n);
            },
            None => {},
        }
    }

    /// Takes what became of the last step of a destruction, and says what to do next.
    pub fn destroy_step(&mut self, d: &mut Destruction, event: DestroyEvent) -> (step: DestroyStep)
        requires
            old(self).wf(),
            old(d).expects(event),
        ensures
            final(self).wf(),
            destroy_stepped(old(self)@, final(self)@, *old(d), *final(d), event, step@),
    {
        match event {
            DestroyEvent::Asked(Err(e)) => {
                d.stage = DestroyStage::Over;
                DestroyStep::Failed(CoreError::Vmm(e))
            },
            DestroyEvent::Asked(Ok(_)) => {
                d.stage = DestroyStage::Removing;
                let mut actions: Vec<UndoAction> = Vec::new();
                if let Some(tap) = &d.tap_device {
                    actions.push(UndoAction::RemoveNetwork(tap.clone()));
                }
                actions.push(UndoAction::RemoveDir(d.vm_dir.clone()));
                proof {
                    assert(undo_views(actions@) =~= d.belongings());
                }
                DestroyStep::Remove(actions)
            },
            DestroyEvent::Removed => {
                d.stage = DestroyStage::Over;
                match self.forget_vm(d.id) {
                    Ok(_) => DestroyStep::Destroyed,
                    Err(e) => DestroyStep::Failed(e),
                }
            },
        }
    }

    /// Gives back the address and the context id of a VM, and drops its records.
    fn forget_vm(&mut self, id: u128) -> (r: Result<(), CoreError>)
        requires
            old(self).wf(),
        ensures
            final(self).wf(),
            match r {
                Ok(_) => old(self)@.state.has_id(id) && vm_forgotten(old(self)@, final(self)@, id),
                Err(e) => {
                    &&& !old(self)@.state.has_id(id)
                    &&& e@ == CoreErrorView::State(StateErrorView::VmNotFound(id))
                    &&& final(self)@ == old(self)@
                },
            },
    {
        let (cid, host_ip) = match self.state.get_vm(id) {
            Ok(record) => (record.vsock_cid, copy_opt(&record.host_ip)),
            Err(e) => return Err(CoreError::State(e)),
        };
        proof {
            let s = old(self)@.state;
            assert(exists|v: VmRecordView| #[trigger]
                s.vms.contains(v) && v.id == id && v.vsock_cid == cid && v.host_ip == text::opt_text(
                    host_ip,
                ));
        }
        if let Some(text) = &host_ip {
            if let Some(ip) = parse_ip(text.as_str()) {
                self.give_back_ip(ip);
            }
        }
        self.state.release_cid(cid);
        let deleted = self.state.delete_vm(id);
        self.unread.remove_vm(id);
        proof {
            let s = old(self)@.state;
            let v = choose|v: VmRecordView| #[trigger]
                s.vms.contains(v) && v.id == id && v.vsock_cid == cid && v.host_ip == text::opt_text(
                    host_ip,
                );
            let k = choose|k: int| 0 <= k < s.vms.len() && s.vms[k] == v;
            assert(s.vms[k].id == id);
            let t = s.with_freed_cid(cid);
            assert(t.vms == s.vms);
            assert(t.has_id(id)) by {
                assert(t.vms[k].id == id);
            }
            assert(deleted is Ok);
            let i = choose|i: int|
                0 <= i < t.vms.len() && (#[trigger] t.vms[i]).id == id && self@.state
                    == t.without_vm(i);
            assert(i == k) by {
                if i < k {
                    assert(s.vms[i].id != s.vms[k].id);
                } else if k < i {
                    assert(s.vms[k].id != s.vms[i].id);
                }
            }
            assert(t.without_vm(i) == s.without_vm(i).with_freed_cid(cid));
            assert(s.vms[i].id == id);
        }
        match deleted {
            Ok(_) => Ok(()),
            Err(e) => Err(CoreError::State(e)),
        }
    }
}

/// What a new VM is to be.
#[derive(Debug, Clone)]
pub struct CreateVmRequest {
    pub name: String,
    pub kernel_path: String,
    pub rootfs_path: String,
    pub vcpu_count: Option<u32>,
    pub mem_size_mib: Option<u32>,
    /// Initial RAM disk, for kernels whose drivers are modules.
    pub initrd_path: Option<String>,
    /// Script to run in the guest once it is up.
    pub userdata: Option<String>,
    /// Environment for the script.
    pub env: Vec<(String, String)>,
}

/// What was allocated for a VM that is being created.
#[derive(Debug, Clone)]
pub struct AllocatedResources {
    pub host_ip: Option<u32>,
    pub cid: Option<u32>,
    pub tap_name: Option<String>,
    pub vm_dir: Option<String>,
    pub vm_id: Option<u128>,
}

/// What was allocated, with texts as characters.
pub struct ResourcesView {
    pub host_ip: Option<u32>,
    pub cid: Option<u32>,
    pub tap_name: Option<Seq<char>>,
    pub vm_dir: Option<Seq<char>>,
    pub vm_id: Option<u128>,
}

impl View for AllocatedResources {
    type V = ResourcesView;

    open spec fn view(&self) -> ResourcesView {
        ResourcesView {
            host_ip: self.host_ip,
            cid: self.cid,
            tap_name: text::opt_text(self.tap_name),
            vm_dir: text::opt_text(self.vm_dir),
            vm_id: self.vm_id,
        }
    }
}

/// One step back from a creation that failed.
pub enum UndoAction {
    /// Have the monitor destroy the VM.
    DestroyVm(u128),
    /// Remove a directory with all that is in it.
    RemoveDir(String),
    /// Remove all rules of the VM with the given TAP device, also those of its port forwards, then
    /// the device: [`net::remove_network`] plans it.
    RemoveNetwork(String),
}

/// One step back, with texts as characters.
pub enum UndoView {
    DestroyVm(u128),
    RemoveDir(Seq<char>),
    RemoveNetwork(Seq<char>),
}

impl View for UndoAction {
    type V = UndoView;

    open spec fn view(&self) -> UndoView {
        match self {
            UndoAction::DestroyVm(id) => UndoView::DestroyVm(*id),
            UndoAction::RemoveDir(dir) => UndoView::RemoveDir(dir@),
            UndoAction::RemoveNetwork(tap) => UndoView::RemoveNetwork(tap@),
        }
    }
}

/// The steps back, with texts as characters.
pub open spec fn undo_views(v: Seq<UndoAction>) -> Seq<UndoView> {
    v.map_values(|a: UndoAction| a@)
}

/// The steps back from what was allocated, in the reverse order of the allocation. The context
/// id and the address are given back last, by the orchestrator itself.
pub open spec fn undo_plan(r: ResourcesView) -> Seq<UndoView> {
    let vm = match r.vm_id {
        Some(id) => seq![UndoView::DestroyVm(id)],
        None => seq![],
    };
    let dir = match r.vm_dir {
        Some(dir) => seq![UndoView::RemoveDir(dir)],
        None => seq![],
    };
    let tap = match r.tap_name {
        Some(tap) => seq![UndoView::RemoveNetwork(tap)],
        None => seq![],
    };
    vm + dir + tap
}

/// The steps back from what was allocated.
pub fn undo_actions(r: &AllocatedResources) -> (undo: Vec<UndoAction>)
    ensures
        undo_views(undo@) == undo_plan(r@),
{
    let mut undo: Vec<UndoAction> = Vec::new();
    if let Some(id) = r.vm_id {
        undo.push(UndoAction::DestroyVm(id));
    }
    if let Some(dir) = &r.vm_dir {
        undo.push(UndoAction::RemoveDir(dir.clone()));
    }
    if let Some(tap) = &r.tap_name {
        undo.push(UndoAction::RemoveNetwork(tap.clone()));
    }
    assert(undo_views(undo@) =~= undo_plan(r@));
    undo
}

/// The name of the TAP device of the VM with the given context id.
pub open spec fn tap_name_for(cid: u32) -> Seq<char> {
    "husk"@ + text::decimal(cid as nat)
}

/// The name of a VM's TAP device is always one that a device can have.
pub proof fn tap_names_are_valid(cid: u32)
    ensures
        net::tap_name_fault(tap_name_for(cid)) is None,
{
    let name = tap_name_for(cid);
    reveal_strlit("husk");
    assert(cid < crate::text::pow10(10)) by {
        reveal_with_fuel(crate::text::pow10, 11);
    }
    crate::text::lemma_decimal_len(cid as nat, 10);
    crate::text::lemma_decimal_digits(cid as nat);
    assert forall|i: int| 0 <= i < name.len() implies ('0' <= #[trigger] name[i] <= '9') || 'a'
        <= name[i] <= 'z' by {
        if i >= 4 {
            assert(name[i] == text::decimal(cid as nat)[i - 4]);
        }
    }
    assert(vstd::utf8::is_ascii_chars(name));
    vstd::utf8::is_ascii_chars_encode_utf8(name);
    let bytes = vstd::utf8::encode_utf8(name);
    assert forall|i: int| 0 <= i < bytes.len() implies crate::net::tap_byte(#[trigger] bytes[i]) by {
        assert(bytes[i] == name[i] as u8);
    }
}

/// How far the creation of a VM has come.
#[derive(Debug, Clone, Copy, PartialEq, Eq, Structural)]
pub enum CreateStage {
    /// The TAP device is being made.
    MakingTap,
    /// The NAT rules are being added.
    AddingNat,
    /// The root disk is being copied.
    CopyingDisk,
    /// The monitor is starting the VM.
    Booting,
    /// The creation is over.
    Over,
}

/// How the environment of a userdata script is recorded: not at all where it is empty, and
/// otherwise as JSON.
pub open spec fn env_record(env: Seq<(Seq<char>, Seq<char>)>) -> Option<Seq<char>> {
    if env.len() == 0 {
        None
    } else {
        Some(json::pairs_json(env))
    }
}

/// The environment that a record holds for its userdata script. A text that cannot be read stands
/// for none.
pub open spec fn recorded_env(record: Option<Seq<char>>) -> Seq<(Seq<char>, Seq<char>)> {
    match record {
        Some(text) => match json::pairs_in(text) {
            Some(env) => env,
            None => seq![],
        },
        None => seq![],
    }
}

fn record_env(env: &[(String, String)]) -> (r: Option<String>)
    ensures
        text::opt_text(r) == env_record(text::pair_texts(env@)),
        recorded_env(text::opt_text(r)) == text::pair_texts(env@),
{
    if env.len() == 0 {
        proof {
            assert(text::pair_texts(env@) =~= seq![]);
        }
        None
    } else {
        Some(write_pairs(env))
    }
}

/// A VM that is being created.
pub struct Creation {
    pub stage: CreateStage,
    pub request: CreateVmRequest,
    /// The environment of the userdata script, as it is recorded.
    pub userdata_env: Option<String>,
    /// The initial RAM disk that is used.
    pub initrd_path: Option<String>,
    /// The host's and the guest's address, where the host brings the network.
    pub ips: Option<(u32, u32)>,
    pub cid: u32,
    pub resources: AllocatedResources,
}

/// What became of the last step of a creation.
pub enum CreateEvent {
    /// The step succeeded.
    Done,
    /// The monitor has started the VM.
    Booted(VmInfo),
    /// The step failed.
    Failed(CoreError),
}

/// What to do next in a creation.
pub enum CreateStep {
    /// Run commands on the host, in order.
    Run(Vec<PlannedCommand>),
    /// Copy the root disk.
    Copy { source: String, dest: String },
    /// Have the monitor start a VM.
    Boot(VmConfig),
    /// The VM is there.
    Created(VmRecord),
    /// The creation has failed: take the steps back, then give back what was allocated.
    Failed { error: CoreError, undo: Vec<UndoAction> },
}

/// What to do next in a creation, over sequences.
pub enum CreateStepView {
    Run(Seq<PlannedCommandView>),
    Copy { source: Seq<char>, dest: Seq<char> },
    Boot(VmConfigView),
    Created(VmRecordView),
    Failed { error: CoreErrorView, undo: Seq<UndoView> },
}

impl View for CreateStep {
    type V = CreateStepView;

    open spec fn view(&self) -> CreateStepView {
        match self {
            CreateStep::Run(plan) => CreateStepView::Run(net::plan_of(plan@)),
            CreateStep::Copy { source, dest } => CreateStepView::Copy {
                source: source@,
                dest: dest@,
            },
            CreateStep::Boot(config) => CreateStepView::Boot(config@),
            CreateStep::Created(record) => CreateStepView::Created(record@),
            CreateStep::Failed { error, undo } => CreateStepView::Failed {
                error: error@,
                undo: undo_views(undo@),
            },
        }
    }
}

/// Where the disk of a VM is.
pub open spec fn disk_path(data_dir: Seq<char>, name: Seq<char>) -> Seq<char> {
    path::joined(storage::vm_dir_of(data_dir, name), "rootfs.ext4"@)
}

/// The kernel arguments of a VM: with a network of the host they carry its addresses.
pub open spec fn kernel_args_for(ips: Option<(u32, u32)>) -> Seq<char> {
    match ips {
        Some((host, guest)) => "console=ttyS0 reboot=k panic=1 pci=off ip="@ + ip::ip_text(guest)
            + "::"@ + ip::ip_text(host) + ":255.255.255.252::eth0:off"@,
        None => "console=hvc0 root=/dev/vda rw init=/sbin/init"@,
    }
}

impl Creation {
    /// Until the creation is over, the addresses and the context id are those that were
    /// allocated. The recorded environment is the one that was asked for.
    pub open spec fn wf(&self) -> bool {
        &&& self.stage != CreateStage::Over ==> self.allocations_agree()
        &&& recorded_env(text::opt_text(self.userdata_env)) == text::pair_texts(self.request.env@)
    }

    /// The addresses and the context id are those that were allocated.
    pub open spec fn allocations_agree(&self) -> bool {
        &&& self.resources.cid == Some(self.cid)
        &&& self.ips matches Some((host, _)) ==> host >= 1
        &&& self.resources.host_ip == (match self.ips {
            Some((host, _)) => Some(host),
            None => None,
        })
        &&& (self.stage == CreateStage::MakingTap || self.stage == CreateStage::AddingNat)
            ==> self.ips is Some
    }

    /// What the steps that are done have made is noted among the resources.
    pub open spec fn noted(&self, data_dir: Seq<char>) -> bool {
        &&& self.ips is Some && (self.stage == CreateStage::AddingNat || self.stage
            == CreateStage::CopyingDisk || self.stage == CreateStage::Booting)
            ==> self.resources@.tap_name == Some(tap_name_for(self.cid))
        &&& self.stage == CreateStage::Booting ==> self.resources@.vm_dir == Some(
            storage::vm_dir_of(data_dir, self.request.name@),
        )
    }

    /// What the monitor is told of the VM.
    pub open spec fn config(&self, data_dir: Seq<char>) -> VmConfigView {
        VmConfigView {
            name: self.request.name@,
            vcpu_count: match self.request.vcpu_count {
                Some(n) => n,
                None => 1,
            },
            mem_size_mib: match self.request.mem_size_mib {
                Some(n) => n,
                None => 128,
            },
            kernel_path: self.request.kernel_path@,
            rootfs_path: disk_path(data_dir, self.request.name@),
            kernel_args: Some(kernel_args_for(self.ips)),
            initrd_path: text::opt_text(self.initrd_path),
            vsock_cid: self.cid,
            tap_device: match self.ips {
                Some(_) => Some(tap_name_for(self.cid)),
                None => None,
            },
            guest_mac: match self.ips {
                Some(_) => Some(net::mac_text(self.cid)),
                None => None,
            },
        }
    }

    /// The record of the VM once it runs.
    pub open spec fn record(&self, info: VmInfoView, now: Seq<char>) -> VmRecordView {
        VmRecordView {
            id: info.id,
            name: self.request.name@,
            state: info.state.text(),
            pid: info.pid,
            vcpu_count: info.vcpu_count,
            mem_size_mib: info.mem_size_mib,
            vsock_cid: self.cid,
            tap_device: match self.ips {
                Some(_) => Some(tap_name_for(self.cid)),
                None => None,
            },
            host_ip: match self.ips {
                Some((host, _)) => Some(ip::ip_text(host)),
                None => None,
            },
            guest_ip: match self.ips {
                Some((_, guest)) => Some(ip::ip_text(guest)),
                None => None,
            },
            kernel_path: self.request.kernel_path@,
            rootfs_path: self.request.rootfs_path@,
            created_at: now,
            updated_at: now,
            userdata: text::opt_text(self.request.userdata),
            userdata_status: match self.request.userdata {
                Some(_) => Some("pending"@),
                None => None,
            },
            userdata_env: text::opt_text(self.userdata_env),
        }
    }

    /// The events that can follow the last step.
    pub open spec fn expects(&self, event: CreateEvent) -> bool {
        match event {
            CreateEvent::Done => self.stage == CreateStage::MakingTap || self.stage
                == CreateStage::AddingNat || self.stage == CreateStage::CopyingDisk,
            CreateEvent::Booted(_) => self.stage == CreateStage::Booting,
            CreateEvent::Failed(_) => self.stage != CreateStage::Over,
        }
    }

    /// The same VM is being created with the same allocations, apart from what the steps add.
    pub open spec fn same_vm(&self, other: &Creation) -> bool {
        &&& self.request == other.request
        &&& self.userdata_env == other.userdata_env
        &&& self.initrd_path == other.initrd_path
        &&& self.ips == other.ips
        &&& self.cid == other.cid
        &&& self.resources.host_ip == other.resources.host_ip
        &&& self.resources.cid == other.resources.cid
    }
}

fn tap_name_of(cid: u32) -> (s: String)
    ensures
        s@ == tap_name_for(cid),
{
    let mut s = "husk".to_owned();
    s.append(decimal_of(cid as u64).as_str());
    s
}

/// What a creation has allocated: the next subnet, where the host brings the network, and the next
/// context id.
pub open spec fn allocated(before: HuskCoreView, after: HuskCoreView, c: Creation) -> bool {
    &&& match before.ips {
        Some(ips) => exists|i: u32| #[trigger]
            ips.is_next(i) && after.ips == Some(ips.after_allocate(i)) && c.ips == Some(
                (ips.host_ip(i as int) as u32, ips.guest_ip(i as int) as u32),
            ),
        None => after.ips is None && c.ips is None,
    }
    &&& before.state.is_next_cid(c.cid)
    &&& after.state == before.state.after_cid(c.cid)
}

/// What was allocated has been given back.
pub open spec fn given_back(before: HuskCoreView, after: HuskCoreView, r: ResourcesView) -> bool {
    &&& after.state == (match r.cid {
        Some(cid) => before.state.with_freed_cid(cid),
        None => before.state,
    })
    &&& match (before.ips, r.host_ip) {
        (Some(ips), Some(ip)) => after.ips matches Some(left) && ip_given_back(ips, left, ip),
        _ => after.ips == before.ips,
    }
}

/// The first step of a creation: make the TAP device, or, where the monitor brings the network,
/// copy the disk.
pub open spec fn first_step(c: Creation, data_dir: Seq<char>) -> CreateStepView {
    match c.ips {
        Some((host, _)) => CreateStepView::Run(net::create_tap_plan(tap_name_for(c.cid), host)),
        None => copy_step(c, data_dir),
    }
}

/// The step that copies the root disk.
pub open spec fn copy_step(c: Creation, data_dir: Seq<char>) -> CreateStepView {
    CreateStepView::Copy {
        source: c.request.rootfs_path@,
        dest: disk_path(data_dir, c.request.name@),
    }
}

fn no_resources() -> (r: AllocatedResources)
    ensures
        r@ == (ResourcesView {
            host_ip: None,
            cid: None,
            tap_name: None,
            vm_dir: None,
            vm_id: None,
        }),
        r.host_ip is None,
        r.cid is None,
{
    AllocatedResources { host_ip: None, cid: None, tap_name: None, vm_dir: None, vm_id: None }
}

/// The initial RAM disk that is used: the one asked for, or else, where the monitor brings the
/// network, the conventional one if it is there.
pub open spec fn initrd_for(
    asked: Option<Seq<char>>,
    own_network: bool,
    conventional_exists: bool,
    data_dir: Seq<char>,
) -> Option<Seq<char>> {
    match asked {
        Some(p) => Some(p),
        None => if own_network && conventional_exists {
            Some(path::joined(data_dir, "kernels/initramfs-virt.gz"@))
        } else {
            None
        },
    }
}

impl HuskCore {
    /// Whether a VM of the given name can be created: `Ok(true)` says that a stopped VM of that
    /// name has to be destroyed first. Any other VM of that name is in the way.
    pub fn check_name(&self, name: &str) -> (r: Result<bool, CoreError>)
        ensures
            match r {
                Ok(false) => !self@.name_taken(name@),
                Ok(true) => exists|v: VmRecordView| #[trigger]
                    self@.state.vms.contains(v) && v.name == name@ && v.state == "stopped"@,
                Err(e) => if self@.state.has_name(name@) {
                    (exists|v: VmRecordView| #[trigger]
                        self@.state.vms.contains(v) && v.name == name@ && v.state != "stopped"@)
                        && e@ == CoreErrorView::VmAlreadyExists(name@)
                } else {
                    self@.name_taken(name@) && e@ == self@.missing(name@)
                },
            },
    {
        match self.get_vm(name) {
            Ok(record) => {
                proof {
                    assert(self@.state.vms.contains(record@));
                    let k = choose|k: int|
                        0 <= k < self@.state.vms.len() && self@.state.vms[k] == record@;
                    assert(self@.state.vms[k].name == name@);
                }
                if same_text(record.state.as_str(), "stopped") {
                    Ok(true)
                } else {
                    Err(CoreError::VmAlreadyExists(name.to_owned()))
                }
            },
            Err(CoreError::State(e)) => Err(CoreError::State(e)),
            Err(_) => Ok(false),
        }
    }

    /// Begins to create a VM: checks that its name is free and the files that it is to boot from
    /// are there, then allocates its address and its context id.
    pub fn create_vm(
        &mut self,
        request: CreateVmRequest,
        files: BootFiles,
    ) -> (r: (Creation, CreateStep))
        requires
            old(self).wf(),
        ensures
            final(self).wf(),
            r.0.wf(),
            r.0.request == request,
            text::opt_text(r.0.userdata_env) == env_record(text::pair_texts(request.env@)),
            r.0.noted(old(self)@.data_dir),
            r.0.stage != CreateStage::Over ==> {
                &&& !old(self)@.name_taken(request.name@)
                &&& storage::boot_fault(request.kernel_path@, request.rootfs_path@, files) is None
                &&& allocated(old(self)@, final(self)@, r.0)
                &&& r.1@ == first_step(r.0, old(self)@.data_dir)
                &&& r.0.stage == (if r.0.ips is Some {
                    CreateStage::MakingTap
                } else {
                    CreateStage::CopyingDisk
                })
                &&& text::opt_text(r.0.initrd_path) == initrd_for(
                    text::opt_text(request.initrd_path),
                    old(self)@.ips is None,
                    files.initrd_exists,
                    old(self)@.data_dir,
                )
                &&& r.0.resources.tap_name is None
                &&& r.0.resources.vm_dir is None
                &&& r.0.resources.vm_id is None
            },
            r.0.stage == CreateStage::Over ==> {
                &&& r.1 matches CreateStep::Failed { error, undo } && undo@.len() == 0
                    && creation_fault(old(self)@, final(self)@, r.0, files, error@)
            },
            final(self)@.data_dir == old(self)@.data_dir,
            final(self)@.unread == old(self)@.unread,
            final(self)@.host_interface == old(self)@.host_interface,
            final(self)@.runtime_dir == old(self)@.runtime_dir,
    {
        let ghost before = self@;
        let found = self.get_vm(request.name.as_str()).is_ok();
        let taken = found || self.unread.vm_named(request.name.as_str()).is_some();
        proof {
            if found {
                let v = choose|v: VmRecordView| #[trigger]
                    self@.state.vms.contains(v) && v.name == request.name@;
                let k = choose|k: int| 0 <= k < self@.state.vms.len() && self@.state.vms[k] == v;
                assert(self@.state.vms[k].name == request.name@);
            }
            assert(found == self@.state.has_name(request.name@));
        }
        let usable = validate_boot_files(
            request.kernel_path.as_str(),
            request.rootfs_path.as_str(),
            &files,
        );
        let initrd_path = match &request.initrd_path {
            Some(p) => Some(p.clone()),
            None => {
                if self.network.is_none() && files.initrd_exists {
                    Some(join_path(self.storage.data_dir.as_str(), "kernels/initramfs-virt.gz"))
                } else {
                    None
                }
            },
        };
        let userdata_env = record_env(request.env.as_slice());
        let mut c = Creation {
            stage: CreateStage::Over,
            request,
            userdata_env,
            initrd_path,
            ips: None,
            cid: 0,
            resources: no_resources(),
        };
        if taken {
            let undo: Vec<UndoAction> = Vec::new();
            let error = CoreError::VmAlreadyExists(c.request.name.clone());
            return (c, CreateStep::Failed { error, undo });
        }
        match usable {
            Ok(_) => {},
            Err(e) => {
                let undo: Vec<UndoAction> = Vec::new();
                return (c, CreateStep::Failed { error: CoreError::Storage(e), undo });
            },
        }
        match self.network.take() {
            Some(n) => {
                let mut n = n;
                proof {
                    assert forall|i: u32| #[trigger]
                        n.ip_allocator@.is_next(i) implies n.ip_allocator@.guest_ip(i as int)
                        <= u32::MAX by {
                        if exists|j: u32| n.ip_allocator@.freed.contains(j) {
                            assert(n.ip_allocator@.freed.contains(i));
                        }
                    }
                }
                let r = n.ip_allocator.allocate();
                self.network = Some(n);
                match r {
                    Ok((host, guest)) => {
                        c.ips = Some((host, guest));
                        c.resources.host_ip = Some(host);
                        proof {
                            let ips = before.ips->0;
                            let i = choose|i: u32| #[trigger]
                                ips.is_next(i) && host == ips.host_ip(i as int) && guest
                                    == ips.guest_ip(i as int) && self@.ips == Some(
                                    ips.after_allocate(i),
                                );
                            assert(ips.is_next(i));
                        }
                    },
                    Err(e) => {
                        let undo: Vec<UndoAction> = Vec::new();
                        return (c, CreateStep::Failed { error: CoreError::Network(e), undo });
                    },
                }
            },
            None => {},
        }
        let cid: u32 = match self.state.allocate_cid() {
            Ok(cid) => cid,
            Err(e) => {
                let undo: Vec<UndoAction> = Vec::new();
                return (c, CreateStep::Failed { error: CoreError::State(e), undo });
            },
        };
        c.cid = cid;
        c.resources.cid = Some(cid);
        match c.ips {
            Some((host, _)) => {
                let tap = tap_name_of(cid);
                proof {
                    tap_names_are_valid(cid);
                }
                c.stage = CreateStage::MakingTap;
                match crate::net::create_tap(tap.as_str(), host) {
                    Ok(plan) => (c, CreateStep::Run(plan)),
                    Err(e) => {
                        c.stage = CreateStage::Over;
                        let undo: Vec<UndoAction> = Vec::new();
                        (c, CreateStep::Failed { error: CoreError::Network(e), undo })
                    },
                }
            },
            None => {
                c.stage = CreateStage::CopyingDisk;
                let step = self.copy_disk(&c);
                (c, step)
            },
        }
    }

    fn copy_disk(&self, c: &Creation) -> (step: CreateStep)
        ensures
            step@ == copy_step(*c, self@.data_dir),
    {
        let dir = self.storage.vm_dir(c.request.name.as_str());
        CreateStep::Copy {
            source: c.request.rootfs_path.clone(),
            dest: join_path(dir.as_str(), "rootfs.ext4"),
        }
    }
}

/// Why a creation fails before its first step: its name is taken, the VM cannot boot from its
/// files, there is no free subnet, or, with the subnet allocated, no context id is left.
pub open spec fn creation_fault(
    before: HuskCoreView,
    after: HuskCoreView,
    c: Creation,
    files: BootFiles,
    error: CoreErrorView,
) -> bool {
    let taken = before.name_taken(c.request.name@);
    let fault = storage::boot_fault(c.request.kernel_path@, c.request.rootfs_path@, files);
    ||| {
        &&& taken && error == CoreErrorView::VmAlreadyExists(c.request.name@)
        &&& after == before
        &&& c.resources.host_ip is None && c.resources.cid is None
    }
    ||| {
        &&& !taken
        &&& fault matches Some(e) && error == CoreErrorView::Storage(e)
        &&& after == before
        &&& c.resources.host_ip is None && c.resources.cid is None
    }
    ||| {
        &&& !taken && fault is None
        &&& error == CoreErrorView::Network(NetErrorView::PoolExhausted)
        &&& before.ips matches Some(ips) && ips.next_index == ips.max_index && ips.freed == Set::<
            u32,
        >::empty()
        &&& after == before
        &&& c.resources.host_ip is None && c.resources.cid is None
    }
    ||| {
        &&& !taken && fault is None
        &&& error == CoreErrorView::State(
            StateErrorView::Database(state::out_of_range_message(before.state.next_cid, 0)),
        )
        &&& before.state.cids_used_up()
        &&& after.state == before.state
        &&& c.resources.cid is None
        &&& match before.ips {
            Some(ips) => exists|i: u32| #[trigger]
                ips.is_next(i) && after.ips == Some(ips.after_allocate(i)) && c.resources.host_ip
                    == Some(ips.host_ip(i as int) as u32),
            None => after.ips is None && c.resources.host_ip is None,
        }
    }
}

/// What a creation has allocated after an event. A step that fails may have made what it was to make.
pub open spec fn resources_after(c: Creation, event: CreateEvent, data_dir: Seq<char>) -> ResourcesView {
    let r = c.resources@;
    match event {
        CreateEvent::Booted(info) => ResourcesView { vm_id: Some(info.id), ..r },
        _ => match c.stage {
            CreateStage::MakingTap => ResourcesView {
                tap_name: Some(tap_name_for(c.cid)),
                ..r
            },
            CreateStage::CopyingDisk => ResourcesView {
                vm_dir: Some(storage::vm_dir_of(data_dir, c.request.name@)),
                ..r
            },
            _ => r,
        },
    }
}

/// The stage and the step of a creation after an event, as far as it does not concern the
/// records.
pub open spec fn step_after(
    c: Creation,
    event: CreateEvent,
    data_dir: Seq<char>,
    host_interface: Seq<char>,
) -> (CreateStage, CreateStepView) {
    match (c.stage, event) {
        (_, CreateEvent::Failed(e)) => (
            CreateStage::Over,
            CreateStepView::Failed {
                error: e@,
                undo: undo_plan(resources_after(c, event, data_dir)),
            },
        ),
        (CreateStage::MakingTap, _) => (
            CreateStage::AddingNat,
            CreateStepView::Run(
                net::add_vm_nat_plan(tap_name_for(c.cid), (c.ips->0).0, host_interface),
            ),
        ),
        (CreateStage::AddingNat, _) => (CreateStage::CopyingDisk, copy_step(c, data_dir)),
        (_, _) => (CreateStage::Booting, CreateStepView::Boot(c.config(data_dir))),
    }
}

/// The orchestrator after the record of the VM `id` was dropped, where it was there.
pub open spec fn record_taken_back(
    before: HuskCoreView,
    after: HuskCoreView,
    id: Option<u128>,
) -> bool {
    match id {
        Some(id) => if before.state.has_id(id) {
            exists|i: int|
                0 <= i < before.state.vms.len() && (#[trigger] before.state.vms[i]).id == id && after
                    == before.with_records(before.state.without_vm(i))
        } else {
            after == before
        },
        None => after == before,
    }
}

/// One step of a creation: an event at a time, and what comes of it.
pub open spec fn stepped(
    before: HuskCoreView,
    after: HuskCoreView,
    c: Creation,
    c_after: Creation,
    event: CreateEvent,
    now: Seq<char>,
    step: CreateStepView,
) -> bool {
    match event {
        CreateEvent::Booted(info) => {
            let record = c.record(info@, now);
            &&& c_after.stage == CreateStage::Over
            &&& if before.state.has_id(record.id) || before.state.has_name(record.name) {
                &&& step == (CreateStepView::Failed {
                    error: CoreErrorView::VmAlreadyExists(record.name),
                    undo: undo_plan(c_after.resources@),
                })
                &&& after == before
            } else {
                &&& step == CreateStepView::Created(record)
                &&& after == before.with_records(
                    before.state.with_vms(before.state.vms.push(record)),
                )
            }
        },
        _ => {
            let (stage, next) = step_after(c, event, before.data_dir, before.host_interface);
            &&& c_after.stage == stage
            &&& step == next
            &&& after == before
        },
    }
}

impl HuskCore {
    fn vm_config(&self, c: &Creation) -> (config: VmConfig)
        ensures
            config@ == c.config(self@.data_dir),
    {
        let dir = self.storage.vm_dir(c.request.name.as_str());
        let kernel_args = match c.ips {
            Some((host, guest)) => {
                let mut s = "console=ttyS0 reboot=k panic=1 pci=off ip=".to_owned();
                s.append(format_ip(guest).as_str());
                s.append("::");
                s.append(format_ip(host).as_str());
                s.append(":255.255.255.252::eth0:off");
                s
            },
            None => "console=hvc0 root=/dev/vda rw init=/sbin/init".to_owned(),
        };
        VmConfig {
            name: c.request.name.clone(),
            vcpu_count: match c.request.vcpu_count {
                Some(n) => n,
                None => 1,
            },
            mem_size_mib: match c.request.mem_size_mib {
                Some(n) => n,
                None => 128,
            },
            kernel_path: c.request.kernel_path.clone(),
            rootfs_path: join_path(dir.as_str(), "rootfs.ext4"),
            kernel_args: Some(kernel_args),
            initrd_path: copy_opt(&c.initrd_path),
            vsock_cid: c.cid,
            tap_device: match c.ips {
                Some(_) => Some(tap_name_of(c.cid)),
                None => None,
            },
            guest_mac: match c.ips {
                Some(_) => Some(generate_mac(c.cid)),
                None => None,
            },
        }
    }

    /// Takes now what became of the last step of a creation, and says what to do next.
    pub fn create_step(&mut self, c: &mut Creation, event: CreateEvent) -> (step: CreateStep)
        requires
            old(self).wf(),
            old(c).wf(),
            old(c).expects(event),
        ensures
            final(self).wf(),
            final(c).wf(),
            final(c).same_vm(old(c)),
            final(c).resources@ == resources_after(*old(c), event, old(self)@.data_dir),
            old(c).noted(old(self)@.data_dir) ==> final(c).noted(old(self)@.data_dir),
            exists|now: Seq<char>| #[trigger]
                ident::is_utc(now) && stepped(
                    old(self)@,
                    final(self)@,
                    *old(c),
                    *final(c),
                    event,
                    now,
                    step@,
                ),
    {
        let now = current_time();
        self.create_step_at(c, event, now.as_str())
    }

    /// Takes what became of the last step of a creation and says what to do next. Once the
    /// monitor runs the VM, its record is added; a name that was taken meanwhile makes the
    /// creation fail.
    pub fn create_step_at(&mut self, c: &mut Creation, event: CreateEvent, now: &str) -> (step:
        CreateStep)
        requires
            old(self).wf(),
            old(c).wf(),
            old(c).expects(event),
        ensures
            final(self).wf(),
            final(c).wf(),
            final(c).same_vm(old(c)),
            final(c).resources@ == resources_after(*old(c), event, old(self)@.data_dir),
            old(c).noted(old(self)@.data_dir) ==> final(c).noted(old(self)@.data_dir),
            stepped(
                old(self)@,
                final(self)@,
                *old(c),
                *final(c),
                event,
                now@,
                step@,
            ),
    {
        match event {
            CreateEvent::Failed(error) => {
                let stage = c.stage;
                match stage {
                    CreateStage::MakingTap => {
                        c.resources.tap_name = Some(tap_name_of(c.cid));
                    },
                    CreateStage::CopyingDisk => {
                        c.resources.vm_dir = Some(self.storage.vm_dir(c.request.name.as_str()));
                    },
                    _ => {},
                }
                c.stage = CreateStage::Over;
                CreateStep::Failed { error, undo: undo_actions(&c.resources) }
            },
            CreateEvent::Booted(info) => {
                let ghost before = *c;
                c.resources.vm_id = Some(info.id);
                c.stage = CreateStage::Over;
                let (tap_device, host_ip, guest_ip) = match c.ips {
                    Some((host, guest)) => (
                        Some(tap_name_of(c.cid)),
                        Some(format_ip(host)),
                        Some(format_ip(guest)),
                    ),
                    None => (None, None, None),
                };
                let record = VmRecord {
                    id: info.id,
                    name: c.request.name.clone(),
                    state: info.state.name().to_owned(),
                    pid: info.pid,
                    vcpu_count: info.vcpu_count,
                    mem_size_mib: info.mem_size_mib,
                    vsock_cid: c.cid,
                    tap_device,
                    host_ip,
                    guest_ip,
                    kernel_path: c.request.kernel_path.clone(),
                    rootfs_path: c.request.rootfs_path.clone(),
                    created_at: now.to_owned(),
                    updated_at: now.to_owned(),
                    userdata: copy_opt(&c.request.userdata),
                    userdata_status: match &c.request.userdata {
                        Some(_) => Some("pending".to_owned()),
                        None => None,
                    },
                    userdata_env: copy_opt(&c.userdata_env),
                };
                proof {
                    assert(record@ == before.record(info@, now@));
                }
                let shown = record.copy();
                match self.state.insert_vm(record) {
                    Ok(_) => {
                        proof {
                            assert(self@ == old(self)@.with_records(self@.state));
                        }
                        CreateStep::Created(shown)
                    },
                    Err(e) => {
                        let error = match e {
                            StateError::VmAlreadyExists(name) => CoreError::VmAlreadyExists(name),
                            other => CoreError::State(other),
                        };
                        CreateStep::Failed { error, undo: undo_actions(&c.resources) }
                    },
                }
            },
            CreateEvent::Done => {
                let stage = c.stage;
                match stage {
                    CreateStage::MakingTap => {
                        let tap = tap_name_of(c.cid);
                        let host: u32 = match c.ips {
                            Some((host, _)) => host,
                            None => 1,
                        };
                        let plan = match &self.network {
                            Some(n) => crate::net::add_vm_nat(
                                tap.as_str(),
                                host,
                                n.host_interface.as_str(),
                            ),
                            None => crate::net::add_vm_nat(tap.as_str(), host, ""),
                        };
                        proof {
                            reveal_strlit("");
                            if self.network is None {
                                assert(""@ =~= self@.host_interface);
                            }
                        }
                        c.resources.tap_name = Some(tap);
                        c.stage = CreateStage::AddingNat;
                        CreateStep::Run(plan)
                    },
                    CreateStage::AddingNat => {
                        c.stage = CreateStage::CopyingDisk;
                        self.copy_disk(c)
                    },
                    _ => {
                        let dir = self.storage.vm_dir(c.request.name.as_str());
                        c.resources.vm_dir = Some(dir);
                        c.stage = CreateStage::Booting;
                        CreateStep::Boot(self.vm_config(c))
                    },
                }
            },
        }
    }

    /// Takes back a creation of which the records could not be written down: the record of the VM
    /// goes, where there is one already, and what the steps have made is to be undone.
    pub fn creation_not_kept(&mut self, c: &mut Creation, error: StateError) -> (step: CreateStep)
        requires
            old(self).wf(),
            old(c).wf(),
        ensures
            final(self).wf(),
            final(c).wf(),
            final(c).same_vm(old(c)),
            final(c).stage == CreateStage::Over,
            final(c).resources == old(c).resources,
            step@ == (CreateStepView::Failed {
                error: CoreErrorView::State(error@),
                undo: undo_plan(old(c).resources@),
            }),
            record_taken_back(old(self)@, final(self)@, old(c).resources.vm_id),
    {
        c.stage = CreateStage::Over;
        if let Some(id) = c.resources.vm_id {
            let _ = self.state.delete_vm(id);
            proof {
                if old(self)@.state.has_id(id) {
                    assert(self@ == old(self)@.with_records(self@.state));
                }
            }
        }
        CreateStep::Failed { error: CoreError::State(error), undo: undo_actions(&c.resources) }
    }

    /// Gives back the context id and the address of a creation that failed, after the steps back
    /// were taken.
    pub fn rollback_create(&mut self, r: &AllocatedResources)
        requires
            old(self).wf(),
        ensures
            final(self).wf(),
            given_back(old(self)@, final(self)@, r@),
            final(self)@.data_dir == old(self)@.data_dir,
            final(self)@.unread == old(self)@.unread,
            final(self)@.host_interface == old(self)@.host_interface,
            final(self)@.runtime_dir == old(self)@.runtime_dir,
    {
        if let Some(cid) = r.cid {
            self.state.release_cid(cid);
        }
        if let Some(ip) = r.host_ip {
            self.give_back_ip(ip);
        }
    }
}

/// A context id that is handed out and comes back is the next one again, as it was before. As long
/// as only ids that were handed out came back, the same ones are in use.
proof fn lemma_cid_comes_back(s: StateStoreView, cid: u32)
    requires
        s.is_next_cid(cid),
    ensures
        forall|c: u32|
            s.after_cid(cid).with_freed_cid(cid).is_next_cid(c) == s.is_next_cid(c),
        s.cids_sound() ==> forall|c: u32|
            s.after_cid(cid).with_freed_cid(cid).cid_in_use(c) == s.cid_in_use(c),
{
    let t = s.after_cid(cid).with_freed_cid(cid);
    assert(t.freed_cids.contains(cid));
    if exists|c: u32| s.freed_cids.contains(c) {
        assert(s.freed_cids.contains(cid));
        assert(t.freed_cids =~= s.freed_cids);
    } else {
        assert forall|c: u32| #[trigger] t.freed_cids.contains(c) implies c == cid by {}
    }
}

/// Whether a creation that takes `event` can have left `thing` on the host: each step that was begun
/// may have made what it was to make, also where it failed.
pub open spec fn can_be_left(
    c: Creation,
    event: CreateEvent,
    data_dir: Seq<char>,
    thing: UndoView,
) -> bool {
    match thing {
        UndoView::DestroyVm(id) => event matches CreateEvent::Booted(info) && id == info.id,
        UndoView::RemoveDir(dir) => {
            &&& c.stage == CreateStage::CopyingDisk || c.stage == CreateStage::Booting
            &&& dir == storage::vm_dir_of(data_dir, c.request.name@)
        },
        UndoView::RemoveNetwork(tap) => c.ips is Some && tap == tap_name_for(c.cid),
    }
}

/// How a creation has failed: before its first step, or with the given event.
pub enum CreationFailure {
    Early { files: BootFiles },
    AtStep { last: Creation, event: CreateEvent, now: Seq<char> },
}

/// The creation `c`, which began on `before` and left the orchestrator at `during`, has failed with
/// `error`, and is to be undone by `undo`.
pub open spec fn creation_failed(
    before: HuskCoreView,
    during: HuskCoreView,
    c: Creation,
    failure: CreationFailure,
    error: CoreErrorView,
    undo: Seq<UndoView>,
) -> bool {
    match failure {
        CreationFailure::Early { files } => creation_fault(before, during, c, files, error) && undo
            == Seq::<UndoView>::empty(),
        CreationFailure::AtStep { last, event, now } => {
            &&& allocated(before, during, last)
            &&& last.wf()
            &&& last.noted(during.data_dir)
            &&& last.stage != CreateStage::Over
            &&& last.expects(event)
            &&& c.same_vm(&last)
            &&& c.resources@ == resources_after(last, event, during.data_dir)
            &&& stepped(
                during,
                during,
                last,
                c,
                event,
                now,
                CreateStepView::Failed { error, undo },
            )
        },
    }
}

proof fn lemma_undo_covers(
    last: Creation,
    event: CreateEvent,
    data_dir: Seq<char>,
    r: ResourcesView,
    thing: UndoView,
)
    requires
        last.noted(data_dir),
        last.wf(),
        last.stage != CreateStage::Over,
        last.expects(event),
        !(event is Done),
        r == resources_after(last, event, data_dir),
        can_be_left(last, event, data_dir, thing),
    ensures
        undo_plan(r).contains(thing),
{
    let undo = undo_plan(r);
    let vm: Seq<UndoView> = match r.vm_id {
        Some(id) => seq![UndoView::DestroyVm(id)],
        None => seq![],
    };
    let dir: Seq<UndoView> = match r.vm_dir {
        Some(dir) => seq![UndoView::RemoveDir(dir)],
        None => seq![],
    };
    match thing {
        UndoView::DestroyVm(_) => {
            assert(undo[0] == thing);
        },
        UndoView::RemoveDir(_) => {
            assert(undo[vm.len() as int] == thing);
        },
        UndoView::RemoveNetwork(_) => {
            assert(undo[(vm + dir).len() as int] == thing);
        },
    }
}

/// A creation that fails leaves nothing behind: what its steps can have made on the host is undone,
/// also what the step that failed can have made; and once what it allocated is given back, the same
/// context ids and the same subnets come next as before it began, and the records are the same. The
/// same subnets are in use, and, as long as only context ids that were handed out came back, the
/// same context ids.
pub proof fn failed_creation_leaves_nothing(
    before: HuskCoreView,
    during: HuskCoreView,
    after: HuskCoreView,
    c: Creation,
    failure: CreationFailure,
    error: CoreErrorView,
    undo: Seq<UndoView>,
)
    requires
        before.state.wf(),
        before.ips matches Some(ips) ==> ips.wf() && ips.fits(),
        creation_failed(before, during, c, failure, error, undo),
        given_back(during, after, c.resources@),
    ensures
        failure matches CreationFailure::AtStep { last, event, now } ==> forall|thing: UndoView|
            can_be_left(last, event, during.data_dir, thing) ==> #[trigger] undo.contains(thing),
        after.state.vms == before.state.vms,
        after.state.forwards == before.state.forwards,
        forall|cid: u32| after.state.is_next_cid(cid) == before.state.is_next_cid(cid),
        before.state.cids_sound() ==> forall|cid: u32|
            after.state.cid_in_use(cid) == before.state.cid_in_use(cid),
        match before.ips {
            Some(ips) => after.ips matches Some(left) && forall|i: u32|
                left.in_use(i) == ips.in_use(i) && left.is_next(i) == ips.is_next(i),
            None => after.ips is None,
        },
{
    if let CreationFailure::AtStep { last, event, now } = failure {
        let r = c.resources@;
        assert(undo == undo_plan(r));
        assert forall|thing: UndoView|
            can_be_left(last, event, during.data_dir, thing) implies #[trigger] undo.contains(
            thing,
        ) by {
            lemma_undo_covers(last, event, during.data_dir, r, thing);
        }
    }
    lemma_given_back_frees(before, during, after, c, failure, error, undo);
}

proof fn lemma_given_back_frees(
    before: HuskCoreView,
    during: HuskCoreView,
    after: HuskCoreView,
    c: Creation,
    failure: CreationFailure,
    error: CoreErrorView,
    undo: Seq<UndoView>,
)
    requires
        before.state.wf(),
        before.ips matches Some(ips) ==> ips.wf() && ips.fits(),
        creation_failed(before, during, c, failure, error, undo),
        given_back(during, after, c.resources@),
    ensures
        after.state.vms == before.state.vms,
        after.state.forwards == before.state.forwards,
        forall|cid: u32| after.state.is_next_cid(cid) == before.state.is_next_cid(cid),
        before.state.cids_sound() ==> forall|cid: u32|
            after.state.cid_in_use(cid) == before.state.cid_in_use(cid),
        match before.ips {
            Some(ips) => after.ips matches Some(left) && forall|i: u32|
                left.in_use(i) == ips.in_use(i) && left.is_next(i) == ips.is_next(i),
            None => after.ips is None,
        },
{
    if c.resources.cid is Some {
        lemma_cid_comes_back(before.state, c.cid);
    }
    if before.ips is Some && c.resources.host_ip is Some {
        let ips = before.ips->0;
        let i = choose|i: u32| #[trigger]
            ips.is_next(i) && during.ips == Some(ips.after_allocate(i)) && c.resources.host_ip
                == Some(ips.host_ip(i as int) as u32);
        net::release_undoes_allocate(ips, i);
        let mid = ips.after_allocate(i);
        let ip = ips.host_ip(i as int) as u32;
        assert(mid.releases(ip, i));
        let left = after.ips->0;
        assert(ip_given_back(mid, left, ip));
        let k = choose|k: u32| #[trigger] mid.releases(ip, k) && left == mid.after_release(k);
        assert(k == i);
    }
}

/// Where no port forward belongs to a VM, its removal leaves them all.
proof fn lemma_no_forward_goes(v: Seq<crate::state::PortForwardView>, id: u128)
    requires
        forall|k: int| 0 <= k < v.len() ==> (#[trigger] v[k]).vm_id != id,
    ensures
        state::forwards_except(v, id) == v,
    decreases v.len(),
{
    if v.len() > 0 {
        lemma_no_forward_goes(v.drop_last(), id);
        assert(v.drop_last().push(v.last()) =~= v);
    }
}

/// Taking back a creation whose record could not be written down leaves the records as they were
/// before the VM was started, and undoes all that was made, the VM itself first.
pub proof fn unkept_creation_is_taken_back(
    during: HuskCoreView,
    created: HuskCoreView,
    after: HuskCoreView,
    last: Creation,
    c: Creation,
    info: VmInfo,
    now: Seq<char>,
    thing: UndoView,
)
    requires
        during.state.wf(),
        last.wf(),
        last.stage == CreateStage::Booting,
        last.noted(during.data_dir),
        c.same_vm(&last),
        c.resources@ == resources_after(last, CreateEvent::Booted(info), during.data_dir),
        stepped(
            during,
            created,
            last,
            c,
            CreateEvent::Booted(info),
            now,
            CreateStepView::Created(last.record(info@, now)),
        ),
        record_taken_back(created, after, c.resources.vm_id),
        can_be_left(last, CreateEvent::Booted(info), during.data_dir, thing),
    ensures
        after == during,
        undo_plan(c.resources@)[0] == UndoView::DestroyVm(info.id),
        undo_plan(c.resources@).contains(thing),
{
    let record = last.record(info@, now);
    let n = during.state.vms.len() as int;
    assert(created.state.vms[n].id == info.id);
    let i = choose|i: int|
        0 <= i < created.state.vms.len() && (#[trigger] created.state.vms[i]).id == info.id
            && after == created.with_records(created.state.without_vm(i));
    assert(i == n) by {
        if i < n {
            assert(during.state.vms[i] == created.state.vms[i]);
        }
    }
    assert(created.state.vms.remove(n) =~= during.state.vms);
    assert forall|k: int| 0 <= k < during.state.forwards.len() implies (
    #[trigger] during.state.forwards[k]).vm_id != info.id by {
        assert(during.state.has_id(during.state.forwards[k].vm_id));
    }
    lemma_no_forward_goes(during.state.forwards, info.id);
    lemma_undo_covers(last, CreateEvent::Booted(info), during.data_dir, c.resources@, thing);
}

/// Destroying a VM undoes its creation: once both are done, the records are those from before, the
/// same context ids and subnets come next, the same subnets are in use, and, as long as only context
/// ids that were handed out came back, the same context ids. What becomes of its rules is said in
/// [`net::removed_network_leaves_no_rule`].
pub proof fn destroy_undoes_create(
    before: HuskCoreView,
    during: HuskCoreView,
    created: HuskCoreView,
    after: HuskCoreView,
    c: Creation,
    info: VmInfoView,
    now: Seq<char>,
)
    requires
        before.state.wf(),
        before.ips matches Some(ips) ==> ips.wf() && ips.fits(),
        c.allocations_agree(),
        allocated(before, during, c),
        !during.state.has_id(info.id),
        !during.state.has_name(c.request.name@),
        created == during.with_records(
            during.state.with_vms(during.state.vms.push(c.record(info, now))),
        ),
        vm_forgotten(created, after, info.id),
    ensures
        after.state.vms == before.state.vms,
        after.state.forwards == before.state.forwards,
        forall|cid: u32| after.state.is_next_cid(cid) == before.state.is_next_cid(cid),
        before.state.cids_sound() ==> forall|cid: u32|
            after.state.cid_in_use(cid) == before.state.cid_in_use(cid),
        match before.ips {
            Some(ips) => after.ips matches Some(left) && forall|k: u32|
                left.in_use(k) == ips.in_use(k) && left.is_next(k) == ips.is_next(k),
            None => after.ips is None,
        },
{
    let n = during.state.vms.len() as int;
    let record = c.record(info, now);
    let i = choose|i: int|
        0 <= i < created.state.vms.len() && (#[trigger] created.state.vms[i]).id == info.id
            && after.state == created.state.without_vm(i).with_freed_cid(
            created.state.vms[i].vsock_cid,
        ) && host_ip_given_back(created.ips, after.ips, created.state.vms[i].host_ip);
    assert(i == n) by {
        if i < n {
            assert(during.state.vms[i] == created.state.vms[i]);
        }
    }
    assert(created.state.vms[i] == record);
    assert(created.state.vms.remove(n) =~= during.state.vms);
    assert forall|k: int| 0 <= k < before.state.forwards.len() implies (
    #[trigger] before.state.forwards[k]).vm_id != info.id by {
        assert(before.state.has_id(before.state.forwards[k].vm_id));
        let m = choose|m: int|
            0 <= m < before.state.vms.len() && (#[trigger] before.state.vms[m]).id
                == before.state.forwards[k].vm_id;
        assert(during.state.vms[m].id != info.id);
    }
    lemma_no_forward_goes(before.state.forwards, info.id);
    lemma_cid_comes_back(before.state, c.cid);
    assert(after.state.freed_cids == before.state.after_cid(c.cid).with_freed_cid(c.cid).freed_cids);
    if let Some(ips) = before.ips {
        let k = choose|k: u32| #[trigger]
            ips.is_next(k) && during.ips == Some(ips.after_allocate(k)) && c.ips == Some(
                (ips.host_ip(k as int) as u32, ips.guest_ip(k as int) as u32),
            );
        net::release_undoes_allocate(ips, k);
        let mid = ips.after_allocate(k);
        let host = (c.ips->0).0;
        crate::ip::parse_inverts_format(host);
        assert(mid.releases(host, k));
        let left = after.ips->0;
        assert(ip_given_back(mid, left, host));
        let m = choose|m: u32| #[trigger] mid.releases(host, m) && left == mid.after_release(m);
        assert(m == k);
    }
}

/// Pausing a running VM and resuming it leaves it running, as does resuming a paused VM and
/// pausing it leave it paused; and an operation whose target is reached does nothing.
pub proof fn pause_and_resume_undo_each_other(record: VmRecordView, t: Seq<char>, u: Seq<char>)
    ensures
        record.state == "running"@ ==> {
            let paused = record.with_state(op_target(VmOp::Pause), t);
            &&& decide(VmOp::Pause, record.state) is Ask
            &&& decide(VmOp::Resume, paused.state) is Ask
            &&& paused.with_state(op_target(VmOp::Resume), u).state == record.state
        },
        record.state == "paused"@ ==> {
            let running = record.with_state(op_target(VmOp::Resume), t);
            &&& decide(VmOp::Resume, record.state) is Ask
            &&& decide(VmOp::Pause, running.state) is Ask
            &&& running.with_state(op_target(VmOp::Pause), u).state == record.state
        },
        forall|op: VmOp|
            #![auto]
            decide(op, record.with_state(op_target(op), t).state) is Nothing,
{
    reveal_strlit("running");
    reveal_strlit("paused");
    assert("running"@[0] != "paused"@[0]);
}

/// A stopped VM can be neither paused nor resumed.
pub proof fn stopped_vm_stays_stopped()
    ensures
        decide(VmOp::Pause, "stopped"@) == OpDecision::Refuse("running"@),
        decide(VmOp::Resume, "stopped"@) == OpDecision::Refuse("paused"@),
        decide(VmOp::Stop, "stopped"@) is Nothing,
{
    reveal_strlit("running");
    reveal_strlit("paused");
    reveal_strlit("stopped");
    assert("stopped"@[0] != "paused"@[0] && "stopped"@[0] != "running"@[0]);
}

/// An error names what it is about: the message ends with the name, or with what was said of the
/// cause; a refused change names the VM, the state that it is in, and the state that was expected.
pub proof fn errors_name_their_subject(e: CoreErrorView)
    ensures
        match e {
            CoreErrorView::VmNotFound(s) => text::ends_with(e.text(), s),
            CoreErrorView::HostGroupNotFound(s) => text::ends_with(e.text(), s),
            CoreErrorView::ServiceNotFound(s) => text::ends_with(e.text(), s),
            CoreErrorView::SnapshotNotFound(s) => text::ends_with(e.text(), s),
            CoreErrorView::ImageNotFound(s) => text::ends_with(e.text(), s),
            CoreErrorView::InvalidArgument(s) => text::ends_with(e.text(), s),
            CoreErrorView::VmAlreadyExists(s) => text::ends_with(e.text(), s),
            CoreErrorView::HostGroupAlreadyExists(s) => text::ends_with(e.text(), s),
            CoreErrorView::ServiceAlreadyExists(s) => text::ends_with(e.text(), s),
            CoreErrorView::SnapshotAlreadyExists(s) => text::ends_with(e.text(), s),
            CoreErrorView::ImageAlreadyExists(s) => text::ends_with(e.text(), s),
            CoreErrorView::PortAlreadyForwarded(port) => text::occurs_in(
                text::decimal(port as nat),
                e.text(),
            ),
            CoreErrorView::InvalidState { name, actual, expected } => {
                &&& text::occurs_in("'"@ + name + "' is "@ + actual, e.text())
                &&& text::ends_with(e.text(), "expected "@ + expected)
            },
            CoreErrorView::Vmm(cause) => text::ends_with(e.text(), cause.text()),
            CoreErrorView::Network(cause) => text::ends_with(e.text(), cause.text()),
            CoreErrorView::Storage(cause) => text::ends_with(e.text(), cause.text()),
            CoreErrorView::State(cause) => text::ends_with(e.text(), cause.text()),
            CoreErrorView::Agent(cause) => text::ends_with(e.text(), cause.text()),
        },
{
    let t = e.text();
    match e {
        CoreErrorView::VmNotFound(s) => text::lemma_ends_with("VM not found: "@, s),
        CoreErrorView::HostGroupNotFound(s) => text::lemma_ends_with("host group not found: "@, s),
        CoreErrorView::ServiceNotFound(s) => text::lemma_ends_with("service not found: "@, s),
        CoreErrorView::SnapshotNotFound(s) => text::lemma_ends_with("snapshot not found: "@, s),
        CoreErrorView::ImageNotFound(s) => text::lemma_ends_with("image not found: "@, s),
        CoreErrorView::InvalidArgument(s) => text::lemma_ends_with("invalid argument: "@, s),
        CoreErrorView::VmAlreadyExists(s) => text::lemma_ends_with("VM already exists: "@, s),
        CoreErrorView::HostGroupAlreadyExists(s) => text::lemma_ends_with(
            "host group already exists: "@,
            s,
        ),
        CoreErrorView::ServiceAlreadyExists(s) => text::lemma_ends_with("service already exists: "@, s),
        CoreErrorView::SnapshotAlreadyExists(s) => text::lemma_ends_with("snapshot already exists: "@, s),
        CoreErrorView::ImageAlreadyExists(s) => text::lemma_ends_with("image already exists: "@, s),
        CoreErrorView::PortAlreadyForwarded(port) => text::lemma_occurs(
            text::decimal(port as nat),
            t,
            "host port "@.len() as int,
        ),
        CoreErrorView::InvalidState { name, actual, expected } => {
            reveal_strlit("VM '");
            reveal_strlit("'");
            reveal_strlit("' is ");
            reveal_strlit(", expected ");
            reveal_strlit("expected ");
            text::lemma_occurs("'"@ + name + "' is "@ + actual, t, 3);
            assert(t =~= ("VM '"@ + name + "' is "@ + actual).push(',').push(' ') + ("expected "@
                + expected));
            text::lemma_ends_with(
                ("VM '"@ + name + "' is "@ + actual).push(',').push(' '),
                "expected "@ + expected,
            );
        },
        CoreErrorView::Vmm(cause) => text::lemma_ends_with("VMM error: "@, cause.text()),
        CoreErrorView::Network(cause) => text::lemma_ends_with("network error: "@, cause.text()),
        CoreErrorView::Storage(cause) => text::lemma_ends_with("storage error: "@, cause.text()),
        CoreErrorView::State(cause) => text::lemma_ends_with("state error: "@, cause.text()),
        CoreErrorView::Agent(cause) => text::lemma_ends_with("agent error: "@, cause.text()),
    }
}

/// A VM that runs can be stopped and paused, and one that is paused can be stopped and resumed; an
/// operation whose target is reached does nothing. A refusal names the state in which the
/// operation would have been possible.
pub proof fn operations_follow_the_state(op: VmOp, state: Seq<char>)
    ensures
        decide(VmOp::Stop, "running"@) is Ask && decide(VmOp::Stop, "paused"@) is Ask,
        decide(VmOp::Pause, "running"@) is Ask && decide(VmOp::Resume, "paused"@) is Ask,
        decide(op, op_target(op)) is Nothing,
        state != op_target(op) ==> !(decide(op, state) is Nothing),
        decide(op, state) matches OpDecision::Refuse(expected) ==> decide(op, expected) is Ask
            && state != expected,
{
    reveal_strlit("stopped");
    reveal_strlit("paused");
    reveal_strlit("running");
    assert("stopped"@.len() == 7 && "paused"@.len() == 6 && "running"@.len() == 7);
    assert("stopped"@[0] == 's' && "running"@[0] == 'r');
}

/// What was made is taken back in the reverse order: the VM before its directory, which holds its
/// disk, and its directory before its device.
pub proof fn steps_are_taken_back_in_reverse(r: ResourcesView, i: int, j: int)
    requires
        0 <= i < undo_plan(r).len(),
        0 <= j < undo_plan(r).len(),
    ensures
        undo_plan(r)[i] is DestroyVm && !(undo_plan(r)[j] is DestroyVm) ==> i < j,
        undo_plan(r)[i] is RemoveDir && undo_plan(r)[j] is RemoveNetwork ==> i < j,
        undo_plan(r)[i] matches UndoView::DestroyVm(id) ==> r.vm_id == Some(id),
        undo_plan(r)[i] matches UndoView::RemoveDir(dir) ==> r.vm_dir == Some(dir),
        undo_plan(r)[i] matches UndoView::RemoveNetwork(tap) ==> r.tap_name == Some(tap),
{
}

/// A creation takes its steps in order. With a network of the host, the device is made first, then
/// traffic is let through, then the disk is copied, and then the VM is booted; without one, the
/// disk is copied first. A step that fails ends the creation.
pub proof fn creation_takes_its_steps(
    c: Creation,
    event: CreateEvent,
    data_dir: Seq<char>,
    host_interface: Seq<char>,
)
    ensures
        c.ips is Some ==> first_step(c, data_dir) is Run,
        c.ips is None ==> first_step(c, data_dir) is Copy,
        ({
            let (stage, step) = step_after(c, event, data_dir, host_interface);
            &&& event is Failed ==> stage == CreateStage::Over && step is Failed
            &&& event is Done && c.stage == CreateStage::MakingTap ==> stage
                == CreateStage::AddingNat && step is Run
            &&& event is Done && c.stage == CreateStage::AddingNat ==> stage
                == CreateStage::CopyingDisk && step is Copy
            &&& event is Done && c.stage == CreateStage::CopyingDisk ==> stage
                == CreateStage::Booting && step is Boot
        }),
{
}

/// The initial RAM disk that is asked for is used. One that is not asked for is used only where the
/// monitor brings the network and the file is there, and lies below the data directory.
pub proof fn ram_disk_is_the_one_asked_for(
    asked: Option<Seq<char>>,
    own_network: bool,
    there: bool,
    data_dir: Seq<char>,
)
    ensures
        asked is Some ==> initrd_for(asked, own_network, there, data_dir) == asked,
        asked is None ==> (initrd_for(asked, own_network, there, data_dir) is Some <==> own_network
            && there),
        asked is None && own_network && there ==> text::starts_with(
            initrd_for(asked, own_network, there, data_dir)->0,
            data_dir,
        ),
{
    reveal_strlit("kernels/initramfs-virt.gz");
    path::names_stay_apart(
        data_dir,
        "kernels/initramfs-virt.gz"@,
        "kernels/initramfs-virt.gz"@,
    );
}

} // verus!
