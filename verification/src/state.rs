//! The daemon's records: VMs, port forwards, vsock context ids, host groups, services and
//! snapshots.
//!
//! [`StateStore`] holds the rows of the tables and the rules that the tables obey. Where the rows
//! are kept on disk, they are loaded into a store, changed by its methods, and written back.
use crate::ident;
use crate::ident::{current_time, format_uuid, parse_time, parse_uuid};
use crate::sorted::{put, take_lowest};
use crate::text;
use crate::text::{comes_before_or_same, copy_opt, decimal_of, same_text};
use std::collections::BTreeSet;
use vstd::prelude::*;
use vstd::string::*;

verus! {

/// What can go wrong with the records.
#[derive(Debug)]
pub enum StateError {
    /// The database failed; in its own words.
    Database(String),
    VmNotFound(u128),
    VmNotFoundByName(String),
    VmAlreadyExists(String),
    PortAlreadyForwarded(u16),
    LockPoisoned,
    /// Input or output failed; in the words of the operating system.
    Io(String),
    CorruptData { column: String, message: String },
}

/// A state error, with its texts as characters.
pub enum StateErrorView {
    Database(Seq<char>),
    VmNotFound(u128),
    VmNotFoundByName(Seq<char>),
    VmAlreadyExists(Seq<char>),
    PortAlreadyForwarded(u16),
    LockPoisoned,
    Io(Seq<char>),
    CorruptData { column: Seq<char>, message: Seq<char> },
}

impl View for StateError {
    type V = StateErrorView;

    open spec fn view(&self) -> StateErrorView {
        match self {
            StateError::Database(m) => StateErrorView::Database(m@),
            StateError::VmNotFound(id) => StateErrorView::VmNotFound(*id),
            StateError::VmNotFoundByName(name) => StateErrorView::VmNotFoundByName(name@),
            StateError::VmAlreadyExists(name) => StateErrorView::VmAlreadyExists(name@),
            StateError::PortAlreadyForwarded(port) => StateErrorView::PortAlreadyForwarded(*port),
            StateError::LockPoisoned => StateErrorView::LockPoisoned,
            StateError::Io(m) => StateErrorView::Io(m@),
            StateError::CorruptData { column, message } => StateErrorView::CorruptData {
                column: column@,
                message: message@,
            },
        }
    }
}

impl StateErrorView {
    /// The error in words.
    pub open spec fn text(self) -> Seq<char> {
        match self {
            StateErrorView::Database(m) => "database error: "@ + m,
            StateErrorView::VmNotFound(id) => "VM not found: "@ + ident::uuid_text(id),
            StateErrorView::VmNotFoundByName(name) => "VM not found by name: "@ + name,
            StateErrorView::VmAlreadyExists(name) => "VM already exists: "@ + name,
            StateErrorView::PortAlreadyForwarded(port) => "port already forwarded: "@ + text::decimal(
                port as nat,
            ),
            StateErrorView::LockPoisoned => "lock poisoned"@,
            StateErrorView::Io(m) => "IO error: "@ + m,
            StateErrorView::CorruptData { column, message } => "corrupt data in column "@ + column
                + ": "@ + message,
        }
    }
}

impl StateError {
    /// The same error.
    pub fn copy(&self) -> (e: StateError)
        ensures
            e@ == self@,
    {
        match self {
            StateError::Database(m) => StateError::Database(m.clone()),
            StateError::VmNotFound(id) => StateError::VmNotFound(*id),
            StateError::VmNotFoundByName(name) => StateError::VmNotFoundByName(name.clone()),
            StateError::VmAlreadyExists(name) => StateError::VmAlreadyExists(name.clone()),
            StateError::PortAlreadyForwarded(port) => StateError::PortAlreadyForwarded(*port),
            StateError::LockPoisoned => StateError::LockPoisoned,
            StateError::Io(m) => StateError::Io(m.clone()),
            StateError::CorruptData { column, message } => StateError::CorruptData {
                column: column.clone(),
                message: message.clone(),
            },
        }
    }

    /// The error in words.
    pub fn message(&self) -> (s: String)
        ensures
            s@ == self@.text(),
    {
        match self {
            StateError::Database(m) => {
                let mut s = "database error: ".to_owned();
                s.append(m.as_str());
                s
            },
            StateError::VmNotFound(id) => {
                let mut s = "VM not found: ".to_owned();
                s.append(format_uuid(*id).as_str());
                s
            },
            StateError::VmNotFoundByName(name) => {
                let mut s = "VM not found by name: ".to_owned();
                s.append(name.as_str());
                s
            },
            StateError::VmAlreadyExists(name) => {
                let mut s = "VM already exists: ".to_owned();
                s.append(name.as_str());
                s
            },
            StateError::PortAlreadyForwarded(port) => {
                let mut s = "port already forwarded: ".to_owned();
                s.append(decimal_of(*port as u64).as_str());
                s
            },
            StateError::LockPoisoned => "lock poisoned".to_owned(),
            StateError::Io(m) => {
                let mut s = "IO error: ".to_owned();
                s.append(m.as_str());
                s
            },
            StateError::CorruptData { column, message } => {
                let mut s = "corrupt data in column ".to_owned();
                s.append(column.as_str());
                s.append(": ");
                s.append(message.as_str());
                s
            },
        }
    }
}

/// The record of a VM. Times are RFC 3339 text in UTC.
#[derive(Debug, Clone)]
pub struct VmRecord {
    pub id: u128,
    pub name: String,
    pub state: String,
    pub pid: Option<u32>,
    pub vcpu_count: u32,
    pub mem_size_mib: u32,
    pub vsock_cid: u32,
    pub tap_device: Option<String>,
    pub host_ip: Option<String>,
    pub guest_ip: Option<String>,
    pub kernel_path: String,
    pub rootfs_path: String,
    pub created_at: String,
    pub updated_at: String,
    /// Script to run in the guest once it is up.
    pub userdata: Option<String>,
    /// How far the script has come.
    pub userdata_status: Option<String>,
    /// Environment for the script.
    pub userdata_env: Option<String>,
}

/// The record of a VM, with its texts as characters.
pub struct VmRecordView {
    pub id: u128,
    pub name: Seq<char>,
    pub state: Seq<char>,
    pub pid: Option<u32>,
    pub vcpu_count: u32,
    pub mem_size_mib: u32,
    pub vsock_cid: u32,
    pub tap_device: Option<Seq<char>>,
    pub host_ip: Option<Seq<char>>,
    pub guest_ip: Option<Seq<char>>,
    pub kernel_path: Seq<char>,
    pub rootfs_path: Seq<char>,
    pub created_at: Seq<char>,
    pub updated_at: Seq<char>,
    pub userdata: Option<Seq<char>>,
    pub userdata_status: Option<Seq<char>>,
    pub userdata_env: Option<Seq<char>>,
}

impl View for VmRecord {
    type V = VmRecordView;

    open spec fn view(&self) -> VmRecordView {
        VmRecordView {
            id: self.id,
            name: self.name@,
            state: self.state@,
            pid: self.pid,
            vcpu_count: self.vcpu_count,
            mem_size_mib: self.mem_size_mib,
            vsock_cid: self.vsock_cid,
            tap_device: text::opt_text(self.tap_device),
            host_ip: text::opt_text(self.host_ip),
            guest_ip: text::opt_text(self.guest_ip),
            kernel_path: self.kernel_path@,
            rootfs_path: self.rootfs_path@,
            created_at: self.created_at@,
            updated_at: self.updated_at@,
            userdata: text::opt_text(self.userdata),
            userdata_status: text::opt_text(self.userdata_status),
            userdata_env: text::opt_text(self.userdata_env),
        }
    }
}

impl VmRecord {
    /// A copy of the record.
    pub fn copy(&self) -> (r: VmRecord)
        ensures
            r@ == self@,
    {
        VmRecord {
            id: self.id,
            name: self.name.clone(),
            state: self.state.clone(),
            pid: self.pid,
            vcpu_count: self.vcpu_count,
            mem_size_mib: self.mem_size_mib,
            vsock_cid: self.vsock_cid,
            tap_device: copy_opt(&self.tap_device),
            host_ip: copy_opt(&self.host_ip),
            guest_ip: copy_opt(&self.guest_ip),
            kernel_path: self.kernel_path.clone(),
            rootfs_path: self.rootfs_path.clone(),
            created_at: self.created_at.clone(),
            updated_at: self.updated_at.clone(),
            userdata: copy_opt(&self.userdata),
            userdata_status: copy_opt(&self.userdata_status),
            userdata_env: copy_opt(&self.userdata_env),
        }
    }
}

/// The record of a port forward.
#[derive(Debug, Clone)]
pub struct PortForwardRecord {
    pub id: i64,
    pub vm_id: u128,
    pub host_port: u16,
    pub guest_port: u16,
    pub protocol: String,
    pub created_at: String,
}

/// The record of a port forward, with its texts as characters.
pub struct PortForwardView {
    pub id: i64,
    pub vm_id: u128,
    pub host_port: u16,
    pub guest_port: u16,
    pub protocol: Seq<char>,
    pub created_at: Seq<char>,
}

impl View for PortForwardRecord {
    type V = PortForwardView;

    open spec fn view(&self) -> PortForwardView {
        PortForwardView {
            id: self.id,
            vm_id: self.vm_id,
            host_port: self.host_port,
            guest_port: self.guest_port,
            protocol: self.protocol@,
            created_at: self.created_at@,
        }
    }
}

impl PortForwardRecord {
    /// A copy of the record.
    pub fn copy(&self) -> (r: PortForwardRecord)
        ensures
            r@ == self@,
    {
        PortForwardRecord {
            id: self.id,
            vm_id: self.vm_id,
            host_port: self.host_port,
            guest_port: self.guest_port,
            protocol: self.protocol.clone(),
            created_at: self.created_at.clone(),
        }
    }
}

/// The VM records, with their texts as characters.
pub open spec fn vm_views(v: Seq<VmRecord>) -> Seq<VmRecordView> {
    v.map_values(|r: VmRecord| r@)
}

/// The port forwards, with their texts as characters.
pub open spec fn forward_views(v: Seq<PortForwardRecord>) -> Seq<PortForwardView> {
    v.map_values(|r: PortForwardRecord| r@)
}

/// The first vsock context id for a VM; lower ones are reserved.
pub const FIRST_CID: i64 = 3;

/// The rows of the tables.
pub struct StateStore {
    pub vms: Vec<VmRecord>,
    pub forwards: Vec<PortForwardRecord>,
    /// The largest id that a port forward was ever given.
    pub last_forward_id: i64,
    /// The first context id that was never handed out.
    pub next_cid: i64,
    /// Context ids that came back.
    pub freed_cids: BTreeSet<u32>,
}

/// The rows of the tables, over sequences.
pub struct StateStoreView {
    pub vms: Seq<VmRecordView>,
    pub forwards: Seq<PortForwardView>,
    pub last_forward_id: i64,
    pub next_cid: i64,
    pub freed_cids: Set<u32>,
}

impl View for StateStore {
    type V = StateStoreView;

    open spec fn view(&self) -> StateStoreView {
        StateStoreView {
            vms: vm_views(self.vms@),
            forwards: forward_views(self.forwards@),
            last_forward_id: self.last_forward_id,
            next_cid: self.next_cid,
            freed_cids: self.freed_cids@,
        }
    }
}

impl StateStoreView {
    /// Ids and names of VMs are unique, as are the host ports of port forwards; every port
    /// forward belongs to a VM that is there.
    pub open spec fn wf(self) -> bool {
        &&& forall|i: int, j: int|
            0 <= i < j < self.vms.len() ==> (#[trigger] self.vms[i]).id != (
            #[trigger] self.vms[j]).id && self.vms[i].name != self.vms[j].name
        &&& forall|i: int, j: int|
            0 <= i < j < self.forwards.len() ==> (#[trigger] self.forwards[i]).host_port != (
            #[trigger] self.forwards[j]).host_port
        &&& forall|i: int|
            0 <= i < self.forwards.len() ==> self.has_id((#[trigger] self.forwards[i]).vm_id)
        &&& 0 <= self.last_forward_id
    }

    /// Whether there is a VM with the given id.
    pub open spec fn has_id(self, id: u128) -> bool {
        exists|i: int| 0 <= i < self.vms.len() && (#[trigger] self.vms[i]).id == id
    }

    /// Whether there is a VM with the given name.
    pub open spec fn has_name(self, name: Seq<char>) -> bool {
        exists|i: int| 0 <= i < self.vms.len() && (#[trigger] self.vms[i]).name == name
    }

    /// Whether the host port is forwarded.
    pub open spec fn has_port(self, port: u16) -> bool {
        exists|i: int|
            0 <= i < self.forwards.len() && (#[trigger] self.forwards[i]).host_port == port
    }

    /// The store with other VMs.
    pub open spec fn with_vms(self, vms: Seq<VmRecordView>) -> StateStoreView {
        StateStoreView { vms, ..self }
    }

    /// The store with other port forwards.
    pub open spec fn with_forwards(self, forwards: Seq<PortForwardView>) -> StateStoreView {
        StateStoreView { forwards, ..self }
    }

    /// The tables as they are first made.
    pub open spec fn fresh() -> StateStoreView {
        StateStoreView {
            vms: seq![],
            forwards: seq![],
            last_forward_id: 0,
            next_cid: FIRST_CID,
            freed_cids: Set::empty(),
        }
    }
}

impl StateStore {
    /// The rows obey the rules of the tables.
    pub open spec fn wf(&self) -> bool {
        self@.wf()
    }

    /// An empty store.
    pub fn open_memory() -> (s: StateStore)
        ensures
            s.wf(),
            s@ == StateStoreView::fresh(),
    {
        let s = StateStore {
            vms: Vec::new(),
            forwards: Vec::new(),
            last_forward_id: 0,
            next_cid: FIRST_CID,
            freed_cids: BTreeSet::new(),
        };
        proof {
            assert(s@.vms =~= seq![]);
            assert(s@.forwards =~= seq![]);
        }
        s
    }

    fn index_of_id(&self, id: u128) -> (r: Option<usize>)
        ensures
            match r {
                Some(i) => i < self.vms@.len() && self@.vms[i as int].id == id,
                None => !self@.has_id(id),
            },
    {
        let mut i: usize = 0;
        while i < self.vms.len()
            invariant
                i <= self.vms@.len(),
                forall|k: int| 0 <= k < i ==> (#[trigger] self@.vms[k]).id != id,
            decreases self.vms.len() - i,
        {
            if self.vms[i].id == id {
                return Some(i);
            }
            i = i + 1;
        }
        None
    }

    fn index_of_name(&self, name: &str) -> (r: Option<usize>)
        ensures
            match r {
                Some(i) => i < self.vms@.len() && self@.vms[i as int].name == name@,
                None => !self@.has_name(name@),
            },
    {
        let mut i: usize = 0;
        while i < self.vms.len()
            invariant
                i <= self.vms@.len(),
                forall|k: int| 0 <= k < i ==> (#[trigger] self@.vms[k]).name != name@,
            decreases self.vms.len() - i,
        {
            if same_text(self.vms[i].name.as_str(), name) {
                return Some(i);
            }
            i = i + 1;
        }
        None
    }

    /// Adds a VM. A VM whose id or name is taken is refused.
    pub fn insert_vm(&mut self, record: VmRecord) -> (r: Result<(), StateError>)
        requires
            old(self).wf(),
        ensures
            final(self).wf(),
            match r {
                Ok(_) => {
                    &&& !old(self)@.has_id(record.id)
                    &&& !old(self)@.has_name(record.name@)
                    &&& final(self)@ == old(self)@.with_vms(old(self)@.vms.push(record@))
                },
                Err(e) => {
                    &&& old(self)@.has_id(record.id) || old(self)@.has_name(record.name@)
                    &&& e@ == StateErrorView::VmAlreadyExists(record.name@)
                    &&& final(self)@ == old(self)@
                },
            },
    {
        if let Some(_) = self.index_of_id(record.id) {
            return Err(StateError::VmAlreadyExists(record.name));
        }
        if let Some(_) = self.index_of_name(record.name.as_str()) {
            return Err(StateError::VmAlreadyExists(record.name));
        }
        let ghost before = self@;
        self.vms.push(record);
        proof {
            assert(self@.vms =~= before.vms.push(record@));
            assert forall|i: int| 0 <= i < self@.forwards.len() implies self@.has_id(
                (#[trigger] self@.forwards[i]).vm_id,
            ) by {
                assert(before.has_id(before.forwards[i].vm_id));
                let k = choose|k: int|
                    0 <= k < before.vms.len() && (#[trigger] before.vms[k]).id
                        == before.forwards[i].vm_id;
                assert(self@.vms[k].id == before.forwards[i].vm_id);
            }
        }
        Ok(())
    }

    /// The VM with the given id.
    pub fn get_vm(&self, id: u128) -> (r: Result<&VmRecord, StateError>)
        ensures
            match r {
                Ok(record) => self@.vms.contains(record@) && record.id == id,
                Err(e) => !self@.has_id(id) && e@ == StateErrorView::VmNotFound(id),
            },
    {
        match self.index_of_id(id) {
            Some(i) => {
                assert(self@.vms[i as int] == self.vms@[i as int]@);
                Ok(&self.vms[i])
            },
            None => Err(StateError::VmNotFound(id)),
        }
    }

    /// The VM with the given name.
    pub fn get_vm_by_name(&self, name: &str) -> (r: Result<&VmRecord, StateError>)
        ensures
            match r {
                Ok(record) => self@.vms.contains(record@) && record.name@ == name@,
                Err(e) => !self@.has_name(name@) && e@ == StateErrorView::VmNotFoundByName(name@),
            },
    {
        match self.index_of_name(name) {
            Some(i) => {
                assert(self@.vms[i as int] == self.vms@[i as int]@);
                Ok(&self.vms[i])
            },
            None => Err(StateError::VmNotFoundByName(name.to_owned())),
        }
    }
}

/// References to VM records, with the records' texts as characters.
pub open spec fn vm_ref_views(v: Seq<&VmRecord>) -> Seq<VmRecordView> {
    v.map_values(|r: &VmRecord| r@)
}

/// References to port forwards, with the records' texts as characters.
pub open spec fn forward_ref_views(v: Seq<&PortForwardRecord>) -> Seq<PortForwardView> {
    v.map_values(|r: &PortForwardRecord| r@)
}

/// The records stand in the order of their creation times, compared as text.
pub open spec fn by_creation(v: Seq<VmRecordView>) -> bool {
    forall|i: int, j: int|
        0 <= i < j < v.len() ==> text::text_le(
            (#[trigger] v[i]).created_at,
            (#[trigger] v[j]).created_at,
        )
}

/// The port forwards stand in ascending order of their host ports.
pub open spec fn by_host_port(v: Seq<PortForwardView>) -> bool {
    forall|i: int, j: int|
        0 <= i < j < v.len() ==> (#[trigger] v[i]).host_port <= (#[trigger] v[j]).host_port
}

/// A record put in where the earlier ones end keeps the order of creation.
proof fn lemma_insert_by_creation(v: Seq<VmRecordView>, at: int, r: VmRecordView)
    requires
        by_creation(v),
        0 <= at <= v.len(),
        at > 0 ==> text::text_le(v[at - 1].created_at, r.created_at),
        at < v.len() ==> !text::text_le(v[at].created_at, r.created_at),
    ensures
        by_creation(v.insert(at, r)),
{
    let w = v.insert(at, r);
    let rb = vstd::utf8::encode_utf8(r.created_at);
    assert forall|i: int, j: int| 0 <= i < j < w.len() implies text::text_le(
        (#[trigger] w[i]).created_at,
        (#[trigger] w[j]).created_at,
    ) by {
        if j == at {
            let prev = vstd::utf8::encode_utf8(v[at - 1].created_at);
            if i < at - 1 {
                assert(text::text_le(v[i].created_at, v[at - 1].created_at));
                crate::text::lemma_bytes_le_transitive(
                    vstd::utf8::encode_utf8(v[i].created_at),
                    prev,
                    rb,
                );
            }
        } else if i == at {
            let here = vstd::utf8::encode_utf8(v[at].created_at);
            crate::text::lemma_bytes_le_total(here, rb);
            if j > at + 1 {
                assert(w[j] == v[j - 1]);
                assert(text::text_le(v[at].created_at, v[j - 1].created_at));
                crate::text::lemma_bytes_le_transitive(
                    rb,
                    here,
                    vstd::utf8::encode_utf8(v[j - 1].created_at),
                );
            }
        } else {
            let a = if i < at {
                i
            } else {
                i - 1
            };
            let b = if j < at {
                j
            } else {
                j - 1
            };
            assert(w[i] == v[a]);
            assert(w[j] == v[b]);
        }
    }
}

impl StateStore {
    /// All VMs, in the order of their creation times.
    pub fn list_vms(&self) -> (list: Vec<&VmRecord>)
        ensures
            by_creation(vm_ref_views(list@)),
            vm_ref_views(list@).to_multiset() == self@.vms.to_multiset(),
    {
        let mut list: Vec<&VmRecord> = Vec::new();
        let mut i: usize = 0;
        proof {
            assert(vm_ref_views(list@) =~= self@.vms.take(0));
        }
        while i < self.vms.len()
            invariant
                i <= self.vms@.len(),
                by_creation(vm_ref_views(list@)),
                vm_ref_views(list@).to_multiset() == self@.vms.take(i as int).to_multiset(),
            decreases self.vms.len() - i,
        {
            let mut at: usize = list.len();
            while at > 0 && !comes_before_or_same(
                list[at - 1].created_at.as_str(),
                self.vms[i].created_at.as_str(),
            )
                invariant
                    at <= list@.len(),
                    i < self.vms@.len(),
                    at < list@.len() ==> !text::text_le(
                        list@[at as int].created_at@,
                        self.vms@[i as int].created_at@,
                    ),
                decreases at,
            {
                at = at - 1;
            }
            let ghost before = vm_ref_views(list@);
            let ghost r = self@.vms[i as int];
            list.insert(at, &self.vms[i]);
            proof {
                assert(vm_ref_views(list@) =~= before.insert(at as int, r));
                lemma_insert_by_creation(before, at as int, r);
                vstd::seq_lib::to_multiset_insert(before, at as int, r);
                vstd::seq_lib::to_multiset_build(self@.vms.take(i as int), r);
                assert(self@.vms.take(i + 1) =~= self@.vms.take(i as int).push(r));
            }
            i = i + 1;
        }
        proof {
            assert(self@.vms.take(i as int) =~= self@.vms);
        }
        list
    }

    /// Changes the state of a VM now.
    pub fn update_vm_state(&mut self, id: u128, state: &str) -> (r: Result<(), StateError>)
        requires
            old(self).wf(),
        ensures
            final(self).wf(),
            match r {
                Ok(_) => exists|i: int, now: Seq<char>|
                    0 <= i < old(self)@.vms.len() && (#[trigger] old(self)@.vms[i]).id == id
                        && #[trigger] ident::is_utc(now) && final(self)@ == old(self)@.with_vms(
                        old(self)@.vms.update(i, old(self)@.vms[i].with_state(state@, now)),
                    ),
                Err(e) => {
                    &&& !old(self)@.has_id(id)
                    &&& e@ == StateErrorView::VmNotFound(id)
                    &&& final(self)@ == old(self)@
                },
            },
    {
        let now = current_time();
        self.update_vm_state_at(id, state, now.as_str())
    }

    /// Changes the state of a VM, and the time of its last change.
    pub fn update_vm_state_at(&mut self, id: u128, state: &str, now: &str) -> (r: Result<
        (),
        StateError,
    >)
        requires
            old(self).wf(),
        ensures
            final(self).wf(),
            match r {
                Ok(_) => exists|i: int|
                    0 <= i < old(self)@.vms.len() && (#[trigger] old(self)@.vms[i]).id == id && final(self)@ == old(self)@.with_vms(
                        old(self)@.vms.update(i, old(self)@.vms[i].with_state(state@, now@)),
                    ),
                Err(e) => {
                    &&& !old(self)@.has_id(id)
                    &&& e@ == StateErrorView::VmNotFound(id)
                    &&& final(self)@ == old(self)@
                },
            },
    {
        match self.index_of_id(id) {
            Some(i) => {
                let ghost before = self@;
                self.vms[i].state = state.to_owned();
                self.vms[i].updated_at = now.to_owned();
                proof {
                    let changed = before.vms[i as int].with_state(state@, now@);
                    assert(self@.vms =~= before.vms.update(i as int, changed));
                    lemma_update_keeps_wf(before, i as int, changed);
                }
                Ok(())
            },
            None => Err(StateError::VmNotFound(id)),
        }
    }

    /// Notes now how far the userdata script of a VM has come.
    pub fn update_userdata_status(&mut self, id: u128, status: &str) -> (r: Result<(), StateError>)
        requires
            old(self).wf(),
        ensures
            final(self).wf(),
            match r {
                Ok(_) => exists|i: int, now: Seq<char>|
                    0 <= i < old(self)@.vms.len() && (#[trigger] old(self)@.vms[i]).id == id
                        && #[trigger] ident::is_utc(now) && final(self)@ == old(self)@.with_vms(
                        old(self)@.vms.update(
                            i,
                            old(self)@.vms[i].with_userdata_status(status@, now),
                        ),
                    ),
                Err(e) => {
                    &&& !old(self)@.has_id(id)
                    &&& e@ == StateErrorView::VmNotFound(id)
                    &&& final(self)@ == old(self)@
                },
            },
    {
        let now = current_time();
        self.update_userdata_status_at(id, status, now.as_str())
    }

    /// Notes how far the userdata script of a VM has come.
    pub fn update_userdata_status_at(&mut self, id: u128, status: &str, now: &str) -> (r: Result<
        (),
        StateError,
    >)
        requires
            old(self).wf(),
        ensures
            final(self).wf(),
            match r {
                Ok(_) => exists|i: int|
                    0 <= i < old(self)@.vms.len() && (#[trigger] old(self)@.vms[i]).id == id && final(self)@ == old(self)@.with_vms(
                        old(self)@.vms.update(
                            i,
                            old(self)@.vms[i].with_userdata_status(status@, now@),
                        ),
                    ),
                Err(e) => {
                    &&& !old(self)@.has_id(id)
                    &&& e@ == StateErrorView::VmNotFound(id)
                    &&& final(self)@ == old(self)@
                },
            },
    {
        match self.index_of_id(id) {
            Some(i) => {
                let ghost before = self@;
                self.vms[i].userdata_status = Some(status.to_owned());
                self.vms[i].updated_at = now.to_owned();
                proof {
                    let changed = before.vms[i as int].with_userdata_status(status@, now@);
                    assert(self@.vms =~= before.vms.update(i as int, changed));
                    lemma_update_keeps_wf(before, i as int, changed);
                }
                Ok(())
            },
            None => Err(StateError::VmNotFound(id)),
        }
    }

    /// Removes a VM, and with it its port forwards.
    pub fn delete_vm(&mut self, id: u128) -> (r: Result<(), StateError>)
        requires
            old(self).wf(),
        ensures
            final(self).wf(),
            match r {
                Ok(_) => exists|i: int|
                    0 <= i < old(self)@.vms.len() && (#[trigger] old(self)@.vms[i]).id == id && final(self)@ == old(self)@.without_vm(i),
                Err(e) => {
                    &&& !old(self)@.has_id(id)
                    &&& e@ == StateErrorView::VmNotFound(id)
                    &&& final(self)@ == old(self)@
                },
            },
    {
        match self.index_of_id(id) {
            Some(i) => {
                let ghost before = self@;
                self.drop_forwards_of(id);
                let _ = self.vms.remove(i);
                proof {
                    assert(self@.vms =~= before.vms.remove(i as int));
                    assert(before.vms[i as int].id == id);
                    lemma_without_vm_keeps_wf(before, i as int);
                }
                Ok(())
            },
            None => Err(StateError::VmNotFound(id)),
        }
    }

    /// Removes all port forwards of a VM.
    fn drop_forwards_of(&mut self, id: u128)
        ensures
            final(self)@ == old(self)@.with_forwards(forwards_except(old(self)@.forwards, id)),
            final(self).freed_cids == old(self).freed_cids,
            final(self).vms == old(self).vms,
    {
        let mut all: Vec<PortForwardRecord> = Vec::new();
        std::mem::swap(&mut all, &mut self.forwards);
        let ghost whole = all@;
        let mut kept: Vec<PortForwardRecord> = Vec::new();
        proof {
            assert(forward_views(kept@) =~= forwards_except(forward_views(whole).take(0), id));
        }
        for f in it: all
            invariant
                it.seq() == whole,
                forward_views(kept@) == forwards_except(
                    forward_views(whole).take(it.index() as int),
                    id,
                ),
        {
            let ghost next = forward_views(whole).take(it.index() as int + 1);
            let ghost before = forward_views(kept@);
            proof {
                assert(next.drop_last() =~= forward_views(whole).take(it.index() as int));
                assert(next.last() == f@);
            }
            if f.vm_id != id {
                kept.push(f);
                proof {
                    assert(forward_views(kept@) =~= before.push(f@));
                }
            }
        }
        proof {
            assert(forward_views(whole).take(whole.len() as int) =~= forward_views(whole));
        }
        self.forwards = kept;
    }
}

impl VmRecordView {
    /// The record with another state, changed at `now`.
    pub open spec fn with_state(self, state: Seq<char>, now: Seq<char>) -> VmRecordView {
        VmRecordView { state, updated_at: now, ..self }
    }

    /// The record with another userdata status, changed at `now`.
    pub open spec fn with_userdata_status(self, status: Seq<char>, now: Seq<char>) -> VmRecordView {
        VmRecordView { userdata_status: Some(status), updated_at: now, ..self }
    }
}

/// The port forwards that do not belong to the VM with the given id, in order.
pub open spec fn forwards_except(v: Seq<PortForwardView>, id: u128) -> Seq<PortForwardView>
    decreases v.len(),
{
    if v.len() == 0 {
        seq![]
    } else if v.last().vm_id != id {
        forwards_except(v.drop_last(), id).push(v.last())
    } else {
        forwards_except(v.drop_last(), id)
    }
}

impl StateStoreView {
    /// The store without the VM at position `i` and without its port forwards.
    pub open spec fn without_vm(self, i: int) -> StateStoreView {
        StateStoreView {
            vms: self.vms.remove(i),
            forwards: forwards_except(self.forwards, self.vms[i].id),
            ..self
        }
    }
}

/// Replacing a record by one with the same id and name keeps the rules of the tables.
pub proof fn lemma_update_keeps_wf(s: StateStoreView, i: int, changed: VmRecordView)
    requires
        s.wf(),
        0 <= i < s.vms.len(),
        changed.id == s.vms[i].id,
        changed.name == s.vms[i].name,
    ensures
        s.with_vms(s.vms.update(i, changed)).wf(),
{
    let t = s.with_vms(s.vms.update(i, changed));
    assert forall|k: int| 0 <= k < t.forwards.len() implies t.has_id(
        (#[trigger] t.forwards[k]).vm_id,
    ) by {
        assert(s.has_id(s.forwards[k].vm_id));
        let m = choose|m: int|
            0 <= m < s.vms.len() && (#[trigger] s.vms[m]).id == s.forwards[k].vm_id;
        assert(t.vms[m].id == s.forwards[k].vm_id);
    }
}

/// Each kept port forward was there before and belongs to another VM.
pub proof fn lemma_forwards_except(v: Seq<PortForwardView>, id: u128)
    ensures
        forall|i: int|
            0 <= i < forwards_except(v, id).len() ==> v.contains(
                #[trigger] forwards_except(v, id)[i],
            ) && forwards_except(v, id)[i].vm_id != id,
        forall|i: int|
            0 <= i < v.len() && (#[trigger] v[i]).vm_id != id ==> forwards_except(v, id).contains(
                v[i],
            ),
    decreases v.len(),
{
    if v.len() > 0 {
        let init = v.drop_last();
        let kept = forwards_except(v, id);
        let before = forwards_except(init, id);
        lemma_forwards_except(init, id);
        assert forall|i: int| 0 <= i < kept.len() implies v.contains(#[trigger] kept[i])
            && kept[i].vm_id != id by {
            if i < before.len() {
                assert(kept[i] == before[i]);
                let k = choose|k: int| 0 <= k < init.len() && init[k] == before[i];
                assert(v[k] == kept[i]);
            } else {
                assert(kept[i] == v[v.len() - 1]);
            }
        }
        assert forall|i: int| 0 <= i < v.len() && (#[trigger] v[i]).vm_id != id implies kept.contains(
            v[i],
        ) by {
            if i < init.len() {
                assert(init[i] == v[i]);
                let k = choose|k: int| 0 <= k < before.len() && before[k] == init[i];
                assert(kept[k] == v[i]);
            } else {
                assert(kept[kept.len() - 1] == v[i]);
            }
        }
    }
}

/// Dropping port forwards keeps the host ports of the other ones unique.
proof fn lemma_forwards_except_unique(v: Seq<PortForwardView>, id: u128)
    requires
        forall|i: int, j: int|
            0 <= i < j < v.len() ==> (#[trigger] v[i]).host_port != (#[trigger] v[j]).host_port,
    ensures
        forall|i: int, j: int|
            0 <= i < j < forwards_except(v, id).len() ==> (#[trigger] forwards_except(
                v,
                id,
            )[i]).host_port != (#[trigger] forwards_except(v, id)[j]).host_port,
    decreases v.len(),
{
    if v.len() > 0 {
        let init = v.drop_last();
        let kept = forwards_except(v, id);
        let before = forwards_except(init, id);
        lemma_forwards_except_unique(init, id);
        lemma_forwards_except(init, id);
        assert forall|i: int, j: int| 0 <= i < j < kept.len() implies (#[trigger] kept[i]).host_port
            != (#[trigger] kept[j]).host_port by {
            assert(kept[i] == before[i]);
            if j < before.len() {
                assert(kept[j] == before[j]);
            } else {
                let k = choose|k: int| 0 <= k < init.len() && init[k] == before[i];
                assert(v[k] == kept[i]);
                assert(kept[j] == v[v.len() - 1]);
            }
        }
    }
}

/// Removing a VM and its port forwards keeps the rules of the tables.
proof fn lemma_without_vm_keeps_wf(s: StateStoreView, i: int)
    requires
        s.wf(),
        0 <= i < s.vms.len(),
    ensures
        s.without_vm(i).wf(),
{
    let t = s.without_vm(i);
    let id = s.vms[i].id;
    lemma_forwards_except(s.forwards, id);
    lemma_forwards_except_unique(s.forwards, id);
    assert forall|a: int, b: int| 0 <= a < b < t.vms.len() implies (#[trigger] t.vms[a]).id != (
    #[trigger] t.vms[b]).id && t.vms[a].name != t.vms[b].name by {
        let a2 = if a < i {
            a
        } else {
            a + 1
        };
        let b2 = if b < i {
            b
        } else {
            b + 1
        };
        assert(t.vms[a] == s.vms[a2]);
        assert(t.vms[b] == s.vms[b2]);
    }
    assert forall|k: int| 0 <= k < t.forwards.len() implies t.has_id(
        (#[trigger] t.forwards[k]).vm_id,
    ) by {
        let f = t.forwards[k];
        assert(s.forwards.contains(f));
        let m = choose|m: int| 0 <= m < s.forwards.len() && s.forwards[m] == f;
        assert(s.has_id(s.forwards[m].vm_id));
        let n = choose|n: int| 0 <= n < s.vms.len() && (#[trigger] s.vms[n]).id == f.vm_id;
        if n < i {
            assert(t.vms[n].id == f.vm_id);
        } else {
            assert(n != i);
            assert(t.vms[n - 1].id == f.vm_id);
        }
    }
}

impl StateStoreView {
    /// Whether `cid` is the context id that is handed out next: the lowest that came back, or
    /// else the first that was never handed out.
    pub open spec fn is_next_cid(self, cid: u32) -> bool {
        if exists|c: u32| self.freed_cids.contains(c) {
            self.freed_cids.contains(cid) && forall|c: u32| self.freed_cids.contains(c) ==> cid <= c
        } else {
            cid == self.next_cid
        }
    }

    /// The store after context id `cid` was handed out.
    pub open spec fn after_cid(self, cid: u32) -> StateStoreView {
        if exists|c: u32| self.freed_cids.contains(c) {
            StateStoreView { freed_cids: self.freed_cids.remove(cid), ..self }
        } else {
            StateStoreView { next_cid: (self.next_cid + 1) as i64, ..self }
        }
    }

    /// The store after context id `cid` came back.
    pub open spec fn with_freed_cid(self, cid: u32) -> StateStoreView {
        StateStoreView { freed_cids: self.freed_cids.insert(cid), ..self }
    }

    /// Whether context id `cid` is handed out.
    pub open spec fn cid_in_use(self, cid: u32) -> bool {
        FIRST_CID <= cid < self.next_cid && !self.freed_cids.contains(cid)
    }

    /// Only context ids that were handed out have come back.
    pub open spec fn cids_sound(self) -> bool {
        &&& FIRST_CID <= self.next_cid
        &&& forall|c: u32| #[trigger]
            self.freed_cids.contains(c) ==> FIRST_CID <= c < self.next_cid
    }

    /// Whether no context id can be handed out: none came back, and the next one is none.
    pub open spec fn cids_used_up(self) -> bool {
        self.freed_cids == Set::<u32>::empty() && !(0 <= self.next_cid <= u32::MAX)
    }
}

/// The context ids do not touch the rules of the other tables.
proof fn lemma_cids_keep_wf(s: StateStoreView, t: StateStoreView)
    requires
        s.wf(),
        t.vms == s.vms,
        t.forwards == s.forwards,
        t.last_forward_id == s.last_forward_id,
    ensures
        t.wf(),
{
    assert forall|k: int| 0 <= k < t.forwards.len() implies t.has_id(
        (#[trigger] t.forwards[k]).vm_id,
    ) by {
        assert(s.has_id(s.forwards[k].vm_id));
        let m = choose|m: int|
            0 <= m < s.vms.len() && (#[trigger] s.vms[m]).id == s.forwards[k].vm_id;
        assert(t.vms[m].id == s.forwards[k].vm_id);
    }
}

/// A number in decimal, with its sign where it is negative.
pub open spec fn signed_decimal(n: i64) -> Seq<char> {
    if n < 0 {
        "-"@ + text::decimal((-n) as nat)
    } else {
        text::decimal(n as nat)
    }
}

/// The message for a number in the given column that does not fit in 32 bits.
pub open spec fn out_of_range_message(n: i64, column: nat) -> Seq<char> {
    "Integer "@ + signed_decimal(n) + " out of range at index "@ + text::decimal(column)
}

fn out_of_range_text(n: i64, column: u64) -> (m: String)
    ensures
        m@ == out_of_range_message(n, column as nat),
{
    let digits = if n < 0 {
        let size: i128 = -(n as i128);
        let mut s = "-".to_owned();
        s.append(decimal_of(size as u64).as_str());
        s
    } else {
        decimal_of(n as u64)
    };
    let mut m = "Integer ".to_owned();
    m.append(digits.as_str());
    m.append(" out of range at index ");
    m.append(decimal_of(column).as_str());
    m
}

impl StateStore {
    /// Hands out a vsock context id: the lowest that came back, or else a fresh one. Fails where
    /// the next one is no number of 32 bits.
    pub fn allocate_cid(&mut self) -> (r: Result<u32, StateError>)
        requires
            old(self).wf(),
        ensures
            final(self).wf(),
            match r {
                Ok(cid) => old(self)@.is_next_cid(cid) && final(self)@ == old(self)@.after_cid(cid),
                Err(e) => {
                    &&& old(self)@.cids_used_up()
                    &&& e@ == StateErrorView::Database(out_of_range_message(old(self)@.next_cid, 0))
                    &&& final(self)@ == old(self)@
                },
            },
    {
        match take_lowest(&mut self.freed_cids) {
            Some(cid) => {
                proof {
                    assert(old(self)@.freed_cids.contains(cid));
                    lemma_cids_keep_wf(old(self)@, self@);
                }
                Ok(cid)
            },
            None => {
                if self.next_cid < 0 || self.next_cid > u32::MAX as i64 {
                    return Err(StateError::Database(out_of_range_text(self.next_cid, 0)));
                }
                let cid: u32 = self.next_cid as u32;
                self.next_cid = self.next_cid + 1;
                proof {
                    lemma_cids_keep_wf(old(self)@, self@);
                }
                Ok(cid)
            },
        }
    }

    /// Takes a context id back. Taking one back twice changes nothing more.
    pub fn release_cid(&mut self, cid: u32)
        requires
            old(self).wf(),
        ensures
            final(self).wf(),
            final(self)@ == old(self)@.with_freed_cid(cid),
    {
        let _ = put(&mut self.freed_cids, cid);
        proof {
            lemma_cids_keep_wf(old(self)@, self@);
        }
    }

    /// Adds a port forward and gives it the next id. Refused where the host port is forwarded
    /// already, or where the VM is not there.
    pub fn insert_port_forward(&mut self, record: PortForwardRecord) -> (r: Result<(), StateError>)
        requires
            old(self).wf(),
        ensures
            final(self).wf(),
            match r {
                Ok(_) => {
                    &&& !old(self)@.has_port(record.host_port)
                    &&& old(self)@.has_id(record.vm_id)
                    &&& old(self)@.last_forward_id < i64::MAX
                    &&& final(self)@ == old(self)@.with_new_forward(record@)
                },
                Err(e) => {
                    &&& final(self)@ == old(self)@
                    &&& if old(self)@.last_forward_id == i64::MAX {
                        e@ == StateErrorView::Database("database or disk is full"@)
                    } else if old(self)@.has_port(record.host_port) {
                        e@ == StateErrorView::PortAlreadyForwarded(record.host_port)
                    } else {
                        !old(self)@.has_id(record.vm_id) && e@ == StateErrorView::VmNotFound(
                            record.vm_id,
                        )
                    }
                },
            },
    {
        if self.last_forward_id == i64::MAX {
            return Err(StateError::Database("database or disk is full".to_owned()));
        }
        let mut i: usize = 0;
        while i < self.forwards.len()
            invariant
                i <= self.forwards@.len(),
                self@ == old(self)@,
                self.wf(),
                self.last_forward_id < i64::MAX,
                forall|k: int|
                    0 <= k < i ==> (#[trigger] self@.forwards[k]).host_port != record.host_port,
            decreases self.forwards.len() - i,
        {
            if self.forwards[i].host_port == record.host_port {
                assert(self@.forwards[i as int].host_port == record.host_port);
                return Err(StateError::PortAlreadyForwarded(record.host_port));
            }
            i = i + 1;
        }
        if let None = self.index_of_id(record.vm_id) {
            return Err(StateError::VmNotFound(record.vm_id));
        }
        let ghost before = self@;
        self.last_forward_id = self.last_forward_id + 1;
        let mut stored = record;
        stored.id = self.last_forward_id;
        self.forwards.push(stored);
        proof {
            assert(self@.forwards =~= before.with_new_forward(record@).forwards);
            assert(self@.vms =~= before.vms);
            assert forall|k: int| 0 <= k < self@.forwards.len() implies self@.has_id(
                (#[trigger] self@.forwards[k]).vm_id,
            ) by {
                if k < before.forwards.len() {
                    assert(before.has_id(before.forwards[k].vm_id));
                }
            }
        }
        Ok(())
    }

    /// Removes the port forward of a host port. That there is none is no error.
    pub fn delete_port_forward(&mut self, host_port: u16)
        requires
            old(self).wf(),
        ensures
            final(self).wf(),
            final(self)@ == old(self)@.without_port(host_port),
    {
        let mut all: Vec<PortForwardRecord> = Vec::new();
        std::mem::swap(&mut all, &mut self.forwards);
        let ghost whole = all@;
        let mut kept: Vec<PortForwardRecord> = Vec::new();
        proof {
            assert(forward_views(kept@) =~= ports_except(forward_views(whole).take(0), host_port));
        }
        for f in it: all
            invariant
                it.seq() == whole,
                forward_views(kept@) == ports_except(
                    forward_views(whole).take(it.index() as int),
                    host_port,
                ),
        {
            let ghost next = forward_views(whole).take(it.index() as int + 1);
            let ghost before = forward_views(kept@);
            proof {
                assert(next.drop_last() =~= forward_views(whole).take(it.index() as int));
                assert(next.last() == f@);
            }
            if f.host_port != host_port {
                kept.push(f);
                proof {
                    assert(forward_views(kept@) =~= before.push(f@));
                }
            }
        }
        proof {
            assert(forward_views(whole).take(whole.len() as int) =~= forward_views(whole));
            lemma_without_port_keeps_wf(old(self)@, host_port);
        }
        self.forwards = kept;
    }

    /// The port forwards of a VM, in ascending order of their host ports.
    pub fn list_port_forwards_for_vm(&self, vm_id: u128) -> (list: Vec<&PortForwardRecord>)
        ensures
            by_host_port(forward_ref_views(list@)),
            forward_ref_views(list@).to_multiset() == forwards_of(
                self@.forwards,
                vm_id,
            ).to_multiset(),
    {
        let mut list: Vec<&PortForwardRecord> = Vec::new();
        let mut i: usize = 0;
        proof {
            assert(forward_ref_views(list@) =~= forwards_of(self@.forwards.take(0), vm_id));
        }
        while i < self.forwards.len()
            invariant
                i <= self.forwards@.len(),
                by_host_port(forward_ref_views(list@)),
                forward_ref_views(list@).to_multiset() == forwards_of(
                    self@.forwards.take(i as int),
                    vm_id,
                ).to_multiset(),
            decreases self.forwards.len() - i,
        {
            let ghost next = self@.forwards.take(i + 1);
            let ghost r = self@.forwards[i as int];
            proof {
                assert(next.drop_last() =~= self@.forwards.take(i as int));
                assert(next.last() == r);
            }
            if self.forwards[i].vm_id == vm_id {
                let mut at: usize = list.len();
                while at > 0 && list[at - 1].host_port > self.forwards[i].host_port
                    invariant
                        at <= list@.len(),
                        i < self.forwards@.len(),
                        at < list@.len() ==> list@[at as int].host_port
                            > self.forwards@[i as int].host_port,
                    decreases at,
                {
                    at = at - 1;
                }
                let ghost before = forward_ref_views(list@);
                list.insert(at, &self.forwards[i]);
                proof {
                    let after = before.insert(at as int, r);
                    assert(forward_ref_views(list@) =~= after);
                    assert forall|a: int, b: int| 0 <= a < b < after.len() implies (
                    #[trigger] after[a]).host_port <= (#[trigger] after[b]).host_port by {
                        if a != at && b != at {
                            assert(after[a] == before[if a < at {
                                a
                            } else {
                                a - 1
                            }]);
                            assert(after[b] == before[if b < at {
                                b
                            } else {
                                b - 1
                            }]);
                        } else if b == at {
                            assert(after[a] == before[a]);
                            assert(before[at - 1].host_port <= r.host_port);
                        } else {
                            assert(after[b] == before[b - 1]);
                            assert(before[at as int].host_port > r.host_port);
                        }
                    }
                    vstd::seq_lib::to_multiset_insert(before, at as int, r);
                    vstd::seq_lib::to_multiset_build(
                        forwards_of(self@.forwards.take(i as int), vm_id),
                        r,
                    );
                }
            }
            i = i + 1;
        }
        proof {
            assert(self@.forwards.take(i as int) =~= self@.forwards);
        }
        list
    }

    /// Removes all port forwards of a VM. That there are none is no error.
    pub fn delete_port_forwards_for_vm(&mut self, vm_id: u128)
        requires
            old(self).wf(),
        ensures
            final(self).wf(),
            final(self)@ == old(self)@.with_forwards(forwards_except(old(self)@.forwards, vm_id)),
    {
        self.drop_forwards_of(vm_id);
        proof {
            let s = old(self)@;
            let t = self@;
            lemma_forwards_except(s.forwards, vm_id);
            lemma_forwards_except_unique(s.forwards, vm_id);
            assert forall|k: int| 0 <= k < t.forwards.len() implies t.has_id(
                (#[trigger] t.forwards[k]).vm_id,
            ) by {
                let f = t.forwards[k];
                assert(s.forwards.contains(f));
                let m = choose|m: int| 0 <= m < s.forwards.len() && s.forwards[m] == f;
                assert(s.has_id(s.forwards[m].vm_id));
            }
        }
    }
}

/// The port forwards of the VM with the given id, in the order of their ids.
pub open spec fn forwards_of(v: Seq<PortForwardView>, id: u128) -> Seq<PortForwardView>
    decreases v.len(),
{
    if v.len() == 0 {
        seq![]
    } else if v.last().vm_id == id {
        forwards_of(v.drop_last(), id).push(v.last())
    } else {
        forwards_of(v.drop_last(), id)
    }
}

/// The port forwards of other host ports, in order.
pub open spec fn ports_except(v: Seq<PortForwardView>, port: u16) -> Seq<PortForwardView>
    decreases v.len(),
{
    if v.len() == 0 {
        seq![]
    } else if v.last().host_port != port {
        ports_except(v.drop_last(), port).push(v.last())
    } else {
        ports_except(v.drop_last(), port)
    }
}

impl StateStoreView {
    /// The store with one more port forward, under the next id.
    pub open spec fn with_new_forward(self, record: PortForwardView) -> StateStoreView {
        StateStoreView {
            forwards: self.forwards.push(
                PortForwardView { id: (self.last_forward_id + 1) as i64, ..record },
            ),
            last_forward_id: (self.last_forward_id + 1) as i64,
            ..self
        }
    }

    /// The store without the port forward of the given host port.
    pub open spec fn without_port(self, port: u16) -> StateStoreView {
        StateStoreView { forwards: ports_except(self.forwards, port), ..self }
    }
}

/// Each kept port forward was there before and is for another host port.
pub proof fn lemma_ports_except(v: Seq<PortForwardView>, port: u16)
    ensures
        forall|i: int|
            0 <= i < ports_except(v, port).len() ==> v.contains(
                #[trigger] ports_except(v, port)[i],
            ) && ports_except(v, port)[i].host_port != port,
        forall|i: int|
            0 <= i < v.len() && (#[trigger] v[i]).host_port != port ==> ports_except(
                v,
                port,
            ).contains(v[i]),
    decreases v.len(),
{
    if v.len() > 0 {
        let init = v.drop_last();
        let kept = ports_except(v, port);
        let before = ports_except(init, port);
        lemma_ports_except(init, port);
        assert forall|i: int| 0 <= i < kept.len() implies v.contains(#[trigger] kept[i])
            && kept[i].host_port != port by {
            if i < before.len() {
                assert(kept[i] == before[i]);
                let k = choose|k: int| 0 <= k < init.len() && init[k] == before[i];
                assert(v[k] == kept[i]);
            } else {
                assert(kept[i] == v[v.len() - 1]);
            }
        }
        assert forall|i: int|
            0 <= i < v.len() && (#[trigger] v[i]).host_port != port implies kept.contains(v[i]) by {
            if i < init.len() {
                assert(init[i] == v[i]);
                let k = choose|k: int| 0 <= k < before.len() && before[k] == init[i];
                assert(kept[k] == v[i]);
            } else {
                assert(kept[kept.len() - 1] == v[i]);
            }
        }
    }
}

proof fn lemma_ports_except_unique(v: Seq<PortForwardView>, port: u16)
    requires
        forall|i: int, j: int|
            0 <= i < j < v.len() ==> (#[trigger] v[i]).host_port != (#[trigger] v[j]).host_port,
    ensures
        forall|i: int, j: int|
            0 <= i < j < ports_except(v, port).len() ==> (#[trigger] ports_except(
                v,
                port,
            )[i]).host_port != (#[trigger] ports_except(v, port)[j]).host_port,
    decreases v.len(),
{
    if v.len() > 0 {
        let init = v.drop_last();
        let kept = ports_except(v, port);
        let before = ports_except(init, port);
        lemma_ports_except_unique(init, port);
        lemma_ports_except(init, port);
        assert forall|i: int, j: int| 0 <= i < j < kept.len() implies (#[trigger] kept[i]).host_port
            != (#[trigger] kept[j]).host_port by {
            assert(kept[i] == before[i]);
            if j < before.len() {
                assert(kept[j] == before[j]);
            } else {
                let k = choose|k: int| 0 <= k < init.len() && init[k] == before[i];
                assert(v[k] == kept[i]);
                assert(kept[j] == v[v.len() - 1]);
            }
        }
    }
}

proof fn lemma_without_port_keeps_wf(s: StateStoreView, port: u16)
    requires
        s.wf(),
    ensures
        s.without_port(port).wf(),
{
    let t = s.without_port(port);
    lemma_ports_except(s.forwards, port);
    lemma_ports_except_unique(s.forwards, port);
    assert forall|k: int| 0 <= k < t.forwards.len() implies t.has_id(
        (#[trigger] t.forwards[k]).vm_id,
    ) by {
        let f = t.forwards[k];
        assert(s.forwards.contains(f));
        let m = choose|m: int| 0 <= m < s.forwards.len() && s.forwards[m] == f;
        assert(s.has_id(s.forwards[m].vm_id));
    }
}

/// A row of the table of VMs, as it is stored: the id as text.
#[derive(Debug, Clone)]
pub struct VmRow {
    pub id: String,
    pub name: String,
    pub state: String,
    pub pid: Option<i64>,
    pub vcpu_count: i64,
    pub mem_size_mib: i64,
    pub vsock_cid: i64,
    pub tap_device: Option<String>,
    pub host_ip: Option<String>,
    pub guest_ip: Option<String>,
    pub kernel_path: String,
    pub rootfs_path: String,
    pub created_at: String,
    pub updated_at: String,
    pub userdata: Option<String>,
    pub userdata_status: Option<String>,
    pub userdata_env: Option<String>,
}

/// A row of the table of port forwards, as it is stored.
#[derive(Debug, Clone)]
pub struct PortForwardRow {
    pub id: i64,
    pub vm_id: String,
    pub host_port: i64,
    pub guest_port: i64,
    pub protocol: String,
    pub created_at: String,
}

/// A row of the table of VMs, with its texts as characters.
pub struct VmRowView {
    pub id: Seq<char>,
    pub name: Seq<char>,
    pub state: Seq<char>,
    pub pid: Option<i64>,
    pub vcpu_count: i64,
    pub mem_size_mib: i64,
    pub vsock_cid: i64,
    pub tap_device: Option<Seq<char>>,
    pub host_ip: Option<Seq<char>>,
    pub guest_ip: Option<Seq<char>>,
    pub kernel_path: Seq<char>,
    pub rootfs_path: Seq<char>,
    pub created_at: Seq<char>,
    pub updated_at: Seq<char>,
    pub userdata: Option<Seq<char>>,
    pub userdata_status: Option<Seq<char>>,
    pub userdata_env: Option<Seq<char>>,
}

impl View for VmRow {
    type V = VmRowView;

    open spec fn view(&self) -> VmRowView {
        VmRowView {
            id: self.id@,
            name: self.name@,
            state: self.state@,
            pid: self.pid,
            vcpu_count: self.vcpu_count,
            mem_size_mib: self.mem_size_mib,
            vsock_cid: self.vsock_cid,
            tap_device: text::opt_text(self.tap_device),
            host_ip: text::opt_text(self.host_ip),
            guest_ip: text::opt_text(self.guest_ip),
            kernel_path: self.kernel_path@,
            rootfs_path: self.rootfs_path@,
            created_at: self.created_at@,
            updated_at: self.updated_at@,
            userdata: text::opt_text(self.userdata),
            userdata_status: text::opt_text(self.userdata_status),
            userdata_env: text::opt_text(self.userdata_env),
        }
    }
}

impl VmRow {
    /// The same row.
    pub fn copy(&self) -> (row: VmRow)
        ensures
            row@ == self@,
    {
        VmRow {
            id: self.id.clone(),
            name: self.name.clone(),
            state: self.state.clone(),
            pid: self.pid,
            vcpu_count: self.vcpu_count,
            mem_size_mib: self.mem_size_mib,
            vsock_cid: self.vsock_cid,
            tap_device: copy_opt(&self.tap_device),
            host_ip: copy_opt(&self.host_ip),
            guest_ip: copy_opt(&self.guest_ip),
            kernel_path: self.kernel_path.clone(),
            rootfs_path: self.rootfs_path.clone(),
            created_at: self.created_at.clone(),
            updated_at: self.updated_at.clone(),
            userdata: copy_opt(&self.userdata),
            userdata_status: copy_opt(&self.userdata_status),
            userdata_env: copy_opt(&self.userdata_env),
        }
    }
}

/// A row of the table of port forwards, with its texts as characters.
pub struct PortForwardRowView {
    pub id: i64,
    pub vm_id: Seq<char>,
    pub host_port: i64,
    pub guest_port: i64,
    pub protocol: Seq<char>,
    pub created_at: Seq<char>,
}

impl View for PortForwardRow {
    type V = PortForwardRowView;

    open spec fn view(&self) -> PortForwardRowView {
        PortForwardRowView {
            id: self.id,
            vm_id: self.vm_id@,
            host_port: self.host_port,
            guest_port: self.guest_port,
            protocol: self.protocol@,
            created_at: self.created_at@,
        }
    }
}

impl PortForwardRow {
    /// The same row.
    pub fn copy(&self) -> (row: PortForwardRow)
        ensures
            row@ == self@,
    {
        PortForwardRow {
            id: self.id,
            vm_id: self.vm_id.clone(),
            host_port: self.host_port,
            guest_port: self.guest_port,
            protocol: self.protocol.clone(),
            created_at: self.created_at.clone(),
        }
    }
}

/// The message for a column that does not hold what it should.
pub open spec fn conversion_message(m: Seq<char>) -> Seq<char> {
    "Conversion error from type Text at index: 0, "@ + m
}

fn conversion_error(m: String) -> (e: StateError)
    ensures
        e@ == StateErrorView::Database(conversion_message(m@)),
{
    let mut s = "Conversion error from type Text at index: 0, ".to_owned();
    s.append(m.as_str());
    StateError::Database(s)
}

/// The row for a record: the id as the text of the UUID, everything else as it is.
pub open spec fn row_for(record: VmRecordView) -> VmRowView {
    VmRowView {
        id: ident::uuid_text(record.id),
        name: record.name,
        state: record.state,
        pid: match record.pid {
            Some(pid) => Some(pid as i64),
            None => None,
        },
        vcpu_count: record.vcpu_count as i64,
        mem_size_mib: record.mem_size_mib as i64,
        vsock_cid: record.vsock_cid as i64,
        tap_device: record.tap_device,
        host_ip: record.host_ip,
        guest_ip: record.guest_ip,
        kernel_path: record.kernel_path,
        rootfs_path: record.rootfs_path,
        created_at: record.created_at,
        updated_at: record.updated_at,
        userdata: record.userdata,
        userdata_status: record.userdata_status,
        userdata_env: record.userdata_env,
    }
}

/// The row for a record.
pub fn vm_to_row(record: &VmRecord) -> (row: VmRow)
    ensures
        row@ == row_for(record@),
{
    let r = record.copy();
    VmRow {
        id: format_uuid(r.id),
        name: r.name,
        state: r.state,
        pid: match r.pid {
            Some(pid) => Some(pid as i64),
            None => None,
        },
        vcpu_count: r.vcpu_count as i64,
        mem_size_mib: r.mem_size_mib as i64,
        vsock_cid: r.vsock_cid as i64,
        tap_device: r.tap_device,
        host_ip: r.host_ip,
        guest_ip: r.guest_ip,
        kernel_path: r.kernel_path,
        rootfs_path: r.rootfs_path,
        created_at: r.created_at,
        updated_at: r.updated_at,
        userdata: r.userdata,
        userdata_status: r.userdata_status,
        userdata_env: r.userdata_env,
    }
}

/// The error for a column that could not be read, in the words of what went wrong.
pub open spec fn unreadable(m: Seq<char>) -> StateErrorView {
    StateErrorView::Database(conversion_message(m))
}

/// Whether a number fits in 32 bits.
pub open spec fn fits_32(n: i64) -> bool {
    0 <= n <= u32::MAX
}

/// What is wrong with the first of the given numbers that does not fit in 32 bits, if there is one.
/// The first of them stands in the given column, the others in those that follow.
pub open spec fn number_fault(numbers: Seq<i64>, column: nat) -> Option<Seq<char>>
    decreases numbers.len(),
{
    if numbers.len() == 0 {
        None
    } else if !fits_32(numbers[0]) {
        Some(out_of_range_message(numbers[0], column))
    } else {
        number_fault(numbers.skip(1), column + 1)
    }
}

fn check_numbers(numbers: &[i64], column: u64) -> (r: Option<StateError>)
    requires
        column + numbers@.len() <= u64::MAX,
    ensures
        match r {
            Some(e) => number_fault(numbers@, column as nat) matches Some(m) && e@
                == StateErrorView::Database(m),
            None => number_fault(numbers@, column as nat) is None && forall|k: int|
                0 <= k < numbers@.len() ==> fits_32(#[trigger] numbers@[k]),
        },
{
    let mut i: usize = 0;
    proof {
        assert(numbers@.skip(0) =~= numbers@);
    }
    while i < numbers.len()
        invariant
            i <= numbers@.len(),
            column + numbers@.len() <= u64::MAX,
            number_fault(numbers@.skip(i as int), (column + i) as nat) == number_fault(
                numbers@,
                column as nat,
            ),
            forall|k: int| 0 <= k < i ==> fits_32(#[trigger] numbers@[k]),
        decreases numbers.len() - i,
    {
        proof {
            assert(numbers@.skip(i as int)[0] == numbers@[i as int]);
            assert(numbers@.skip(i as int).skip(1) =~= numbers@.skip(i + 1));
        }
        if numbers[i] < 0 || numbers[i] > u32::MAX as i64 {
            return Some(
                StateError::Database(out_of_range_text(numbers[i], column + i as u64)),
            );
        }
        i = i + 1;
    }
    None
}

/// The process id that stands for a missing one where only the range counts.
pub open spec fn pid_number(pid: Option<i64>) -> i64 {
    match pid {
        Some(pid) => pid,
        None => 0,
    }
}

/// What is wrong with the first number of a row that does not fit in 32 bits, if there is one.
pub open spec fn row_number_fault(row: VmRowView) -> Option<Seq<char>> {
    number_fault(
        seq![pid_number(row.pid), row.vcpu_count, row.mem_size_mib, row.vsock_cid],
        3,
    )
}

/// The record in a row, given what its id and its times are read as. The first column that cannot
/// be read is the error: the id, then the numbers, then the times.
pub open spec fn record_value(
    row: VmRowView,
    id: Result<u128, Seq<char>>,
    created_at: Result<Seq<char>, Seq<char>>,
    updated_at: Result<Seq<char>, Seq<char>>,
) -> Result<VmRecordView, StateErrorView> {
    match (id, row_number_fault(row), created_at, updated_at) {
        (Ok(id), None, Ok(created_at), Ok(updated_at)) => Ok(
            VmRecordView {
                id,
                name: row.name,
                state: row.state,
                pid: match row.pid {
                    Some(pid) => Some(pid as u32),
                    None => None,
                },
                vcpu_count: row.vcpu_count as u32,
                mem_size_mib: row.mem_size_mib as u32,
                vsock_cid: row.vsock_cid as u32,
                tap_device: row.tap_device,
                host_ip: row.host_ip,
                guest_ip: row.guest_ip,
                kernel_path: row.kernel_path,
                rootfs_path: row.rootfs_path,
                created_at,
                updated_at,
                userdata: row.userdata,
                userdata_status: row.userdata_status,
                userdata_env: row.userdata_env,
            },
        ),
        (Err(m), _, _, _) => Err(unreadable(m)),
        (_, Some(m), _, _) => Err(StateErrorView::Database(m)),
        (_, _, Err(m), _) => Err(unreadable(m)),
        (_, _, _, Err(m)) => Err(unreadable(m)),
    }
}

/// What a column was read as, with its texts as characters.
pub open spec fn read_text(r: Result<String, String>) -> Result<Seq<char>, Seq<char>> {
    match r {
        Ok(t) => Ok(t@),
        Err(m) => Err(m@),
    }
}

/// What an id was read as, with the error's text as characters.
pub open spec fn read_id(r: Result<u128, String>) -> Result<u128, Seq<char>> {
    match r {
        Ok(id) => Ok(id),
        Err(m) => Err(m@),
    }
}

/// The record in a row, given what its id and its times were read as. The first column that could
/// not be read is the error.
pub fn record_from_row(
    row: &VmRow,
    id: Result<u128, String>,
    created_at: Result<String, String>,
    updated_at: Result<String, String>,
) -> (r: Result<VmRecord, StateError>)
    ensures
        match r {
            Ok(record) => record_value(
                row@,
                read_id(id),
                read_text(created_at),
                read_text(updated_at),
            ) == Ok::<VmRecordView, StateErrorView>(record@),
            Err(e) => record_value(
                row@,
                read_id(id),
                read_text(created_at),
                read_text(updated_at),
            ) == Err::<VmRecordView, StateErrorView>(e@),
        },
{
    let id = match id {
        Ok(id) => id,
        Err(m) => return Err(conversion_error(m)),
    };
    let pid: i64 = match row.pid {
        Some(pid) => pid,
        None => 0,
    };
    let numbers: Vec<i64> = vec![pid, row.vcpu_count, row.mem_size_mib, row.vsock_cid];
    proof {
        assert(numbers@ =~= seq![
            pid_number(row@.pid),
            row@.vcpu_count,
            row@.mem_size_mib,
            row@.vsock_cid,
        ]);
    }
    if let Some(e) = check_numbers(numbers.as_slice(), 3) {
        return Err(e);
    }
    proof {
        assert(fits_32(numbers@[0]) && fits_32(numbers@[1]) && fits_32(numbers@[2]) && fits_32(
            numbers@[3],
        ));
    }
    let created_at = match created_at {
        Ok(t) => t,
        Err(m) => return Err(conversion_error(m)),
    };
    let updated_at = match updated_at {
        Ok(t) => t,
        Err(m) => return Err(conversion_error(m)),
    };
    Ok(
        VmRecord {
            id,
            name: row.name.clone(),
            state: row.state.clone(),
            pid: match row.pid {
                Some(pid) => Some(pid as u32),
                None => None,
            },
            vcpu_count: row.vcpu_count as u32,
            mem_size_mib: row.mem_size_mib as u32,
            vsock_cid: row.vsock_cid as u32,
            tap_device: copy_opt(&row.tap_device),
            host_ip: copy_opt(&row.host_ip),
            guest_ip: copy_opt(&row.guest_ip),
            kernel_path: row.kernel_path.clone(),
            rootfs_path: row.rootfs_path.clone(),
            created_at,
            updated_at,
            userdata: copy_opt(&row.userdata),
            userdata_status: copy_opt(&row.userdata_status),
            userdata_env: copy_opt(&row.userdata_env),
        },
    )
}

proof fn lemma_record_numbers_fit(record: VmRecordView)
    ensures
        row_number_fault(row_for(record)) is None,
{
    reveal_with_fuel(number_fault, 5);
}

/// The record in a row.
pub open spec fn row_value(row: VmRowView) -> Result<VmRecordView, StateErrorView> {
    record_value(
        row,
        ident::uuid_in(row.id),
        ident::utc_text(row.created_at),
        ident::utc_text(row.updated_at),
    )
}

/// The record in a row. Fails where the id is no UUID, a number does not fit or a time is none. A row that was made for
/// a record gives the record back, if its times have the form in which times are kept.
pub fn row_to_vm_record(row: &VmRow) -> (r: Result<VmRecord, StateError>)
    ensures
        match r {
            Ok(record) => row_value(row@) == Ok::<VmRecordView, StateErrorView>(record@),
            Err(e) => row_value(row@) == Err::<VmRecordView, StateErrorView>(e@),
        },
        forall|record: VmRecordView|
            row@ == #[trigger] row_for(record) && ident::is_utc(record.created_at)
                && ident::is_utc(record.updated_at) ==> (r matches Ok(read) && read@ == record),
{
    let id = parse_uuid(row.id.as_str());
    let created_at = parse_time(row.created_at.as_str());
    let updated_at = parse_time(row.updated_at.as_str());
    let r = record_from_row(row, id, created_at, updated_at);
    proof {
        assert forall|record: VmRecordView|
            row@ == #[trigger] row_for(record) && ident::is_utc(record.created_at)
                && ident::is_utc(record.updated_at) implies r is Ok && (r->Ok_0)@ == record by {
            assert(row@.id == ident::uuid_text(record.id));
            lemma_record_numbers_fit(record);
        }
    }
    r
}

/// The port forward in a row, given what its VM's id and its time are read as. Ports are the
/// lower 16 bits of what is stored.
pub open spec fn forward_value(
    row: PortForwardRowView,
    vm_id: Result<u128, Seq<char>>,
    created_at: Result<Seq<char>, Seq<char>>,
) -> Result<PortForwardView, StateErrorView> {
    match (vm_id, number_fault(seq![row.host_port, row.guest_port], 2), created_at) {
        (Ok(vm_id), None, Ok(created_at)) => Ok(
            PortForwardView {
                id: row.id,
                vm_id,
                host_port: (row.host_port % 65536) as u16,
                guest_port: (row.guest_port % 65536) as u16,
                protocol: row.protocol,
                created_at,
            },
        ),
        (Err(m), _, _) => Err(unreadable(m)),
        (_, Some(m), _) => Err(StateErrorView::Database(m)),
        (_, _, Err(m)) => Err(unreadable(m)),
    }
}

/// The port forward in a row, given what its VM's id and its time were read as.
pub fn forward_from_row(
    row: &PortForwardRow,
    vm_id: Result<u128, String>,
    created_at: Result<String, String>,
) -> (r: Result<PortForwardRecord, StateError>)
    ensures
        match r {
            Ok(record) => forward_value(row@, read_id(vm_id), read_text(created_at)) == Ok::<
                PortForwardView,
                StateErrorView,
            >(record@),
            Err(e) => forward_value(row@, read_id(vm_id), read_text(created_at)) == Err::<
                PortForwardView,
                StateErrorView,
            >(e@),
        },
{
    let vm_id = match vm_id {
        Ok(id) => id,
        Err(m) => return Err(conversion_error(m)),
    };
    let numbers: Vec<i64> = vec![row.host_port, row.guest_port];
    proof {
        assert(numbers@ =~= seq![row@.host_port, row@.guest_port]);
    }
    if let Some(e) = check_numbers(numbers.as_slice(), 2) {
        return Err(e);
    }
    proof {
        assert(fits_32(numbers@[0]) && fits_32(numbers@[1]));
    }
    let created_at = match created_at {
        Ok(t) => t,
        Err(m) => return Err(conversion_error(m)),
    };
    Ok(
        PortForwardRecord {
            id: row.id,
            vm_id,
            host_port: (row.host_port % 65536) as u16,
            guest_port: (row.guest_port % 65536) as u16,
            protocol: row.protocol.clone(),
            created_at,
        },
    )
}

/// The row for a port forward: the id of the VM as the text of the UUID, everything else as it is.
pub open spec fn forward_row_for(record: PortForwardView) -> PortForwardRowView {
    PortForwardRowView {
        id: record.id,
        vm_id: ident::uuid_text(record.vm_id),
        host_port: record.host_port as i64,
        guest_port: record.guest_port as i64,
        protocol: record.protocol,
        created_at: record.created_at,
    }
}

/// The row for a port forward.
pub fn forward_to_row(record: &PortForwardRecord) -> (row: PortForwardRow)
    ensures
        row@ == forward_row_for(record@),
{
    PortForwardRow {
        id: record.id,
        vm_id: format_uuid(record.vm_id),
        host_port: record.host_port as i64,
        guest_port: record.guest_port as i64,
        protocol: record.protocol.clone(),
        created_at: record.created_at.clone(),
    }
}

/// The port forward in a row.
pub open spec fn forward_row_value(row: PortForwardRowView) -> Result<
    PortForwardView,
    StateErrorView,
> {
    forward_value(row, ident::uuid_in(row.vm_id), ident::utc_text(row.created_at))
}

/// The port forward in a row. A row that was made for a port forward gives it back, if its time
/// has the form in which times are kept.
pub fn row_to_port_forward(row: &PortForwardRow) -> (r: Result<PortForwardRecord, StateError>)
    ensures
        match r {
            Ok(record) => forward_row_value(row@) == Ok::<PortForwardView, StateErrorView>(
                record@,
            ),
            Err(e) => forward_row_value(row@) == Err::<PortForwardView, StateErrorView>(e@),
        },
        forall|record: PortForwardView|
            row@ == #[trigger] forward_row_for(record) && ident::is_utc(record.created_at) ==> (
            r matches Ok(read) && read@ == record),
{
    let vm_id = parse_uuid(row.vm_id.as_str());
    let created_at = parse_time(row.created_at.as_str());
    let r = forward_from_row(row, vm_id, created_at);
    proof {
        assert forall|record: PortForwardView|
            row@ == #[trigger] forward_row_for(record) && ident::is_utc(
                record.created_at,
            ) implies r is Ok && (r->Ok_0)@ == record by {
            assert(row@.vm_id == ident::uuid_text(record.vm_id));
            reveal_with_fuel(number_fault, 3);
        }
    }
    r
}

/// An id or a name belongs to one VM at most.
pub proof fn keys_name_one_vm(s: StateStoreView, a: VmRecordView, b: VmRecordView)
    requires
        s.wf(),
        s.vms.contains(a),
        s.vms.contains(b),
        a.id == b.id || a.name == b.name,
    ensures
        a == b,
{
    let i = choose|i: int| 0 <= i < s.vms.len() && s.vms[i] == a;
    let j = choose|j: int| 0 <= j < s.vms.len() && s.vms[j] == b;
    if i < j {
        assert(s.vms[i].id != s.vms[j].id && s.vms[i].name != s.vms[j].name);
    } else if j < i {
        assert(s.vms[j].id != s.vms[i].id && s.vms[j].name != s.vms[i].name);
    }
}

/// A VM that was added is found under its id and its name, as it was added; the VMs that were
/// there before are still there.
pub proof fn inserted_vm_is_found(s: StateStoreView, r: VmRecordView)
    requires
        s.wf(),
        !s.has_id(r.id),
        !s.has_name(r.name),
    ensures
        ({
            let t = s.with_vms(s.vms.push(r));
            &&& t.vms.contains(r)
            &&& forall|x: VmRecordView|
                #[trigger] t.vms.contains(x) && (x.id == r.id || x.name == r.name) ==> x == r
            &&& forall|x: VmRecordView| s.vms.contains(x) ==> #[trigger] t.vms.contains(x)
        }),
{
    let t = s.with_vms(s.vms.push(r));
    assert(t.vms[s.vms.len() as int] == r);
    assert forall|x: VmRecordView|
        #[trigger] t.vms.contains(x) && (x.id == r.id || x.name == r.name) implies x == r by {
        let k = choose|k: int| 0 <= k < t.vms.len() && t.vms[k] == x;
        if k < s.vms.len() {
            assert(s.vms[k] == x);
        }
    }
    assert forall|x: VmRecordView| s.vms.contains(x) implies #[trigger] t.vms.contains(x) by {
        let k = choose|k: int| 0 <= k < s.vms.len() && s.vms[k] == x;
        assert(t.vms[k] == x);
    }
}

/// A VM that was removed is found neither under its id nor under its name, and none of its port
/// forwards is left. Other VMs and their port forwards stay.
pub proof fn deleted_vm_is_gone(s: StateStoreView, i: int)
    requires
        s.wf(),
        0 <= i < s.vms.len(),
    ensures
        ({
            let t = s.without_vm(i);
            &&& !t.has_id(s.vms[i].id)
            &&& !t.has_name(s.vms[i].name)
            &&& forall|k: int|
                0 <= k < t.forwards.len() ==> (#[trigger] t.forwards[k]).vm_id != s.vms[i].id
            &&& forall|k: int|
                0 <= k < s.vms.len() && k != i ==> t.vms.contains(#[trigger] s.vms[k])
            &&& forall|k: int|
                0 <= k < s.forwards.len() && (#[trigger] s.forwards[k]).vm_id != s.vms[i].id
                    ==> t.forwards.contains(s.forwards[k])
        }),
{
    let t = s.without_vm(i);
    lemma_forwards_except(s.forwards, s.vms[i].id);
    assert forall|k: int| 0 <= k < t.vms.len() implies (#[trigger] t.vms[k]).id != s.vms[i].id
        && t.vms[k].name != s.vms[i].name by {
        let m = if k < i {
            k
        } else {
            k + 1
        };
        assert(t.vms[k] == s.vms[m]);
    }
    assert forall|k: int| 0 <= k < s.vms.len() && k != i implies t.vms.contains(
        #[trigger] s.vms[k],
    ) by {
        if k < i {
            assert(t.vms[k] == s.vms[k]);
        } else {
            assert(t.vms[k - 1] == s.vms[k]);
        }
    }
}

/// A host port that was taken back is free again, and every other port forward stays.
pub proof fn deleted_port_is_free(s: StateStoreView, port: u16)
    ensures
        !s.without_port(port).has_port(port),
        forall|k: int|
            0 <= k < s.forwards.len() && (#[trigger] s.forwards[k]).host_port != port
                ==> s.without_port(port).forwards.contains(s.forwards[k]),
{
    lemma_ports_except(s.forwards, port);
}

/// As long as only context ids that are in use come back, no context id is handed out twice: the
/// next one is not in use, and handing it out changes nothing for the other ones.
pub proof fn cid_is_handed_out_once(s: StateStoreView, cid: u32)
    requires
        s.wf(),
        s.cids_sound(),
        s.is_next_cid(cid),
    ensures
        !s.cid_in_use(cid),
        cid >= FIRST_CID,
        s.after_cid(cid).cids_sound(),
        s.after_cid(cid).cid_in_use(cid),
        forall|c: u32| c != cid ==> s.after_cid(cid).cid_in_use(c) == s.cid_in_use(c),
{
    if exists|c: u32| s.freed_cids.contains(c) {
        assert(s.freed_cids.contains(cid));
    }
}

/// A context id that comes back is free, and is handed out again before any fresh one; of
/// several, the lowest first. Taking it back again changes nothing.
pub proof fn released_cid_is_reused_first(s: StateStoreView, cid: u32, next: u32)
    requires
        s.wf(),
        s.cids_sound(),
        s.cid_in_use(cid),
        s.with_freed_cid(cid).is_next_cid(next),
    ensures
        s.with_freed_cid(cid).cids_sound(),
        !s.with_freed_cid(cid).cid_in_use(cid),
        next <= cid,
        s.freed_cids == Set::<u32>::empty() ==> next == cid,
        s.with_freed_cid(cid).with_freed_cid(cid) == s.with_freed_cid(cid),
{
    let t = s.with_freed_cid(cid);
    assert(t.freed_cids.contains(cid));
    assert(t.freed_cids.contains(next));
    assert(t.freed_cids.insert(cid) =~= t.freed_cids);
}

/// A change of the state of a VM, or of how far its script has come, leaves everything else of the
/// record as it is.
pub proof fn change_keeps_the_rest(r: VmRecordView, value: Seq<char>, now: Seq<char>)
    ensures
        ({
            let a = r.with_state(value, now);
            let b = r.with_userdata_status(value, now);
            &&& a.state == value && a.userdata_status == r.userdata_status
            &&& b.state == r.state && b.userdata_status == Some(value)
            &&& a.updated_at == now && b.updated_at == now
            &&& forall|c: VmRecordView|
                #![auto]
                c == a || c == b ==> c.id == r.id && c.name == r.name && c.pid == r.pid
                    && c.vcpu_count == r.vcpu_count && c.mem_size_mib == r.mem_size_mib
                    && c.vsock_cid == r.vsock_cid && c.tap_device == r.tap_device && c.host_ip
                    == r.host_ip && c.guest_ip == r.guest_ip && c.kernel_path == r.kernel_path
                    && c.rootfs_path == r.rootfs_path && c.created_at == r.created_at
                    && c.userdata == r.userdata && c.userdata_env == r.userdata_env
        }),
{
}

/// The columns of a row hold what the record says under the same names.
pub proof fn columns_hold_their_fields(r: VmRecordView, f: PortForwardView)
    ensures
        ({
            let row = row_for(r);
            &&& row.id == ident::uuid_text(r.id)
            &&& row.name == r.name && row.state == r.state
            &&& row.vcpu_count == r.vcpu_count && row.mem_size_mib == r.mem_size_mib
            &&& row.vsock_cid == r.vsock_cid
            &&& row.pid is Some == r.pid is Some && (r.pid matches Some(pid) ==> row.pid->0 == pid)
            &&& row.tap_device == r.tap_device && row.host_ip == r.host_ip && row.guest_ip
                == r.guest_ip
            &&& row.kernel_path == r.kernel_path && row.rootfs_path == r.rootfs_path
            &&& row.created_at == r.created_at && row.updated_at == r.updated_at
            &&& row.userdata == r.userdata && row.userdata_status == r.userdata_status
                && row.userdata_env == r.userdata_env
        }),
        ({
            let row = forward_row_for(f);
            &&& row.id == f.id && row.vm_id == ident::uuid_text(f.vm_id)
            &&& row.host_port == f.host_port && row.guest_port == f.guest_port
            &&& row.protocol == f.protocol && row.created_at == f.created_at
        }),
{
}

/// A record that was stored is read back, if its times have the form in which times are kept and
/// its id is read as what it was.
pub proof fn stored_record_is_read_back(r: VmRecordView)
    ensures
        record_value(
            row_for(r),
            Ok::<u128, Seq<char>>(r.id),
            Ok::<Seq<char>, Seq<char>>(r.created_at),
            Ok::<Seq<char>, Seq<char>>(r.updated_at),
        ) == Ok::<VmRecordView, StateErrorView>(r),
{
    lemma_record_numbers_fit(r);
}

/// Removing a VM, or a port forward, leaves the context ids and the ids of port forwards alone, and
/// adds nothing.
pub proof fn removal_only_removes(s: StateStoreView, i: int, port: u16)
    requires
        0 <= i < s.vms.len(),
    ensures
        s.without_vm(i).vms == s.vms.remove(i),
        s.without_vm(i).next_cid == s.next_cid && s.without_vm(i).freed_cids == s.freed_cids,
        s.without_vm(i).last_forward_id == s.last_forward_id,
        forall|k: int|
            0 <= k < s.without_vm(i).forwards.len() ==> s.forwards.contains(
                #[trigger] s.without_vm(i).forwards[k],
            ),
        s.without_port(port).vms == s.vms && s.without_port(port).next_cid == s.next_cid,
        s.without_port(port).last_forward_id == s.last_forward_id,
        forall|k: int|
            0 <= k < s.without_port(port).forwards.len() ==> s.forwards.contains(
                #[trigger] s.without_port(port).forwards[k],
            ),
{
    lemma_forwards_except(s.forwards, s.vms[i].id);
    lemma_ports_except(s.forwards, port);
}

/// An error of the records tells what it is about.
pub proof fn errors_tell_what_it_is(e: StateErrorView)
    ensures
        match e {
            StateErrorView::Database(m) => text::ends_with(e.text(), m),
            StateErrorView::VmNotFound(id) => text::ends_with(e.text(), ident::uuid_text(id)),
            StateErrorView::VmNotFoundByName(name) => text::ends_with(e.text(), name),
            StateErrorView::VmAlreadyExists(name) => text::ends_with(e.text(), name),
            StateErrorView::PortAlreadyForwarded(port) => text::ends_with(
                e.text(),
                text::decimal(port as nat),
            ),
            StateErrorView::LockPoisoned => true,
            StateErrorView::Io(m) => text::ends_with(e.text(), m),
            StateErrorView::CorruptData { column, message } => text::ends_with(
                e.text(),
                column + ": "@ + message,
            ),
        },
{
    match e {
        StateErrorView::Database(m) => text::lemma_ends_with("database error: "@, m),
        StateErrorView::VmNotFound(id) => text::lemma_ends_with(
            "VM not found: "@,
            ident::uuid_text(id),
        ),
        StateErrorView::VmNotFoundByName(name) => text::lemma_ends_with(
            "VM not found by name: "@,
            name,
        ),
        StateErrorView::VmAlreadyExists(name) => text::lemma_ends_with("VM already exists: "@, name),
        StateErrorView::PortAlreadyForwarded(port) => text::lemma_ends_with(
            "port already forwarded: "@,
            text::decimal(port as nat),
        ),
        StateErrorView::LockPoisoned => {},
        StateErrorView::Io(m) => text::lemma_ends_with("IO error: "@, m),
        StateErrorView::CorruptData { column, message } => {
            text::lemma_ends_with("corrupt data in column "@, column + ": "@ + message);
            assert(e.text() =~= "corrupt data in column "@ + (column + ": "@ + message));
        },
    }
}

} // verus!
