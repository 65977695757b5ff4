//! What is kept besides VMs: host groups, services, snapshots of disks, and disk images.
//!
//! Each kind has a catalog of its own, in which a name occurs once. Files are copied and removed
//! by the caller.
use crate::ident;
use crate::ident::{current_time, new_uuid};
use crate::orchestrator;
use crate::orchestrator::{CoreError, CoreErrorView, CreateVmRequest, HuskCore};
use crate::path;
use crate::path::join_path;
use crate::state::VmRecordView;
use crate::text;
use crate::text::{chars_of, same_text, string_of};
use vstd::prelude::*;
use vstd::string::*;

verus! {

/// A record that goes by a name.
pub trait Named {
    /// The name of the record.
    spec fn key(&self) -> Seq<char>;

    /// The name of the record.
    fn name(&self) -> (s: &String)
        ensures
            s@ == self.key(),
    ;
}

/// Records in the order in which they were added, no two of them with the same name.
pub struct Catalog<R> {
    pub entries: Vec<R>,
}

impl<R: Named> Catalog<R> {
    /// No name occurs twice.
    pub open spec fn wf(&self) -> bool {
        forall|i: int, j: int|
            0 <= i < j < self.entries@.len() ==> (#[trigger] self.entries@[i]).key() != (
            #[trigger] self.entries@[j]).key()
    }

    /// Whether there is a record with the given name.
    pub open spec fn has(&self, name: Seq<char>) -> bool {
        exists|i: int| 0 <= i < self.entries@.len() && (#[trigger] self.entries@[i]).key() == name
    }

    /// An empty catalog.
    pub fn new() -> (c: Catalog<R>)
        ensures
            c.wf(),
            c.entries@ == Seq::<R>::empty(),
    {
        Catalog { entries: Vec::new() }
    }

    /// Where the record with the given name stands.
    pub fn position(&self, name: &str) -> (r: Option<usize>)
        ensures
            match r {
                Some(i) => i < self.entries@.len() && self.entries@[i as int].key() == name@,
                None => !self.has(name@),
            },
    {
        let mut i: usize = 0;
        while i < self.entries.len()
            invariant
                i <= self.entries@.len(),
                forall|j: int| 0 <= j < i ==> (#[trigger] self.entries@[j]).key() != name@,
            decreases self.entries.len() - i,
        {
            if same_text(self.entries[i].name().as_str(), name) {
                return Some(i);
            }
            i += 1;
        }
        None
    }

    /// The record with the given name.
    pub fn get(&self, name: &str) -> (r: Option<&R>)
        ensures
            match r {
                Some(e) => self.entries@.contains(*e) && e.key() == name@,
                None => !self.has(name@),
            },
    {
        match self.position(name) {
            Some(i) => Some(&self.entries[i]),
            None => None,
        }
    }

    /// Adds a record whose name is free.
    pub fn push(&mut self, r: R)
        requires
            old(self).wf(),
            !old(self).has(r.key()),
        ensures
            final(self).wf(),
            final(self).entries@ == old(self).entries@.push(r),
    {
        self.entries.push(r);
    }

    /// Takes out the record with the given name.
    pub fn remove(&mut self, name: &str) -> (r: Option<R>)
        requires
            old(self).wf(),
        ensures
            final(self).wf(),
            match r {
                Some(e) => exists|i: int|
                    0 <= i < old(self).entries@.len() && #[trigger] old(self).entries@[i] == e
                        && e.key() == name@ && final(self).entries@ == old(
                        self).entries@.remove(i),
                None => !old(self).has(name@) && *final(self) == *old(self),
            },
    {
        match self.position(name) {
            Some(i) => {
                let ghost before = self.entries@;
                let e = self.entries.remove(i);
                proof {
                    assert(before[i as int] == e);
                    assert forall|a: int, b: int| 0 <= a < b < self.entries@.len() implies (
                    #[trigger] self.entries@[a]).key() != (#[trigger] self.entries@[b]).key() by {
                        let a2 = if a < i { a } else { a + 1 };
                        let b2 = if b < i { b } else { b + 1 };
                        assert(self.entries@[a] == before[a2]);
                        assert(self.entries@[b] == before[b2]);
                    }
                }
                Some(e)
            },
            None => None,
        }
    }
}

/// A record that was taken out can no longer be found, and the other names are as before.
pub proof fn removed_name_is_free<R: Named>(before: Catalog<R>, after: Catalog<R>, i: int)
    requires
        before.wf(),
        0 <= i < before.entries@.len(),
        after.entries@ == before.entries@.remove(i),
    ensures
        !after.has(before.entries@[i].key()),
        forall|name: Seq<char>|
            name != before.entries@[i].key() ==> #[trigger] after.has(name) == before.has(name),
{
    let b = before.entries@;
    let a = after.entries@;
    assert forall|k: int| 0 <= k < a.len() implies (#[trigger] a[k]).key() != b[i].key() by {
        assert(a[k] == b[if k < i { k } else { k + 1 }]);
    }
    assert forall|name: Seq<char>| name != b[i].key() implies #[trigger] after.has(name)
        == before.has(name) by {
        if before.has(name) {
            let k = choose|k: int| 0 <= k < b.len() && (#[trigger] b[k]).key() == name;
            let k2 = if k < i { k } else { k - 1 };
            assert(a[k2] == b[k]);
        }
        if after.has(name) {
            let k = choose|k: int| 0 <= k < a.len() && (#[trigger] a[k]).key() == name;
            let k2 = if k < i { k } else { k + 1 };
            assert(a[k] == b[k2]);
        }
    }
}

/// A group of hosts.
#[derive(Debug)]
pub struct HostGroupRecord {
    pub id: u128,
    pub name: String,
    pub description: Option<String>,
    pub created_at: String,
    pub updated_at: String,
}

/// A service, with the number of instances that there should be of it.
#[derive(Debug)]
pub struct ServiceRecord {
    pub id: u128,
    pub name: String,
    pub host_group_id: Option<u128>,
    pub desired_instances: u32,
    pub image: Option<String>,
    pub created_at: String,
    pub updated_at: String,
}

/// A copy of the disk of a VM.
#[derive(Debug)]
pub struct SnapshotRecord {
    pub id: u128,
    pub name: String,
    pub source_vm_name: String,
    pub file_path: String,
    pub created_at: String,
}

/// A disk image that VMs can be made from.
#[derive(Debug)]
pub struct ImageRecord {
    pub id: u128,
    pub name: String,
    /// The extension of the file that it was made from.
    pub format: String,
    pub file_path: String,
    pub created_at: String,
}

impl Named for HostGroupRecord {
    open spec fn key(&self) -> Seq<char> {
        self.name@
    }

    fn name(&self) -> (s: &String) {
        &self.name
    }
}

impl Named for ServiceRecord {
    open spec fn key(&self) -> Seq<char> {
        self.name@
    }

    fn name(&self) -> (s: &String) {
        &self.name
    }
}

impl Named for SnapshotRecord {
    open spec fn key(&self) -> Seq<char> {
        self.name@
    }

    fn name(&self) -> (s: &String) {
        &self.name
    }
}

impl Named for ImageRecord {
    open spec fn key(&self) -> Seq<char> {
        self.name@
    }

    fn name(&self) -> (s: &String) {
        &self.name
    }
}

/// A request for a host group.
#[derive(Debug)]
pub struct CreateHostGroupRequest {
    pub name: String,
    pub description: Option<String>,
}

/// A request for a service.
#[derive(Debug)]
pub struct CreateServiceRequest {
    pub name: String,
    /// The name of the host group that the service belongs to.
    pub host_group: Option<String>,
    pub desired_instances: u32,
    pub image: Option<String>,
}

/// A request for a snapshot of the disk of the VM that is named.
#[derive(Debug)]
pub struct CreateSnapshotRequest {
    pub name: String,
    pub vm: String,
}

/// A request for an image.
#[derive(Debug)]
pub struct CreateImageRequest {
    pub name: String,
    pub source_path: String,
}

/// A file that is to be copied.
#[derive(Debug)]
pub struct CopyPlan {
    pub source: String,
    pub target: String,
}

/// The file of a snapshot.
pub open spec fn snapshot_file(data_dir: Seq<char>, name: Seq<char>) -> Seq<char> {
    path::joined(path::joined(path::joined(data_dir, "images"@), "snapshots"@), name + ".ext4"@)
}

/// The file of an image.
pub open spec fn image_file(data_dir: Seq<char>, name: Seq<char>, format: Seq<char>) -> Seq<char> {
    path::joined(path::joined(data_dir, "images"@), name + "."@ + format)
}

/// Where the last of a character stands, or -1.
pub open spec fn last_index(s: Seq<char>, c: char) -> int
    decreases s.len(),
{
    if s.len() == 0 {
        -1
    } else if s.last() == c {
        s.len() - 1
    } else {
        last_index(s.drop_last(), c)
    }
}

/// The format of an image that is made from the given file: what follows the last dot of the
/// file's name, and "raw" where there is none.
pub open spec fn format_of(file: Seq<char>) -> Seq<char> {
    let name = file.skip(last_index(file, '/') + 1);
    let dot = last_index(name, '.');
    if dot > 0 && dot + 1 < name.len() {
        name.skip(dot + 1)
    } else {
        "raw"@
    }
}

proof fn lemma_last_index(s: Seq<char>, c: char)
    ensures
        -1 <= last_index(s, c) < s.len(),
    decreases s.len(),
{
    if s.len() > 0 && s.last() != c {
        lemma_last_index(s.drop_last(), c);
    }
}

fn find_last(v: &[char], c: char) -> (r: Option<usize>)
    ensures
        match r {
            Some(i) => i == last_index(v@, c),
            None => last_index(v@, c) == -1,
        },
{
    let mut i: usize = v.len();
    proof {
        assert(v@.take(i as int) =~= v@);
    }
    while i > 0
        invariant
            i <= v@.len(),
            last_index(v@, c) == last_index(v@.take(i as int), c),
        decreases i,
    {
        proof {
            assert(v@.take(i as int).drop_last() =~= v@.take(i - 1));
            assert(v@.take(i as int).last() == v@[i - 1]);
        }
        i -= 1;
        if v[i] == c {
            return Some(i);
        }
    }
    None
}

fn format_text(file: &str) -> (s: String)
    ensures
        s@ == format_of(file@),
{
    let v = chars_of(file);
    let n = v.len();
    proof {
        assert(v@ == file@);
        lemma_last_index(v@, '/');
    }
    let start: usize = match find_last(v.as_slice(), '/') {
        Some(i) => i + 1,
        None => 0,
    };
    let name = vstd::slice::slice_subrange(v.as_slice(), start, n);
    proof {
        assert(name@ =~= file@.skip(last_index(file@, '/') + 1));
        lemma_last_index(name@, '.');
    }
    match find_last(name, '.') {
        Some(dot) => if dot > 0 && dot + 1 < name.len() {
            let ext = vstd::slice::slice_subrange(name, dot + 1, name.len());
            proof {
                assert(ext@ =~= name@.skip(dot + 1));
            }
            string_of(ext)
        } else {
            "raw".to_owned()
        },
        None => "raw".to_owned(),
    }
}

/// The catalogs.
pub struct Inventory {
    pub host_groups: Catalog<HostGroupRecord>,
    pub services: Catalog<ServiceRecord>,
    pub snapshots: Catalog<SnapshotRecord>,
    pub images: Catalog<ImageRecord>,
}

impl Inventory {
    /// No catalog holds a name twice.
    pub open spec fn wf(&self) -> bool {
        &&& self.host_groups.wf()
        &&& self.services.wf()
        &&& self.snapshots.wf()
        &&& self.images.wf()
    }

    /// Empty catalogs.
    pub fn new() -> (c: Inventory)
        ensures
            c.wf(),
            c.host_groups.entries@.len() == 0,
            c.services.entries@.len() == 0,
            c.snapshots.entries@.len() == 0,
            c.images.entries@.len() == 0,
    {
        Inventory {
            host_groups: Catalog::new(),
            services: Catalog::new(),
            snapshots: Catalog::new(),
            images: Catalog::new(),
        }
    }

    /// Adds a host group.
    pub fn create_host_group(&mut self, req: CreateHostGroupRequest) -> (r: Result<(), CoreError>)
        requires
            old(self).wf(),
        ensures
            final(self).wf(),
            final(self).services == old(self).services,
            final(self).snapshots == old(self).snapshots,
            final(self).images == old(self).images,
            if old(self).host_groups.has(req.name@) {
                &&& r matches Err(e) && e@ == CoreErrorView::HostGroupAlreadyExists(req.name@)
                &&& final(self).host_groups == old(self).host_groups
            } else {
                &&& r is Ok
                &&& final(self).host_groups.entries@.len() > 0
                &&& final(self).host_groups.entries@.drop_last() == old(self).host_groups.entries@
                &&& {
                    let g = final(self).host_groups.entries@.last();
                    &&& ident::is_random_uuid(g.id)
                    &&& g.name == req.name
                    &&& g.description == req.description
                    &&& ident::is_utc(g.created_at@)
                    &&& g.updated_at@ == g.created_at@
                }
            },
    {
        if self.host_groups.position(req.name.as_str()).is_some() {
            return Err(CoreError::HostGroupAlreadyExists(req.name));
        }
        let now = current_time();
        self.host_groups.push(
            HostGroupRecord {
                id: new_uuid(),
                name: req.name,
                description: req.description,
                created_at: now.clone(),
                updated_at: now,
            },
        );
        proof {
            assert(self.host_groups.entries@.drop_last() =~= old(self).host_groups.entries@);
        }
        Ok(())
    }

    /// The host group with the given name.
    pub fn get_host_group(&self, name: &str) -> (r: Result<&HostGroupRecord, CoreError>)
        ensures
            match r {
                Ok(g) => self.host_groups.entries@.contains(*g) && g.name@ == name@,
                Err(e) => !self.host_groups.has(name@) && e@ == CoreErrorView::HostGroupNotFound(
                    name@,
                ),
            },
    {
        match self.host_groups.get(name) {
            Some(g) => Ok(g),
            None => Err(CoreError::HostGroupNotFound(name.to_owned())),
        }
    }

    /// Removes a host group. Services that belong to it keep its id.
    pub fn delete_host_group(&mut self, name: &str) -> (r: Result<(), CoreError>)
        requires
            old(self).wf(),
        ensures
            final(self).wf(),
            final(self).services == old(self).services,
            final(self).snapshots == old(self).snapshots,
            final(self).images == old(self).images,
            match r {
                Ok(_) => exists|i: int|
                    0 <= i < old(self).host_groups.entries@.len() && (#[trigger] old(
                        self).host_groups.entries@[i]).name@ == name@ && final(
                        self).host_groups.entries@ == old(self).host_groups.entries@.remove(
                        i,
                    ),
                Err(e) => {
                    &&& !old(self).host_groups.has(name@)
                    &&& e@ == CoreErrorView::HostGroupNotFound(name@)
                    &&& final(self).host_groups == old(self).host_groups
                },
            },
    {
        match self.host_groups.remove(name) {
            Some(_) => Ok(()),
            None => Err(CoreError::HostGroupNotFound(name.to_owned())),
        }
    }

    /// Adds a service. There has to be an instance of it at least, and its host group has to be
    /// known.
    pub fn create_service(&mut self, req: CreateServiceRequest) -> (r: Result<(), CoreError>)
        requires
            old(self).wf(),
        ensures
            final(self).wf(),
            final(self).host_groups == old(self).host_groups,
            final(self).snapshots == old(self).snapshots,
            final(self).images == old(self).images,
            r is Err ==> final(self).services == old(self).services,
            if req.desired_instances == 0 {
                r matches Err(e) && e@ == CoreErrorView::InvalidArgument(
                    "desired_instances must be at least 1"@,
                )
            } else if req.host_group matches Some(g) && !old(self).host_groups.has(g@) {
                r matches Err(e) && e@ == CoreErrorView::HostGroupNotFound((req.host_group->0)@)
            } else if old(self).services.has(req.name@) {
                r matches Err(e) && e@ == CoreErrorView::ServiceAlreadyExists(req.name@)
            } else {
                &&& r is Ok
                &&& final(self).services.entries@.len() > 0
                &&& final(self).services.entries@.drop_last() == old(self).services.entries@
                &&& {
                    let s = final(self).services.entries@.last();
                    &&& ident::is_random_uuid(s.id)
                    &&& s.name == req.name
                    &&& s.desired_instances == req.desired_instances
                    &&& s.image == req.image
                    &&& ident::is_utc(s.created_at@)
                    &&& s.updated_at@ == s.created_at@
                    &&& match req.host_group {
                        Some(g) => exists|h: HostGroupRecord| #[trigger]
                            old(self).host_groups.entries@.contains(h) && h.name@ == g@
                                && s.host_group_id == Some(h.id),
                        None => s.host_group_id is None,
                    }
                }
            },
    {
        if req.desired_instances == 0 {
            return Err(
                CoreError::InvalidArgument("desired_instances must be at least 1".to_owned()),
            );
        }
        let host_group_id = match &req.host_group {
            Some(g) => match self.host_groups.get(g.as_str()) {
                Some(h) => {
                    proof {
                        let k = choose|k: int|
                            0 <= k < self.host_groups.entries@.len() && self.host_groups.entries@[k]
                                == *h;
                        assert(self.host_groups.entries@[k].key() == g@);
                        assert(self.host_groups.has(g@));
                    }
                    Some(h.id)
                },
                None => return Err(CoreError::HostGroupNotFound(g.clone())),
            },
            None => None,
        };
        if self.services.position(req.name.as_str()).is_some() {
            return Err(CoreError::ServiceAlreadyExists(req.name));
        }
        let now = current_time();
        self.services.push(
            ServiceRecord {
                id: new_uuid(),
                name: req.name,
                host_group_id,
                desired_instances: req.desired_instances,
                image: req.image,
                created_at: now.clone(),
                updated_at: now,
            },
        );
        proof {
            assert(self.services.entries@.drop_last() =~= old(self).services.entries@);
        }
        Ok(())
    }

    /// The service with the given name.
    pub fn get_service(&self, name: &str) -> (r: Result<&ServiceRecord, CoreError>)
        ensures
            match r {
                Ok(s) => self.services.entries@.contains(*s) && s.name@ == name@,
                Err(e) => !self.services.has(name@) && e@ == CoreErrorView::ServiceNotFound(name@),
            },
    {
        match self.services.get(name) {
            Some(s) => Ok(s),
            None => Err(CoreError::ServiceNotFound(name.to_owned())),
        }
    }

    /// Changes how many instances there should be of a service.
    pub fn scale_service(&mut self, name: &str, desired_instances: u32) -> (r: Result<
        (),
        CoreError,
    >)
        requires
            old(self).wf(),
        ensures
            final(self).wf(),
            final(self).host_groups == old(self).host_groups,
            final(self).snapshots == old(self).snapshots,
            final(self).images == old(self).images,
            match r {
                Ok(_) => {
                    &&& desired_instances > 0
                    &&& exists|i: int|
                        0 <= i < old(self).services.entries@.len() && {
                            let s = #[trigger] old(self).services.entries@[i];
                            let t = final(self).services.entries@[i];
                            &&& s.name@ == name@
                            &&& final(self).services.entries@ == old(
                                self).services.entries@.update(i, t)
                            &&& t.desired_instances == desired_instances
                            &&& ident::is_utc(t.updated_at@)
                            &&& t.id == s.id
                            &&& t.name == s.name
                            &&& t.host_group_id == s.host_group_id
                            &&& t.image == s.image
                            &&& t.created_at == s.created_at
                        }
                },
                Err(e) => {
                    &&& final(self).services == old(self).services
                    &&& if desired_instances == 0 {
                        e@ == CoreErrorView::InvalidArgument("desired_instances must be at least 1"@)
                    } else {
                        !old(self).services.has(name@) && e@ == CoreErrorView::ServiceNotFound(name@)
                    }
                },
            },
    {
        if desired_instances == 0 {
            return Err(
                CoreError::InvalidArgument("desired_instances must be at least 1".to_owned()),
            );
        }
        match self.services.position(name) {
            Some(i) => {
                let ghost before = self.services.entries@;
                self.services.entries[i].desired_instances = desired_instances;
                self.services.entries[i].updated_at = current_time();
                proof {
                    let after = self.services.entries@;
                    assert(before[i as int].name@ == name@);
                    assert(after =~= before.update(i as int, after[i as int]));
                    assert forall|a: int, b: int| 0 <= a < b < after.len() implies (
                    #[trigger] after[a]).key() != (#[trigger] after[b]).key() by {
                        assert(after[a].key() == before[a].key());
                        assert(after[b].key() == before[b].key());
                    }
                }
                Ok(())
            },
            None => Err(CoreError::ServiceNotFound(name.to_owned())),
        }
    }

    /// Removes a service.
    pub fn delete_service(&mut self, name: &str) -> (r: Result<(), CoreError>)
        requires
            old(self).wf(),
        ensures
            final(self).wf(),
            final(self).host_groups == old(self).host_groups,
            final(self).snapshots == old(self).snapshots,
            final(self).images == old(self).images,
            match r {
                Ok(_) => exists|i: int|
                    0 <= i < old(self).services.entries@.len() && (#[trigger] old(
                        self).services.entries@[i]).name@ == name@ && final(
                        self).services.entries@ == old(self).services.entries@.remove(i),
                Err(e) => {
                    &&& !old(self).services.has(name@)
                    &&& e@ == CoreErrorView::ServiceNotFound(name@)
                    &&& final(self).services == old(self).services
                },
            },
    {
        match self.services.remove(name) {
            Some(_) => Ok(()),
            None => Err(CoreError::ServiceNotFound(name.to_owned())),
        }
    }

    /// Plans a snapshot: which disk is to be copied where. The VM has to be stopped.
    pub fn create_snapshot(&self, core: &HuskCore, req: &CreateSnapshotRequest) -> (r: Result<
        CopyPlan,
        CoreError,
    >)
        ensures
            match r {
                Ok(plan) => {
                    &&& exists|v: VmRecordView| #[trigger]
                        core@.state.vms.contains(v) && v.name == req.vm@ && v.state == "stopped"@
                    &&& !self.snapshots.has(req.name@)
                    &&& plan.source@ == orchestrator::disk_path(core@.data_dir, req.vm@)
                    &&& plan.target@ == snapshot_file(core@.data_dir, req.name@)
                },
                Err(e) => if !core@.state.has_name(req.vm@) {
                    e@ == core@.missing(req.vm@)
                } else {
                    exists|v: VmRecordView| #[trigger]
                        core@.state.vms.contains(v) && v.name == req.vm@ && if v.state
                            != "stopped"@ {
                            e@ == orchestrator::wrong_state(v, "stopped"@)
                        } else {
                            &&& self.snapshots.has(req.name@)
                            &&& e@ == CoreErrorView::SnapshotAlreadyExists(req.name@)
                        }
                },
            },
    {
        let record = match core.get_vm(req.vm.as_str()) {
            Ok(record) => record,
            Err(e) => return Err(e),
        };
        proof {
            let k = choose|k: int| 0 <= k < core@.state.vms.len() && core@.state.vms[k] == record@;
            assert(core@.state.vms[k].name == req.vm@);
            assert(core@.state.has_name(req.vm@));
        }
        if !same_text(record.state.as_str(), "stopped") {
            return Err(
                CoreError::InvalidState {
                    name: record.name.clone(),
                    actual: record.state.clone(),
                    expected: "stopped".to_owned(),
                },
            );
        }
        if self.snapshots.position(req.name.as_str()).is_some() {
            return Err(CoreError::SnapshotAlreadyExists(req.name.clone()));
        }
        let vm_dir = core.storage.vm_dir(req.vm.as_str());
        let dir = join_path(core.storage.images_dir().as_str(), "snapshots");
        let mut file = req.name.clone();
        file.append(".ext4");
        Ok(
            CopyPlan {
                source: join_path(vm_dir.as_str(), "rootfs.ext4"),
                target: join_path(dir.as_str(), file.as_str()),
            },
        )
    }

    /// Records a snapshot whose file was written.
    pub fn finish_snapshot(
        &mut self,
        req: CreateSnapshotRequest,
        file_path: String,
    ) -> (r: Result<(), CoreError>)
        requires
            old(self).wf(),
        ensures
            final(self).wf(),
            final(self).host_groups == old(self).host_groups,
            final(self).services == old(self).services,
            final(self).images == old(self).images,
            if old(self).snapshots.has(req.name@) {
                &&& r matches Err(e) && e@ == CoreErrorView::SnapshotAlreadyExists(req.name@)
                &&& final(self).snapshots == old(self).snapshots
            } else {
                &&& r is Ok
                &&& final(self).snapshots.entries@.len() > 0
                &&& final(self).snapshots.entries@.drop_last() == old(self).snapshots.entries@
                &&& {
                    let s = final(self).snapshots.entries@.last();
                    &&& ident::is_random_uuid(s.id)
                    &&& s.name == req.name
                    &&& s.source_vm_name == req.vm
                    &&& s.file_path == file_path
                    &&& ident::is_utc(s.created_at@)
                }
            },
    {
        if self.snapshots.position(req.name.as_str()).is_some() {
            return Err(CoreError::SnapshotAlreadyExists(req.name));
        }
        self.snapshots.push(
            SnapshotRecord {
                id: new_uuid(),
                name: req.name,
                source_vm_name: req.vm,
                file_path,
                created_at: current_time(),
            },
        );
        proof {
            assert(self.snapshots.entries@.drop_last() =~= old(self).snapshots.entries@);
        }
        Ok(())
    }

    /// The snapshot with the given name.
    pub fn get_snapshot(&self, name: &str) -> (r: Result<&SnapshotRecord, CoreError>)
        ensures
            match r {
                Ok(s) => self.snapshots.entries@.contains(*s) && s.name@ == name@,
                Err(e) => !self.snapshots.has(name@) && e@ == CoreErrorView::SnapshotNotFound(name@),
            },
    {
        match self.snapshots.get(name) {
            Some(s) => Ok(s),
            None => Err(CoreError::SnapshotNotFound(name.to_owned())),
        }
    }

    /// The disk that a VM is to be made from when a snapshot is restored: the snapshot's file.
    pub fn restore_snapshot(&self, name: &str, req: CreateVmRequest) -> (r: Result<
        CreateVmRequest,
        CoreError,
    >)
        ensures
            match r {
                Ok(q) => exists|s: SnapshotRecord| #[trigger]
                    self.snapshots.entries@.contains(s) && s.name@ == name@ && q.rootfs_path@
                        == s.file_path@ && q == (CreateVmRequest {
                        rootfs_path: q.rootfs_path,
                        ..req
                    }),
                Err(e) => !self.snapshots.has(name@) && e@ == CoreErrorView::SnapshotNotFound(name@),
            },
    {
        match self.snapshots.get(name) {
            Some(s) => {
                let mut q = req;
                q.rootfs_path = s.file_path.clone();
                Ok(q)
            },
            None => Err(CoreError::SnapshotNotFound(name.to_owned())),
        }
    }

    /// Removes a snapshot, and says which file is to be removed with it.
    pub fn delete_snapshot(&mut self, name: &str) -> (r: Result<String, CoreError>)
        requires
            old(self).wf(),
        ensures
            final(self).wf(),
            final(self).host_groups == old(self).host_groups,
            final(self).services == old(self).services,
            final(self).images == old(self).images,
            match r {
                Ok(file) => exists|i: int|
                    0 <= i < old(self).snapshots.entries@.len() && (#[trigger] old(
                        self).snapshots.entries@[i]).name@ == name@ && old(
                        self).snapshots.entries@[i].file_path == file && final(
                        self).snapshots.entries@ == old(self).snapshots.entries@.remove(i),
                Err(e) => {
                    &&& !old(self).snapshots.has(name@)
                    &&& e@ == CoreErrorView::SnapshotNotFound(name@)
                    &&& final(self).snapshots == old(self).snapshots
                },
            },
    {
        match self.snapshots.remove(name) {
            Some(s) => Ok(s.file_path),
            None => Err(CoreError::SnapshotNotFound(name.to_owned())),
        }
    }

    /// Plans an image: which file is to be copied where.
    pub fn create_image(&self, data_dir: &str, req: &CreateImageRequest) -> (r: Result<
        CopyPlan,
        CoreError,
    >)
        ensures
            match r {
                Ok(plan) => {
                    &&& !self.images.has(req.name@)
                    &&& plan.source@ == req.source_path@
                    &&& plan.target@ == image_file(
                        data_dir@,
                        req.name@,
                        format_of(req.source_path@),
                    )
                },
                Err(e) => self.images.has(req.name@) && e@ == CoreErrorView::ImageAlreadyExists(
                    req.name@,
                ),
            },
    {
        if self.images.position(req.name.as_str()).is_some() {
            return Err(CoreError::ImageAlreadyExists(req.name.clone()));
        }
        let mut file = req.name.clone();
        file.append(".");
        file.append(format_text(req.source_path.as_str()).as_str());
        let dir = join_path(data_dir, "images");
        Ok(
            CopyPlan {
                source: req.source_path.clone(),
                target: join_path(dir.as_str(), file.as_str()),
            },
        )
    }

    /// Records an image whose file was written.
    pub fn finish_image(&mut self, req: CreateImageRequest, file_path: String) -> (r: Result<
        (),
        CoreError,
    >)
        requires
            old(self).wf(),
        ensures
            final(self).wf(),
            final(self).host_groups == old(self).host_groups,
            final(self).services == old(self).services,
            final(self).snapshots == old(self).snapshots,
            if old(self).images.has(req.name@) {
                &&& r matches Err(e) && e@ == CoreErrorView::ImageAlreadyExists(req.name@)
                &&& final(self).images == old(self).images
            } else {
                &&& r is Ok
                &&& final(self).images.entries@.len() > 0
                &&& final(self).images.entries@.drop_last() == old(self).images.entries@
                &&& {
                    let m = final(self).images.entries@.last();
                    &&& ident::is_random_uuid(m.id)
                    &&& m.name == req.name
                    &&& m.format@ == format_of(req.source_path@)
                    &&& m.file_path == file_path
                    &&& ident::is_utc(m.created_at@)
                }
            },
    {
        if self.images.position(req.name.as_str()).is_some() {
            return Err(CoreError::ImageAlreadyExists(req.name));
        }
        let format = format_text(req.source_path.as_str());
        self.images.push(
            ImageRecord {
                id: new_uuid(),
                name: req.name,
                format,
                file_path,
                created_at: current_time(),
            },
        );
        proof {
            assert(self.images.entries@.drop_last() =~= old(self).images.entries@);
        }
        Ok(())
    }

    /// The image with the given name.
    pub fn get_image(&self, name: &str) -> (r: Result<&ImageRecord, CoreError>)
        ensures
            match r {
                Ok(m) => self.images.entries@.contains(*m) && m.name@ == name@,
                Err(e) => !self.images.has(name@) && e@ == CoreErrorView::ImageNotFound(name@),
            },
    {
        match self.images.get(name) {
            Some(m) => Ok(m),
            None => Err(CoreError::ImageNotFound(name.to_owned())),
        }
    }

    /// Removes an image, and says which file is to be removed with it.
    pub fn delete_image(&mut self, name: &str) -> (r: Result<String, CoreError>)
        requires
            old(self).wf(),
        ensures
            final(self).wf(),
            final(self).host_groups == old(self).host_groups,
            final(self).services == old(self).services,
            final(self).snapshots == old(self).snapshots,
            match r {
                Ok(file) => exists|i: int|
                    0 <= i < old(self).images.entries@.len() && (#[trigger] old(
                        self).images.entries@[i]).name@ == name@ && old(
                        self).images.entries@[i].file_path == file && final(
                        self).images.entries@ == old(self).images.entries@.remove(i),
                Err(e) => {
                    &&& !old(self).images.has(name@)
                    &&& e@ == CoreErrorView::ImageNotFound(name@)
                    &&& final(self).images == old(self).images
                },
            },
    {
        match self.images.remove(name) {
            Some(m) => Ok(m.file_path),
            None => Err(CoreError::ImageNotFound(name.to_owned())),
        }
    }
}

proof fn lemma_last_index_in_front(a: Seq<char>, b: Seq<char>, c: char)
    requires
        !b.contains(c),
    ensures
        last_index(a + b, c) == last_index(a, c),
    decreases b.len(),
{
    if b.len() == 0 {
        assert(a + b =~= a);
    } else {
        assert(b.contains(b.last()));
        assert forall|k: int| 0 <= k < b.len() - 1 implies #[trigger] b.drop_last()[k] != c by {
            assert(b.contains(b[k]));
        }
        lemma_last_index_in_front(a, b.drop_last(), c);
        assert((a + b).drop_last() =~= a + b.drop_last());
        assert((a + b).last() == b.last());
    }
}

proof fn lemma_file_name(base: Seq<char>, name: Seq<char>)
    requires
        !name.contains('/'),
    ensures
        ({
            let file = path::joined(base, name);
            file.skip(last_index(file, '/') + 1) == name
        }),
{
    reveal_strlit("/");
    if name.len() > 0 {
        assert(name.contains(name[0]));
    }
    let front = if base.len() == 0 || base.last() == '/' {
        base
    } else {
        base.push('/')
    };
    let file = path::joined(base, name);
    assert(file =~= front + name);
    lemma_last_index_in_front(front, name, '/');
    assert(last_index(front, '/') == front.len() - 1);
    assert(file.skip(front.len() as int) =~= name);
}

/// The format of an image is told by its file: the copy of a file has the format of the file, and
/// the name of the file is the image's name, a dot and the format.
pub proof fn images_keep_their_format(data_dir: Seq<char>, name: Seq<char>, format: Seq<char>)
    requires
        name.len() > 0,
        !name.contains('/'),
        format.len() > 0,
        !format.contains('/'),
        !format.contains('.'),
    ensures
        format_of(image_file(data_dir, name, format)) == format,
        format_of(name + "."@ + format) == format,
        text::ends_with(image_file(data_dir, name, format), name + "."@ + format),
        text::starts_with(image_file(data_dir, name, format), path::joined(data_dir, "images"@)),
{
    reveal_strlit(".");
    let file = name + "."@ + format;
    let front = name.push('.');
    assert(file =~= front + format);
    assert forall|k: int| 0 <= k < file.len() implies #[trigger] file[k] != '/' by {
        if k < name.len() {
            assert(name.contains(name[k]));
        } else if k > name.len() {
            assert(format.contains(format[k - name.len() - 1]));
        }
    }
    let dir = path::joined(data_dir, "images"@);
    lemma_file_name(dir, file);
    lemma_file_name(seq![], file);
    lemma_last_index_in_front(front, format, '.');
    assert(last_index(front, '.') == name.len());
    assert(file.skip(name.len() as int + 1) =~= format);
    path::names_stay_apart(dir, file, file);
}

/// The format of an image has neither a dot nor a slash in it, and is not empty.
pub proof fn formats_are_plain(file: Seq<char>)
    ensures
        format_of(file).len() > 0,
        !format_of(file).contains('.'),
        !format_of(file).contains('/'),
{
    reveal_strlit("raw");
    let name = file.skip(last_index(file, '/') + 1);
    lemma_behind_the_last(file, '/');
    lemma_behind_the_last(name, '.');
    let dot = last_index(name, '.');
    if dot > 0 && dot + 1 < name.len() {
        let format = name.skip(dot + 1);
        assert forall|k: int| 0 <= k < format.len() implies #[trigger] format[k] != '/' by {
            assert(name.contains(name[dot + 1 + k]));
        }
    }
}

proof fn lemma_behind_the_last(s: Seq<char>, c: char)
    ensures
        -1 <= last_index(s, c) < s.len(),
        !s.skip(last_index(s, c) + 1).contains(c),
    decreases s.len(),
{
    lemma_last_index(s, c);
    let i = last_index(s, c);
    let tail = s.skip(i + 1);
    if s.len() > 0 && s.last() != c {
        let t = s.drop_last();
        lemma_behind_the_last(t, c);
        assert forall|k: int| 0 <= k < tail.len() implies #[trigger] tail[k] != c by {
            if k < tail.len() - 1 {
                assert(t.skip(i + 1)[k] == tail[k]);
                assert(t.skip(i + 1).contains(tail[k]));
            }
        }
    }
}

/// Different snapshots are kept in different files, below a directory that is for snapshots alone;
/// so are different images, which are kept beside that directory.
pub proof fn files_stay_apart(
    data_dir: Seq<char>,
    a: Seq<char>,
    b: Seq<char>,
    f: Seq<char>,
    g: Seq<char>,
)
    requires
        a.len() > 0 && !a.contains('/'),
        b.len() > 0 && !b.contains('/'),
        !f.contains('/') && !f.contains('.'),
        !g.contains('/') && !g.contains('.'),
    ensures
        a != b ==> snapshot_file(data_dir, a) != snapshot_file(data_dir, b),
        a != b ==> image_file(data_dir, a, f) != image_file(data_dir, b, g),
        text::ends_with(snapshot_file(data_dir, a), a + ".ext4"@),
        text::starts_with(
            snapshot_file(data_dir, a),
            path::joined(path::joined(data_dir, "images"@), "snapshots"@),
        ),
{
    reveal_strlit(".");
    reveal_strlit(".ext4");
    let images = path::joined(data_dir, "images"@);
    let snapshots = path::joined(images, "snapshots"@);
    assert(a.contains(a[0]) && b.contains(b[0]));
    path::names_stay_apart(snapshots, a + ".ext4"@, b + ".ext4"@);
    let x = a + ".ext4"@;
    let y = b + ".ext4"@;
    assert(x.take(x.len() - 5) =~= a);
    assert(y.take(y.len() - 5) =~= b);
    let p = a + "."@ + f;
    let q = b + "."@ + g;
    path::names_stay_apart(images, p, q);
    lemma_last_index_in_front(a.push('.'), f, '.');
    lemma_last_index_in_front(b.push('.'), g, '.');
    assert(p =~= a.push('.') + f);
    assert(q =~= b.push('.') + g);
    assert(last_index(p, '.') == a.len());
    assert(last_index(q, '.') == b.len());
    assert(p.take(a.len() as int) =~= a);
    assert(q.take(b.len() as int) =~= b);
}

} // verus!
