//! Port forwards of VMs: which rules they need, and how they are kept in the records.
use crate::ident;
use crate::ident::{current_time, format_uuid};
use crate::ip;
use crate::ip::parse_ip;
use crate::net;
use crate::net::{PlannedCommand, PlannedCommandView, TagMatch};
use crate::orchestrator::{CoreError, CoreErrorView, HuskCore, HuskCoreView};
use crate::state;
use crate::state::{
    PortForwardRecord, PortForwardView, StateError, StateErrorView, StateStoreView, VmRecord,
    VmRecordView,
};
use crate::text;
use crate::unread;
use vstd::prelude::*;
use vstd::string::*;

verus! {

/// Where the port forwards of a VM lead: the address of the guest and its TAP device, or what is
/// missing for it.
pub open spec fn forward_target(v: VmRecordView) -> Result<(u32, Seq<char>), Seq<char>> {
    match v.guest_ip {
        None => Err(": no guest IP"@),
        Some(guest) => match ip::ip_value(guest) {
            None => Err(": invalid guest IP"@),
            Some(addr) => match v.tap_device {
                None => Err(": no TAP device"@),
                Some(tap) => Ok((addr, tap)),
            },
        },
    }
}

/// The record of a new port forward.
pub open spec fn new_forward(id: u128, host_port: u16, guest_port: u16, now: Seq<char>) -> PortForwardView {
    PortForwardView {
        id: 0,
        vm_id: id,
        host_port,
        guest_port,
        protocol: "tcp"@,
        created_at: now,
    }
}

/// Why a port forward of the VM `id` cannot be recorded, if there is a reason: no id is left for it,
/// the host port is forwarded already, or the VM is gone.
pub open spec fn forward_fault(c: HuskCoreView, id: u128, host_port: u16) -> Option<CoreErrorView> {
    if c.state.last_forward_id == i64::MAX {
        Some(CoreErrorView::State(StateErrorView::Database("database or disk is full"@)))
    } else if c.state.has_port(host_port) || c.unread.has_port(host_port) {
        Some(CoreErrorView::PortAlreadyForwarded(host_port))
    } else if !c.state.has_id(id) {
        Some(CoreErrorView::VmNotFound(ident::uuid_text(id)))
    } else {
        None
    }
}

fn target_of(record: &VmRecord) -> (r: Result<(u32, &String), &'static str>)
    ensures
        match (r, forward_target(record@)) {
            (Ok((addr, tap)), Ok((want, want_tap))) => addr == want && tap@ == want_tap,
            (Err(m), Err(want)) => m@ == want,
            _ => false,
        },
{
    match &record.guest_ip {
        None => Err(": no guest IP"),
        Some(guest) => match parse_ip(guest.as_str()) {
            None => Err(": invalid guest IP"),
            Some(addr) => match &record.tap_device {
                None => Err(": no TAP device"),
                Some(tap) => Ok((addr, tap)),
            },
        },
    }
}

/// The commands that restore a port forward of the given VMs after the rules were lost, or
/// `None` where the VM cannot have one.
pub open spec fn restored(vms: Seq<VmRecordView>, f: PortForwardView, plan: Option<Seq<PlannedCommandView>>) -> bool {
    exists|v: VmRecordView| #[trigger]
        vms.contains(v) && v.id == f.vm_id && plan == (match forward_target(v) {
            Ok((addr, tap)) => Some(
                net::add_port_forward_plan(f.host_port, addr, f.guest_port, tap),
            ),
            Err(_) => None,
        })
}

/// The plan that restores one port forward.
pub open spec fn plan_view(plan: Option<Vec<PlannedCommand>>) -> Option<Seq<PlannedCommandView>> {
    match plan {
        Some(p) => Some(net::plan_of(p@)),
        None => None,
    }
}

impl HuskCore {
    /// Plans a port forward from a port of the host to a port of a VM: the id of the VM, and the
    /// rules to add.
    pub fn add_port_forward(&self, name: &str, host_port: u16, guest_port: u16) -> (r: Result<
        (u128, Vec<PlannedCommand>),
        CoreError,
    >)
        ensures
            match r {
                Ok((id, plan)) => exists|v: VmRecordView| #[trigger]
                    self@.state.vms.contains(v) && v.name == name@ && v.id == id && (forward_target(
                        v,
                    ) matches Ok((addr, tap)) && net::plan_of(plan@) == net::add_port_forward_plan(
                        host_port,
                        addr,
                        guest_port,
                        tap,
                    )),
                Err(e) => if !self@.state.has_name(name@) {
                    e@ == self@.missing(name@)
                } else {
                    exists|v: VmRecordView| #[trigger]
                        self@.state.vms.contains(v) && v.name == name@ && (forward_target(
                            v,
                        ) matches Err(missing) && e@ == CoreErrorView::VmNotFound(name@ + missing))
                },
            },
    {
        let record = match self.get_vm(name) {
            Ok(record) => record,
            Err(e) => return Err(e),
        };
        proof {
            let k = choose|k: int| 0 <= k < self@.state.vms.len() && self@.state.vms[k] == record@;
            assert(self@.state.vms[k].name == name@);
            assert(self@.state.has_name(name@));
        }
        match target_of(record) {
            Ok((addr, tap)) => Ok(
                (record.id, net::add_port_forward(host_port, addr, guest_port, tap.as_str())),
            ),
            Err(missing) => {
                let mut s = name.to_owned();
                s.append(missing);
                Err(CoreError::VmNotFound(s))
            },
        }
    }

    /// Records now a port forward whose rules are in place.
    pub fn finish_add_port_forward(&mut self, id: u128, host_port: u16, guest_port: u16) -> (r:
        Result<(), CoreError>)
        requires
            old(self).wf(),
        ensures
            final(self).wf(),
            match r {
                Ok(_) => {
                    &&& forward_fault(old(self)@, id, host_port) is None
                    &&& exists|now: Seq<char>| #[trigger]
                        ident::is_utc(now) && final(self)@ == old(self)@.with_records(
                            old(self)@.state.with_new_forward(
                                new_forward(id, host_port, guest_port, now),
                            ),
                        )
                },
                Err(e) => {
                    &&& final(self)@ == old(self)@
                    &&& forward_fault(old(self)@, id, host_port) == Some(e@)
                },
            },
    {
        let now = current_time();
        self.finish_add_port_forward_at(id, host_port, guest_port, now.as_str())
    }

    /// Records a port forward whose rules were added.
    pub fn finish_add_port_forward_at(
        &mut self,
        id: u128,
        host_port: u16,
        guest_port: u16,
        now: &str,
    ) -> (r: Result<(), CoreError>)
        requires
            old(self).wf(),
        ensures
            final(self).wf(),
            match r {
                Ok(_) => {
                    &&& forward_fault(old(self)@, id, host_port) is None
                    &&& final(self)@ == old(self)@.with_records(
                        old(self)@.state.with_new_forward(
                            new_forward(id, host_port, guest_port, now@),
                        ),
                    )
                },
                Err(e) => {
                    &&& final(self)@ == old(self)@
                    &&& forward_fault(old(self)@, id, host_port) == Some(e@)
                },
            },
    {
        let record = PortForwardRecord {
            id: 0,
            vm_id: id,
            host_port,
            guest_port,
            protocol: "tcp".to_owned(),
            created_at: now.to_owned(),
        };
        proof {
            assert(record@ == new_forward(id, host_port, guest_port, now@));
        }
        if self.state.last_forward_id < i64::MAX && self.unread.takes_port(host_port) {
            return Err(CoreError::PortAlreadyForwarded(host_port));
        }
        match self.state.insert_port_forward(record) {
            Ok(_) => {
                proof {
                    assert(self@ == old(self)@.with_records(self@.state));
                }
                Ok(())
            },
            Err(StateError::PortAlreadyForwarded(port)) => Err(CoreError::PortAlreadyForwarded(port)),
            Err(StateError::VmNotFound(id)) => Err(CoreError::VmNotFound(format_uuid(id))),
            Err(e) => Err(CoreError::State(e)),
        }
    }

    /// Plans the removal of a port forward of a VM, given the listing of the rules.
    pub fn remove_port_forward(&self, name: &str, host_port: u16, listing: Option<&str>) -> (r:
        Result<Vec<PlannedCommand>, CoreError>)
        ensures
            match r {
                Ok(plan) => exists|v: VmRecordView| #[trigger]
                    self@.state.vms.contains(v) && v.name == name@ && v.tap_device is Some
                        && net::plan_of(plan@) == (match listing {
                        Some(rules) => net::delete_rules_plan(
                            net::rules_in_text(
                                rules@,
                                net::forward_tag(v.tap_device->0, host_port),
                                TagMatch::Whole,
                            ),
                        ),
                        None => seq![],
                    }),
                Err(e) => if !self@.state.has_name(name@) {
                    e@ == self@.missing(name@)
                } else {
                    exists|v: VmRecordView| #[trigger]
                        self@.state.vms.contains(v) && v.name == name@ && v.tap_device is None && e@
                            == CoreErrorView::VmNotFound(name@ + ": no TAP device"@)
                },
            },
    {
        let record = match self.get_vm(name) {
            Ok(record) => record,
            Err(e) => return Err(e),
        };
        proof {
            let k = choose|k: int| 0 <= k < self@.state.vms.len() && self@.state.vms[k] == record@;
            assert(self@.state.vms[k].name == name@);
            assert(self@.state.has_name(name@));
        }
        match &record.tap_device {
            Some(tap) => Ok(net::remove_port_forward(host_port, tap.as_str(), listing)),
            None => {
                let mut s = name.to_owned();
                s.append(": no TAP device");
                Err(CoreError::VmNotFound(s))
            },
        }
    }

    /// Drops the record of a port forward whose rules were removed.
    pub fn finish_remove_port_forward(&mut self, host_port: u16)
        requires
            old(self).wf(),
        ensures
            final(self).wf(),
            final(self)@ == old(self)@.with_records(
                old(self)@.state.without_port(host_port),
            ).with_unread(old(self)@.unread.without_port(host_port)),
    {
        self.state.delete_port_forward(host_port);
        self.unread.remove_port(host_port);
        proof {
            assert(self@ == old(self)@.with_records(self@.state).with_unread(self@.unread));
        }
    }

    /// The port forwards of a VM, in the order of the host's ports. Fails with the first of them
    /// whose row could not be read.
    pub fn list_port_forwards(&self, name: &str) -> (r: Result<Vec<&PortForwardRecord>, CoreError>)
        ensures
            match r {
                Ok(list) => exists|v: VmRecordView| #[trigger]
                    self@.state.vms.contains(v) && v.name == name@ && !unread::has_forward_of(
                        self@.unread.forwards,
                        ident::uuid_text(v.id),
                    ) && state::by_host_port(
                        state::forward_ref_views(list@),
                    ) && state::forward_ref_views(list@).to_multiset() == state::forwards_of(
                        self@.state.forwards,
                        v.id,
                    ).to_multiset(),
                Err(e) => if !self@.state.has_name(name@) {
                    e@ == self@.missing(name@)
                } else {
                    exists|v: VmRecordView| #[trigger]
                        self@.state.vms.contains(v) && v.name == name@ && (
                        e@ matches CoreErrorView::State(fault) && unread::is_first_forward_fault(
                            self@.unread.forwards,
                            ident::uuid_text(v.id),
                            fault,
                        ))
                },
            },
    {
        let record = match self.get_vm(name) {
            Ok(record) => record,
            Err(e) => return Err(e),
        };
        proof {
            let k = choose|k: int| 0 <= k < self@.state.vms.len() && self@.state.vms[k] == record@;
            assert(self@.state.vms[k].name == name@);
            assert(self@.state.has_name(name@));
        }
        match self.unread.forward_of(record.id) {
            Some(e) => Err(CoreError::State(e)),
            None => Ok(self.state.list_port_forwards_for_vm(record.id)),
        }
    }

    /// Plans to restore the rules of all recorded port forwards. For each of them, in the order
    /// of their ids, the rules to add; `None` for one whose VM has no usable address or TAP
    /// device, which is passed over.
    pub fn reconcile_port_forwards_from_state(&self) -> (plans: Vec<Option<Vec<PlannedCommand>>>)
        requires
            self.wf(),
        ensures
            plans@.len() == self@.state.forwards.len(),
            forall|i: int|
                0 <= i < plans@.len() ==> restored(
                    self@.state.vms,
                    self@.state.forwards[i],
                    plan_view(#[trigger] plans@[i]),
                ),
    {
        let mut plans: Vec<Option<Vec<PlannedCommand>>> = Vec::new();
        let mut i: usize = 0;
        while i < self.state.forwards.len()
            invariant
                self.wf(),
                i <= self.state.forwards@.len(),
                plans@.len() == i,
                forall|j: int|
                    0 <= j < i ==> restored(
                        self@.state.vms,
                        self@.state.forwards[j],
                        plan_view(#[trigger] plans@[j]),
                    ),
            decreases self.state.forwards.len() - i,
        {
            let f = &self.state.forwards[i];
            proof {
                assert(self@.state.forwards[i as int] == f@);
                assert(self@.state.has_id(self@.state.forwards[i as int].vm_id));
            }
            let plan = match self.state.get_vm(f.vm_id) {
                Ok(record) => match target_of(record) {
                    Ok((addr, tap)) => Some(
                        net::add_port_forward(f.host_port, addr, f.guest_port, tap.as_str()),
                    ),
                    Err(_) => None,
                },
                Err(_) => None,
            };
            plans.push(plan);
            i += 1;
        }
        plans
    }
}

/// A port that was forwarded and then removed can be forwarded again.
pub proof fn removed_port_can_be_forwarded_again(
    s: StateStoreView,
    id: u128,
    host_port: u16,
    guest_port: u16,
    now: Seq<char>,
)
    requires
        s.wf(),
        !s.has_port(host_port),
        s.last_forward_id < i64::MAX,
    ensures
        s.with_new_forward(new_forward(id, host_port, guest_port, now)).has_port(host_port),
        !s.with_new_forward(new_forward(id, host_port, guest_port, now)).without_port(
            host_port,
        ).has_port(host_port),
        s.with_new_forward(new_forward(id, host_port, guest_port, now)).without_port(
            host_port,
        ).forwards == s.forwards,
{
    let t = s.with_new_forward(new_forward(id, host_port, guest_port, now));
    assert(t.forwards.last().host_port == host_port);
    assert(t.forwards.drop_last() =~= s.forwards);
    lemma_all_kept(s.forwards, host_port);
    assert forall|k: int| 0 <= k < s.forwards.len() implies (#[trigger] s.forwards[k]).host_port
        != host_port by {}
}

proof fn lemma_all_kept(v: Seq<PortForwardView>, port: u16)
    requires
        forall|k: int| 0 <= k < v.len() ==> (#[trigger] v[k]).host_port != port,
    ensures
        state::ports_except(v, port) == v,
    decreases v.len(),
{
    if v.len() > 0 {
        assert forall|k: int| 0 <= k < v.drop_last().len() implies (#[trigger] v.drop_last()[k]).host_port != port by {
            assert(v.drop_last()[k] == v[k]);
        }
        lemma_all_kept(v.drop_last(), port);
        assert(v.drop_last().push(v.last()) =~= v);
    }
}

/// A port forward that was recorded is restored as it was added: to the same guest and the same
/// port of it, by rules for the protocol that the record names.
pub proof fn recorded_forward_is_restored(
    vms: Seq<VmRecordView>,
    v: VmRecordView,
    host_port: u16,
    guest_port: u16,
    now: Seq<char>,
    plan: Option<Seq<PlannedCommandView>>,
)
    requires
        vms.contains(v),
        forall|a: VmRecordView, b: VmRecordView|
            #![trigger vms.contains(a), vms.contains(b)]
            vms.contains(a) && vms.contains(b) && a.id == b.id ==> a == b,
        forward_target(v) is Ok,
        restored(vms, new_forward(v.id, host_port, guest_port, now), plan),
    ensures
        plan == Some(
            net::add_port_forward_plan(
                host_port,
                (forward_target(v)->Ok_0).0,
                guest_port,
                (forward_target(v)->Ok_0).1,
            ),
        ),
        plan matches Some(rules) && text::argument(
            rules[0].command.args,
            new_forward(v.id, host_port, guest_port, now).protocol,
        ) == Some("dport"@),
{
    let (addr, tap) = forward_target(v)->Ok_0;
    crate::traffic::forward_reaches_the_guest(host_port, addr, guest_port, tap);
}

/// A port forward that was recorded is listed for its VM, with the ports that were asked for, and
/// all that were recorded before stay as they were, each under an id of its own.
pub proof fn recorded_forward_is_listed(
    s: StateStoreView,
    id: u128,
    host_port: u16,
    guest_port: u16,
    now: Seq<char>,
)
    requires
        s.last_forward_id < i64::MAX,
    ensures
        ({
            let t = s.with_new_forward(new_forward(id, host_port, guest_port, now));
            let f = t.forwards.last();
            &&& t.forwards.drop_last() == s.forwards
            &&& f.vm_id == id && f.host_port == host_port && f.guest_port == guest_port
                && f.created_at == now
            &&& f.id == s.last_forward_id + 1 && t.last_forward_id == f.id
            &&& state::forwards_of(t.forwards, id) == state::forwards_of(s.forwards, id).push(f)
            &&& forall|other: u128|
                other != id ==> #[trigger] state::forwards_of(t.forwards, other)
                    == state::forwards_of(s.forwards, other)
            &&& t.vms == s.vms && t.next_cid == s.next_cid && t.freed_cids == s.freed_cids
        }),
{
    let t = s.with_new_forward(new_forward(id, host_port, guest_port, now));
    assert(t.forwards.drop_last() =~= s.forwards);
}

/// A host port leads to one place: one that is forwarded, be it by a row that could not be read, is
/// refused, and one that was just forwarded as well. A VM that is not there cannot be led to.
pub proof fn taken_port_is_refused(
    c: HuskCoreView,
    id: u128,
    other: u128,
    host_port: u16,
    guest_port: u16,
    now: Seq<char>,
)
    requires
        c.state.last_forward_id < i64::MAX - 1,
    ensures
        c.state.has_port(host_port) || c.unread.has_port(host_port) ==> forward_fault(
            c,
            id,
            host_port,
        ) == Some(CoreErrorView::PortAlreadyForwarded(host_port)),
        !c.state.has_id(id) ==> forward_fault(c, id, host_port) is Some,
        forward_fault(c, id, host_port) is None <==> c.state.has_id(id) && !c.state.has_port(
            host_port,
        ) && !c.unread.has_port(host_port),
        forward_fault(
            c.with_records(c.state.with_new_forward(new_forward(id, host_port, guest_port, now))),
            other,
            host_port,
        ) == Some(CoreErrorView::PortAlreadyForwarded(host_port)),
{
    let t = c.state.with_new_forward(new_forward(id, host_port, guest_port, now));
    assert(t.forwards[t.forwards.len() - 1].host_port == host_port);
    assert(t.has_port(host_port));
}

} // verus!
