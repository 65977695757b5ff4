//! Rows of the tables that could not be read. They stay as they are, and whatever concerns them is
//! answered with what is wrong with them; all other records can be used.
use crate::ident;
use crate::ident::format_uuid;
use crate::state::{
    PortForwardRow, PortForwardRowView, StateError, StateErrorView, VmRow, VmRowView,
};
use crate::text;
use crate::text::{comes_before_or_same, same_text};
use vstd::prelude::*;
use vstd::string::*;

verus! {

/// A row of the table of VMs that could not be read, and why.
#[derive(Debug)]
pub struct UnreadVm {
    pub row: VmRow,
    pub error: StateError,
}

/// A row of the table of port forwards that could not be read, and why.
#[derive(Debug)]
pub struct UnreadForward {
    pub row: PortForwardRow,
    pub error: StateError,
}

/// An unread VM, over sequences.
pub struct UnreadVmView {
    pub row: VmRowView,
    pub error: StateErrorView,
}

/// An unread port forward, over sequences.
pub struct UnreadForwardView {
    pub row: PortForwardRowView,
    pub error: StateErrorView,
}

impl View for UnreadVm {
    type V = UnreadVmView;

    open spec fn view(&self) -> UnreadVmView {
        UnreadVmView { row: self.row@, error: self.error@ }
    }
}

impl View for UnreadForward {
    type V = UnreadForwardView;

    open spec fn view(&self) -> UnreadForwardView {
        UnreadForwardView { row: self.row@, error: self.error@ }
    }
}

/// The rows that could not be read.
#[derive(Debug)]
pub struct UnreadRows {
    pub vms: Vec<UnreadVm>,
    pub forwards: Vec<UnreadForward>,
}

/// The rows that could not be read, over sequences.
pub struct UnreadRowsView {
    pub vms: Seq<UnreadVmView>,
    pub forwards: Seq<UnreadForwardView>,
}

/// Unread VMs, over sequences.
pub open spec fn vm_views(v: Seq<UnreadVm>) -> Seq<UnreadVmView> {
    v.map_values(|u: UnreadVm| u@)
}

/// Unread port forwards, over sequences.
pub open spec fn forward_views(v: Seq<UnreadForward>) -> Seq<UnreadForwardView> {
    v.map_values(|u: UnreadForward| u@)
}

impl View for UnreadRows {
    type V = UnreadRowsView;

    open spec fn view(&self) -> UnreadRowsView {
        UnreadRowsView { vms: vm_views(self.vms@), forwards: forward_views(self.forwards@) }
    }
}

/// What is wrong with the first unread VM of the given name, if there is one.
pub open spec fn fault_named(vms: Seq<UnreadVmView>, name: Seq<char>) -> Option<StateErrorView>
    decreases vms.len(),
{
    if vms.len() == 0 {
        None
    } else {
        match fault_named(vms.drop_last(), name) {
            Some(e) => Some(e),
            None => if vms.last().row.name == name {
                Some(vms.last().error)
            } else {
                None
            },
        }
    }
}

/// Whether `e` is what is wrong with the unread VM that comes first in the order of the creation
/// times, compared as text.
pub open spec fn is_first_fault(vms: Seq<UnreadVmView>, e: StateErrorView) -> bool {
    exists|i: int|
        0 <= i < vms.len() && (#[trigger] vms[i]).error == e && forall|j: int|
            0 <= j < vms.len() ==> text::text_le(
                vms[i].row.created_at,
                (#[trigger] vms[j]).row.created_at,
            )
}

/// Whether there is an unread port forward of the VM with the given id.
pub open spec fn has_forward_of(forwards: Seq<UnreadForwardView>, id: Seq<char>) -> bool {
    exists|i: int| 0 <= i < forwards.len() && (#[trigger] forwards[i]).row.vm_id == id
}

/// Whether `e` is what is wrong with the unread port forward of the VM with the given id that comes
/// first in the order of the host ports.
pub open spec fn is_first_forward_fault(
    forwards: Seq<UnreadForwardView>,
    id: Seq<char>,
    e: StateErrorView,
) -> bool {
    exists|i: int|
        0 <= i < forwards.len() && (#[trigger] forwards[i]).row.vm_id == id && forwards[i].error
            == e && forall|j: int|
            0 <= j < forwards.len() && (#[trigger] forwards[j]).row.vm_id == id
                ==> forwards[i].row.host_port <= forwards[j].row.host_port
}

/// The unread port forwards that are kept, in order: those of other VMs than the one with the id
/// `vm_id`, and from other host ports than `port`.
pub open spec fn kept_forwards(
    forwards: Seq<UnreadForwardView>,
    vm_id: Option<Seq<char>>,
    port: Option<u16>,
) -> Seq<UnreadForwardView>
    decreases forwards.len(),
{
    if forwards.len() == 0 {
        seq![]
    } else {
        let before = kept_forwards(forwards.drop_last(), vm_id, port);
        let row = forwards.last().row;
        if vm_id == Some(row.vm_id) || (port matches Some(port) && row.host_port == port) {
            before
        } else {
            before.push(forwards.last())
        }
    }
}

impl UnreadRowsView {
    /// No row is unread.
    pub open spec fn none() -> UnreadRowsView {
        UnreadRowsView { vms: seq![], forwards: seq![] }
    }

    /// Whether an unread port forward takes the host port.
    pub open spec fn has_port(self, port: u16) -> bool {
        exists|i: int|
            0 <= i < self.forwards.len() && (#[trigger] self.forwards[i]).row.host_port == port
    }

    /// The rows after the VM `id` and with it its port forwards were removed.
    pub open spec fn without_vm(self, id: u128) -> UnreadRowsView {
        UnreadRowsView {
            forwards: kept_forwards(self.forwards, Some(ident::uuid_text(id)), None),
            ..self
        }
    }

    /// The rows after the forward of a host port was removed.
    pub open spec fn without_port(self, port: u16) -> UnreadRowsView {
        UnreadRowsView { forwards: kept_forwards(self.forwards, None, Some(port)), ..self }
    }
}

impl UnreadRows {
    /// No rows.
    pub fn none() -> (u: UnreadRows)
        ensures
            u@ == UnreadRowsView::none(),
    {
        let u = UnreadRows { vms: Vec::new(), forwards: Vec::new() };
        proof {
            assert(u@.vms =~= seq![]);
            assert(u@.forwards =~= seq![]);
        }
        u
    }

    /// What is wrong with the unread VM of the given name, if there is one.
    pub fn vm_named(&self, name: &str) -> (r: Option<StateError>)
        ensures
            match r {
                Some(e) => fault_named(self@.vms, name@) == Some(e@),
                None => fault_named(self@.vms, name@) is None,
            },
    {
        let mut i: usize = 0;
        proof {
            assert(self@.vms.take(0) =~= seq![]);
        }
        while i < self.vms.len()
            invariant
                i <= self.vms@.len(),
                fault_named(self@.vms.take(i as int), name@) is None,
            decreases self.vms.len() - i,
        {
            proof {
                let next = self@.vms.take(i + 1);
                assert(next.drop_last() =~= self@.vms.take(i as int));
                assert(next.last() == self.vms@[i as int]@);
            }
            if same_text(self.vms[i].row.name.as_str(), name) {
                proof {
                    lemma_first_fault_stays(self@.vms, i + 1, name@);
                }
                return Some(self.vms[i].error.copy());
            }
            i = i + 1;
        }
        proof {
            assert(self@.vms.take(i as int) =~= self@.vms);
        }
        None
    }

    /// What is wrong with the unread VM that was created first, if there is one.
    pub fn first_vm(&self) -> (r: Option<StateError>)
        ensures
            match r {
                Some(e) => is_first_fault(self@.vms, e@),
                None => self@.vms.len() == 0,
            },
    {
        if self.vms.len() == 0 {
            return None;
        }
        let mut first: usize = 0;
        let mut i: usize = 1;
        proof {
            lemma_text_le_reflexive(self@.vms[0].row.created_at);
        }
        while i < self.vms.len()
            invariant
                first < i <= self.vms@.len(),
                forall|j: int|
                    0 <= j < i ==> text::text_le(
                        self@.vms[first as int].row.created_at,
                        (#[trigger] self@.vms[j]).row.created_at,
                    ),
            decreases self.vms.len() - i,
        {
            proof {
                assert(self@.vms[i as int] == self.vms@[i as int]@);
                assert(self@.vms[first as int] == self.vms@[first as int]@);
            }
            if !comes_before_or_same(
                self.vms[first].row.created_at.as_str(),
                self.vms[i].row.created_at.as_str(),
            ) {
                proof {
                    let was = vstd::utf8::encode_utf8(self@.vms[first as int].row.created_at);
                    let now = vstd::utf8::encode_utf8(self@.vms[i as int].row.created_at);
                    text::lemma_bytes_le_total(was, now);
                    lemma_text_le_reflexive(self@.vms[i as int].row.created_at);
                    assert forall|j: int| 0 <= j < i implies text::text_le(
                        self@.vms[i as int].row.created_at,
                        (#[trigger] self@.vms[j]).row.created_at,
                    ) by {
                        let other = vstd::utf8::encode_utf8(self@.vms[j].row.created_at);
                        text::lemma_bytes_le_transitive(now, was, other);
                    }
                }
                first = i;
            }
            i = i + 1;
        }
        let e = self.vms[first].error.copy();
        proof {
            assert(self@.vms[first as int].error == e@);
        }
        Some(e)
    }

    /// What is wrong with the first unread port forward of the given VM, in the order of the host
    /// ports, if there is one.
    pub fn forward_of(&self, id: u128) -> (r: Option<StateError>)
        ensures
            match r {
                Some(e) => is_first_forward_fault(self@.forwards, ident::uuid_text(id), e@),
                None => !has_forward_of(self@.forwards, ident::uuid_text(id)),
            },
    {
        let text = format_uuid(id);
        let mut first: Option<usize> = None;
        let mut i: usize = 0;
        while i < self.forwards.len()
            invariant
                i <= self.forwards@.len(),
                text@ == ident::uuid_text(id),
                match first {
                    Some(k) => k < i && self@.forwards[k as int].row.vm_id == text@ && forall|j: int|
                        0 <= j < i && (#[trigger] self@.forwards[j]).row.vm_id == text@
                            ==> self@.forwards[k as int].row.host_port
                            <= self@.forwards[j].row.host_port,
                    None => forall|j: int|
                        0 <= j < i ==> (#[trigger] self@.forwards[j]).row.vm_id != text@,
                },
            decreases self.forwards.len() - i,
        {
            proof {
                assert(self@.forwards[i as int] == self.forwards@[i as int]@);
            }
            if same_text(self.forwards[i].row.vm_id.as_str(), text.as_str()) {
                let earlier = match first {
                    Some(k) => self.forwards[k].row.host_port <= self.forwards[i].row.host_port,
                    None => false,
                };
                if !earlier {
                    first = Some(i);
                }
            }
            i = i + 1;
        }
        match first {
            Some(k) => {
                let e = self.forwards[k].error.copy();
                proof {
                    assert(self@.forwards[k as int].error == e@);
                }
                Some(e)
            },
            None => None,
        }
    }

    /// Whether an unread port forward takes the host port.
    pub fn takes_port(&self, port: u16) -> (r: bool)
        ensures
            r == self@.has_port(port),
    {
        let mut i: usize = 0;
        while i < self.forwards.len()
            invariant
                i <= self.forwards@.len(),
                forall|k: int|
                    0 <= k < i ==> (#[trigger] self@.forwards[k]).row.host_port != port,
            decreases self.forwards.len() - i,
        {
            if self.forwards[i].row.host_port == port as i64 {
                proof {
                    assert(self@.forwards[i as int].row.host_port == port);
                }
                return true;
            }
            i = i + 1;
        }
        false
    }

    fn drop_forwards(&mut self, vm_id: Option<String>, port: Option<u16>)
        ensures
            final(self)@.vms == old(self)@.vms,
            final(self)@.forwards == kept_forwards(
                old(self)@.forwards,
                text::opt_text(vm_id),
                port,
            ),
    {
        let mut all: Vec<UnreadForward> = Vec::new();
        std::mem::swap(&mut all, &mut self.forwards);
        let ghost whole = all@;
        let ghost id = text::opt_text(vm_id);
        let mut kept: Vec<UnreadForward> = Vec::new();
        proof {
            assert(forward_views(whole).take(0) =~= seq![]);
            assert(forward_views(kept@) =~= seq![]);
        }
        for f in it: all
            invariant
                it.seq() == whole,
                id == text::opt_text(vm_id),
                forward_views(kept@) == kept_forwards(
                    forward_views(whole).take(it.index() as int),
                    id,
                    port,
                ),
        {
            let ghost next = forward_views(whole).take(it.index() as int + 1);
            let ghost before = forward_views(kept@);
            proof {
                assert(next.drop_last() =~= forward_views(whole).take(it.index() as int));
                assert(next.last() == f@);
            }
            let of_vm = match &vm_id {
                Some(vm_id) => same_text(f.row.vm_id.as_str(), vm_id.as_str()),
                None => false,
            };
            let of_port = match port {
                Some(port) => f.row.host_port == port as i64,
                None => false,
            };
            if !of_vm && !of_port {
                kept.push(f);
                proof {
                    assert(forward_views(kept@) =~= before.push(f@));
                }
            }
        }
        proof {
            assert(forward_views(whole).take(whole.len() as int) =~= forward_views(whole));
        }
        self.forwards = kept;
    }

    /// Removes the unread port forwards of a VM that is removed.
    pub fn remove_vm(&mut self, id: u128)
        ensures
            final(self)@ == old(self)@.without_vm(id),
    {
        self.drop_forwards(Some(format_uuid(id)), None);
    }

    /// Removes the unread forward of a host port.
    pub fn remove_port(&mut self, port: u16)
        ensures
            final(self)@ == old(self)@.without_port(port),
    {
        self.drop_forwards(None, Some(port));
    }
}

proof fn lemma_first_fault_stays(vms: Seq<UnreadVmView>, n: int, name: Seq<char>)
    requires
        0 <= n <= vms.len(),
        fault_named(vms.take(n), name) is Some,
    ensures
        fault_named(vms, name) == fault_named(vms.take(n), name),
    decreases vms.len(),
{
    if n < vms.len() {
        assert(vms.drop_last().take(n) =~= vms.take(n));
        lemma_first_fault_stays(vms.drop_last(), n, name);
    } else {
        assert(vms.take(n) =~= vms);
    }
}

proof fn lemma_text_le_reflexive(t: Seq<char>)
    ensures
        text::text_le(t, t),
{
    let b = vstd::utf8::encode_utf8(t);
    text::lemma_bytes_le_total(b, b);
}

/// A VM whose row could not be read is found by its name, and what is said of it is what is wrong
/// with a row of that name; for any other name nothing is said.
pub proof fn unread_vm_is_found(vms: Seq<UnreadVmView>, name: Seq<char>)
    ensures
        fault_named(vms, name) is Some <==> exists|i: int|
            0 <= i < vms.len() && (#[trigger] vms[i]).row.name == name,
        fault_named(vms, name) matches Some(e) ==> exists|i: int|
            0 <= i < vms.len() && (#[trigger] vms[i]).row.name == name && vms[i].error == e
                && forall|j: int| 0 <= j < i ==> (#[trigger] vms[j]).row.name != name,
    decreases vms.len(),
{
    if vms.len() > 0 {
        let init = vms.drop_last();
        let n = vms.len() - 1;
        unread_vm_is_found(init, name);
        if fault_named(init, name) is Some {
            let i = choose|i: int|
                0 <= i < init.len() && (#[trigger] init[i]).row.name == name && init[i].error
                    == fault_named(init, name)->0 && forall|j: int|
                    0 <= j < i ==> (#[trigger] init[j]).row.name != name;
            assert(vms[i].row.name == name);
            assert forall|j: int| 0 <= j < i implies (#[trigger] vms[j]).row.name != name by {
                assert(init[j].row.name != name);
            }
        } else {
            assert forall|j: int| 0 <= j < n implies (#[trigger] vms[j]).row.name != name by {
                assert(init[j].row.name != name);
            }
            assert(vms[n] == vms.last());
        }
    }
}

proof fn lemma_kept_forwards(
    forwards: Seq<UnreadForwardView>,
    vm_id: Option<Seq<char>>,
    port: Option<u16>,
    f: UnreadForwardView,
)
    ensures
        kept_forwards(forwards, vm_id, port).contains(f) <==> forwards.contains(f) && vm_id != Some(
            f.row.vm_id,
        ) && !(port matches Some(p) && f.row.host_port == p),
    decreases forwards.len(),
{
    let kept = kept_forwards(forwards, vm_id, port);
    if forwards.len() > 0 {
        let init = forwards.drop_last();
        let before = kept_forwards(init, vm_id, port);
        lemma_kept_forwards(init, vm_id, port, f);
        if init.contains(f) {
            let i = choose|i: int| 0 <= i < init.len() && init[i] == f;
            assert(forwards[i] == f);
        }
        if before.contains(f) {
            let i = choose|i: int| 0 <= i < before.len() && before[i] == f;
            assert(kept[i] == f);
        }
        if forwards.contains(f) && !init.contains(f) {
            let i = choose|i: int| 0 <= i < forwards.len() && forwards[i] == f;
            if i < init.len() {
                assert(init[i] == f);
            }
            assert(forwards.last() == f);
        }
        if f == forwards.last() {
            assert(forwards[forwards.len() - 1] == f);
            if kept.len() > before.len() {
                assert(kept[kept.len() - 1] == f);
            }
        }
        if kept.contains(f) && !before.contains(f) {
            let i = choose|i: int| 0 <= i < kept.len() && kept[i] == f;
            if i < before.len() {
                assert(before[i] == f);
            }
        }
    }
}

/// With a VM go the unread rows of its port forwards, and no others; with a host port the unread row
/// that takes it, and no other. The rows of VMs stay.
pub proof fn other_unread_rows_stay(u: UnreadRowsView, id: u128, port: u16, f: UnreadForwardView)
    ensures
        u.without_vm(id).forwards.contains(f) <==> u.forwards.contains(f) && f.row.vm_id
            != ident::uuid_text(id),
        u.without_port(port).forwards.contains(f) <==> u.forwards.contains(f) && f.row.host_port
            != port,
        u.without_vm(id).vms == u.vms,
        u.without_port(port).vms == u.vms,
        !u.without_port(port).has_port(port),
{
    lemma_kept_forwards(u.forwards, Some(ident::uuid_text(id)), None, f);
    lemma_kept_forwards(u.forwards, None, Some(port), f);
    let kept = u.without_port(port).forwards;
    assert forall|i: int| 0 <= i < kept.len() implies (#[trigger] kept[i]).row.host_port != port by {
        lemma_kept_forwards(u.forwards, None, Some(port), kept[i]);
        assert(kept.contains(kept[i]));
    }
}

} // verus!
