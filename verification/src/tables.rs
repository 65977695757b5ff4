//! The tables in which the records are kept between runs: what is written of them, and how they
//! are read again.
use crate::ident;
use crate::sorted::{numbers, put};
use crate::state;
use crate::state::{
    forward_to_row, row_to_port_forward, row_to_vm_record, vm_to_row, PortForwardRow,
    PortForwardRowView, PortForwardView, StateError, StateErrorView, StateStore, StateStoreView,
    VmRecordView, VmRow, VmRowView,
};
use crate::unread;
use crate::unread::{
    UnreadForward, UnreadForwardView, UnreadRows, UnreadRowsView, UnreadVm, UnreadVmView,
};
use crate::upkeep;
use std::collections::BTreeSet;
use vstd::prelude::*;

verus! {

/// What the tables hold.
pub struct Tables {
    pub vms: Vec<VmRow>,
    pub forwards: Vec<PortForwardRow>,
    /// The largest id that a port forward was ever given.
    pub last_forward_id: i64,
    /// The first context id that was never handed out.
    pub next_cid: i64,
    /// Context ids that came back.
    pub freed_cids: Vec<u32>,
}

/// What the tables hold, over sequences.
pub struct TablesView {
    pub vms: Seq<VmRowView>,
    pub forwards: Seq<PortForwardRowView>,
    pub last_forward_id: i64,
    pub next_cid: i64,
    pub freed_cids: Set<u32>,
}

/// Rows of VMs, over sequences.
pub open spec fn row_views(v: Seq<VmRow>) -> Seq<VmRowView> {
    v.map_values(|r: VmRow| r@)
}

/// Rows of port forwards, over sequences.
pub open spec fn forward_row_views(v: Seq<PortForwardRow>) -> Seq<PortForwardRowView> {
    v.map_values(|r: PortForwardRow| r@)
}

impl View for Tables {
    type V = TablesView;

    open spec fn view(&self) -> TablesView {
        TablesView {
            vms: row_views(self.vms@),
            forwards: forward_row_views(self.forwards@),
            last_forward_id: self.last_forward_id,
            next_cid: self.next_cid,
            freed_cids: self.freed_cids@.to_set(),
        }
    }
}

/// The tables for the records of a store and the rows that could not be read: first the rows for
/// the records, then the others as they were.
pub open spec fn tables_for(s: StateStoreView, u: UnreadRowsView) -> TablesView {
    TablesView {
        vms: s.vms.map_values(|v: VmRecordView| state::row_for(v)) + u.vms.map_values(
            |v: UnreadVmView| v.row,
        ),
        forwards: s.forwards.map_values(|f: PortForwardView| state::forward_row_for(f))
            + u.forwards.map_values(|f: UnreadForwardView| f.row),
        last_forward_id: s.last_forward_id,
        next_cid: s.next_cid,
        freed_cids: s.freed_cids,
    }
}

/// The records have the form in which they are kept: the times are written as times are, and port
/// forwards have ids that a table gives.
pub open spec fn kept_form(s: StateStoreView) -> bool {
    &&& forall|i: int|
        0 <= i < s.vms.len() ==> ident::is_utc((#[trigger] s.vms[i]).created_at) && ident::is_utc(
            s.vms[i].updated_at,
        )
    &&& forall|i: int|
        0 <= i < s.forwards.len() ==> ident::is_utc((#[trigger] s.forwards[i]).created_at)
            && s.forwards[i].id >= 1
}

/// The unread rows hold something that cannot be read, and their errors say what.
pub open spec fn rightly_unread(u: UnreadRowsView) -> bool {
    &&& forall|i: int|
        0 <= i < u.vms.len() ==> state::row_value((#[trigger] u.vms[i]).row) == Err::<
            VmRecordView,
            StateErrorView,
        >(u.vms[i].error)
    &&& forall|i: int|
        0 <= i < u.forwards.len() ==> state::forward_row_value((#[trigger] u.forwards[i]).row)
            == Err::<PortForwardView, StateErrorView>(u.forwards[i].error)
}

/// Whether there is a VM with the given id.
pub open spec fn id_in(vms: Seq<VmRecordView>, id: u128) -> bool {
    exists|i: int| 0 <= i < vms.len() && (#[trigger] vms[i]).id == id
}

/// Whether there is a VM with the given name.
pub open spec fn name_in(vms: Seq<VmRecordView>, name: Seq<char>) -> bool {
    exists|i: int| 0 <= i < vms.len() && (#[trigger] vms[i]).name == name
}

/// Whether a host port is forwarded.
pub open spec fn port_in(forwards: Seq<PortForwardView>, port: u16) -> bool {
    exists|i: int| 0 <= i < forwards.len() && (#[trigger] forwards[i]).host_port == port
}

/// The VM in a row that follows the given VMs, or why it cannot be taken over: the row cannot be
/// read, or its id or name has occurred before.
pub open spec fn vm_in(row: VmRowView, before: Seq<VmRecordView>) -> Result<
    VmRecordView,
    StateErrorView,
> {
    match state::row_value(row) {
        Err(e) => Err(e),
        Ok(v) => if id_in(before, v.id) || name_in(before, v.name) {
            Err(StateErrorView::VmAlreadyExists(v.name))
        } else {
            Ok(v)
        },
    }
}

/// The VMs in the rows of a table, and the rows that cannot be taken over.
pub open spec fn vms_in(rows: Seq<VmRowView>) -> (Seq<VmRecordView>, Seq<UnreadVmView>)
    decreases rows.len(),
{
    if rows.len() == 0 {
        (seq![], seq![])
    } else {
        let (vms, unread) = vms_in(rows.drop_last());
        match vm_in(rows.last(), vms) {
            Ok(v) => (vms.push(v), unread),
            Err(error) => (vms, unread.push(UnreadVmView { row: rows.last(), error })),
        }
    }
}

/// The port forward in a row that follows the given ones, or why it cannot be taken over: the row
/// cannot be read, its id is none that a table gives, its host port has occurred before, or its
/// VM is not there.
pub open spec fn forward_in(
    row: PortForwardRowView,
    before: Seq<PortForwardView>,
    vms: Seq<VmRecordView>,
) -> Result<PortForwardView, StateErrorView> {
    match state::forward_row_value(row) {
        Err(e) => Err(e),
        Ok(f) => if f.id < 1 {
            Err(out_of_range("id"@))
        } else if port_in(before, f.host_port) {
            Err(StateErrorView::PortAlreadyForwarded(f.host_port))
        } else if !id_in(vms, f.vm_id) {
            Err(StateErrorView::VmNotFound(f.vm_id))
        } else {
            Ok(f)
        },
    }
}

/// The port forwards in the rows of a table, and the rows that cannot be taken over.
pub open spec fn forwards_in(rows: Seq<PortForwardRowView>, vms: Seq<VmRecordView>) -> (
    Seq<PortForwardView>,
    Seq<UnreadForwardView>,
)
    decreases rows.len(),
{
    if rows.len() == 0 {
        (seq![], seq![])
    } else {
        let (forwards, unread) = forwards_in(rows.drop_last(), vms);
        match forward_in(rows.last(), forwards, vms) {
            Ok(f) => (forwards.push(f), unread),
            Err(error) => (forwards, unread.push(UnreadForwardView { row: rows.last(), error })),
        }
    }
}

/// The error for a number that a column cannot hold.
pub open spec fn out_of_range(column: Seq<char>) -> StateErrorView {
    StateErrorView::CorruptData { column, message: "out of range"@ }
}

/// The records in the tables. The largest id of a port forward is never below nothing.
pub open spec fn store_in(t: TablesView) -> StateStoreView {
    let vms = vms_in(t.vms).0;
    StateStoreView {
        vms,
        forwards: forwards_in(t.forwards, vms).0,
        last_forward_id: if t.last_forward_id < 0 {
            0
        } else {
            t.last_forward_id
        },
        next_cid: t.next_cid,
        freed_cids: t.freed_cids,
    }
}

/// The rows of the tables that cannot be read.
pub open spec fn unread_in(t: TablesView) -> UnreadRowsView {
    let (vms, unread) = vms_in(t.vms);
    UnreadRowsView { vms: unread, forwards: forwards_in(t.forwards, vms).1 }
}

/// A row that was made for a record is read as that record.
pub open spec fn reads_back(row: VmRowView) -> bool {
    forall|record: VmRecordView|
        row == #[trigger] state::row_for(record) && ident::is_utc(record.created_at)
            && ident::is_utc(record.updated_at) ==> state::row_value(row) == Ok::<
            VmRecordView,
            StateErrorView,
        >(record)
}

/// A row that was made for a port forward is read as that port forward.
pub open spec fn forward_reads_back(row: PortForwardRowView) -> bool {
    forall|record: PortForwardView|
        row == #[trigger] state::forward_row_for(record) && ident::is_utc(record.created_at)
            ==> state::forward_row_value(row) == Ok::<PortForwardView, StateErrorView>(record)
}

/// The first rows of a store's tables are read as the first records, then as the first unread rows.
proof fn lemma_vms_read(s: StateStoreView, u: UnreadRowsView, n: int)
    requires
        kept_form(s),
        s.wf(),
        rightly_unread(u),
        0 <= n <= s.vms.len() + u.vms.len(),
        forall|i: int|
            0 <= i < tables_for(s, u).vms.len() ==> reads_back(#[trigger] tables_for(s, u).vms[i]),
    ensures
        vms_in(tables_for(s, u).vms.take(n)) == (if n <= s.vms.len() {
            (s.vms.take(n), Seq::<UnreadVmView>::empty())
        } else {
            (s.vms, u.vms.take(n - s.vms.len()))
        }),
    decreases n,
{
    let all = tables_for(s, u).vms;
    let m = s.vms.len() as int;
    if n == 0 {
        assert(s.vms.take(0) =~= seq![]);
    } else {
        lemma_vms_read(s, u, n - 1);
        let rows = all.take(n);
        assert(rows.drop_last() =~= all.take(n - 1));
        assert(rows.last() == all[n - 1]);
        assert(reads_back(all[n - 1]));
        if n <= m {
            let before = s.vms.take(n - 1);
            let v = s.vms[n - 1];
            assert(all[n - 1] == state::row_for(v));
            assert forall|i: int| 0 <= i < before.len() implies (#[trigger] before[i]).id != v.id
                && before[i].name != v.name by {
                assert(before[i] == s.vms[i]);
            }
            assert(before.push(v) =~= s.vms.take(n));
        } else {
            let x = u.vms[n - 1 - m];
            assert(all[n - 1] == x.row);
            assert(s.vms.take(m) =~= s.vms);
            assert(u.vms.take(0) =~= seq![]);
            assert(u.vms.take(n - 1 - m).push(x) =~= u.vms.take(n - m));
        }
    }
}

/// The same of the port forwards.
proof fn lemma_forwards_read(s: StateStoreView, u: UnreadRowsView, n: int)
    requires
        kept_form(s),
        s.wf(),
        rightly_unread(u),
        0 <= n <= s.forwards.len() + u.forwards.len(),
        forall|i: int|
            0 <= i < tables_for(s, u).forwards.len() ==> forward_reads_back(
                #[trigger] tables_for(s, u).forwards[i],
            ),
    ensures
        forwards_in(tables_for(s, u).forwards.take(n), s.vms) == (if n <= s.forwards.len() {
            (s.forwards.take(n), Seq::<UnreadForwardView>::empty())
        } else {
            (s.forwards, u.forwards.take(n - s.forwards.len()))
        }),
    decreases n,
{
    let all = tables_for(s, u).forwards;
    let m = s.forwards.len() as int;
    if n == 0 {
        assert(s.forwards.take(0) =~= seq![]);
    } else {
        lemma_forwards_read(s, u, n - 1);
        let rows = all.take(n);
        assert(rows.drop_last() =~= all.take(n - 1));
        assert(rows.last() == all[n - 1]);
        assert(forward_reads_back(all[n - 1]));
        if n <= m {
            let before = s.forwards.take(n - 1);
            let f = s.forwards[n - 1];
            assert(all[n - 1] == state::forward_row_for(f));
            assert forall|i: int| 0 <= i < before.len() implies (#[trigger] before[i]).host_port
                != f.host_port by {
                assert(before[i] == s.forwards[i]);
            }
            assert(s.has_id(f.vm_id));
            assert(before.push(f) =~= s.forwards.take(n));
        } else {
            let x = u.forwards[n - 1 - m];
            assert(all[n - 1] == x.row);
            assert(s.forwards.take(m) =~= s.forwards);
            assert(u.forwards.take(0) =~= seq![]);
            assert(u.forwards.take(n - 1 - m).push(x) =~= u.forwards.take(n - m));
        }
    }
}

/// Where the rows of a store's tables are read as what was written, so are the tables.
proof fn lemma_store_read(t: TablesView, s: StateStoreView, u: UnreadRowsView)
    requires
        t == tables_for(s, u),
        kept_form(s),
        s.wf(),
        rightly_unread(u),
        forall|i: int| 0 <= i < t.vms.len() ==> reads_back(#[trigger] t.vms[i]),
        forall|i: int| 0 <= i < t.forwards.len() ==> forward_reads_back(#[trigger] t.forwards[i]),
    ensures
        store_in(t) == s,
        unread_in(t) == u,
{
    lemma_vms_read(s, u, t.vms.len() as int);
    lemma_forwards_read(s, u, t.forwards.len() as int);
    assert(t.vms.take(t.vms.len() as int) =~= t.vms);
    assert(t.forwards.take(t.forwards.len() as int) =~= t.forwards);
    assert(s.vms.take(s.vms.len() as int) =~= s.vms);
    assert(s.forwards.take(s.forwards.len() as int) =~= s.forwards);
    assert(u.vms.take(u.vms.len() as int) =~= u.vms);
    assert(u.forwards.take(u.forwards.len() as int) =~= u.forwards);
    assert(unread_in(t).vms =~= u.vms);
    assert(unread_in(t).forwards =~= u.forwards);
}

impl StateStore {
    /// The tables for the records, and for the rows that could not be read.
    pub fn to_tables(&self, unread: &UnreadRows) -> (t: Tables)
        requires
            self.wf(),
        ensures
            t@ == tables_for(self@, unread@),
    {
        let ghost want = tables_for(self@, unread@);
        let mut vms: Vec<VmRow> = Vec::new();
        let mut i: usize = 0;
        while i < self.vms.len()
            invariant
                want == tables_for(self@, unread@),
                i <= self.vms@.len(),
                vms@.len() == i,
                forall|k: int| 0 <= k < i ==> (#[trigger] vms@[k])@ == want.vms[k],
            decreases self.vms.len() - i,
        {
            vms.push(vm_to_row(&self.vms[i]));
            proof {
                assert(self@.vms[i as int] == self.vms@[i as int]@);
            }
            i = i + 1;
        }
        i = 0;
        while i < unread.vms.len()
            invariant
                want == tables_for(self@, unread@),
                i <= unread.vms@.len(),
                vms@.len() == self.vms@.len() + i,
                forall|k: int| 0 <= k < vms@.len() ==> (#[trigger] vms@[k])@ == want.vms[k],
            decreases unread.vms.len() - i,
        {
            vms.push(unread.vms[i].row.copy());
            proof {
                assert(unread@.vms[i as int] == unread.vms@[i as int]@);
                assert(want.vms[self.vms@.len() + i] == unread@.vms[i as int].row);
            }
            i = i + 1;
        }
        let mut forwards: Vec<PortForwardRow> = Vec::new();
        i = 0;
        while i < self.forwards.len()
            invariant
                want == tables_for(self@, unread@),
                i <= self.forwards@.len(),
                forwards@.len() == i,
                forall|k: int| 0 <= k < i ==> (#[trigger] forwards@[k])@ == want.forwards[k],
            decreases self.forwards.len() - i,
        {
            forwards.push(forward_to_row(&self.forwards[i]));
            proof {
                assert(self@.forwards[i as int] == self.forwards@[i as int]@);
            }
            i = i + 1;
        }
        i = 0;
        while i < unread.forwards.len()
            invariant
                want == tables_for(self@, unread@),
                i <= unread.forwards@.len(),
                forwards@.len() == self.forwards@.len() + i,
                forall|k: int|
                    0 <= k < forwards@.len() ==> (#[trigger] forwards@[k])@ == want.forwards[k],
            decreases unread.forwards.len() - i,
        {
            forwards.push(unread.forwards[i].row.copy());
            proof {
                assert(unread@.forwards[i as int] == unread.forwards@[i as int]@);
                assert(want.forwards[self.forwards@.len() + i] == unread@.forwards[i as int].row);
            }
            i = i + 1;
        }
        let t = Tables {
            vms,
            forwards,
            last_forward_id: self.last_forward_id,
            next_cid: self.next_cid,
            freed_cids: numbers(&self.freed_cids),
        };
        proof {
            assert(t@.vms =~= want.vms);
            assert(t@.forwards =~= want.forwards);
        }
        t
    }

    /// The VMs in the rows, and the rows that cannot be taken over.
    fn read_vms(rows: &Vec<VmRow>) -> (r: (StateStore, Vec<UnreadVm>))
        ensures
            r.0.wf(),
            vms_in(row_views(rows@)) == (r.0@.vms, unread::vm_views(r.1@)),
            r.0@ == StateStoreView::fresh().with_vms(r.0@.vms),
            forall|i: int|
                0 <= i < row_views(rows@).len() ==> reads_back(#[trigger] row_views(rows@)[i]),
    {
        let mut s = StateStore::open_memory();
        let mut bad: Vec<UnreadVm> = Vec::new();
        let ghost all = row_views(rows@);
        let mut i: usize = 0;
        proof {
            assert(all.take(0) =~= seq![]);
            assert(unread::vm_views(bad@) =~= seq![]);
        }
        while i < rows.len()
            invariant
                i <= rows@.len(),
                all == row_views(rows@),
                s.wf(),
                vms_in(all.take(i as int)) == (s@.vms, unread::vm_views(bad@)),
                s@ == StateStoreView::fresh().with_vms(s@.vms),
                forall|k: int| 0 <= k < i ==> reads_back(#[trigger] all[k]),
            decreases rows.len() - i,
        {
            let r = row_to_vm_record(&rows[i]);
            let ghost before = s@;
            let ghost bad_before = unread::vm_views(bad@);
            proof {
                let next = all.take(i + 1);
                assert(all[i as int] == rows@[i as int]@);
                assert(next.drop_last() =~= all.take(i as int));
                assert(next.last() == all[i as int]);
                assert(reads_back(all[i as int]));
            }
            let taken = match r {
                Ok(record) => s.insert_vm(record),
                Err(e) => Err(e),
            };
            match taken {
                Ok(_) => {
                    proof {
                        let v = r->Ok_0@;
                        assert(!id_in(before.vms, v.id) && !name_in(before.vms, v.name));
                    }
                },
                Err(error) => {
                    bad.push(UnreadVm { row: rows[i].copy(), error });
                    proof {
                        if r is Ok {
                            let v = r->Ok_0@;
                            assert(id_in(before.vms, v.id) || name_in(before.vms, v.name));
                        }
                        assert(unread::vm_views(bad@) =~= bad_before.push(
                            UnreadVmView { row: all[i as int], error: error@ },
                        ));
                    }
                },
            }
            i = i + 1;
        }
        proof {
            assert(all.take(i as int) =~= all);
        }
        (s, bad)
    }

    /// Reads the port forwards of the VMs in the store, and gives the rows that cannot be taken
    /// over.
    fn read_forwards(&mut self, rows: &Vec<PortForwardRow>) -> (bad: Vec<UnreadForward>)
        requires
            old(self).wf(),
            old(self)@.forwards == Seq::<PortForwardView>::empty(),
        ensures
            final(self).wf(),
            forwards_in(forward_row_views(rows@), old(self)@.vms) == (
                final(self)@.forwards,
                unread::forward_views(bad@),
            ),
            final(self)@.vms == old(self)@.vms,
            forall|i: int|
                0 <= i < forward_row_views(rows@).len() ==> forward_reads_back(
                    #[trigger] forward_row_views(rows@)[i],
                ),
    {
        let mut bad: Vec<UnreadForward> = Vec::new();
        let ghost all = forward_row_views(rows@);
        let ghost vms = self@.vms;
        let mut i: usize = 0;
        proof {
            assert(all.take(0) =~= seq![]);
            assert(unread::forward_views(bad@) =~= seq![]);
        }
        while i < rows.len()
            invariant
                i <= rows@.len(),
                all == forward_row_views(rows@),
                self.wf(),
                self@.vms == vms,
                forwards_in(all.take(i as int), vms) == (
                    self@.forwards,
                    unread::forward_views(bad@),
                ),
                forall|k: int| 0 <= k < i ==> forward_reads_back(#[trigger] all[k]),
            decreases rows.len() - i,
        {
            let r = row_to_port_forward(&rows[i]);
            let ghost bad_before = unread::forward_views(bad@);
            proof {
                let next = all.take(i + 1);
                assert(all[i as int] == rows@[i as int]@);
                assert(next.drop_last() =~= all.take(i as int));
                assert(next.last() == all[i as int]);
                assert(forward_reads_back(all[i as int]));
            }
            let ghost before = self@.forwards;
            let taken = match r {
                Ok(record) => {
                    if record.id < 1 {
                        Err(bad_number("id"))
                    } else {
                        self.last_forward_id = record.id - 1;
                        proof {
                            assert(self@.forwards == before);
                        }
                        self.insert_port_forward(record)
                    }
                },
                Err(e) => Err(e),
            };
            match taken {
                Ok(_) => {
                    proof {
                        let f = r->Ok_0@;
                        assert(!port_in(before, f.host_port));
                        assert(id_in(vms, f.vm_id));
                        assert(self@.forwards =~= before.push(f));
                    }
                },
                Err(error) => {
                    bad.push(UnreadForward { row: rows[i].copy(), error });
                    proof {
                        if r is Ok && r->Ok_0.id >= 1 {
                            let f = r->Ok_0@;
                            assert(port_in(before, f.host_port) || !id_in(vms, f.vm_id));
                        }
                        assert(unread::forward_views(bad@) =~= bad_before.push(
                            UnreadForwardView { row: all[i as int], error: error@ },
                        ));
                    }
                },
            }
            i = i + 1;
        }
        proof {
            assert(all.take(i as int) =~= all);
        }
        bad
    }

    /// The records in the tables, and the rows that cannot be read or do not fit to the rows before
    /// them. Tables that were written for records in their kept form, and for rows that could not
    /// be read, are read as these records and these rows.
    pub fn from_tables(t: &Tables) -> (r: (StateStore, UnreadRows))
        ensures
            r.0.wf(),
            r.0@ == store_in(t@),
            r.1@ == unread_in(t@),
            forall|s: StateStoreView, u: UnreadRowsView|
                t@ == #[trigger] tables_for(s, u) && s.wf() && kept_form(s) && rightly_unread(u)
                    ==> r.0@ == s && r.1@ == u,
    {
        let (s, vms) = StateStore::read_vms(&t.vms);
        let mut s = s;
        let forwards = s.read_forwards(&t.forwards);
        let mut freed_cids: BTreeSet<u32> = BTreeSet::new();
        let mut k: usize = 0;
        proof {
            assert(t.freed_cids@.take(0).to_set() =~= Set::<u32>::empty());
        }
        while k < t.freed_cids.len()
            invariant
                k <= t.freed_cids@.len(),
                freed_cids@ == t.freed_cids@.take(k as int).to_set(),
            decreases t.freed_cids.len() - k,
        {
            let _ = put(&mut freed_cids, t.freed_cids[k]);
            proof {
                let was = t.freed_cids@.take(k as int);
                let now = t.freed_cids@.take(k + 1);
                assert(now =~= was.push(t.freed_cids@[k as int]));
                assert forall|x: u32| now.to_set().contains(x) == was.to_set().insert(
                    t.freed_cids@[k as int],
                ).contains(x) by {
                    if was.contains(x) {
                        let m = choose|m: int| 0 <= m < was.len() && was[m] == x;
                        assert(now[m] == x);
                    }
                    assert(now[k as int] == t.freed_cids@[k as int]);
                }
                assert(now.to_set() =~= was.to_set().insert(t.freed_cids@[k as int]));
            }
            k = k + 1;
        }
        let ghost before = s@;
        s.last_forward_id = if t.last_forward_id < 0 {
            0
        } else {
            t.last_forward_id
        };
        s.next_cid = t.next_cid;
        s.freed_cids = freed_cids;
        let unread = UnreadRows { vms, forwards };
        proof {
            assert(t.freed_cids@.take(k as int) =~= t.freed_cids@);
            assert(s@.vms == before.vms && s@.forwards == before.forwards);
            assert forall|m: int| 0 <= m < s@.forwards.len() implies s@.has_id(
                (#[trigger] s@.forwards[m]).vm_id,
            ) by {
                assert(before.has_id(before.forwards[m].vm_id));
            }
            assert forall|x: StateStoreView, u: UnreadRowsView|
                t@ == #[trigger] tables_for(x, u) && x.wf() && kept_form(x) && rightly_unread(
                    u,
                ) implies store_in(t@) == x && unread_in(t@) == u by {
                lemma_store_read(t@, x, u);
            }
        }
        (s, unread)
    }
}

fn bad_number(column: &str) -> (e: StateError)
    ensures
        e@ == out_of_range(column@),
{
    StateError::CorruptData { column: column.to_owned(), message: "out of range".to_owned() }
}

/// What is recorded with the current time stays in its kept form, so that it can be written and
/// read again: fresh tables, a new VM, a VM whose state or userdata status changed, VMs that were all
/// stopped, a VM that is removed with its port forwards, and a new port forward.
pub proof fn records_keep_their_form(
    s: StateStoreView,
    record: VmRecordView,
    forward: PortForwardView,
    i: int,
    state: Seq<char>,
    now: Seq<char>,
)
    requires
        s.wf(),
        kept_form(s),
        ident::is_utc(now),
        record.created_at == now && record.updated_at == now,
        forward.created_at == now,
        0 <= i < s.vms.len(),
    ensures
        kept_form(StateStoreView::fresh()),
        kept_form(s.with_vms(s.vms.push(record))),
        kept_form(s.with_vms(s.vms.update(i, s.vms[i].with_state(state, now)))),
        kept_form(s.with_vms(s.vms.update(i, s.vms[i].with_userdata_status(state, now)))),
        kept_form(s.with_vms(upkeep::all_stopped(s.vms, now))),
        kept_form(s.without_vm(i)),
        s.last_forward_id < i64::MAX ==> kept_form(s.with_new_forward(forward)),
{
    let removed = s.without_vm(i);
    state::lemma_forwards_except(s.forwards, s.vms[i].id);
    assert forall|k: int| 0 <= k < removed.forwards.len() implies ident::is_utc(
        (#[trigger] removed.forwards[k]).created_at,
    ) && removed.forwards[k].id >= 1 by {
        let f = removed.forwards[k];
        assert(s.forwards.contains(f));
        let m = choose|m: int| 0 <= m < s.forwards.len() && s.forwards[m] == f;
        assert(ident::is_utc(s.forwards[m].created_at));
    }
    assert forall|k: int| 0 <= k < removed.vms.len() implies ident::is_utc(
        (#[trigger] removed.vms[k]).created_at,
    ) && ident::is_utc(removed.vms[k].updated_at) by {
        let m = if k < i {
            k
        } else {
            k + 1
        };
        assert(removed.vms[k] == s.vms[m]);
    }
    let pushed = s.with_vms(s.vms.push(record));
    assert forall|k: int| 0 <= k < pushed.vms.len() implies ident::is_utc(
        (#[trigger] pushed.vms[k]).created_at,
    ) && ident::is_utc(pushed.vms[k].updated_at) by {
        if k < s.vms.len() {
            assert(pushed.vms[k] == s.vms[k]);
        }
    }
    let changed = s.with_vms(s.vms.update(i, s.vms[i].with_state(state, now)));
    assert forall|k: int| 0 <= k < changed.vms.len() implies ident::is_utc(
        (#[trigger] changed.vms[k]).created_at,
    ) && ident::is_utc(changed.vms[k].updated_at) by {
        assert(ident::is_utc(s.vms[k].created_at));
    }
    let noted = s.with_vms(s.vms.update(i, s.vms[i].with_userdata_status(state, now)));
    assert forall|k: int| 0 <= k < noted.vms.len() implies ident::is_utc(
        (#[trigger] noted.vms[k]).created_at,
    ) && ident::is_utc(noted.vms[k].updated_at) by {
        assert(ident::is_utc(s.vms[k].created_at));
    }
    let stopped = s.with_vms(upkeep::all_stopped(s.vms, now));
    assert forall|k: int| 0 <= k < stopped.vms.len() implies ident::is_utc(
        (#[trigger] stopped.vms[k]).created_at,
    ) && ident::is_utc(stopped.vms[k].updated_at) by {
        assert(ident::is_utc(s.vms[k].created_at));
    }
    if s.last_forward_id < i64::MAX {
        let added = s.with_new_forward(forward);
        assert forall|k: int| 0 <= k < added.forwards.len() implies ident::is_utc(
            (#[trigger] added.forwards[k]).created_at,
        ) && added.forwards[k].id >= 1 by {
            if k < s.forwards.len() {
                assert(added.forwards[k] == s.forwards[k]);
            }
        }
    }
}

/// No row of a table of VMs is lost: each is read as a VM or kept as it is, and nothing comes from
/// anywhere else. No two of the VMs have the same id or the same name.
pub proof fn no_row_of_a_vm_is_lost(rows: Seq<VmRowView>)
    ensures
        ({
            let (vms, unread) = vms_in(rows);
            &&& vms.len() + unread.len() == rows.len()
            &&& forall|i: int|
                0 <= i < vms.len() ==> exists|k: int|
                    0 <= k < rows.len() && state::row_value(#[trigger] rows[k]) == Ok::<
                        VmRecordView,
                        StateErrorView,
                    >(#[trigger] vms[i])
            &&& forall|i: int|
                0 <= i < unread.len() ==> rows.contains((#[trigger] unread[i]).row)
            &&& forall|i: int, j: int|
                0 <= i < j < vms.len() ==> (#[trigger] vms[i]).id != (#[trigger] vms[j]).id
                    && vms[i].name != vms[j].name
        }),
    decreases rows.len(),
{
    if rows.len() > 0 {
        let init = rows.drop_last();
        let n = rows.len() - 1;
        no_row_of_a_vm_is_lost(init);
        let (vms, unread) = vms_in(rows);
        let (vms0, unread0) = vms_in(init);
        assert forall|i: int| 0 <= i < vms.len() implies exists|k: int|
            0 <= k < rows.len() && state::row_value(#[trigger] rows[k]) == Ok::<
                VmRecordView,
                StateErrorView,
            >(#[trigger] vms[i]) by {
            if i < vms0.len() {
                assert(vms[i] == vms0[i]);
                let k = choose|k: int|
                    0 <= k < init.len() && state::row_value(#[trigger] init[k]) == Ok::<
                        VmRecordView,
                        StateErrorView,
                    >(vms0[i]);
                assert(rows[k] == init[k]);
            } else {
                assert(rows[n] == rows.last());
            }
        }
        assert forall|i: int| 0 <= i < unread.len() implies rows.contains(
            (#[trigger] unread[i]).row,
        ) by {
            if i < unread0.len() {
                assert(unread[i] == unread0[i]);
                let k = choose|k: int| 0 <= k < init.len() && init[k] == unread0[i].row;
                assert(rows[k] == unread[i].row);
            } else {
                assert(rows[n] == unread[i].row);
            }
        }
        assert forall|i: int, j: int| 0 <= i < j < vms.len() implies (#[trigger] vms[i]).id != (
        #[trigger] vms[j]).id && vms[i].name != vms[j].name by {
            assert(vms[i] == vms0[i]);
            if j < vms0.len() {
                assert(vms[j] == vms0[j]);
            }
        }
    }
}

/// No row of a table of port forwards is lost either: each is read as a port forward of a VM that is
/// there, or kept as it is. No two of the port forwards take the same host port.
pub proof fn no_row_of_a_forward_is_lost(rows: Seq<PortForwardRowView>, vms: Seq<VmRecordView>)
    ensures
        ({
            let (forwards, unread) = forwards_in(rows, vms);
            &&& forwards.len() + unread.len() == rows.len()
            &&& forall|i: int|
                0 <= i < forwards.len() ==> id_in(vms, (#[trigger] forwards[i]).vm_id) && exists|
                    k: int,
                |
                    0 <= k < rows.len() && state::forward_row_value(#[trigger] rows[k]) == Ok::<
                        PortForwardView,
                        StateErrorView,
                    >(forwards[i])
            &&& forall|i: int|
                0 <= i < unread.len() ==> rows.contains((#[trigger] unread[i]).row)
            &&& forall|i: int, j: int|
                0 <= i < j < forwards.len() ==> (#[trigger] forwards[i]).host_port != (
                #[trigger] forwards[j]).host_port
        }),
    decreases rows.len(),
{
    if rows.len() > 0 {
        let init = rows.drop_last();
        let n = rows.len() - 1;
        no_row_of_a_forward_is_lost(init, vms);
        let (forwards, unread) = forwards_in(rows, vms);
        let (forwards0, unread0) = forwards_in(init, vms);
        assert forall|i: int| 0 <= i < forwards.len() implies id_in(
            vms,
            (#[trigger] forwards[i]).vm_id,
        ) && exists|k: int|
            0 <= k < rows.len() && state::forward_row_value(#[trigger] rows[k]) == Ok::<
                PortForwardView,
                StateErrorView,
            >(forwards[i]) by {
            if i < forwards0.len() {
                assert(forwards[i] == forwards0[i]);
                let k = choose|k: int|
                    0 <= k < init.len() && state::forward_row_value(#[trigger] init[k]) == Ok::<
                        PortForwardView,
                        StateErrorView,
                    >(forwards0[i]);
                assert(rows[k] == init[k]);
            } else {
                assert(rows[n] == rows.last());
            }
        }
        assert forall|i: int| 0 <= i < unread.len() implies rows.contains(
            (#[trigger] unread[i]).row,
        ) by {
            if i < unread0.len() {
                assert(unread[i] == unread0[i]);
                let k = choose|k: int| 0 <= k < init.len() && init[k] == unread0[i].row;
                assert(rows[k] == unread[i].row);
            } else {
                assert(rows[n] == unread[i].row);
            }
        }
        assert forall|i: int, j: int| 0 <= i < j < forwards.len() implies (
        #[trigger] forwards[i]).host_port != (#[trigger] forwards[j]).host_port by {
            assert(forwards[i] == forwards0[i]);
            if j < forwards0.len() {
                assert(forwards[j] == forwards0[j]);
            }
        }
    }
}

} // verus!
