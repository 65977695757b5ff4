//! Upkeep: stopping VMs when the daemon ends or starts anew, running userdata scripts, and
//! keeping the serial logs short.
use crate::client::{AgentError, AgentErrorView};
use crate::ident;
use crate::ident::current_time;
use crate::json::read_pairs;
use crate::orchestrator;
use crate::orchestrator::{CoreError, CoreErrorView, Creation, HuskCore, HuskCoreView};
use crate::state;
use crate::state::{StateErrorView, StateStore, VmRecordView};
use crate::text;
use crate::text::{has_suffix, same_text};
use crate::vmm::VmInfoView;
use vstd::prelude::*;
use vstd::string::*;

verus! {

/// Whether a VM is to be stopped when all are.
pub open spec fn is_live(v: VmRecordView) -> bool {
    v.state == "running"@ || v.state == "paused"@
}

/// The ids of the live VMs, in the order of the records.
pub open spec fn live_ids(vms: Seq<VmRecordView>) -> Seq<u128>
    decreases vms.len(),
{
    if vms.len() == 0 {
        seq![]
    } else if is_live(vms.last()) {
        live_ids(vms.drop_last()).push(vms.last().id)
    } else {
        live_ids(vms.drop_last())
    }
}

/// A record after all VMs were stopped.
pub open spec fn stopped(v: VmRecordView, now: Seq<char>) -> VmRecordView {
    if is_live(v) {
        v.with_state("stopped"@, now)
    } else {
        v
    }
}

/// The records after all VMs were stopped.
pub open spec fn all_stopped(vms: Seq<VmRecordView>, now: Seq<char>) -> Seq<VmRecordView> {
    Seq::new(vms.len(), |i: int| stopped(vms[i], now))
}

impl StateStore {
    /// The ids of the VMs that are recorded as running or paused.
    pub fn live_vms(&self) -> (ids: Vec<u128>)
        ensures
            ids@ == live_ids(self@.vms),
    {
        let mut ids: Vec<u128> = Vec::new();
        let mut i: usize = 0;
        proof {
            assert(self@.vms.take(0) =~= seq![]);
        }
        while i < self.vms.len()
            invariant
                i <= self.vms@.len(),
                ids@ == live_ids(self@.vms.take(i as int)),
            decreases self.vms.len() - i,
        {
            proof {
                let next = self@.vms.take(i + 1);
                assert(next.drop_last() =~= self@.vms.take(i as int));
                assert(next.last() == self.vms@[i as int]@);
            }
            let state = self.vms[i].state.as_str();
            if same_text(state, "running") || same_text(state, "paused") {
                ids.push(self.vms[i].id);
            }
            i += 1;
        }
        proof {
            assert(self@.vms.take(i as int) =~= self@.vms);
        }
        ids
    }

    /// Marks every VM that is recorded as running or paused as stopped now, and says how many there
    /// were. No VM outlives the daemon, so this holds of every record that a new daemon finds.
    pub fn mark_stale_vms_stopped(&mut self) -> (n: usize)
        requires
            old(self).wf(),
        ensures
            final(self).wf(),
            exists|now: Seq<char>| #[trigger]
                ident::is_utc(now) && final(self)@ == old(self)@.with_vms(
                    all_stopped(old(self)@.vms, now),
                ),
            n == live_ids(old(self)@.vms).len(),
    {
        let now = current_time();
        self.mark_stale_vms_stopped_at(now.as_str())
    }

    /// Marks every VM that is recorded as running or paused as stopped at the given time.
    pub fn mark_stale_vms_stopped_at(&mut self, now: &str) -> (n: usize)
        requires
            old(self).wf(),
        ensures
            final(self).wf(),
            final(self)@ == old(self)@.with_vms(all_stopped(old(self)@.vms, now@)),
            n == live_ids(old(self)@.vms).len(),
    {
        let ids = self.live_vms();
        let n = ids.len();
        let ghost before = self@;
        let mut i: usize = 0;
        while i < self.vms.len()
            invariant
                self.wf(),
                i <= self.vms@.len(),
                self@ == before.with_vms(self@.vms),
                self@.vms.len() == before.vms.len(),
                forall|k: int|
                    0 <= k < self@.vms.len() ==> #[trigger] self@.vms[k] == (if k < i {
                        stopped(before.vms[k], now@)
                    } else {
                        before.vms[k]
                    }),
            decreases self.vms.len() - i,
        {
            let ghost prior = self@;
            proof {
                assert(prior.vms[i as int] == self.vms@[i as int]@);
            }
            let state = self.vms[i].state.as_str();
            if same_text(state, "running") || same_text(state, "paused") {
                self.vms[i].state = "stopped".to_owned();
                self.vms[i].updated_at = now.to_owned();
                proof {
                    let changed = prior.vms[i as int].with_state("stopped"@, now@);
                    assert(self@.vms =~= prior.vms.update(i as int, changed));
                    state::lemma_update_keeps_wf(prior, i as int, changed);
                    assert(self@ == prior.with_vms(self@.vms));
                }
            }
            i += 1;
        }
        proof {
            assert(self@.vms =~= all_stopped(before.vms, now@));
        }
        n
    }
}

/// A script that is to be run in a guest.
pub struct UserdataRun {
    pub id: u128,
    /// The program that runs the script, and its arguments.
    pub command: String,
    pub args: Vec<String>,
    /// The environment of the script.
    pub env: Vec<(String, String)>,
}

/// The environment that is recorded for a userdata script.
fn env_of(record: &Option<String>) -> (env: Vec<(String, String)>)
    ensures
        text::pair_texts(env@) == orchestrator::recorded_env(text::opt_text(*record)),
{
    let recorded = match record {
        Some(text) => read_pairs(text.as_str()),
        None => None,
    };
    match recorded {
        Some(env) => env,
        None => {
            let env: Vec<(String, String)> = Vec::new();
            proof {
                assert(text::pair_texts(env@) =~= seq![]);
            }
            env
        },
    }
}

/// How a userdata script ended, in one word.
pub open spec fn userdata_status(outcome: Result<i32, AgentErrorView>) -> Seq<char> {
    if outcome == Ok::<i32, AgentErrorView>(0) {
        "completed"@
    } else {
        "failed"@
    }
}

/// An outcome, with the error's text as characters.
pub open spec fn outcome_view(outcome: Result<i32, AgentError>) -> Result<i32, AgentErrorView> {
    match outcome {
        Ok(code) => Ok(code),
        Err(e) => Err(e@),
    }
}

/// Whether a run hands the script to the shell.
pub open spec fn runs_script(run: UserdataRun, script: Seq<char>) -> bool {
    run.command@ == "/bin/sh"@ && text::texts(run.args@) == seq!["-c"@, script]
}

/// What the plan of a userdata script comes to: `None` where the VM has no script, the script where
/// the VM runs, and otherwise an error, with the script recorded as failed.
pub open spec fn userdata_planned(
    before: HuskCoreView,
    after: HuskCoreView,
    name: Seq<char>,
    now: Seq<char>,
    r: Result<Option<UserdataRun>, CoreError>,
) -> bool {
    match r {
        Ok(None) => after == before && exists|v: VmRecordView| #[trigger]
            before.state.vms.contains(v) && v.name == name && v.userdata is None,
        Ok(Some(run)) => after == before && exists|v: VmRecordView| #[trigger]
            before.state.vms.contains(v) && v.name == name && v.state == "running"@ && v.userdata
                is Some && runs_script(run, v.userdata->0) && v.id == run.id && text::pair_texts(run.env@)
                == orchestrator::recorded_env(v.userdata_env),
        Err(e) => if !before.state.has_name(name) {
            e@ == before.missing(name) && after == before
        } else {
            exists|i: int|
                0 <= i < before.state.vms.len() && {
                    let v = #[trigger] before.state.vms[i];
                    &&& v.name == name
                    &&& v.userdata is Some
                    &&& v.state != "running"@
                    &&& e@ == orchestrator::wrong_state(v, "running"@)
                    &&& after == before.with_records(
                        before.state.with_vms(
                            before.state.vms.update(i, v.with_userdata_status("failed"@, now)),
                        ),
                    )
                }
        },
    }
}

/// What is noted of a userdata script that ended: its status in one word, if the VM is still there.
pub open spec fn userdata_noted(
    before: HuskCoreView,
    after: HuskCoreView,
    id: u128,
    outcome: Result<i32, AgentError>,
    now: Seq<char>,
    r: Result<(), CoreError>,
) -> bool {
    if before.state.has_id(id) {
        &&& exists|i: int|
            0 <= i < before.state.vms.len() && (#[trigger] before.state.vms[i]).id == id && after
                == before.with_records(
                before.state.with_vms(
                    before.state.vms.update(
                        i,
                        before.state.vms[i].with_userdata_status(
                            userdata_status(outcome_view(outcome)),
                            now,
                        ),
                    ),
                ),
            )
        &&& match outcome {
            Ok(_) => r is Ok,
            Err(err) => r matches Err(e) && e@ == CoreErrorView::Agent(err@),
        }
    } else {
        &&& after == before
        &&& r matches Err(e) && e@ == CoreErrorView::State(StateErrorView::VmNotFound(id))
    }
}

impl HuskCore {
    /// The VMs that the monitor has to be asked to stop before all are marked as stopped.
    pub fn drain_targets(&self) -> (ids: Vec<u128>)
        ensures
            ids@ == live_ids(self@.state.vms),
    {
        self.state.live_vms()
    }

    /// Marks all running and paused VMs as stopped now, whatever became of asking the monitor, and
    /// says how many there were.
    pub fn drain_vms(&mut self) -> (n: usize)
        requires
            old(self).wf(),
        ensures
            final(self).wf(),
            exists|now: Seq<char>| #[trigger]
                ident::is_utc(now) && final(self)@ == old(self)@.with_records(
                    old(self)@.state.with_vms(all_stopped(old(self)@.state.vms, now)),
                ),
            n == live_ids(old(self)@.state.vms).len(),
    {
        let now = current_time();
        self.drain_vms_at(now.as_str())
    }

    /// Marks all running and paused VMs as stopped at the given time.
    pub fn drain_vms_at(&mut self, now: &str) -> (n: usize)
        requires
            old(self).wf(),
        ensures
            final(self).wf(),
            final(self)@ == old(self)@.with_records(
                old(self)@.state.with_vms(all_stopped(old(self)@.state.vms, now@)),
            ),
            n == live_ids(old(self)@.state.vms).len(),
    {
        let n = self.state.mark_stale_vms_stopped_at(now);
        proof {
            assert(self@ == old(self)@.with_records(self@.state));
        }
        n
    }

    /// Plans the run of a VM's userdata script now: `None` where it has none. A VM that does not
    /// run cannot run the script either, which counts as a failure of the script.
    pub fn run_userdata(&mut self, name: &str) -> (r: Result<Option<UserdataRun>, CoreError>)
        requires
            old(self).wf(),
        ensures
            final(self).wf(),
            exists|now: Seq<char>| #[trigger]
                ident::is_utc(now) && userdata_planned(old(self)@, final(self)@, name@, now, r),
    {
        let now = current_time();
        self.run_userdata_at(name, now.as_str())
    }

    /// Plans the run of a VM's userdata script at the given time.
    pub fn run_userdata_at(&mut self, name: &str, now: &str) -> (r: Result<
        Option<UserdataRun>,
        CoreError,
    >)
        requires
            old(self).wf(),
        ensures
            final(self).wf(),
            userdata_planned(old(self)@, final(self)@, name@, now@, r),
    {
        let record = match self.get_vm(name) {
            Ok(record) => record,
            Err(e) => return Err(e),
        };
        let ghost v = record@;
        proof {
            let k = choose|k: int| 0 <= k < self@.state.vms.len() && self@.state.vms[k] == record@;
            assert(self@.state.vms[k].name == name@);
            assert(self@.state.has_name(name@));
            assert(self@.state.has_id(v.id));
        }
        let script = match &record.userdata {
            Some(script) => script.clone(),
            None => return Ok(None),
        };
        let id = record.id;
        if same_text(record.state.as_str(), "running") {
            let env = env_of(&record.userdata_env);
            let args: Vec<String> = vec!["-c".to_owned(), script];
            proof {
                assert(text::texts(args@) =~= seq!["-c"@, v.userdata->0]);
            }
            return Ok(Some(UserdataRun { id, command: "/bin/sh".to_owned(), args, env }));
        }
        let error = CoreError::InvalidState {
            name: record.name.clone(),
            actual: record.state.clone(),
            expected: "running".to_owned(),
        };
        let ghost before = self@;
        match self.state.update_userdata_status_at(id, "failed", now) {
            Ok(_) => {
                proof {
                    let s = before.state;
                    let i = choose|i: int|
                        0 <= i < s.vms.len() && (#[trigger] s.vms[i]).id == id && self@.state
                            == s.with_vms(
                            s.vms.update(i, s.vms[i].with_userdata_status("failed"@, now@)),
                        );
                    state::keys_name_one_vm(s, s.vms[i], v);
                    assert(s.vms[i] == v);
                    assert(self@ == before.with_records(self@.state));
                }
            },
            Err(_) => {},
        }
        Err(error)
    }

    /// Notes now how a userdata script ended. Where the guest could not be asked, that is the
    /// error.
    pub fn finish_userdata(&mut self, id: u128, outcome: Result<i32, AgentError>) -> (r: Result<
        (),
        CoreError,
    >)
        requires
            old(self).wf(),
        ensures
            final(self).wf(),
            exists|now: Seq<char>| #[trigger]
                ident::is_utc(now) && userdata_noted(old(self)@, final(self)@, id, outcome, now, r),
    {
        let now = current_time();
        self.finish_userdata_at(id, outcome, now.as_str())
    }

    /// Notes how a userdata script ended at the given time.
    pub fn finish_userdata_at(&mut self, id: u128, outcome: Result<i32, AgentError>, now: &str) -> (r:
        Result<(), CoreError>)
        requires
            old(self).wf(),
        ensures
            final(self).wf(),
            userdata_noted(old(self)@, final(self)@, id, outcome, now@, r),
    {
        let status = match &outcome {
            Ok(0) => "completed",
            _ => "failed",
        };
        proof {
            assert(status@ == userdata_status(outcome_view(outcome)));
        }
        match self.state.update_userdata_status_at(id, status, now) {
            Ok(_) => {
                proof {
                    let s = old(self)@.state;
                    let i = choose|i: int|
                        0 <= i < s.vms.len() && (#[trigger] s.vms[i]).id == id && self@.state
                            == s.with_vms(
                            s.vms.update(i, s.vms[i].with_userdata_status(status@, now@)),
                        );
                    assert(old(self)@.state.vms[i].id == id);
                    assert(self@ == old(self)@.with_records(self@.state));
                }
            },
            Err(e) => return Err(CoreError::State(e)),
        }
        match outcome {
            Ok(_) => Ok(()),
            Err(e) => Err(CoreError::Agent(e)),
        }
    }
}

/// A serial log is cut when it is longer than this.
pub const MAX_SERIAL_LOG: u64 = 10_485_760;

/// What is kept of a serial log that is cut.
pub const KEPT_SERIAL_LOG: u64 = 5_242_880;

/// Where the part of a serial log begins that is kept, or `None` where the file stays as it is: a
/// file of another kind, or a log that is short enough.
pub open spec fn rotation_start(file_name: Seq<char>, len: u64) -> Option<u64> {
    if text::ends_with(file_name, ".serial.log"@) && len > MAX_SERIAL_LOG {
        Some((len - KEPT_SERIAL_LOG) as u64)
    } else {
        None
    }
}

/// Decides whether a file of the runtime directory is a serial log that is to be cut, and where
/// the part begins that is kept.
pub fn rotate_serial_log(file_name: &str, len: u64) -> (start: Option<u64>)
    ensures
        start == rotation_start(file_name@, len),
{
    if has_suffix(file_name, ".serial.log") && len > MAX_SERIAL_LOG {
        Some(len - KEPT_SERIAL_LOG)
    } else {
        None
    }
}

/// After all VMs were stopped none is live, and stopping them once more changes nothing.
pub proof fn draining_twice_changes_nothing(vms: Seq<VmRecordView>, t: Seq<char>, u: Seq<char>)
    ensures
        live_ids(all_stopped(vms, t)) == Seq::<u128>::empty(),
        all_stopped(all_stopped(vms, t), u) == all_stopped(vms, t),
    decreases vms.len(),
{
    reveal_strlit("running");
    reveal_strlit("paused");
    reveal_strlit("stopped");
    assert("stopped"@[0] != "running"@[0]);
    assert("stopped"@[0] != "paused"@[0]);
    assert(all_stopped(all_stopped(vms, t), u) =~= all_stopped(vms, t));
    if vms.len() > 0 {
        draining_twice_changes_nothing(vms.drop_last(), t, u);
        assert(all_stopped(vms, t).drop_last() =~= all_stopped(vms.drop_last(), t));
    }
}

/// The script that is run for a VM that was created, and the environment in which it is run, are
/// those that were asked for.
pub proof fn script_runs_as_asked(
    c: Creation,
    info: VmInfoView,
    created: Seq<char>,
    before: HuskCoreView,
    after: HuskCoreView,
    now: Seq<char>,
    run: UserdataRun,
)
    requires
        c.wf(),
        before.state.wf(),
        before.state.vms.contains(c.record(info, created)),
        userdata_planned(before, after, c.request.name@, now, Ok(Some(run))),
    ensures
        c.request.userdata matches Some(script) && runs_script(run, script@) && run.command@
            == "/bin/sh"@ && text::texts(run.args@) == seq!["-c"@, script@],
        text::pair_texts(run.env@) == text::pair_texts(c.request.env@),
        run.id == info.id,
{
    let made = c.record(info, created);
    let v = choose|v: VmRecordView| #[trigger]
        before.state.vms.contains(v) && v.name == c.request.name@ && v.state == "running"@
            && v.userdata is Some && runs_script(run, v.userdata->0) && v.id == run.id && text::pair_texts(run.env@)
            == orchestrator::recorded_env(v.userdata_env);
    state::keys_name_one_vm(before.state, made, v);
}

/// A log that was cut is short enough, and is not cut again.
pub proof fn rotated_log_is_left_alone(file_name: Seq<char>, len: u64)
    ensures
        match rotation_start(file_name, len) {
            Some(start) => {
                &&& start < len
                &&& len - start == KEPT_SERIAL_LOG
                &&& rotation_start(file_name, (len - start) as u64) is None
            },
            None => true,
        },
{
}

/// When all VMs are stopped, each that runs or is paused is noted as stopped, at the given time; of
/// each other one, and of everything else, nothing changes.
pub proof fn draining_stops_the_live_ones(vms: Seq<VmRecordView>, i: int, now: Seq<char>)
    requires
        0 <= i < vms.len(),
    ensures
        ({
            let v = vms[i];
            let w = all_stopped(vms, now)[i];
            &&& all_stopped(vms, now).len() == vms.len()
            &&& v.state == "running"@ || v.state == "paused"@ ==> w.state == "stopped"@
                && w.updated_at == now && live_ids(vms).contains(v.id)
            &&& v.state != "running"@ && v.state != "paused"@ ==> w == v
            &&& w.id == v.id && w.name == v.name && w.pid == v.pid && w.vsock_cid == v.vsock_cid
                && w.host_ip == v.host_ip && w.guest_ip == v.guest_ip && w.tap_device
                == v.tap_device && w.created_at == v.created_at && w.userdata_status
                == v.userdata_status
        }),
{
    if is_live(vms[i]) {
        lemma_live_listed(vms, i);
    }
}

proof fn lemma_live_listed(vms: Seq<VmRecordView>, i: int)
    requires
        0 <= i < vms.len(),
        is_live(vms[i]),
    ensures
        live_ids(vms).contains(vms[i].id),
    decreases vms.len(),
{
    let ids = live_ids(vms);
    let init = vms.drop_last();
    if i == vms.len() - 1 {
        assert(ids.last() == vms[i].id);
    } else {
        assert(init[i] == vms[i]);
        lemma_live_listed(init, i);
        let k = choose|k: int| 0 <= k < live_ids(init).len() && live_ids(init)[k] == vms[i].id;
        assert(ids[k] == vms[i].id);
    }
}

/// A script has completed exactly where it ended with the exit code zero; every other end, and a
/// guest that could not be asked, is a failure.
pub proof fn only_zero_completes(outcome: Result<i32, AgentErrorView>)
    ensures
        userdata_status(outcome) == "completed"@ <==> outcome == Ok::<i32, AgentErrorView>(0),
        userdata_status(outcome) == "failed"@ <==> outcome != Ok::<i32, AgentErrorView>(0),
{
    reveal_strlit("completed");
    reveal_strlit("failed");
    assert("completed"@.len() != "failed"@.len());
}

/// Of a log that is cut the end is kept, and no log that is at most ten mebibytes long is cut.
pub proof fn end_of_the_log_is_kept(file_name: Seq<char>, len: u64)
    ensures
        rotation_start(file_name, len) matches Some(start) ==> start + 5 * 1024 * 1024 == len,
        len <= 10 * 1024 * 1024 ==> rotation_start(file_name, len) is None,
        len > 10 * 1024 * 1024 && text::ends_with(file_name, ".serial.log"@) ==> rotation_start(
            file_name,
            len,
        ) is Some,
{
}

/// The serial log of a VM is among the files that are looked at.
pub proof fn serial_logs_are_rotated(runtime_dir: Seq<char>, id: u128, len: u64)
    requires
        len > MAX_SERIAL_LOG,
    ensures
        rotation_start(crate::firecracker::paths_for(runtime_dir, id).serial_log_path, len) is Some,
{
    let name = ident::uuid_text(id) + ".serial.log"@;
    let p = crate::path::joined(runtime_dir, name);
    ident::lemma_uuid_start(id);
    crate::path::names_stay_apart(runtime_dir, name, name);
    let n = ".serial.log"@.len();
    assert(p.skip(p.len() - name.len()) =~= name);
    assert(p.skip(p.len() - n) =~= name.skip(name.len() - n));
    assert(name.skip(name.len() - n) =~= ".serial.log"@);
}

} // verus!
