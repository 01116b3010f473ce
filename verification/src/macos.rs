//! The backend for hosts with the virtualisation framework of macOS.
//!
//! A running machine is backed by a runner process. The backend keeps what it
//! knows of those processes, decides from what the caller saw of them, and
//! asks the caller for every step on the host: to create a disk image, to
//! launch or kill a runner, to remove what a dead runner left behind.

use vstd::prelude::*;
use crate::hypervisor::{
    arg_views, differ_in_state_only, effect_views, launch_view, listed, lists, vm_views, Arg,
    ArgView, Effect, EffectView, ErrorView, Host, Hypervisor, HypervisorError, Launch, LaunchView,
    RunnerCommand, SharedDirectory, SharedDirectoryView, Started, StartedView, VmConfig,
    VmConfigView, VmInfo, VmInfoView, VmState,
};
use crate::registry::{
    after_state, checked_mount_outcome, create_outcome, id_view, lemma_ids_ignore_states,
    lemma_mount_ignores_states, lemma_position_ignores_states, lemma_position_of,
    lemma_same_state_changes_nothing, lookup_outcome, position_of, record_for, shares_view,
    unit_view, with_state, Registry,
};
use crate::store::{
    dedup_last_wins, document_of, has_id, ids_distinct, next_number, VmStoreFile, CURRENT_VERSION,
};
use crate::supervisor::{
    disk_path_text, no_runner, vm_disk_path_text, Runner, RunnerState, Supervision,
};
use crate::text::{decimal, format_decimal, join2};

verus! {

/// Bytes in a gigabyte of disk.
pub const GIB: u64 = 1_073_741_824;

/// The largest disk, in gigabytes, whose size in bytes can be written down.
pub const MAX_DISK_GB: u64 = 17_179_869_183;

/// What the ids of this backend begin with.
pub open spec fn vz_prefix() -> Seq<char> {
    "vz-"@
}

/// What creating a machine comes to: translation must be there if it is
/// asked for, every declared host path must exist, then the name and the
/// numbers decide, and at last the disk must have a size that can be written
/// down in bytes.
pub open spec fn macos_create_outcome(
    vms: Seq<VmInfoView>,
    prefix: Seq<char>,
    counter: u64,
    config: VmConfigView,
    host: Host,
) -> Result<Seq<char>, ErrorView> {
    let missing = host.first_missing(config.shared_dirs);
    if config.rosetta && !host.translation {
        Err(
            ErrorView::RosettaUnavailable(
                "Rosetta is only available on Apple Silicon Macs with macOS 13+"@,
            ),
        )
    } else if missing < config.shared_dirs.len() {
        Err(
            ErrorView::VirtioFsError(
                "Host path does not exist: "@ + config.shared_dirs[missing].host_path,
            ),
        )
    } else {
        match create_outcome(vms, prefix, counter, config.name) {
            Err(e) => Err(e),
            Ok(id) => if config.disk_gb * GIB > u64::MAX {
                Err(ErrorView::CreateFailed("disk size overflow"@))
            } else {
                Ok(id)
            },
        }
    }
}

/// What is asked of the host to end the process behind a machine: the child
/// is killed if there is one, and else the recorded process.
pub open spec fn kill_effects(id: Seq<char>, runner: RunnerState) -> Seq<EffectView> {
    if runner.owned {
        seq![EffectView::KillChild(id)]
    } else if runner.pid is Some {
        seq![EffectView::KillPid(runner.pid->0)]
    } else {
        Seq::empty()
    }
}

/// Whether the process behind the machine `id` was seen to be gone.
pub open spec fn lost_process(id: Seq<char>, runner: RunnerState, host: Host) -> bool {
    ||| runner.owned && lists(host.exited_children@, id)
    ||| runner.pid is Some && lists(host.dead_runners@, id)
}

/// What is known of the process behind the machine `id` after a look at
/// the host: a child that has exited is forgotten, and so is a recorded
/// process that no longer answers.
pub open spec fn seen_runner(id: Seq<char>, runner: RunnerState, host: Host) -> RunnerState {
    if runner.owned && lists(host.exited_children@, id) {
        no_runner()
    } else if runner.pid is Some && lists(host.dead_runners@, id) {
        RunnerState { pid: None, owned: runner.owned }
    } else {
        runner
    }
}

/// The state of a machine after a look at the host: stopped if its process
/// is gone, running if a process is recorded for it, and else as declared.
pub open spec fn seen_state(vm: VmInfoView, runner: RunnerState, host: Host) -> VmState {
    if lost_process(vm.id, runner, host) {
        VmState::Stopped
    } else if runner.pid is Some {
        VmState::Running
    } else {
        vm.state
    }
}

/// Whether a look at the host changes what is known of a machine.
pub open spec fn needs_update(vm: VmInfoView, runner: RunnerState, host: Host) -> bool {
    lost_process(vm.id, runner, host) || (runner.pid is Some && vm.state != VmState::Running)
}

/// Whether a machine counts as running without a launch: a recorded process
/// answers, or a child is held.
pub open spec fn counts_as_running(id: Seq<char>, runner: RunnerState, host: Host) -> bool {
    (runner.pid is Some && !lists(host.dead_runners@, id)) || runner.owned
}

/// Why a runner cannot be launched for the machine `id`, if it cannot: no
/// boot image is configured, or the machine has no disk image where the
/// data directory should hold it.
pub open spec fn launch_refusal(id: Seq<char>, host: Host) -> Option<ErrorView> {
    if host.kernel is None {
        Some(ErrorView::CreateFailed("CARGOBAY_VZ_KERNEL is required to start a macOS VZ VM"@))
    } else if !lists(host.disks@, id) {
        Some(
            ErrorView::CreateFailed(
                "VM disk image not found: "@ + disk_path_text(host.data_dir@, id),
            ),
        )
    } else {
        None
    }
}

/// What starting the machine `id` comes to when `runner` is what is known of
/// its process: an unknown id is refused, a machine that counts as running
/// runs, and for any other a runner is to be launched if one can be.
pub open spec fn macos_start_outcome(
    vms: Seq<VmInfoView>,
    id: Seq<char>,
    runner: RunnerState,
    host: Host,
) -> Result<StartedView, ErrorView> {
    if !has_id(vms, id) {
        Err(ErrorView::NotFound(id))
    } else if counts_as_running(id, runner, host) {
        Ok(StartedView::Running)
    } else {
        match launch_refusal(id, host) {
            Some(e) => Err(e),
            None => Ok(StartedView::Launch(id, runner_args(vms[position_of(vms, id)], host))),
        }
    }
}

/// The command line of the runner for `vm`.
pub open spec fn runner_args(vm: VmInfoView, host: Host) -> Seq<ArgView> {
    let fixed = seq![
        ArgView::Text("--kernel"@),
        ArgView::Text(host.kernel->0@),
        ArgView::Text("--disk"@),
        ArgView::DiskPath,
        ArgView::Text("--cpus"@),
        ArgView::Text(decimal(vm.cpus as nat)),
        ArgView::Text("--memory-mb"@),
        ArgView::Text(decimal(vm.memory_mb as nat)),
        ArgView::Text("--cmdline"@),
        ArgView::Text(
            match host.cmdline {
                Some(c) => c@,
                None => "console=hvc0"@,
            },
        ),
        ArgView::Text("--ready-file"@),
        ArgView::ReadyMarkerPath,
    ];
    match host.initrd {
        Some(i) => fixed + seq![ArgView::Text("--initrd"@), ArgView::Text(i@)],
        None => fixed,
    }
}

/// A machine whose pid file names a process that answers.
#[derive(Debug, PartialEq, Eq)]
pub struct Recovered {
    pub id: String,
    pub pid: u32,
}

/// The process recovered for the machine `id`, if one was.
pub open spec fn recovered_pid(found: Seq<Recovered>, id: Seq<char>) -> Option<u32>
    decreases found.len(),
{
    if found.len() == 0 {
        None
    } else if found[0].id@ == id {
        Some(found[0].pid)
    } else {
        recovered_pid(found.skip(1), id)
    }
}

/// The process recovered for the machine `id`, if one was.
pub fn find_recovered(found: &Vec<Recovered>, id: &str) -> (pid: Option<u32>)
    ensures
        pid == recovered_pid(found@, id@),
{
    let wanted = id.to_owned();
    let mut i: usize = 0;
    proof {
        assert(found@.skip(0) =~= found@);
    }
    while i < found.len()
        invariant
            i <= found.len(),
            wanted@ == id@,
            recovered_pid(found@, id@) == recovered_pid(found@.skip(i as int), id@),
        decreases found.len() - i,
    {
        proof {
            assert(found@.skip(i as int)[0] == found@[i as int]);
            assert(found@.skip(i as int).skip(1) =~= found@.skip(i + 1));
        }
        if found[i].id == wanted {
            return Some(found[i].pid);
        }
        i = i + 1;
    }
    None
}

/// The state in which a loaded machine starts: running if its process was
/// recovered, stopped if not.
pub open spec fn recovered_state(found: Seq<Recovered>, id: Seq<char>) -> VmState {
    if recovered_pid(found, id) is Some {
        VmState::Running
    } else {
        VmState::Stopped
    }
}

/// The loaded records, each in the state that the recovery of its process
/// gives it.
pub open spec fn recovered_records(vms: Seq<VmInfoView>, found: Seq<Recovered>) -> Seq<VmInfoView> {
    Seq::new(vms.len(), |i: int| with_state(vms[i], recovered_state(found, vms[i].id)))
}

/// What is asked of the host for the first `n` loaded machines: to remove
/// what the runner left behind, for each whose process was not recovered.
pub open spec fn stale_files(vms: Seq<VmInfoView>, found: Seq<Recovered>, n: int) -> Seq<
    EffectView,
>
    decreases n,
{
    if n <= 0 {
        Seq::empty()
    } else if recovered_pid(found, vms[n - 1].id) is Some {
        stale_files(vms, found, n - 1)
    } else {
        stale_files(vms, found, n - 1).push(EffectView::RemoveRunnerFiles(vms[n - 1].id))
    }
}

/// Whether `hv` is a backend as it starts from the records `loaded` and the
/// recovered processes `found`. A machine whose process was recovered runs,
/// and its process is known; every other machine is stopped, and what its
/// runner left behind is to be removed. Nothing waits to be saved.
pub open spec fn starts_from(
    hv: MacOSHypervisor,
    loaded: Seq<VmInfoView>,
    found: Seq<Recovered>,
) -> bool {
    &&& hv.records() == recovered_records(dedup_last_wins(loaded), found)
    &&& hv.counter() == next_number(loaded, vz_prefix())
    &&& hv.id_prefix() == vz_prefix()
    &&& hv.unsettled() is None
    &&& forall|id: Seq<char>|
        #[trigger] hv.runner(id) == if has_id(dedup_last_wins(loaded), id) && recovered_pid(
            found,
            id,
        ) is Some {
            RunnerState { pid: recovered_pid(found, id), owned: false }
        } else {
            no_runner()
        }
    &&& hv.outbox() == stale_files(
        dedup_last_wins(loaded),
        found,
        dedup_last_wins(loaded).len() as int,
    )
    &&& hv.on_saved().len() == 0
    &&& hv.on_not_saved().len() == 0
}

/// The backend for the virtualisation framework of macOS.
#[derive(Debug)]
pub struct MacOSHypervisor {
    registry: Registry,
    runners: Supervision,
    runners_fallback: Option<Supervision>,
    outbox: Vec<Effect>,
    if_saved: Vec<Effect>,
    if_not_saved: Vec<Effect>,
}

impl MacOSHypervisor {
    /// What is known of the process behind the machine `id`.
    pub closed spec fn runner(&self, id: Seq<char>) -> RunnerState {
        self.runners.state(id)
    }

    /// What will be known of the process behind the machine `id` if the
    /// change that waits to be saved cannot be saved; `None` when a failed
    /// save changes nothing of it.
    pub closed spec fn runner_fallback(&self, id: Seq<char>) -> Option<RunnerState> {
        match self.runners_fallback {
            Some(prev) => Some(prev.state(id)),
            None => None,
        }
    }

    /// Whether the same is known of every process here and in `other`.
    pub open spec fn same_runners(&self, other: &MacOSHypervisor) -> bool {
        forall|id: Seq<char>| #[trigger] self.runner(id) == other.runner(id)
    }

    /// Whether the same is to happen here and in `other` when the change that
    /// waits is saved or cannot be saved.
    pub open spec fn same_pending(&self, other: &MacOSHypervisor) -> bool {
        &&& self.on_saved() == other.on_saved()
        &&& self.on_not_saved() == other.on_not_saved()
        &&& forall|id: Seq<char>| #[trigger] self.runner_fallback(id) == other.runner_fallback(id)
    }

    /// What is asked of the host for the first `n` machines after a look at
    /// it: to remove what the runner left behind, for each machine whose
    /// process is gone.
    pub open spec fn lost_files(&self, host: Host, n: int) -> Seq<EffectView>
        decreases n,
    {
        if n <= 0 {
            Seq::empty()
        } else {
            let vm = self.records()[n - 1];
            if lost_process(vm.id, self.runner(vm.id), host) {
                self.lost_files(host, n - 1).push(EffectView::RemoveRunnerFiles(vm.id))
            } else {
                self.lost_files(host, n - 1)
            }
        }
    }

    /// Whether a look at the host changes what is known of any of the first
    /// `n` machines.
    pub open spec fn any_update(&self, host: Host, n: int) -> bool {
        exists|k: int|
            0 <= k < n && needs_update(
                #[trigger] self.records()[k],
                self.runner(self.records()[k].id),
                host,
            )
    }

    /// Whether `list` names the machines with a recorded process or a child
    /// process, each with what is known of its process, and no other.
    pub open spec fn supervises(&self, list: Seq<Runner>) -> bool {
        &&& forall|k: int|
            0 <= k < list.len() ==> (#[trigger] list[k]).state == self.runner(list[k].id@)
                && list[k].state != no_runner()
        &&& forall|id: Seq<char>|
            self.runner(id) != no_runner() ==> exists|k: int|
                0 <= k < list.len() && (#[trigger] list[k]).id@ == id
    }

    /// What the backend wants done on the host and has not handed over.
    pub closed spec fn outbox(&self) -> Seq<EffectView> {
        effect_views(self.outbox@)
    }

    /// What the backend will want done once the change that waits is saved.
    pub closed spec fn on_saved(&self) -> Seq<EffectView> {
        effect_views(self.if_saved@)
    }

    /// What the backend will want done if the change that waits cannot be
    /// saved.
    pub closed spec fn on_not_saved(&self) -> Seq<EffectView> {
        effect_views(self.if_not_saved@)
    }

    spec fn same_but_outbox(&self, other: &MacOSHypervisor) -> bool {
        &&& self.registry == other.registry
        &&& self.runners == other.runners
        &&& self.runners_fallback == other.runners_fallback
        &&& self.if_saved == other.if_saved
        &&& self.if_not_saved == other.if_not_saved
    }

    fn emit(&mut self, effect: Effect)
        ensures
            final(self).outbox() == old(self).outbox().push(effect@),
            final(self).same_but_outbox(old(self)),
    {
        let ghost before = effect_views(self.outbox@);
        self.outbox.push(effect);
        proof {
            assert(effect_views(self.outbox@) =~= before.push(effect@));
        }
    }

    fn emit_kill(&mut self, id: &str, runner: RunnerState)
        ensures
            final(self).outbox() == old(self).outbox() + kill_effects(id@, runner),
            final(self).same_but_outbox(old(self)),
    {
        let ghost before = self.outbox();
        if runner.owned {
            self.emit(Effect::KillChild(id.to_owned()));
            proof {
                assert(self.outbox() =~= before + kill_effects(id@, runner));
            }
        } else {
            match runner.pid {
                Some(pid) => {
                    self.emit(Effect::KillPid(pid));
                    proof {
                        assert(self.outbox() =~= before + kill_effects(id@, runner));
                    }
                },
                None => {
                    proof {
                        assert(self.outbox() =~= before + kill_effects(id@, runner));
                    }
                },
            }
        }
    }

    /// A backend that starts from the records `loaded`. A machine whose
    /// process was recovered runs; every other machine is stopped, and what
    /// its runner left behind is to be removed.
    pub fn new(loaded: Vec<VmInfo>, found: Vec<Recovered>) -> (hv: MacOSHypervisor)
        ensures
            starts_from(hv, vm_views(loaded@), found@),
    {
        let mut hv = MacOSHypervisor {
            registry: Registry::new("vz-", loaded),
            runners: Supervision::new(),
            runners_fallback: None,
            outbox: Vec::new(),
            if_saved: Vec::new(),
            if_not_saved: Vec::new(),
        };
        let ghost start = hv.registry.records();
        proof {
            use_type_invariant(&hv.registry);
            hv.registry.lemma_inv();
            assert(hv.outbox() =~= stale_files(start, found@, 0));
            assert(hv.on_saved() =~= Seq::empty());
            assert(hv.on_not_saved() =~= Seq::empty());
        }
        let n = hv.registry.len();
        let mut i: usize = 0;
        while i < n
            invariant
                i <= n,
                n == start.len(),
                ids_distinct(start),
                hv.registry.records().len() == n,
                hv.registry.counter() == next_number(vm_views(loaded@), vz_prefix()),
                hv.registry.id_prefix() == vz_prefix(),
                hv.registry.unsettled() is None,
                hv.runners_fallback is None,
                hv.if_saved@.len() == 0,
                hv.if_not_saved@.len() == 0,
                forall|k: int|
                    0 <= k < i ==> (#[trigger] hv.registry.records()[k]) == with_state(
                        start[k],
                        recovered_state(found@, start[k].id),
                    ),
                forall|k: int| i <= k < n ==> (#[trigger] hv.registry.records()[k]) == start[k],
                forall|id: Seq<char>|
                    #[trigger] hv.runners.state(id) == if (exists|k: int|
                        0 <= k < i && (#[trigger] start[k]).id == id) && recovered_pid(found@, id)
                        is Some {
                        RunnerState { pid: recovered_pid(found@, id), owned: false }
                    } else {
                        no_runner()
                    },
                hv.outbox() == stale_files(start, found@, i as int),
            decreases n - i,
        {
            let ghost before = hv;
            let id = hv.registry.get(i).id.clone();
            proof {
                assert(id@ == start[i as int].id);
            }
            match find_recovered(&found, id.as_str()) {
                Some(pid) => {
                    hv.registry.mark_state(i, VmState::Running);
                    hv.runners.set(id.as_str(), RunnerState { pid: Some(pid), owned: false });
                },
                None => {
                    hv.registry.mark_state(i, VmState::Stopped);
                    hv.emit(Effect::RemoveRunnerFiles(id));
                },
            }
            proof {
                assert forall|other: Seq<char>|
                    #[trigger] hv.runners.state(other) == if (exists|k: int|
                        0 <= k < i + 1 && (#[trigger] start[k]).id == other) && recovered_pid(
                        found@,
                        other,
                    ) is Some {
                        RunnerState { pid: recovered_pid(found@, other), owned: false }
                    } else {
                        no_runner()
                    } by {
                    if other == start[i as int].id {
                        assert(start[i as int].id == other);
                    } else {
                        if exists|k: int| 0 <= k < i + 1 && (#[trigger] start[k]).id == other {
                            let k = choose|k: int| 0 <= k < i + 1 && (#[trigger] start[k]).id == other;
                            assert(0 <= k < i && start[k].id == other);
                        }
                    }
                }
            }
            i = i + 1;
        }
        proof {
            assert(hv.registry.records() =~= recovered_records(start, found@));
            assert forall|id: Seq<char>|
                #[trigger] hv.runner(id) == if has_id(start, id) && recovered_pid(found@, id)
                    is Some {
                    RunnerState { pid: recovered_pid(found@, id), owned: false }
                } else {
                    no_runner()
                } by {
                if has_id(start, id) {
                    let k = choose|k: int| 0 <= k < start.len() && (#[trigger] start[k]).id == id;
                    assert(0 <= k < n && start[k].id == id);
                }
            }
            assert(hv.on_saved() =~= Seq::empty());
            assert(hv.on_not_saved() =~= Seq::empty());
        }
        hv
    }

    /// The document that holds the records as they are now.
    pub fn persist(&self) -> (file: VmStoreFile)
        ensures
            file@ == document_of(self.records()),
    {
        VmStoreFile { version: CURRENT_VERSION, vms: self.registry.list() }
    }

    /// The machines with a recorded process or a child process: the
    /// processes for the caller to look at before it calls the backend.
    pub fn supervised(&self) -> (list: Vec<Runner>)
        ensures
            self.supervises(list@),
    {
        self.runners.supervised()
    }

    fn set_pending(&mut self, restored: Supervision, if_saved: Vec<Effect>, if_not_saved: Vec<Effect>)
        ensures
            final(self).registry == old(self).registry,
            final(self).runners == old(self).runners,
            final(self).outbox == old(self).outbox,
            forall|id: Seq<char>|
                #[trigger] final(self).runner_fallback(id) == Some(restored.state(id)),
            final(self).on_saved() == effect_views(if_saved@),
            final(self).on_not_saved() == effect_views(if_not_saved@),
    {
        self.runners_fallback = Some(restored);
        self.if_saved = if_saved;
        self.if_not_saved = if_not_saved;
    }
}

/// How declaring a machine changes what the backend wants of the host, where
/// `r` is what the caller was told. A refusal changes nothing. Else the disk
/// image of the new machine is asked for, and its directory is to be removed
/// if the change cannot be saved. Nothing new is known of any process.
pub open spec fn create_step(
    before: MacOSHypervisor,
    config: VmConfigView,
    r: Result<Seq<char>, ErrorView>,
    after: MacOSHypervisor,
) -> bool {
    &&& after.same_runners(&before)
    &&& r is Err ==> after.outbox() == before.outbox() && after.same_pending(&before)
    &&& r is Ok ==> {
        let id = r->Ok_0;
        &&& after.records() == before.records().push(record_for(config, id, config.rosetta))
        &&& after.outbox() == before.outbox().push(
            EffectView::CreateDisk(id, (config.disk_gb * GIB) as u64),
        )
        &&& after.on_saved() == Seq::<EffectView>::empty()
        &&& after.on_not_saved() == seq![EffectView::RemoveVmDir(id)]
        &&& forall|x: Seq<char>| #[trigger] after.runner_fallback(x) == Some(before.runner(x))
    }
}

/// What is known of the process behind the machine `id` once it is asked to
/// start: a recorded process that no longer answers is forgotten.
pub open spec fn runner_at_start(id: Seq<char>, runner: RunnerState, host: Host) -> RunnerState {
    if runner.pid is Some && lists(host.dead_runners@, id) {
        RunnerState { pid: None, owned: runner.owned }
    } else {
        runner
    }
}

/// How starting the machine `id` changes what the backend knows of processes
/// and wants of the host.
///
/// A machine that runs, with a process that answers, is left as it is:
/// nothing is asked for and nothing is to be saved. For an unknown id nothing
/// changes. Else a process that no longer answers is forgotten, and what it
/// left behind is to be removed; then the records are to be saved if the
/// machine counts as running and its record said otherwise, and the stale
/// readiness marker is to be removed if a runner is to be launched.
pub open spec fn start_step(
    before: MacOSHypervisor,
    id: Seq<char>,
    host: Host,
    after: MacOSHypervisor,
) -> bool {
    &&& after.same_pending(&before)
    &&& has_id(before.records(), id) && before.records()[position_of(before.records(), id)].state
        == VmState::Running && counts_as_running(id, before.runner(id), host) && !lists(
        host.dead_runners@,
        id,
    ) ==> {
        &&& after.records() == before.records()
        &&& after.outbox() == before.outbox()
        &&& after.same_runners(&before)
        &&& after.unsettled() == before.unsettled()
    }
    &&& !has_id(before.records(), id) ==> after.outbox() == before.outbox() && after.same_runners(
        &before,
    )
    &&& has_id(before.records(), id) ==> {
        let vm = before.records()[position_of(before.records(), id)];
        let seen = runner_at_start(id, before.runner(id), host);
        let cleanup = if seen != before.runner(id) {
            seq![EffectView::RemoveRunnerFiles(id)]
        } else {
            Seq::<EffectView>::empty()
        };
        &&& forall|x: Seq<char>|
            #[trigger] after.runner(x) == if x == id {
                seen
            } else {
                before.runner(x)
            }
        &&& after.outbox() == before.outbox() + cleanup + if counts_as_running(
            id,
            before.runner(id),
            host,
        ) {
            if vm.state != VmState::Running {
                seq![EffectView::Save(after.records())]
            } else {
                Seq::<EffectView>::empty()
            }
        } else if launch_refusal(id, host) is Some {
            Seq::<EffectView>::empty()
        } else {
            seq![EffectView::RemoveReadyMarker(id)]
        }
    }
}

/// How stopping the machine `id` changes what the backend knows of processes
/// and wants of the host. For an unknown id nothing changes. Else the process
/// is to be killed, what the runner left behind is to be removed, and nothing
/// is known of a process any more; if the change cannot be saved, the
/// recorded process id comes back, a child does not.
pub open spec fn stop_step(before: MacOSHypervisor, id: Seq<char>, after: MacOSHypervisor) -> bool {
    if has_id(before.records(), id) {
        let runner = before.runner(id);
        &&& after.outbox() == (before.outbox() + kill_effects(id, runner)).push(
            EffectView::RemoveRunnerFiles(id),
        )
        &&& forall|x: Seq<char>|
            #[trigger] after.runner(x) == if x == id {
                no_runner()
            } else {
                before.runner(x)
            }
        &&& forall|x: Seq<char>|
            #[trigger] after.runner_fallback(x) == Some(
                if x == id {
                    RunnerState { pid: runner.pid, owned: false }
                } else {
                    before.runner(x)
                },
            )
        &&& after.on_saved() == Seq::<EffectView>::empty()
        &&& after.on_not_saved() == Seq::<EffectView>::empty()
    } else {
        &&& after.outbox() == before.outbox()
        &&& after.same_runners(&before)
        &&& after.same_pending(&before)
    }
}

/// How removing the machine `id` changes what the backend knows of processes
/// and wants of the host. For an unknown id nothing changes. Else the machine
/// is stopped as [`stop_step`] says, and the stopped record is to be saved;
/// once the removal is saved the machine's directory is to be removed, and
/// if it cannot be saved the stopped record comes back.
pub open spec fn delete_step(before: MacOSHypervisor, id: Seq<char>, after: MacOSHypervisor) -> bool {
    if has_id(before.records(), id) {
        let stopped = after_state(before.records(), id, VmState::Stopped);
        &&& after.unsettled() == Some(stopped)
        &&& after.outbox() == (before.outbox() + kill_effects(id, before.runner(id))).push(
            EffectView::RemoveRunnerFiles(id),
        ).push(EffectView::Save(stopped))
        &&& forall|x: Seq<char>|
            #[trigger] after.runner(x) == if x == id {
                no_runner()
            } else {
                before.runner(x)
            }
        &&& forall|x: Seq<char>| #[trigger] after.runner_fallback(x) == Some(after.runner(x))
        &&& after.on_saved() == seq![EffectView::RemoveVmDir(id)]
        &&& after.on_not_saved() == Seq::<EffectView>::empty()
    } else {
        &&& after.outbox() == before.outbox()
        &&& after.same_runners(&before)
        &&& after.same_pending(&before)
    }
}

/// How listing the machines after a look at the host changes the backend. A
/// machine whose process is gone is stopped, its process is forgotten, and
/// what its runner left behind is to be removed; a machine with a recorded
/// process that answers runs. If anything changed, the records are to be
/// saved: after the loss of a process of a running machine that request is
/// the last one made.
pub open spec fn list_step(before: MacOSHypervisor, host: Host, after: MacOSHypervisor) -> bool {
    &&& after.records() == before.seen_records(host)
    &&& forall|id: Seq<char>|
        #[trigger] after.runner(id) == if has_id(before.records(), id) {
            seen_runner(id, before.runner(id), host)
        } else {
            before.runner(id)
        }
    &&& after.same_pending(&before)
    &&& after.outbox() == before.outbox() + before.lost_files(host, before.records().len() as int)
        + if before.any_update(host, before.records().len() as int) {
        seq![EffectView::Save(after.records())]
    } else {
        Seq::<EffectView>::empty()
    }
    &&& forall|i: int|
        0 <= i < before.records().len() && (#[trigger] before.records()[i]).state
            == VmState::Running && lost_process(
            before.records()[i].id,
            before.runner(before.records()[i].id),
            host,
        ) ==> after.records()[i].state == VmState::Stopped && after.outbox().last()
            == EffectView::Save(after.records())
}

/// How a change of the shares of a machine, made or refused, changes what
/// the backend knows of processes and wants of the host: nothing is asked
/// for and nothing new is known of any process; a change that was made has
/// nothing follow its save.
pub open spec fn share_step(before: MacOSHypervisor, made: bool, after: MacOSHypervisor) -> bool {
    &&& after.outbox() == before.outbox()
    &&& after.same_runners(&before)
    &&& !made ==> after.same_pending(&before)
    &&& made ==> {
        &&& after.on_saved() == Seq::<EffectView>::empty()
        &&& after.on_not_saved() == Seq::<EffectView>::empty()
        &&& forall|x: Seq<char>| #[trigger] after.runner_fallback(x) == Some(before.runner(x))
    }
}

/// What a report on the launch of the runner for the machine `id` comes to:
/// a runner that became ready is accepted for a machine that is known, and a
/// launch that failed is the error it is.
pub open spec fn launch_outcome(vms: Seq<VmInfoView>, id: Seq<char>, launch: LaunchView) -> Result<
    (),
    ErrorView,
> {
    match launch {
        LaunchView::Ready(_) => lookup_outcome(vms, id),
        LaunchView::SpawnFailed(m) => Err(ErrorView::Io(m)),
        LaunchView::ExitedEarly(status) => Err(
            ErrorView::CreateFailed("cargobay-vz exited early: "@ + status),
        ),
        LaunchView::TimedOut => Err(ErrorView::CreateFailed("Timed out waiting for VM to start"@)),
    }
}

/// How a report on the launch of the runner for the machine `id` changes
/// what the backend knows of processes and wants of the host. A report that
/// is refused changes nothing. Else the machine has a child with the reported
/// process id; once that is saved the pid file is to be written, and if it
/// cannot be saved the child is to be killed.
pub open spec fn launch_step(
    before: MacOSHypervisor,
    id: Seq<char>,
    launch: LaunchView,
    after: MacOSHypervisor,
) -> bool {
    &&& after.outbox() == before.outbox()
    &&& if launch_outcome(before.records(), id, launch) is Ok {
        let pid = launch->Ready_0;
        &&& forall|x: Seq<char>|
            #[trigger] after.runner(x) == if x == id {
                RunnerState { pid: Some(pid), owned: true }
            } else {
                before.runner(x)
            }
        &&& forall|x: Seq<char>| #[trigger] after.runner_fallback(x) == Some(before.runner(x))
        &&& after.on_saved() == seq![EffectView::WritePidFile(id, pid)]
        &&& after.on_not_saved() == seq![EffectView::KillChild(id)]
    } else {
        after.same_runners(&before) && after.same_pending(&before)
    }
}

/// How the end of the wait for a save changes what the backend knows of
/// processes and wants of the host. After a save that went through, what was
/// to follow it is asked for. After one that failed, what is known of the
/// processes is what it was before the change, and what was to make up for
/// the failure is asked for.
pub open spec fn settle_step(before: MacOSHypervisor, saved: bool, after: MacOSHypervisor) -> bool {
    &&& after.on_saved() == Seq::<EffectView>::empty()
    &&& after.on_not_saved() == Seq::<EffectView>::empty()
    &&& forall|x: Seq<char>| #[trigger] after.runner_fallback(x) is None
    &&& saved ==> after.same_runners(&before) && after.outbox() == before.outbox()
        + before.on_saved()
    &&& !saved ==> {
        &&& after.outbox() == before.outbox() + before.on_not_saved()
        &&& forall|x: Seq<char>|
            #[trigger] after.runner(x) == match before.runner_fallback(x) {
                Some(state) => state,
                None => before.runner(x),
            }
    }
}

/// How handing over `effects` changes the backend: they are what it wanted
/// done, oldest first, and it wants nothing more.
pub open spec fn take_step(
    before: MacOSHypervisor,
    effects: Seq<EffectView>,
    after: MacOSHypervisor,
) -> bool {
    &&& effects == before.outbox()
    &&& after.outbox() == Seq::<EffectView>::empty()
    &&& after.same_runners(&before)
    &&& after.same_pending(&before)
}

impl Hypervisor for MacOSHypervisor {
    closed spec fn records(&self) -> Seq<VmInfoView> {
        self.registry.records()
    }

    closed spec fn unsettled(&self) -> Option<Seq<VmInfoView>> {
        self.registry.unsettled()
    }

    closed spec fn id_prefix(&self) -> Seq<char> {
        self.registry.id_prefix()
    }

    closed spec fn counter(&self) -> u64 {
        self.registry.counter()
    }

    open spec fn create_verdict(&self, config: VmConfigView, host: Host) -> Result<Seq<char>, ErrorView> {
        macos_create_outcome(self.records(), self.id_prefix(), self.counter(), config, host)
    }

    open spec fn start_verdict(&self, id: Seq<char>, host: Host) -> Result<StartedView, ErrorView> {
        macos_start_outcome(self.records(), id, self.runner(id), host)
    }

    /// The records after a look at the host.
    open spec fn seen_records(&self, host: Host) -> Seq<VmInfoView> {
        Seq::new(
            self.records().len(),
            |i: int|
                with_state(
                    self.records()[i],
                    seen_state(self.records()[i], self.runner(self.records()[i].id), host),
                ),
        )
    }

    open spec fn seen_start_verdict(&self, id: Seq<char>, host: Host) -> Result<
        StartedView,
        ErrorView,
    > {
        macos_start_outcome(
            self.records(),
            id,
            seen_runner(id, self.runner(id), host),
            host,
        )
    }

    open spec fn mount_verdict(&self, id: Seq<char>, share: SharedDirectoryView, host: Host) -> Result<
        (),
        ErrorView,
    > {
        checked_mount_outcome(self.records(), id, share, host)
    }

    open spec fn report_verdict(&self, id: Seq<char>, launch: LaunchView) -> Result<(), ErrorView> {
        launch_outcome(self.records(), id, launch)
    }

    open spec fn wanted(&self) -> Seq<EffectView> {
        self.outbox()
    }

    /// Declares a machine on a host that is fit for it, and asks for its
    /// disk image. If the change cannot be saved, the machine's directory is
    /// to be removed.
    fn create_vm(&mut self, config: VmConfig, host: &Host) -> (r: Result<String, HypervisorError>)
        ensures
            id_view(r) == macos_create_outcome(
                old(self).records(),
                old(self).id_prefix(),
                old(self).counter(),
                config@,
                *host,
            ),
            create_step(*old(self), config@, id_view(r), *final(self)),
    {
        if config.rosetta && !host.translation {
            return Err(
                HypervisorError::RosettaUnavailable(
                    "Rosetta is only available on Apple Silicon Macs with macOS 13+".to_owned(),
                ),
            );
        }
        match host.find_missing(&config.shared_dirs) {
            Some(i) => {
                return Err(
                    HypervisorError::VirtioFsError(
                        join2("Host path does not exist: ", config.shared_dirs[i].host_path.as_str()),
                    ),
                );
            },
            None => {},
        }
        let fits = config.disk_gb <= MAX_DISK_GB;
        proof {
            assert(fits <==> config.disk_gb * GIB <= u64::MAX);
        }
        if !fits && !self.registry.name_in_use(config.name.as_str()) && self.registry.next_id()
            != u64::MAX {
            return Err(HypervisorError::CreateFailed("disk size overflow".to_owned()));
        }
        let bytes: u64 = if fits {
            config.disk_gb * GIB
        } else {
            0
        };
        let rosetta = config.rosetta;
        match self.registry.create(config, rosetta) {
            Err(e) => Err(e),
            Ok(id) => {
                let restored = self.runners.snapshot();
                let mut undo: Vec<Effect> = Vec::new();
                undo.push(Effect::RemoveVmDir(id.clone()));
                proof {
                    assert(effect_views(undo@) =~= seq![EffectView::RemoveVmDir(id@)]);
                    assert(effect_views(Seq::<Effect>::empty()) =~= Seq::<EffectView>::empty());
                }
                self.emit(Effect::CreateDisk(id.clone(), bytes));
                self.set_pending(restored, Vec::new(), undo);
                Ok(id)
            },
        }
    }

    /// Starts a machine, or says what has to be launched for it.
    ///
    /// A recorded process that no longer answers is forgotten first, and what
    /// it left behind is to be removed. A machine with a process that answers,
    /// or with a child, counts as running and is not launched again; if its
    /// record said otherwise, the record is put right and is to be saved. For
    /// any other machine a runner is to be launched, once the stale readiness
    /// marker is removed.
    fn start_vm(&mut self, id: &str, host: &Host) -> (r: Result<Started, HypervisorError>)
        ensures
            start_step(*old(self), id@, *host, *final(self)),
    {
        let place = match self.registry.position(id) {
            None => {
                return Err(HypervisorError::NotFound(id.to_owned()));
            },
            Some(i) => i,
        };
        let ghost entry = *self;
        let ghost vm = self.registry.records()[place as int];
        proof {
            if vm.state == VmState::Running {
                lemma_same_state_changes_nothing(self.registry.records(), id@, VmState::Running);
            }
        }
        let before = self.runners.get(id);
        let mut runner = before;
        if runner.pid.is_some() && listed(&host.dead_runners, id) {
            runner = RunnerState { pid: None, owned: runner.owned };
            self.runners.set(id, runner);
            self.emit(Effect::RemoveRunnerFiles(id.to_owned()));
        }
        let ghost cleanup = if runner != before {
            seq![EffectView::RemoveRunnerFiles(id@)]
        } else {
            Seq::<EffectView>::empty()
        };
        proof {
            assert(self.outbox() =~= entry.outbox() + cleanup);
        }
        if runner.pid.is_some() || runner.owned {
            let was_running = match self.registry.get(place).state {
                VmState::Running => true,
                _ => false,
            };
            self.registry.mark_state(place, VmState::Running);
            if !was_running {
                let now = self.registry.list();
                self.emit(Effect::Save(now));
                proof {
                    assert(self.outbox() =~= entry.outbox() + cleanup + seq![
                        EffectView::Save(self.records()),
                    ]);
                }
            } else {
                proof {
                    assert(self.outbox() =~= entry.outbox() + cleanup + Seq::<EffectView>::empty());
                }
            }
            return Ok(Started::Running);
        }
        let kernel = match &host.kernel {
            None => {
                return Err(
                    HypervisorError::CreateFailed(
                        "CARGOBAY_VZ_KERNEL is required to start a macOS VZ VM".to_owned(),
                    ),
                );
            },
            Some(k) => k.clone(),
        };
        if !listed(&host.disks, id) {
            let path = vm_disk_path_text(host.data_dir.as_str(), id);
            return Err(
                HypervisorError::CreateFailed(join2("VM disk image not found: ", path.as_str())),
            );
        }
        self.emit(Effect::RemoveReadyMarker(id.to_owned()));
        let info = self.registry.get(place);
        let mut args: Vec<Arg> = Vec::new();
        args.push(Arg::Text("--kernel".to_owned()));
        args.push(Arg::Text(kernel));
        args.push(Arg::Text("--disk".to_owned()));
        args.push(Arg::DiskPath);
        args.push(Arg::Text("--cpus".to_owned()));
        args.push(Arg::Text(format_decimal(info.cpus as u64)));
        args.push(Arg::Text("--memory-mb".to_owned()));
        args.push(Arg::Text(format_decimal(info.memory_mb)));
        args.push(Arg::Text("--cmdline".to_owned()));
        match &host.cmdline {
            Some(c) => {
                args.push(Arg::Text(c.clone()));
            },
            None => {
                args.push(Arg::Text("console=hvc0".to_owned()));
            },
        }
        args.push(Arg::Text("--ready-file".to_owned()));
        args.push(Arg::ReadyMarkerPath);
        match &host.initrd {
            Some(i) => {
                args.push(Arg::Text("--initrd".to_owned()));
                args.push(Arg::Text(i.clone()));
            },
            None => {},
        }
        proof {
            assert(arg_views(args@) =~= runner_args(vm, *host));
            assert(self.outbox() =~= entry.outbox() + cleanup + seq![
                EffectView::RemoveReadyMarker(id@),
            ]);
        }
        Ok(Started::Launch(RunnerCommand { vm_id: id.to_owned(), args }))
    }

    /// Stops a machine: its process is to be killed, what the runner left
    /// behind is to be removed, and nothing is known of a process any more.
    /// If the change cannot be saved, the recorded process id comes back; a
    /// child does not.
    fn stop_vm(&mut self, id: &str) -> (r: Result<(), HypervisorError>)
        ensures
            unit_view(r) == lookup_outcome(old(self).records(), id@),
            stop_step(*old(self), id@, *final(self)),
    {
        match self.registry.set_state(id, VmState::Stopped) {
            Err(e) => Err(e),
            Ok(()) => {
                let before = self.runners.get(id);
                let mut restored = self.runners.snapshot();
                restored.set(id, RunnerState { pid: before.pid, owned: false });
                self.runners.set(id, RunnerState { pid: None, owned: false });
                proof {
                    assert(effect_views(Seq::<Effect>::empty()) =~= Seq::<EffectView>::empty());
                }
                self.emit_kill(id, before);
                self.emit(Effect::RemoveRunnerFiles(id.to_owned()));
                self.set_pending(restored, Vec::new(), Vec::new());
                Ok(())
            },
        }
    }

    /// Removes a machine. It is stopped first, as [`Hypervisor::stop_vm`]
    /// stops it, and the stopped record is to be saved; then the record is
    /// taken out. Once that is saved the machine's directory is to be
    /// removed; if it cannot be saved the stopped record comes back.
    fn delete_vm(&mut self, id: &str) -> (r: Result<(), HypervisorError>)
        ensures
            unit_view(r) == lookup_outcome(old(self).records(), id@),
            delete_step(*old(self), id@, *final(self)),
    {
        let place = match self.registry.position(id) {
            None => {
                return Err(HypervisorError::NotFound(id.to_owned()));
            },
            Some(i) => i,
        };
        let ghost start = self.registry.records();
        let before = self.runners.get(id);
        self.registry.mark_state(place, VmState::Stopped);
        self.runners.set(id, RunnerState { pid: None, owned: false });
        self.emit_kill(id, before);
        self.emit(Effect::RemoveRunnerFiles(id.to_owned()));
        let stopped = self.registry.list();
        self.emit(Effect::Save(stopped));
        let ghost halted = self.registry.records();
        proof {
            use_type_invariant(&self.registry);
            self.registry.lemma_inv();
            assert(halted[place as int].id == id@);
            lemma_position_of(halted, place as int);
            assert(has_id(halted, id@));
            assert(halted.remove(place as int) =~= start.remove(place as int));
        }
        let removed = self.registry.remove(id);
        let restored = self.runners.snapshot();
        let mut then: Vec<Effect> = Vec::new();
        then.push(Effect::RemoveVmDir(id.to_owned()));
        proof {
            assert(effect_views(then@) =~= seq![EffectView::RemoveVmDir(id@)]);
            assert(effect_views(Seq::<Effect>::empty()) =~= Seq::<EffectView>::empty());
        }
        self.set_pending(restored, then, Vec::new());
        Ok(())
    }

    /// Lists the machines after a look at the host. A machine whose process
    /// is gone is stopped, and what its runner left behind is to be removed;
    /// a machine with a recorded process that answers runs. If anything
    /// changed, the records are to be saved.
    fn list_vms(&mut self, host: &Host) -> (r: Result<Vec<VmInfo>, HypervisorError>)
        ensures
            list_step(*old(self), *host, *final(self)),
    {
        let ghost before = *self;
        let ghost start = self.registry.records();
        proof {
            use_type_invariant(&self.registry);
            self.registry.lemma_inv();
            assert(self.outbox() =~= before.outbox() + before.lost_files(*host, 0));
        }
        let n = self.registry.len();
        let mut changed = false;
        let mut i: usize = 0;
        while i < n
            invariant
                i <= n,
                n == start.len(),
                start == before.records(),
                ids_distinct(start),
                self.registry.records().len() == n,
                self.registry.counter() == before.registry.counter(),
                self.registry.id_prefix() == before.registry.id_prefix(),
                self.registry.unsettled() == before.registry.unsettled(),
                self.runners_fallback == before.runners_fallback,
                self.if_saved == before.if_saved,
                self.if_not_saved == before.if_not_saved,
                forall|k: int|
                    0 <= k < i ==> (#[trigger] self.registry.records()[k]) == with_state(
                        start[k],
                        seen_state(start[k], before.runner(start[k].id), *host),
                    ),
                forall|k: int| i <= k < n ==> (#[trigger] self.registry.records()[k]) == start[k],
                forall|id: Seq<char>|
                    #[trigger] self.runners.state(id) == if exists|k: int|
                        0 <= k < i && (#[trigger] start[k]).id == id {
                        seen_runner(id, before.runner(id), *host)
                    } else {
                        before.runner(id)
                    },
                self.outbox() == before.outbox() + before.lost_files(*host, i as int),
                changed == before.any_update(*host, i as int),
            decreases n - i,
        {
            let id = self.registry.get(i).id.clone();
            let declared = self.registry.get(i).state;
            let runner = self.runners.get(id.as_str());
            let ghost so_far = self.outbox();
            proof {
                assert(id@ == start[i as int].id);
                assert(declared == start[i as int].state);
                if exists|k: int| 0 <= k < i && (#[trigger] start[k]).id == id@ {
                    let k = choose|k: int| 0 <= k < i && (#[trigger] start[k]).id == id@;
                    assert(start[k].id != start[i as int].id);
                }
                assert(runner == before.runner(id@));
            }
            let exited = runner.owned && listed(&host.exited_children, id.as_str());
            let dead = runner.pid.is_some() && listed(&host.dead_runners, id.as_str());
            if exited {
                self.runners.set(id.as_str(), RunnerState { pid: None, owned: false });
                self.registry.mark_state(i, VmState::Stopped);
                self.emit(Effect::RemoveRunnerFiles(id));
                changed = true;
            } else if dead {
                self.runners.set(id.as_str(), RunnerState { pid: None, owned: runner.owned });
                self.registry.mark_state(i, VmState::Stopped);
                self.emit(Effect::RemoveRunnerFiles(id));
                changed = true;
            } else if runner.pid.is_some() {
                let running = match declared {
                    VmState::Running => true,
                    _ => false,
                };
                if !running {
                    self.registry.mark_state(i, VmState::Running);
                    changed = true;
                }
            }
            proof {
                let vm = start[i as int];
                assert(self.outbox() =~= before.outbox() + before.lost_files(*host, i + 1));
                assert(self.registry.records()[i as int] == with_state(
                    vm,
                    seen_state(vm, before.runner(vm.id), *host),
                ));
                assert forall|other: Seq<char>|
                    #[trigger] self.runners.state(other) == if exists|k: int|
                        0 <= k < i + 1 && (#[trigger] start[k]).id == other {
                        seen_runner(other, before.runner(other), *host)
                    } else {
                        before.runner(other)
                    } by {
                    if other == vm.id {
                        assert(start[i as int].id == other);
                    } else {
                        if exists|k: int| 0 <= k < i + 1 && (#[trigger] start[k]).id == other {
                            let k = choose|k: int| 0 <= k < i + 1 && (#[trigger] start[k]).id == other;
                            assert(0 <= k < i && start[k].id == other);
                        }
                    }
                }
                if before.any_update(*host, i as int) {
                    let k = choose|k: int|
                        0 <= k < i && needs_update(
                            #[trigger] before.records()[k],
                            before.runner(before.records()[k].id),
                            *host,
                        );
                    assert(0 <= k < i + 1 && needs_update(
                        before.records()[k],
                        before.runner(before.records()[k].id),
                        *host,
                    ));
                }
                if needs_update(vm, before.runner(vm.id), *host) {
                    assert(needs_update(
                        before.records()[i as int],
                        before.runner(before.records()[i as int].id),
                        *host,
                    ));
                }
                if before.any_update(*host, i + 1) {
                    let k = choose|k: int|
                        0 <= k < i + 1 && needs_update(
                            #[trigger] before.records()[k],
                            before.runner(before.records()[k].id),
                            *host,
                        );
                    if k < i {
                        assert(before.any_update(*host, i as int));
                    }
                }
            }
            i = i + 1;
        }
        let ghost cleaned = self.outbox();
        if changed {
            let now = self.registry.list();
            self.emit(Effect::Save(now));
        }
        proof {
            assert(self.registry.records() =~= before.seen_records(*host));
            assert(self.outbox() =~= before.outbox() + before.lost_files(*host, n as int) + if changed {
                seq![EffectView::Save(self.records())]
            } else {
                Seq::<EffectView>::empty()
            });
            assert forall|id: Seq<char>|
                #[trigger] self.runner(id) == if has_id(before.records(), id) {
                    seen_runner(id, before.runner(id), *host)
                } else {
                    before.runner(id)
                } by {
                if has_id(start, id) {
                    let k = choose|k: int| 0 <= k < start.len() && (#[trigger] start[k]).id == id;
                    assert(0 <= k < n && start[k].id == id);
                }
            }
            assert forall|k: int|
                0 <= k < before.records().len() && (#[trigger] before.records()[k]).state
                    == VmState::Running && lost_process(
                    before.records()[k].id,
                    before.runner(before.records()[k].id),
                    *host,
                ) implies self.records()[k].state == VmState::Stopped && self.outbox().last()
                == EffectView::Save(self.records()) by {
                assert(needs_update(
                    before.records()[k],
                    before.runner(before.records()[k].id),
                    *host,
                ));
                assert(before.any_update(*host, n as int));
            }
            assert(differ_in_state_only(before.records(), self.records()));
            use_type_invariant(&self.registry);
            self.registry.lemma_inv();
            assert forall|id: Seq<char>, share: SharedDirectoryView| #[trigger]
                self.mount_verdict(id, share, *host) == before.mount_verdict(id, share, *host) by {
                lemma_mount_ignores_states(before.records(), self.records(), id, share.tag);
            }
            assert forall|id: Seq<char>| #[trigger]
                self.start_verdict(id, *host) == before.seen_start_verdict(id, *host) by {
                lemma_ids_ignore_states(before.records(), self.records(), id);
                if has_id(self.records(), id) {
                    lemma_position_ignores_states(before.records(), self.records(), id);
                    let p = position_of(self.records(), id);
                    assert(self.records()[p] == with_state(
                        before.records()[p],
                        self.records()[p].state,
                    ));
                }
            }
        }
        Ok(self.registry.list())
    }

    /// Whether the caller saw binary translation on the host.
    fn rosetta_available(&self, host: &Host) -> (available: bool)
        ensures
            available == host.translation,
    {
        host.translation
    }

    /// Adds the share to the machine, if its host path exists.
    fn mount_virtiofs(&mut self, vm_id: &str, share: &SharedDirectory, host: &Host) -> (r: Result<
        (),
        HypervisorError,
    >)
        ensures
            unit_view(r) == checked_mount_outcome(old(self).records(), vm_id@, share@, *host),
            share_step(*old(self), r is Ok, *final(self)),
    {
        if !host.has_path(share.host_path.as_str()) {
            return Err(
                HypervisorError::VirtioFsError(
                    join2("Host path does not exist: ", share.host_path.as_str()),
                ),
            );
        }
        match self.registry.add_share(vm_id, share) {
            Err(e) => Err(e),
            Ok(()) => {
                let restored = self.runners.snapshot();
                proof {
                    assert(effect_views(Seq::<Effect>::empty()) =~= Seq::<EffectView>::empty());
                }
                self.set_pending(restored, Vec::new(), Vec::new());
                Ok(())
            },
        }
    }

    /// Takes the shares tagged `tag` from the machine.
    fn unmount_virtiofs(&mut self, vm_id: &str, tag: &str) -> (r: Result<(), HypervisorError>)
        ensures
            unit_view(r) == lookup_outcome(old(self).records(), vm_id@),
            share_step(*old(self), r is Ok, *final(self)),
    {
        match self.registry.remove_share(vm_id, tag) {
            Err(e) => Err(e),
            Ok(()) => {
                let restored = self.runners.snapshot();
                proof {
                    assert(effect_views(Seq::<Effect>::empty()) =~= Seq::<EffectView>::empty());
                }
                self.set_pending(restored, Vec::new(), Vec::new());
                Ok(())
            },
        }
    }

    /// The shares of the machine.
    fn list_virtiofs_mounts(&self, vm_id: &str) -> (r: Result<
        Vec<SharedDirectory>,
        HypervisorError,
    >)
        ensures
            shares_view(r) == if has_id(self.records(), vm_id@) {
                Ok::<Seq<SharedDirectoryView>, ErrorView>(
                    self.records()[position_of(self.records(), vm_id@)].shared_dirs,
                )
            } else {
                Err::<Seq<SharedDirectoryView>, ErrorView>(ErrorView::NotFound(vm_id@))
            },
    {
        self.registry.shares(vm_id)
    }

    /// Takes note of how a launch went. A runner that became ready makes its
    /// machine run, as a child with the reported process id; once that is
    /// saved the pid file is to be written, and if it cannot be saved the
    /// child is to be killed. A launch that failed changes nothing and is
    /// reported as the error it is.
    fn launch_finished(&mut self, id: &str, launch: Launch) -> (r: Result<(), HypervisorError>)
        ensures
            launch_step(*old(self), id@, launch_view(launch), *final(self)),
    {
        match launch {
            Launch::SpawnFailed(m) => Err(HypervisorError::Io(m)),
            Launch::ExitedEarly(status) => Err(
                HypervisorError::CreateFailed(join2("cargobay-vz exited early: ", status.as_str())),
            ),
            Launch::TimedOut => Err(
                HypervisorError::CreateFailed("Timed out waiting for VM to start".to_owned()),
            ),
            Launch::Ready(pid) => {
                match self.registry.set_state(id, VmState::Running) {
                    Err(e) => Err(e),
                    Ok(()) => {
                        let restored = self.runners.snapshot();
                        self.runners.set(id, RunnerState { pid: Some(pid), owned: true });
                        let mut then: Vec<Effect> = Vec::new();
                        then.push(Effect::WritePidFile(id.to_owned(), pid));
                        let mut undo: Vec<Effect> = Vec::new();
                        undo.push(Effect::KillChild(id.to_owned()));
                        proof {
                            assert(effect_views(then@) =~= seq![EffectView::WritePidFile(id@, pid)]);
                            assert(effect_views(undo@) =~= seq![EffectView::KillChild(id@)]);
                        }
                        self.set_pending(restored, then, undo);
                        Ok(())
                    },
                }
            },
        }
    }

    fn needs_save(&self) -> (waiting: bool) {
        self.registry.is_unsettled()
    }

    /// Ends the wait for a save. After a save that went through, what was to
    /// follow it is asked for. After one that failed, the records and what is
    /// known of the processes are what they were before the change, and what
    /// was to make up for the failure is asked for.
    fn settle(&mut self, outcome: Result<(), HypervisorError>) -> (r: Result<(), HypervisorError>)
        ensures
            settle_step(*old(self), outcome is Ok, *final(self)),
    {
        let failed = outcome.is_err();
        let r = self.registry.settle(outcome);
        let mut kept: Option<Supervision> = None;
        std::mem::swap(&mut self.runners_fallback, &mut kept);
        let mut then: Vec<Effect> = Vec::new();
        std::mem::swap(&mut self.if_saved, &mut then);
        let mut undo: Vec<Effect> = Vec::new();
        std::mem::swap(&mut self.if_not_saved, &mut undo);
        let ghost sent = effect_views(self.outbox@);
        proof {
            assert(effect_views(Seq::<Effect>::empty()) =~= Seq::<EffectView>::empty());
        }
        if failed {
            match kept {
                Some(prev) => {
                    self.runners = prev;
                },
                None => {},
            }
            let ghost extra = effect_views(undo@);
            self.outbox.append(&mut undo);
            proof {
                assert(effect_views(self.outbox@) =~= sent + extra);
            }
        } else {
            let ghost extra = effect_views(then@);
            self.outbox.append(&mut then);
            proof {
                assert(effect_views(self.outbox@) =~= sent + extra);
            }
        }
        r
    }

    /// Hands over what the backend wants done on the host, oldest first.
    fn take_effects(&mut self) -> (effects: Vec<Effect>)
        ensures
            take_step(*old(self), effect_views(effects@), *final(self)),
    {
        let mut effects: Vec<Effect> = Vec::new();
        std::mem::swap(&mut self.outbox, &mut effects);
        proof {
            assert(effect_views(self.outbox@) =~= Seq::<EffectView>::empty());
        }
        effects
    }
}

} // verus!
