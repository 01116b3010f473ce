//! The data model shared by every backend: machine records, shared
//! directories, lifecycle states and the error taxonomy.
//!
//! Every executable type has a mathematical view made of sequences and plain
//! values; contracts across the crate are stated over those views.

use vstd::prelude::*;
use crate::registry::{
    after_mount, after_remove, after_state, after_unmount, has_name, id_view, lookup_outcome,
    position_of, record_for, shares_view, unit_view, with_state,
};
use crate::store::{has_id, ids_distinct, numbered_id};

verus! {

/// Lifecycle state of a machine.
///
/// `Creating` is a label only: a machine is handed out in `Stopped`.
#[derive(Debug, Clone, Copy, PartialEq, Eq, Structural)]
pub enum VmState {
    Running,
    Stopped,
    Creating,
}

/// A host directory made visible inside a machine.
#[derive(Debug, PartialEq, Eq)]
pub struct SharedDirectory {
    /// Identifies the mount inside its machine.
    pub tag: String,
    /// Directory on the host.
    pub host_path: String,
    /// Mount point in the guest.
    pub guest_path: String,
    /// Whether the guest may only read.
    pub read_only: bool,
}

/// What a [`SharedDirectory`] is, as plain values.
pub struct SharedDirectoryView {
    pub tag: Seq<char>,
    pub host_path: Seq<char>,
    pub guest_path: Seq<char>,
    pub read_only: bool,
}

impl View for SharedDirectory {
    type V = SharedDirectoryView;

    open spec fn view(&self) -> SharedDirectoryView {
        SharedDirectoryView {
            tag: self.tag@,
            host_path: self.host_path@,
            guest_path: self.guest_path@,
            read_only: self.read_only,
        }
    }
}

impl Clone for SharedDirectory {
    fn clone(&self) -> (copy: Self)
        ensures
            copy == *self,
    {
        SharedDirectory {
            tag: self.tag.clone(),
            host_path: self.host_path.clone(),
            guest_path: self.guest_path.clone(),
            read_only: self.read_only,
        }
    }
}

/// The views of a sequence of shares, in order.
pub open spec fn share_views(dirs: Seq<SharedDirectory>) -> Seq<SharedDirectoryView> {
    Seq::new(dirs.len(), |i: int| dirs[i]@)
}

/// Copies a list of shares.
pub fn clone_shares(dirs: &Vec<SharedDirectory>) -> (copy: Vec<SharedDirectory>)
    ensures
        copy@ == dirs@,
{
    let mut copy: Vec<SharedDirectory> = Vec::new();
    let mut i: usize = 0;
    while i < dirs.len()
        invariant
            i <= dirs.len(),
            copy@ == dirs@.take(i as int),
        decreases dirs.len() - i,
    {
        copy.push(dirs[i].clone());
        proof {
            assert(dirs@.take(i + 1) =~= dirs@.take(i as int).push(dirs@[i as int]));
        }
        i = i + 1;
    }
    proof {
        assert(dirs@.take(dirs.len() as int) =~= dirs@);
    }
    copy
}

/// What a caller asks for when creating a machine.
#[derive(Debug, PartialEq, Eq)]
pub struct VmConfig {
    pub name: String,
    pub cpus: u32,
    pub memory_mb: u64,
    pub disk_gb: u64,
    /// Ask for host-to-guest binary translation.
    pub rosetta: bool,
    /// Directories to share from the start.
    pub shared_dirs: Vec<SharedDirectory>,
}

/// What a [`VmConfig`] is, as plain values.
pub struct VmConfigView {
    pub name: Seq<char>,
    pub cpus: u32,
    pub memory_mb: u64,
    pub disk_gb: u64,
    pub rosetta: bool,
    pub shared_dirs: Seq<SharedDirectoryView>,
}

impl View for VmConfig {
    type V = VmConfigView;

    open spec fn view(&self) -> VmConfigView {
        VmConfigView {
            name: self.name@,
            cpus: self.cpus,
            memory_mb: self.memory_mb,
            disk_gb: self.disk_gb,
            rosetta: self.rosetta,
            shared_dirs: share_views(self.shared_dirs@),
        }
    }
}

impl Clone for VmConfig {
    fn clone(&self) -> (copy: Self)
        ensures
            copy@ == self@,
    {
        VmConfig {
            name: self.name.clone(),
            cpus: self.cpus,
            memory_mb: self.memory_mb,
            disk_gb: self.disk_gb,
            rosetta: self.rosetta,
            shared_dirs: clone_shares(&self.shared_dirs),
        }
    }
}

impl Default for VmConfig {
    fn default() -> (config: Self)
        ensures
            config@ == (VmConfigView {
                name: "default"@,
                cpus: 2,
                memory_mb: 2048,
                disk_gb: 20,
                rosetta: false,
                shared_dirs: Seq::empty(),
            }),
    {
        let config = VmConfig {
            name: "default".to_owned(),
            cpus: 2,
            memory_mb: 2048,
            disk_gb: 20,
            rosetta: false,
            shared_dirs: Vec::new(),
        };
        proof {
            assert(share_views(config.shared_dirs@) =~= Seq::empty());
        }
        config
    }
}

/// Disk capacity, in gigabytes, of a record that declares none.
pub fn default_disk_gb() -> (gb: u64)
    ensures
        gb == 20,
{
    20
}

/// A declared machine, as the registry tracks it.
#[derive(Debug, PartialEq, Eq)]
pub struct VmInfo {
    pub id: String,
    pub name: String,
    pub state: VmState,
    pub cpus: u32,
    pub memory_mb: u64,
    pub disk_gb: u64,
    /// Whether binary translation is enabled.
    pub rosetta_enabled: bool,
    /// Declared shares, in the order they were added.
    pub shared_dirs: Vec<SharedDirectory>,
}

/// What a [`VmInfo`] is, as plain values.
pub struct VmInfoView {
    pub id: Seq<char>,
    pub name: Seq<char>,
    pub state: VmState,
    pub cpus: u32,
    pub memory_mb: u64,
    pub disk_gb: u64,
    pub rosetta_enabled: bool,
    pub shared_dirs: Seq<SharedDirectoryView>,
}

impl View for VmInfo {
    type V = VmInfoView;

    open spec fn view(&self) -> VmInfoView {
        VmInfoView {
            id: self.id@,
            name: self.name@,
            state: self.state,
            cpus: self.cpus,
            memory_mb: self.memory_mb,
            disk_gb: self.disk_gb,
            rosetta_enabled: self.rosetta_enabled,
            shared_dirs: share_views(self.shared_dirs@),
        }
    }
}

impl Clone for VmInfo {
    fn clone(&self) -> (copy: Self)
        ensures
            copy@ == self@,
    {
        VmInfo {
            id: self.id.clone(),
            name: self.name.clone(),
            state: self.state,
            cpus: self.cpus,
            memory_mb: self.memory_mb,
            disk_gb: self.disk_gb,
            rosetta_enabled: self.rosetta_enabled,
            shared_dirs: clone_shares(&self.shared_dirs),
        }
    }
}

/// The views of a sequence of records, in order.
pub open spec fn vm_views(vms: Seq<VmInfo>) -> Seq<VmInfoView> {
    Seq::new(vms.len(), |i: int| vms[i]@)
}

/// Copies a list of records.
pub fn clone_vms(vms: &Vec<VmInfo>) -> (copy: Vec<VmInfo>)
    ensures
        vm_views(copy@) == vm_views(vms@),
{
    let mut copy: Vec<VmInfo> = Vec::new();
    let mut i: usize = 0;
    while i < vms.len()
        invariant
            i <= vms.len(),
            copy.len() == i,
            forall|k: int| 0 <= k < i ==> copy@[k]@ == vms@[k]@,
        decreases vms.len() - i,
    {
        copy.push(vms[i].clone());
        i = i + 1;
    }
    proof {
        assert(vm_views(copy@) =~= vm_views(vms@));
    }
    copy
}

/// Why a backend operation did not succeed.
#[derive(Debug, PartialEq, Eq)]
pub enum HypervisorError {
    /// The machine could not be created or launched.
    CreateFailed(String),
    /// No machine has the given id.
    NotFound(String),
    /// The platform has no backend.
    Unsupported,
    /// Binary translation was asked for and cannot be had.
    RosettaUnavailable(String),
    /// A share was refused.
    VirtioFsError(String),
    /// The registry document could not be read or written.
    Storage(String),
    /// The host reported an input/output failure; the text is the host's.
    Io(String),
}

/// What a [`HypervisorError`] is, as plain values.
pub enum ErrorView {
    CreateFailed(Seq<char>),
    NotFound(Seq<char>),
    Unsupported,
    RosettaUnavailable(Seq<char>),
    VirtioFsError(Seq<char>),
    Storage(Seq<char>),
    Io(Seq<char>),
}

impl View for HypervisorError {
    type V = ErrorView;

    open spec fn view(&self) -> ErrorView {
        match self {
            HypervisorError::CreateFailed(m) => ErrorView::CreateFailed(m@),
            HypervisorError::NotFound(m) => ErrorView::NotFound(m@),
            HypervisorError::Unsupported => ErrorView::Unsupported,
            HypervisorError::RosettaUnavailable(m) => ErrorView::RosettaUnavailable(m@),
            HypervisorError::VirtioFsError(m) => ErrorView::VirtioFsError(m@),
            HypervisorError::Storage(m) => ErrorView::Storage(m@),
            HypervisorError::Io(m) => ErrorView::Io(m@),
        }
    }
}

impl Clone for HypervisorError {
    fn clone(&self) -> (copy: Self)
        ensures
            copy == *self,
    {
        match self {
            HypervisorError::CreateFailed(m) => HypervisorError::CreateFailed(m.clone()),
            HypervisorError::NotFound(m) => HypervisorError::NotFound(m.clone()),
            HypervisorError::Unsupported => HypervisorError::Unsupported,
            HypervisorError::RosettaUnavailable(m) => HypervisorError::RosettaUnavailable(
                m.clone(),
            ),
            HypervisorError::VirtioFsError(m) => HypervisorError::VirtioFsError(m.clone()),
            HypervisorError::Storage(m) => HypervisorError::Storage(m.clone()),
            HypervisorError::Io(m) => HypervisorError::Io(m.clone()),
        }
    }
}

/// What the caller saw of the host just before it calls a backend.
///
/// A backend decides on these facts alone. What is not listed counts as
/// absent: a path that is not among `existing_paths` does not exist.
#[derive(Debug, PartialEq, Eq)]
pub struct Host {
    /// Whether the hardware acceleration that the backend runs on is there.
    pub accelerator: bool,
    /// Whether binary translation can be had on this host.
    pub translation: bool,
    /// Those of the host paths named in the call that exist.
    pub existing_paths: Vec<String>,
    /// Ids of machines whose recorded process no longer answers.
    pub dead_runners: Vec<String>,
    /// Ids of machines whose child process has exited.
    pub exited_children: Vec<String>,
    /// Ids of machines whose disk image exists.
    pub disks: Vec<String>,
    /// The data directory, as its path is written; empty where the caller
    /// names files from the directory it works in.
    pub data_dir: String,
    /// Boot image for the runner, if one is configured.
    pub kernel: Option<String>,
    /// Initial ramdisk for the runner, if one is configured.
    pub initrd: Option<String>,
    /// Kernel command line for the runner, if one is configured.
    pub cmdline: Option<String>,
}

/// Whether `text` is one of `list`.
pub open spec fn lists(list: Seq<String>, text: Seq<char>) -> bool {
    exists|i: int| 0 <= i < list.len() && (#[trigger] list[i])@ == text
}

/// Whether `text` is one of `list`.
pub fn listed(list: &Vec<String>, text: &str) -> (found: bool)
    ensures
        found == lists(list@, text@),
{
    let wanted = text.to_owned();
    let mut i: usize = 0;
    while i < list.len()
        invariant
            i <= list.len(),
            wanted@ == text@,
            forall|k: int| 0 <= k < i ==> (#[trigger] list@[k])@ != text@,
        decreases list.len() - i,
    {
        if list[i] == wanted {
            return true;
        }
        i = i + 1;
    }
    false
}

impl Host {
    /// A host on which nothing was seen: no acceleration, no translation,
    /// no path, no dead process, no disk image, no data directory, no runner
    /// configuration.
    pub fn bare() -> (host: Host)
        ensures
            !host.accelerator,
            !host.translation,
            host.existing_paths@.len() == 0,
            host.dead_runners@.len() == 0,
            host.exited_children@.len() == 0,
            host.disks@.len() == 0,
            host.data_dir@.len() == 0,
            host.kernel is None,
            host.initrd is None,
            host.cmdline is None,
    {
        Host {
            accelerator: false,
            translation: false,
            existing_paths: Vec::new(),
            dead_runners: Vec::new(),
            exited_children: Vec::new(),
            disks: Vec::new(),
            data_dir: String::new(),
            kernel: None,
            initrd: None,
            cmdline: None,
        }
    }

    /// Whether the caller saw `path` on the host.
    pub open spec fn path_exists(&self, path: Seq<char>) -> bool {
        lists(self.existing_paths@, path)
    }

    /// The place of the first of `dirs` whose host path was not seen;
    /// `dirs.len()` if all were seen.
    pub open spec fn first_missing(&self, dirs: Seq<SharedDirectoryView>) -> int
        decreases dirs.len(),
    {
        if dirs.len() == 0 {
            0
        } else if !self.path_exists(dirs[0].host_path) {
            0
        } else {
            1 + self.first_missing(dirs.skip(1))
        }
    }

    /// Whether the caller saw `path` on the host.
    pub fn has_path(&self, path: &str) -> (found: bool)
        ensures
            found == self.path_exists(path@),
    {
        listed(&self.existing_paths, path)
    }

    /// The first of `dirs` whose host path was not seen.
    pub fn find_missing(&self, dirs: &Vec<SharedDirectory>) -> (place: Option<usize>)
        ensures
            match place {
                Some(i) => i < dirs.len() && i == self.first_missing(share_views(dirs@)),
                None => self.first_missing(share_views(dirs@)) == dirs.len(),
            },
    {
        let ghost views = share_views(dirs@);
        let mut i: usize = 0;
        proof {
            assert(views.skip(0) =~= views);
        }
        while i < dirs.len()
            invariant
                i <= dirs.len(),
                views == share_views(dirs@),
                self.first_missing(views) == i + self.first_missing(views.skip(i as int)),
            decreases dirs.len() - i,
        {
            proof {
                assert(views.skip(i as int)[0] == views[i as int]);
                assert(views.skip(i as int).skip(1) =~= views.skip(i + 1));
            }
            if !self.has_path(dirs[i].host_path.as_str()) {
                return Some(i);
            }
            i = i + 1;
        }
        proof {
            assert(views.skip(dirs.len() as int).len() == 0);
        }
        None
    }
}

/// What a backend asks its caller to do on the host. Each is carried out once,
/// in the order given. A failure is not reported back, but for that of
/// [`Effect::CreateDisk`].
#[derive(Debug, PartialEq, Eq)]
pub enum Effect {
    /// Create the directory of the machine and in it a sparse disk image of
    /// this many bytes. This belongs to the change that waits to be saved: if
    /// it fails, the caller saves nothing and hands the failure to
    /// [`Hypervisor::settle`].
    CreateDisk(String, u64),
    /// Write these records to the registry document.
    Save(Vec<VmInfo>),
    /// Remove the pid file and the readiness marker of the machine.
    RemoveRunnerFiles(String),
    /// Remove the readiness marker of the machine.
    RemoveReadyMarker(String),
    /// Terminate the child process held for the machine and wait for it.
    KillChild(String),
    /// Send the kill signal to the process with this id.
    KillPid(u32),
    /// Write the process id to the pid file of the machine.
    WritePidFile(String, u32),
    /// Remove the directory of the machine with all it holds.
    RemoveVmDir(String),
}

/// What an [`Effect`] is, as plain values.
pub enum EffectView {
    CreateDisk(Seq<char>, u64),
    Save(Seq<VmInfoView>),
    RemoveRunnerFiles(Seq<char>),
    RemoveReadyMarker(Seq<char>),
    KillChild(Seq<char>),
    KillPid(u32),
    WritePidFile(Seq<char>, u32),
    RemoveVmDir(Seq<char>),
}

impl View for Effect {
    type V = EffectView;

    open spec fn view(&self) -> EffectView {
        match self {
            Effect::CreateDisk(id, bytes) => EffectView::CreateDisk(id@, *bytes),
            Effect::Save(vms) => EffectView::Save(vm_views(vms@)),
            Effect::RemoveRunnerFiles(id) => EffectView::RemoveRunnerFiles(id@),
            Effect::RemoveReadyMarker(id) => EffectView::RemoveReadyMarker(id@),
            Effect::KillChild(id) => EffectView::KillChild(id@),
            Effect::KillPid(pid) => EffectView::KillPid(*pid),
            Effect::WritePidFile(id, pid) => EffectView::WritePidFile(id@, *pid),
            Effect::RemoveVmDir(id) => EffectView::RemoveVmDir(id@),
        }
    }
}

/// The views of a sequence of effects, in order.
pub open spec fn effect_views(effects: Seq<Effect>) -> Seq<EffectView> {
    Seq::new(effects.len(), |i: int| effects[i]@)
}

/// One word of a runner's command line.
#[derive(Debug, PartialEq, Eq)]
pub enum Arg {
    /// The word as it stands.
    Text(String),
    /// The path of the machine's disk image.
    DiskPath,
    /// The path of the machine's readiness marker.
    ReadyMarkerPath,
}

/// What an [`Arg`] is, as plain values.
pub enum ArgView {
    Text(Seq<char>),
    DiskPath,
    ReadyMarkerPath,
}

impl View for Arg {
    type V = ArgView;

    open spec fn view(&self) -> ArgView {
        match self {
            Arg::Text(t) => ArgView::Text(t@),
            Arg::DiskPath => ArgView::DiskPath,
            Arg::ReadyMarkerPath => ArgView::ReadyMarkerPath,
        }
    }
}

/// The views of a command line, word by word.
pub open spec fn arg_views(args: Seq<Arg>) -> Seq<ArgView> {
    Seq::new(args.len(), |i: int| args[i]@)
}

/// The runner process to start for a machine.
#[derive(Debug, PartialEq, Eq)]
pub struct RunnerCommand {
    /// The machine that the runner is for.
    pub vm_id: String,
    /// The runner's arguments, in order.
    pub args: Vec<Arg>,
}

/// How far `start_vm` got.
#[derive(Debug, PartialEq, Eq)]
pub enum Started {
    /// The machine counts as running; nothing is left to launch.
    Running,
    /// The caller has to launch this runner and report how that went.
    Launch(RunnerCommand),
}

/// What a [`Started`] is, as plain values: for a launch, the machine and the
/// runner's command line.
pub enum StartedView {
    Running,
    Launch(Seq<char>, Seq<ArgView>),
}

impl View for Started {
    type V = StartedView;

    open spec fn view(&self) -> StartedView {
        match self {
            Started::Running => StartedView::Running,
            Started::Launch(command) => StartedView::Launch(
                command.vm_id@,
                arg_views(command.args@),
            ),
        }
    }
}

/// The view of what starting a machine returns.
pub open spec fn started_view(r: Result<Started, HypervisorError>) -> Result<StartedView, ErrorView> {
    match r {
        Ok(started) => Ok(started@),
        Err(e) => Err(e@),
    }
}

/// How the launch of a runner went.
#[derive(Debug, PartialEq, Eq)]
pub enum Launch {
    /// The readiness marker appeared; the runner has this process id.
    Ready(u32),
    /// The runner could not be started; the text is the host's.
    SpawnFailed(String),
    /// The runner exited before it was ready; the text is its exit status.
    ExitedEarly(String),
    /// The deadline passed and the runner was killed.
    TimedOut,
}

/// What a [`Launch`] is, as plain values.
pub enum LaunchView {
    Ready(u32),
    SpawnFailed(Seq<char>),
    ExitedEarly(Seq<char>),
    TimedOut,
}

/// The view of a launch report.
pub open spec fn launch_view(launch: Launch) -> LaunchView {
    match launch {
        Launch::Ready(pid) => LaunchView::Ready(pid),
        Launch::SpawnFailed(m) => LaunchView::SpawnFailed(m@),
        Launch::ExitedEarly(m) => LaunchView::ExitedEarly(m@),
        Launch::TimedOut => LaunchView::TimedOut,
    }
}

/// Whether `b` holds the records of `a` with nothing changed but states.
pub open spec fn differ_in_state_only(a: Seq<VmInfoView>, b: Seq<VmInfoView>) -> bool {
    &&& a.len() == b.len()
    &&& forall|i: int| 0 <= i < a.len() ==> #[trigger] b[i] == with_state(a[i], b[i].state)
}

/// The capability set of a backend.
///
/// A backend changes its records at once and keeps the records as they were
/// until [`Hypervisor::settle`] says whether the change was saved. The caller
/// settles each change before it asks for the next: a change that still waits
/// when the next one is made counts as saved. Each implementation states its
/// own, exact contract; what is stated here holds of every backend.
pub trait Hypervisor {
    /// The declared machines, in registry order.
    spec fn records(&self) -> Seq<VmInfoView>;

    /// The records to return to if the change that waits to be saved cannot
    /// be saved; `None` when no change waits.
    spec fn unsettled(&self) -> Option<Seq<VmInfoView>>;

    /// What every id given out by this backend begins with.
    spec fn id_prefix(&self) -> Seq<char>;

    /// The number that the next machine gets.
    spec fn counter(&self) -> u64;

    /// What asking for a machine comes to on this backend, on a host as the
    /// caller saw it: the id of the new machine, or the refusal.
    spec fn create_verdict(&self, config: VmConfigView, host: Host) -> Result<Seq<char>, ErrorView>;

    /// What starting the machine `id` comes to on this backend, on a host as
    /// the caller saw it.
    spec fn start_verdict(&self, id: Seq<char>, host: Host) -> Result<StartedView, ErrorView>;

    /// The records once the backend has looked at the host, as listing the
    /// machines makes it look: each state is brought up to date with what was
    /// seen of the machine's process.
    spec fn seen_records(&self, host: Host) -> Seq<VmInfoView>;

    /// What starting the machine `id` comes to once the backend has looked at
    /// the host, as listing the machines makes it look.
    spec fn seen_start_verdict(&self, id: Seq<char>, host: Host) -> Result<StartedView, ErrorView>;

    /// What adding `share` to the machine `id` comes to on this backend, on a
    /// host as the caller saw it.
    spec fn mount_verdict(&self, id: Seq<char>, share: SharedDirectoryView, host: Host) -> Result<
        (),
        ErrorView,
    >;

    /// What the backend wants done on the host and has not handed over,
    /// oldest first.
    spec fn wanted(&self) -> Seq<EffectView>;

    /// What a report on the launch of the runner for the machine `id` comes
    /// to on this backend.
    spec fn report_verdict(&self, id: Seq<char>, launch: LaunchView) -> Result<(), ErrorView>;

    /// Declares a machine and names its id, which is the backend's prefix
    /// followed by the next number. A name in use is refused. A refusal
    /// changes nothing.
    fn create_vm(&mut self, config: VmConfig, host: &Host) -> (r: Result<String, HypervisorError>)
        ensures
            id_view(r) == old(self).create_verdict(config@, *host),
            final(self).id_prefix() == old(self).id_prefix(),
            has_name(old(self).records(), config@.name) ==> r is Err,
            r is Err ==> {
                &&& final(self).records() == old(self).records()
                &&& final(self).unsettled() == old(self).unsettled()
                &&& final(self).counter() == old(self).counter()
            },
            r matches Ok(id) ==> {
                &&& id@ == numbered_id(old(self).id_prefix(), old(self).counter())
                &&& !has_id(old(self).records(), id@)
                &&& final(self).records() == old(self).records().push(
                    record_for(config@, id@, config@.rosetta),
                )
                &&& final(self).unsettled() == Some(old(self).records())
                &&& final(self).counter() == old(self).counter() + 1
            },
    ;

    /// Starts a machine, or says what has to be launched for it. An unknown
    /// id is refused. A refusal and a request to launch leave the records as
    /// they are.
    fn start_vm(&mut self, id: &str, host: &Host) -> (r: Result<Started, HypervisorError>)
        ensures
            started_view(r) == old(self).start_verdict(id@, *host),
            !(r matches Ok(Started::Running)) ==> final(self).start_verdict(id@, *host)
                == old(self).start_verdict(id@, *host),
            final(self).id_prefix() == old(self).id_prefix(),
            final(self).counter() == old(self).counter(),
            !has_id(old(self).records(), id@) ==> (r matches Err(e) && e@ == ErrorView::NotFound(
                id@,
            )),
            !(r matches Ok(Started::Running)) ==> {
                &&& final(self).records() == old(self).records()
                &&& final(self).unsettled() == old(self).unsettled()
            },
            r matches Ok(Started::Running) ==> final(self).records() == after_state(
                old(self).records(),
                id@,
                VmState::Running,
            ),
    ;

    /// Stops a machine. An unknown id is refused, and then nothing changes;
    /// nothing else is refused.
    fn stop_vm(&mut self, id: &str) -> (r: Result<(), HypervisorError>)
        ensures
            final(self).id_prefix() == old(self).id_prefix(),
            final(self).counter() == old(self).counter(),
            unit_view(r) == lookup_outcome(old(self).records(), id@),
            r is Err ==> {
                &&& final(self).records() == old(self).records()
                &&& final(self).unsettled() == old(self).unsettled()
            },
            r is Ok ==> {
                &&& final(self).records() == after_state(
                    old(self).records(),
                    id@,
                    VmState::Stopped,
                )
                &&& final(self).unsettled() == Some(old(self).records())
            },
    ;

    /// Removes a machine. An unknown id is refused, and then nothing changes;
    /// nothing else is refused.
    fn delete_vm(&mut self, id: &str) -> (r: Result<(), HypervisorError>)
        ensures
            final(self).id_prefix() == old(self).id_prefix(),
            final(self).counter() == old(self).counter(),
            unit_view(r) == lookup_outcome(old(self).records(), id@),
            r is Err ==> {
                &&& final(self).records() == old(self).records()
                &&& final(self).unsettled() == old(self).unsettled()
            },
            r is Ok ==> {
                &&& final(self).records() == after_remove(old(self).records(), id@)
                &&& !has_id(final(self).records(), id@)
                &&& final(self).unsettled() is Some
            },
    ;

    /// Lists the machines, after bringing their states up to date with what
    /// was seen of their processes. Nothing but states changes, and no id is
    /// listed twice.
    fn list_vms(&mut self, host: &Host) -> (r: Result<Vec<VmInfo>, HypervisorError>)
        ensures
            final(self).records() == old(self).seen_records(*host),
            ids_distinct(final(self).records()),
            forall|id: Seq<char>| #[trigger]
                final(self).start_verdict(id, *host) == old(self).seen_start_verdict(id, *host),
            forall|id: Seq<char>, share: SharedDirectoryView| #[trigger]
                final(self).mount_verdict(id, share, *host) == old(self).mount_verdict(
                    id,
                    share,
                    *host,
                ),
            final(self).id_prefix() == old(self).id_prefix(),
            final(self).counter() == old(self).counter(),
            r matches Ok(vms) && vm_views(vms@) == final(self).records(),
            differ_in_state_only(old(self).records(), final(self).records()),
            final(self).unsettled() == old(self).unsettled(),
    ;

    /// Whether binary translation can be had. Without a backend that offers
    /// it, it cannot.
    fn rosetta_available(&self, host: &Host) -> (available: bool)
        default_ensures
            !available,
    {
        false
    }

    /// Adds a share to a machine. An unknown id and a tag that the machine
    /// has are refused. A refusal changes nothing.
    fn mount_virtiofs(&mut self, vm_id: &str, share: &SharedDirectory, host: &Host) -> (r: Result<
        (),
        HypervisorError,
    >)
        ensures
            unit_view(r) == old(self).mount_verdict(vm_id@, share@, *host),
            r is Err ==> final(self).mount_verdict(vm_id@, share@, *host) == old(self).mount_verdict(
                vm_id@,
                share@,
                *host,
            ),
            final(self).id_prefix() == old(self).id_prefix(),
            final(self).counter() == old(self).counter(),
            r is Err ==> {
                &&& final(self).records() == old(self).records()
                &&& final(self).unsettled() == old(self).unsettled()
            },
            r is Ok ==> {
                &&& has_id(old(self).records(), vm_id@)
                &&& final(self).records() == after_mount(old(self).records(), vm_id@, share@)
                &&& final(self).unsettled() == Some(old(self).records())
            },
    ;

    /// Takes the shares with a tag from a machine. An unknown id is refused,
    /// and then nothing changes; nothing else is refused.
    fn unmount_virtiofs(&mut self, vm_id: &str, tag: &str) -> (r: Result<(), HypervisorError>)
        ensures
            final(self).id_prefix() == old(self).id_prefix(),
            final(self).counter() == old(self).counter(),
            unit_view(r) == lookup_outcome(old(self).records(), vm_id@),
            r is Err ==> {
                &&& final(self).records() == old(self).records()
                &&& final(self).unsettled() == old(self).unsettled()
            },
            r is Ok ==> {
                &&& has_id(old(self).records(), vm_id@)
                &&& final(self).records() == after_unmount(old(self).records(), vm_id@, tag@)
                &&& final(self).unsettled() == Some(old(self).records())
            },
    ;

    /// The shares of a machine, or the refusal of an unknown id.
    fn list_virtiofs_mounts(&self, vm_id: &str) -> (r: Result<
        Vec<SharedDirectory>,
        HypervisorError,
    >)
        ensures
            shares_view(r) == if has_id(self.records(), vm_id@) {
                Ok::<Seq<SharedDirectoryView>, ErrorView>(
                    self.records()[position_of(self.records(), vm_id@)].shared_dirs,
                )
            } else {
                Err::<Seq<SharedDirectoryView>, ErrorView>(ErrorView::NotFound(vm_id@))
            },
    ;

    /// Takes note of how the launch that [`Hypervisor::start_vm`] asked for
    /// went. A report that is refused changes nothing.
    fn launch_finished(&mut self, id: &str, launch: Launch) -> (r: Result<(), HypervisorError>)
        ensures
            unit_view(r) == old(self).report_verdict(id@, launch_view(launch)),
            final(self).id_prefix() == old(self).id_prefix(),
            final(self).counter() == old(self).counter(),
            r is Err ==> {
                &&& final(self).records() == old(self).records()
                &&& final(self).unsettled() == old(self).unsettled()
            },
            r is Ok ==> {
                &&& has_id(old(self).records(), id@)
                &&& final(self).records() == after_state(
                    old(self).records(),
                    id@,
                    VmState::Running,
                )
                &&& final(self).unsettled() == Some(old(self).records())
            },
    ;

    /// Ends the wait for a save. After a save that went through the records
    /// stay; after one that failed they are what they were before the change,
    /// and the failure is handed back.
    fn settle(&mut self, outcome: Result<(), HypervisorError>) -> (r: Result<(), HypervisorError>)
        ensures
            final(self).id_prefix() == old(self).id_prefix(),
            final(self).counter() == old(self).counter(),
            r == outcome,
            final(self).unsettled() is None,
            final(self).records() == match (outcome, old(self).unsettled()) {
                (Err(_), Some(prev)) => prev,
                _ => old(self).records(),
            },
    ;

    /// Whether a change waits to be saved.
    fn needs_save(&self) -> (waiting: bool)
        ensures
            waiting == self.unsettled() is Some,
    ;

    /// Hands over what the backend wants done on the host since the last
    /// call, oldest first.
    fn take_effects(&mut self) -> (effects: Vec<Effect>)
        ensures
            effect_views(effects@) == old(self).wanted(),
            final(self).wanted() == Seq::<EffectView>::empty(),
            final(self).id_prefix() == old(self).id_prefix(),
            final(self).counter() == old(self).counter(),
            final(self).records() == old(self).records(),
            final(self).unsettled() == old(self).unsettled(),
    ;
}

} // verus!
