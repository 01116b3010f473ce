//! The backend for hosts with the platform hypervisor of Windows.
//!
//! Directories are shared over a file-sharing protocol of the platform, since
//! the host has no native shared file system. Binary translation does not
//! exist here. Starting and stopping change the declared state and nothing on
//! the host.

use vstd::prelude::*;
use crate::hypervisor::{
    effect_views, vm_views, Effect, EffectView, ErrorView, Host, Hypervisor, HypervisorError,
    Launch, LaunchView, SharedDirectory, SharedDirectoryView, Started, StartedView, VmConfig,
    VmConfigView, VmInfo, VmInfoView, VmState,
};
use crate::registry::{
    all_stopped, checked_mount_outcome, create_outcome, id_view,
    lemma_same_state_changes_nothing, lookup_outcome, position_of, record_for, shares_view,
    start_outcome, stop_all, unit_view, Registry,
};
use crate::store::{dedup_last_wins, document_of, has_id, next_number, VmStoreFile, CURRENT_VERSION};
use crate::text::join2;

verus! {

/// What the ids of this backend begin with.
pub open spec fn hv_prefix() -> Seq<char> {
    "hv-"@
}

/// What creating a machine comes to: the host must have the hypervisor,
/// translation cannot be asked for, every declared host path must exist, and
/// then the name and the numbers decide.
pub open spec fn windows_create_outcome(
    vms: Seq<VmInfoView>,
    prefix: Seq<char>,
    counter: u64,
    config: VmConfigView,
    host: Host,
) -> Result<Seq<char>, ErrorView> {
    let missing = host.first_missing(config.shared_dirs);
    if !host.accelerator {
        Err(
            ErrorView::CreateFailed(
                "Hyper-V not available. Enable Hyper-V in Windows Features (requires Windows 10 Pro+ or Windows 11)."@,
            ),
        )
    } else if config.rosetta {
        Err(
            ErrorView::RosettaUnavailable(
                "Rosetta is only available on macOS Apple Silicon. Windows ARM uses its own x86 emulation."@,
            ),
        )
    } else if missing < config.shared_dirs.len() {
        Err(
            ErrorView::VirtioFsError(
                "Host path does not exist: "@ + config.shared_dirs[missing].host_path,
            ),
        )
    } else {
        create_outcome(vms, prefix, counter, config.name)
    }
}

/// The named pipe of the container engine.
pub open spec fn engine_pipe() -> Seq<char> {
    "//./pipe/docker_engine"@
}

/// The named pipe of the container engine's Linux side.
pub open spec fn linux_engine_pipe() -> Seq<char> {
    "//./pipe/dockerDesktopLinuxEngine"@
}

/// The engine's socket below the user's profile directory.
pub open spec fn profile_socket(user_profile: Seq<char>) -> Seq<char> {
    user_profile + "\\\\.docker\\run\\docker.sock"@
}

/// Where the container engine listens: the first that exists of the engine's
/// pipe, the pipe of its Linux side and the socket below the user's profile.
pub open spec fn docker_socket(host: Host, user_profile: Seq<char>) -> Option<Seq<char>> {
    if host.path_exists(engine_pipe()) {
        Some(engine_pipe())
    } else if host.path_exists(linux_engine_pipe()) {
        Some(linux_engine_pipe())
    } else if host.path_exists(profile_socket(user_profile)) {
        Some(profile_socket(user_profile))
    } else {
        None
    }
}

/// The view of an optional string.
pub open spec fn optional_text(s: Option<String>) -> Option<Seq<char>> {
    match s {
        Some(t) => Some(t@),
        None => None,
    }
}

/// The backend for the platform hypervisor of Windows.
#[derive(Debug)]
pub struct WindowsHypervisor {
    registry: Registry,
}

impl WindowsHypervisor {
    /// A backend that starts from the records `loaded`, each of them stopped:
    /// no process outlives the backend.
    pub fn new(loaded: Vec<VmInfo>) -> (hv: WindowsHypervisor)
        ensures
            hv.records() == dedup_last_wins(all_stopped(vm_views(loaded@))),
            hv.counter() == next_number(all_stopped(vm_views(loaded@)), hv_prefix()),
            hv.id_prefix() == hv_prefix(),
            hv.unsettled() is None,
    {
        let stopped = stop_all(loaded);
        WindowsHypervisor { registry: Registry::new("hv-", stopped) }
    }

    /// Whether the host has the hypervisor.
    pub fn hyperv_available(host: &Host) -> (available: bool)
        ensures
            available == host.accelerator,
    {
        host.accelerator
    }

    /// Where the container engine listens, if it was seen anywhere.
    pub fn detect_docker_socket(host: &Host, user_profile: &str) -> (socket: Option<String>)
        ensures
            optional_text(socket) == docker_socket(*host, user_profile@),
    {
        if host.has_path("//./pipe/docker_engine") {
            return Some("//./pipe/docker_engine".to_owned());
        }
        if host.has_path("//./pipe/dockerDesktopLinuxEngine") {
            return Some("//./pipe/dockerDesktopLinuxEngine".to_owned());
        }
        let below_profile = join2(user_profile, "\\\\.docker\\run\\docker.sock");
        if host.has_path(below_profile.as_str()) {
            return Some(below_profile);
        }
        None
    }

    /// The document that holds the records as they are now.
    pub fn persist(&self) -> (file: VmStoreFile)
        ensures
            file@ == document_of(self.records()),
    {
        VmStoreFile { version: CURRENT_VERSION, vms: self.registry.list() }
    }
}

impl Hypervisor for WindowsHypervisor {
    closed spec fn records(&self) -> Seq<VmInfoView> {
        self.registry.records()
    }

    closed spec fn unsettled(&self) -> Option<Seq<VmInfoView>> {
        self.registry.unsettled()
    }

    closed spec fn id_prefix(&self) -> Seq<char> {
        self.registry.id_prefix()
    }

    closed spec fn counter(&self) -> u64 {
        self.registry.counter()
    }

    open spec fn create_verdict(&self, config: VmConfigView, host: Host) -> Result<Seq<char>, ErrorView> {
        windows_create_outcome(self.records(), self.id_prefix(), self.counter(), config, host)
    }

    open spec fn start_verdict(&self, id: Seq<char>, host: Host) -> Result<StartedView, ErrorView> {
        start_outcome(self.records(), id)
    }

    open spec fn seen_records(&self, host: Host) -> Seq<VmInfoView> {
        self.records()
    }

    open spec fn seen_start_verdict(&self, id: Seq<char>, host: Host) -> Result<
        StartedView,
        ErrorView,
    > {
        start_outcome(self.records(), id)
    }

    open spec fn mount_verdict(&self, id: Seq<char>, share: SharedDirectoryView, host: Host) -> Result<
        (),
        ErrorView,
    > {
        checked_mount_outcome(self.records(), id, share, host)
    }

    open spec fn report_verdict(&self, id: Seq<char>, launch: LaunchView) -> Result<(), ErrorView> {
        Err(ErrorView::Unsupported)
    }

    open spec fn wanted(&self) -> Seq<EffectView> {
        Seq::empty()
    }

    /// Declares a machine on a host that is fit for it. The record never has
    /// translation enabled.
    fn create_vm(&mut self, config: VmConfig, host: &Host) -> (r: Result<String, HypervisorError>)
        ensures
            id_view(r) == windows_create_outcome(
                old(self).records(),
                old(self).id_prefix(),
                old(self).counter(),
                config@,
                *host,
            ),
            r matches Ok(id) ==> final(self).records() == old(self).records().push(
                record_for(config@, id@, false),
            ),
    {
        if !Self::hyperv_available(host) {
            return Err(
                HypervisorError::CreateFailed(
                    "Hyper-V not available. Enable Hyper-V in Windows Features (requires Windows 10 Pro+ or Windows 11).".to_owned(),
                ),
            );
        }
        if config.rosetta {
            return Err(
                HypervisorError::RosettaUnavailable(
                    "Rosetta is only available on macOS Apple Silicon. Windows ARM uses its own x86 emulation.".to_owned(),
                ),
            );
        }
        match host.find_missing(&config.shared_dirs) {
            Some(i) => {
                return Err(
                    HypervisorError::VirtioFsError(
                        join2("Host path does not exist: ", config.shared_dirs[i].host_path.as_str()),
                    ),
                );
            },
            None => {},
        }
        self.registry.create(config, false)
    }

    /// Puts the machine into the state `Running`. A machine that runs is
    /// left as it is: no record changes and nothing more waits to be saved.
    fn start_vm(&mut self, id: &str, host: &Host) -> (r: Result<Started, HypervisorError>)
        ensures
            has_id(old(self).records(), id@) ==> r matches Ok(Started::Running),
            has_id(old(self).records(), id@) ==> if old(self).records()[position_of(
                old(self).records(),
                id@,
            )].state == VmState::Running {
                &&& final(self).records() == old(self).records()
                &&& final(self).unsettled() == old(self).unsettled()
            } else {
                final(self).unsettled() == Some(old(self).records())
            },
    {
        proof {
            if has_id(self.records(), id@) && self.records()[position_of(self.records(), id@)].state
                == VmState::Running {
                lemma_same_state_changes_nothing(self.records(), id@, VmState::Running);
            }
        }
        match self.registry.set_running(id) {
            Ok(()) => Ok(Started::Running),
            Err(e) => Err(e),
        }
    }

    /// Puts the machine into the state `Stopped`.
    fn stop_vm(&mut self, id: &str) -> (r: Result<(), HypervisorError>)
        ensures
            unit_view(r) == lookup_outcome(old(self).records(), id@),
    {
        self.registry.set_state(id, VmState::Stopped)
    }

    /// Takes the machine out of the records.
    fn delete_vm(&mut self, id: &str) -> (r: Result<(), HypervisorError>)
        ensures
            unit_view(r) == lookup_outcome(old(self).records(), id@),
            r is Ok ==> final(self).unsettled() == Some(old(self).records()),
    {
        self.registry.remove(id)
    }

    /// Lists the records as they are.
    fn list_vms(&mut self, host: &Host) -> (r: Result<Vec<VmInfo>, HypervisorError>)
        ensures
            final(self).records() == old(self).records(),
    {
        proof {
            use_type_invariant(&self.registry);
            self.registry.lemma_inv();
        }
        Ok(self.registry.list())
    }

    /// There is no binary translation here.
    fn rosetta_available(&self, host: &Host) -> (available: bool)
        ensures
            !available,
    {
        false
    }

    /// Adds the share to the machine, if its host path exists.
    fn mount_virtiofs(&mut self, vm_id: &str, share: &SharedDirectory, host: &Host) -> (r: Result<
        (),
        HypervisorError,
    >)
        ensures
            unit_view(r) == checked_mount_outcome(old(self).records(), vm_id@, share@, *host),
    {
        if !host.has_path(share.host_path.as_str()) {
            return Err(
                HypervisorError::VirtioFsError(
                    join2("Host path does not exist: ", share.host_path.as_str()),
                ),
            );
        }
        self.registry.add_share(vm_id, share)
    }

    /// Takes the shares tagged `tag` from the machine.
    fn unmount_virtiofs(&mut self, vm_id: &str, tag: &str) -> (r: Result<(), HypervisorError>)
        ensures
            unit_view(r) == lookup_outcome(old(self).records(), vm_id@),
    {
        self.registry.remove_share(vm_id, tag)
    }

    /// The shares of the machine.
    fn list_virtiofs_mounts(&self, vm_id: &str) -> (r: Result<
        Vec<SharedDirectory>,
        HypervisorError,
    >)
        ensures
            shares_view(r) == if has_id(self.records(), vm_id@) {
                Ok::<Seq<SharedDirectoryView>, ErrorView>(
                    self.records()[position_of(self.records(), vm_id@)].shared_dirs,
                )
            } else {
                Err::<Seq<SharedDirectoryView>, ErrorView>(ErrorView::NotFound(vm_id@))
            },
    {
        self.registry.shares(vm_id)
    }

    /// No launch is ever asked for here: every report is refused.
    fn launch_finished(&mut self, id: &str, launch: Launch) -> (r: Result<(), HypervisorError>) {
        Err(HypervisorError::Unsupported)
    }

    fn needs_save(&self) -> (waiting: bool) {
        self.registry.is_unsettled()
    }

    fn settle(&mut self, outcome: Result<(), HypervisorError>) -> (r: Result<(), HypervisorError>)
    {
        self.registry.settle(outcome)
    }

    /// Nothing is ever wanted of the host here.
    fn take_effects(&mut self) -> (effects: Vec<Effect>)
        ensures
            effects@.len() == 0,
    {
        let effects: Vec<Effect> = Vec::new();
        proof {
            assert(effect_views(effects@) =~= Seq::<EffectView>::empty());
        }
        effects
    }
}

} // verus!
