//! The choice of a backend for the host's operating system.

use vstd::prelude::*;
use crate::hypervisor::{
    effect_views, launch_view, vm_views, Effect, EffectView, ErrorView, Host, Hypervisor,
    HypervisorError, Launch, LaunchView, SharedDirectory, SharedDirectoryView, Started,
    StartedView, VmConfig, VmConfigView, VmInfo, VmInfoView, VmState,
};
use crate::linux::{kvm_prefix, linux_create_outcome, LinuxHypervisor};
use crate::macos::{
    create_step, delete_step, launch_step, list_step, macos_create_outcome, settle_step,
    share_step, start_step, starts_from, stop_step, take_step, vz_prefix, MacOSHypervisor,
    Recovered,
};
use crate::registry::{
    all_stopped, checked_mount_outcome, id_view, lookup_outcome, position_of, shares_view,
    unit_view,
};
use crate::store::{dedup_last_wins, document_of, has_id, next_number, VmStoreFile};
use crate::supervisor::Runner;
use crate::vm::{stub_create_outcome, stub_prefix, StubHypervisor};
use crate::windows::{hv_prefix, windows_create_outcome, WindowsHypervisor};

verus! {

/// The host operating system.
#[derive(Debug, Clone, Copy, PartialEq, Eq, Structural)]
pub enum Platform {
    MacOs,
    Linux,
    Windows,
    /// Any other system.
    Other,
}

/// What a platform and its hypervisor are called.
pub open spec fn platform_name(platform: Platform) -> Seq<char> {
    match platform {
        Platform::MacOs => "macOS (Virtualization.framework)"@,
        Platform::Linux => "Linux (KVM)"@,
        Platform::Windows => "Windows (Hyper-V)"@,
        Platform::Other => "Unknown (Stub)"@,
    }
}

/// What `platform` and its hypervisor are called.
pub fn platform_info(platform: Platform) -> (name: &'static str)
    ensures
        name@ == platform_name(platform),
{
    match platform {
        Platform::MacOs => "macOS (Virtualization.framework)",
        Platform::Linux => "Linux (KVM)",
        Platform::Windows => "Windows (Hyper-V)",
        Platform::Other => "Unknown (Stub)",
    }
}

/// The backend of one of the platforms.
#[derive(Debug)]
pub enum AnyHypervisor {
    MacOS(MacOSHypervisor),
    Linux(LinuxHypervisor),
    Windows(WindowsHypervisor),
    Stub(StubHypervisor),
}

/// What the ids begin with that the backend for `platform` gives out.
pub open spec fn platform_prefix(platform: Platform) -> Seq<char> {
    match platform {
        Platform::MacOs => vz_prefix(),
        Platform::Linux => kvm_prefix(),
        Platform::Windows => hv_prefix(),
        Platform::Other => stub_prefix(),
    }
}

/// The backend for `platform`, starting from the records `loaded`. Only the
/// backend of macOS looks at `found`, the processes that outlived the last
/// backend; on every other platform each machine starts stopped.
pub fn create_hypervisor(platform: Platform, loaded: Vec<VmInfo>, found: Vec<Recovered>) -> (hv:
    AnyHypervisor)
    ensures
        match platform {
            Platform::MacOs => hv is MacOS,
            Platform::Linux => hv is Linux,
            Platform::Windows => hv is Windows,
            Platform::Other => hv is Stub,
        },
        hv.unsettled() is None,
        hv.id_prefix() == platform_prefix(platform),
        platform is MacOs ==> starts_from(hv->MacOS_0, vm_views(loaded@), found@),
        !(platform is MacOs) ==> {
            &&& hv.records() == dedup_last_wins(all_stopped(vm_views(loaded@)))
            &&& hv.counter() == next_number(
                all_stopped(vm_views(loaded@)),
                platform_prefix(platform),
            )
        },
{
    match platform {
        Platform::MacOs => AnyHypervisor::MacOS(MacOSHypervisor::new(loaded, found)),
        Platform::Linux => AnyHypervisor::Linux(LinuxHypervisor::new(loaded)),
        Platform::Windows => AnyHypervisor::Windows(WindowsHypervisor::new(loaded)),
        Platform::Other => AnyHypervisor::Stub(StubHypervisor::new(loaded)),
    }
}

impl AnyHypervisor {
    /// The document that holds the records as they are now.
    pub fn persist(&self) -> (file: VmStoreFile)
        ensures
            file@ == document_of(self.records()),
    {
        match self {
            AnyHypervisor::MacOS(hv) => hv.persist(),
            AnyHypervisor::Linux(hv) => hv.persist(),
            AnyHypervisor::Windows(hv) => hv.persist(),
            AnyHypervisor::Stub(hv) => hv.persist(),
        }
    }

    /// The machines whose processes the caller has to look at before it calls
    /// the backend. Only the backend of macOS has any.
    pub fn supervised(&self) -> (list: Vec<Runner>)
        ensures
            !(self is MacOS) ==> list@.len() == 0,
            self is MacOS ==> self->MacOS_0.supervises(list@),
    {
        match self {
            AnyHypervisor::MacOS(hv) => hv.supervised(),
            _ => Vec::new(),
        }
    }
}

/// Whether `a` and `b` are backends of the same platform.
pub open spec fn same_kind(a: AnyHypervisor, b: AnyHypervisor) -> bool {
    &&& a is MacOS <==> b is MacOS
    &&& a is Linux <==> b is Linux
    &&& a is Windows <==> b is Windows
    &&& a is Stub <==> b is Stub
}

/// What creating a machine comes to on the backend `hv`: what it comes to on
/// the backend of its platform.
pub open spec fn any_create_outcome(hv: AnyHypervisor, config: VmConfigView, host: Host) -> Result<
    Seq<char>,
    ErrorView,
> {
    match hv {
        AnyHypervisor::MacOS(_) => macos_create_outcome(
            hv.records(),
            hv.id_prefix(),
            hv.counter(),
            config,
            host,
        ),
        AnyHypervisor::Linux(_) => linux_create_outcome(
            hv.records(),
            hv.id_prefix(),
            hv.counter(),
            config,
            host,
        ),
        AnyHypervisor::Windows(_) => windows_create_outcome(
            hv.records(),
            hv.id_prefix(),
            hv.counter(),
            config,
            host,
        ),
        AnyHypervisor::Stub(_) => stub_create_outcome(
            hv.records(),
            hv.id_prefix(),
            hv.counter(),
            config,
            host,
        ),
    }
}

impl Hypervisor for AnyHypervisor {
    open spec fn records(&self) -> Seq<VmInfoView> {
        match self {
            AnyHypervisor::MacOS(hv) => hv.records(),
            AnyHypervisor::Linux(hv) => hv.records(),
            AnyHypervisor::Windows(hv) => hv.records(),
            AnyHypervisor::Stub(hv) => hv.records(),
        }
    }

    open spec fn unsettled(&self) -> Option<Seq<VmInfoView>> {
        match self {
            AnyHypervisor::MacOS(hv) => hv.unsettled(),
            AnyHypervisor::Linux(hv) => hv.unsettled(),
            AnyHypervisor::Windows(hv) => hv.unsettled(),
            AnyHypervisor::Stub(hv) => hv.unsettled(),
        }
    }

    open spec fn id_prefix(&self) -> Seq<char> {
        match self {
            AnyHypervisor::MacOS(hv) => hv.id_prefix(),
            AnyHypervisor::Linux(hv) => hv.id_prefix(),
            AnyHypervisor::Windows(hv) => hv.id_prefix(),
            AnyHypervisor::Stub(hv) => hv.id_prefix(),
        }
    }

    open spec fn counter(&self) -> u64 {
        match self {
            AnyHypervisor::MacOS(hv) => hv.counter(),
            AnyHypervisor::Linux(hv) => hv.counter(),
            AnyHypervisor::Windows(hv) => hv.counter(),
            AnyHypervisor::Stub(hv) => hv.counter(),
        }
    }

    open spec fn create_verdict(&self, config: VmConfigView, host: Host) -> Result<Seq<char>, ErrorView> {
        any_create_outcome(*self, config, host)
    }

    open spec fn start_verdict(&self, id: Seq<char>, host: Host) -> Result<StartedView, ErrorView> {
        match self {
            AnyHypervisor::MacOS(hv) => hv.start_verdict(id, host),
            AnyHypervisor::Linux(hv) => hv.start_verdict(id, host),
            AnyHypervisor::Windows(hv) => hv.start_verdict(id, host),
            AnyHypervisor::Stub(hv) => hv.start_verdict(id, host),
        }
    }

    open spec fn seen_records(&self, host: Host) -> Seq<VmInfoView> {
        match self {
            AnyHypervisor::MacOS(hv) => hv.seen_records(host),
            AnyHypervisor::Linux(hv) => hv.seen_records(host),
            AnyHypervisor::Windows(hv) => hv.seen_records(host),
            AnyHypervisor::Stub(hv) => hv.seen_records(host),
        }
    }

    open spec fn seen_start_verdict(&self, id: Seq<char>, host: Host) -> Result<
        StartedView,
        ErrorView,
    > {
        match self {
            AnyHypervisor::MacOS(hv) => hv.seen_start_verdict(id, host),
            AnyHypervisor::Linux(hv) => hv.seen_start_verdict(id, host),
            AnyHypervisor::Windows(hv) => hv.seen_start_verdict(id, host),
            AnyHypervisor::Stub(hv) => hv.seen_start_verdict(id, host),
        }
    }

    open spec fn mount_verdict(&self, id: Seq<char>, share: SharedDirectoryView, host: Host) -> Result<
        (),
        ErrorView,
    > {
        checked_mount_outcome(self.records(), id, share, host)
    }

    open spec fn wanted(&self) -> Seq<EffectView> {
        match self {
            AnyHypervisor::MacOS(hv) => hv.wanted(),
            AnyHypervisor::Linux(hv) => hv.wanted(),
            AnyHypervisor::Windows(hv) => hv.wanted(),
            AnyHypervisor::Stub(hv) => hv.wanted(),
        }
    }

    open spec fn report_verdict(&self, id: Seq<char>, launch: LaunchView) -> Result<(), ErrorView> {
        match self {
            AnyHypervisor::MacOS(hv) => hv.report_verdict(id, launch),
            AnyHypervisor::Linux(hv) => hv.report_verdict(id, launch),
            AnyHypervisor::Windows(hv) => hv.report_verdict(id, launch),
            AnyHypervisor::Stub(hv) => hv.report_verdict(id, launch),
        }
    }

    /// Declares a machine as the backend of the platform declares it.
    fn create_vm(&mut self, config: VmConfig, host: &Host) -> (r: Result<String, HypervisorError>)
        ensures
            same_kind(*old(self), *final(self)),
            id_view(r) == any_create_outcome(*old(self), config@, *host),
            *old(self) is MacOS ==> create_step(
                old(self)->MacOS_0,
                config@,
                id_view(r),
                final(self)->MacOS_0,
            ),
    {
        match self {
            AnyHypervisor::MacOS(hv) => hv.create_vm(config, host),
            AnyHypervisor::Linux(hv) => hv.create_vm(config, host),
            AnyHypervisor::Windows(hv) => hv.create_vm(config, host),
            AnyHypervisor::Stub(hv) => hv.create_vm(config, host),
        }
    }

    /// Starts a machine as the backend of the platform starts it. Only on
    /// macOS is there anything to launch.
    fn start_vm(&mut self, id: &str, host: &Host) -> (r: Result<Started, HypervisorError>)
        ensures
            same_kind(*old(self), *final(self)),
            !(*old(self) is MacOS) && has_id(old(self).records(), id@) ==> (r matches Ok(
                Started::Running,
            )),
            !(*old(self) is MacOS) && has_id(old(self).records(), id@) ==> if old(
                self,
            ).records()[position_of(old(self).records(), id@)].state == VmState::Running {
                &&& final(self).records() == old(self).records()
                &&& final(self).unsettled() == old(self).unsettled()
            } else {
                final(self).unsettled() == Some(old(self).records())
            },
            *old(self) is MacOS ==> start_step(
                old(self)->MacOS_0,
                id@,
                *host,
                final(self)->MacOS_0,
            ),
    {
        match self {
            AnyHypervisor::MacOS(hv) => hv.start_vm(id, host),
            AnyHypervisor::Linux(hv) => hv.start_vm(id, host),
            AnyHypervisor::Windows(hv) => hv.start_vm(id, host),
            AnyHypervisor::Stub(hv) => hv.start_vm(id, host),
        }
    }

    /// Stops a machine; nothing but the id can be wrong.
    fn stop_vm(&mut self, id: &str) -> (r: Result<(), HypervisorError>)
        ensures
            same_kind(*old(self), *final(self)),
            unit_view(r) == lookup_outcome(old(self).records(), id@),
            *old(self) is MacOS ==> stop_step(old(self)->MacOS_0, id@, final(self)->MacOS_0),
    {
        match self {
            AnyHypervisor::MacOS(hv) => hv.stop_vm(id),
            AnyHypervisor::Linux(hv) => hv.stop_vm(id),
            AnyHypervisor::Windows(hv) => hv.stop_vm(id),
            AnyHypervisor::Stub(hv) => hv.stop_vm(id),
        }
    }

    /// Removes a machine; nothing but the id can be wrong.
    fn delete_vm(&mut self, id: &str) -> (r: Result<(), HypervisorError>)
        ensures
            same_kind(*old(self), *final(self)),
            unit_view(r) == lookup_outcome(old(self).records(), id@),
            *old(self) is MacOS ==> delete_step(old(self)->MacOS_0, id@, final(self)->MacOS_0),
    {
        match self {
            AnyHypervisor::MacOS(hv) => hv.delete_vm(id),
            AnyHypervisor::Linux(hv) => hv.delete_vm(id),
            AnyHypervisor::Windows(hv) => hv.delete_vm(id),
            AnyHypervisor::Stub(hv) => hv.delete_vm(id),
        }
    }

    /// Lists the machines. Only on macOS can a look at the host change a
    /// state.
    fn list_vms(&mut self, host: &Host) -> (r: Result<Vec<VmInfo>, HypervisorError>)
        ensures
            same_kind(*old(self), *final(self)),
            !(*old(self) is MacOS) ==> final(self).records() == old(self).records(),
            *old(self) is MacOS ==> list_step(old(self)->MacOS_0, *host, final(self)->MacOS_0),
    {
        match self {
            AnyHypervisor::MacOS(hv) => hv.list_vms(host),
            AnyHypervisor::Linux(hv) => hv.list_vms(host),
            AnyHypervisor::Windows(hv) => hv.list_vms(host),
            AnyHypervisor::Stub(hv) => hv.list_vms(host),
        }
    }

    /// Whether binary translation can be had: only on macOS, where the
    /// caller saw it.
    fn rosetta_available(&self, host: &Host) -> (available: bool)
        ensures
            available == (self is MacOS && host.translation),
    {
        match self {
            AnyHypervisor::MacOS(hv) => hv.rosetta_available(host),
            AnyHypervisor::Linux(hv) => hv.rosetta_available(host),
            AnyHypervisor::Windows(hv) => hv.rosetta_available(host),
            AnyHypervisor::Stub(hv) => hv.rosetta_available(host),
        }
    }

    /// Adds a share as the backend of the platform adds it.
    fn mount_virtiofs(&mut self, vm_id: &str, share: &SharedDirectory, host: &Host) -> (r: Result<
        (),
        HypervisorError,
    >)
        ensures
            same_kind(*old(self), *final(self)),
            unit_view(r) == checked_mount_outcome(old(self).records(), vm_id@, share@, *host),
            *old(self) is MacOS ==> share_step(old(self)->MacOS_0, r is Ok, final(self)->MacOS_0),
    {
        match self {
            AnyHypervisor::MacOS(hv) => hv.mount_virtiofs(vm_id, share, host),
            AnyHypervisor::Linux(hv) => hv.mount_virtiofs(vm_id, share, host),
            AnyHypervisor::Windows(hv) => hv.mount_virtiofs(vm_id, share, host),
            AnyHypervisor::Stub(hv) => hv.mount_virtiofs(vm_id, share, host),
        }
    }

    /// Takes the shares with a tag from a machine; nothing but the id can be
    /// wrong.
    fn unmount_virtiofs(&mut self, vm_id: &str, tag: &str) -> (r: Result<(), HypervisorError>)
        ensures
            same_kind(*old(self), *final(self)),
            unit_view(r) == lookup_outcome(old(self).records(), vm_id@),
            *old(self) is MacOS ==> share_step(old(self)->MacOS_0, r is Ok, final(self)->MacOS_0),
    {
        match self {
            AnyHypervisor::MacOS(hv) => hv.unmount_virtiofs(vm_id, tag),
            AnyHypervisor::Linux(hv) => hv.unmount_virtiofs(vm_id, tag),
            AnyHypervisor::Windows(hv) => hv.unmount_virtiofs(vm_id, tag),
            AnyHypervisor::Stub(hv) => hv.unmount_virtiofs(vm_id, tag),
        }
    }

    /// The shares of a machine.
    fn list_virtiofs_mounts(&self, vm_id: &str) -> (r: Result<
        Vec<SharedDirectory>,
        HypervisorError,
    >)
        ensures
            shares_view(r) == if has_id(self.records(), vm_id@) {
                Ok::<Seq<SharedDirectoryView>, ErrorView>(
                    self.records()[position_of(self.records(), vm_id@)].shared_dirs,
                )
            } else {
                Err::<Seq<SharedDirectoryView>, ErrorView>(ErrorView::NotFound(vm_id@))
            },
    {
        match self {
            AnyHypervisor::MacOS(hv) => hv.list_virtiofs_mounts(vm_id),
            AnyHypervisor::Linux(hv) => hv.list_virtiofs_mounts(vm_id),
            AnyHypervisor::Windows(hv) => hv.list_virtiofs_mounts(vm_id),
            AnyHypervisor::Stub(hv) => hv.list_virtiofs_mounts(vm_id),
        }
    }

    /// Takes note of how a launch went. Only on macOS is a launch ever asked
    /// for; every other backend refuses the report.
    fn launch_finished(&mut self, id: &str, launch: Launch) -> (r: Result<(), HypervisorError>)
        ensures
            same_kind(*old(self), *final(self)),
            !(*old(self) is MacOS) ==> (r matches Err(e) && e@ == ErrorView::Unsupported),
            *old(self) is MacOS ==> launch_step(
                old(self)->MacOS_0,
                id@,
                launch_view(launch),
                final(self)->MacOS_0,
            ),
    {
        match self {
            AnyHypervisor::MacOS(hv) => hv.launch_finished(id, launch),
            AnyHypervisor::Linux(hv) => hv.launch_finished(id, launch),
            AnyHypervisor::Windows(hv) => hv.launch_finished(id, launch),
            AnyHypervisor::Stub(hv) => hv.launch_finished(id, launch),
        }
    }

    fn needs_save(&self) -> (waiting: bool) {
        match self {
            AnyHypervisor::MacOS(hv) => hv.needs_save(),
            AnyHypervisor::Linux(hv) => hv.needs_save(),
            AnyHypervisor::Windows(hv) => hv.needs_save(),
            AnyHypervisor::Stub(hv) => hv.needs_save(),
        }
    }

    /// Ends the wait for a save, as the backend of the platform ends it.
    fn settle(&mut self, outcome: Result<(), HypervisorError>) -> (r: Result<(), HypervisorError>)
        ensures
            same_kind(*old(self), *final(self)),
            *old(self) is MacOS ==> settle_step(
                old(self)->MacOS_0,
                outcome is Ok,
                final(self)->MacOS_0,
            ),
    {
        match self {
            AnyHypervisor::MacOS(hv) => hv.settle(outcome),
            AnyHypervisor::Linux(hv) => hv.settle(outcome),
            AnyHypervisor::Windows(hv) => hv.settle(outcome),
            AnyHypervisor::Stub(hv) => hv.settle(outcome),
        }
    }

    /// Hands over what the backend wants done on the host. Only the backend
    /// of macOS ever wants anything.
    fn take_effects(&mut self) -> (effects: Vec<Effect>)
        ensures
            same_kind(*old(self), *final(self)),
            !(*old(self) is MacOS) ==> effects@.len() == 0,
            *old(self) is MacOS ==> take_step(
                old(self)->MacOS_0,
                effect_views(effects@),
                final(self)->MacOS_0,
            ),
    {
        match self {
            AnyHypervisor::MacOS(hv) => hv.take_effects(),
            AnyHypervisor::Linux(hv) => hv.take_effects(),
            AnyHypervisor::Windows(hv) => hv.take_effects(),
            AnyHypervisor::Stub(hv) => hv.take_effects(),
        }
    }
}

} // verus!
