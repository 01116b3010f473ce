//! The control service: it puts one backend behind a remote interface,
//! resolves what a client calls a machine, and turns a backend's errors into
//! the statuses that go over the wire.

use vstd::prelude::*;
use vstd::std_specs::convert::FromSpecImpl;
use crate::hypervisor::{
    clone_shares, differ_in_state_only, effect_views, launch_view, share_views, vm_views, Effect,
    EffectView, ErrorView, Host, Hypervisor, HypervisorError, Launch, SharedDirectory,
    SharedDirectoryView, Started, StartedView, VmConfig, VmInfo, VmInfoView, VmState,
};
use crate::registry::{
    after_mount, after_remove, after_state, after_unmount, has_name, lemma_position_of,
    position_of, record_for, with_state,
};
use crate::store::{has_id, ids_distinct, numbered_id};
use crate::text::join2;

verus! {

/// The kind of a status that goes over the wire.
#[derive(Debug, Clone, Copy, PartialEq, Eq, Structural)]
pub enum StatusCode {
    NotFound,
    FailedPrecondition,
    Internal,
    Unimplemented,
    InvalidArgument,
}

/// Why a remote call failed, as the client gets it.
#[derive(Debug, PartialEq, Eq)]
pub struct Status {
    pub code: StatusCode,
    pub message: String,
}

/// What a [`Status`] is, as plain values.
pub struct StatusView {
    pub code: StatusCode,
    pub message: Seq<char>,
}

impl View for Status {
    type V = StatusView;

    open spec fn view(&self) -> StatusView {
        StatusView { code: self.code, message: self.message@ }
    }
}

/// How loudly a failure is logged.
#[derive(Debug, Clone, Copy, PartialEq, Eq, Structural)]
pub enum Severity {
    /// The client asked for what is not there.
    Warning,
    /// The backend or its surroundings failed.
    Error,
}

/// The status that stands for a backend's error: what is not there is "not
/// found", what a platform cannot do is "unimplemented", a refusal is a
/// "failed precondition", and a failure of storage or of the host is
/// "internal".
pub open spec fn status_of(err: ErrorView) -> StatusView {
    match err {
        ErrorView::NotFound(id) => StatusView {
            code: StatusCode::NotFound,
            message: "VM not found: "@ + id,
        },
        ErrorView::Unsupported => StatusView {
            code: StatusCode::Unimplemented,
            message: "unsupported platform"@,
        },
        ErrorView::RosettaUnavailable(m) => StatusView {
            code: StatusCode::FailedPrecondition,
            message: m,
        },
        ErrorView::VirtioFsError(m) => StatusView { code: StatusCode::FailedPrecondition, message: m },
        ErrorView::CreateFailed(m) => StatusView { code: StatusCode::FailedPrecondition, message: m },
        ErrorView::Storage(m) => StatusView {
            code: StatusCode::Internal,
            message: "storage error: "@ + m,
        },
        ErrorView::Io(m) => StatusView { code: StatusCode::Internal, message: "io error: "@ + m },
    }
}

/// The place of the first record named `name`; the number of records if
/// there is none.
pub open spec fn first_named(vms: Seq<VmInfoView>, name: Seq<char>) -> int
    decreases vms.len(),
{
    if vms.len() == 0 {
        0
    } else if vms[0].name == name {
        0
    } else {
        1 + first_named(vms.skip(1), name)
    }
}

/// The id that a selector stands for: the selector itself if it is the id of
/// a machine, else the id of the first machine that it names, else nothing.
pub open spec fn resolved(vms: Seq<VmInfoView>, selector: Seq<char>) -> Option<Seq<char>> {
    if has_id(vms, selector) {
        Some(selector)
    } else if first_named(vms, selector) < vms.len() {
        Some(vms[first_named(vms, selector)].id)
    } else {
        None
    }
}

/// [`first_named`] finds a record with the name, and none before it has the
/// name; it finds none only where no record has the name.
pub proof fn lemma_first_named(vms: Seq<VmInfoView>, name: Seq<char>)
    ensures
        0 <= first_named(vms, name) <= vms.len(),
        first_named(vms, name) < vms.len() ==> vms[first_named(vms, name)].name == name,
        forall|j: int| 0 <= j < first_named(vms, name) ==> (#[trigger] vms[j]).name != name,
        first_named(vms, name) < vms.len() <==> has_name(vms, name),
    decreases vms.len(),
{
    if vms.len() > 0 && vms[0].name != name {
        let rest = vms.skip(1);
        lemma_first_named(rest, name);
        let f = first_named(rest, name);
        assert forall|j: int| 0 <= j < 1 + f implies (#[trigger] vms[j]).name != name by {
            if j > 0 {
                assert(rest[j - 1] == vms[j]);
            }
        }
        if f < rest.len() {
            assert(rest[f] == vms[f + 1]);
        }
        if has_name(vms, name) {
            let k = choose|k: int| 0 <= k < vms.len() && (#[trigger] vms[k]).name == name;
            assert(rest[k - 1] == vms[k]);
            assert(has_name(rest, name));
        }
    }
}

/// A selector that is the id of a machine stands for that id; the name of a
/// machine stands for the machine's id, provided that the name is no
/// machine's id and no earlier machine bears it; and a selector that is
/// neither an id nor a name stands for nothing.
pub proof fn lemma_selector_resolution(vms: Seq<VmInfoView>, i: int, unknown: Seq<char>)
    requires
        0 <= i < vms.len(),
        !has_id(vms, vms[i].name),
        forall|j: int| 0 <= j < i ==> (#[trigger] vms[j]).name != vms[i].name,
        !has_id(vms, unknown),
        !has_name(vms, unknown),
    ensures
        resolved(vms, vms[i].id) == Some(vms[i].id),
        resolved(vms, vms[i].name) == Some(vms[i].id),
        resolved(vms, unknown) is None,
{
    lemma_first_named(vms, vms[i].name);
    lemma_first_named(vms, unknown);
    let f = first_named(vms, vms[i].name);
    assert(has_name(vms, vms[i].name));
    if f < i {
        assert(vms[f].name != vms[i].name);
    }
}

/// What the client gets for what starting a machine comes to on a backend:
/// the same where it went well, and the status that stands for the refusal
/// where it did not.
pub open spec fn wire_verdict(verdict: Result<StartedView, ErrorView>) -> Result<
    StartedView,
    StatusView,
> {
    match verdict {
        Ok(started) => Ok(started),
        Err(e) => Err(status_of(e)),
    }
}

/// The view of what the service returns for starting a machine.
pub open spec fn started_status_view(r: Result<Started, Status>) -> Result<StartedView, StatusView> {
    match r {
        Ok(started) => Ok(started@),
        Err(status) => Err(status@),
    }
}

/// The view of an optional id.
pub open spec fn optional_id(id: Option<String>) -> Option<Seq<char>> {
    match id {
        Some(t) => Some(t@),
        None => None,
    }
}

/// The id that `selector` stands for among `vms`.
pub fn resolve_selector(vms: &Vec<VmInfo>, selector: &str) -> (id: Option<String>)
    ensures
        optional_id(id) == resolved(vm_views(vms@), selector@),
{
    let ghost views = vm_views(vms@);
    let wanted = selector.to_owned();
    let mut i: usize = 0;
    while i < vms.len()
        invariant
            i <= vms.len(),
            wanted@ == selector@,
            views == vm_views(vms@),
            forall|k: int| 0 <= k < i ==> (#[trigger] views[k]).id != selector@,
        decreases vms.len() - i,
    {
        if vms[i].id == wanted {
            proof {
                assert(views[i as int].id == selector@);
            }
            return Some(wanted);
        }
        i = i + 1;
    }
    let mut j: usize = 0;
    proof {
        assert(views.skip(0) =~= views);
    }
    while j < vms.len()
        invariant
            j <= vms.len(),
            wanted@ == selector@,
            views == vm_views(vms@),
            !has_id(views, selector@),
            first_named(views, selector@) == j + first_named(views.skip(j as int), selector@),
        decreases vms.len() - j,
    {
        proof {
            assert(views.skip(j as int)[0] == views[j as int]);
            assert(views.skip(j as int).skip(1) =~= views.skip(j + 1));
        }
        if vms[j].name == wanted {
            return Some(vms[j].id.clone());
        }
        j = j + 1;
    }
    None
}

/// Where the first record with the id `id` is, if there is one.
pub fn find_by_id(vms: &Vec<VmInfo>, id: &str) -> (place: Option<usize>)
    ensures
        match place {
            Some(i) => {
                &&& i < vms.len()
                &&& vm_views(vms@)[i as int].id == id@
                &&& forall|k: int| 0 <= k < i ==> (#[trigger] vm_views(vms@)[k]).id != id@
            },
            None => !has_id(vm_views(vms@), id@),
        },
{
    let ghost views = vm_views(vms@);
    let wanted = id.to_owned();
    let mut i: usize = 0;
    while i < vms.len()
        invariant
            i <= vms.len(),
            wanted@ == id@,
            views == vm_views(vms@),
            forall|k: int| 0 <= k < i ==> (#[trigger] views[k]).id != id@,
        decreases vms.len() - i,
    {
        if vms[i].id == wanted {
            return Some(i);
        }
        i = i + 1;
    }
    None
}

/// The word for a state that goes over the wire.
pub open spec fn state_word(state: VmState) -> Seq<char> {
    match state {
        VmState::Running => "running"@,
        VmState::Stopped => "stopped"@,
        VmState::Creating => "creating"@,
    }
}

/// The word for a state that goes over the wire.
pub fn vm_state_to_string(state: VmState) -> (word: String)
    ensures
        word@ == state_word(state),
{
    match state {
        VmState::Running => "running".to_owned(),
        VmState::Stopped => "stopped".to_owned(),
        VmState::Creating => "creating".to_owned(),
    }
}

/// A share as it goes over the wire or to a front-end.
#[derive(Debug, PartialEq, Eq)]
pub struct SharedDirectoryDto {
    pub tag: String,
    pub host_path: String,
    pub guest_path: String,
    pub read_only: bool,
}

impl View for SharedDirectoryDto {
    type V = SharedDirectoryView;

    open spec fn view(&self) -> SharedDirectoryView {
        SharedDirectoryView {
            tag: self.tag@,
            host_path: self.host_path@,
            guest_path: self.guest_path@,
            read_only: self.read_only,
        }
    }
}

impl From<SharedDirectory> for SharedDirectoryDto {
    fn from(value: SharedDirectory) -> (dto: Self) {
        SharedDirectoryDto {
            tag: value.tag,
            host_path: value.host_path,
            guest_path: value.guest_path,
            read_only: value.read_only,
        }
    }
}

impl FromSpecImpl<SharedDirectory> for SharedDirectoryDto {
    open spec fn obeys_from_spec() -> bool {
        true
    }

    open spec fn from_spec(value: SharedDirectory) -> Self {
        SharedDirectoryDto {
            tag: value.tag,
            host_path: value.host_path,
            guest_path: value.guest_path,
            read_only: value.read_only,
        }
    }
}

/// The views of a sequence of shares in their wire form.
pub open spec fn dto_views(dirs: Seq<SharedDirectoryDto>) -> Seq<SharedDirectoryView> {
    Seq::new(dirs.len(), |i: int| dirs[i]@)
}

/// A machine as it goes over the wire or to a front-end.
#[derive(Debug, PartialEq, Eq)]
pub struct VmInfoDto {
    pub id: String,
    pub name: String,
    pub state: String,
    pub cpus: u32,
    pub memory_mb: u64,
    pub disk_gb: u64,
    pub rosetta_enabled: bool,
    pub mounts: Vec<SharedDirectoryDto>,
}

/// What a [`VmInfoDto`] is, as plain values.
pub struct VmInfoDtoView {
    pub id: Seq<char>,
    pub name: Seq<char>,
    pub state: Seq<char>,
    pub cpus: u32,
    pub memory_mb: u64,
    pub disk_gb: u64,
    pub rosetta_enabled: bool,
    pub mounts: Seq<SharedDirectoryView>,
}

impl View for VmInfoDto {
    type V = VmInfoDtoView;

    open spec fn view(&self) -> VmInfoDtoView {
        VmInfoDtoView {
            id: self.id@,
            name: self.name@,
            state: self.state@,
            cpus: self.cpus,
            memory_mb: self.memory_mb,
            disk_gb: self.disk_gb,
            rosetta_enabled: self.rosetta_enabled,
            mounts: dto_views(self.mounts@),
        }
    }
}

/// The wire form of a record.
pub open spec fn wire_vm(vm: VmInfoView) -> VmInfoDtoView {
    VmInfoDtoView {
        id: vm.id,
        name: vm.name,
        state: state_word(vm.state),
        cpus: vm.cpus,
        memory_mb: vm.memory_mb,
        disk_gb: vm.disk_gb,
        rosetta_enabled: vm.rosetta_enabled,
        mounts: vm.shared_dirs,
    }
}

/// The wire forms of records, in order.
pub open spec fn wire_vms(vms: Seq<VmInfoView>) -> Seq<VmInfoDtoView> {
    Seq::new(vms.len(), |i: int| wire_vm(vms[i]))
}

/// The views of a sequence of machines in their wire form.
pub open spec fn vm_dto_views(vms: Seq<VmInfoDto>) -> Seq<VmInfoDtoView> {
    Seq::new(vms.len(), |i: int| vms[i]@)
}

/// The wire form of a share.
pub fn proto_shared_dir(dir: SharedDirectory) -> (dto: SharedDirectoryDto)
    ensures
        dto@ == dir@,
{
    SharedDirectoryDto::from(dir)
}

/// The share that a wire form stands for.
pub fn core_shared_dir(dto: SharedDirectoryDto) -> (dir: SharedDirectory)
    ensures
        dir@ == dto@,
{
    SharedDirectory {
        tag: dto.tag,
        host_path: dto.host_path,
        guest_path: dto.guest_path,
        read_only: dto.read_only,
    }
}

/// The wire forms of shares, in order.
pub fn proto_shared_dirs(dirs: Vec<SharedDirectory>) -> (dtos: Vec<SharedDirectoryDto>)
    ensures
        dto_views(dtos@) == share_views(dirs@),
{
    let mut dtos: Vec<SharedDirectoryDto> = Vec::new();
    let mut i: usize = 0;
    while i < dirs.len()
        invariant
            i <= dirs.len(),
            dtos.len() == i,
            forall|k: int| 0 <= k < i ==> (#[trigger] dtos[k])@ == dirs[k]@,
        decreases dirs.len() - i,
    {
        dtos.push(proto_shared_dir(dirs[i].clone()));
        i = i + 1;
    }
    proof {
        assert(dto_views(dtos@) =~= share_views(dirs@));
    }
    dtos
}

/// The shares that wire forms stand for, in order.
pub fn core_shared_dirs(dtos: Vec<SharedDirectoryDto>) -> (dirs: Vec<SharedDirectory>)
    ensures
        share_views(dirs@) == dto_views(dtos@),
{
    let mut dirs: Vec<SharedDirectory> = Vec::new();
    let mut i: usize = 0;
    while i < dtos.len()
        invariant
            i <= dtos.len(),
            dirs.len() == i,
            forall|k: int| 0 <= k < i ==> (#[trigger] dirs[k])@ == dtos[k]@,
        decreases dtos.len() - i,
    {
        dirs.push(
            SharedDirectory {
                tag: dtos[i].tag.clone(),
                host_path: dtos[i].host_path.clone(),
                guest_path: dtos[i].guest_path.clone(),
                read_only: dtos[i].read_only,
            },
        );
        i = i + 1;
    }
    proof {
        assert(share_views(dirs@) =~= dto_views(dtos@));
    }
    dirs
}

/// The wire form of a record.
pub fn vm_to_dto(vm: &VmInfo) -> (dto: VmInfoDto)
    ensures
        dto@ == wire_vm(vm@),
{
    VmInfoDto {
        id: vm.id.clone(),
        name: vm.name.clone(),
        state: vm_state_to_string(vm.state),
        cpus: vm.cpus,
        memory_mb: vm.memory_mb,
        disk_gb: vm.disk_gb,
        rosetta_enabled: vm.rosetta_enabled,
        mounts: proto_shared_dirs(clone_shares(&vm.shared_dirs)),
    }
}

/// The wire forms of records, in order.
pub fn vms_to_dtos(vms: &Vec<VmInfo>) -> (dtos: Vec<VmInfoDto>)
    ensures
        vm_dto_views(dtos@) == wire_vms(vm_views(vms@)),
{
    let mut dtos: Vec<VmInfoDto> = Vec::new();
    let mut i: usize = 0;
    while i < vms.len()
        invariant
            i <= vms.len(),
            dtos.len() == i,
            forall|k: int| 0 <= k < i ==> (#[trigger] dtos[k])@ == wire_vm(vms[k]@),
        decreases vms.len() - i,
    {
        dtos.push(vm_to_dto(&vms[i]));
        i = i + 1;
    }
    proof {
        assert(vm_dto_views(dtos@) =~= wire_vms(vm_views(vms@)));
    }
    dtos
}

/// The status that stands for a backend's error.
pub fn status_from_error(err: HypervisorError) -> (status: Status)
    ensures
        status@ == status_of(err@),
{
    match err {
        HypervisorError::NotFound(id) => Status {
            code: StatusCode::NotFound,
            message: join2("VM not found: ", id.as_str()),
        },
        HypervisorError::Unsupported => Status {
            code: StatusCode::Unimplemented,
            message: "unsupported platform".to_owned(),
        },
        HypervisorError::RosettaUnavailable(m) => Status {
            code: StatusCode::FailedPrecondition,
            message: m,
        },
        HypervisorError::VirtioFsError(m) => Status {
            code: StatusCode::FailedPrecondition,
            message: m,
        },
        HypervisorError::CreateFailed(m) => Status { code: StatusCode::FailedPrecondition, message: m },
        HypervisorError::Storage(m) => Status {
            code: StatusCode::Internal,
            message: join2("storage error: ", m.as_str()),
        },
        HypervisorError::Io(e) => Status {
            code: StatusCode::Internal,
            message: join2("io error: ", e.as_str()),
        },
    }
}

/// How loudly the failure of a backend is logged: what is not there is what
/// a client may well ask for, anything else is a failure of the backend or its
/// surroundings.
pub fn severity_of(err: &HypervisorError) -> (severity: Severity)
    ensures
        severity == if err@ is NotFound {
            Severity::Warning
        } else {
            Severity::Error
        },
{
    match err {
        HypervisorError::NotFound(_) => Severity::Warning,
        _ => Severity::Error,
    }
}

/// The status of a machine, as a client is told it.
#[derive(Debug, PartialEq, Eq)]
pub struct VmStatus {
    pub vm_id: String,
    pub status: String,
    pub rosetta_enabled: bool,
    pub shared_dirs: Vec<SharedDirectoryDto>,
    pub disk_gb: u64,
}

/// What a [`VmStatus`] is, as plain values.
pub struct VmStatusView {
    pub vm_id: Seq<char>,
    pub status: Seq<char>,
    pub rosetta_enabled: bool,
    pub shared_dirs: Seq<SharedDirectoryView>,
    pub disk_gb: u64,
}

impl View for VmStatus {
    type V = VmStatusView;

    open spec fn view(&self) -> VmStatusView {
        VmStatusView {
            vm_id: self.vm_id@,
            status: self.status@,
            rosetta_enabled: self.rosetta_enabled,
            shared_dirs: dto_views(self.shared_dirs@),
            disk_gb: self.disk_gb,
        }
    }
}

/// What a client is told of the record `vm`.
pub open spec fn status_report(vm: VmInfoView) -> VmStatusView {
    VmStatusView {
        vm_id: vm.id,
        status: state_word(vm.state),
        rosetta_enabled: vm.rosetta_enabled,
        shared_dirs: vm.shared_dirs,
        disk_gb: vm.disk_gb,
    }
}

/// The status "not found" for a selector that stands for nothing.
pub open spec fn not_found(selector: Seq<char>) -> StatusView {
    StatusView { code: StatusCode::NotFound, message: "VM not found: "@ + selector }
}

fn not_found_status(selector: &str) -> (status: Status)
    ensures
        status@ == not_found(selector@),
{
    Status { code: StatusCode::NotFound, message: join2("VM not found: ", selector) }
}

/// One backend behind the remote interface.
#[derive(Debug, PartialEq, Eq)]
pub struct VmServiceImpl<H: Hypervisor> {
    hv: H,
}

impl<H: Hypervisor> VmServiceImpl<H> {
    /// The backend behind the service.
    pub closed spec fn backend(&self) -> H {
        self.hv
    }

    /// The records of the backend.
    pub open spec fn records(&self) -> Seq<VmInfoView> {
        self.backend().records()
    }

    /// A service in front of `hv`.
    pub fn new(hv: H) -> (service: Self)
        ensures
            service.backend() == hv,
    {
        VmServiceImpl { hv }
    }

    /// The backend, for what is not a remote call.
    pub fn hypervisor(&self) -> (hv: &H)
        ensures
            *hv == self.backend(),
    {
        &self.hv
    }

    /// The backend, for a caller that serves itself without the remote
    /// interface.
    pub fn hypervisor_mut(&mut self) -> (hv: &mut H)
        ensures
            *hv == old(self).backend(),
            final(self).backend() == *final(hv),
    {
        &mut self.hv
    }

    /// Gives the backend back.
    pub fn into_inner(self) -> (hv: H)
        ensures
            hv == self.backend(),
    {
        self.hv
    }

    /// The id that `selector` stands for, on a fresh list of the machines.
    /// Listing brings states up to date and changes nothing else.
    pub fn resolve_vm_id(&mut self, selector: &str, host: &Host) -> (r: Result<String, Status>)
        ensures
            final(self).records() == old(self).backend().seen_records(*host),
            differ_in_state_only(old(self).records(), final(self).records()),
            ids_distinct(final(self).records()),
            forall|id: Seq<char>, share: SharedDirectoryView| #[trigger]
                final(self).backend().mount_verdict(id, share, *host)
                    == old(self).backend().mount_verdict(id, share, *host),
            forall|id: Seq<char>| #[trigger]
                final(self).backend().start_verdict(id, *host)
                    == old(self).backend().seen_start_verdict(id, *host),
            final(self).backend().unsettled() == old(self).backend().unsettled(),
            final(self).backend().id_prefix() == old(self).backend().id_prefix(),
            final(self).backend().counter() == old(self).backend().counter(),
            match resolved(old(self).backend().seen_records(*host), selector@) {
                Some(id) => r matches Ok(found) && found@ == id && has_id(final(self).records(), id),
                None => r matches Err(status) && status@ == not_found(selector@),
            },
    {
        let vms = match self.hv.list_vms(host) {
            Ok(vms) => vms,
            Err(e) => {
                return Err(status_from_error(e));
            },
        };
        match resolve_selector(&vms, selector) {
            Some(id) => {
                proof {
                    let views = vm_views(vms@);
                    lemma_first_named(views, selector@);
                    if !has_id(views, selector@) {
                        assert(views[first_named(views, selector@)].id == id@);
                    }
                }
                Ok(id)
            },
            None => Err(not_found_status(selector)),
        }
    }

    /// Declares a machine and names its id.
    pub fn create_vm(&mut self, config: VmConfig, host: &Host) -> (r: Result<String, Status>)
        ensures
            match old(self).backend().create_verdict(config@, *host) {
                Ok(id) => r matches Ok(got) && got@ == id,
                Err(e) => r matches Err(status) && status@ == status_of(e),
            },
            final(self).backend().id_prefix() == old(self).backend().id_prefix(),
            has_name(old(self).records(), config@.name) ==> r is Err,
            r is Err ==> {
                &&& final(self).records() == old(self).records()
                &&& final(self).backend().unsettled() == old(self).backend().unsettled()
                &&& final(self).backend().counter() == old(self).backend().counter()
            },
            r matches Ok(id) ==> {
                &&& id@ == numbered_id(old(self).backend().id_prefix(), old(self).backend().counter())
                &&& !has_id(old(self).records(), id@)
                &&& final(self).records() == old(self).records().push(
                    record_for(config@, id@, config@.rosetta),
                )
                &&& final(self).backend().unsettled() == Some(old(self).records())
            },
    {
        match self.hv.create_vm(config, host) {
            Ok(id) => Ok(id),
            Err(e) => Err(status_from_error(e)),
        }
    }

    /// Starts the machine that `selector` stands for, or says what has to
    /// be launched for it. The states are brought up to date first; then
    /// only a machine that is started changes.
    pub fn start_vm(&mut self, selector: &str, host: &Host) -> (r: Result<Started, Status>)
        ensures
            final(self).backend().id_prefix() == old(self).backend().id_prefix(),
            final(self).backend().counter() == old(self).backend().counter(),
            ({
                let seen = old(self).backend().seen_records(*host);
                match resolved(seen, selector@) {
                    None => {
                        &&& r matches Err(status) && status@ == not_found(selector@)
                        &&& final(self).records() == seen
                        &&& final(self).backend().unsettled() == old(self).backend().unsettled()
                    },
                    Some(id) => {
                        &&& started_status_view(r) == wire_verdict(
                            old(self).backend().seen_start_verdict(id, *host),
                        )
                        &&& final(self).records() == if r is Ok && r->Ok_0 is Running {
                            after_state(seen, id, VmState::Running)
                        } else {
                            seen
                        }
                        &&& !(r is Ok && r->Ok_0 is Running) ==> final(self).backend().unsettled()
                            == old(self).backend().unsettled()
                    },
                }
            }),
    {
        let id = match self.resolve_vm_id(selector, host) {
            Ok(id) => id,
            Err(status) => {
                return Err(status);
            },
        };
        match self.hv.start_vm(id.as_str(), host) {
            Ok(started) => Ok(started),
            Err(e) => Err(status_from_error(e)),
        }
    }

    /// Stops the machine that `selector` stands for. Nothing but a selector
    /// that stands for nothing is refused.
    pub fn stop_vm(&mut self, selector: &str, host: &Host) -> (r: Result<(), Status>)
        ensures
            final(self).backend().id_prefix() == old(self).backend().id_prefix(),
            final(self).backend().counter() == old(self).backend().counter(),
            ({
                let seen = old(self).backend().seen_records(*host);
                match resolved(seen, selector@) {
                    None => {
                        &&& r matches Err(status) && status@ == not_found(selector@)
                        &&& final(self).records() == seen
                        &&& final(self).backend().unsettled() == old(self).backend().unsettled()
                    },
                    Some(id) => {
                        &&& r is Ok
                        &&& final(self).records() == after_state(seen, id, VmState::Stopped)
                        &&& final(self).backend().unsettled() == Some(seen)
                    },
                }
            }),
    {
        let id = match self.resolve_vm_id(selector, host) {
            Ok(id) => id,
            Err(status) => {
                return Err(status);
            },
        };
        match self.hv.stop_vm(id.as_str()) {
            Ok(()) => Ok(()),
            Err(e) => Err(status_from_error(e)),
        }
    }

    /// Removes the machine that `selector` stands for. Nothing but a selector
    /// that stands for nothing is refused.
    pub fn delete_vm(&mut self, selector: &str, host: &Host) -> (r: Result<(), Status>)
        ensures
            final(self).backend().id_prefix() == old(self).backend().id_prefix(),
            final(self).backend().counter() == old(self).backend().counter(),
            ({
                let seen = old(self).backend().seen_records(*host);
                match resolved(seen, selector@) {
                    None => {
                        &&& r matches Err(status) && status@ == not_found(selector@)
                        &&& final(self).records() == seen
                        &&& final(self).backend().unsettled() == old(self).backend().unsettled()
                    },
                    Some(id) => {
                        &&& r is Ok
                        &&& final(self).records() == after_remove(seen, id)
                        &&& !has_id(final(self).records(), id)
                        &&& final(self).backend().unsettled() is Some
                    },
                }
            }),
    {
        let id = match self.resolve_vm_id(selector, host) {
            Ok(id) => id,
            Err(status) => {
                return Err(status);
            },
        };
        match self.hv.delete_vm(id.as_str()) {
            Ok(()) => Ok(()),
            Err(e) => Err(status_from_error(e)),
        }
    }

    /// Lists the machines in their wire form, with their states brought up
    /// to date.
    pub fn list_v_ms(&mut self, host: &Host) -> (r: Result<Vec<VmInfoDto>, Status>)
        ensures
            final(self).records() == old(self).backend().seen_records(*host),
            final(self).backend().unsettled() == old(self).backend().unsettled(),
            r matches Ok(vms) && vm_dto_views(vms@) == wire_vms(
                old(self).backend().seen_records(*host),
            ),
    {
        match self.hv.list_vms(host) {
            Ok(vms) => Ok(vms_to_dtos(&vms)),
            Err(e) => Err(status_from_error(e)),
        }
    }

    /// Reports on the machine that `selector` stands for, with its state
    /// brought up to date.
    pub fn get_vm_status(&mut self, selector: &str, host: &Host) -> (r: Result<VmStatus, Status>)
        ensures
            final(self).records() == old(self).backend().seen_records(*host),
            final(self).backend().unsettled() == old(self).backend().unsettled(),
            ({
                let seen = old(self).backend().seen_records(*host);
                match resolved(seen, selector@) {
                    Some(id) => r matches Ok(report) && report@ == status_report(
                        seen[position_of(seen, id)],
                    ),
                    None => r matches Err(status) && status@ == not_found(selector@),
                }
            }),
    {
        let vms = match self.hv.list_vms(host) {
            Ok(vms) => vms,
            Err(e) => {
                return Err(status_from_error(e));
            },
        };
        let id = match resolve_selector(&vms, selector) {
            Some(id) => id,
            None => {
                return Err(not_found_status(selector));
            },
        };
        match find_by_id(&vms, id.as_str()) {
            Some(i) => {
                proof {
                    lemma_position_of(vm_views(vms@), i as int);
                }
                let vm = &vms[i];
                Ok(
                    VmStatus {
                        vm_id: vm.id.clone(),
                        status: vm_state_to_string(vm.state),
                        rosetta_enabled: vm.rosetta_enabled,
                        shared_dirs: proto_shared_dirs(clone_shares(&vm.shared_dirs)),
                        disk_gb: vm.disk_gb,
                    },
                )
            },
            None => {
                proof {
                    let views = vm_views(vms@);
                    lemma_first_named(views, selector@);
                    if !has_id(views, selector@) {
                        assert(views[first_named(views, selector@)].id == id@);
                    }
                }
                Err(not_found_status(selector))
            },
        }
    }

    /// Adds a share to the machine that `selector` stands for. A request
    /// without a share is refused as an invalid argument.
    pub fn mount_virtio_fs(
        &mut self,
        selector: &str,
        share: Option<SharedDirectoryDto>,
        host: &Host,
    ) -> (r: Result<(), Status>)
        ensures
            final(self).backend().id_prefix() == old(self).backend().id_prefix(),
            final(self).backend().counter() == old(self).backend().counter(),
            r is Err ==> {
                &&& final(self).records() == old(self).backend().seen_records(*host)
                &&& final(self).backend().unsettled() == old(self).backend().unsettled()
            },
            ({
                let seen = old(self).backend().seen_records(*host);
                match resolved(seen, selector@) {
                    None => r matches Err(status) && status@ == not_found(selector@),
                    Some(id) => match share {
                        None => r matches Err(status) && status@ == (StatusView {
                            code: StatusCode::InvalidArgument,
                            message: "share is required"@,
                        }),
                        Some(dto) => match old(self).backend().mount_verdict(id, dto@, *host) {
                            Ok(_) => {
                                &&& r is Ok
                                &&& final(self).records() == after_mount(seen, id, dto@)
                                &&& final(self).backend().unsettled() == Some(seen)
                            },
                            Err(e) => r matches Err(status) && status@ == status_of(e),
                        },
                    },
                }
            }),
    {
        let id = match self.resolve_vm_id(selector, host) {
            Ok(id) => id,
            Err(status) => {
                return Err(status);
            },
        };
        let dto = match share {
            Some(dto) => dto,
            None => {
                return Err(
                    Status {
                        code: StatusCode::InvalidArgument,
                        message: "share is required".to_owned(),
                    },
                );
            },
        };
        let dir = core_shared_dir(dto);
        match self.hv.mount_virtiofs(id.as_str(), &dir, host) {
            Ok(()) => Ok(()),
            Err(e) => Err(status_from_error(e)),
        }
    }

    /// Takes the shares tagged `tag` from the machine that `selector` stands
    /// for. Nothing but a selector that stands for nothing is refused.
    pub fn unmount_virtio_fs(&mut self, selector: &str, tag: &str, host: &Host) -> (r: Result<
        (),
        Status,
    >)
        ensures
            final(self).backend().id_prefix() == old(self).backend().id_prefix(),
            final(self).backend().counter() == old(self).backend().counter(),
            ({
                let seen = old(self).backend().seen_records(*host);
                match resolved(seen, selector@) {
                    None => {
                        &&& r matches Err(status) && status@ == not_found(selector@)
                        &&& final(self).records() == seen
                        &&& final(self).backend().unsettled() == old(self).backend().unsettled()
                    },
                    Some(id) => {
                        &&& r is Ok
                        &&& final(self).records() == after_unmount(seen, id, tag@)
                        &&& final(self).backend().unsettled() == Some(seen)
                    },
                }
            }),
    {
        let id = match self.resolve_vm_id(selector, host) {
            Ok(id) => id,
            Err(status) => {
                return Err(status);
            },
        };
        match self.hv.unmount_virtiofs(id.as_str(), tag) {
            Ok(()) => Ok(()),
            Err(e) => Err(status_from_error(e)),
        }
    }

    /// The shares of the machine that `selector` stands for, in their wire
    /// form.
    pub fn list_virtio_fs_mounts(&mut self, selector: &str, host: &Host) -> (r: Result<
        Vec<SharedDirectoryDto>,
        Status,
    >)
        ensures
            final(self).records() == old(self).backend().seen_records(*host),
            final(self).backend().unsettled() == old(self).backend().unsettled(),
            ({
                let seen = old(self).backend().seen_records(*host);
                match resolved(seen, selector@) {
                    None => r matches Err(status) && status@ == not_found(selector@),
                    Some(id) => r matches Ok(dirs) && dto_views(dirs@) == seen[position_of(
                        seen,
                        id,
                    )].shared_dirs,
                }
            }),
    {
        let id = match self.resolve_vm_id(selector, host) {
            Ok(id) => id,
            Err(status) => {
                return Err(status);
            },
        };
        match self.hv.list_virtiofs_mounts(id.as_str()) {
            Ok(dirs) => Ok(proto_shared_dirs(dirs)),
            Err(e) => Err(status_from_error(e)),
        }
    }

    /// Takes note of how the launch that [`VmServiceImpl::start_vm`] asked
    /// for went.
    pub fn launch_finished(&mut self, id: &str, launch: Launch) -> (r: Result<(), Status>)
        ensures
            match old(self).backend().report_verdict(id@, launch_view(launch)) {
                Ok(_) => r is Ok,
                Err(e) => r matches Err(status) && status@ == status_of(e),
            },
            r is Err ==> final(self).records() == old(self).records()
                && final(self).backend().unsettled() == old(self).backend().unsettled(),
            r is Ok ==> {
                &&& has_id(old(self).records(), id@)
                &&& final(self).records() == after_state(old(self).records(), id@, VmState::Running)
                &&& final(self).backend().unsettled() == Some(old(self).records())
            },
    {
        match self.hv.launch_finished(id, launch) {
            Ok(()) => Ok(()),
            Err(e) => Err(status_from_error(e)),
        }
    }

    /// Whether a change of the backend waits to be saved.
    pub fn needs_save(&self) -> (waiting: bool)
        ensures
            waiting == self.backend().unsettled() is Some,
    {
        self.hv.needs_save()
    }

    /// Ends the wait for a save, as [`Hypervisor::settle`] does, and turns
    /// the failure of the save into the status that the client gets.
    pub fn settle(&mut self, outcome: Result<(), HypervisorError>) -> (r: Result<(), Status>)
        ensures
            final(self).backend().unsettled() is None,
            final(self).records() == match (outcome, old(self).backend().unsettled()) {
                (Err(_), Some(prev)) => prev,
                _ => old(self).records(),
            },
            match outcome {
                Ok(_) => r is Ok,
                Err(e) => r matches Err(status) && status@ == status_of(e@),
            },
    {
        match self.hv.settle(outcome) {
            Ok(()) => Ok(()),
            Err(e) => Err(status_from_error(e)),
        }
    }

    /// Hands over what the backend wants done on the host.
    pub fn take_effects(&mut self) -> (effects: Vec<Effect>)
        ensures
            effect_views(effects@) == old(self).backend().wanted(),
            final(self).backend().wanted() == Seq::<EffectView>::empty(),
            final(self).records() == old(self).records(),
            final(self).backend().unsettled() == old(self).backend().unsettled(),
    {
        self.hv.take_effects()
    }
}

/// How loudly a call that ends with `status` is logged: "not found" is what a
/// client may well be told, anything else is a failure.
pub fn severity_of_status(status: &Status) -> (severity: Severity)
    ensures
        severity == if status.code == StatusCode::NotFound {
            Severity::Warning
        } else {
            Severity::Error
        },
{
    match status.code {
        StatusCode::NotFound => Severity::Warning,
        _ => Severity::Error,
    }
}

/// What a selector stands for does not depend on the states of the machines:
/// a look at the host, which changes states only, changes no resolution.
pub proof fn lemma_resolved_ignores_states(a: Seq<VmInfoView>, b: Seq<VmInfoView>, selector: Seq<char>)
    requires
        differ_in_state_only(a, b),
    ensures
        resolved(a, selector) == resolved(b, selector),
        first_named(a, selector) == first_named(b, selector),
        has_id(a, selector) == has_id(b, selector),
    decreases a.len(),
{
    if has_id(a, selector) {
        let i = choose|i: int| 0 <= i < a.len() && (#[trigger] a[i]).id == selector;
        assert(b[i].id == selector);
    }
    if has_id(b, selector) {
        let i = choose|i: int| 0 <= i < b.len() && (#[trigger] b[i]).id == selector;
        assert(b[i] == with_state(a[i], b[i].state));
        assert(a[i].id == selector);
    }
    lemma_first_named_ignores_states(a, b, selector);
    let f = first_named(a, selector);
    lemma_first_named(a, selector);
    if f < a.len() {
        assert(b[f] == with_state(a[f], b[f].state));
    }
}

/// Where the first machine with a name is does not depend on the states of
/// the machines.
pub proof fn lemma_first_named_ignores_states(a: Seq<VmInfoView>, b: Seq<VmInfoView>, name: Seq<char>)
    requires
        differ_in_state_only(a, b),
    ensures
        first_named(a, name) == first_named(b, name),
    decreases a.len(),
{
    if a.len() > 0 {
        assert(b[0] == crate::registry::with_state(a[0], b[0].state));
        if a[0].name != name {
            let ra = a.skip(1);
            let rb = b.skip(1);
            assert forall|i: int| 0 <= i < ra.len() implies #[trigger] rb[i]
                == crate::registry::with_state(ra[i], rb[i].state) by {
                assert(b[i + 1] == crate::registry::with_state(a[i + 1], b[i + 1].state));
            }
            lemma_first_named_ignores_states(ra, rb, name);
        }
    }
}

} // verus!
