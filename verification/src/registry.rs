//! The records a backend holds in memory, the counter that numbers new
//! machines, and the fallback kept while a change waits to be saved.
//!
//! A change is made at once. Where it has to reach the disk, the records as
//! they were are kept aside; [`Registry::settle`] drops them once the save
//! went through and puts them back when it did not, so that what is listed
//! matches what is stored.

use vstd::prelude::*;
use crate::hypervisor::{
    clone_shares, clone_vms, differ_in_state_only, share_views, vm_views, ErrorView, Host,
    HypervisorError, SharedDirectory,
    SharedDirectoryView, VmConfig, VmConfigView, VmInfo, VmInfoView, VmState,
};
use crate::store::{
    dedup_by_id, dedup_last_wins, has_id, ids_distinct, kept_from, lemma_dedup_last_wins,
    lemma_next_number_is_fresh, next_id_for_prefix, next_number, numbered_id, numbers_below,
};
use crate::text::{join2, push_decimal};

verus! {

/// Whether some record has the name `name`.
pub open spec fn has_name(vms: Seq<VmInfoView>, name: Seq<char>) -> bool {
    exists|i: int| 0 <= i < vms.len() && (#[trigger] vms[i]).name == name
}

/// Whether some share has the tag `tag`.
pub open spec fn has_tag(dirs: Seq<SharedDirectoryView>, tag: Seq<char>) -> bool {
    exists|i: int| 0 <= i < dirs.len() && (#[trigger] dirs[i]).tag == tag
}

/// The shares whose tag is not `tag`, in order.
pub open spec fn without_tag(dirs: Seq<SharedDirectoryView>, tag: Seq<char>) -> Seq<
    SharedDirectoryView,
> {
    dirs.filter(|d: SharedDirectoryView| d.tag != tag)
}

/// The place of a record with the id `id`.
pub open spec fn position_of(vms: Seq<VmInfoView>, id: Seq<char>) -> int {
    choose|i: int| 0 <= i < vms.len() && (#[trigger] vms[i]).id == id
}

/// `vm` in another state.
pub open spec fn with_state(vm: VmInfoView, state: VmState) -> VmInfoView {
    VmInfoView { state: state, ..vm }
}

/// `vm` with other shares.
pub open spec fn with_shares(vm: VmInfoView, dirs: Seq<SharedDirectoryView>) -> VmInfoView {
    VmInfoView { shared_dirs: dirs, ..vm }
}

/// The record of a machine just created from `config` under `id`.
pub open spec fn record_for(config: VmConfigView, id: Seq<char>, rosetta_enabled: bool) -> VmInfoView {
    VmInfoView {
        id: id,
        name: config.name,
        state: VmState::Stopped,
        cpus: config.cpus,
        memory_mb: config.memory_mb,
        disk_gb: config.disk_gb,
        rosetta_enabled: rosetta_enabled,
        shared_dirs: config.shared_dirs,
    }
}

/// The records, each in the state `Stopped`.
pub open spec fn all_stopped(vms: Seq<VmInfoView>) -> Seq<VmInfoView> {
    Seq::new(vms.len(), |i: int| with_state(vms[i], VmState::Stopped))
}

/// What asking for a machine named `name` comes to, once the host has been
/// found fit: a refusal for a name in use, a refusal once the numbers are
/// used up, and else the id made of `prefix` and `counter`.
pub open spec fn create_outcome(
    vms: Seq<VmInfoView>,
    prefix: Seq<char>,
    counter: u64,
    name: Seq<char>,
) -> Result<Seq<char>, ErrorView> {
    if has_name(vms, name) {
        Err(ErrorView::CreateFailed("VM name already exists: "@ + name))
    } else if counter == u64::MAX {
        Err(ErrorView::CreateFailed("VM ids are used up"@))
    } else {
        Ok(numbered_id(prefix, counter))
    }
}

/// What an operation on the machine `id` comes to where nothing but the id
/// can be wrong.
pub open spec fn lookup_outcome(vms: Seq<VmInfoView>, id: Seq<char>) -> Result<(), ErrorView> {
    if has_id(vms, id) {
        Ok(())
    } else {
        Err(ErrorView::NotFound(id))
    }
}

/// What starting the machine `id` comes to where nothing is to be launched:
/// the machine runs, unless there is no such machine.
pub open spec fn start_outcome(vms: Seq<VmInfoView>, id: Seq<char>) -> Result<
    crate::hypervisor::StartedView,
    ErrorView,
> {
    if has_id(vms, id) {
        Ok(crate::hypervisor::StartedView::Running)
    } else {
        Err(ErrorView::NotFound(id))
    }
}

/// What adding a share tagged `tag` to the machine `id` comes to.
pub open spec fn mount_outcome(vms: Seq<VmInfoView>, id: Seq<char>, tag: Seq<char>) -> Result<
    (),
    ErrorView,
> {
    if !has_id(vms, id) {
        Err(ErrorView::NotFound(id))
    } else if has_tag(vms[position_of(vms, id)].shared_dirs, tag) {
        Err(ErrorView::VirtioFsError("Mount tag already exists: "@ + tag))
    } else {
        Ok(())
    }
}

/// What adding a share comes to: its host path must exist, and then the id
/// and the tag decide.
pub open spec fn checked_mount_outcome(
    vms: Seq<VmInfoView>,
    id: Seq<char>,
    share: SharedDirectoryView,
    host: Host,
) -> Result<(), ErrorView> {
    if !host.path_exists(share.host_path) {
        Err(ErrorView::VirtioFsError("Host path does not exist: "@ + share.host_path))
    } else {
        mount_outcome(vms, id, share.tag)
    }
}

/// The records after the machine `id` went into the state `state`.
pub open spec fn after_state(vms: Seq<VmInfoView>, id: Seq<char>, state: VmState) -> Seq<
    VmInfoView,
> {
    let i = position_of(vms, id);
    vms.update(i, with_state(vms[i], state))
}

/// The records after the machine `id` was removed.
pub open spec fn after_remove(vms: Seq<VmInfoView>, id: Seq<char>) -> Seq<VmInfoView> {
    vms.remove(position_of(vms, id))
}

/// The records after `share` was added to the machine `id`.
pub open spec fn after_mount(vms: Seq<VmInfoView>, id: Seq<char>, share: SharedDirectoryView) -> Seq<
    VmInfoView,
> {
    let i = position_of(vms, id);
    vms.update(i, with_shares(vms[i], vms[i].shared_dirs.push(share)))
}

/// The records after the shares tagged `tag` were taken from the machine
/// `id`.
pub open spec fn after_unmount(vms: Seq<VmInfoView>, id: Seq<char>, tag: Seq<char>) -> Seq<
    VmInfoView,
> {
    let i = position_of(vms, id);
    vms.update(i, with_shares(vms[i], without_tag(vms[i].shared_dirs, tag)))
}

/// Putting a machine into the state that it is in leaves the records as they
/// are.
pub proof fn lemma_same_state_changes_nothing(vms: Seq<VmInfoView>, id: Seq<char>, state: VmState)
    requires
        has_id(vms, id),
        vms[position_of(vms, id)].state == state,
    ensures
        after_state(vms, id, state) == vms,
{
    assert(after_state(vms, id, state) =~= vms);
}

/// With distinct ids, a record's id says where the record is.
pub proof fn lemma_position_of(vms: Seq<VmInfoView>, i: int)
    requires
        ids_distinct(vms),
        0 <= i < vms.len(),
    ensures
        position_of(vms, vms[i].id) == i,
{
    let p = position_of(vms, vms[i].id);
    assert(0 <= p < vms.len() && vms[p].id == vms[i].id);
    if p < i {
        assert(vms[p].id != vms[i].id);
    } else if i < p {
        assert(vms[i].id != vms[p].id);
    }
}

/// Which ids there are does not depend on the states of the machines.
pub proof fn lemma_ids_ignore_states(a: Seq<VmInfoView>, b: Seq<VmInfoView>, id: Seq<char>)
    requires
        differ_in_state_only(a, b),
    ensures
        has_id(a, id) == has_id(b, id),
{
    if has_id(a, id) {
        let i = choose|i: int| 0 <= i < a.len() && (#[trigger] a[i]).id == id;
        assert(b[i] == with_state(a[i], b[i].state));
        assert(b[i].id == id);
    }
    if has_id(b, id) {
        let i = choose|i: int| 0 <= i < b.len() && (#[trigger] b[i]).id == id;
        assert(b[i] == with_state(a[i], b[i].state));
        assert(a[i].id == id);
    }
}

/// Where a machine is does not depend on the states of the machines.
pub proof fn lemma_position_ignores_states(a: Seq<VmInfoView>, b: Seq<VmInfoView>, id: Seq<char>)
    requires
        differ_in_state_only(a, b),
        ids_distinct(b),
        has_id(b, id),
    ensures
        ids_distinct(a),
        has_id(a, id),
        position_of(a, id) == position_of(b, id),
{
    assert forall|i: int, j: int| 0 <= i < j < a.len() implies (#[trigger] a[i]).id != (
    #[trigger] a[j]).id by {
        assert(b[i] == with_state(a[i], b[i].state));
        assert(b[j] == with_state(a[j], b[j].state));
        assert(b[i].id != b[j].id);
    }
    let i = choose|i: int| 0 <= i < b.len() && (#[trigger] b[i]).id == id;
    assert(b[i] == with_state(a[i], b[i].state));
    assert(a[i].id == id);
    lemma_position_of(a, i);
    lemma_position_of(b, i);
}

/// What adding a share comes to does not depend on the states of the
/// machines.
pub proof fn lemma_mount_ignores_states(
    a: Seq<VmInfoView>,
    b: Seq<VmInfoView>,
    id: Seq<char>,
    tag: Seq<char>,
)
    requires
        differ_in_state_only(a, b),
        ids_distinct(b),
    ensures
        mount_outcome(a, id, tag) == mount_outcome(b, id, tag),
{
    lemma_ids_ignore_states(a, b, id);
    if has_id(b, id) {
        lemma_position_ignores_states(a, b, id);
        let i = position_of(b, id);
        assert(b[i] == with_state(a[i], b[i].state));
    }
}

/// The views of an optional list of records.
pub open spec fn optional_views(vms: Option<Vec<VmInfo>>) -> Option<Seq<VmInfoView>> {
    match vms {
        Some(v) => Some(vm_views(v@)),
        None => None,
    }
}

/// `Ok` with nothing in it, or the view of the error.
pub open spec fn unit_view(r: Result<(), HypervisorError>) -> Result<(), ErrorView> {
    match r {
        Ok(_) => Ok(()),
        Err(e) => Err(e@),
    }
}

/// The view of what an operation that names a new id returns.
pub open spec fn id_view(r: Result<String, HypervisorError>) -> Result<Seq<char>, ErrorView> {
    match r {
        Ok(id) => Ok(id@),
        Err(e) => Err(e@),
    }
}

/// The view of what an operation that lists shares returns.
pub open spec fn shares_view(r: Result<Vec<SharedDirectory>, HypervisorError>) -> Result<
    Seq<SharedDirectoryView>,
    ErrorView,
> {
    match r {
        Ok(dirs) => Ok(share_views(dirs@)),
        Err(e) => Err(e@),
    }
}

/// Puts every record into the state `Stopped`.
pub fn stop_all(vms: Vec<VmInfo>) -> (out: Vec<VmInfo>)
    ensures
        vm_views(out@) == all_stopped(vm_views(vms@)),
{
    let mut out = vms;
    let mut i: usize = 0;
    while i < out.len()
        invariant
            i <= out.len(),
            out.len() == vms.len(),
            forall|k: int| 0 <= k < i ==> (#[trigger] out@[k])@ == with_state(vms@[k]@, VmState::Stopped),
            forall|k: int| i <= k < out.len() ==> (#[trigger] out@[k]) == vms@[k],
        decreases out.len() - i,
    {
        out[i].state = VmState::Stopped;
        i = i + 1;
    }
    proof {
        assert(vm_views(out@) =~= all_stopped(vm_views(vms@)));
    }
    out
}

/// The in-memory records of one backend.
#[derive(Debug)]
pub struct Registry {
    vms: Vec<VmInfo>,
    next_id: u64,
    prefix: String,
    fallback: Option<Vec<VmInfo>>,
}

impl Registry {
    /// No two records share an id, and new ids are fresh: the counter lies
    /// above every number in use, unless the numbers are used up.
    #[verifier::type_invariant]
    pub closed spec fn inv(&self) -> bool {
        &&& self.next_id >= 1
        &&& ids_distinct(vm_views(self.vms@))
        &&& (numbers_below(vm_views(self.vms@), self.prefix@, self.next_id) || self.next_id
            == u64::MAX)
        &&& match self.fallback {
            Some(prev) => ids_distinct(vm_views(prev@)) && (numbers_below(
                vm_views(prev@),
                self.prefix@,
                self.next_id,
            ) || self.next_id == u64::MAX),
            None => true,
        }
    }

    /// The records, in registry order.
    pub closed spec fn records(&self) -> Seq<VmInfoView> {
        vm_views(self.vms@)
    }

    /// The number that the next machine gets.
    pub closed spec fn counter(&self) -> u64 {
        self.next_id
    }

    /// What every id given out by this registry begins with.
    pub closed spec fn id_prefix(&self) -> Seq<char> {
        self.prefix@
    }

    /// The records to return to if the change that waits to be saved cannot
    /// be saved; `None` when no change waits.
    pub closed spec fn unsettled(&self) -> Option<Seq<VmInfoView>> {
        optional_views(self.fallback)
    }

    /// What the invariant says, over the public names.
    pub proof fn lemma_inv(self)
        requires
            self.inv(),
        ensures
            self.counter() >= 1,
            ids_distinct(self.records()),
            numbers_below(self.records(), self.id_prefix(), self.counter()) || self.counter()
                == u64::MAX,
            self.unsettled() matches Some(prev) ==> ids_distinct(prev),
    {
    }

    /// A registry that holds `loaded`, without the records that a later one
    /// with the same id supersedes, and numbers new machines after those of
    /// `loaded`.
    pub fn new(prefix: &str, loaded: Vec<VmInfo>) -> (registry: Registry)
        ensures
            registry.records() == dedup_last_wins(vm_views(loaded@)),
            registry.counter() == next_number(vm_views(loaded@), prefix@),
            registry.id_prefix() == prefix@,
            registry.unsettled() is None,
    {
        let next_id = next_id_for_prefix(loaded.as_slice(), prefix);
        let vms = dedup_by_id(loaded.as_slice());
        proof {
            let all = vm_views(loaded@);
            let kept = vm_views(vms@);
            lemma_dedup_last_wins(all);
            lemma_next_number_is_fresh(all, prefix@);
            if next_id != u64::MAX {
                assert forall|a: int, k: u64|
                    0 <= a < kept.len() && (#[trigger] kept[a]).id == #[trigger] numbered_id(
                        prefix@,
                        k,
                    ) implies k < next_id by {
                    assert(kept_from(all, all.len() as int, kept[a]));
                    let i = choose|i: int| 0 <= i < all.len() && #[trigger] all[i] == kept[a];
                    assert(all[i].id == numbered_id(prefix@, k));
                }
            }
        }
        Registry { vms, next_id, prefix: prefix.to_owned(), fallback: None }
    }

    /// A copy of the records.
    pub fn list(&self) -> (vms: Vec<VmInfo>)
        ensures
            vm_views(vms@) == self.records(),
    {
        clone_vms(&self.vms)
    }

    /// How many records there are.
    pub fn len(&self) -> (n: usize)
        ensures
            n == self.records().len(),
    {
        self.vms.len()
    }

    /// The number that the next machine gets.
    pub fn next_id(&self) -> (n: u64)
        ensures
            n == self.counter(),
    {
        self.next_id
    }

    /// Whether a change waits to be saved.
    pub fn is_unsettled(&self) -> (waiting: bool)
        ensures
            waiting == self.unsettled() is Some,
    {
        self.fallback.is_some()
    }

    /// Where the record with the id `id` is.
    pub fn position(&self, id: &str) -> (place: Option<usize>)
        ensures
            match place {
                Some(i) => i < self.records().len() && self.records()[i as int].id == id@
                    && position_of(self.records(), id@) == i,
                None => !has_id(self.records(), id@),
            },
    {
        proof {
            use_type_invariant(self);
        }
        let wanted = id.to_owned();
        let mut i: usize = 0;
        while i < self.vms.len()
            invariant
                i <= self.vms.len(),
                wanted@ == id@,
                ids_distinct(self.records()),
                forall|k: int| 0 <= k < i ==> (#[trigger] self.records()[k]).id != id@,
            decreases self.vms.len() - i,
        {
            if self.vms[i].id == wanted {
                proof {
                    assert(self.records()[i as int].id == id@);
                    lemma_position_of(self.records(), i as int);
                }
                return Some(i);
            }
            i = i + 1;
        }
        None
    }

    /// The record at `index`.
    pub fn get(&self, index: usize) -> (vm: &VmInfo)
        requires
            index < self.records().len(),
        ensures
            vm@ == self.records()[index as int],
    {
        &self.vms[index]
    }

    /// Whether some record bears the name `name`.
    pub fn name_in_use(&self, name: &str) -> (used: bool)
        ensures
            used == has_name(self.records(), name@),
    {
        let wanted = name.to_owned();
        let mut i: usize = 0;
        while i < self.vms.len()
            invariant
                i <= self.vms.len(),
                wanted@ == name@,
                forall|k: int| 0 <= k < i ==> (#[trigger] self.records()[k]).name != name@,
            decreases self.vms.len() - i,
        {
            if self.vms[i].name == wanted {
                proof {
                    assert(self.records()[i as int].name == name@);
                }
                return true;
            }
            i = i + 1;
        }
        false
    }

    /// Keeps the records as they are now, to return to if the change that
    /// follows cannot be saved.
    pub fn checkpoint(&mut self)
        ensures
            final(self).records() == old(self).records(),
            final(self).counter() == old(self).counter(),
            final(self).id_prefix() == old(self).id_prefix(),
            final(self).unsettled() == Some(old(self).records()),
    {
        proof {
            use_type_invariant(&*self);
        }
        let copy = clone_vms(&self.vms);
        self.fallback = Some(copy);
    }

    /// Ends the wait for a save. After a save that went through the records
    /// stay; after one that failed they are what they were at the last
    /// checkpoint, and the failure is handed back.
    pub fn settle(&mut self, outcome: Result<(), HypervisorError>) -> (r: Result<
        (),
        HypervisorError,
    >)
        ensures
            r == outcome,
            final(self).unsettled() is None,
            final(self).counter() == old(self).counter(),
            final(self).id_prefix() == old(self).id_prefix(),
            final(self).records() == match (outcome, old(self).unsettled()) {
                (Err(_), Some(prev)) => prev,
                _ => old(self).records(),
            },
    {
        proof {
            use_type_invariant(&*self);
        }
        let mut kept: Option<Vec<VmInfo>> = None;
        std::mem::swap(&mut self.fallback, &mut kept);
        if outcome.is_err() {
            match kept {
                Some(prev) => {
                    self.vms = prev;
                },
                None => {},
            }
        }
        outcome
    }

    /// Adds the record of a new machine and gives it the next id. A name that
    /// is in use is refused, and so is every machine once the numbers are
    /// used up; then nothing changes. The records as they were are kept for
    /// [`Registry::settle`].
    pub fn create(&mut self, config: VmConfig, rosetta_enabled: bool) -> (r: Result<
        String,
        HypervisorError,
    >)
        ensures
            final(self).id_prefix() == old(self).id_prefix(),
            id_view(r) == create_outcome(
                old(self).records(),
                old(self).id_prefix(),
                old(self).counter(),
                config@.name,
            ),
            r is Err ==> {
                &&& final(self).records() == old(self).records()
                &&& final(self).counter() == old(self).counter()
                &&& final(self).unsettled() == old(self).unsettled()
            },
            r matches Ok(id) ==> {
                &&& !has_id(old(self).records(), id@)
                &&& final(self).records() == old(self).records().push(
                    record_for(config@, id@, rosetta_enabled),
                )
                &&& final(self).counter() == old(self).counter() + 1
                &&& final(self).unsettled() == Some(old(self).records())
            },
    {
        proof {
            use_type_invariant(&*self);
        }
        if self.name_in_use(config.name.as_str()) {
            return Err(
                HypervisorError::CreateFailed(
                    join2("VM name already exists: ", config.name.as_str()),
                ),
            );
        }
        if self.next_id == u64::MAX {
            return Err(HypervisorError::CreateFailed("VM ids are used up".to_owned()));
        }
        let mut id = self.prefix.clone();
        push_decimal(&mut id, self.next_id);
        let ghost before = self.records();
        let ghost number = self.next_id;
        proof {
            assert(id@ == numbered_id(self.prefix@, number));
            assert(!has_id(before, id@)) by {
                if has_id(before, id@) {
                    let i = choose|i: int| 0 <= i < before.len() && (#[trigger] before[i]).id == id@;
                    assert(before[i].id == numbered_id(self.prefix@, number));
                }
            }
        }
        let info = VmInfo {
            id: id.clone(),
            name: config.name,
            state: VmState::Stopped,
            cpus: config.cpus,
            memory_mb: config.memory_mb,
            disk_gb: config.disk_gb,
            rosetta_enabled: rosetta_enabled,
            shared_dirs: config.shared_dirs,
        };
        let copy = clone_vms(&self.vms);
        self.fallback = Some(copy);
        self.next_id = self.next_id + 1;
        let mut vms: Vec<VmInfo> = Vec::new();
        std::mem::swap(&mut self.vms, &mut vms);
        vms.push(info);
        proof {
            let after = vm_views(vms@);
            assert(after =~= before.push(record_for(config@, id@, rosetta_enabled)));
            assert forall|i: int, j: int| 0 <= i < j < after.len() implies (#[trigger] after[i]).id
                != (#[trigger] after[j]).id by {
                if j == after.len() - 1 {
                    assert(before[i].id != id@);
                } else {
                    assert(before[i].id != before[j].id);
                }
            }
            if self.next_id != u64::MAX {
                assert forall|i: int, k: u64|
                    0 <= i < after.len() && (#[trigger] after[i]).id == #[trigger] numbered_id(
                        self.prefix@,
                        k,
                    ) implies k < self.next_id by {
                    if i == after.len() - 1 {
                        crate::store::lemma_id_number_of_numbered(self.prefix@, k);
                        crate::store::lemma_id_number_of_numbered(self.prefix@, number);
                    } else {
                        assert(before[i].id == numbered_id(self.prefix@, k));
                    }
                }
            }
        }
        self.vms = vms;
        Ok(id)
    }

    /// Puts the record at `index` into the state `state`, keeping nothing
    /// aside.
    pub fn mark_state(&mut self, index: usize, state: VmState)
        requires
            index < old(self).records().len(),
        ensures
            final(self).records() == old(self).records().update(
                index as int,
                with_state(old(self).records()[index as int], state),
            ),
            final(self).counter() == old(self).counter(),
            final(self).id_prefix() == old(self).id_prefix(),
            final(self).unsettled() == old(self).unsettled(),
    {
        proof {
            use_type_invariant(&*self);
        }
        let ghost before = self.records();
        let mut vms: Vec<VmInfo> = Vec::new();
        std::mem::swap(&mut self.vms, &mut vms);
        vms[index].state = state;
        proof {
            let after = vm_views(vms@);
            assert(after =~= before.update(index as int, with_state(before[index as int], state)));
            lemma_same_ids(before, after, self.prefix@, self.next_id);
        }
        self.vms = vms;
    }

    /// Puts the machine `id` into the state `state`; the records as they were
    /// are kept for [`Registry::settle`]. An unknown id is refused, and then
    /// nothing changes.
    pub fn set_state(&mut self, id: &str, state: VmState) -> (r: Result<(), HypervisorError>)
        ensures
            final(self).counter() == old(self).counter(),
            final(self).id_prefix() == old(self).id_prefix(),
            unit_view(r) == lookup_outcome(old(self).records(), id@),
            r is Err ==> {
                &&& final(self).records() == old(self).records()
                &&& final(self).unsettled() == old(self).unsettled()
            },
            r is Ok ==> {
                &&& final(self).records() == after_state(old(self).records(), id@, state)
                &&& final(self).unsettled() == Some(old(self).records())
            },
    {
        match self.position(id) {
            None => Err(HypervisorError::NotFound(id.to_owned())),
            Some(index) => {
                self.checkpoint();
                self.mark_state(index, state);
                Ok(())
            },
        }
    }

    /// Puts the machine `id` into the state `Running`. A machine that runs
    /// already is left as it is, and nothing waits to be saved on its
    /// account; for any other the records as they were are kept for
    /// [`Registry::settle`]. An unknown id is refused, and then nothing
    /// changes.
    pub fn set_running(&mut self, id: &str) -> (r: Result<(), HypervisorError>)
        ensures
            final(self).counter() == old(self).counter(),
            final(self).id_prefix() == old(self).id_prefix(),
            unit_view(r) == lookup_outcome(old(self).records(), id@),
            r is Err ==> {
                &&& final(self).records() == old(self).records()
                &&& final(self).unsettled() == old(self).unsettled()
            },
            r is Ok ==> {
                &&& final(self).records() == after_state(old(self).records(), id@, VmState::Running)
                &&& final(self).unsettled() == if old(self).records()[position_of(
                    old(self).records(),
                    id@,
                )].state == VmState::Running {
                    old(self).unsettled()
                } else {
                    Some(old(self).records())
                }
            },
    {
        match self.position(id) {
            None => Err(HypervisorError::NotFound(id.to_owned())),
            Some(index) => {
                let runs = match self.get(index).state {
                    VmState::Running => true,
                    _ => false,
                };
                if runs {
                    proof {
                        lemma_same_state_changes_nothing(self.records(), id@, VmState::Running);
                    }
                } else {
                    self.checkpoint();
                    self.mark_state(index, VmState::Running);
                }
                Ok(())
            },
        }
    }

    /// Takes the machine `id` out of the records; the records as they were
    /// are kept for [`Registry::settle`]. An unknown id is refused, and then
    /// nothing changes.
    pub fn remove(&mut self, id: &str) -> (r: Result<(), HypervisorError>)
        ensures
            final(self).counter() == old(self).counter(),
            final(self).id_prefix() == old(self).id_prefix(),
            unit_view(r) == lookup_outcome(old(self).records(), id@),
            r is Err ==> {
                &&& final(self).records() == old(self).records()
                &&& final(self).unsettled() == old(self).unsettled()
            },
            r is Ok ==> {
                &&& final(self).records() == after_remove(old(self).records(), id@)
                &&& !has_id(final(self).records(), id@)
                &&& final(self).unsettled() == Some(old(self).records())
            },
    {
        match self.position(id) {
            None => Err(HypervisorError::NotFound(id.to_owned())),
            Some(index) => {
                self.checkpoint();
                proof {
                    use_type_invariant(&*self);
                }
                let ghost before = self.records();
                let mut vms: Vec<VmInfo> = Vec::new();
                std::mem::swap(&mut self.vms, &mut vms);
                let _ = vms.remove(index);
                proof {
                    let after = vm_views(vms@);
                    assert(after =~= before.remove(index as int));
                    assert forall|i: int, j: int| 0 <= i < j < after.len() implies (
                    #[trigger] after[i]).id != (#[trigger] after[j]).id by {
                        let a = if i < index {
                            i
                        } else {
                            i + 1
                        };
                        let b = if j < index {
                            j
                        } else {
                            j + 1
                        };
                        assert(before[a].id != before[b].id);
                    }
                    if self.next_id != u64::MAX {
                        assert forall|i: int, k: u64|
                            0 <= i < after.len() && (#[trigger] after[i]).id
                                == #[trigger] numbered_id(self.prefix@, k) implies k
                            < self.next_id by {
                            let a = if i < index {
                                i
                            } else {
                                i + 1
                            };
                            assert(before[a].id == numbered_id(self.prefix@, k));
                        }
                    }
                    assert(!has_id(after, id@)) by {
                        if has_id(after, id@) {
                            let i = choose|i: int|
                                0 <= i < after.len() && (#[trigger] after[i]).id == id@;
                            let a = if i < index {
                                i
                            } else {
                                i + 1
                            };
                            if a < index {
                                assert(before[a].id != before[index as int].id);
                            } else {
                                assert(before[index as int].id != before[a].id);
                            }
                        }
                    }
                }
                self.vms = vms;
                Ok(())
            },
        }
    }

    /// The shares of the machine `id`.
    pub fn shares(&self, id: &str) -> (r: Result<Vec<SharedDirectory>, HypervisorError>)
        ensures
            shares_view(r) == if has_id(self.records(), id@) {
                Ok::<Seq<SharedDirectoryView>, ErrorView>(
                    self.records()[position_of(self.records(), id@)].shared_dirs,
                )
            } else {
                Err::<Seq<SharedDirectoryView>, ErrorView>(ErrorView::NotFound(id@))
            },
    {
        match self.position(id) {
            None => Err(HypervisorError::NotFound(id.to_owned())),
            Some(index) => {
                let dirs = clone_shares(&self.vms[index].shared_dirs);
                Ok(dirs)
            },
        }
    }

    /// Adds `share` to the machine `id`; the records as they were are kept
    /// for [`Registry::settle`]. An unknown id and a tag that the machine
    /// already has are refused, and then nothing changes.
    pub fn add_share(&mut self, id: &str, share: &SharedDirectory) -> (r: Result<
        (),
        HypervisorError,
    >)
        ensures
            final(self).counter() == old(self).counter(),
            final(self).id_prefix() == old(self).id_prefix(),
            unit_view(r) == mount_outcome(old(self).records(), id@, share@.tag),
            r is Err ==> {
                &&& final(self).records() == old(self).records()
                &&& final(self).unsettled() == old(self).unsettled()
            },
            r is Ok ==> {
                &&& final(self).records() == after_mount(old(self).records(), id@, share@)
                &&& final(self).unsettled() == Some(old(self).records())
            },
    {
        match self.position(id) {
            None => Err(HypervisorError::NotFound(id.to_owned())),
            Some(index) => {
                if tag_in_use(&self.vms[index].shared_dirs, share.tag.as_str()) {
                    return Err(
                        HypervisorError::VirtioFsError(
                            join2("Mount tag already exists: ", share.tag.as_str()),
                        ),
                    );
                }
                self.checkpoint();
                proof {
                    use_type_invariant(&*self);
                }
                let ghost before = self.records();
                let mut vms: Vec<VmInfo> = Vec::new();
                std::mem::swap(&mut self.vms, &mut vms);
                vms[index].shared_dirs.push(share.clone());
                proof {
                    let after = vm_views(vms@);
                    let vm = before[index as int];
                    assert(after[index as int].shared_dirs =~= vm.shared_dirs.push(share@));
                    assert(after =~= before.update(
                        index as int,
                        with_shares(vm, vm.shared_dirs.push(share@)),
                    ));
                    lemma_same_ids(before, after, self.prefix@, self.next_id);
                }
                self.vms = vms;
                Ok(())
            },
        }
    }

    /// Takes every share tagged `tag` from the machine `id`; the records as
    /// they were are kept for [`Registry::settle`]. An unknown id is refused,
    /// and then nothing changes. A tag that the machine does not have is no
    /// error.
    pub fn remove_share(&mut self, id: &str, tag: &str) -> (r: Result<(), HypervisorError>)
        ensures
            final(self).counter() == old(self).counter(),
            final(self).id_prefix() == old(self).id_prefix(),
            unit_view(r) == lookup_outcome(old(self).records(), id@),
            r is Err ==> {
                &&& final(self).records() == old(self).records()
                &&& final(self).unsettled() == old(self).unsettled()
            },
            r is Ok ==> {
                &&& final(self).records() == after_unmount(old(self).records(), id@, tag@)
                &&& final(self).unsettled() == Some(old(self).records())
            },
    {
        match self.position(id) {
            None => Err(HypervisorError::NotFound(id.to_owned())),
            Some(index) => {
                self.checkpoint();
                proof {
                    use_type_invariant(&*self);
                }
                let ghost before = self.records();
                let kept = shares_without(&self.vms[index].shared_dirs, tag);
                let mut vms: Vec<VmInfo> = Vec::new();
                std::mem::swap(&mut self.vms, &mut vms);
                vms[index].shared_dirs = kept;
                proof {
                    let after = vm_views(vms@);
                    let vm = before[index as int];
                    assert(after =~= before.update(
                        index as int,
                        with_shares(vm, without_tag(vm.shared_dirs, tag@)),
                    ));
                    lemma_same_ids(before, after, self.prefix@, self.next_id);
                }
                self.vms = vms;
                Ok(())
            },
        }
    }
}

/// Records that differ from others in nothing but state and shares have the
/// same ids, so what holds of the ids of the ones holds of the others.
pub proof fn lemma_same_ids(before: Seq<VmInfoView>, after: Seq<VmInfoView>, prefix: Seq<char>, bound: u64)
    requires
        before.len() == after.len(),
        forall|i: int| 0 <= i < before.len() ==> (#[trigger] after[i]).id == before[i].id,
    ensures
        ids_distinct(before) ==> ids_distinct(after),
        numbers_below(before, prefix, bound) ==> numbers_below(after, prefix, bound),
        forall|id: Seq<char>| has_id(before, id) <==> has_id(after, id),
{
    if ids_distinct(before) {
        assert forall|i: int, j: int| 0 <= i < j < after.len() implies (#[trigger] after[i]).id != (
        #[trigger] after[j]).id by {
            assert(before[i].id != before[j].id);
        }
    }
    if numbers_below(before, prefix, bound) {
        assert forall|i: int, k: u64|
            0 <= i < after.len() && (#[trigger] after[i]).id == #[trigger] numbered_id(
                prefix,
                k,
            ) implies k < bound by {
            assert(before[i].id == numbered_id(prefix, k));
        }
    }
    assert forall|id: Seq<char>| has_id(before, id) <==> has_id(after, id) by {
        if has_id(before, id) {
            let i = choose|i: int| 0 <= i < before.len() && (#[trigger] before[i]).id == id;
            assert(after[i].id == id);
        }
        if has_id(after, id) {
            let i = choose|i: int| 0 <= i < after.len() && (#[trigger] after[i]).id == id;
            assert(before[i].id == id);
        }
    }
}

/// Whether one of `dirs` is tagged `tag`.
pub fn tag_in_use(dirs: &Vec<SharedDirectory>, tag: &str) -> (used: bool)
    ensures
        used == has_tag(share_views(dirs@), tag@),
{
    let wanted = tag.to_owned();
    let mut i: usize = 0;
    while i < dirs.len()
        invariant
            i <= dirs.len(),
            wanted@ == tag@,
            forall|k: int| 0 <= k < i ==> (#[trigger] share_views(dirs@)[k]).tag != tag@,
        decreases dirs.len() - i,
    {
        if dirs[i].tag == wanted {
            proof {
                assert(share_views(dirs@)[i as int].tag == tag@);
            }
            return true;
        }
        i = i + 1;
    }
    false
}

/// Copies of those of `dirs` that are not tagged `tag`, in order.
pub fn shares_without(dirs: &Vec<SharedDirectory>, tag: &str) -> (kept: Vec<SharedDirectory>)
    ensures
        share_views(kept@) == without_tag(share_views(dirs@), tag@),
{
    let ghost views = share_views(dirs@);
    let ghost keep = |d: SharedDirectoryView| d.tag != tag@;
    let wanted = tag.to_owned();
    let mut kept: Vec<SharedDirectory> = Vec::new();
    let mut i: usize = 0;
    proof {
        assert(views.take(0) =~= Seq::empty());
        reveal(Seq::filter);
        assert(share_views(kept@) =~= views.take(0).filter(keep));
    }
    while i < dirs.len()
        invariant
            i <= dirs.len(),
            wanted@ == tag@,
            views == share_views(dirs@),
            keep == |d: SharedDirectoryView| d.tag != tag@,
            share_views(kept@) == views.take(i as int).filter(keep),
        decreases dirs.len() - i,
    {
        let ghost before = share_views(kept@);
        proof {
            assert(views.take(i + 1) =~= views.take(i as int).push(views[i as int]));
            views.take(i as int).lemma_filter_push(views[i as int], keep);
        }
        if dirs[i].tag != wanted {
            kept.push(dirs[i].clone());
            proof {
                assert(share_views(kept@) =~= before.push(views[i as int]));
            }
        }
        i = i + 1;
    }
    proof {
        assert(views.take(dirs.len() as int) =~= views);
    }
    kept
}

} // verus!
