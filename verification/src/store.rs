//! The registry document: what it holds, how a loaded document is normalised,
//! and which number the next machine of a backend gets.

use vstd::prelude::*;
use crate::hypervisor::{vm_views, HypervisorError, ErrorView, VmInfo, VmInfoView};
use crate::text::{
    chars_of, decimal, has_prefix, lemma_parse_decimal_round_trip, parse_decimal,
    parse_decimal_from, starts_with,
};

verus! {

/// Schema version that this crate writes.
pub const CURRENT_VERSION: u32 = 1;

/// Whether some record has the id `id`.
pub open spec fn has_id(vms: Seq<VmInfoView>, id: Seq<char>) -> bool {
    exists|i: int| 0 <= i < vms.len() && (#[trigger] vms[i]).id == id
}

/// Whether no two records share an id.
pub open spec fn ids_distinct(vms: Seq<VmInfoView>) -> bool {
    forall|i: int, j: int|
        0 <= i < j < vms.len() ==> (#[trigger] vms[i]).id != (#[trigger] vms[j]).id
}

/// Whether record `i` is the last one with its id.
pub open spec fn last_with_id(vms: Seq<VmInfoView>, i: int) -> bool {
    forall|j: int| i < j < vms.len() ==> (#[trigger] vms[j]).id != vms[i].id
}

/// Those of the first `n` records that are the last with their id, in order.
pub open spec fn dedup_upto(vms: Seq<VmInfoView>, n: int) -> Seq<VmInfoView>
    decreases n,
{
    if n <= 0 {
        Seq::empty()
    } else if last_with_id(vms, n - 1) {
        dedup_upto(vms, n - 1).push(vms[n - 1])
    } else {
        dedup_upto(vms, n - 1)
    }
}

/// The records without duplicates: of several records with one id only the
/// last stays, at its place.
pub open spec fn dedup_last_wins(vms: Seq<VmInfoView>) -> Seq<VmInfoView> {
    dedup_upto(vms, vms.len() as int)
}

/// Whether `vm` is one of the first `n` records and the last with its id.
pub open spec fn kept_from(vms: Seq<VmInfoView>, n: int, vm: VmInfoView) -> bool {
    exists|i: int| 0 <= i < n && last_with_id(vms, i) && #[trigger] vms[i] == vm
}

/// Every record kept by [`dedup_upto`] comes from the input, is the last with
/// its id there, and no two kept records share an id.
pub proof fn lemma_dedup_upto(vms: Seq<VmInfoView>, n: int)
    requires
        0 <= n <= vms.len(),
    ensures
        dedup_upto(vms, n).len() <= n,
        ids_distinct(dedup_upto(vms, n)),
        forall|a: int|
            0 <= a < dedup_upto(vms, n).len() ==> kept_from(
                vms,
                n,
                #[trigger] dedup_upto(vms, n)[a],
            ),
        forall|i: int|
            0 <= i < n && last_with_id(vms, i) ==> dedup_upto(vms, n).contains(#[trigger] vms[i]),
    decreases n,
{
    if n > 0 {
        lemma_dedup_upto(vms, n - 1);
        let before = dedup_upto(vms, n - 1);
        let now = dedup_upto(vms, n);
        if last_with_id(vms, n - 1) {
            assert forall|a: int| 0 <= a < now.len() implies kept_from(vms, n, #[trigger] now[a]) by {
                if a == now.len() - 1 {
                    assert(last_with_id(vms, n - 1) && vms[n - 1] == now[a]);
                } else {
                    assert(kept_from(vms, n - 1, before[a]));
                    let i = choose|i: int|
                        0 <= i < n - 1 && last_with_id(vms, i) && #[trigger] vms[i] == before[a];
                    assert(0 <= i < n && last_with_id(vms, i) && vms[i] == now[a]);
                }
            }
            assert forall|a: int, b: int| 0 <= a < b < now.len() implies (#[trigger] now[a]).id
                != (#[trigger] now[b]).id by {
                if b == now.len() - 1 {
                    assert(kept_from(vms, n - 1, before[a]));
                    let i = choose|i: int|
                        0 <= i < n - 1 && last_with_id(vms, i) && #[trigger] vms[i] == before[a];
                    assert(vms[n - 1].id != vms[i].id);
                } else {
                    assert(before[a].id != before[b].id);
                }
            }
            assert forall|i: int| 0 <= i < n && last_with_id(vms, i) implies now.contains(
                #[trigger] vms[i],
            ) by {
                if i == n - 1 {
                    assert(now[now.len() - 1] == vms[i]);
                } else {
                    assert(before.contains(vms[i]));
                    let a = choose|a: int| 0 <= a < before.len() && before[a] == vms[i];
                    assert(now[a] == vms[i]);
                }
            }
        } else {
            assert forall|a: int| 0 <= a < now.len() implies kept_from(vms, n, #[trigger] now[a]) by {
                assert(kept_from(vms, n - 1, before[a]));
                let i = choose|i: int|
                    0 <= i < n - 1 && last_with_id(vms, i) && #[trigger] vms[i] == before[a];
                assert(0 <= i < n && last_with_id(vms, i) && vms[i] == now[a]);
            }
        }
    }
}

/// Removing duplicates leaves distinct ids, keeps an id exactly when the
/// input has it, and keeps for each id the last record that bears it.
pub proof fn lemma_dedup_last_wins(vms: Seq<VmInfoView>)
    ensures
        ids_distinct(dedup_last_wins(vms)),
        dedup_last_wins(vms).len() <= vms.len(),
        forall|id: Seq<char>| has_id(dedup_last_wins(vms), id) <==> has_id(vms, id),
        forall|a: int|
            0 <= a < dedup_last_wins(vms).len() ==> kept_from(
                vms,
                vms.len() as int,
                #[trigger] dedup_last_wins(vms)[a],
            ),
{
    let out = dedup_last_wins(vms);
    lemma_dedup_upto(vms, vms.len() as int);
    assert forall|id: Seq<char>| has_id(out, id) <==> has_id(vms, id) by {
        if has_id(out, id) {
            let a = choose|a: int| 0 <= a < out.len() && (#[trigger] out[a]).id == id;
            assert(kept_from(vms, vms.len() as int, out[a]));
            let i = choose|i: int|
                0 <= i < vms.len() && last_with_id(vms, i) && #[trigger] vms[i] == out[a];
            assert(vms[i].id == id);
        }
        if has_id(vms, id) {
            let i = choose|i: int| 0 <= i < vms.len() && (#[trigger] vms[i]).id == id;
            let last = lemma_last_occurrence(vms, i);
            assert(out.contains(vms[last]));
            let a = choose|a: int| 0 <= a < out.len() && out[a] == vms[last];
            assert(out[a].id == id);
        }
    }
}

/// Among the records with the id of record `i` there is a last one.
pub proof fn lemma_last_occurrence(vms: Seq<VmInfoView>, i: int) -> (last: int)
    requires
        0 <= i < vms.len(),
    ensures
        i <= last < vms.len(),
        vms[last].id == vms[i].id,
        last_with_id(vms, last),
    decreases vms.len() - i,
{
    if last_with_id(vms, i) {
        i
    } else {
        let j = choose|j: int| i < j < vms.len() && (#[trigger] vms[j]).id == vms[i].id;
        lemma_last_occurrence(vms, j)
    }
}

/// Records with distinct ids have no duplicates to remove.
pub proof fn lemma_dedup_of_distinct(vms: Seq<VmInfoView>, n: int)
    requires
        ids_distinct(vms),
        0 <= n <= vms.len(),
    ensures
        dedup_upto(vms, n) == vms.take(n),
    decreases n,
{
    if n > 0 {
        lemma_dedup_of_distinct(vms, n - 1);
        assert(last_with_id(vms, n - 1)) by {
            assert forall|j: int| n - 1 < j < vms.len() implies (#[trigger] vms[j]).id != vms[n
                - 1].id by {
                assert(vms[n - 1].id != vms[j].id);
            }
        }
        assert(vms.take(n) =~= vms.take(n - 1).push(vms[n - 1]));
    } else {
        assert(vms.take(n) =~= Seq::empty());
    }
}

/// Copies the records, leaving out every record that a later one with the
/// same id supersedes.
pub fn dedup_by_id(vms: &[VmInfo]) -> (out: Vec<VmInfo>)
    ensures
        vm_views(out@) == dedup_last_wins(vm_views(vms@)),
{
    let ghost views = vm_views(vms@);
    let mut out: Vec<VmInfo> = Vec::new();
    let mut i: usize = 0;
    while i < vms.len()
        invariant
            i <= vms.len(),
            views == vm_views(vms@),
            vm_views(out@) == dedup_upto(views, i as int),
        decreases vms.len() - i,
    {
        let mut superseded = false;
        let mut j: usize = i + 1;
        while j < vms.len()
            invariant
                i < j <= vms.len(),
                views == vm_views(vms@),
                superseded == exists|k: int| i < k < j && (#[trigger] views[k]).id == views[i as int].id,
            decreases vms.len() - j,
        {
            if vms[j].id == vms[i].id {
                proof {
                    assert(views[j as int].id == views[i as int].id);
                }
                superseded = true;
            }
            j = j + 1;
        }
        proof {
            assert(superseded == !last_with_id(views, i as int));
        }
        let ghost before = vm_views(out@);
        if !superseded {
            out.push(vms[i].clone());
            proof {
                assert(vm_views(out@) =~= before.push(views[i as int]));
            }
        }
        i = i + 1;
    }
    out
}

/// The number that an id bears after `prefix`, if it is made of `prefix` and a
/// numeral.
pub open spec fn id_number(id: Seq<char>, prefix: Seq<char>) -> Option<u64> {
    if has_prefix(id, prefix) {
        parse_decimal(id.skip(prefix.len() as int))
    } else {
        None
    }
}

/// The largest number borne by the ids of the first `n` records; 0 if none
/// bears one.
pub open spec fn max_number(vms: Seq<VmInfoView>, prefix: Seq<char>, n: int) -> u64
    decreases n,
{
    if n <= 0 {
        0
    } else {
        let before = max_number(vms, prefix, n - 1);
        match id_number(vms[n - 1].id, prefix) {
            Some(k) => if k > before {
                k
            } else {
                before
            },
            None => before,
        }
    }
}

/// One more than the largest number in use under `prefix`, held at the
/// largest representable number; 1 when no id bears a number.
pub open spec fn next_number(vms: Seq<VmInfoView>, prefix: Seq<char>) -> u64 {
    let top = max_number(vms, prefix, vms.len() as int);
    if top == u64::MAX {
        u64::MAX
    } else {
        (top + 1) as u64
    }
}

/// The id made of `prefix` and the numeral of `k`.
pub open spec fn numbered_id(prefix: Seq<char>, k: u64) -> Seq<char> {
    prefix + decimal(k as nat)
}

/// Whether every id of the form `prefix` + numeral bears a number below
/// `bound`.
pub open spec fn numbers_below(vms: Seq<VmInfoView>, prefix: Seq<char>, bound: u64) -> bool {
    forall|i: int, k: u64|
        0 <= i < vms.len() && (#[trigger] vms[i]).id == #[trigger] numbered_id(prefix, k) ==> k
            < bound
}

/// [`max_number`] bounds every number in use and, unless it is 0, is itself
/// in use.
pub proof fn lemma_max_number(vms: Seq<VmInfoView>, prefix: Seq<char>, n: int)
    requires
        0 <= n <= vms.len(),
    ensures
        forall|i: int|
            0 <= i < n ==> match #[trigger] id_number(vms[i].id, prefix) {
                Some(k) => k <= max_number(vms, prefix, n),
                None => true,
            },
        max_number(vms, prefix, n) == 0 || exists|i: int|
            0 <= i < n && #[trigger] id_number(vms[i].id, prefix) == Some(
                max_number(vms, prefix, n),
            ),
    decreases n,
{
    if n > 0 {
        lemma_max_number(vms, prefix, n - 1);
        let before = max_number(vms, prefix, n - 1);
        let now = max_number(vms, prefix, n);
        if now != 0 {
            if now == before {
                let i = choose|i: int|
                    0 <= i < n - 1 && #[trigger] id_number(vms[i].id, prefix) == Some(before);
                assert(0 <= i < n && id_number(vms[i].id, prefix) == Some(now));
            } else {
                assert(id_number(vms[n - 1].id, prefix) == Some(now));
            }
        }
    }
}

/// An id written as `prefix` + numeral bears the number of the numeral.
pub proof fn lemma_id_number_of_numbered(prefix: Seq<char>, k: u64)
    ensures
        id_number(numbered_id(prefix, k), prefix) == Some(k),
{
    let id = numbered_id(prefix, k);
    assert(id.take(prefix.len() as int) =~= prefix);
    assert(id.skip(prefix.len() as int) =~= decimal(k as nat));
    lemma_parse_decimal_round_trip(k);
}

/// Two numbers make two ids: while the counter goes up, no id is given out
/// twice.
pub proof fn lemma_numbered_ids_differ(prefix: Seq<char>, a: u64, b: u64)
    requires
        a != b,
    ensures
        numbered_id(prefix, a) != numbered_id(prefix, b),
{
    lemma_id_number_of_numbered(prefix, a);
    lemma_id_number_of_numbered(prefix, b);
}

/// Below [`next_number`] lies every number in use, unless the numbers are
/// used up.
pub proof fn lemma_next_number_is_fresh(vms: Seq<VmInfoView>, prefix: Seq<char>)
    ensures
        next_number(vms, prefix) >= 1,
        numbers_below(vms, prefix, next_number(vms, prefix)) || next_number(vms, prefix)
            == u64::MAX,
{
    lemma_max_number(vms, prefix, vms.len() as int);
    if next_number(vms, prefix) != u64::MAX {
        assert forall|i: int, k: u64|
            0 <= i < vms.len() && (#[trigger] vms[i]).id == #[trigger] numbered_id(
                prefix,
                k,
            ) implies k < next_number(vms, prefix) by {
            lemma_id_number_of_numbered(prefix, k);
            assert(id_number(vms[i].id, prefix) == Some(k));
        }
    }
}

/// The number for the next machine of the backend whose ids begin with
/// `prefix`: one more than the largest number in use, never less than 1.
pub fn next_id_for_prefix(vms: &[VmInfo], prefix: &str) -> (next: u64)
    ensures
        next == next_number(vm_views(vms@), prefix@),
{
    let ghost views = vm_views(vms@);
    let prefix_chars = chars_of(prefix);
    let mut top: u64 = 0;
    let mut i: usize = 0;
    while i < vms.len()
        invariant
            i <= vms.len(),
            views == vm_views(vms@),
            prefix_chars@ == prefix@,
            top == max_number(views, prefix@, i as int),
        decreases vms.len() - i,
    {
        let id_chars = chars_of(vms[i].id.as_str());
        proof {
            assert(views[i as int].id == id_chars@);
        }
        if starts_with(&id_chars, &prefix_chars) {
            match parse_decimal_from(&id_chars, prefix_chars.len()) {
                Some(k) => {
                    if k > top {
                        top = k;
                    }
                },
                None => {},
            }
        }
        i = i + 1;
    }
    if top == u64::MAX {
        u64::MAX
    } else {
        top + 1
    }
}

/// The registry document: a schema version and the declared machines.
#[derive(Debug, PartialEq, Eq)]
pub struct VmStoreFile {
    pub version: u32,
    pub vms: Vec<VmInfo>,
}

/// What a [`VmStoreFile`] is, as plain values.
pub struct VmStoreFileView {
    pub version: u32,
    pub vms: Seq<VmInfoView>,
}

impl View for VmStoreFile {
    type V = VmStoreFileView;

    open spec fn view(&self) -> VmStoreFileView {
        VmStoreFileView { version: self.version, vms: vm_views(self.vms@) }
    }
}

/// A document as it is understood after loading: version 0 reads as the
/// current version, and duplicates are removed.
pub open spec fn normalized(file: VmStoreFileView) -> VmStoreFileView {
    VmStoreFileView {
        version: if file.version == 0 {
            CURRENT_VERSION
        } else {
            file.version
        },
        vms: dedup_last_wins(file.vms),
    }
}

/// The document that saving `vms` writes.
pub open spec fn document_of(vms: Seq<VmInfoView>) -> VmStoreFileView {
    VmStoreFileView { version: CURRENT_VERSION, vms: vms }
}

/// What the caller found where the registry document lives.
#[derive(Debug, PartialEq, Eq)]
pub enum ReadOutcome {
    /// No file is there.
    Missing,
    /// The file is there and could not be read; the text is the host's.
    Unreadable(String),
    /// The file was read and is no registry document; the text says why.
    Malformed(String),
    /// The file was read and decoded.
    Document(VmStoreFile),
}

/// What a [`ReadOutcome`] is, as plain values.
pub enum ReadOutcomeView {
    Missing,
    Unreadable(Seq<char>),
    Malformed(Seq<char>),
    Document(VmStoreFileView),
}

impl View for ReadOutcome {
    type V = ReadOutcomeView;

    open spec fn view(&self) -> ReadOutcomeView {
        match self {
            ReadOutcome::Missing => ReadOutcomeView::Missing,
            ReadOutcome::Unreadable(m) => ReadOutcomeView::Unreadable(m@),
            ReadOutcome::Malformed(m) => ReadOutcomeView::Malformed(m@),
            ReadOutcome::Document(file) => ReadOutcomeView::Document(file@),
        }
    }
}

/// The records that a read yields, or the error that a caller who asked for
/// them gets.
pub open spec fn loaded(read: ReadOutcomeView) -> Result<Seq<VmInfoView>, ErrorView> {
    match read {
        ReadOutcomeView::Missing => Ok(Seq::empty()),
        ReadOutcomeView::Unreadable(m) => Err(ErrorView::Io(m)),
        ReadOutcomeView::Malformed(m) => Err(ErrorView::Storage(m)),
        ReadOutcomeView::Document(file) => Ok(normalized(file).vms),
    }
}

/// The views of a load result.
pub open spec fn load_view(r: Result<Vec<VmInfo>, HypervisorError>) -> Result<
    Seq<VmInfoView>,
    ErrorView,
> {
    match r {
        Ok(vms) => Ok(vm_views(vms@)),
        Err(e) => Err(e@),
    }
}

/// Brings a decoded document to the form the rest of the crate relies on.
pub fn normalize(file: VmStoreFile) -> (out: VmStoreFile)
    ensures
        out@ == normalized(file@),
{
    let version = if file.version == 0 {
        CURRENT_VERSION
    } else {
        file.version
    };
    let vms = dedup_by_id(file.vms.as_slice());
    VmStoreFile { version, vms }
}

/// Where the registry document lives, and the rules for reading and writing
/// it. The caller does the reading and the writing.
#[derive(Debug, PartialEq, Eq)]
pub struct VmStore {
    path: String,
}

impl VmStore {
    /// A store for the document at `path`.
    pub fn new(path: String) -> (store: VmStore)
        ensures
            store.location() == path@,
    {
        VmStore { path }
    }

    /// The location this store was made for.
    pub closed spec fn location(&self) -> Seq<char> {
        self.path@
    }

    /// The location of the document.
    pub fn path(&self) -> (path: &str)
        ensures
            path@ == self.location(),
    {
        self.path.as_str()
    }

    /// The records that a read of the document yields: none when the file is
    /// missing, the normalised records of a decoded document, and an error
    /// when the file could not be read or decoded.
    pub fn load_vms(&self, read: ReadOutcome) -> (r: Result<Vec<VmInfo>, HypervisorError>)
        ensures
            load_view(r) == loaded(read@),
    {
        match read {
            ReadOutcome::Missing => {
                let vms: Vec<VmInfo> = Vec::new();
                proof {
                    assert(vm_views(vms@) =~= Seq::empty());
                }
                Ok(vms)
            },
            ReadOutcome::Unreadable(m) => Err(HypervisorError::Io(m)),
            ReadOutcome::Malformed(m) => Err(HypervisorError::Storage(m)),
            ReadOutcome::Document(file) => Ok(normalize(file).vms),
        }
    }

    /// The records to start from when a backend is constructed, and the
    /// failure to log where the document could not be loaded: the records of
    /// [`VmStore::load_vms`], and none where that fails.
    pub fn load_or_empty(&self, read: ReadOutcome) -> (start: (Vec<VmInfo>, Option<HypervisorError>))
        ensures
            match loaded(read@) {
                Ok(found) => vm_views(start.0@) == found && start.1 is None,
                Err(e) => start.0@.len() == 0 && (start.1 matches Some(failure) && failure@ == e),
            },
    {
        match self.load_vms(read) {
            Ok(vms) => (vms, None),
            Err(e) => (Vec::new(), Some(e)),
        }
    }

    /// The document that holds `vms`, at the current version.
    pub fn save_vms(&self, vms: &[VmInfo]) -> (file: VmStoreFile)
        ensures
            file@ == document_of(vm_views(vms@)),
    {
        let mut copy: Vec<VmInfo> = Vec::new();
        let mut i: usize = 0;
        while i < vms.len()
            invariant
                i <= vms.len(),
                copy.len() == i,
                forall|k: int| 0 <= k < i ==> copy@[k]@ == vms@[k]@,
            decreases vms.len() - i,
        {
            copy.push(vms[i].clone());
            i = i + 1;
        }
        proof {
            assert(vm_views(copy@) =~= vm_views(vms@));
        }
        VmStoreFile { version: CURRENT_VERSION, vms: copy }
    }
}

/// Saving records and loading what was saved gives the records back, without
/// the records that a later one with the same id supersedes; records with
/// distinct ids come back unchanged.
pub proof fn lemma_save_then_load(vms: Seq<VmInfoView>)
    ensures
        loaded(ReadOutcomeView::Document(document_of(vms))) == Ok::<Seq<VmInfoView>, ErrorView>(
            dedup_last_wins(vms),
        ),
        normalized(document_of(vms)).version == CURRENT_VERSION,
        ids_distinct(vms) ==> loaded(ReadOutcomeView::Document(document_of(vms))) == Ok::<
            Seq<VmInfoView>,
            ErrorView,
        >(vms),
{
    if ids_distinct(vms) {
        lemma_dedup_of_distinct(vms, vms.len() as int);
        assert(vms.take(vms.len() as int) =~= vms);
    }
}

/// Loading what was saved, saving that and loading again changes nothing
/// more: removing duplicates twice is removing them once.
pub proof fn lemma_load_is_stable(vms: Seq<VmInfoView>)
    ensures
        dedup_last_wins(dedup_last_wins(vms)) == dedup_last_wins(vms),
{
    lemma_dedup_last_wins(vms);
    let once = dedup_last_wins(vms);
    lemma_dedup_of_distinct(once, once.len() as int);
    assert(once.take(once.len() as int) =~= once);
}

} // verus!
