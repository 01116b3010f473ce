//! Rules for supervising the process that backs a running machine: when a
//! recorded process counts as alive, what a pid file says, how long to wait for
//! a launched runner, and where a machine keeps its files.

use vstd::prelude::*;
use crate::hypervisor::{launch_view, Launch, LaunchView};
use crate::text::{chars_of, parse_decimal, parse_decimal_from};

verus! {

/// How long a launched runner is given to become ready, in milliseconds.
pub const LAUNCH_DEADLINE_MS: u64 = 30_000;

/// How long to sleep between two looks at a launched runner, in
/// milliseconds.
pub const LAUNCH_POLL_MS: u64 = 200;

/// What became of a signal without effect that was sent to a process.
#[derive(Debug, Clone, Copy, PartialEq, Eq, Structural)]
pub enum SignalProbe {
    /// The signal could be sent.
    Delivered,
    /// The host refused for want of permission: the process belongs to
    /// someone else and is there.
    NotPermitted,
    /// The host refused for any other reason, such as that there is no such
    /// process.
    Refused,
}

/// Whether the probed process counts as alive.
pub fn pid_alive(probe: SignalProbe) -> (alive: bool)
    ensures
        alive == (probe == SignalProbe::Delivered || probe == SignalProbe::NotPermitted),
{
    match probe {
        SignalProbe::Delivered => true,
        SignalProbe::NotPermitted => true,
        SignalProbe::Refused => false,
    }
}

/// Whether `c` is white space: a character with the Unicode property
/// `White_Space`.
pub open spec fn is_space(c: char) -> bool {
    let n = c as u32;
    ||| 0x09 <= n <= 0x0d
    ||| n == 0x20
    ||| n == 0x85
    ||| n == 0xa0
    ||| n == 0x1680
    ||| 0x2000 <= n <= 0x200a
    ||| n == 0x2028
    ||| n == 0x2029
    ||| n == 0x202f
    ||| n == 0x205f
    ||| n == 0x3000
}

/// Whether `c` is white space.
pub fn is_whitespace(c: char) -> (space: bool)
    ensures
        space == is_space(c),
{
    let n: u32 = c as u32;
    (0x09 <= n && n <= 0x0d) || n == 0x20 || n == 0x85 || n == 0xa0 || n == 0x1680 || (0x2000 <= n
        && n <= 0x200a) || n == 0x2028 || n == 0x2029 || n == 0x202f || n == 0x205f || n == 0x3000
}

/// How many characters of white space `s` begins with.
pub open spec fn leading_spaces(s: Seq<char>) -> int
    decreases s.len(),
{
    if s.len() > 0 && is_space(s[0]) {
        1 + leading_spaces(s.skip(1))
    } else {
        0
    }
}

/// How many characters of white space `s` ends with.
pub open spec fn trailing_spaces(s: Seq<char>) -> int
    decreases s.len(),
{
    if s.len() > 0 && is_space(s.last()) {
        1 + trailing_spaces(s.drop_last())
    } else {
        0
    }
}

/// `s` without the white space at its ends.
pub open spec fn trimmed(s: Seq<char>) -> Seq<char> {
    let from = leading_spaces(s);
    let rest = s.skip(from);
    rest.take(rest.len() - trailing_spaces(rest))
}

/// The bounds of `chars` without the white space at its ends: the trimmed
/// text is `chars[from..to]`.
pub fn trim_bounds(chars: &Vec<char>) -> (bounds: (usize, usize))
    ensures
        bounds.0 <= bounds.1 <= chars.len(),
        chars@.subrange(bounds.0 as int, bounds.1 as int) == trimmed(chars@),
{
    let mut from: usize = 0;
    proof {
        assert(chars@.skip(0) =~= chars@);
    }
    while from < chars.len() && is_whitespace(chars[from])
        invariant
            from <= chars.len(),
            leading_spaces(chars@) == from + leading_spaces(chars@.skip(from as int)),
        decreases chars.len() - from,
    {
        proof {
            assert(chars@.skip(from as int)[0] == chars@[from as int]);
            assert(chars@.skip(from as int).skip(1) =~= chars@.skip(from + 1));
        }
        from = from + 1;
    }
    proof {
        if from < chars.len() {
            assert(chars@.skip(from as int)[0] == chars@[from as int]);
        }
        assert(leading_spaces(chars@) == from);
    }
    let ghost rest = chars@.skip(from as int);
    let mut to: usize = chars.len();
    proof {
        assert(rest.take(rest.len() as int) =~= rest);
    }
    while to > from && is_whitespace(chars[to - 1])
        invariant
            from <= to <= chars.len(),
            rest == chars@.skip(from as int),
            trailing_spaces(rest) == (chars.len() - to) + trailing_spaces(rest.take(to - from)),
        decreases to,
    {
        proof {
            let seen = rest.take(to - from);
            assert(seen.last() == chars@[to - 1]);
            assert(seen.drop_last() =~= rest.take(to - from - 1));
        }
        to = to - 1;
    }
    proof {
        let seen = rest.take(to - from);
        if to > from {
            assert(seen.last() == chars@[to - 1]);
        }
        assert(trailing_spaces(rest) == chars.len() - to);
        assert(chars@.subrange(from as int, to as int) =~= rest.take(
            rest.len() - trailing_spaces(rest),
        ));
    }
    (from, to)
}

/// The process id that the text of a pid file names: the text without the
/// white space at its ends, read as a decimal numeral that fits 32 bits.
pub open spec fn pid_in(content: Seq<char>) -> Option<u32> {
    match parse_decimal(trimmed(content)) {
        Some(n) => if n <= u32::MAX {
            Some(n as u32)
        } else {
            None
        },
        None => None,
    }
}

/// Reads the process id from the text of a pid file.
pub fn read_pid_file(content: &str) -> (pid: Option<u32>)
    ensures
        pid == pid_in(content@),
{
    let chars = chars_of(content);
    let (from, to) = trim_bounds(&chars);
    let mut body: Vec<char> = Vec::new();
    let mut i: usize = from;
    while i < to
        invariant
            from <= i <= to <= chars.len(),
            body@ == chars@.subrange(from as int, i as int),
        decreases to - i,
    {
        body.push(chars[i]);
        proof {
            assert(chars@.subrange(from as int, i + 1) =~= chars@.subrange(
                from as int,
                i as int,
            ).push(chars@[i as int]));
        }
        i = i + 1;
    }
    proof {
        assert(body@.skip(0) =~= body@);
    }
    match parse_decimal_from(&body, 0) {
        Some(n) => {
            if n <= 0xffff_ffff {
                Some(n as u32)
            } else {
                None
            }
        },
        None => None,
    }
}

/// What to make of a look at a launched runner. The readiness marker wins
/// over everything; a runner that has exited has failed; past the deadline
/// the runner has failed and is to be killed; and else there is nothing to
/// report yet.
pub open spec fn launch_verdict(
    pid: u32,
    marker_present: bool,
    exit_status: Option<Seq<char>>,
    elapsed_ms: u64,
) -> Option<LaunchView> {
    if marker_present {
        Some(LaunchView::Ready(pid))
    } else if exit_status is Some {
        Some(LaunchView::ExitedEarly(exit_status->0))
    } else if elapsed_ms >= LAUNCH_DEADLINE_MS {
        Some(LaunchView::TimedOut)
    } else {
        None
    }
}

/// The view of an optional launch report.
pub open spec fn optional_launch_view(launch: Option<Launch>) -> Option<LaunchView> {
    match launch {
        Some(l) => Some(launch_view(l)),
        None => None,
    }
}

/// The view of an optional text.
pub open spec fn optional_chars(text: Option<String>) -> Option<Seq<char>> {
    match text {
        Some(t) => Some(t@),
        None => None,
    }
}

/// Judges one look at a launched runner: whether the readiness marker is
/// there, the exit status if the runner has exited, and the time since the
/// launch. `None` means: sleep for [`LAUNCH_POLL_MS`] and look again. On
/// [`Launch::TimedOut`] the caller kills the runner.
pub fn poll_launch(
    pid: u32,
    marker_present: bool,
    exit_status: Option<String>,
    elapsed_ms: u64,
) -> (verdict: Option<Launch>)
    ensures
        optional_launch_view(verdict) == launch_verdict(
            pid,
            marker_present,
            optional_chars(exit_status),
            elapsed_ms,
        ),
{
    if marker_present {
        return Some(Launch::Ready(pid));
    }
    match exit_status {
        Some(status) => Some(Launch::ExitedEarly(status)),
        None => {
            if elapsed_ms >= LAUNCH_DEADLINE_MS {
                Some(Launch::TimedOut)
            } else {
                None
            }
        },
    }
}

/// The path of `part` below the directory `dir`, as a host that parts names
/// by `/` writes it: a part that begins at the root stands for itself, and
/// no second `/` follows a directory that is empty or ends in one.
pub open spec fn path_below(dir: Seq<char>, part: Seq<char>) -> Seq<char> {
    if part.len() > 0 && part[0] == '/' {
        part
    } else if dir.len() == 0 || dir.last() == '/' {
        dir + part
    } else {
        dir + "/"@ + part
    }
}

/// The path of `part` below the directory `dir`.
pub fn join_path(dir: &str, part: &str) -> (path: String)
    ensures
        path@ == path_below(dir@, part@),
{
    let d = chars_of(dir);
    let p = chars_of(part);
    if p.len() > 0 && p[0] == '/' {
        return part.to_owned();
    }
    let mut path = dir.to_owned();
    if d.len() > 0 && d[d.len() - 1] != '/' {
        path.append("/");
    }
    path.append(part);
    proof {
        reveal_strlit("/");
        assert("/"@ =~= seq!['/']);
        assert(path@ =~= path_below(dir@, part@));
    }
    path
}

/// The path of the disk image of the machine `id` below the data directory
/// `data_dir`.
pub open spec fn disk_path_text(data_dir: Seq<char>, id: Seq<char>) -> Seq<char> {
    path_below(path_below(path_below(data_dir, "vms"@), id), "disk.raw"@)
}

/// The path of the disk image of the machine `id` below the data directory
/// `data_dir`, as it is shown.
pub fn vm_disk_path_text(data_dir: &str, id: &str) -> (path: String)
    ensures
        path@ == disk_path_text(data_dir@, id@),
{
    let vms = join_path(data_dir, "vms");
    let dir = join_path(vms.as_str(), id);
    join_path(dir.as_str(), "disk.raw")
}

/// The views of the parts of a path.
pub open spec fn part_views(parts: Seq<String>) -> Seq<Seq<char>> {
    Seq::new(parts.len(), |i: int| parts[i]@)
}

/// The directory of the machine `id`, as the names to descend from the data
/// directory.
pub fn vm_dir(id: &str) -> (parts: Vec<String>)
    ensures
        part_views(parts@) == seq!["vms"@, id@],
{
    let mut parts: Vec<String> = Vec::new();
    parts.push("vms".to_owned());
    parts.push(id.to_owned());
    proof {
        assert(part_views(parts@) =~= seq!["vms"@, id@]);
    }
    parts
}

fn vm_file(id: &str, name: &str) -> (parts: Vec<String>)
    ensures
        part_views(parts@) == seq!["vms"@, id@, name@],
{
    let mut parts = vm_dir(id);
    let ghost before = part_views(parts@);
    parts.push(name.to_owned());
    proof {
        assert(part_views(parts@) =~= before.push(name@));
        assert(part_views(parts@) =~= seq!["vms"@, id@, name@]);
    }
    parts
}

/// The disk image of the machine `id`, below the data directory.
pub fn vm_disk_path(id: &str) -> (parts: Vec<String>)
    ensures
        part_views(parts@) == seq!["vms"@, id@, "disk.raw"@],
{
    vm_file(id, "disk.raw")
}

/// The console log of the machine `id`, below the data directory.
pub fn vm_console_log_path(id: &str) -> (parts: Vec<String>)
    ensures
        part_views(parts@) == seq!["vms"@, id@, "console.log"@],
{
    vm_file(id, "console.log")
}

/// The pid file of the machine `id`, below the data directory.
pub fn vm_runner_pid_path(id: &str) -> (parts: Vec<String>)
    ensures
        part_views(parts@) == seq!["vms"@, id@, "runner.pid"@],
{
    vm_file(id, "runner.pid")
}

/// The readiness marker of the machine `id`, below the data directory.
pub fn vm_runner_ready_path(id: &str) -> (parts: Vec<String>)
    ensures
        part_views(parts@) == seq!["vms"@, id@, "runner.ready"@],
{
    vm_file(id, "runner.ready")
}

/// What is known of the process behind one machine.
#[derive(Debug, Clone, Copy, PartialEq, Eq, Structural)]
pub struct RunnerState {
    /// The recorded process id, if a process is recorded.
    pub pid: Option<u32>,
    /// Whether the process is a child of this process, held by the caller.
    pub owned: bool,
}

/// What is known of a machine without a process.
pub open spec fn no_runner() -> RunnerState {
    RunnerState { pid: None, owned: false }
}

/// The process recorded for one machine.
#[derive(Debug, PartialEq, Eq)]
pub struct Runner {
    /// The machine.
    pub id: String,
    /// What is known of its process.
    pub state: RunnerState,
}

/// The processes that back machines, by machine id.
#[derive(Debug, PartialEq, Eq)]
pub struct Supervision {
    entries: Vec<Runner>,
}

impl Supervision {
    /// No machine is listed twice.
    #[verifier::type_invariant]
    pub closed spec fn inv(&self) -> bool {
        forall|i: int, j: int|
            0 <= i < j < self.entries.len() ==> (#[trigger] self.entries[i]).id@
                != (#[trigger] self.entries[j]).id@
    }

    /// Whether the machine `id` is listed.
    pub closed spec fn lists(&self, id: Seq<char>) -> bool {
        exists|i: int| 0 <= i < self.entries.len() && (#[trigger] self.entries[i]).id@ == id
    }

    /// What is known of the process behind the machine `id`.
    pub closed spec fn state(&self, id: Seq<char>) -> RunnerState {
        if self.lists(id) {
            let i = choose|i: int|
                0 <= i < self.entries.len() && (#[trigger] self.entries[i]).id@ == id;
            self.entries[i].state
        } else {
            no_runner()
        }
    }

    proof fn lemma_state_at(self, i: int)
        requires
            self.inv(),
            0 <= i < self.entries.len(),
        ensures
            self.lists(self.entries[i].id@),
            self.state(self.entries[i].id@) == self.entries[i].state,
    {
        let id = self.entries[i].id@;
        let c = choose|c: int| 0 <= c < self.entries.len() && (#[trigger] self.entries[c]).id@ == id;
        if c < i {
            assert(self.entries[c].id@ != self.entries[i].id@);
        } else if i < c {
            assert(self.entries[i].id@ != self.entries[c].id@);
        }
    }

    /// A table without processes.
    pub fn new() -> (table: Supervision)
        ensures
            forall|id: Seq<char>| table.state(id) == no_runner(),
    {
        Supervision { entries: Vec::new() }
    }

    fn find(&self, id: &str) -> (place: Option<usize>)
        ensures
            match place {
                Some(i) => i < self.entries.len() && self.entries[i as int].id@ == id@,
                None => !self.lists(id@),
            },
    {
        let wanted = id.to_owned();
        let mut i: usize = 0;
        while i < self.entries.len()
            invariant
                i <= self.entries.len(),
                wanted@ == id@,
                forall|k: int| 0 <= k < i ==> (#[trigger] self.entries[k]).id@ != id@,
            decreases self.entries.len() - i,
        {
            if self.entries[i].id == wanted {
                return Some(i);
            }
            i = i + 1;
        }
        None
    }

    /// What is known of the process behind the machine `id`.
    pub fn get(&self, id: &str) -> (state: RunnerState)
        ensures
            state == self.state(id@),
    {
        proof {
            use_type_invariant(self);
        }
        match self.find(id) {
            Some(i) => {
                proof {
                    self.lemma_state_at(i as int);
                }
                self.entries[i].state
            },
            None => RunnerState { pid: None, owned: false },
        }
    }

    /// Records `state` for the machine `id`; what is known of other machines
    /// stays.
    pub fn set(&mut self, id: &str, state: RunnerState)
        ensures
            forall|other: Seq<char>|
                #[trigger] final(self).state(other) == if other == id@ {
                    state
                } else {
                    old(self).state(other)
                },
    {
        proof {
            use_type_invariant(&*self);
        }
        let place = self.find(id);
        let ghost before = *self;
        let mut entries: Vec<Runner> = Vec::new();
        std::mem::swap(&mut self.entries, &mut entries);
        match place {
            Some(i) => {
                entries[i].state = state;
            },
            None => {
                entries.push(Runner { id: id.to_owned(), state });
            },
        }
        self.entries = entries;
        proof {
            let after = *self;
            assert forall|other: Seq<char>|
                #[trigger] after.state(other) == if other == id@ {
                    state
                } else {
                    before.state(other)
                } by {
                match place {
                    Some(i) => {
                        assert forall|k: int| 0 <= k < after.entries.len() implies (
                        #[trigger] after.entries[k]).id@ == before.entries[k].id@ by {}
                        if before.lists(other) {
                            let c = choose|c: int|
                                0 <= c < before.entries.len() && (#[trigger] before.entries[c]).id@
                                    == other;
                            before.lemma_state_at(c);
                            assert(after.entries[c].id@ == other);
                            after.lemma_state_at(c);
                            if other == id@ {
                                if c < i {
                                    assert(before.entries[c].id@ != before.entries[i as int].id@);
                                } else if i < c {
                                    assert(before.entries[i as int].id@ != before.entries[c].id@);
                                }
                            }
                        } else {
                            if after.lists(other) {
                                let c = choose|c: int|
                                    0 <= c < after.entries.len() && (
                                    #[trigger] after.entries[c]).id@ == other;
                                assert(before.entries[c].id@ == other);
                            }
                        }
                    },
                    None => {
                        let last = after.entries.len() - 1;
                        assert forall|k: int| 0 <= k < before.entries.len() implies (
                        #[trigger] after.entries[k]) == before.entries[k] by {}
                        if other == id@ {
                            assert(after.entries[last].id@ == id@);
                            after.lemma_state_at(last);
                        } else if before.lists(other) {
                            let c = choose|c: int|
                                0 <= c < before.entries.len() && (#[trigger] before.entries[c]).id@
                                    == other;
                            before.lemma_state_at(c);
                            assert(after.entries[c].id@ == other);
                            after.lemma_state_at(c);
                        } else {
                            if after.lists(other) {
                                let c = choose|c: int|
                                    0 <= c < after.entries.len() && (
                                    #[trigger] after.entries[c]).id@ == other;
                                if c < last {
                                    assert(before.entries[c].id@ == other);
                                }
                            }
                        }
                    },
                }
            }
        }
    }

    /// A copy of the table.
    pub fn snapshot(&self) -> (copy: Supervision)
        ensures
            forall|id: Seq<char>| #[trigger] copy.state(id) == self.state(id),
    {
        proof {
            use_type_invariant(self);
        }
        let mut entries: Vec<Runner> = Vec::new();
        let mut i: usize = 0;
        while i < self.entries.len()
            invariant
                i <= self.entries.len(),
                entries.len() == i,
                forall|k: int|
                    0 <= k < i ==> (#[trigger] entries[k]).id@ == self.entries[k].id@ && entries[k].state
                        == self.entries[k].state,
            decreases self.entries.len() - i,
        {
            entries.push(Runner { id: self.entries[i].id.clone(), state: self.entries[i].state });
            i = i + 1;
        }
        proof {
            assert forall|a: int, b: int| 0 <= a < b < entries.len() implies (#[trigger] entries[a]).id@
                != (#[trigger] entries[b]).id@ by {
                assert(self.entries[a].id@ != self.entries[b].id@);
            }
        }
        let copy = Supervision { entries };
        proof {
            assert forall|id: Seq<char>| #[trigger] copy.state(id) == self.state(id) by {
                if self.lists(id) {
                    let c = choose|c: int|
                        0 <= c < self.entries.len() && (#[trigger] self.entries[c]).id@ == id;
                    self.lemma_state_at(c);
                    assert(copy.entries[c].id@ == id);
                    copy.lemma_state_at(c);
                } else {
                    if copy.lists(id) {
                        let c = choose|c: int|
                            0 <= c < copy.entries.len() && (#[trigger] copy.entries[c]).id@ == id;
                        assert(self.entries[c].id@ == id);
                    }
                }
            }
        }
        copy
    }

    /// The machines that have a recorded process or a child process, with
    /// what is known of each. These are the processes for the caller to look
    /// at.
    pub fn supervised(&self) -> (list: Vec<Runner>)
        ensures
            forall|k: int|
                0 <= k < list.len() ==> (#[trigger] list[k]).state == self.state(list[k].id@)
                    && list[k].state != no_runner(),
            forall|id: Seq<char>|
                self.state(id) != no_runner() ==> exists|k: int|
                    0 <= k < list.len() && (#[trigger] list[k]).id@ == id,
    {
        proof {
            use_type_invariant(self);
        }
        let mut list: Vec<Runner> = Vec::new();
        let mut i: usize = 0;
        while i < self.entries.len()
            invariant
                i <= self.entries.len(),
                self.inv(),
                forall|k: int|
                    0 <= k < list.len() ==> (#[trigger] list[k]).state == self.state(list[k].id@)
                        && list[k].state != no_runner(),
                forall|c: int|
                    0 <= c < i && (#[trigger] self.entries[c]).state != no_runner() ==> exists|
                        k: int,
                    | 0 <= k < list.len() && (#[trigger] list[k]).id@ == self.entries[c].id@,
            decreases self.entries.len() - i,
        {
            let state = self.entries[i].state;
            let ghost before = list@;
            if state.pid.is_some() || state.owned {
                proof {
                    self.lemma_state_at(i as int);
                }
                list.push(Runner { id: self.entries[i].id.clone(), state });
                proof {
                    assert(list[list.len() - 1].id@ == self.entries[i as int].id@);
                    assert forall|c: int|
                        0 <= c < i + 1 && (#[trigger] self.entries[c]).state
                            != no_runner() implies exists|k: int|
                        0 <= k < list.len() && (#[trigger] list[k]).id@ == self.entries[c].id@ by {
                        if c < i {
                            let k = choose|k: int|
                                0 <= k < before.len() && (#[trigger] before[k]).id@
                                    == self.entries[c].id@;
                            assert(list[k].id@ == self.entries[c].id@);
                        }
                    }
                }
            }
            i = i + 1;
        }
        proof {
            assert forall|id: Seq<char>| self.state(id) != no_runner() implies exists|k: int|
                0 <= k < list.len() && (#[trigger] list[k]).id@ == id by {
                let c = choose|c: int|
                    0 <= c < self.entries.len() && (#[trigger] self.entries[c]).id@ == id;
                self.lemma_state_at(c);
            }
        }
        list
    }
}

} // verus!
