//! Writing the registry document so that a reader sees the old document or
//! the new one, never a part of either.
//!
//! The document is written to a temporary file beside its destination and
//! then renamed over it. Where renaming over an existing file fails, the
//! destination is removed and the rename is tried once more. The caller does
//! each step on the disk and reports how it went.

use vstd::prelude::*;
use crate::hypervisor::{ErrorView, HypervisorError};
use crate::registry::unit_view;
use crate::text::{decimal, push_decimal_wide};

verus! {

/// The name of the registry document in its directory.
pub open spec fn document_name() -> Seq<char> {
    "vms.json"@
}

/// The name of the registry document in its directory.
pub fn registry_file_name() -> (name: &'static str)
    ensures
        name@ == document_name(),
{
    "vms.json"
}

/// The name of the temporary file for a write of the file `file_name` by the
/// process `pid` at the time `nanos`, in nanoseconds: a hidden file named
/// after the process, the time and the file.
pub open spec fn temp_name(pid: u32, nanos: u128, file_name: Seq<char>) -> Seq<char> {
    "."@ + decimal(pid as nat) + "."@ + decimal(nanos as nat) + "."@ + file_name + ".tmp"@
}

/// The name of the temporary file for a write of the file `file_name` by the
/// process `pid` at the time `nanos`.
pub fn temp_file_name(pid: u32, nanos: u128, file_name: &str) -> (name: String)
    ensures
        name@ == temp_name(pid, nanos, file_name@),
{
    let mut name = ".".to_owned();
    push_decimal_wide(&mut name, pid as u128);
    name.append(".");
    push_decimal_wide(&mut name, nanos);
    name.append(".");
    name.append(file_name);
    name.append(".tmp");
    name
}

/// The bytes that go into the file for an encoded document: the document and
/// a line feed.
pub fn frame_document(encoded: Vec<u8>) -> (bytes: Vec<u8>)
    ensures
        bytes@ == encoded@.push(10u8),
{
    let mut bytes = encoded;
    bytes.push(10u8);
    bytes
}

/// A step of an atomic write.
#[derive(Debug, Clone, Copy, PartialEq, Eq, Structural)]
pub enum WriteStep {
    /// Create the directory of the destination, with its parents.
    CreateDir,
    /// Create the temporary file, write the bytes to it and flush it to the
    /// disk.
    WriteTemp,
    /// Rename the temporary file to the destination.
    Rename,
    /// Look whether the destination exists.
    ProbeDestination,
    /// Remove the destination.
    RemoveDestination,
    /// Rename the temporary file to the destination once more.
    RenameAgain,
    /// Remove the temporary file.
    RemoveTemp,
    /// Nothing is left to do.
    Finished,
}

/// How a step went.
#[derive(Debug, PartialEq, Eq)]
pub enum StepOutcome {
    /// The step was done.
    Done,
    /// The step failed; the text is the host's.
    Failed(String),
    /// The destination exists.
    Present,
    /// The destination does not exist.
    Absent,
}

/// What a [`StepOutcome`] is, as plain values.
pub enum StepOutcomeView {
    Done,
    Failed(Seq<char>),
    Present,
    Absent,
}

impl View for StepOutcome {
    type V = StepOutcomeView;

    open spec fn view(&self) -> StepOutcomeView {
        match self {
            StepOutcome::Done => StepOutcomeView::Done,
            StepOutcome::Failed(m) => StepOutcomeView::Failed(m@),
            StepOutcome::Present => StepOutcomeView::Present,
            StepOutcome::Absent => StepOutcomeView::Absent,
        }
    }
}

/// An atomic write under way.
#[derive(Debug, PartialEq, Eq)]
pub struct AtomicWrite {
    step: WriteStep,
    rename_error: Option<String>,
    failure: Option<String>,
}

/// What an [`AtomicWrite`] is, as plain values: the step to do next, the
/// failure of the first rename if it failed, and the failure of the write if
/// it has failed.
pub struct AtomicWriteView {
    pub step: WriteStep,
    pub rename_error: Option<Seq<char>>,
    pub failure: Option<Seq<char>>,
}

/// The view of an optional text.
pub open spec fn optional_message(text: Option<String>) -> Option<Seq<char>> {
    match text {
        Some(t) => Some(t@),
        None => None,
    }
}

impl View for AtomicWrite {
    type V = AtomicWriteView;

    closed spec fn view(&self) -> AtomicWriteView {
        AtomicWriteView {
            step: self.step,
            rename_error: optional_message(self.rename_error),
            failure: optional_message(self.failure),
        }
    }
}

/// A write of which nothing has been done.
pub open spec fn fresh_write() -> AtomicWriteView {
    AtomicWriteView { step: WriteStep::CreateDir, rename_error: None, failure: None }
}

/// The failure that ends a write whose first rename failed.
pub open spec fn kept_error(write: AtomicWriteView) -> Seq<char> {
    match write.rename_error {
        Some(m) => m,
        None => Seq::empty(),
    }
}

/// The write after the step that it waits for went as `outcome` says.
///
/// A directory that cannot be created and a temporary file that cannot be
/// written end the write with that failure. A rename that fails calls for a
/// look at the destination: if it exists it is removed, whether or not that
/// works, and the rename is tried once more; if it does not exist the
/// temporary file is removed. Either way a write that fails after its first
/// rename fails with the failure of that rename.
pub open spec fn after_step(write: AtomicWriteView, outcome: StepOutcomeView) -> AtomicWriteView {
    match write.step {
        WriteStep::CreateDir => match outcome {
            StepOutcomeView::Failed(m) => AtomicWriteView {
                step: WriteStep::Finished,
                failure: Some(m),
                ..write
            },
            _ => AtomicWriteView { step: WriteStep::WriteTemp, ..write },
        },
        WriteStep::WriteTemp => match outcome {
            StepOutcomeView::Failed(m) => AtomicWriteView {
                step: WriteStep::Finished,
                failure: Some(m),
                ..write
            },
            _ => AtomicWriteView { step: WriteStep::Rename, ..write },
        },
        WriteStep::Rename => match outcome {
            StepOutcomeView::Failed(m) => AtomicWriteView {
                step: WriteStep::ProbeDestination,
                rename_error: Some(m),
                ..write
            },
            _ => AtomicWriteView { step: WriteStep::Finished, ..write },
        },
        WriteStep::ProbeDestination => match outcome {
            StepOutcomeView::Present => AtomicWriteView {
                step: WriteStep::RemoveDestination,
                ..write
            },
            _ => AtomicWriteView { step: WriteStep::RemoveTemp, ..write },
        },
        WriteStep::RemoveDestination => AtomicWriteView { step: WriteStep::RenameAgain, ..write },
        WriteStep::RenameAgain => match outcome {
            StepOutcomeView::Failed(_) => AtomicWriteView {
                step: WriteStep::Finished,
                failure: Some(kept_error(write)),
                ..write
            },
            _ => AtomicWriteView { step: WriteStep::Finished, ..write },
        },
        WriteStep::RemoveTemp => AtomicWriteView {
            step: WriteStep::Finished,
            failure: Some(kept_error(write)),
            ..write
        },
        WriteStep::Finished => write,
    }
}

/// How a finished write ended.
pub open spec fn write_result(write: AtomicWriteView) -> Result<(), ErrorView> {
    match write.failure {
        Some(m) => Err(ErrorView::Io(m)),
        None => Ok(()),
    }
}

impl AtomicWrite {
    /// A write of which nothing has been done.
    pub fn new() -> (write: AtomicWrite)
        ensures
            write@ == fresh_write(),
    {
        AtomicWrite { step: WriteStep::CreateDir, rename_error: None, failure: None }
    }

    /// The step that the write waits for.
    pub fn step(&self) -> (step: WriteStep)
        ensures
            step == self@.step,
    {
        self.step
    }

    /// Takes note of how the step that the write waits for went.
    pub fn report(&mut self, outcome: StepOutcome)
        ensures
            final(self)@ == after_step(old(self)@, outcome@),
    {
        match self.step {
            WriteStep::CreateDir => match outcome {
                StepOutcome::Failed(m) => {
                    self.failure = Some(m);
                    self.step = WriteStep::Finished;
                },
                _ => {
                    self.step = WriteStep::WriteTemp;
                },
            },
            WriteStep::WriteTemp => match outcome {
                StepOutcome::Failed(m) => {
                    self.failure = Some(m);
                    self.step = WriteStep::Finished;
                },
                _ => {
                    self.step = WriteStep::Rename;
                },
            },
            WriteStep::Rename => match outcome {
                StepOutcome::Failed(m) => {
                    self.rename_error = Some(m);
                    self.step = WriteStep::ProbeDestination;
                },
                _ => {
                    self.step = WriteStep::Finished;
                },
            },
            WriteStep::ProbeDestination => match outcome {
                StepOutcome::Present => {
                    self.step = WriteStep::RemoveDestination;
                },
                _ => {
                    self.step = WriteStep::RemoveTemp;
                },
            },
            WriteStep::RemoveDestination => {
                self.step = WriteStep::RenameAgain;
            },
            WriteStep::RenameAgain => match outcome {
                StepOutcome::Failed(_) => {
                    self.fail_with_rename_error();
                },
                _ => {
                    self.step = WriteStep::Finished;
                },
            },
            WriteStep::RemoveTemp => {
                self.fail_with_rename_error();
            },
            WriteStep::Finished => {},
        }
    }

    fn fail_with_rename_error(&mut self)
        ensures
            final(self)@ == (AtomicWriteView {
                step: WriteStep::Finished,
                failure: Some(kept_error(old(self)@)),
                ..old(self)@
            }),
    {
        let text = match &self.rename_error {
            Some(m) => m.clone(),
            None => String::new(),
        };
        self.failure = Some(text);
        self.step = WriteStep::Finished;
    }

    /// How the write ended, once it is finished.
    pub fn result(&self) -> (r: Option<Result<(), HypervisorError>>)
        ensures
            match r {
                Some(ended) => self@.step == WriteStep::Finished && unit_view(ended)
                    == write_result(self@),
                None => self@.step != WriteStep::Finished,
            },
    {
        match self.step {
            WriteStep::Finished => match &self.failure {
                Some(m) => Some(Err(HypervisorError::Io(m.clone()))),
                None => Some(Ok(())),
            },
            _ => None,
        }
    }
}

/// Two files on a disk, as far as an atomic write touches them: what the
/// temporary file and the destination hold, if they exist.
pub struct Disk {
    pub temp: Option<Seq<u8>>,
    pub destination: Option<Seq<u8>>,
}

/// What a step does to a disk that never fails but in one way: where
/// `strict` holds, a rename onto an existing destination is refused.
pub open spec fn perform(step: WriteStep, disk: Disk, bytes: Seq<u8>, strict: bool) -> (
    Disk,
    StepOutcomeView,
) {
    match step {
        WriteStep::CreateDir => (disk, StepOutcomeView::Done),
        WriteStep::WriteTemp => (Disk { temp: Some(bytes), ..disk }, StepOutcomeView::Done),
        WriteStep::Rename | WriteStep::RenameAgain => if disk.temp is None {
            (disk, StepOutcomeView::Failed("no such file"@))
        } else if strict && disk.destination is Some {
            (disk, StepOutcomeView::Failed("destination exists"@))
        } else {
            (Disk { temp: None, destination: disk.temp }, StepOutcomeView::Done)
        },
        WriteStep::ProbeDestination => (
            disk,
            if disk.destination is Some {
                StepOutcomeView::Present
            } else {
                StepOutcomeView::Absent
            },
        ),
        WriteStep::RemoveDestination => (Disk { destination: None, ..disk }, StepOutcomeView::Done),
        WriteStep::RemoveTemp => (Disk { temp: None, ..disk }, StepOutcomeView::Done),
        WriteStep::Finished => (disk, StepOutcomeView::Done),
    }
}

/// The write and the disk after up to `steps` steps were performed and
/// reported.
pub open spec fn run(write: AtomicWriteView, disk: Disk, bytes: Seq<u8>, strict: bool, steps: nat) -> (
    AtomicWriteView,
    Disk,
)
    decreases steps,
{
    if steps == 0 || write.step == WriteStep::Finished {
        (write, disk)
    } else {
        let (next_disk, outcome) = perform(write.step, disk, bytes, strict);
        run(after_step(write, outcome), next_disk, bytes, strict, (steps - 1) as nat)
    }
}

/// On a disk that refuses to rename onto an existing file, and on one that
/// does not, a write ends well within six steps, whatever was there before:
/// the destination then holds the bytes that were to be written, and no
/// temporary file is left.
pub proof fn lemma_write_survives_strict_rename(disk: Disk, bytes: Seq<u8>, strict: bool)
    ensures
        ({
            let (write, after) = run(fresh_write(), disk, bytes, strict, 6);
            &&& write.step == WriteStep::Finished
            &&& write_result(write) == Ok::<(), ErrorView>(())
            &&& after.destination == Some(bytes)
            &&& after.temp is None
        }),
{
    reveal_with_fuel(run, 7);
}

/// A write that fails before its rename leaves the destination as it was.
pub proof fn lemma_early_failure_keeps_destination(
    disk: Disk,
    bytes: Seq<u8>,
    first: StepOutcomeView,
    second: StepOutcomeView,
)
    ensures
        first is Failed ==> after_step(fresh_write(), first).step == WriteStep::Finished
            && write_result(after_step(fresh_write(), first)) is Err,
        !(first is Failed) && second is Failed ==> after_step(
            after_step(fresh_write(), first),
            second,
        ).step == WriteStep::Finished && write_result(
            after_step(after_step(fresh_write(), first), second),
        ) is Err,
        perform(WriteStep::CreateDir, disk, bytes, true).0.destination == disk.destination,
        perform(WriteStep::WriteTemp, disk, bytes, true).0.destination == disk.destination,
{
}

} // verus!
