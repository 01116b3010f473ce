//! What a front-end tells its user: the lines for the outcome of a command
//! and the tables of machines and shares.

use vstd::prelude::*;
use crate::hypervisor::{ErrorView, HypervisorError, SharedDirectoryView, VmInfo, VmInfoView, VmState};
use crate::scan::{padded_right, push_padded_right};
use crate::service::{SharedDirectoryDto, VmInfoDto, VmInfoDtoView};
use crate::text::{decimal, join2, push_decimal};

verus! {

/// What an error says of itself.
pub open spec fn error_text(err: ErrorView) -> Seq<char> {
    match err {
        ErrorView::CreateFailed(m) => "VM creation failed: "@ + m,
        ErrorView::NotFound(m) => "VM not found: "@ + m,
        ErrorView::Unsupported => "unsupported platform"@,
        ErrorView::RosettaUnavailable(m) => "Rosetta not available: "@ + m,
        ErrorView::VirtioFsError(m) => "VirtioFS error: "@ + m,
        ErrorView::Storage(m) => "storage error: "@ + m,
        ErrorView::Io(m) => "IO error: "@ + m,
    }
}

/// What `err` says of itself.
pub fn error_message(err: &HypervisorError) -> (text: String)
    ensures
        text@ == error_text(err@),
{
    match err {
        HypervisorError::CreateFailed(m) => join2("VM creation failed: ", m.as_str()),
        HypervisorError::NotFound(m) => join2("VM not found: ", m.as_str()),
        HypervisorError::Unsupported => "unsupported platform".to_owned(),
        HypervisorError::RosettaUnavailable(m) => join2("Rosetta not available: ", m.as_str()),
        HypervisorError::VirtioFsError(m) => join2("VirtioFS error: ", m.as_str()),
        HypervisorError::Storage(m) => join2("storage error: ", m.as_str()),
        HypervisorError::Io(m) => join2("IO error: ", m.as_str()),
    }
}

/// The line that reports a failure to the user.
pub fn error_line(message: &str) -> (line: String)
    ensures
        line@ == "Error: "@ + message@,
{
    join2("Error: ", message)
}

/// The views of lines, in order.
pub open spec fn line_views(lines: Seq<String>) -> Seq<Seq<char>> {
    Seq::new(lines.len(), |i: int| lines[i]@)
}

/// The lines that report a machine created.
pub open spec fn created_report(name: Seq<char>, id: Seq<char>, rosetta: bool) -> Seq<Seq<char>> {
    let first = "Created VM '"@ + name + "' (id: "@ + id + ")"@;
    if rosetta {
        seq![first, "  Rosetta x86_64 translation: enabled"@]
    } else {
        seq![first]
    }
}

/// The lines that report a machine created.
pub fn created_lines(name: &str, id: &str, rosetta: bool) -> (lines: Vec<String>)
    ensures
        line_views(lines@) == created_report(name@, id@, rosetta),
{
    let mut first = join2("Created VM '", name);
    first.append("' (id: ");
    first.append(id);
    first.append(")");
    let mut lines: Vec<String> = Vec::new();
    lines.push(first);
    if rosetta {
        lines.push("  Rosetta x86_64 translation: enabled".to_owned());
    }
    proof {
        assert(line_views(lines@) =~= created_report(name@, id@, rosetta));
    }
    lines
}

/// What was done to a machine.
#[derive(Debug, Clone, Copy, PartialEq, Eq, Structural)]
pub enum Verb {
    Started,
    Stopped,
    Deleted,
}

/// The word for what was done.
pub open spec fn verb_word(verb: Verb) -> Seq<char> {
    match verb {
        Verb::Started => "Started"@,
        Verb::Stopped => "Stopped"@,
        Verb::Deleted => "Deleted"@,
    }
}

/// The line that reports what was done to the machine the user named.
pub fn done_line(verb: Verb, name: &str) -> (line: String)
    ensures
        line@ == verb_word(verb) + " VM '"@ + name@ + "'"@,
{
    let word = match verb {
        Verb::Started => "Started",
        Verb::Stopped => "Stopped",
        Verb::Deleted => "Deleted",
    };
    let mut line = join2(word, " VM '");
    line.append(name);
    line.append("'");
    line
}

/// A row of the table of machines.
pub open spec fn vm_row(
    id: Seq<char>,
    name: Seq<char>,
    state: Seq<char>,
    cpus: Seq<char>,
    memory: Seq<char>,
    rosetta: Seq<char>,
    mounts: Seq<char>,
) -> Seq<char> {
    padded_right(id, 12) + " "@ + padded_right(name, 20) + " "@ + padded_right(state, 10) + " "@
        + padded_right(cpus, 6) + " "@ + padded_right(memory, 8) + " "@ + padded_right(rosetta, 8)
        + " "@ + mounts
}

fn push_vm_row(
    out: &mut String,
    id: &str,
    name: &str,
    state: &str,
    cpus: &str,
    memory: &str,
    rosetta: &str,
    mounts: &str,
)
    ensures
        final(out)@ == old(out)@ + vm_row(id@, name@, state@, cpus@, memory@, rosetta@, mounts@),
{
    push_padded_right(out, id, 12);
    out.append(" ");
    push_padded_right(out, name, 20);
    out.append(" ");
    push_padded_right(out, state, 10);
    out.append(" ");
    push_padded_right(out, cpus, 6);
    out.append(" ");
    push_padded_right(out, memory, 8);
    out.append(" ");
    push_padded_right(out, rosetta, 8);
    out.append(" ");
    out.append(mounts);
    proof {
        assert(final(out)@ =~= old(out)@ + vm_row(
            id@,
            name@,
            state@,
            cpus@,
            memory@,
            rosetta@,
            mounts@,
        ));
    }
}

/// The head of the table of machines.
pub open spec fn vm_table_head() -> Seq<char> {
    vm_row("ID"@, "NAME"@, "STATE"@, "CPUS"@, "MEMORY"@, "ROSETTA"@, "MOUNTS"@)
}

/// The head of the table of machines.
pub fn vm_table_header() -> (line: String)
    ensures
        line@ == vm_table_head(),
{
    let mut line = String::new();
    push_vm_row(&mut line, "ID", "NAME", "STATE", "CPUS", "MEMORY", "ROSETTA", "MOUNTS");
    proof {
        assert(Seq::<char>::empty() + vm_table_head() =~= vm_table_head());
    }
    line
}

/// The word for yes or no.
pub open spec fn yes_no(flag: bool) -> Seq<char> {
    if flag {
        "yes"@
    } else {
        "no"@
    }
}

/// The row of the table for a machine that the service listed.
pub open spec fn remote_vm_row(vm: VmInfoDtoView) -> Seq<char> {
    vm_row(
        vm.id,
        vm.name,
        vm.state,
        decimal(vm.cpus as nat),
        decimal(vm.memory_mb as nat) + "MB"@,
        yes_no(vm.rosetta_enabled),
        decimal(vm.mounts.len()),
    )
}

/// The name of a state as a backend of one's own shows it.
pub open spec fn state_name(state: VmState) -> Seq<char> {
    match state {
        VmState::Running => "Running"@,
        VmState::Stopped => "Stopped"@,
        VmState::Creating => "Creating"@,
    }
}

/// The row of the table for a machine of a backend of one's own.
pub open spec fn local_vm_row(vm: VmInfoView) -> Seq<char> {
    vm_row(
        vm.id,
        vm.name,
        state_name(vm.state),
        decimal(vm.cpus as nat),
        decimal(vm.memory_mb as nat) + "MB"@,
        yes_no(vm.rosetta_enabled),
        decimal(vm.shared_dirs.len()),
    )
}

fn number_text(n: u64) -> (text: String)
    ensures
        text@ == decimal(n as nat),
{
    let mut text = String::new();
    push_decimal(&mut text, n);
    proof {
        assert(Seq::<char>::empty() + decimal(n as nat) =~= decimal(n as nat));
    }
    text
}

fn memory_text(mb: u64) -> (text: String)
    ensures
        text@ == decimal(mb as nat) + "MB"@,
{
    let mut text = number_text(mb);
    text.append("MB");
    text
}

/// The row of the table for a machine that the service listed.
pub fn remote_vm_line(vm: &VmInfoDto) -> (line: String)
    ensures
        line@ == remote_vm_row(vm@),
{
    let mut line = String::new();
    let cpus = number_text(vm.cpus as u64);
    let memory = memory_text(vm.memory_mb);
    let mounts = number_text(vm.mounts.len() as u64);
    let rosetta = if vm.rosetta_enabled {
        "yes"
    } else {
        "no"
    };
    push_vm_row(
        &mut line,
        vm.id.as_str(),
        vm.name.as_str(),
        vm.state.as_str(),
        cpus.as_str(),
        memory.as_str(),
        rosetta,
        mounts.as_str(),
    );
    proof {
        assert(Seq::<char>::empty() + remote_vm_row(vm@) =~= remote_vm_row(vm@));
    }
    line
}

/// The row of the table for a machine of a backend of one's own.
pub fn local_vm_line(vm: &VmInfo) -> (line: String)
    ensures
        line@ == local_vm_row(vm@),
{
    let mut line = String::new();
    let cpus = number_text(vm.cpus as u64);
    let memory = memory_text(vm.memory_mb);
    let mounts = number_text(vm.shared_dirs.len() as u64);
    let rosetta = if vm.rosetta_enabled {
        "yes"
    } else {
        "no"
    };
    let state = match vm.state {
        VmState::Running => "Running",
        VmState::Stopped => "Stopped",
        VmState::Creating => "Creating",
    };
    push_vm_row(
        &mut line,
        vm.id.as_str(),
        vm.name.as_str(),
        state,
        cpus.as_str(),
        memory.as_str(),
        rosetta,
        mounts.as_str(),
    );
    proof {
        assert(Seq::<char>::empty() + local_vm_row(vm@) =~= local_vm_row(vm@));
    }
    line
}

/// The lines that list the machines of the service: a line that says so if
/// there are none, and else the head of the table and a row for each.
pub open spec fn remote_vm_listing(vms: Seq<VmInfoDtoView>) -> Seq<Seq<char>> {
    if vms.len() == 0 {
        seq!["No VMs found."@]
    } else {
        seq![vm_table_head()] + Seq::new(vms.len(), |i: int| remote_vm_row(vms[i]))
    }
}

/// The lines that list the machines of a backend of one's own.
pub open spec fn local_vm_listing(vms: Seq<VmInfoView>) -> Seq<Seq<char>> {
    if vms.len() == 0 {
        seq!["No VMs found."@]
    } else {
        seq![vm_table_head()] + Seq::new(vms.len(), |i: int| local_vm_row(vms[i]))
    }
}

/// The lines that list the machines of the service.
pub fn remote_vm_lines(vms: &Vec<VmInfoDto>) -> (lines: Vec<String>)
    ensures
        line_views(lines@) == remote_vm_listing(crate::service::vm_dto_views(vms@)),
{
    let mut lines: Vec<String> = Vec::new();
    if vms.len() == 0 {
        lines.push("No VMs found.".to_owned());
        proof {
            assert(line_views(lines@) =~= seq!["No VMs found."@]);
        }
        return lines;
    }
    lines.push(vm_table_header());
    let mut i: usize = 0;
    while i < vms.len()
        invariant
            i <= vms.len(),
            lines.len() == i + 1,
            lines[0]@ == vm_table_head(),
            forall|j: int| 1 <= j <= i ==> (#[trigger] lines[j])@ == remote_vm_row(vms[j - 1]@),
        decreases vms.len() - i,
    {
        lines.push(remote_vm_line(&vms[i]));
        i = i + 1;
    }
    proof {
        assert(line_views(lines@) =~= remote_vm_listing(crate::service::vm_dto_views(vms@)));
    }
    lines
}

/// The lines that list the machines of a backend of one's own.
pub fn local_vm_lines(vms: &Vec<VmInfo>) -> (lines: Vec<String>)
    ensures
        line_views(lines@) == local_vm_listing(crate::hypervisor::vm_views(vms@)),
{
    let mut lines: Vec<String> = Vec::new();
    if vms.len() == 0 {
        lines.push("No VMs found.".to_owned());
        proof {
            assert(line_views(lines@) =~= seq!["No VMs found."@]);
        }
        return lines;
    }
    lines.push(vm_table_header());
    let mut i: usize = 0;
    while i < vms.len()
        invariant
            i <= vms.len(),
            lines.len() == i + 1,
            lines[0]@ == vm_table_head(),
            forall|j: int| 1 <= j <= i ==> (#[trigger] lines[j])@ == local_vm_row(vms[j - 1]@),
        decreases vms.len() - i,
    {
        lines.push(local_vm_line(&vms[i]));
        i = i + 1;
    }
    proof {
        assert(line_views(lines@) =~= local_vm_listing(crate::hypervisor::vm_views(vms@)));
    }
    lines
}

/// The lines with which to log into a machine over a secure shell.
pub open spec fn login_report(name: Seq<char>, user: Seq<char>, host: Seq<char>, port: u16) -> Seq<
    Seq<char>,
> {
    seq![
        "ssh "@ + user + "@"@ + host + " -p "@ + decimal(port as nat),
        "# VM: "@ + name,
    ]
}

/// The lines with which to log into a machine, or the text that says why
/// there are none: logging in takes a port.
pub fn login_lines(name: &str, user: &str, host: &str, port: Option<u16>) -> (r: Result<
    Vec<String>,
    String,
>)
    ensures
        match port {
            Some(p) => r matches Ok(lines) && line_views(lines@) == login_report(
                name@,
                user@,
                host@,
                p,
            ),
            None => r matches Err(text) && text@
                == "VM login is not available yet. Specify an SSH port via --port."@,
        },
{
    match port {
        None => Err("VM login is not available yet. Specify an SSH port via --port.".to_owned()),
        Some(p) => {
            let mut first = join2("ssh ", user);
            first.append("@");
            first.append(host);
            first.append(" -p ");
            push_decimal(&mut first, p as u64);
            let second = join2("# VM: ", name);
            let mut lines: Vec<String> = Vec::new();
            lines.push(first);
            lines.push(second);
            proof {
                assert(line_views(lines@) =~= login_report(name@, user@, host@, p));
            }
            Ok(lines)
        },
    }
}

/// The command with which to log into a machine, for the graphical
/// front-end: both lines in one text.
pub fn vm_login_cmd(name: &str, user: &str, host: &str, port: Option<u16>) -> (r: Result<
    String,
    String,
>)
    ensures
        match port {
            Some(p) => r matches Ok(text) && text@ == "ssh "@ + user@ + "@"@ + host@ + " -p "@
                + decimal(p as nat) + "\n# VM: "@ + name@,
            None => r matches Err(text) && text@
                == "VM login is not available yet. Specify an SSH port."@,
        },
{
    match port {
        None => Err("VM login is not available yet. Specify an SSH port.".to_owned()),
        Some(p) => {
            let mut text = join2("ssh ", user);
            text.append("@");
            text.append(host);
            text.append(" -p ");
            push_decimal(&mut text, p as u64);
            text.append("\n# VM: ");
            text.append(name);
            Ok(text)
        },
    }
}

/// The command with which to open a shell in a container.
pub fn container_login_cmd(container: &str, shell: &str) -> (text: String)
    ensures
        text@ == "docker exec -it "@ + container@ + " "@ + shell@,
{
    let mut text = join2("docker exec -it ", container);
    text.append(" ");
    text.append(shell);
    text
}

/// The line that reports a share added.
pub open spec fn mounted_report(share: SharedDirectoryView) -> Seq<char> {
    "Mounted '"@ + share.host_path + "' \u{2192} "@ + share.guest_path + " (tag: "@ + share.tag + (
    if share.read_only {
        ", read-only"@
    } else {
        Seq::<char>::empty()
    }) + ")"@
}

/// The line that reports a share added.
pub fn mounted_line(share: &SharedDirectoryDto) -> (line: String)
    ensures
        line@ == mounted_report(share@),
{
    let mut line = join2("Mounted '", share.host_path.as_str());
    line.append("' \u{2192} ");
    line.append(share.guest_path.as_str());
    line.append(" (tag: ");
    line.append(share.tag.as_str());
    if share.read_only {
        line.append(", read-only");
    }
    line.append(")");
    proof {
        assert(line@ =~= mounted_report(share@));
    }
    line
}

/// The line that reports the shares with a tag removed.
pub fn unmounted_line(tag: &str) -> (line: String)
    ensures
        line@ == "Unmounted tag '"@ + tag@ + "'"@,
{
    let mut line = join2("Unmounted tag '", tag);
    line.append("'");
    line
}

/// A row of the table of shares.
pub open spec fn mount_row(tag: Seq<char>, host_path: Seq<char>, guest_path: Seq<char>, mode: Seq<char>) -> Seq<
    char,
> {
    padded_right(tag, 16) + " "@ + padded_right(host_path, 30) + " "@ + padded_right(
        guest_path,
        20,
    ) + " "@ + mode
}

/// The row of the table for a share.
pub open spec fn share_row(share: SharedDirectoryView) -> Seq<char> {
    mount_row(
        share.tag,
        share.host_path,
        share.guest_path,
        if share.read_only {
            "ro"@
        } else {
            "rw"@
        },
    )
}

fn push_mount_row(out: &mut String, tag: &str, host_path: &str, guest_path: &str, mode: &str)
    ensures
        final(out)@ == old(out)@ + mount_row(tag@, host_path@, guest_path@, mode@),
{
    push_padded_right(out, tag, 16);
    out.append(" ");
    push_padded_right(out, host_path, 30);
    out.append(" ");
    push_padded_right(out, guest_path, 20);
    out.append(" ");
    out.append(mode);
    proof {
        assert(final(out)@ =~= old(out)@ + mount_row(tag@, host_path@, guest_path@, mode@));
    }
}

/// The lines that list the shares of the machine the user named: a line that
/// says so if there are none, and else the head of the table and a row for
/// each.
pub open spec fn mount_listing(vm: Seq<char>, shares: Seq<SharedDirectoryView>) -> Seq<Seq<char>> {
    if shares.len() == 0 {
        seq!["No VirtioFS mounts for VM '"@ + vm + "'."@]
    } else {
        seq![mount_row("TAG"@, "HOST PATH"@, "GUEST PATH"@, "MODE"@)] + Seq::new(
            shares.len(),
            |i: int| share_row(shares[i]),
        )
    }
}

/// The lines that list the shares of the machine the user named.
pub fn mount_lines(vm: &str, shares: &Vec<SharedDirectoryDto>) -> (lines: Vec<String>)
    ensures
        line_views(lines@) == mount_listing(vm@, crate::service::dto_views(shares@)),
{
    let mut lines: Vec<String> = Vec::new();
    if shares.len() == 0 {
        let mut line = join2("No VirtioFS mounts for VM '", vm);
        line.append("'.");
        lines.push(line);
        proof {
            assert(line_views(lines@) =~= seq!["No VirtioFS mounts for VM '"@ + vm@ + "'."@]);
        }
        return lines;
    }
    let mut head = String::new();
    push_mount_row(&mut head, "TAG", "HOST PATH", "GUEST PATH", "MODE");
    proof {
        assert(head@ =~= mount_row("TAG"@, "HOST PATH"@, "GUEST PATH"@, "MODE"@));
    }
    lines.push(head);
    let mut i: usize = 0;
    while i < shares.len()
        invariant
            i <= shares.len(),
            lines.len() == i + 1,
            lines[0]@ == mount_row("TAG"@, "HOST PATH"@, "GUEST PATH"@, "MODE"@),
            forall|j: int| 1 <= j <= i ==> (#[trigger] lines[j])@ == share_row(shares[j - 1]@),
        decreases shares.len() - i,
    {
        let share = &shares[i];
        let mut line = String::new();
        let mode = if share.read_only {
            "ro"
        } else {
            "rw"
        };
        push_mount_row(
            &mut line,
            share.tag.as_str(),
            share.host_path.as_str(),
            share.guest_path.as_str(),
            mode,
        );
        proof {
            assert(line@ =~= share_row(share@));
        }
        lines.push(line);
        i = i + 1;
    }
    proof {
        assert(line_views(lines@) =~= mount_listing(vm@, crate::service::dto_views(shares@)));
    }
    lines
}

} // verus!
