//! What front-ends show of the containers and images that a container engine
//! and the image registries report. The engine and the registries are asked by
//! the caller; here their answers are put into the form that is shown.

use vstd::prelude::*;
use crate::hypervisor::Host;
use crate::scan::{
    first_chars, join_with, joined, lowercase, lowercase_range, padded_left, padded_right,
    push_padded_left, push_padded_right, range_is, take_chars, text_views,
};
use crate::image::{truncate_str, truncated};
use crate::text::{chars_of, decimal, join2, push_decimal, text_of_range};

verus! {

/// A port of a container, as the engine reports it.
#[derive(Debug, PartialEq, Eq)]
pub struct Port {
    /// The host address that the port is published on.
    pub ip: Option<String>,
    /// The port inside the container.
    pub private_port: u16,
    /// The port on the host, if the port is published.
    pub public_port: Option<u16>,
    /// The protocol, as the engine spells it; empty if it names none.
    pub typ: String,
}

/// A container, as the engine reports it.
#[derive(Debug, PartialEq, Eq)]
pub struct ContainerSummary {
    pub id: Option<String>,
    pub names: Option<Vec<String>>,
    pub image: Option<String>,
    pub state: Option<String>,
    pub status: Option<String>,
    pub ports: Option<Vec<Port>>,
}

/// A container, as the graphical front-end shows it.
#[derive(Debug, PartialEq, Eq)]
pub struct ContainerInfo {
    pub id: String,
    pub name: String,
    pub image: String,
    pub state: String,
    pub status: String,
    pub ports: String,
}

/// What a [`ContainerInfo`] is, as plain values.
pub struct ContainerInfoView {
    pub id: Seq<char>,
    pub name: Seq<char>,
    pub image: Seq<char>,
    pub state: Seq<char>,
    pub status: Seq<char>,
    pub ports: Seq<char>,
}

impl View for ContainerInfo {
    type V = ContainerInfoView;

    open spec fn view(&self) -> ContainerInfoView {
        ContainerInfoView {
            id: self.id@,
            name: self.name@,
            image: self.image@,
            state: self.state@,
            status: self.status@,
            ports: self.ports@,
        }
    }
}

/// The text of an optional text; nothing where there is none.
pub open spec fn text_or_empty(text: Option<String>) -> Seq<char> {
    match text {
        Some(t) => t@,
        None => Seq::empty(),
    }
}

/// How many slashes `s` begins with.
pub open spec fn leading_slashes(s: Seq<char>) -> int
    decreases s.len(),
{
    if s.len() > 0 && s[0] == '/' {
        1 + leading_slashes(s.skip(1))
    } else {
        0
    }
}

/// The name that a container goes by: the first of its names, without the
/// slashes at its start; nothing where it has no name.
pub open spec fn shown_name(names: Option<Vec<String>>) -> Seq<char> {
    match names {
        Some(list) => if list@.len() > 0 {
            list@[0]@.skip(leading_slashes(list@[0]@))
        } else {
            Seq::empty()
        },
        None => Seq::empty(),
    }
}

/// The short form of a container's id: its first twelve characters.
pub open spec fn short_id(id: Seq<char>) -> Seq<char> {
    first_chars(id, 12)
}

/// A published port as the graphical front-end shows it.
pub open spec fn published_text(public: u16, private: u16) -> Seq<char> {
    decimal(public as nat) + ":"@ + decimal(private as nat)
}

/// The published ports among `ports`, each as the graphical front-end shows
/// it, in order.
pub open spec fn published_texts(ports: Seq<Port>) -> Seq<Seq<char>>
    decreases ports.len(),
{
    if ports.len() == 0 {
        Seq::empty()
    } else {
        let init = published_texts(ports.drop_last());
        match ports.last().public_port {
            Some(p) => init.push(published_text(p, ports.last().private_port)),
            None => init,
        }
    }
}

/// A port as the command line shows it: a published port with the host
/// address, which is every address where the engine names none, and a port
/// that is not published by itself.
pub open spec fn port_text(port: Port) -> Seq<char> {
    match port.public_port {
        Some(p) => (match port.ip {
            Some(ip) => ip@,
            None => "0.0.0.0"@,
        }) + ":"@ + decimal(p as nat) + "->"@ + decimal(port.private_port as nat) + "/"@
            + port.typ@,
        None => decimal(port.private_port as nat) + "/"@ + port.typ@,
    }
}

/// The ports as the command line shows them, in order.
pub open spec fn port_texts(ports: Seq<Port>) -> Seq<Seq<char>> {
    Seq::new(ports.len(), |i: int| port_text(ports[i]))
}

/// The ports of a container, if it has any.
pub open spec fn ports_or_none(ports: Option<Vec<Port>>) -> Seq<Port> {
    match ports {
        Some(list) => list@,
        None => Seq::empty(),
    }
}

/// A container as the graphical front-end shows it.
pub open spec fn shown_container(c: ContainerSummary) -> ContainerInfoView {
    ContainerInfoView {
        id: short_id(text_or_empty(c.id)),
        name: shown_name(c.names),
        image: text_or_empty(c.image),
        state: text_or_empty(c.state),
        status: text_or_empty(c.status),
        ports: joined(published_texts(ports_or_none(c.ports)), ", "@),
    }
}

fn or_empty(text: &Option<String>) -> (out: String)
    ensures
        out@ == text_or_empty(*text),
{
    match text {
        Some(t) => t.clone(),
        None => String::new(),
    }
}

fn name_of(names: &Option<Vec<String>>) -> (out: String)
    ensures
        out@ == shown_name(*names),
{
    match names {
        Some(list) => {
            if list.len() == 0 {
                return String::new();
            }
            let chars = chars_of(list[0].as_str());
            let mut a: usize = 0;
            proof {
                assert(chars@.skip(0) =~= chars@);
            }
            while a < chars.len() && chars[a] == '/'
                invariant
                    a <= chars.len(),
                    leading_slashes(chars@) == a + leading_slashes(chars@.skip(a as int)),
                decreases chars.len() - a,
            {
                proof {
                    assert(chars@.skip(a as int)[0] == chars@[a as int]);
                    assert(chars@.skip(a as int).skip(1) =~= chars@.skip(a + 1));
                }
                a = a + 1;
            }
            proof {
                if a < chars.len() {
                    assert(chars@.skip(a as int)[0] == chars@[a as int]);
                }
                assert(chars@.subrange(a as int, chars.len() as int) =~= chars@.skip(a as int));
            }
            text_of_range(&chars, a, chars.len())
        },
        None => String::new(),
    }
}

fn short(id: &str) -> (out: String)
    ensures
        out@ == short_id(id@),
{
    let chars = chars_of(id);
    take_chars(&chars, 12)
}

/// The published ports of `ports`, as the graphical front-end shows them.
pub fn published_ports(ports: &Vec<Port>) -> (out: String)
    ensures
        out@ == joined(published_texts(ports@), ", "@),
{
    let mut texts: Vec<String> = Vec::new();
    let mut i: usize = 0;
    proof {
        assert(ports@.take(0) =~= Seq::empty());
        assert(text_views(texts@) =~= published_texts(ports@.take(0)));
    }
    while i < ports.len()
        invariant
            i <= ports.len(),
            text_views(texts@) == published_texts(ports@.take(i as int)),
        decreases ports.len() - i,
    {
        let ghost before = text_views(texts@);
        proof {
            let now = ports@.take(i + 1);
            assert(now.drop_last() =~= ports@.take(i as int));
            assert(now.last() == ports@[i as int]);
        }
        match ports[i].public_port {
            Some(p) => {
                let mut text = String::new();
                push_decimal(&mut text, p as u64);
                text.append(":");
                push_decimal(&mut text, ports[i].private_port as u64);
                proof {
                    assert(text@ =~= published_text(p, ports@[i as int].private_port));
                }
                texts.push(text);
                proof {
                    assert(text_views(texts@) =~= before.push(
                        published_text(p, ports@[i as int].private_port),
                    ));
                }
            },
            None => {},
        }
        i = i + 1;
    }
    proof {
        assert(ports@.take(ports.len() as int) =~= ports@);
    }
    join_with(&texts, ", ")
}

/// The ports of `ports`, as the command line shows them.
pub fn all_ports(ports: &Vec<Port>) -> (out: String)
    ensures
        out@ == joined(port_texts(ports@), ", "@),
{
    let mut texts: Vec<String> = Vec::new();
    let mut i: usize = 0;
    while i < ports.len()
        invariant
            i <= ports.len(),
            texts.len() == i,
            forall|k: int| 0 <= k < i ==> (#[trigger] texts[k])@ == port_text(ports[k]),
        decreases ports.len() - i,
    {
        let port = &ports[i];
        let mut text = String::new();
        match port.public_port {
            Some(p) => {
                match &port.ip {
                    Some(ip) => {
                        text.append(ip.as_str());
                    },
                    None => {
                        text.append("0.0.0.0");
                    },
                }
                text.append(":");
                push_decimal(&mut text, p as u64);
                text.append("->");
                push_decimal(&mut text, port.private_port as u64);
                text.append("/");
                text.append(port.typ.as_str());
            },
            None => {
                push_decimal(&mut text, port.private_port as u64);
                text.append("/");
                text.append(port.typ.as_str());
            },
        }
        proof {
            assert(text@ =~= port_text(*port));
        }
        texts.push(text);
        i = i + 1;
    }
    proof {
        assert(text_views(texts@) =~= port_texts(ports@));
    }
    join_with(&texts, ", ")
}

/// The container `c` as the graphical front-end shows it.
pub fn container_info(c: &ContainerSummary) -> (info: ContainerInfo)
    ensures
        info@ == shown_container(*c),
{
    let full_id = or_empty(&c.id);
    let ports = match &c.ports {
        Some(list) => published_ports(list),
        None => {
            let none: Vec<Port> = Vec::new();
            published_ports(&none)
        },
    };
    ContainerInfo {
        id: short(full_id.as_str()),
        name: name_of(&c.names),
        image: or_empty(&c.image),
        state: or_empty(&c.state),
        status: or_empty(&c.status),
        ports,
    }
}

/// A row of the table of containers.
pub open spec fn container_row(
    id: Seq<char>,
    name: Seq<char>,
    image: Seq<char>,
    status: Seq<char>,
    ports: Seq<char>,
) -> Seq<char> {
    padded_right(id, 16) + " "@ + padded_right(name, 24) + " "@ + padded_right(image, 24) + " "@
        + padded_right(status, 16) + " "@ + ports
}

/// The row of the table for a container.
pub open spec fn shown_row(c: ContainerSummary) -> Seq<char> {
    container_row(
        short_id(text_or_empty(c.id)),
        shown_name(c.names),
        text_or_empty(c.image),
        text_or_empty(c.status),
        joined(port_texts(ports_or_none(c.ports)), ", "@),
    )
}

fn push_container_row(out: &mut String, id: &str, name: &str, image: &str, status: &str, ports: &str)
    ensures
        final(out)@ == old(out)@ + container_row(id@, name@, image@, status@, ports@),
{
    push_padded_right(out, id, 16);
    out.append(" ");
    push_padded_right(out, name, 24);
    out.append(" ");
    push_padded_right(out, image, 24);
    out.append(" ");
    push_padded_right(out, status, 16);
    out.append(" ");
    out.append(ports);
    proof {
        assert(final(out)@ =~= old(out)@ + container_row(id@, name@, image@, status@, ports@));
    }
}

/// The head of the table of containers.
pub fn container_table_header() -> (line: String)
    ensures
        line@ == container_row("CONTAINER ID"@, "NAME"@, "IMAGE"@, "STATUS"@, "PORTS"@),
{
    let mut line = String::new();
    push_container_row(&mut line, "CONTAINER ID", "NAME", "IMAGE", "STATUS", "PORTS");
    proof {
        assert(line@ =~= container_row("CONTAINER ID"@, "NAME"@, "IMAGE"@, "STATUS"@, "PORTS"@));
    }
    line
}

/// The row of the table for the container `c`.
pub fn container_line(c: &ContainerSummary) -> (line: String)
    ensures
        line@ == shown_row(*c),
{
    let full_id = or_empty(&c.id);
    let id = short(full_id.as_str());
    let name = name_of(&c.names);
    let image = or_empty(&c.image);
    let status = or_empty(&c.status);
    let ports = match &c.ports {
        Some(list) => all_ports(list),
        None => {
            let none: Vec<Port> = Vec::new();
            proof {
                assert(port_texts(none@) =~= Seq::empty());
            }
            all_ports(&none)
        },
    };
    let mut line = String::new();
    push_container_row(
        &mut line,
        id.as_str(),
        name.as_str(),
        image.as_str(),
        status.as_str(),
        ports.as_str(),
    );
    proof {
        assert(line@ =~= shown_row(*c));
    }
    line
}

/// A container just started, as the graphical front-end shows it.
#[derive(Debug, PartialEq, Eq)]
pub struct RunContainerResult {
    pub id: String,
    pub name: String,
    pub image: String,
    pub login_cmd: String,
}

/// What a [`RunContainerResult`] is, as plain values.
pub struct RunContainerResultView {
    pub id: Seq<char>,
    pub name: Seq<char>,
    pub image: Seq<char>,
    pub login_cmd: Seq<char>,
}

impl View for RunContainerResult {
    type V = RunContainerResultView;

    open spec fn view(&self) -> RunContainerResultView {
        RunContainerResultView {
            id: self.id@,
            name: self.name@,
            image: self.image@,
            login_cmd: self.login_cmd@,
        }
    }
}

/// What is shown of a container just started: its short id, the name it was
/// given or else the short id, and the command that opens a shell in it.
pub open spec fn started_container(full_id: Seq<char>, name: Option<Seq<char>>, image: Seq<char>) -> RunContainerResultView {
    let shown = match name {
        Some(n) => n,
        None => short_id(full_id),
    };
    RunContainerResultView {
        id: short_id(full_id),
        name: shown,
        image: image,
        login_cmd: "docker exec -it "@ + shown + " /bin/sh"@,
    }
}

/// The view of an optional name.
pub open spec fn optional_name(name: Option<String>) -> Option<Seq<char>> {
    match name {
        Some(n) => Some(n@),
        None => None,
    }
}

/// What is shown of a container just started.
pub fn run_result(full_id: &str, name: Option<String>, image: String) -> (result:
    RunContainerResult)
    ensures
        result@ == started_container(full_id@, optional_name(name), image@),
{
    let id = short(full_id);
    let shown = match name {
        Some(n) => n,
        None => id.clone(),
    };
    let mut login_cmd = join2("docker exec -it ", shown.as_str());
    login_cmd.append(" /bin/sh");
    RunContainerResult { id, name: shown, image, login_cmd }
}

/// The lines that report a container created and started.
pub open spec fn started_report(result: RunContainerResultView) -> Seq<Seq<char>> {
    seq![
        "Created and started container: "@ + result.name,
        "Login command:"@,
        "  "@ + result.login_cmd,
    ]
}

/// The lines that report a container created and started.
pub fn run_lines(result: &RunContainerResult) -> (lines: Vec<String>)
    ensures
        text_views(lines@) == started_report(result@),
{
    let mut lines: Vec<String> = Vec::new();
    lines.push(join2("Created and started container: ", result.name.as_str()));
    lines.push("Login command:".to_owned());
    lines.push(join2("  ", result.login_cmd.as_str()));
    proof {
        assert(text_views(lines@) =~= started_report(result@));
    }
    lines
}

/// What was done to a container.
#[derive(Debug, Clone, Copy, PartialEq, Eq, Structural)]
pub enum ContainerVerb {
    Started,
    Stopped,
    Removed,
}

/// The word for what was done to a container.
pub open spec fn container_verb_word(verb: ContainerVerb) -> Seq<char> {
    match verb {
        ContainerVerb::Started => "Started"@,
        ContainerVerb::Stopped => "Stopped"@,
        ContainerVerb::Removed => "Removed"@,
    }
}

/// The line that reports what was done to the container `id`.
pub fn container_done_line(verb: ContainerVerb, id: &str) -> (line: String)
    ensures
        line@ == container_verb_word(verb) + " container "@ + id@,
{
    let word = match verb {
        ContainerVerb::Started => "Started",
        ContainerVerb::Stopped => "Stopped",
        ContainerVerb::Removed => "Removed",
    };
    let mut line = join2(word, " container ");
    line.append(id);
    line
}

/// The share of processor time for `cpus` processors, in billionths of a
/// processor.
pub fn nano_cpus(cpus: u32) -> (nanos: i64)
    ensures
        nanos == cpus * 1_000_000_000,
{
    (cpus as i64) * 1_000_000_000
}

/// An image that a search found.
#[derive(Debug, PartialEq, Eq)]
pub struct ImageSearchResult {
    pub source: String,
    pub reference: String,
    pub description: String,
    pub stars: Option<u64>,
    pub pulls: Option<u64>,
    pub official: bool,
}

/// What an [`ImageSearchResult`] is, as plain values.
pub struct ImageSearchResultView {
    pub source: Seq<char>,
    pub reference: Seq<char>,
    pub description: Seq<char>,
    pub stars: Option<u64>,
    pub pulls: Option<u64>,
    pub official: bool,
}

impl View for ImageSearchResult {
    type V = ImageSearchResultView;

    open spec fn view(&self) -> ImageSearchResultView {
        ImageSearchResultView {
            source: self.source@,
            reference: self.reference@,
            description: self.description@,
            stars: self.stars,
            pulls: self.pulls,
            official: self.official,
        }
    }
}

/// A repository, as the hub of images reports it.
#[derive(Debug, PartialEq, Eq)]
pub struct HubRepo {
    pub name: String,
    pub namespace: Option<String>,
    pub description: Option<String>,
    pub star_count: Option<u64>,
    pub pull_count: Option<u64>,
    pub is_official: Option<bool>,
}

/// What a search shows of a repository of the hub: a repository of the
/// library goes by its name alone, any other by namespace and name.
pub open spec fn hub_result(repo: HubRepo) -> ImageSearchResultView {
    let namespace = match repo.namespace {
        Some(ns) => ns@,
        None => "library"@,
    };
    ImageSearchResultView {
        source: "dockerhub"@,
        reference: if namespace == "library"@ {
            repo.name@
        } else {
            namespace + "/"@ + repo.name@
        },
        description: text_or_empty(repo.description),
        stars: repo.star_count,
        pulls: repo.pull_count,
        official: match repo.is_official {
            Some(flag) => flag,
            None => false,
        },
    }
}

/// What a search shows of the repository `repo` of the hub.
pub fn dockerhub_result(repo: &HubRepo) -> (result: ImageSearchResult)
    ensures
        result@ == hub_result(*repo),
{
    let namespace = match &repo.namespace {
        Some(ns) => ns.clone(),
        None => "library".to_owned(),
    };
    let library = "library".to_owned();
    let reference = if namespace == library {
        repo.name.clone()
    } else {
        let mut text = namespace;
        text.append("/");
        text.append(repo.name.as_str());
        text
    };
    ImageSearchResult {
        source: "dockerhub".to_owned(),
        reference,
        description: or_empty(&repo.description),
        stars: repo.star_count,
        pulls: repo.pull_count,
        official: match repo.is_official {
            Some(flag) => flag,
            None => false,
        },
    }
}

/// Where to search: in the hub, in the other registry, or in both.
#[derive(Debug, Clone, Copy, PartialEq, Eq, Structural)]
pub struct SearchSources {
    pub dockerhub: bool,
    pub quay: bool,
}

/// Where to search for the word `source`, in lower case: `all` means both,
/// the hub goes by three names and the other registry by one.
pub open spec fn sources_for(word: Seq<char>) -> SearchSources {
    SearchSources {
        dockerhub: word == "all"@ || word == "dockerhub"@ || word == "hub"@ || word == "docker"@,
        quay: word == "all"@ || word == "quay"@,
    }
}

/// Where to search, or the text that says that the source is not known.
pub fn search_sources(source: &str) -> (r: Result<SearchSources, String>)
    ensures
        ({
            let sources = sources_for(lowercase(source@));
            if sources.dockerhub || sources.quay {
                r == Ok::<SearchSources, String>(sources)
            } else {
                r matches Err(text) && text@ == "Unknown source: "@ + source@
            }
        }),
{
    let chars = chars_of(source);
    proof {
        assert(chars@.subrange(0, chars.len() as int) =~= chars@);
    }
    let word = lowercase_range(&chars, 0, chars.len());
    proof {
        assert(word@.subrange(0, word.len() as int) =~= word@);
    }
    let all = range_is(&word, 0, word.len(), &chars_of("all"));
    let dockerhub = all || range_is(&word, 0, word.len(), &chars_of("dockerhub")) || range_is(
        &word,
        0,
        word.len(),
        &chars_of("hub"),
    ) || range_is(&word, 0, word.len(), &chars_of("docker"));
    let quay = all || range_is(&word, 0, word.len(), &chars_of("quay"));
    if !dockerhub && !quay {
        return Err(join2("Unknown source: ", source));
    }
    Ok(SearchSources { dockerhub, quay })
}

/// A number, or a dash where there is none.
pub open spec fn count_text(n: Option<u64>) -> Seq<char> {
    match n {
        Some(v) => decimal(v as nat),
        None => "-"@,
    }
}

/// A row of the table of images.
pub open spec fn image_row(
    source: Seq<char>,
    image: Seq<char>,
    stars: Seq<char>,
    pulls: Seq<char>,
    description: Seq<char>,
) -> Seq<char> {
    padded_right(source, 10) + " "@ + padded_right(image, 48) + " "@ + padded_left(stars, 7) + " "@
        + padded_left(pulls, 12) + "  "@ + description
}

/// The row of the table for an image that a search found: an official image
/// is marked, and what is too long for its column is cut.
pub open spec fn found_row(item: ImageSearchResultView) -> Seq<char> {
    image_row(
        item.source,
        truncated(
            if item.official {
                item.reference + " (official)"@
            } else {
                item.reference
            },
            48,
        ),
        count_text(item.stars),
        count_text(item.pulls),
        truncated(item.description, 80),
    )
}

fn push_image_row(out: &mut String, source: &str, image: &str, stars: &str, pulls: &str, description: &str)
    ensures
        final(out)@ == old(out)@ + image_row(source@, image@, stars@, pulls@, description@),
{
    push_padded_right(out, source, 10);
    out.append(" ");
    push_padded_right(out, image, 48);
    out.append(" ");
    push_padded_left(out, stars, 7);
    out.append(" ");
    push_padded_left(out, pulls, 12);
    out.append("  ");
    out.append(description);
    proof {
        assert(final(out)@ =~= old(out)@ + image_row(
            source@,
            image@,
            stars@,
            pulls@,
            description@,
        ));
    }
}

fn count(n: Option<u64>) -> (text: String)
    ensures
        text@ == count_text(n),
{
    match n {
        Some(v) => {
            let mut text = String::new();
            push_decimal(&mut text, v);
            proof {
                assert(text@ =~= decimal(v as nat));
            }
            text
        },
        None => "-".to_owned(),
    }
}

/// The head of the table of images.
pub fn image_table_header() -> (line: String)
    ensures
        line@ == image_row("SOURCE"@, "IMAGE"@, "STARS"@, "PULLS"@, "DESCRIPTION"@),
{
    let mut line = String::new();
    push_image_row(&mut line, "SOURCE", "IMAGE", "STARS", "PULLS", "DESCRIPTION");
    proof {
        assert(line@ =~= image_row("SOURCE"@, "IMAGE"@, "STARS"@, "PULLS"@, "DESCRIPTION"@));
    }
    line
}

/// The row of the table for the image `item`.
pub fn image_line(item: &ImageSearchResult) -> (line: String)
    ensures
        line@ == found_row(item@),
{
    let mut image = item.reference.clone();
    if item.official {
        image.append(" (official)");
    }
    let shown = truncate_str(image.as_str(), 48);
    let description = truncate_str(item.description.as_str(), 80);
    let stars = count(item.stars);
    let pulls = count(item.pulls);
    let mut line = String::new();
    push_image_row(
        &mut line,
        item.source.as_str(),
        shown.as_str(),
        stars.as_str(),
        pulls.as_str(),
        description.as_str(),
    );
    proof {
        assert(line@ =~= found_row(item@));
    }
    line
}

/// Where the container engine may listen on a host like Unix, in the order
/// in which to look: below the home directory for two engines that run in
/// machines of their own, at the system's place, and below the home directory
/// for the desktop engine.
pub open spec fn socket_candidates(home: Seq<char>) -> Seq<Seq<char>> {
    seq![
        home + "/.colima/default/docker.sock"@,
        home + "/.orbstack/run/docker.sock"@,
        "/var/run/docker.sock"@,
        home + "/.docker/run/docker.sock"@,
    ]
}

/// The first of `candidates[from..]` that the caller saw on the host.
pub open spec fn first_seen(candidates: Seq<Seq<char>>, host: Host, from: int) -> Option<Seq<char>>
    decreases candidates.len() - from,
{
    if from < 0 || from >= candidates.len() {
        None
    } else if host.path_exists(candidates[from]) {
        Some(candidates[from])
    } else {
        first_seen(candidates, host, from + 1)
    }
}

/// The places where the container engine may listen on a host like Unix,
/// in the order in which to look: what the caller has to look at before it
/// asks where the engine listens.
pub fn socket_places(home: &str) -> (places: Vec<String>)
    ensures
        text_views(places@) == socket_candidates(home@),
{
    let mut places: Vec<String> = Vec::new();
    places.push(join2(home, "/.colima/default/docker.sock"));
    places.push(join2(home, "/.orbstack/run/docker.sock"));
    places.push("/var/run/docker.sock".to_owned());
    places.push(join2(home, "/.docker/run/docker.sock"));
    proof {
        assert(text_views(places@) =~= socket_candidates(home@));
    }
    places
}

/// Where the container engine listens on a host like Unix: the first of the
/// places to look that the caller saw, if it saw any.
pub fn detect_docker_socket(home: &str, host: &Host) -> (socket: Option<String>)
    ensures
        optional_name(socket) == first_seen(socket_candidates(home@), *host, 0),
{
    let candidates = socket_places(home);
    let ghost places = socket_candidates(home@);
    let mut i: usize = 0;
    while i < candidates.len()
        invariant
            i <= candidates.len(),
            text_views(candidates@) == places,
            places == socket_candidates(home@),
            first_seen(places, *host, 0) == first_seen(places, *host, i as int),
        decreases candidates.len() - i,
    {
        proof {
            assert(text_views(candidates@).len() == candidates.len());
            assert(text_views(candidates@)[i as int] == candidates@[i as int]@);
        }
        if host.has_path(candidates[i].as_str()) {
            return Some(candidates[i].clone());
        }
        i = i + 1;
    }
    None
}

/// The address of the engine for the engine's own command line: the
/// configured one, or the socket that was found, as an address.
pub fn docker_host_for_cli(configured: Option<String>, socket: Option<String>) -> (address: Option<
    String,
>)
    ensures
        optional_name(address) == match configured {
            Some(c) => Some(c@),
            None => match socket {
                Some(s) => Some("unix://"@ + s@),
                None => None,
            },
        },
{
    match configured {
        Some(c) => Some(c),
        None => match socket {
            Some(s) => Some(join2("unix://", s.as_str())),
            None => None,
        },
    }
}

} // verus!
