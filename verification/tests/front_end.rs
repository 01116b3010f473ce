use cargobay::containers::{
    all_ports, container_done_line, container_info, container_line, container_table_header,
    detect_docker_socket, docker_host_for_cli, dockerhub_result, image_line, image_table_header,
    nano_cpus, published_ports, run_lines, run_result, search_sources, socket_places,
    ContainerInfo, ContainerSummary, ContainerVerb, HubRepo, ImageSearchResult, Port,
    RunContainerResult, SearchSources,
};
use cargobay::hypervisor::{Host, HypervisorError, SharedDirectory, VmInfo, VmState};
use cargobay::image::{
    lookup_param, no_tags_line, parse_bearer_auth_params, parse_registry_reference, pull_scope,
    sorted_tags, split_image_reference, tag_line, tags_header, tags_url, truncate_str,
};
use cargobay::report::{
    container_login_cmd, created_lines, done_line, error_line, error_message, local_vm_lines,
    login_lines, mount_lines, mounted_line, remote_vm_lines, unmounted_line, vm_login_cmd,
    vm_table_header, Verb,
};
use cargobay::scan::{find_first, find_last, join_with, to_lower};
use cargobay::service::{
    core_shared_dir, proto_shared_dir, severity_of, vm_state_to_string, vm_to_dto, Severity,
    SharedDirectoryDto, VmInfoDto,
};
use cargobay::vz::Args;

fn pair(a: &str, b: &str) -> (String, String) {
    (a.to_string(), b.to_string())
}

#[test]
fn a_reference_names_its_registry() {
    let some = |a: &str, b: &str| Some(pair(a, b));
    assert_eq!(parse_registry_reference("ghcr.io/org/image"), some("ghcr.io", "org/image"));
    assert_eq!(
        parse_registry_reference("ghcr.io/org/image:1.2@sha256:abc"),
        some("ghcr.io", "org/image")
    );
    assert_eq!(
        parse_registry_reference("localhost:5000/image:tag"),
        some("localhost:5000", "image")
    );
    assert_eq!(parse_registry_reference("localhost/image"), some("localhost", "image"));
    assert_eq!(parse_registry_reference("quay.io/a"), some("quay.io", "a"));
    assert_eq!(parse_registry_reference("library/nginx"), None);
    assert_eq!(parse_registry_reference("nginx"), None);
    assert_eq!(parse_registry_reference("nginx:latest"), None);
    assert_eq!(parse_registry_reference("ghcr.io/"), None);
    assert_eq!(parse_registry_reference("ghcr.io"), None);
    assert_eq!(parse_registry_reference(""), None);
    assert_eq!(parse_registry_reference("@sha256:abc"), None);
    assert_eq!(parse_registry_reference("a.b/c:d/e"), some("a.b", "c:d/e"));
    assert_eq!(parse_registry_reference("host:5000/"), None);
    assert_eq!(parse_registry_reference("/image"), None);
    assert_eq!(parse_registry_reference(":5000/image"), some(":5000", "image"));
}

#[test]
fn a_reference_names_image_and_tag() {
    assert_eq!(split_image_reference("nginx"), pair("nginx", "latest"));
    assert_eq!(split_image_reference("nginx:1.25"), pair("nginx", "1.25"));
    assert_eq!(
        split_image_reference("host:5000/nginx"),
        pair("host:5000/nginx", "latest")
    );
    assert_eq!(
        split_image_reference("host:5000/nginx:1@sha256:abc"),
        pair("host:5000/nginx", "1")
    );
    assert_eq!(split_image_reference("nginx:"), pair("nginx:", "latest"));
    assert_eq!(split_image_reference(":tag"), pair(":tag", "latest"));
    assert_eq!(split_image_reference(""), pair("", "latest"));
    assert_eq!(split_image_reference("a/b:c"), pair("a/b", "c"));
    assert_eq!(split_image_reference("/:x"), pair("/", "x"));
}

#[test]
fn long_text_is_cut_with_an_ellipsis() {
    assert_eq!(truncate_str("hello", 5), "hello");
    assert_eq!(truncate_str("hello", 10), "hello");
    assert_eq!(truncate_str("hello!", 5), "hell\u{2026}");
    assert_eq!(truncate_str("hello", 1), "\u{2026}");
    assert_eq!(truncate_str("hello", 0), "\u{2026}");
    assert_eq!(truncate_str("", 0), "");
    assert_eq!(truncate_str("äöüß", 3), "äö\u{2026}");
}

#[test]
fn a_bearer_challenge_is_taken_apart() {
    let params = parse_bearer_auth_params(
        "Bearer realm=\"https://auth.docker.io/token\",service=\"registry.docker.io\", scope = \"repository:library/nginx:pull\" ",
    )
    .expect("params");
    assert_eq!(
        params,
        vec![
            pair("realm", "https://auth.docker.io/token"),
            pair("service", "registry.docker.io"),
            pair("scope", "repository:library/nginx:pull"),
        ]
    );
    assert_eq!(
        lookup_param(&params, "realm"),
        Some("https://auth.docker.io/token".to_string())
    );
    assert_eq!(lookup_param(&params, "client"), None);

    assert_eq!(
        parse_bearer_auth_params("  bEaReR a=b"),
        Some(vec![pair("a", "b")])
    );
    assert_eq!(
        parse_bearer_auth_params("Bearer a=1,a=2"),
        Some(vec![pair("a", "1"), pair("a", "2")])
    );
    assert_eq!(
        lookup_param(&vec![pair("a", "1"), pair("a", "2")], "a"),
        Some("2".to_string())
    );
    assert_eq!(
        parse_bearer_auth_params("Bearer a=\"\"x\"\" , b = c=d"),
        Some(vec![pair("a", "x"), pair("b", "c=d")])
    );
    assert_eq!(parse_bearer_auth_params("Bearer =v"), Some(vec![pair("", "v")]));
    assert_eq!(parse_bearer_auth_params("Basic realm=\"x\""), None);
    assert_eq!(parse_bearer_auth_params("Bearer"), None);
    assert_eq!(parse_bearer_auth_params("Bearer "), None);
    assert_eq!(parse_bearer_auth_params("Bearer realm"), None);
    assert_eq!(parse_bearer_auth_params("Bearer a=b,"), None);
    assert_eq!(parse_bearer_auth_params("Bearer a=b,,c=d"), None);
    assert_eq!(parse_bearer_auth_params(""), None);
}

#[test]
fn text_is_searched_and_joined() {
    let chars: Vec<char> = "a/b/c".chars().collect();
    assert_eq!(find_first(&chars, 0, 5, '/'), 1);
    assert_eq!(find_first(&chars, 2, 5, '/'), 1);
    assert_eq!(find_first(&chars, 0, 5, ':'), 5);
    assert_eq!(find_first(&chars, 4, 4, 'c'), 0);
    assert_eq!(find_last(&chars, 0, 5, '/'), Some(3));
    assert_eq!(find_last(&chars, 0, 3, '/'), Some(1));
    assert_eq!(find_last(&chars, 0, 5, ':'), None);
    assert_eq!(to_lower('A'), 'a');
    assert_eq!(to_lower('Z'), 'z');
    assert_eq!(to_lower('a'), 'a');
    assert_eq!(to_lower('@'), '@');
    assert_eq!(to_lower('['), '[');
    assert_eq!(to_lower('Ä'), 'Ä');
    for code in 0u8..128 {
        let c = code as char;
        assert_eq!(to_lower(c), c.to_ascii_lowercase());
    }
    let parts = |list: &[&str]| list.iter().map(|p| p.to_string()).collect::<Vec<_>>();
    assert_eq!(join_with(&parts(&[]), ", "), "");
    assert_eq!(join_with(&parts(&["a"]), ", "), "a");
    assert_eq!(join_with(&parts(&["a", "", "c"]), ", "), "a, , c");
}

#[test]
fn errors_say_what_they_are() {
    let text = |s: &str| s.to_string();
    assert_eq!(
        error_message(&HypervisorError::CreateFailed(text("x"))),
        "VM creation failed: x"
    );
    assert_eq!(error_message(&HypervisorError::NotFound(text("x"))), "VM not found: x");
    assert_eq!(error_message(&HypervisorError::Unsupported), "unsupported platform");
    assert_eq!(
        error_message(&HypervisorError::RosettaUnavailable(text("x"))),
        "Rosetta not available: x"
    );
    assert_eq!(
        error_message(&HypervisorError::VirtioFsError(text("x"))),
        "VirtioFS error: x"
    );
    assert_eq!(error_message(&HypervisorError::Storage(text("x"))), "storage error: x");
    assert_eq!(error_message(&HypervisorError::Io(text("x"))), "IO error: x");
    assert_eq!(error_line("VM not found: x"), "Error: VM not found: x");
    assert_eq!(severity_of(&HypervisorError::NotFound(text("x"))), Severity::Warning);
    assert_eq!(severity_of(&HypervisorError::Storage(text("x"))), Severity::Error);
    assert_eq!(severity_of(&HypervisorError::Unsupported), Severity::Error);
}

fn dto(id: &str, name: &str, state: &str, mounts: usize) -> VmInfoDto {
    VmInfoDto {
        id: id.to_string(),
        name: name.to_string(),
        state: state.to_string(),
        cpus: 2,
        memory_mb: 2048,
        disk_gb: 20,
        rosetta_enabled: mounts > 0,
        mounts: (0..mounts)
            .map(|i| SharedDirectoryDto {
                tag: format!("t{}", i),
                host_path: "/h".to_string(),
                guest_path: "/g".to_string(),
                read_only: false,
            })
            .collect(),
    }
}

#[test]
fn machines_are_listed_in_a_table() {
    assert_eq!(
        vm_table_header(),
        format!(
            "{:<12} {:<20} {:<10} {:<6} {:<8} {:<8} {}",
            "ID", "NAME", "STATE", "CPUS", "MEMORY", "ROSETTA", "MOUNTS"
        )
    );
    assert_eq!(remote_vm_lines(&vec![]), vec!["No VMs found."]);
    let lines = remote_vm_lines(&vec![
        dto("kvm-1", "web", "running", 0),
        dto("kvm-1234567890", "a-name-that-is-longer-than-its-column", "stopped", 2),
    ]);
    assert_eq!(lines.len(), 3);
    assert_eq!(lines[0], vm_table_header());
    assert_eq!(
        lines[1],
        "kvm-1        web                  running    2      2048MB   no       0"
    );
    assert_eq!(
        lines[2],
        format!(
            "{:<12} {:<20} {:<10} {:<6} {:<8} {:<8} {}",
            "kvm-1234567890",
            "a-name-that-is-longer-than-its-column",
            "stopped",
            2,
            "2048MB",
            "yes",
            2
        )
    );

    let local = VmInfo {
        id: "stub-1".to_string(),
        name: "wäb".to_string(),
        state: VmState::Creating,
        cpus: 16,
        memory_mb: 123456789,
        disk_gb: 1,
        rosetta_enabled: true,
        shared_dirs: vec![SharedDirectory {
            tag: "t".to_string(),
            host_path: "/".to_string(),
            guest_path: "/".to_string(),
            read_only: true,
        }],
    };
    assert_eq!(local_vm_lines(&vec![]), vec!["No VMs found."]);
    let lines = local_vm_lines(&vec![local]);
    assert_eq!(
        lines[1],
        format!(
            "{:<12} {:<20} {:<10} {:<6} {:<8} {:<8} {}",
            "stub-1", "wäb", "Creating", 16, "123456789MB", "yes", 1
        )
    );
}

#[test]
fn outcomes_are_reported_in_lines() {
    assert_eq!(
        created_lines("web", "kvm-1", false),
        vec!["Created VM 'web' (id: kvm-1)"]
    );
    assert_eq!(
        created_lines("web", "vz-1", true),
        vec![
            "Created VM 'web' (id: vz-1)",
            "  Rosetta x86_64 translation: enabled"
        ]
    );
    assert_eq!(done_line(Verb::Started, "web"), "Started VM 'web'");
    assert_eq!(done_line(Verb::Stopped, "web"), "Stopped VM 'web'");
    assert_eq!(done_line(Verb::Deleted, "web"), "Deleted VM 'web'");
    assert_eq!(
        login_lines("web", "root", "127.0.0.1", Some(2222)),
        Ok(vec!["ssh root@127.0.0.1 -p 2222".to_string(), "# VM: web".to_string()])
    );
    assert_eq!(
        login_lines("web", "root", "127.0.0.1", None),
        Err("VM login is not available yet. Specify an SSH port via --port.".to_string())
    );
    assert_eq!(
        vm_login_cmd("web", "me", "host", Some(65535)),
        Ok("ssh me@host -p 65535\n# VM: web".to_string())
    );
    assert_eq!(
        vm_login_cmd("web", "me", "host", None),
        Err("VM login is not available yet. Specify an SSH port.".to_string())
    );
    assert_eq!(
        container_login_cmd("c1", "/bin/bash"),
        "docker exec -it c1 /bin/bash"
    );
}

#[test]
fn shares_are_reported_and_listed() {
    let share = |read_only| SharedDirectoryDto {
        tag: "code".to_string(),
        host_path: "/home/me/code".to_string(),
        guest_path: "/mnt/code".to_string(),
        read_only,
    };
    assert_eq!(
        mounted_line(&share(false)),
        "Mounted '/home/me/code' \u{2192} /mnt/code (tag: code)"
    );
    assert_eq!(
        mounted_line(&share(true)),
        "Mounted '/home/me/code' \u{2192} /mnt/code (tag: code, read-only)"
    );
    assert_eq!(unmounted_line("code"), "Unmounted tag 'code'");
    assert_eq!(
        mount_lines("web", &vec![]),
        vec!["No VirtioFS mounts for VM 'web'."]
    );
    assert_eq!(
        mount_lines("web", &vec![share(false), share(true)]),
        vec![
            format!("{:<16} {:<30} {:<20} {}", "TAG", "HOST PATH", "GUEST PATH", "MODE"),
            format!("{:<16} {:<30} {:<20} {}", "code", "/home/me/code", "/mnt/code", "rw"),
            format!("{:<16} {:<30} {:<20} {}", "code", "/home/me/code", "/mnt/code", "ro"),
        ]
    );
}

#[test]
fn records_go_over_the_wire_in_words() {
    assert_eq!(vm_state_to_string(VmState::Running), "running");
    assert_eq!(vm_state_to_string(VmState::Stopped), "stopped");
    assert_eq!(vm_state_to_string(VmState::Creating), "creating");
    let share = SharedDirectory {
        tag: "t".to_string(),
        host_path: "/h".to_string(),
        guest_path: "/g".to_string(),
        read_only: true,
    };
    let wire = proto_shared_dir(share.clone());
    assert_eq!(
        wire,
        SharedDirectoryDto {
            tag: "t".to_string(),
            host_path: "/h".to_string(),
            guest_path: "/g".to_string(),
            read_only: true,
        }
    );
    assert_eq!(SharedDirectoryDto::from(share.clone()), wire);
    assert_eq!(core_shared_dir(wire), share);
    let vm = VmInfo {
        id: "hv-3".to_string(),
        name: "web".to_string(),
        state: VmState::Running,
        cpus: 8,
        memory_mb: 1024,
        disk_gb: 64,
        rosetta_enabled: true,
        shared_dirs: vec![share],
    };
    let shown = vm_to_dto(&vm);
    assert_eq!(shown.id, "hv-3");
    assert_eq!(shown.state, "running");
    assert_eq!(shown.cpus, 8);
    assert_eq!(shown.memory_mb, 1024);
    assert_eq!(shown.disk_gb, 64);
    assert!(shown.rosetta_enabled);
    assert_eq!(shown.mounts.len(), 1);
    assert_eq!(shown.mounts[0].tag, "t");
}

fn words(list: &[&str]) -> Vec<String> {
    list.iter().map(|w| w.to_string()).collect()
}

#[test]
fn the_runner_reads_its_command_line() {
    let parsed = Args::parse(&words(&[
        "--kernel", "/k", "--disk", "/d", "--cpus", "4", "--memory-mb", "2048",
    ]));
    assert_eq!(
        parsed,
        Ok(Args {
            kernel: "/k".to_string(),
            initrd: None,
            disk: "/d".to_string(),
            cpus: 4,
            memory_mb: 2048,
            cmdline: "console=hvc0".to_string(),
            ready_file: None,
        })
    );
    let full = Args::parse(&words(&[
        "--ready-file", "/r", "--cmdline", "quiet", "--initrd", "/i", "--memory-mb", "1",
        "--cpus", "1", "--disk", "/d", "--kernel", "/old", "--kernel", "/new",
    ]))
    .expect("args");
    assert_eq!(full.kernel, "/new");
    assert_eq!(full.initrd, Some("/i".to_string()));
    assert_eq!(full.cmdline, "quiet");
    assert_eq!(full.ready_file, Some("/r".to_string()));
    assert_eq!(full.memory_bytes(), 1_048_576);
}

#[test]
fn the_runner_complains_about_its_command_line() {
    let err = |list: &[&str]| Args::parse(&words(list)).expect_err("complaint");
    assert_eq!(err(&[]), "Missing --kernel");
    assert_eq!(err(&["--kernel", "/k"]), "Missing --disk");
    assert_eq!(err(&["--kernel", "/k", "--disk", "/d"]), "Missing --cpus");
    assert_eq!(
        err(&["--kernel", "/k", "--disk", "/d", "--cpus", "1"]),
        "Missing --memory-mb"
    );
    assert_eq!(err(&["--kernel"]), "--kernel requires a value");
    assert_eq!(err(&["--initrd"]), "--initrd requires a value");
    assert_eq!(err(&["--disk"]), "--disk requires a value");
    assert_eq!(err(&["--cpus"]), "--cpus requires a value");
    assert_eq!(err(&["--memory-mb"]), "--memory-mb requires a value");
    assert_eq!(err(&["--cmdline"]), "--cmdline requires a value");
    assert_eq!(err(&["--ready-file"]), "--ready-file requires a value");
    assert_eq!(err(&["--cpus", "many"]), "Invalid --cpus");
    assert_eq!(err(&["--cpus", "-1"]), "Invalid --cpus");
    assert_eq!(err(&["--memory-mb", "1.5"]), "Invalid --memory-mb");
    assert_eq!(err(&["--memory-mb", "18446744073709551616"]), "Invalid --memory-mb");
    assert_eq!(err(&["--verbose"]), "Unknown argument: --verbose");
    assert_eq!(err(&["--kernel", "/k", "extra"]), "Unknown argument: extra");
    assert_eq!(err(&["--help"]), Args::usage());
    assert_eq!(err(&["--kernel", "/k", "-h"]), Args::usage());
    assert_eq!(err(&["--kernel", "--help"]), "Missing --disk");
    assert!(Args::usage().starts_with("Usage:\n  cargobay-vz --kernel <path>"));
    let big = Args {
        kernel: String::new(),
        initrd: None,
        disk: String::new(),
        cpus: 1,
        memory_mb: 17_592_186_044_416,
        cmdline: String::new(),
        ready_file: None,
    };
    assert_eq!(big.memory_bytes(), u64::MAX);
    let fits = Args {
        memory_mb: 17_592_186_044_415,
        ..big
    };
    assert_eq!(fits.memory_bytes(), 17_592_186_044_415 * 1_048_576);
}

fn port(ip: Option<&str>, private_port: u16, public_port: Option<u16>, typ: &str) -> Port {
    Port {
        ip: ip.map(|s| s.to_string()),
        private_port,
        public_port,
        typ: typ.to_string(),
    }
}

fn summary() -> ContainerSummary {
    ContainerSummary {
        id: Some("0123456789abcdef0123".to_string()),
        names: Some(vec!["//web".to_string(), "/other".to_string()]),
        image: Some("nginx:1".to_string()),
        state: Some("running".to_string()),
        status: Some("Up 2 hours".to_string()),
        ports: Some(vec![
            port(Some("127.0.0.1"), 80, Some(8080), "tcp"),
            port(None, 53, None, "udp"),
            port(None, 443, Some(8443), ""),
        ]),
    }
}

#[test]
fn containers_are_shown_with_short_ids_and_ports() {
    assert_eq!(
        container_info(&summary()),
        ContainerInfo {
            id: "0123456789ab".to_string(),
            name: "web".to_string(),
            image: "nginx:1".to_string(),
            state: "running".to_string(),
            status: "Up 2 hours".to_string(),
            ports: "8080:80, 8443:443".to_string(),
        }
    );
    let nothing = ContainerSummary {
        id: None,
        names: None,
        image: None,
        state: None,
        status: None,
        ports: None,
    };
    assert_eq!(
        container_info(&nothing),
        ContainerInfo {
            id: String::new(),
            name: String::new(),
            image: String::new(),
            state: String::new(),
            status: String::new(),
            ports: String::new(),
        }
    );
    let short = ContainerSummary {
        id: Some("abc".to_string()),
        names: Some(vec![]),
        ..nothing
    };
    assert_eq!(container_info(&short).id, "abc");
    assert_eq!(container_info(&short).name, "");
    assert_eq!(published_ports(&vec![]), "");
    assert_eq!(
        all_ports(&summary().ports.unwrap()),
        "127.0.0.1:8080->80/tcp, 53/udp, 0.0.0.0:8443->443/"
    );
    assert_eq!(
        container_table_header(),
        format!(
            "{:<16} {:<24} {:<24} {:<16} {}",
            "CONTAINER ID", "NAME", "IMAGE", "STATUS", "PORTS"
        )
    );
    assert_eq!(
        container_line(&summary()),
        format!(
            "{:<16} {:<24} {:<24} {:<16} {}",
            "0123456789ab",
            "web",
            "nginx:1",
            "Up 2 hours",
            "127.0.0.1:8080->80/tcp, 53/udp, 0.0.0.0:8443->443/"
        )
    );
}

#[test]
fn a_started_container_is_shown_with_its_login_command() {
    assert_eq!(
        run_result("0123456789abcdef", Some("web".to_string()), "nginx".to_string()),
        RunContainerResult {
            id: "0123456789ab".to_string(),
            name: "web".to_string(),
            image: "nginx".to_string(),
            login_cmd: "docker exec -it web /bin/sh".to_string(),
        }
    );
    assert_eq!(
        run_result("0123456789abcdef", None, "nginx".to_string()),
        RunContainerResult {
            id: "0123456789ab".to_string(),
            name: "0123456789ab".to_string(),
            image: "nginx".to_string(),
            login_cmd: "docker exec -it 0123456789ab /bin/sh".to_string(),
        }
    );
    assert_eq!(nano_cpus(0), 0);
    assert_eq!(nano_cpus(2), 2_000_000_000);
    assert_eq!(nano_cpus(u32::MAX), 4_294_967_295_000_000_000);
    assert_eq!(
        run_lines(&run_result("0123456789abcdef", None, "nginx".to_string())),
        vec![
            "Created and started container: 0123456789ab",
            "Login command:",
            "  docker exec -it 0123456789ab /bin/sh",
        ]
    );
    assert_eq!(
        run_lines(&run_result("0123", Some("web".to_string()), "nginx".to_string())),
        vec![
            "Created and started container: web",
            "Login command:",
            "  docker exec -it web /bin/sh",
        ]
    );
    assert_eq!(
        container_done_line(ContainerVerb::Started, "abc"),
        "Started container abc"
    );
    assert_eq!(
        container_done_line(ContainerVerb::Stopped, "abc"),
        "Stopped container abc"
    );
    assert_eq!(
        container_done_line(ContainerVerb::Removed, ""),
        "Removed container "
    );
}

#[test]
fn the_tags_of_a_repository_are_asked_for_and_shown() {
    assert_eq!(
        tags_url("ghcr.io", "org/image"),
        "https://ghcr.io/v2/org/image/tags/list"
    );
    assert_eq!(pull_scope("org/image"), "repository:org/image:pull");
    assert_eq!(tags_header("ghcr.io", "org/image"), "Tags for ghcr.io/org/image:");
    assert_eq!(
        no_tags_line("ghcr.io", "org/image"),
        "No tags found for ghcr.io/org/image."
    );
    assert_eq!(tag_line("ghcr.io", "org/image", "v1.2"), "ghcr.io/org/image:v1.2");
    assert_eq!(tag_line("", "", ""), "/:");
}

#[test]
fn tags_are_shown_in_order_and_only_so_many() {
    let tags = |list: &[&str]| list.iter().map(|t| t.to_string()).collect::<Vec<String>>();
    assert_eq!(
        sorted_tags(tags(&["v2", "latest", "v10", "v1", "1.0", "v1"]), 50),
        tags(&["1.0", "latest", "v1", "v1", "v10", "v2"])
    );
    assert_eq!(
        sorted_tags(tags(&["v2", "latest", "v10", "v1", "1.0", "v1"]), 3),
        tags(&["1.0", "latest", "v1"])
    );
    assert_eq!(sorted_tags(tags(&["b", "a"]), 0), tags(&[]));
    assert_eq!(sorted_tags(tags(&[]), 5), tags(&[]));
    assert_eq!(sorted_tags(tags(&["b", "a"]), 2), tags(&["a", "b"]));

    let mixed = tags(&[
        "z", "", "a", "ab", "a", "Z", "é", "e", "日本", "~", "a\u{10FFFF}", "a\u{0}", "\u{FFFF}",
        "\u{10000}", "10", "9", "aa", "B",
    ]);
    for limit in [0usize, 1, 5, 18, 100] {
        let mut expected = mixed.clone();
        expected.sort();
        expected.truncate(limit);
        assert_eq!(sorted_tags(mixed.clone(), limit), expected, "{}", limit);
    }
}

#[test]
fn found_images_are_shown_in_a_table() {
    let repo = HubRepo {
        name: "nginx".to_string(),
        namespace: None,
        description: None,
        star_count: Some(19000),
        pull_count: None,
        is_official: Some(true),
    };
    let official = dockerhub_result(&repo);
    assert_eq!(
        official,
        ImageSearchResult {
            source: "dockerhub".to_string(),
            reference: "nginx".to_string(),
            description: String::new(),
            stars: Some(19000),
            pulls: None,
            official: true,
        }
    );
    let library = HubRepo {
        namespace: Some("library".to_string()),
        ..repo
    };
    assert_eq!(dockerhub_result(&library).reference, "nginx");
    let other = HubRepo {
        name: "nginx".to_string(),
        namespace: Some("bitnami".to_string()),
        description: Some("d".repeat(100)),
        star_count: None,
        pull_count: Some(5),
        is_official: None,
    };
    let found = dockerhub_result(&other);
    assert_eq!(found.reference, "bitnami/nginx");
    assert!(!found.official);

    assert_eq!(
        image_table_header(),
        format!(
            "{:<10} {:<48} {:>7} {:>12}  {}",
            "SOURCE", "IMAGE", "STARS", "PULLS", "DESCRIPTION"
        )
    );
    assert_eq!(
        image_line(&official),
        format!(
            "{:<10} {:<48} {:>7} {:>12}  {}",
            "dockerhub", "nginx (official)", "19000", "-", ""
        )
    );
    assert_eq!(
        image_line(&found),
        format!(
            "{:<10} {:<48} {:>7} {:>12}  {}",
            "dockerhub",
            "bitnami/nginx",
            "-",
            "5",
            format!("{}\u{2026}", "d".repeat(79))
        )
    );
}

#[test]
fn a_search_goes_to_the_sources_that_are_named() {
    let both = SearchSources {
        dockerhub: true,
        quay: true,
    };
    let hub = SearchSources {
        dockerhub: true,
        quay: false,
    };
    let quay = SearchSources {
        dockerhub: false,
        quay: true,
    };
    assert_eq!(search_sources("all"), Ok(both));
    assert_eq!(search_sources("ALL"), Ok(both));
    assert_eq!(search_sources("dockerhub"), Ok(hub));
    assert_eq!(search_sources("Hub"), Ok(hub));
    assert_eq!(search_sources("docker"), Ok(hub));
    assert_eq!(search_sources("quay"), Ok(quay));
    assert_eq!(search_sources("ghcr"), Err("Unknown source: ghcr".to_string()));
    assert_eq!(search_sources(""), Err("Unknown source: ".to_string()));
}

#[test]
fn the_engine_is_found_where_it_listens() {
    let seen = |paths: &[&str]| Host {
        existing_paths: paths.iter().map(|p| p.to_string()).collect(),
        ..Host::bare()
    };
    assert_eq!(
        socket_places("/home/me"),
        vec![
            "/home/me/.colima/default/docker.sock",
            "/home/me/.orbstack/run/docker.sock",
            "/var/run/docker.sock",
            "/home/me/.docker/run/docker.sock",
        ]
    );
    assert_eq!(detect_docker_socket("/home/me", &Host::bare()), None);
    assert_eq!(
        detect_docker_socket(
            "/home/me",
            &seen(&["/var/run/docker.sock", "/home/me/.docker/run/docker.sock"])
        ),
        Some("/var/run/docker.sock".to_string())
    );
    assert_eq!(
        detect_docker_socket(
            "/home/me",
            &seen(&["/var/run/docker.sock", "/home/me/.orbstack/run/docker.sock"])
        ),
        Some("/home/me/.orbstack/run/docker.sock".to_string())
    );
    assert_eq!(
        detect_docker_socket("", &seen(&["/.colima/default/docker.sock"])),
        Some("/.colima/default/docker.sock".to_string())
    );
    assert_eq!(
        detect_docker_socket("/home/me", &seen(&["/home/me/.docker/run/docker.sock"])),
        Some("/home/me/.docker/run/docker.sock".to_string())
    );
    assert_eq!(
        docker_host_for_cli(Some("tcp://h:1".to_string()), Some("/s".to_string())),
        Some("tcp://h:1".to_string())
    );
    assert_eq!(
        docker_host_for_cli(None, Some("/var/run/docker.sock".to_string())),
        Some("unix:///var/run/docker.sock".to_string())
    );
    assert_eq!(docker_host_for_cli(None, None), None);
}
