use cargobay::client::{
    choose_binary, connect_failure_message, connect_timeout_message, daemon_bin_name,
    daemon_file_name, daemon_path, grpc_addr, grpc_endpoint, resolve_vm_id_grpc,
    resolve_vm_id_local, spawn_daemon, spawn_daemon_detached_failure, spawn_failure,
    vz_runner_path, wait_timeout_message, Action, Candidate, ConnectPolicy, Connector,
    DaemonSource, Event, SpawnPlan,
};
use cargobay::dirs::{config_dir, data_dir, log_dir, DirEnv, Location};
use cargobay::hypervisor::{Host, Hypervisor, HypervisorError, Launch, VmConfig};
use cargobay::logging::{is_stale_log, log_cutoff, log_retention_days, RunOnce};
use cargobay::platform::Platform;
use cargobay::service::VmInfoDto;
use cargobay::supervisor::{
    is_whitespace, join_path, pid_alive, poll_launch, read_pid_file, trim_bounds,
    vm_console_log_path, vm_dir, vm_disk_path, vm_disk_path_text, vm_runner_pid_path,
    vm_runner_ready_path, RunnerState, SignalProbe,
    Supervision, LAUNCH_DEADLINE_MS, LAUNCH_POLL_MS,
};
use cargobay::vm::StubHypervisor;

#[test]
fn a_process_that_may_not_be_signalled_is_alive() {
    assert!(pid_alive(SignalProbe::Delivered));
    assert!(pid_alive(SignalProbe::NotPermitted));
    assert!(!pid_alive(SignalProbe::Refused));
}

#[test]
fn white_space_is_what_the_standard_library_calls_so() {
    for code in 0u32..0x3100 {
        if let Some(c) = char::from_u32(code) {
            assert_eq!(is_whitespace(c), c.is_whitespace(), "U+{:04X}", code);
        }
    }
    assert!(!is_whitespace('\u{FEFF}'));
    assert!(!is_whitespace('\u{200B}'));
}

#[test]
fn trimming_finds_the_text_between_the_white_space() {
    for text in ["", " ", "  a b \t\n", "x", "\u{3000}pid\u{85}", "   ", "a  "] {
        let chars: Vec<char> = text.chars().collect();
        let (from, to) = trim_bounds(&chars);
        let trimmed: String = chars[from..to].iter().collect();
        assert_eq!(trimmed, text.trim(), "{:?}", text);
    }
}

#[test]
fn a_pid_file_names_a_process() {
    assert_eq!(read_pid_file("4711\n"), Some(4711));
    assert_eq!(read_pid_file("  12 \r\n"), Some(12));
    assert_eq!(read_pid_file("+12"), Some(12));
    assert_eq!(read_pid_file("0"), Some(0));
    assert_eq!(read_pid_file("4294967295"), Some(u32::MAX));
    assert_eq!(read_pid_file("4294967296"), None);
    assert_eq!(read_pid_file(""), None);
    assert_eq!(read_pid_file("\n"), None);
    assert_eq!(read_pid_file("12 34"), None);
    assert_eq!(read_pid_file("-1"), None);
    assert_eq!(read_pid_file("pid"), None);
}

#[test]
fn a_launch_is_judged_by_marker_exit_and_deadline() {
    assert_eq!(LAUNCH_DEADLINE_MS, 30_000);
    assert_eq!(LAUNCH_POLL_MS, 200);
    let gone = || Some("exit status: 1".to_string());

    assert_eq!(poll_launch(7, false, None, 0), None);
    assert_eq!(poll_launch(7, false, None, 29_999), None);
    assert_eq!(poll_launch(7, false, None, 30_000), Some(Launch::TimedOut));
    assert_eq!(poll_launch(7, false, None, u64::MAX), Some(Launch::TimedOut));
    assert_eq!(
        poll_launch(7, false, gone(), 100),
        Some(Launch::ExitedEarly("exit status: 1".to_string()))
    );
    assert_eq!(
        poll_launch(7, false, gone(), 40_000),
        Some(Launch::ExitedEarly("exit status: 1".to_string()))
    );
    assert_eq!(poll_launch(7, true, None, 0), Some(Launch::Ready(7)));
    assert_eq!(poll_launch(7, true, gone(), 40_000), Some(Launch::Ready(7)));
}

#[test]
fn a_machine_keeps_its_files_below_the_data_directory() {
    assert_eq!(vm_dir("vz-1"), vec!["vms", "vz-1"]);
    assert_eq!(vm_disk_path("vz-1"), vec!["vms", "vz-1", "disk.raw"]);
    assert_eq!(vm_console_log_path("vz-1"), vec!["vms", "vz-1", "console.log"]);
    assert_eq!(vm_runner_pid_path("vz-2"), vec!["vms", "vz-2", "runner.pid"]);
    assert_eq!(vm_runner_ready_path("vz-2"), vec!["vms", "vz-2", "runner.ready"]);
}

#[test]
fn a_path_is_written_below_its_directory() {
    assert_eq!(join_path("/data", "vms"), "/data/vms");
    assert_eq!(join_path("/data/", "vms"), "/data/vms");
    assert_eq!(join_path("", "vms"), "vms");
    assert_eq!(join_path("/", "vms"), "/vms");
    assert_eq!(join_path("/data", "/abs"), "/abs");
    assert_eq!(join_path("/data", ""), "/data/");
    assert_eq!(join_path("rel", "a/b"), "rel/a/b");
    let std_join = |dir: &str, part: &str| {
        std::path::Path::new(dir).join(part).display().to_string()
    };
    if std::path::MAIN_SEPARATOR == '/' {
        for (dir, part) in [
            ("/data", "vms"),
            ("/data/", "vms"),
            ("", "vms"),
            ("/", "vms"),
            ("/data", "/abs"),
            ("/data", ""),
            ("rel", "a/b"),
        ] {
            assert_eq!(join_path(dir, part), std_join(dir, part), "{:?} {:?}", dir, part);
        }
    }
    assert_eq!(vm_disk_path_text("/data", "vz-1"), "/data/vms/vz-1/disk.raw");
    assert_eq!(vm_disk_path_text("", "vz-1"), "vms/vz-1/disk.raw");
}

#[test]
fn the_table_of_processes_keeps_one_entry_for_each_machine() {
    let none = RunnerState {
        pid: None,
        owned: false,
    };
    let mut table = Supervision::new();
    assert_eq!(table.get("vz-1"), none);
    assert_eq!(table.supervised(), vec![]);

    let first = RunnerState {
        pid: Some(1),
        owned: false,
    };
    let second = RunnerState {
        pid: Some(2),
        owned: true,
    };
    table.set("vz-1", first);
    table.set("vz-2", second);
    table.set("vz-1", second);
    assert_eq!(table.get("vz-1"), second);
    assert_eq!(table.get("vz-2"), second);
    assert_eq!(table.get("vz-3"), none);
    assert_eq!(table.supervised().len(), 2);

    let copy = table.snapshot();
    table.set("vz-2", none);
    assert_eq!(table.get("vz-2"), none);
    assert_eq!(copy.get("vz-2"), second);
    let left = table.supervised();
    assert_eq!(left.len(), 1);
    assert_eq!(left[0].id, "vz-1");
    assert_eq!(left[0].state, second);
}

#[test]
fn an_address_becomes_an_endpoint() {
    assert_eq!(grpc_addr(None), "127.0.0.1:50051");
    assert_eq!(grpc_addr(Some("[::1]:9".to_string())), "[::1]:9");
    assert_eq!(grpc_endpoint("127.0.0.1:50051"), "http://127.0.0.1:50051");
    assert_eq!(grpc_endpoint("http://host:1"), "http://host:1");
    assert_eq!(grpc_endpoint("https://host:1"), "https://host:1");
    assert_eq!(grpc_endpoint("HTTP://host:1"), "http://HTTP://host:1");
    assert_eq!(grpc_endpoint("http:/host"), "http://http:/host");
    assert_eq!(grpc_endpoint(""), "http://");
    assert_eq!(
        connect_timeout_message("host:1"),
        "Timed out connecting to daemon at http://host:1"
    );
    assert_eq!(
        connect_failure_message("host:1", "refused"),
        "Failed to connect to daemon at http://host:1: refused"
    );
    assert_eq!(
        wait_timeout_message("https://host:1"),
        "Timed out waiting for daemon to become ready at https://host:1"
    );
}

#[test]
fn daemon_path_prefers_cargobay_daemon_path_env() {
    let fake = "/tmp/cargobay-cli-test/fake-daemon".to_string();
    let resolved = daemon_path(
        Some(fake.clone()),
        Some("/usr/bin/cargobay-daemon".to_string()),
        Platform::Linux,
    );
    assert_eq!(resolved, fake);
}

#[test]
fn the_service_is_looked_for_beside_the_executable_and_on_the_path() {
    assert_eq!(daemon_file_name(Platform::Windows), "cargobay-daemon.exe");
    assert_eq!(daemon_file_name(Platform::Linux), "cargobay-daemon");
    assert_eq!(daemon_file_name(Platform::MacOs), "cargobay-daemon");
    assert_eq!(daemon_bin_name(Platform::Other), "cargobay-daemon");
    assert_eq!(daemon_bin_name(Platform::Windows), "cargobay-daemon.exe");

    assert_eq!(
        daemon_path(None, Some("/opt/bin/cargobay-daemon".to_string()), Platform::Linux),
        "/opt/bin/cargobay-daemon"
    );
    assert_eq!(daemon_path(None, None, Platform::Linux), "cargobay-daemon");
    assert_eq!(daemon_path(None, None, Platform::Windows), "cargobay-daemon.exe");
    assert_eq!(vz_runner_path(None, None), "cargobay-vz");
    assert_eq!(
        vz_runner_path(Some("/x/vz".to_string()), Some("/y/vz".to_string())),
        "/x/vz"
    );
    assert_eq!(choose_binary(None, Some("b".to_string()), "c"), "b");
}

#[test]
fn the_graphical_front_end_plans_how_to_start_the_service() {
    let candidate = |is_file| {
        Some(Candidate {
            path: "/app/cargobay-daemon".to_string(),
            is_file,
        })
    };
    let configured = spawn_daemon(Some("/cfg/daemon".to_string()), candidate(true));
    assert_eq!(
        configured,
        SpawnPlan {
            program: "/cfg/daemon".to_string(),
            source: DaemonSource::Configured,
            tried: vec![],
        }
    );
    assert_eq!(
        spawn_failure(&configured, "denied"),
        "Failed to spawn daemon from CARGOBAY_DAEMON_PATH (/cfg/daemon): denied"
    );

    let adjacent = spawn_daemon(None, candidate(true));
    assert_eq!(adjacent.source, DaemonSource::Adjacent);
    assert_eq!(adjacent.program, "/app/cargobay-daemon");
    assert_eq!(
        spawn_failure(&adjacent, "denied"),
        "Failed to spawn daemon next to GUI binary (/app/cargobay-daemon): denied"
    );

    let searched = spawn_daemon(None, candidate(false));
    assert_eq!(searched.source, DaemonSource::SearchPath);
    assert_eq!(searched.program, "cargobay-daemon");
    assert_eq!(
        spawn_failure(&searched, "not found"),
        "Failed to spawn daemon (tried: /app/cargobay-daemon, cargobay-daemon (PATH)): not found"
    );

    let blind = spawn_daemon(None, None);
    assert_eq!(
        spawn_failure(&blind, "not found"),
        "Failed to spawn daemon (tried: cargobay-daemon (PATH)): not found"
    );
    assert_eq!(
        spawn_daemon_detached_failure("cargobay-daemon", "not found"),
        "Failed to spawn cargobay-daemon: not found"
    );
}

fn walk(policy: ConnectPolicy, events: &[(Event, u64)]) -> (Connector, Vec<Action>) {
    let mut state = Connector::new();
    let mut actions = vec![];
    for (event, since_spawn) in events {
        actions.push(state.step(policy, *event, *since_spawn));
    }
    (state, actions)
}

#[test]
fn a_service_that_answers_is_used() {
    let (state, actions) = walk(
        ConnectPolicy::cli(),
        &[(Event::Begin, 0), (Event::Connected, 0)],
    );
    assert_eq!(actions, vec![Action::Connect(1000), Action::UseRemote]);
    assert_eq!(state, Connector::Remote);
    assert!(state.is_settled());
}

#[test]
fn a_service_that_does_not_answer_is_started_and_waited_for() {
    let (state, actions) = walk(
        ConnectPolicy::cli(),
        &[
            (Event::Begin, 0),
            (Event::Unreachable, 0),
            (Event::Spawned, 0),
            (Event::Unreachable, 200),
            (Event::Slept, 300),
            (Event::Unreachable, 4_999),
            (Event::Slept, 5_099),
            (Event::Connected, 5_200),
        ],
    );
    assert_eq!(
        actions,
        vec![
            Action::Connect(1000),
            Action::Spawn,
            Action::Connect(200),
            Action::Sleep(100),
            Action::Connect(200),
            Action::Sleep(100),
            Action::Connect(200),
            Action::UseRemote,
        ]
    );
    assert_eq!(state, Connector::Remote);
}

#[test]
fn an_unreachable_service_leaves_the_local_backend() {
    let (state, actions) = walk(
        ConnectPolicy::cli(),
        &[(Event::Begin, 0), (Event::Unreachable, 0), (Event::SpawnFailed, 0)],
    );
    assert_eq!(actions[2], Action::UseLocal);
    assert_eq!(state, Connector::Local);

    let (state, actions) = walk(
        ConnectPolicy::gui(),
        &[
            (Event::Begin, 0),
            (Event::Unreachable, 0),
            (Event::Spawned, 0),
            (Event::Unreachable, 1_000),
            (Event::Slept, 1_200),
            (Event::Unreachable, 5_000),
        ],
    );
    assert_eq!(
        actions,
        vec![
            Action::Connect(1000),
            Action::Spawn,
            Action::Connect(1000),
            Action::Sleep(200),
            Action::Connect(1000),
            Action::UseLocal,
        ]
    );
    assert_eq!(state, Connector::Local);
    assert!(state.is_settled());
}

#[test]
fn an_event_out_of_place_ends_with_the_local_backend() {
    let mut state = Connector::new();
    assert!(!state.is_settled());
    assert_eq!(
        state.step(ConnectPolicy::cli(), Event::Slept, 0),
        Action::UseLocal
    );
    assert_eq!(state, Connector::Local);
    assert_eq!(
        state.step(ConnectPolicy::cli(), Event::Connected, 0),
        Action::UseLocal
    );
    let mut remote = Connector::Remote;
    assert_eq!(
        remote.step(ConnectPolicy::cli(), Event::Unreachable, 9_999),
        Action::UseRemote
    );
    assert_eq!(remote, Connector::Remote);
}

fn listed(id: &str, name: &str) -> VmInfoDto {
    VmInfoDto {
        id: id.to_string(),
        name: name.to_string(),
        state: "stopped".to_string(),
        cpus: 1,
        memory_mb: 1,
        disk_gb: 1,
        rosetta_enabled: false,
        mounts: vec![],
    }
}

#[test]
fn selectors_resolve_against_a_listing_and_a_local_backend() {
    let vms = vec![listed("kvm-1", "web"), listed("kvm-2", "db"), listed("kvm-3", "db")];
    assert_eq!(resolve_vm_id_grpc(&vms, "kvm-2"), Ok("kvm-2".to_string()));
    assert_eq!(resolve_vm_id_grpc(&vms, "web"), Ok("kvm-1".to_string()));
    assert_eq!(resolve_vm_id_grpc(&vms, "db"), Ok("kvm-2".to_string()));
    assert_eq!(
        resolve_vm_id_grpc(&vms, "nope"),
        Err("VM not found: nope".to_string())
    );
    assert_eq!(
        resolve_vm_id_grpc(&vec![], ""),
        Err("VM not found: ".to_string())
    );

    let host = Host::bare();
    let mut hv = StubHypervisor::new(vec![]);
    let config = VmConfig {
        name: "web".to_string(),
        ..VmConfig::default()
    };
    hv.create_vm(config, &host).expect("create");
    hv.settle(Ok(())).expect("save");
    assert_eq!(
        resolve_vm_id_local(&mut hv, "web", &host),
        Ok("stub-1".to_string())
    );
    assert_eq!(
        resolve_vm_id_local(&mut hv, "stub-1", &host),
        Ok("stub-1".to_string())
    );
    assert_eq!(
        resolve_vm_id_local(&mut hv, "db", &host),
        Err(HypervisorError::NotFound("db".to_string()))
    );
}

fn env(platform: Platform) -> DirEnv {
    DirEnv {
        platform,
        config_dir: None,
        data_dir: None,
        log_dir: None,
        home: Some("/home/me".to_string()),
        xdg_config_home: None,
        xdg_data_home: None,
        appdata: Some("C:\\Users\\me\\AppData".to_string()),
        temp_dir: "/tmp".to_string(),
    }
}

fn location(root: &str, parts: &[&str]) -> Location {
    Location {
        root: root.to_string(),
        parts: parts.iter().map(|p| p.to_string()).collect(),
    }
}

#[test]
fn directories_follow_the_platform() {
    let mac = env(Platform::MacOs);
    let app = location("/home/me", &["Library", "Application Support", "com.cargobay.app"]);
    assert_eq!(config_dir(&mac), app);
    assert_eq!(data_dir(&mac), app);
    assert_eq!(log_dir(&mac), app);

    let linux = env(Platform::Linux);
    assert_eq!(config_dir(&linux), location("/home/me", &[".config", "cargobay"]));
    assert_eq!(
        data_dir(&linux),
        location("/home/me", &[".local", "share", "cargobay"])
    );
    assert_eq!(log_dir(&linux), data_dir(&linux));

    let desktop = DirEnv {
        xdg_config_home: Some("/xdg/config".to_string()),
        xdg_data_home: Some("/xdg/data".to_string()),
        ..env(Platform::Linux)
    };
    assert_eq!(config_dir(&desktop), location("/xdg/config", &["cargobay"]));
    assert_eq!(data_dir(&desktop), location("/xdg/data", &["cargobay"]));

    let windows = env(Platform::Windows);
    let appdata = location("C:\\Users\\me\\AppData", &["cargobay"]);
    assert_eq!(config_dir(&windows), appdata);
    assert_eq!(data_dir(&windows), appdata);
    assert_eq!(log_dir(&windows), appdata);

    assert_eq!(config_dir(&env(Platform::Other)), location("/tmp", &["cargobay"]));
}

#[test]
fn directories_fall_back_where_nothing_is_known() {
    for platform in [Platform::MacOs, Platform::Linux, Platform::Windows] {
        let bare = DirEnv {
            home: None,
            appdata: None,
            ..env(platform)
        };
        assert_eq!(config_dir(&bare), location("/tmp", &["cargobay"]));
        assert_eq!(data_dir(&bare), location("/tmp", &["cargobay"]));
        assert_eq!(log_dir(&bare), location("/tmp", &["cargobay"]));
    }
}

#[test]
fn configured_directories_win() {
    let configured = DirEnv {
        config_dir: Some("/cfg".to_string()),
        data_dir: Some("/data".to_string()),
        log_dir: Some("/log".to_string()),
        ..env(Platform::Linux)
    };
    assert_eq!(config_dir(&configured), location("/cfg", &[]));
    assert_eq!(data_dir(&configured), location("/data", &[]));
    assert_eq!(log_dir(&configured), location("/log", &[]));

    let only_config = DirEnv {
        config_dir: Some("/cfg".to_string()),
        ..env(Platform::MacOs)
    };
    assert_eq!(data_dir(&only_config), location("/cfg", &[]));
    assert_eq!(log_dir(&only_config), location("/cfg", &[]));

    let only_data = DirEnv {
        data_dir: Some("/data".to_string()),
        ..env(Platform::Linux)
    };
    assert_eq!(log_dir(&only_data), location("/data", &[]));
    assert_eq!(config_dir(&only_data), location("/home/me", &[".config", "cargobay"]));
}

#[test]
fn logs_are_kept_for_a_week_unless_told_otherwise() {
    assert_eq!(log_retention_days(None), 7);
    assert_eq!(log_retention_days(Some("30")), 30);
    assert_eq!(log_retention_days(Some(" 30\n")), 30);
    assert_eq!(log_retention_days(Some("0")), 1);
    assert_eq!(log_retention_days(Some("1")), 1);
    assert_eq!(log_retention_days(Some("365")), 365);
    assert_eq!(log_retention_days(Some("366")), 365);
    assert_eq!(log_retention_days(Some("18446744073709551615")), 365);
    assert_eq!(log_retention_days(Some("18446744073709551616")), 7);
    assert_eq!(log_retention_days(Some("")), 7);
    assert_eq!(log_retention_days(Some("a week")), 7);
    assert_eq!(log_retention_days(Some("-3")), 7);
}

#[test]
fn old_error_logs_are_due_for_removal() {
    assert_eq!(log_cutoff(1_000_000, 7), 1_000_000 - 7 * 86_400);
    assert_eq!(log_cutoff(86_400, 1), 0);
    assert_eq!(log_cutoff(86_401, 1), 1);
    assert_eq!(log_cutoff(100, 7), 0);
    assert_eq!(log_cutoff(u64::MAX, u64::MAX), 0);
    assert_eq!(log_cutoff(u64::MAX, 0), u64::MAX);

    let name = "cargobay-error.log.2024-01-01";
    assert!(is_stale_log(name, true, Some(99), 100));
    assert!(!is_stale_log(name, true, Some(100), 100));
    assert!(!is_stale_log(name, true, None, 100));
    assert!(!is_stale_log(name, false, Some(99), 100));
    assert!(!is_stale_log("cargobay-error.log", true, Some(99), 100));
    assert!(!is_stale_log("cargobay.log.2024-01-01", true, Some(99), 100));
    assert!(is_stale_log("cargobay-error.log.", true, Some(0), 1));
}

#[test]
fn the_set_up_runs_once() {
    let mut guard = RunOnce::new();
    assert!(guard.enter());
    assert!(!guard.enter());
    assert!(!guard.enter());
}
