use cargobay::hypervisor::{
    Arg, Effect, Host, Hypervisor, HypervisorError, Launch, RunnerCommand, SharedDirectory,
    Started, VmConfig, VmInfo, VmState,
};
use cargobay::linux::LinuxHypervisor;
use cargobay::macos::{MacOSHypervisor, Recovered};
use cargobay::platform::{create_hypervisor, platform_info, AnyHypervisor, Platform};
use cargobay::supervisor::{Runner, RunnerState};
use cargobay::vm::StubHypervisor;
use cargobay::windows::WindowsHypervisor;

fn share(tag: &str, host_path: &str) -> SharedDirectory {
    SharedDirectory {
        tag: tag.to_string(),
        host_path: host_path.to_string(),
        guest_path: format!("/mnt/{}", tag),
        read_only: false,
    }
}

fn config(name: &str, rosetta: bool, shared_dirs: Vec<SharedDirectory>) -> VmConfig {
    VmConfig {
        name: name.to_string(),
        cpus: 4,
        memory_mb: 4096,
        disk_gb: 8,
        rosetta,
        shared_dirs,
    }
}

fn fit_host(paths: &[&str]) -> Host {
    Host {
        accelerator: true,
        translation: true,
        existing_paths: paths.iter().map(|p| p.to_string()).collect(),
        ..Host::bare()
    }
}

fn vm(id: &str, name: &str, state: VmState) -> VmInfo {
    VmInfo {
        id: id.to_string(),
        name: name.to_string(),
        state,
        cpus: 4,
        memory_mb: 4096,
        disk_gb: 8,
        rosetta_enabled: false,
        shared_dirs: vec![],
    }
}

fn storage() -> HypervisorError {
    HypervisorError::Storage("disk full".to_string())
}

#[test]
fn default_config_is_a_small_machine() {
    let config = VmConfig::default();
    assert_eq!(config.name, "default");
    assert_eq!(config.cpus, 2);
    assert_eq!(config.memory_mb, 2048);
    assert_eq!(config.disk_gb, 20);
    assert!(!config.rosetta);
    assert!(config.shared_dirs.is_empty());
    assert_eq!(cargobay::hypervisor::default_disk_gb(), 20);
}

#[test]
fn linux_checks_the_host_before_the_name() {
    let mut hv = LinuxHypervisor::new(vec![vm("kvm-1", "web", VmState::Running)]);

    assert_eq!(
        hv.create_vm(config("web", true, vec![share("a", "/gone")]), &Host::bare()),
        Err(HypervisorError::CreateFailed(
            "KVM not available. Ensure /dev/kvm exists and you have permissions.".to_string()
        ))
    );
    assert_eq!(
        hv.create_vm(config("web", true, vec![share("a", "/gone")]), &fit_host(&[])),
        Err(HypervisorError::RosettaUnavailable(
            "Rosetta is only available on macOS Apple Silicon. Use QEMU user-mode for x86_64 emulation on Linux.".to_string()
        ))
    );
    assert_eq!(
        hv.create_vm(
            config("web", false, vec![share("a", "/here"), share("b", "/gone"), share("c", "/lost")]),
            &fit_host(&["/here"])
        ),
        Err(HypervisorError::VirtioFsError(
            "Host path does not exist: /gone".to_string()
        ))
    );
    assert_eq!(
        hv.create_vm(config("web", false, vec![share("a", "/here")]), &fit_host(&["/here"])),
        Err(HypervisorError::CreateFailed(
            "VM name already exists: web".to_string()
        ))
    );
    assert!(!hv.needs_save());
    assert_eq!(
        hv.list_vms(&Host::bare()),
        Ok(vec![vm("kvm-1", "web", VmState::Stopped)])
    );

    assert_eq!(
        hv.create_vm(config("db", false, vec![share("a", "/here")]), &fit_host(&["/here"])),
        Ok("kvm-2".to_string())
    );
    assert!(hv.needs_save());
    assert_eq!(hv.settle(Ok(())), Ok(()));
    let vms = hv.list_vms(&Host::bare()).expect("list");
    assert_eq!(vms.len(), 2);
    assert_eq!(vms[1].id, "kvm-2");
    assert_eq!(vms[1].state, VmState::Stopped);
    assert_eq!(vms[1].shared_dirs, vec![share("a", "/here")]);
    assert!(!hv.rosetta_available(&fit_host(&[])));
    assert!(LinuxHypervisor::kvm_available(&fit_host(&[])));
    assert!(!LinuxHypervisor::kvm_available(&Host::bare()));
}

#[test]
fn linux_mount_checks_the_path_first() {
    let mut hv = LinuxHypervisor::new(vec![vm("kvm-1", "web", VmState::Stopped)]);
    assert_eq!(
        hv.mount_virtiofs("kvm-9", &share("a", "/gone"), &fit_host(&[])),
        Err(HypervisorError::VirtioFsError(
            "Host path does not exist: /gone".to_string()
        ))
    );
    assert_eq!(
        hv.mount_virtiofs("kvm-9", &share("a", "/here"), &fit_host(&["/here"])),
        Err(HypervisorError::NotFound("kvm-9".to_string()))
    );
    assert_eq!(
        hv.mount_virtiofs("kvm-1", &share("a", "/here"), &fit_host(&["/here"])),
        Ok(())
    );
    assert_eq!(hv.settle(Ok(())), Ok(()));
    assert_eq!(
        hv.mount_virtiofs("kvm-1", &share("a", "/here"), &fit_host(&["/here"])),
        Err(HypervisorError::VirtioFsError(
            "Mount tag already exists: a".to_string()
        ))
    );
    assert_eq!(
        hv.mount_virtiofs("kvm-1", &share("b", "/here"), &fit_host(&["/here"])),
        Ok(())
    );
    assert_eq!(hv.settle(Ok(())), Ok(()));
    assert_eq!(hv.unmount_virtiofs("kvm-1", "a"), Ok(()));
    assert_eq!(hv.settle(Ok(())), Ok(()));
    assert_eq!(
        hv.list_virtiofs_mounts("kvm-1"),
        Ok(vec![share("b", "/here")])
    );
    assert_eq!(hv.unmount_virtiofs("kvm-1", "never there"), Ok(()));
    assert!(hv.needs_save());
}

#[test]
fn windows_checks_the_host_before_the_name() {
    let mut hv = WindowsHypervisor::new(vec![]);
    assert_eq!(
        hv.create_vm(config("web", false, vec![]), &Host::bare()),
        Err(HypervisorError::CreateFailed(
            "Hyper-V not available. Enable Hyper-V in Windows Features (requires Windows 10 Pro+ or Windows 11).".to_string()
        ))
    );
    assert_eq!(
        hv.create_vm(config("web", true, vec![]), &fit_host(&[])),
        Err(HypervisorError::RosettaUnavailable(
            "Rosetta is only available on macOS Apple Silicon. Windows ARM uses its own x86 emulation.".to_string()
        ))
    );
    assert_eq!(
        hv.create_vm(config("web", false, vec![share("a", "C:\\gone")]), &fit_host(&[])),
        Err(HypervisorError::VirtioFsError(
            "Host path does not exist: C:\\gone".to_string()
        ))
    );
    assert_eq!(
        hv.create_vm(config("web", false, vec![]), &fit_host(&[])),
        Ok("hv-1".to_string())
    );
    assert_eq!(hv.settle(Err(storage())), Err(storage()));
    assert_eq!(hv.list_vms(&Host::bare()), Ok(vec![]));
    assert_eq!(
        hv.create_vm(config("web", false, vec![]), &fit_host(&[])),
        Ok("hv-2".to_string())
    );
    assert!(WindowsHypervisor::hyperv_available(&fit_host(&[])));
}

#[test]
fn windows_finds_the_engine_where_it_listens() {
    let profile = "C:\\Users\\me";
    assert_eq!(
        WindowsHypervisor::detect_docker_socket(&Host::bare(), profile),
        None
    );
    assert_eq!(
        WindowsHypervisor::detect_docker_socket(
            &fit_host(&["//./pipe/dockerDesktopLinuxEngine", "//./pipe/docker_engine"]),
            profile
        ),
        Some("//./pipe/docker_engine".to_string())
    );
    assert_eq!(
        WindowsHypervisor::detect_docker_socket(
            &fit_host(&["//./pipe/dockerDesktopLinuxEngine"]),
            profile
        ),
        Some("//./pipe/dockerDesktopLinuxEngine".to_string())
    );
    let below = "C:\\Users\\me\\\\.docker\\run\\docker.sock";
    assert_eq!(
        WindowsHypervisor::detect_docker_socket(&fit_host(&[below]), profile),
        Some(below.to_string())
    );
}

#[test]
fn the_platform_picks_the_backend() {
    assert_eq!(platform_info(Platform::MacOs), "macOS (Virtualization.framework)");
    assert_eq!(platform_info(Platform::Linux), "Linux (KVM)");
    assert_eq!(platform_info(Platform::Windows), "Windows (Hyper-V)");
    assert_eq!(platform_info(Platform::Other), "Unknown (Stub)");

    let host = fit_host(&[]);
    let expected = [
        (Platform::MacOs, "vz-1"),
        (Platform::Linux, "kvm-1"),
        (Platform::Windows, "hv-1"),
        (Platform::Other, "stub-1"),
    ];
    for (platform, id) in expected {
        let mut hv = create_hypervisor(platform, vec![], vec![]);
        assert_eq!(
            hv.create_vm(config("web", false, vec![]), &host),
            Ok(id.to_string())
        );
        assert!(hv.needs_save());
        assert_eq!(hv.rosetta_available(&host), platform == Platform::MacOs);
    }
    assert!(matches!(
        create_hypervisor(Platform::Other, vec![], vec![]),
        AnyHypervisor::Stub(_)
    ));
}

#[test]
fn only_the_backend_of_macos_deals_with_processes() {
    let host = fit_host(&[]);
    for platform in [Platform::Linux, Platform::Windows, Platform::Other] {
        let loaded = vec![vm("old-7", "kept", VmState::Running)];
        let mut hv = create_hypervisor(platform, loaded, vec![]);
        assert!(hv.supervised().is_empty());
        assert_eq!(hv.take_effects(), vec![]);
        assert_eq!(
            hv.list_vms(&host).expect("list"),
            vec![vm("old-7", "kept", VmState::Stopped)]
        );
        assert_eq!(hv.start_vm("old-7", &host), Ok(Started::Running));
        assert_eq!(hv.settle(Ok(())), Ok(()));
        assert_eq!(
            hv.launch_finished("old-7", Launch::Ready(5)),
            Err(HypervisorError::Unsupported)
        );
        assert_eq!(
            hv.launch_finished("none", Launch::TimedOut),
            Err(HypervisorError::Unsupported)
        );
        assert!(!hv.needs_save());
        assert_eq!(hv.stop_vm("old-7"), Ok(()));
        assert_eq!(hv.settle(Ok(())), Ok(()));
        assert_eq!(hv.delete_vm("old-7"), Ok(()));
        assert_eq!(hv.settle(Ok(())), Ok(()));
        assert_eq!(hv.take_effects(), vec![]);
    }

    let loaded = vec![
        vm("vz-1", "alive", VmState::Stopped),
        vm("vz-2", "gone", VmState::Running),
    ];
    let found = vec![Recovered {
        id: "vz-1".to_string(),
        pid: 41,
    }];
    let mut hv = create_hypervisor(Platform::MacOs, loaded, found);
    assert_eq!(
        hv.supervised(),
        vec![Runner {
            id: "vz-1".to_string(),
            state: RunnerState {
                pid: Some(41),
                owned: false
            },
        }]
    );
    assert_eq!(
        hv.take_effects(),
        vec![Effect::RemoveRunnerFiles("vz-2".to_string())]
    );
    assert_eq!(
        hv.list_vms(&host).expect("list"),
        vec![
            vm("vz-1", "alive", VmState::Running),
            vm("vz-2", "gone", VmState::Stopped),
        ]
    );
    assert_eq!(hv.stop_vm("vz-1"), Ok(()));
    assert_eq!(
        hv.take_effects(),
        vec![
            Effect::KillPid(41),
            Effect::RemoveRunnerFiles("vz-1".to_string()),
        ]
    );
    assert_eq!(hv.take_effects(), vec![]);
}

#[test]
fn starting_a_machine_that_runs_asks_for_no_save() {
    let host = fit_host(&[]);
    for platform in [Platform::Linux, Platform::Windows, Platform::Other] {
        let mut hv = create_hypervisor(platform, vec![vm("m-1", "web", VmState::Stopped)], vec![]);
        assert_eq!(hv.start_vm("m-1", &host), Ok(Started::Running));
        assert!(hv.needs_save());
        assert_eq!(hv.settle(Ok(())), Ok(()));
        let running = hv.list_vms(&host).expect("list");
        assert_eq!(running, vec![vm("m-1", "web", VmState::Running)]);

        assert_eq!(hv.start_vm("m-1", &host), Ok(Started::Running));
        assert!(!hv.needs_save());
        assert_eq!(hv.settle(Err(storage())), Err(storage()));
        assert_eq!(hv.list_vms(&host).expect("list"), running);

        assert_eq!(hv.stop_vm("m-1"), Ok(()));
        assert_eq!(hv.start_vm("m-1", &host), Ok(Started::Running));
        assert!(hv.needs_save());
        assert_eq!(hv.settle(Err(storage())), Err(storage()));
        assert_eq!(
            hv.list_vms(&host).expect("list"),
            vec![vm("m-1", "web", VmState::Stopped)]
        );
    }
}

#[test]
fn a_backend_without_processes_launches_nothing() {
    let host = Host::bare();
    let mut hv = StubHypervisor::new(vec![]);
    let id = hv.create_vm(config("web", false, vec![]), &host).expect("create");
    assert_eq!(hv.settle(Ok(())), Ok(()));
    assert_eq!(hv.start_vm(&id, &host), Ok(Started::Running));
    assert_eq!(hv.settle(Ok(())), Ok(()));
    assert_eq!(
        hv.launch_finished(&id, Launch::Ready(1)),
        Err(HypervisorError::Unsupported)
    );
    assert!(!hv.needs_save());
    assert_eq!(hv.take_effects(), vec![]);
    assert!(!hv.rosetta_available(&fit_host(&[])));
}

fn mac(loaded: Vec<VmInfo>, found: Vec<(&str, u32)>) -> MacOSHypervisor {
    MacOSHypervisor::new(
        loaded,
        found
            .into_iter()
            .map(|(id, pid)| Recovered {
                id: id.to_string(),
                pid,
            })
            .collect(),
    )
}

fn launch_host(id: &str) -> Host {
    Host {
        kernel: Some("/boot/vmlinuz".to_string()),
        disks: vec![id.to_string()],
        ..fit_host(&[])
    }
}

#[test]
fn macos_recovers_the_processes_that_outlived_it() {
    let mut hv = mac(
        vec![
            vm("vz-1", "alive", VmState::Stopped),
            vm("vz-2", "gone", VmState::Running),
        ],
        vec![("vz-1", 4711), ("vz-9", 1)],
    );
    assert_eq!(
        hv.take_effects(),
        vec![Effect::RemoveRunnerFiles("vz-2".to_string())]
    );
    assert_eq!(
        hv.supervised(),
        vec![Runner {
            id: "vz-1".to_string(),
            state: RunnerState {
                pid: Some(4711),
                owned: false
            }
        }]
    );
    let vms = hv.list_vms(&Host::bare()).expect("list");
    assert_eq!(vms[0].state, VmState::Running);
    assert_eq!(vms[1].state, VmState::Stopped);
    assert_eq!(hv.take_effects(), vec![]);
    assert!(!hv.needs_save());
    assert_eq!(
        hv.create_vm(config("new", false, vec![]), &fit_host(&[])),
        Ok("vz-3".to_string())
    );
}

#[test]
fn macos_create_asks_for_a_disk_and_cleans_up_after_a_failed_save() {
    let mut hv = mac(vec![], vec![]);
    assert_eq!(
        hv.create_vm(config("web", true, vec![]), &Host::bare()),
        Err(HypervisorError::RosettaUnavailable(
            "Rosetta is only available on Apple Silicon Macs with macOS 13+".to_string()
        ))
    );
    assert_eq!(
        hv.create_vm(config("web", false, vec![share("a", "/gone")]), &fit_host(&[])),
        Err(HypervisorError::VirtioFsError(
            "Host path does not exist: /gone".to_string()
        ))
    );
    let mut huge = config("web", false, vec![]);
    huge.disk_gb = 17_179_869_184;
    assert_eq!(
        hv.create_vm(huge, &fit_host(&[])),
        Err(HypervisorError::CreateFailed("disk size overflow".to_string()))
    );
    assert_eq!(hv.take_effects(), vec![]);

    let mut fits = config("web", true, vec![]);
    fits.disk_gb = 17_179_869_183;
    assert_eq!(hv.create_vm(fits, &fit_host(&[])), Ok("vz-1".to_string()));
    assert_eq!(
        hv.take_effects(),
        vec![Effect::CreateDisk(
            "vz-1".to_string(),
            17_179_869_183 * 1_073_741_824
        )]
    );
    assert_eq!(
        hv.settle(Err(HypervisorError::Io("no space".to_string()))),
        Err(HypervisorError::Io("no space".to_string()))
    );
    assert_eq!(
        hv.take_effects(),
        vec![Effect::RemoveVmDir("vz-1".to_string())]
    );
    assert_eq!(hv.list_vms(&Host::bare()), Ok(vec![]));

    assert_eq!(
        hv.create_vm(config("web", true, vec![]), &fit_host(&[])),
        Ok("vz-2".to_string())
    );
    assert_eq!(
        hv.take_effects(),
        vec![Effect::CreateDisk("vz-2".to_string(), 8 * 1_073_741_824)]
    );
    assert_eq!(hv.settle(Ok(())), Ok(()));
    assert_eq!(hv.take_effects(), vec![]);
    let vms = hv.list_vms(&Host::bare()).expect("list");
    assert_eq!(vms.len(), 1);
    assert!(vms[0].rosetta_enabled);
    assert!(hv.rosetta_available(&fit_host(&[])));
    assert!(!hv.rosetta_available(&Host::bare()));
}

#[test]
fn macos_start_asks_for_a_launch_and_takes_note_of_it() {
    let mut hv = mac(vec![vm("vz-1", "web", VmState::Stopped)], vec![]);
    hv.take_effects();

    assert_eq!(
        hv.start_vm("vz-7", &launch_host("vz-7")),
        Err(HypervisorError::NotFound("vz-7".to_string()))
    );
    assert_eq!(
        hv.start_vm("vz-1", &fit_host(&[])),
        Err(HypervisorError::CreateFailed(
            "CARGOBAY_VZ_KERNEL is required to start a macOS VZ VM".to_string()
        ))
    );
    assert_eq!(
        hv.start_vm("vz-1", &launch_host("vz-2")),
        Err(HypervisorError::CreateFailed(
            "VM disk image not found: vms/vz-1/disk.raw".to_string()
        ))
    );
    let elsewhere = Host {
        data_dir: "/Users/me/Library/Application Support/com.cargobay.app".to_string(),
        ..launch_host("vz-2")
    };
    assert_eq!(
        hv.start_vm("vz-1", &elsewhere),
        Err(HypervisorError::CreateFailed(
            "VM disk image not found: /Users/me/Library/Application Support/com.cargobay.app/vms/vz-1/disk.raw"
                .to_string()
        ))
    );
    assert_eq!(hv.take_effects(), vec![]);

    let text = |s: &str| Arg::Text(s.to_string());
    assert_eq!(
        hv.start_vm("vz-1", &launch_host("vz-1")),
        Ok(Started::Launch(RunnerCommand {
            vm_id: "vz-1".to_string(),
            args: vec![
                text("--kernel"),
                text("/boot/vmlinuz"),
                text("--disk"),
                Arg::DiskPath,
                text("--cpus"),
                text("4"),
                text("--memory-mb"),
                text("4096"),
                text("--cmdline"),
                text("console=hvc0"),
                text("--ready-file"),
                Arg::ReadyMarkerPath,
            ],
        }))
    );
    assert_eq!(
        hv.take_effects(),
        vec![Effect::RemoveReadyMarker("vz-1".to_string())]
    );
    assert!(!hv.needs_save());

    let with_options = Host {
        initrd: Some("/boot/initrd".to_string()),
        cmdline: Some("console=ttyS0 quiet".to_string()),
        ..launch_host("vz-1")
    };
    match hv.start_vm("vz-1", &with_options) {
        Ok(Started::Launch(command)) => {
            assert_eq!(command.args[9], text("console=ttyS0 quiet"));
            assert_eq!(command.args[12], text("--initrd"));
            assert_eq!(command.args[13], text("/boot/initrd"));
            assert_eq!(command.args.len(), 14);
        }
        other => panic!("expected a launch, got {:?}", other),
    }
    hv.take_effects();

    assert_eq!(
        hv.launch_finished("vz-1", Launch::SpawnFailed("no such file".to_string())),
        Err(HypervisorError::Io("no such file".to_string()))
    );
    assert_eq!(
        hv.launch_finished("vz-1", Launch::ExitedEarly("exit status: 2".to_string())),
        Err(HypervisorError::CreateFailed(
            "cargobay-vz exited early: exit status: 2".to_string()
        ))
    );
    assert_eq!(
        hv.launch_finished("vz-1", Launch::TimedOut),
        Err(HypervisorError::CreateFailed(
            "Timed out waiting for VM to start".to_string()
        ))
    );
    assert_eq!(
        hv.launch_finished("vz-8", Launch::Ready(5)),
        Err(HypervisorError::NotFound("vz-8".to_string()))
    );
    assert!(!hv.needs_save());
    assert_eq!(hv.supervised(), vec![]);

    assert_eq!(hv.launch_finished("vz-1", Launch::Ready(900)), Ok(()));
    assert!(hv.needs_save());
    assert_eq!(hv.list_vms(&Host::bare()).expect("list")[0].state, VmState::Running);
    assert_eq!(hv.settle(Err(storage())), Err(storage()));
    assert_eq!(
        hv.take_effects(),
        vec![Effect::KillChild("vz-1".to_string())]
    );
    assert_eq!(hv.supervised(), vec![]);
    assert_eq!(hv.list_vms(&Host::bare()).expect("list")[0].state, VmState::Stopped);

    assert_eq!(hv.launch_finished("vz-1", Launch::Ready(901)), Ok(()));
    assert_eq!(hv.settle(Ok(())), Ok(()));
    assert_eq!(
        hv.take_effects(),
        vec![Effect::WritePidFile("vz-1".to_string(), 901)]
    );
    assert_eq!(
        hv.supervised(),
        vec![Runner {
            id: "vz-1".to_string(),
            state: RunnerState {
                pid: Some(901),
                owned: true
            }
        }]
    );
}

#[test]
fn macos_start_of_a_running_machine_launches_nothing() {
    let mut hv = mac(vec![vm("vz-1", "web", VmState::Running)], vec![("vz-1", 77)]);
    hv.take_effects();
    let before = hv.list_vms(&Host::bare()).expect("list");

    assert_eq!(hv.start_vm("vz-1", &Host::bare()), Ok(Started::Running));
    assert_eq!(hv.take_effects(), vec![]);
    assert!(!hv.needs_save());
    assert_eq!(hv.list_vms(&Host::bare()), Ok(before));
    assert_eq!(hv.persist().vms[0].state, VmState::Running);
}

#[test]
fn macos_start_forgets_a_dead_process_before_it_launches() {
    let mut hv = mac(vec![vm("vz-1", "web", VmState::Running)], vec![("vz-1", 77)]);
    hv.take_effects();
    let host = Host {
        dead_runners: vec!["vz-1".to_string()],
        ..launch_host("vz-1")
    };
    assert!(matches!(hv.start_vm("vz-1", &host), Ok(Started::Launch(_))));
    assert_eq!(
        hv.take_effects(),
        vec![
            Effect::RemoveRunnerFiles("vz-1".to_string()),
            Effect::RemoveReadyMarker("vz-1".to_string()),
        ]
    );
    assert_eq!(hv.supervised(), vec![]);
}

#[test]
fn macos_list_stops_machines_whose_process_is_gone() {
    let mut hv = mac(
        vec![
            vm("vz-1", "dead", VmState::Running),
            vm("vz-2", "alive", VmState::Running),
            vm("vz-3", "never ran", VmState::Stopped),
        ],
        vec![("vz-1", 10), ("vz-2", 20)],
    );
    hv.take_effects();
    let host = Host {
        dead_runners: vec!["vz-1".to_string(), "vz-3".to_string()],
        ..Host::bare()
    };
    let vms = hv.list_vms(&host).expect("list");
    assert_eq!(vms[0].state, VmState::Stopped);
    assert_eq!(vms[1].state, VmState::Running);
    assert_eq!(vms[2].state, VmState::Stopped);
    assert_eq!(
        hv.take_effects(),
        vec![
            Effect::RemoveRunnerFiles("vz-1".to_string()),
            Effect::Save(vms.clone()),
        ]
    );
    assert!(!hv.needs_save());
    assert_eq!(
        hv.supervised(),
        vec![Runner {
            id: "vz-2".to_string(),
            state: RunnerState {
                pid: Some(20),
                owned: false
            }
        }]
    );

    assert_eq!(hv.list_vms(&host), Ok(vms));
    assert_eq!(hv.take_effects(), vec![]);
}

#[test]
fn macos_list_stops_machines_whose_child_has_exited() {
    let mut hv = mac(vec![vm("vz-1", "web", VmState::Stopped)], vec![]);
    hv.take_effects();
    assert_eq!(hv.launch_finished("vz-1", Launch::Ready(33)), Ok(()));
    assert_eq!(hv.settle(Ok(())), Ok(()));
    hv.take_effects();

    let host = Host {
        exited_children: vec!["vz-1".to_string()],
        ..Host::bare()
    };
    let vms = hv.list_vms(&host).expect("list");
    assert_eq!(vms[0].state, VmState::Stopped);
    assert_eq!(
        hv.take_effects(),
        vec![
            Effect::RemoveRunnerFiles("vz-1".to_string()),
            Effect::Save(vms),
        ]
    );
    assert_eq!(hv.supervised(), vec![]);
}

#[test]
fn macos_stop_kills_and_a_failed_save_brings_the_pid_back() {
    let mut hv = mac(vec![vm("vz-1", "web", VmState::Running)], vec![("vz-1", 55)]);
    hv.take_effects();

    assert_eq!(
        hv.stop_vm("vz-2"),
        Err(HypervisorError::NotFound("vz-2".to_string()))
    );
    assert_eq!(hv.stop_vm("vz-1"), Ok(()));
    assert_eq!(
        hv.take_effects(),
        vec![
            Effect::KillPid(55),
            Effect::RemoveRunnerFiles("vz-1".to_string()),
        ]
    );
    assert_eq!(hv.supervised(), vec![]);
    assert_eq!(hv.settle(Err(storage())), Err(storage()));
    assert_eq!(hv.take_effects(), vec![]);
    assert_eq!(hv.list_vms(&Host::bare()).expect("list")[0].state, VmState::Running);
    assert_eq!(
        hv.supervised(),
        vec![Runner {
            id: "vz-1".to_string(),
            state: RunnerState {
                pid: Some(55),
                owned: false
            }
        }]
    );

    assert_eq!(hv.stop_vm("vz-1"), Ok(()));
    assert_eq!(hv.settle(Ok(())), Ok(()));
    assert_eq!(hv.list_vms(&Host::bare()).expect("list")[0].state, VmState::Stopped);
    assert_eq!(hv.supervised(), vec![]);

    hv.take_effects();
    assert_eq!(hv.stop_vm("vz-1"), Ok(()));
    assert_eq!(
        hv.take_effects(),
        vec![Effect::RemoveRunnerFiles("vz-1".to_string())]
    );
}

#[test]
fn macos_stop_of_a_child_kills_the_child() {
    let mut hv = mac(vec![vm("vz-1", "web", VmState::Stopped)], vec![]);
    hv.take_effects();
    assert_eq!(hv.launch_finished("vz-1", Launch::Ready(33)), Ok(()));
    assert_eq!(hv.settle(Ok(())), Ok(()));
    hv.take_effects();

    assert_eq!(hv.stop_vm("vz-1"), Ok(()));
    assert_eq!(
        hv.take_effects(),
        vec![
            Effect::KillChild("vz-1".to_string()),
            Effect::RemoveRunnerFiles("vz-1".to_string()),
        ]
    );
    assert_eq!(hv.settle(Err(storage())), Err(storage()));
    assert_eq!(
        hv.supervised(),
        vec![Runner {
            id: "vz-1".to_string(),
            state: RunnerState {
                pid: Some(33),
                owned: false
            }
        }]
    );
}

#[test]
fn macos_delete_stops_first_and_removes_the_directory_once_saved() {
    let mut hv = mac(
        vec![
            vm("vz-1", "web", VmState::Running),
            vm("vz-2", "db", VmState::Stopped),
        ],
        vec![("vz-1", 55)],
    );
    hv.take_effects();

    assert_eq!(
        hv.delete_vm("vz-3"),
        Err(HypervisorError::NotFound("vz-3".to_string()))
    );
    assert_eq!(hv.take_effects(), vec![]);

    assert_eq!(hv.delete_vm("vz-1"), Ok(()));
    assert_eq!(
        hv.take_effects(),
        vec![
            Effect::KillPid(55),
            Effect::RemoveRunnerFiles("vz-1".to_string()),
            Effect::Save(vec![
                vm("vz-1", "web", VmState::Stopped),
                vm("vz-2", "db", VmState::Stopped),
            ]),
        ]
    );
    assert_eq!(
        hv.list_vms(&Host::bare()),
        Ok(vec![vm("vz-2", "db", VmState::Stopped)])
    );
    assert_eq!(hv.settle(Err(storage())), Err(storage()));
    assert_eq!(hv.take_effects(), vec![]);
    assert_eq!(
        hv.list_vms(&Host::bare()),
        Ok(vec![
            vm("vz-1", "web", VmState::Stopped),
            vm("vz-2", "db", VmState::Stopped),
        ])
    );

    assert_eq!(hv.delete_vm("vz-1"), Ok(()));
    hv.take_effects();
    assert_eq!(hv.settle(Ok(())), Ok(()));
    assert_eq!(
        hv.take_effects(),
        vec![Effect::RemoveVmDir("vz-1".to_string())]
    );
    assert_eq!(
        hv.list_vms(&Host::bare()),
        Ok(vec![vm("vz-2", "db", VmState::Stopped)])
    );
}

#[test]
fn macos_shares_need_their_host_path() {
    let mut hv = mac(vec![vm("vz-1", "web", VmState::Stopped)], vec![]);
    hv.take_effects();
    assert_eq!(
        hv.mount_virtiofs("vz-1", &share("a", "/gone"), &fit_host(&[])),
        Err(HypervisorError::VirtioFsError(
            "Host path does not exist: /gone".to_string()
        ))
    );
    assert_eq!(
        hv.mount_virtiofs("vz-1", &share("a", "/here"), &fit_host(&["/here"])),
        Ok(())
    );
    assert_eq!(hv.settle(Err(storage())), Err(storage()));
    assert_eq!(hv.list_virtiofs_mounts("vz-1"), Ok(vec![]));
    assert_eq!(
        hv.mount_virtiofs("vz-1", &share("a", "/here"), &fit_host(&["/here"])),
        Ok(())
    );
    assert_eq!(hv.settle(Ok(())), Ok(()));
    assert_eq!(hv.unmount_virtiofs("vz-1", "a"), Ok(()));
    assert_eq!(hv.settle(Err(storage())), Err(storage()));
    assert_eq!(
        hv.list_virtiofs_mounts("vz-1"),
        Ok(vec![share("a", "/here")])
    );
    assert_eq!(hv.take_effects(), vec![]);
}
