use cargobay::hypervisor::{
    Host, Hypervisor, HypervisorError, SharedDirectory, Started, VmConfig, VmInfo, VmState,
};
use cargobay::service::{
    status_from_error, SharedDirectoryDto, Status, StatusCode, VmServiceImpl,
};
use cargobay::vm::StubHypervisor;

fn config(name: &str, cpus: u32, memory_mb: u64, disk_gb: u64) -> VmConfig {
    VmConfig {
        name: name.to_string(),
        cpus,
        memory_mb,
        disk_gb,
        rosetta: false,
        shared_dirs: vec![],
    }
}

fn host_with(paths: &[&str]) -> Host {
    Host {
        existing_paths: paths.iter().map(|p| p.to_string()).collect(),
        ..Host::bare()
    }
}

fn code_share() -> SharedDirectoryDto {
    SharedDirectoryDto {
        tag: "code".to_string(),
        host_path: "/tmp".to_string(),
        guest_path: "/mnt/code".to_string(),
        read_only: false,
    }
}

#[test]
fn grpc_vm_lifecycle_and_mounts() {
    let host = host_with(&["/tmp"]);
    let mut service = VmServiceImpl::new(StubHypervisor::new(Vec::new()));

    let created = service
        .create_vm(config("testvm", 2, 256, 1), &host)
        .expect("create");
    service.settle(Ok(())).expect("save");
    assert!(created.starts_with("stub-"), "unexpected vm id: {}", created);

    service.start_vm("testvm", &host).expect("start by name");
    service.settle(Ok(())).expect("save");

    let vms = service.list_v_ms(&host).expect("list");
    assert_eq!(vms.len(), 1);
    assert_eq!(vms[0].name, "testvm");
    assert_eq!(vms[0].state, "running");

    service
        .mount_virtio_fs(&created, Some(code_share()), &host)
        .expect("mount");
    service.settle(Ok(())).expect("save");

    let mounts = service
        .list_virtio_fs_mounts("testvm", &host)
        .expect("list mounts by name");
    assert_eq!(mounts.len(), 1);
    assert_eq!(mounts[0].tag, "code");

    service.stop_vm(&created, &host).expect("stop");
    service.settle(Ok(())).expect("save");

    let status = service.get_vm_status("testvm", &host).expect("status");
    assert_eq!(status.status, "stopped");
}

#[test]
fn end_to_end_create_start_mount_stop_delete() {
    let host = host_with(&["/tmp"]);
    let mut service = VmServiceImpl::new(StubHypervisor::new(Vec::new()));

    let id = service
        .create_vm(config("web", 2, 2048, 20), &host)
        .expect("create");
    assert_eq!(id, "stub-1");
    service.settle(Ok(())).expect("save");

    assert_eq!(service.start_vm("web", &host), Ok(Started::Running));
    service.settle(Ok(())).expect("save");
    let status = service.get_vm_status("stub-1", &host).expect("status");
    assert_eq!(status.status, "running");
    assert_eq!(status.vm_id, "stub-1");
    assert_eq!(status.disk_gb, 20);
    assert!(!status.rosetta_enabled);
    assert_eq!(status.shared_dirs, vec![]);

    service
        .mount_virtio_fs("stub-1", Some(code_share()), &host)
        .expect("mount");
    service.settle(Ok(())).expect("save");
    let shares = service.list_virtio_fs_mounts("web", &host).expect("shares");
    assert_eq!(shares, vec![code_share()]);

    service.stop_vm("stub-1", &host).expect("stop");
    service.settle(Ok(())).expect("save");
    let status = service.get_vm_status("stub-1", &host).expect("status");
    assert_eq!(status.status, "stopped");
    assert_eq!(status.vm_id, "stub-1");
    assert_eq!(status.disk_gb, 20);
    assert!(!status.rosetta_enabled);
    assert_eq!(status.shared_dirs, vec![code_share()]);

    service.delete_vm("web", &host).expect("delete");
    service.settle(Ok(())).expect("save");
    assert_eq!(service.list_v_ms(&host).expect("list"), vec![]);
}

#[test]
fn create_rejects_a_name_in_use_and_changes_nothing() {
    let host = Host::bare();
    let mut hv = StubHypervisor::new(Vec::new());
    assert_eq!(hv.create_vm(config("web", 1, 1, 1), &host), Ok("stub-1".to_string()));
    assert_eq!(hv.settle(Ok(())), Ok(()));
    let before = hv.list_vms(&host).expect("list");

    let again = hv.create_vm(config("web", 4, 4, 4), &host);
    assert_eq!(
        again,
        Err(HypervisorError::CreateFailed(
            "VM name already exists: web".to_string()
        ))
    );
    assert!(!hv.needs_save());
    assert_eq!(hv.list_vms(&host).expect("list"), before);

    assert_eq!(hv.create_vm(config("db", 1, 1, 1), &host), Ok("stub-2".to_string()));
}

#[test]
fn mount_rejects_a_tag_in_use_and_changes_nothing() {
    let host = host_with(&["/a", "/b"]);
    let mut hv = StubHypervisor::new(Vec::new());
    let id = hv.create_vm(config("web", 1, 1, 1), &host).expect("create");
    hv.settle(Ok(())).expect("save");
    let share = SharedDirectory {
        tag: "code".to_string(),
        host_path: "/a".to_string(),
        guest_path: "/mnt/a".to_string(),
        read_only: true,
    };
    assert_eq!(hv.mount_virtiofs(&id, &share, &host), Ok(()));
    hv.settle(Ok(())).expect("save");
    let before = hv.list_virtiofs_mounts(&id).expect("mounts");
    assert_eq!(before, vec![share.clone()]);

    let other = SharedDirectory {
        tag: "code".to_string(),
        host_path: "/b".to_string(),
        guest_path: "/mnt/b".to_string(),
        read_only: false,
    };
    assert_eq!(
        hv.mount_virtiofs(&id, &other, &host),
        Err(HypervisorError::VirtioFsError(
            "Mount tag already exists: code".to_string()
        ))
    );
    assert!(!hv.needs_save());
    assert_eq!(hv.list_virtiofs_mounts(&id).expect("mounts"), before);
}

#[test]
fn starting_a_running_machine_changes_no_record() {
    let host = Host::bare();
    let mut hv = StubHypervisor::new(Vec::new());
    let id = hv.create_vm(config("web", 1, 1, 1), &host).expect("create");
    hv.settle(Ok(())).expect("save");
    assert_eq!(hv.start_vm(&id, &host), Ok(Started::Running));
    hv.settle(Ok(())).expect("save");
    let running = hv.persist();

    assert_eq!(hv.start_vm(&id, &host), Ok(Started::Running));
    assert_eq!(hv.persist(), running);
    assert!(!hv.needs_save());
    hv.settle(Ok(())).expect("save");
    assert_eq!(hv.persist(), running);
    assert_eq!(hv.take_effects(), vec![]);

    assert_eq!(hv.create_vm(config("db", 1, 1, 1), &host), Ok("stub-2".to_string()));
    hv.settle(Ok(())).expect("save");
    hv.delete_vm("stub-2").expect("delete");
    hv.settle(Ok(())).expect("save");
    assert_eq!(hv.create_vm(config("db", 1, 1, 1), &host), Ok("stub-3".to_string()));
}

#[test]
fn unknown_ids_are_not_found() {
    let host = host_with(&["/"]);
    let mut hv = StubHypervisor::new(Vec::new());
    let missing = || HypervisorError::NotFound("stub-9".to_string());
    assert_eq!(hv.start_vm("stub-9", &host), Err(missing()));
    assert_eq!(hv.stop_vm("stub-9"), Err(missing()));
    assert_eq!(hv.delete_vm("stub-9"), Err(missing()));
    assert_eq!(hv.unmount_virtiofs("stub-9", "code"), Err(missing()));
    assert_eq!(hv.list_virtiofs_mounts("stub-9"), Err(missing()));
    let share = SharedDirectory {
        tag: "t".to_string(),
        host_path: "/".to_string(),
        guest_path: "/".to_string(),
        read_only: false,
    };
    assert_eq!(hv.mount_virtiofs("stub-9", &share, &host), Err(missing()));
    assert!(!hv.needs_save());
}

#[test]
fn a_failed_save_puts_the_records_back() {
    let host = host_with(&["/"]);
    let mut hv = StubHypervisor::new(Vec::new());
    let disk_full = || HypervisorError::Storage("disk full".to_string());

    let id = hv.create_vm(config("web", 1, 1, 1), &host).expect("create");
    assert!(hv.needs_save());
    assert_eq!(hv.settle(Err(disk_full())), Err(disk_full()));
    assert_eq!(hv.list_vms(&host).expect("list"), vec![]);
    assert!(!hv.needs_save());

    let id2 = hv.create_vm(config("web", 1, 1, 1), &host).expect("create");
    assert_eq!(id, "stub-1");
    assert_eq!(id2, "stub-2");
    hv.settle(Ok(())).expect("save");
    let saved = hv.list_vms(&host).expect("list");

    hv.start_vm(&id2, &host).expect("start");
    assert_eq!(hv.list_vms(&host).expect("list")[0].state, VmState::Running);
    assert_eq!(hv.settle(Err(disk_full())), Err(disk_full()));
    assert_eq!(hv.list_vms(&host).expect("list"), saved);

    hv.delete_vm(&id2).expect("delete");
    assert_eq!(hv.list_vms(&host).expect("list"), vec![]);
    assert_eq!(hv.settle(Err(disk_full())), Err(disk_full()));
    assert_eq!(hv.list_vms(&host).expect("list"), saved);

    let share = SharedDirectory {
        tag: "t".to_string(),
        host_path: "/".to_string(),
        guest_path: "/".to_string(),
        read_only: false,
    };
    hv.mount_virtiofs(&id2, &share, &host).expect("mount");
    assert_eq!(hv.settle(Err(disk_full())), Err(disk_full()));
    assert_eq!(hv.list_vms(&host).expect("list"), saved);

    hv.mount_virtiofs(&id2, &share, &host).expect("mount");
    hv.settle(Ok(())).expect("save");
    let with_share = hv.list_vms(&host).expect("list");
    hv.unmount_virtiofs(&id2, "t").expect("unmount");
    assert_eq!(hv.list_virtiofs_mounts(&id2), Ok(vec![]));
    assert_eq!(hv.settle(Err(disk_full())), Err(disk_full()));
    assert_eq!(hv.list_vms(&host).expect("list"), with_share);
}

#[test]
fn loaded_records_start_stopped_and_numbering_goes_on() {
    let loaded = vec![
        VmInfo {
            id: "stub-7".to_string(),
            name: "seven".to_string(),
            state: VmState::Running,
            cpus: 1,
            memory_mb: 2,
            disk_gb: 3,
            rosetta_enabled: false,
            shared_dirs: vec![],
        },
        VmInfo {
            id: "kvm-30".to_string(),
            name: "other".to_string(),
            state: VmState::Creating,
            cpus: 1,
            memory_mb: 2,
            disk_gb: 3,
            rosetta_enabled: false,
            shared_dirs: vec![],
        },
    ];
    let host = Host::bare();
    let mut hv = StubHypervisor::new(loaded);
    let vms = hv.list_vms(&host).expect("list");
    assert_eq!(vms.len(), 2);
    assert_eq!(vms[0].state, VmState::Stopped);
    assert_eq!(vms[1].state, VmState::Stopped);
    assert_eq!(hv.create_vm(config("new", 1, 1, 1), &host), Ok("stub-8".to_string()));
    let file = hv.persist();
    assert_eq!(file.version, 1);
    assert_eq!(file.vms.len(), 3);
    assert_eq!(file.vms[2].id, "stub-8");
    assert_eq!(file.vms[2].state, VmState::Stopped);
}

#[test]
fn statuses_stand_for_errors() {
    let status = |code, message: &str| Status {
        code,
        message: message.to_string(),
    };
    assert_eq!(
        status_from_error(HypervisorError::NotFound("vm-1".to_string())),
        status(StatusCode::NotFound, "VM not found: vm-1")
    );
    assert_eq!(
        status_from_error(HypervisorError::Unsupported),
        status(StatusCode::Unimplemented, "unsupported platform")
    );
    assert_eq!(
        status_from_error(HypervisorError::RosettaUnavailable("no".to_string())),
        status(StatusCode::FailedPrecondition, "no")
    );
    assert_eq!(
        status_from_error(HypervisorError::VirtioFsError("tag".to_string())),
        status(StatusCode::FailedPrecondition, "tag")
    );
    assert_eq!(
        status_from_error(HypervisorError::CreateFailed("name".to_string())),
        status(StatusCode::FailedPrecondition, "name")
    );
    assert_eq!(
        status_from_error(HypervisorError::Storage("full".to_string())),
        status(StatusCode::Internal, "storage error: full")
    );
    assert_eq!(
        status_from_error(HypervisorError::Io("broken pipe".to_string())),
        status(StatusCode::Internal, "io error: broken pipe")
    );
}

#[test]
fn selectors_resolve_by_id_and_by_name() {
    let host = Host::bare();
    let mut service = VmServiceImpl::new(StubHypervisor::new(Vec::new()));
    service.create_vm(config("web", 1, 1, 1), &host).expect("create");
    service.create_vm(config("db", 1, 1, 1), &host).expect("create");
    service.settle(Ok(())).expect("save");

    assert_eq!(service.resolve_vm_id("stub-2", &host), Ok("stub-2".to_string()));
    assert_eq!(service.resolve_vm_id("db", &host), Ok("stub-2".to_string()));
    assert_eq!(service.resolve_vm_id("web", &host), Ok("stub-1".to_string()));
    assert_eq!(
        service.resolve_vm_id("nope", &host),
        Err(Status {
            code: StatusCode::NotFound,
            message: "VM not found: nope".to_string()
        })
    );
    assert_eq!(
        service.start_vm("nope", &host),
        Err(Status {
            code: StatusCode::NotFound,
            message: "VM not found: nope".to_string()
        })
    );
}

#[test]
fn an_id_wins_over_a_name() {
    let host = Host::bare();
    let mut service = VmServiceImpl::new(StubHypervisor::new(Vec::new()));
    service.create_vm(config("stub-2", 1, 1, 1), &host).expect("create");
    service.create_vm(config("db", 1, 1, 1), &host).expect("create");
    service.settle(Ok(())).expect("save");
    service.start_vm("db", &host).expect("start");
    service.settle(Ok(())).expect("save");

    assert_eq!(service.resolve_vm_id("stub-2", &host), Ok("stub-2".to_string()));
    let status = service.get_vm_status("stub-2", &host).expect("status");
    assert_eq!(status.vm_id, "stub-2");
    assert_eq!(status.status, "running");
    let status = service.get_vm_status("stub-1", &host).expect("status");
    assert_eq!(status.vm_id, "stub-1");
    assert_eq!(status.status, "stopped");
    assert_eq!(
        service.get_vm_status("db", &host).expect("status").vm_id,
        "stub-2"
    );
    assert_eq!(
        service.get_vm_status("nope", &host),
        Err(Status {
            code: StatusCode::NotFound,
            message: "VM not found: nope".to_string()
        })
    );

    service.stop_vm("stub-2", &host).expect("stop by id");
    service.settle(Ok(())).expect("save");
    let listed = service.list_v_ms(&host).expect("list");
    assert_eq!(listed[0].state, "stopped");
    assert_eq!(listed[1].state, "stopped");
}

#[test]
fn the_stub_refuses_a_host_path_that_does_not_exist() {
    let bare = Host::bare();
    let mut hv = StubHypervisor::new(Vec::new());
    assert_eq!(hv.create_vm(config("web", 1, 1, 1), &bare), Ok("stub-1".to_string()));
    hv.settle(Ok(())).expect("save");

    let share = SharedDirectory {
        tag: "x".to_string(),
        host_path: "/nonexistent/cargobay-no-such-dir".to_string(),
        guest_path: "/mnt/x".to_string(),
        read_only: false,
    };
    let refusal = || {
        HypervisorError::VirtioFsError(
            "Host path does not exist: /nonexistent/cargobay-no-such-dir".to_string(),
        )
    };
    assert_eq!(hv.mount_virtiofs("stub-1", &share, &bare), Err(refusal()));
    assert_eq!(hv.mount_virtiofs("stub-9", &share, &bare), Err(refusal()));
    assert!(!hv.needs_save());
    assert_eq!(hv.list_virtiofs_mounts("stub-1"), Ok(vec![]));

    let mut with_share = config("db", 1, 1, 1);
    with_share.shared_dirs = vec![share.clone()];
    assert_eq!(hv.create_vm(with_share, &bare), Err(refusal()));
    let mut taken = config("web", 1, 1, 1);
    taken.shared_dirs = vec![share.clone()];
    assert_eq!(hv.create_vm(taken, &bare), Err(refusal()));
    assert!(!hv.needs_save());
    assert_eq!(hv.list_vms(&bare).expect("list").len(), 1);

    let seen = host_with(&["/nonexistent/cargobay-no-such-dir"]);
    let mut with_share = config("db", 1, 1, 1);
    with_share.shared_dirs = vec![share.clone()];
    assert_eq!(hv.create_vm(with_share, &seen), Ok("stub-2".to_string()));
    hv.settle(Ok(())).expect("save");
    assert_eq!(hv.list_virtiofs_mounts("stub-2"), Ok(vec![share.clone()]));
    assert_eq!(hv.mount_virtiofs("stub-1", &share, &seen), Ok(()));
    assert_eq!(hv.list_virtiofs_mounts("stub-1"), Ok(vec![share]));
}

#[test]
fn a_mount_without_a_share_is_an_invalid_argument() {
    let host = Host::bare();
    let mut service = VmServiceImpl::new(StubHypervisor::new(Vec::new()));
    service.create_vm(config("web", 1, 1, 1), &host).expect("create");
    service.settle(Ok(())).expect("save");
    assert_eq!(
        service.mount_virtio_fs("web", None, &host),
        Err(Status {
            code: StatusCode::InvalidArgument,
            message: "share is required".to_string()
        })
    );
    assert_eq!(
        service.settle(Err(HypervisorError::Storage("full".to_string()))),
        Err(Status {
            code: StatusCode::Internal,
            message: "storage error: full".to_string()
        })
    );
}
