use iscsi_luks_csi::ops::{
    iscsi_login_commands, literals, mountinfo_entry, publish_host_commands, safe_mapper_name,
    stage_host_commands, unmount_host_commands, CommandArg, FilesystemState, IscsiTarget, PlanError,
    PublishPlan, PublishPlanError, PublishState, SafetyError, SecretSlot, StageDeviceState, StagePlan,
};

fn stage_plan(allow_format: bool) -> StagePlan {
    StagePlan::new(
        IscsiTarget {
            portal: "192.0.2.10:3260".to_string(),
            iqn: "iqn-test".to_string(),
            lun: 1,
        },
        "iscsi-luks-csi",
        "media",
        "ext4",
        allow_format,
    )
    .unwrap()
}

#[test]
fn mapper_name_keeps_safe_ascii() {
    let got = safe_mapper_name("iscsi-luks-csi", "pvc-abc_123.test").unwrap();
    assert_eq!(got, "iscsi-luks-csi-pvc-abc_123.test");
}

#[test]
fn mapper_name_replaces_unsafe_bytes() {
    let got = safe_mapper_name("iscsi-luks-csi", "media/data:0").unwrap();
    assert_eq!(got, "iscsi-luks-csi-media_data_0");
}

#[test]
fn mapper_name_rejects_empty_volume_id() {
    assert!(matches!(
        safe_mapper_name("iscsi-luks-csi", ""),
        Err(SafetyError::EmptyVolumeId)
    ));
}

#[test]
fn stage_commands_refuse_destructive_work_without_allow_format() {
    let plan = stage_plan(false);
    let state = StageDeviceState {
        device_path: "/dev/disk/by-path/ip-192.0.2.10:3260-iscsi-iqn-test-lun-1".to_string(),
        device_matches_target: true,
        luks_header: false,
        raw_filesystem: None,
        mapper_open: false,
        filesystem: FilesystemState::Missing,
        staged: false,
    };

    let got = stage_host_commands(&plan, &state, "/stage").unwrap_err();

    assert_eq!(got, PlanError::MissingLuksHeader);
}

#[test]
fn stage_commands_refuse_destructive_work_on_device_mismatch() {
    let plan = stage_plan(true);
    let state = StageDeviceState {
        device_path: "/dev/disk/by-path/wrong".to_string(),
        device_matches_target: false,
        luks_header: false,
        raw_filesystem: None,
        mapper_open: false,
        filesystem: FilesystemState::Missing,
        staged: false,
    };

    let got = stage_host_commands(&plan, &state, "/stage").unwrap_err();

    assert_eq!(got, PlanError::DeviceMismatch);
}

#[test]
fn stage_commands_plan_first_use_format_open_mkfs_and_mount() {
    let plan = stage_plan(true);
    let state = StageDeviceState {
        device_path: "/dev/disk/by-path/ip-192.0.2.10:3260-iscsi-iqn-test-lun-1".to_string(),
        device_matches_target: true,
        luks_header: false,
        raw_filesystem: None,
        mapper_open: false,
        filesystem: FilesystemState::Missing,
        staged: false,
    };

    let got = stage_host_commands(&plan, &state, "/stage").unwrap();

    assert_eq!(got.len(), 4);
    assert_eq!(got[0].program, "cryptsetup");
    assert!(got[0].args.contains(&CommandArg::Literal("luksFormat".into())));
    assert_eq!(got[0].stdin, Some(SecretSlot::LuksPassphrase));
    assert_eq!(got[2].program, "mkfs.ext4");
    assert_eq!(got[3].program, "mount");
}

#[test]
fn stage_commands_refuse_luks_init_over_plaintext_filesystem() {
    let plan = stage_plan(true);
    let state = StageDeviceState {
        device_path: "/dev/disk/by-path/ip-192.0.2.10:3260-iscsi-iqn-test-lun-1".to_string(),
        device_matches_target: true,
        luks_header: false,
        raw_filesystem: Some("ext4".to_string()),
        mapper_open: false,
        filesystem: FilesystemState::Unknown,
        staged: false,
    };

    let got = stage_host_commands(&plan, &state, "/stage").unwrap_err();

    assert_eq!(got, PlanError::PlaintextFilesystem("ext4".to_string()));
}

#[test]
fn stage_commands_open_existing_luks_before_filesystem_plan() {
    let plan = stage_plan(false);
    let state = StageDeviceState {
        device_path: "/dev/disk/by-path/ip-192.0.2.10:3260-iscsi-iqn-test-lun-1".to_string(),
        device_matches_target: true,
        luks_header: true,
        raw_filesystem: None,
        mapper_open: false,
        filesystem: FilesystemState::Unknown,
        staged: false,
    };

    let got = stage_host_commands(&plan, &state, "/stage").unwrap();

    assert_eq!(got.len(), 1);
    assert_eq!(got[0].program, "cryptsetup");
    assert!(got[0].args.contains(&CommandArg::Literal("open".into())));
}

#[test]
fn stage_commands_skip_ready_steps() {
    let plan = stage_plan(false);
    let state = StageDeviceState {
        device_path: "/dev/disk/by-path/ip-192.0.2.10:3260-iscsi-iqn-test-lun-1".to_string(),
        device_matches_target: true,
        luks_header: true,
        raw_filesystem: None,
        mapper_open: true,
        filesystem: FilesystemState::Present("ext4".to_string()),
        staged: true,
    };

    let got = stage_host_commands(&plan, &state, "/stage").unwrap();

    assert!(got.is_empty());
}

#[test]
fn iscsi_login_commands_include_chap_when_requested() {
    let got = iscsi_login_commands(&stage_plan(false).target, true);

    assert_eq!(got.len(), 5);
    assert_eq!(got[0].program, "iscsiadm");
    assert_eq!(
        got[0].args,
        literals(&[
            "--mode",
            "discovery",
            "--type",
            "sendtargets",
            "--portal",
            "192.0.2.10:3260",
        ])
    );
    assert_eq!(
        got[3].args.last(),
        Some(&CommandArg::Secret(SecretSlot::ChapPassword))
    );
    assert!(got[4].args.contains(&CommandArg::Literal("--login".into())));
}

#[test]
fn mountinfo_matches_escaped_mount_path() {
    let mountinfo = "36 29 0:32 / /var/lib/kubelet/stage\\040one rw,relatime - ext4 /dev/x rw\n";

    assert!(mountinfo_entry(mountinfo, "/var/lib/kubelet/stage one").is_some());
}

#[test]
fn publish_commands_bind_and_remount_readonly() {
    let plan = PublishPlan {
        staging_target_path: "/stage".to_string(),
        target_path: "/target".to_string(),
        readonly: true,
    };
    let state = PublishState {
        target_mounted: false,
        target_readonly: false,
    };

    let got = publish_host_commands(&plan, &state).unwrap();

    assert_eq!(got.len(), 2);
    assert_eq!(got[0].args, literals(&["--bind", "/stage", "/target"]));
    assert_eq!(got[1].args, literals(&["-o", "remount,bind,ro", "/target"]));
}

#[test]
fn publish_commands_skip_already_mounted_readwrite() {
    let plan = PublishPlan {
        staging_target_path: "/stage".to_string(),
        target_path: "/target".to_string(),
        readonly: false,
    };
    let state = PublishState {
        target_mounted: true,
        target_readonly: false,
    };

    let got = publish_host_commands(&plan, &state).unwrap();

    assert!(got.is_empty());
}

#[test]
fn publish_commands_reject_readonly_mount_for_readwrite_request() {
    let plan = PublishPlan {
        staging_target_path: "/stage".to_string(),
        target_path: "/target".to_string(),
        readonly: false,
    };
    let state = PublishState {
        target_mounted: true,
        target_readonly: true,
    };

    let got = publish_host_commands(&plan, &state).unwrap_err();

    assert_eq!(got, PublishPlanError::ReadonlyMismatch);
}

#[test]
fn unmount_commands_only_when_mounted() {
    assert!(unmount_host_commands("/target", false).is_empty());

    let got = unmount_host_commands("/target", true);

    assert_eq!(got.len(), 1);
    assert_eq!(got[0].program, "umount");
    assert_eq!(got[0].args, literals(&["/target"]));
}
