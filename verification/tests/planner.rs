use iscsi_luks_csi::ops::{
    iscsi_base_args, iscsi_login_commands, iscsi_update, literals, safe_mapper_name,
    stage_host_commands, CommandArg, CommandRunError, FilesystemState, HostCommand, IscsiTarget,
    PlanError, SecretSlot, SecretValues, StageDeviceState, StagePlan,
};

fn target() -> IscsiTarget {
    IscsiTarget {
        portal: "192.0.2.10:3260".to_string(),
        iqn: "iqn-test".to_string(),
        lun: 1,
    }
}

fn plan(allow_format: bool, fs_type: &str) -> StagePlan {
    StagePlan::new(target(), "iscsi-luks-csi", "media", fs_type, allow_format).unwrap()
}

fn state(luks_header: bool, mapper_open: bool, filesystem: FilesystemState, staged: bool) -> StageDeviceState {
    StageDeviceState {
        device_path: "/dev/sdb".to_string(),
        device_matches_target: true,
        luks_header,
        raw_filesystem: None,
        mapper_open,
        filesystem,
        staged,
    }
}

#[test]
fn mapper_name_maps_each_utf8_byte() {
    // 'é' is two UTF-8 bytes, each replaced.
    assert_eq!(safe_mapper_name("p", "aé").unwrap(), "p-a__");
    assert_eq!(safe_mapper_name("", "x").unwrap(), "-x");
    assert_eq!(safe_mapper_name("p", " A.Z-9_").unwrap(), "p-_A.Z-9_");
}

#[test]
fn stage_plan_new_derives_mapper_name() {
    let p = plan(true, "xfs");
    assert_eq!(p.mapper_name, "iscsi-luks-csi-media");
    assert_eq!(p.fs_type, "xfs");
    assert!(p.allow_format);
    assert!(StagePlan::new(target(), "x", "", "ext4", true).is_err());
}

#[test]
fn stage_plan_full_command_lines() {
    let got = stage_host_commands(&plan(true, "ext4"), &state(false, false, FilesystemState::Missing, false), "/stage").unwrap();
    assert_eq!(got[0].args, literals(&["luksFormat", "--type", "luks2", "/dev/sdb", "--key-file", "-"]));
    assert_eq!(got[1].program, "cryptsetup");
    assert_eq!(
        got[1].args,
        literals(&["open", "/dev/sdb", "iscsi-luks-csi-media", "--type", "luks2", "--key-file", "-"])
    );
    assert_eq!(got[1].stdin, Some(SecretSlot::LuksPassphrase));
    assert_eq!(got[2].args, literals(&["/dev/mapper/iscsi-luks-csi-media"]));
    assert_eq!(got[2].stdin, None);
    assert_eq!(got[3].args, literals(&["/dev/mapper/iscsi-luks-csi-media", "/stage"]));
}

#[test]
fn stage_refuses_missing_filesystem_without_allow_format() {
    let got = stage_host_commands(&plan(false, "ext4"), &state(true, true, FilesystemState::Missing, false), "/stage");
    assert_eq!(got.unwrap_err(), PlanError::MissingFilesystem);
}

#[test]
fn stage_refuses_filesystem_mismatch() {
    let got = stage_host_commands(
        &plan(false, "ext4"),
        &state(true, true, FilesystemState::Present("xfs".to_string()), false),
        "/stage",
    );
    assert_eq!(
        got.unwrap_err(),
        PlanError::FilesystemMismatch { found: "xfs".to_string(), expected: "ext4".to_string() }
    );
}

#[test]
fn stage_refuses_unsupported_filesystem() {
    let got = stage_host_commands(&plan(true, "xfs"), &state(true, true, FilesystemState::Unknown, false), "/stage");
    assert_eq!(got.unwrap_err(), PlanError::UnsupportedFilesystem("xfs".to_string()));
}

#[test]
fn stage_mounts_opened_existing_filesystem() {
    let got = stage_host_commands(
        &plan(false, "ext4"),
        &state(true, true, FilesystemState::Present("ext4".to_string()), false),
        "/stage",
    )
    .unwrap();
    assert_eq!(got.len(), 1);
    assert_eq!(got[0].program, "mount");
}

#[test]
fn stage_never_formats_over_existing_header() {
    // Header present, filesystem unknown: open only, no luksFormat, no mkfs.
    let got = stage_host_commands(&plan(true, "ext4"), &state(true, false, FilesystemState::Unknown, false), "/stage").unwrap();
    assert_eq!(got.len(), 1);
    assert!(!got[0].args.contains(&CommandArg::Literal("luksFormat".into())));
    for cmd in &got {
        assert!(cmd.args.iter().all(|a| matches!(a, CommandArg::Literal(_))));
    }
}

#[test]
fn login_without_chap_is_discovery_then_login() {
    let got = iscsi_login_commands(&target(), false);
    assert_eq!(got.len(), 2);
    assert_eq!(
        got[1].args,
        literals(&["--mode", "node", "--targetname", "iqn-test", "--portal", "192.0.2.10:3260", "--login"])
    );
    for cmd in &got {
        assert!(cmd.args.iter().all(|a| matches!(a, CommandArg::Literal(_))));
        assert_eq!(cmd.stdin, None);
    }
}

#[test]
fn login_with_chap_sets_method_user_and_password() {
    let got = iscsi_login_commands(&target(), true);
    assert_eq!(
        got[1].args,
        literals(&[
            "--mode", "node", "--targetname", "iqn-test", "--portal", "192.0.2.10:3260", "--op", "update",
            "--name", "node.session.auth.authmethod", "--value", "CHAP",
        ])
    );
    assert_eq!(got[2].args.last(), Some(&CommandArg::Secret(SecretSlot::ChapUsername)));
}

#[test]
fn iscsi_update_appends_value_after_base_args() {
    let cmd = iscsi_update(&target(), "a.b", CommandArg::Literal("v".to_string()));
    let mut expected = iscsi_base_args(&target(), &["--op", "update", "--name", "a.b", "--value"]);
    expected.push(CommandArg::Literal("v".to_string()));
    assert_eq!(cmd.args, expected);
    assert_eq!(cmd.program, "iscsiadm");
}

fn secret_command() -> HostCommand {
    HostCommand {
        program: "iscsiadm".to_string(),
        args: vec![
            CommandArg::Literal("--value".to_string()),
            CommandArg::Secret(SecretSlot::ChapPassword),
            CommandArg::Secret(SecretSlot::ChapUsername),
        ],
        stdin: Some(SecretSlot::LuksPassphrase),
    }
}

#[test]
fn redaction_hides_secret_arguments() {
    let cmd = secret_command();
    assert_eq!(cmd.redacted_args(), vec!["--value", "<redacted>", "<redacted>"]);
    assert_eq!(cmd.redacted_argv(), vec!["iscsiadm", "--value", "<redacted>", "<redacted>"]);
    assert_eq!(cmd.redacted_command_line(), "iscsiadm --value <redacted> <redacted>");
}

#[test]
fn materialized_args_fill_in_secrets_and_agree_with_redaction() {
    let cmd = secret_command();
    let secrets = SecretValues {
        chap_username: Some("user".to_string()),
        chap_password: Some("chap-secret".to_string()),
        luks_passphrase: None,
    };
    let values = cmd.materialized_args(&secrets).unwrap();
    assert_eq!(values, vec!["--value", "chap-secret", "user"]);
    let shown = cmd.redacted_args();
    assert_eq!(values[0], shown[0]);
    assert!(!cmd.redacted_command_line().contains("chap-secret"));
}

#[test]
fn materialized_args_report_first_missing_secret() {
    let cmd = secret_command();
    let secrets = SecretValues { chap_username: None, chap_password: None, luks_passphrase: None };
    assert_eq!(
        cmd.materialized_args(&secrets),
        Err(CommandRunError::MissingSecret { slot: SecretSlot::ChapPassword })
    );
}

#[test]
fn stdin_value_requires_its_slot() {
    let cmd = secret_command();
    let none = SecretValues::default();
    assert_eq!(
        cmd.stdin_value(&none),
        Err(CommandRunError::MissingSecret { slot: SecretSlot::LuksPassphrase })
    );
    let with = SecretValues { luks_passphrase: Some("pw".to_string()), ..SecretValues::default() };
    assert_eq!(cmd.stdin_value(&with), Ok(Some("pw")));
    let plain = HostCommand { program: "x".to_string(), args: Vec::new(), stdin: None };
    assert_eq!(plain.stdin_value(&none), Ok(None));
    assert_eq!(with.get(SecretSlot::LuksPassphrase), Some("pw"));
    assert_eq!(with.get(SecretSlot::ChapUsername), None);
}
