use iscsi_luks_csi::ops::{
    decode_mountinfo_path, filesystem_probe_command, iscsi_by_path_name_matches, literals,
    luks_probe_command, publish_host_commands, safe_mapper_name, stage_host_commands, FilesystemState,
    IscsiTarget, PublishPlan, PublishState, StageDeviceState, StagePlan,
};

fn escape(path: &str) -> String {
    let mut out = String::new();
    for c in path.chars() {
        match c {
            ' ' => out.push_str("\\040"),
            '\t' => out.push_str("\\011"),
            '\n' => out.push_str("\\012"),
            '\\' => out.push_str("\\134"),
            other => out.push(other),
        }
    }
    out
}

#[test]
fn decoding_undoes_kernel_escaping() {
    for path in ["/plain", "/a b", "/tab\there", "/new\nline", "/back\\slash", "/ \\040 mixed\t"] {
        assert_eq!(decode_mountinfo_path(&escape(path)), path);
    }
}

#[test]
fn udev_by_path_names_are_recognised() {
    for (portal, iqn, lun) in [
        ("192.0.2.10:3260", "iqn.2024-01.dev.example:vol", 0u32),
        ("[2001:db8::1]:3260", "iqn-lun-odd-lun-name", 7),
        ("10.0.0.1:3260", "x", 4294967295),
    ] {
        let target = IscsiTarget { portal: portal.to_string(), iqn: iqn.to_string(), lun };
        let name = format!("ip-{portal}-iscsi-{iqn}-lun-{lun}");
        assert!(iscsi_by_path_name_matches(&name, &target), "{name}");
    }
}

#[test]
fn ascii_paths_decode_by_a_single_left_to_right_scan() {
    assert_eq!(decode_mountinfo_path("/a\\040b"), "/a b");
    assert_eq!(decode_mountinfo_path("/x\\011\\012\\134"), "/x\t\n\\");
    assert_eq!(decode_mountinfo_path("/keep\\041\\04"), "/keep\\041\\04");
    assert_eq!(decode_mountinfo_path("\\134040"), "\\040");
    assert_eq!(decode_mountinfo_path("\\"), "\\");
}

#[test]
fn by_path_names_match_exactly_the_target_shape() {
    let target = IscsiTarget { portal: "192.0.2.10:3260".to_string(), iqn: "iqn-test".to_string(), lun: 1 };
    for name in [
        "ip-192.0.2.10:3260-iscsi-iqn-test-lun-1",
        "ip-192.0.2.10:3260-iscsi-iqn-test-lun-+1",
        "ip-192.0.2.10:3260-iscsi-iqn-test-lun-0001",
    ] {
        assert!(iscsi_by_path_name_matches(name, &target), "{name}");
    }
    for name in [
        "ip-192.0.2.10:3260-iscsi-iqn-test-lun-2",
        "ip-192.0.2.10:3260-iscsi-iqn-test-lun-",
        "ip-192.0.2.10:3260-iscsi-iqn-test-lun-1-part1",
        "ip-192.0.2.11:3260-iscsi-iqn-test-lun-1",
        "ip-192.0.2.10:3260-iscsi-iqn-other-lun-1",
        "pci-192.0.2.10:3260-iscsi-iqn-test-lun-1",
    ] {
        assert!(!iscsi_by_path_name_matches(name, &target), "{name}");
    }
}

#[test]
fn mapper_names_hold_only_safe_characters() {
    let name = safe_mapper_name("pre", "a b/c:d\u{e9}\u{1F600}.e_f-g").unwrap();
    assert!(name.starts_with("pre-"));
    assert!(name["pre-".len()..]
        .chars()
        .all(|c| c.is_ascii_alphanumeric() || c == '-' || c == '_' || c == '.'));
    assert_eq!(name.len(), "pre-".len() + "a b/c:d\u{e9}\u{1F600}.e_f-g".len());
}

fn stage_plan(allow_format: bool) -> StagePlan {
    StagePlan::new(
        IscsiTarget { portal: "p:1".to_string(), iqn: "iqn".to_string(), lun: 3 },
        "iscsi-luks-csi",
        "vol",
        "ext4",
        allow_format,
    )
    .unwrap()
}

#[test]
fn staging_never_formats_without_permission() {
    let filesystems = [
        FilesystemState::Unknown,
        FilesystemState::Missing,
        FilesystemState::Present("ext4".to_string()),
    ];
    for allow_format in [false, true] {
        for luks_header in [false, true] {
            for mapper_open in [false, true] {
                for staged in [false, true] {
                    for filesystem in filesystems.iter().cloned() {
                        let state = StageDeviceState {
                            device_path: "/dev/sdz".to_string(),
                            device_matches_target: true,
                            luks_header,
                            raw_filesystem: None,
                            mapper_open,
                            filesystem,
                            staged,
                        };
                        if let Ok(cmds) = stage_host_commands(&stage_plan(allow_format), &state, "/s") {
                            for cmd in &cmds {
                                if cmd.args.first() == literals(&["luksFormat"]).first() || cmd.program == "mkfs.ext4" {
                                    assert!(allow_format);
                                }
                                assert!(cmd.args.iter().all(|a| matches!(a, iscsi_luks_csi::ops::CommandArg::Literal(_))));
                            }
                        }
                    }
                }
            }
        }
    }
}

#[test]
fn publish_plans_nothing_when_in_place() {
    for readonly in [false, true] {
        for target_mounted in [false, true] {
            for target_readonly in [false, true] {
                let plan = PublishPlan {
                    staging_target_path: "/s".to_string(),
                    target_path: "/t".to_string(),
                    readonly,
                };
                let state = PublishState { target_mounted, target_readonly };
                if let Ok(cmds) = publish_host_commands(&plan, &state) {
                    assert_eq!(cmds.is_empty(), target_mounted && (!readonly || target_readonly));
                }
            }
        }
    }
}

#[test]
fn probe_commands_are_fixed() {
    let luks = luks_probe_command("/dev/sdb");
    assert_eq!(luks.program, "cryptsetup");
    assert_eq!(luks.args, literals(&["isLuks", "/dev/sdb"]));
    assert_eq!(luks.stdin, None);
    let blkid = filesystem_probe_command("/dev/sdb");
    assert_eq!(blkid.program, "blkid");
    assert_eq!(blkid.args, literals(&["-o", "value", "-s", "TYPE", "/dev/sdb"]));
}
