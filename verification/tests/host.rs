use std::cell::RefCell;
use std::collections::HashMap;

use iscsi_luks_csi::ops::{
    cryptsetup_is_luks, decode_mountinfo_path, filesystem_probe_result, filesystem_type,
    iscsi_by_path_name_matches, probe_stage_device, stage_device_state, luks_probe_result, mountinfo_entry,
    mountinfo_lookup_is_defined, publish_state_from_mountinfo, select_iscsi_device, ByPathEntry,
    CommandOutput, CommandRunError, DeviceResolveError, FilesystemState, HostCommand, HostRunner,
    InspectError, IscsiTarget, PublishState, SecretValues, TracedRunner,
};

fn target() -> IscsiTarget {
    IscsiTarget {
        portal: "192.0.2.10:3260".to_string(),
        iqn: "iqn-test".to_string(),
        lun: 1,
    }
}

#[derive(Default)]
struct FakeRunner {
    outputs: HashMap<Vec<String>, CommandOutput>,
    calls: RefCell<Vec<Vec<String>>>,
}

impl FakeRunner {
    fn with(mut self, argv: &[&str], status: Option<i32>, stdout: &str) -> Self {
        self.outputs.insert(
            argv.iter().map(|s| s.to_string()).collect(),
            CommandOutput { status, stdout: stdout.to_string(), stderr: String::new() },
        );
        self
    }
}

impl HostRunner for FakeRunner {
    fn output(&self, command: &HostCommand, _secrets: &SecretValues) -> Result<CommandOutput, CommandRunError> {
        self.calls.borrow_mut().push(command.redacted_argv());
        self.outputs.get(&command.redacted_argv()).cloned().ok_or_else(|| CommandRunError::Spawn {
            command: command.redacted_command_line(),
            message: "missing fake output".to_string(),
        })
    }
}

#[test]
fn by_path_names_match_target() {
    let t = target();
    assert!(iscsi_by_path_name_matches("ip-192.0.2.10:3260-iscsi-iqn-test-lun-1", &t));
    assert!(iscsi_by_path_name_matches("ip-192.0.2.10:3260-iscsi-iqn-test-lun-+01", &t));
    assert!(!iscsi_by_path_name_matches("ip-192.0.2.10:3260-iscsi-iqn-test-lun-2", &t));
    assert!(!iscsi_by_path_name_matches("ip-192.0.2.10:3260-iscsi-iqn-test-lun-", &t));
    assert!(!iscsi_by_path_name_matches("ip-192.0.2.10:3260-iscsi-iqn-test-lun-1-part1", &t));
    assert!(!iscsi_by_path_name_matches("pci-0000:00:1f.2-ata-1", &t));
    assert!(!iscsi_by_path_name_matches("ip-192.0.2.11:3260-iscsi-iqn-test-lun-1", &t));
}

#[test]
fn by_path_iqn_ends_at_last_lun_marker() {
    let t = IscsiTarget { portal: "p".to_string(), iqn: "iqn-lun-x".to_string(), lun: 4294967295 };
    assert!(iscsi_by_path_name_matches("ip-p-iscsi-iqn-lun-x-lun-4294967295", &t));
    assert!(!iscsi_by_path_name_matches("ip-p-iscsi-iqn-lun-x-lun-4294967296", &t));
}

fn entry(name: &str) -> ByPathEntry {
    ByPathEntry { name: name.to_string(), path: format!("/dev/disk/by-path/{name}") }
}

#[test]
fn select_device_picks_the_single_match() {
    let entries = vec![
        entry("ip-192.0.2.10:3260-iscsi-iqn-test-lun-1"),
        entry("ip-192.0.2.10:3260-iscsi-iqn-test-lun-2"),
    ];
    assert_eq!(
        select_iscsi_device(&entries, &target()),
        Ok("/dev/disk/by-path/ip-192.0.2.10:3260-iscsi-iqn-test-lun-1".to_string())
    );
}

#[test]
fn select_device_reports_none_and_several() {
    assert_eq!(select_iscsi_device(&vec![entry("other")], &target()), Err(DeviceResolveError::NotFound));
    let entries = vec![
        entry("ip-192.0.2.10:3260-iscsi-iqn-test-lun-1"),
        entry("ip-192.0.2.10:3260-iscsi-iqn-test-lun-01"),
    ];
    assert_eq!(
        select_iscsi_device(&entries, &target()),
        Err(DeviceResolveError::Multiple(vec![
            "/dev/disk/by-path/ip-192.0.2.10:3260-iscsi-iqn-test-lun-1".to_string(),
            "/dev/disk/by-path/ip-192.0.2.10:3260-iscsi-iqn-test-lun-01".to_string(),
        ]))
    );
}

#[test]
fn decode_mountinfo_escapes() {
    assert_eq!(decode_mountinfo_path("a\\040b\\011c\\012d\\134e"), "a b\tc\nd\\e");
    assert_eq!(decode_mountinfo_path("\\041x\\04"), "\\041x\\04");
    assert_eq!(decode_mountinfo_path("plain/path"), "plain/path");
}

#[test]
fn mountinfo_entry_reads_options() {
    let text = "1 2 0:1 / / rw - ext4 /dev/a rw\n36 29 0:32 / /target ro,relatime,,x - ext4 /dev/x rw\n";
    let got = mountinfo_entry(text, "/target").unwrap();
    assert_eq!(got.options, vec!["ro", "relatime", "", "x"]);
    assert!(mountinfo_entry(text, "/other").is_none());
    let short = "1 2 3 4 /only\n";
    assert_eq!(mountinfo_entry(short, "/only").unwrap().options, Vec::<String>::new());
}

#[test]
fn mountinfo_lookup_detects_undecodable_paths() {
    assert!(mountinfo_lookup_is_defined("36 29 0:32 / /a\\040b rw\n", "/a b"));
    assert!(!mountinfo_lookup_is_defined("36 29 0:32 / /\\éé rw\n", "/x"));
}

#[test]
fn publish_state_reads_mountinfo_options() {
    let text = "36 29 0:32 / /target ro,relatime - ext4 /dev/x rw\n";
    assert_eq!(
        publish_state_from_mountinfo(text, "/target"),
        PublishState { target_mounted: true, target_readonly: true }
    );
    let rw = "36 29 0:32 / /target rw,relatime - ext4 /dev/x ro\n";
    assert_eq!(
        publish_state_from_mountinfo(rw, "/target"),
        PublishState { target_mounted: true, target_readonly: false }
    );
    assert_eq!(
        publish_state_from_mountinfo("", "/target"),
        PublishState { target_mounted: false, target_readonly: false }
    );
}

fn output(status: Option<i32>, stdout: &str) -> Result<CommandOutput, CommandRunError> {
    Ok(CommandOutput { status, stdout: stdout.to_string(), stderr: String::new() })
}

fn probe(program: &str) -> HostCommand {
    HostCommand { program: program.to_string(), args: Vec::new(), stdin: None }
}

#[test]
fn luks_probe_reads_exit_status() {
    assert_eq!(luks_probe_result(&probe("cryptsetup"), output(Some(0), "")), Ok(true));
    assert_eq!(luks_probe_result(&probe("cryptsetup"), output(Some(1), "")), Ok(false));
    assert_eq!(
        luks_probe_result(&probe("cryptsetup"), output(Some(4), "")),
        Err(InspectError::CommandStatus { command: "cryptsetup".to_string(), status: Some(4) })
    );
    assert_eq!(
        luks_probe_result(&probe("cryptsetup"), output(None, "")),
        Err(InspectError::CommandStatus { command: "cryptsetup".to_string(), status: None })
    );
    let failed = Err(CommandRunError::Spawn { command: "c".to_string(), message: "m".to_string() });
    assert_eq!(
        luks_probe_result(&probe("cryptsetup"), failed),
        Err(InspectError::Command(CommandRunError::Spawn { command: "c".to_string(), message: "m".to_string() }))
    );
}

#[test]
fn filesystem_probe_trims_type() {
    assert_eq!(filesystem_probe_result(&probe("blkid"), output(Some(0), " ext4\n")), Ok(Some("ext4".to_string())));
    assert_eq!(filesystem_probe_result(&probe("blkid"), output(Some(0), " \n")), Ok(None));
    assert_eq!(filesystem_probe_result(&probe("blkid"), output(Some(2), "")), Ok(None));
    assert_eq!(
        filesystem_probe_result(&probe("blkid"), output(Some(8), "")),
        Err(InspectError::CommandStatus { command: "blkid".to_string(), status: Some(8) })
    );
}

#[test]
fn probes_run_the_expected_commands() {
    let runner = FakeRunner::default()
        .with(&["cryptsetup", "isLuks", "/dev/sdb"], Some(0), "")
        .with(&["blkid", "-o", "value", "-s", "TYPE", "/dev/sdb"], Some(0), "xfs\n");
    assert_eq!(cryptsetup_is_luks(&runner, "/dev/sdb"), Ok(true));
    assert_eq!(filesystem_type(&runner, "/dev/sdb"), Ok(Some("xfs".to_string())));
    assert!(matches!(cryptsetup_is_luks(&runner, "/dev/sdc"), Err(InspectError::Command(_))));
}

#[test]
fn inspect_reports_closed_luks_filesystem_unknown() {
    let runner = FakeRunner::default().with(&["cryptsetup", "isLuks", "/dev/sdb"], Some(0), "");
    let probe = probe_stage_device("/dev/sdb", "/dev/mapper/m", false, &mut TracedRunner::new(&runner)).unwrap();
    let got = stage_device_state(probe, "", "/stage");
    assert!(got.luks_header);
    assert!(!got.mapper_open);
    assert_eq!(got.filesystem, FilesystemState::Unknown);
    assert!(got.device_matches_target);
    assert!(!got.staged);
}

#[test]
fn inspect_reports_blank_new_device_missing_filesystem() {
    let runner = FakeRunner::default()
        .with(&["cryptsetup", "isLuks", "/dev/sdb"], Some(1), "")
        .with(&["blkid", "-o", "value", "-s", "TYPE", "/dev/sdb"], Some(2), "");
    let mountinfo = "36 29 0:32 / /stage rw,relatime - ext4 /dev/mapper/media rw\n";
    let probe = probe_stage_device("/dev/sdb", "/dev/mapper/m", false, &mut TracedRunner::new(&runner)).unwrap();
    let got = stage_device_state(probe, mountinfo, "/stage");
    assert!(!got.luks_header);
    assert_eq!(got.raw_filesystem, None);
    assert_eq!(got.filesystem, FilesystemState::Missing);
    assert!(got.staged);
    assert_eq!(got.device_path, "/dev/sdb");
}

#[test]
fn inspect_reads_open_mapper_filesystem() {
    let runner = FakeRunner::default()
        .with(&["cryptsetup", "isLuks", "/dev/sdb"], Some(0), "")
        .with(&["blkid", "-o", "value", "-s", "TYPE", "/dev/mapper/m"], Some(0), "ext4\n");
    let probe = probe_stage_device("/dev/sdb", "/dev/mapper/m", true, &mut TracedRunner::new(&runner)).unwrap();
    assert_eq!(probe.filesystem, FilesystemState::Present("ext4".to_string()));
    assert!(probe.mapper_open);
}

#[test]
fn inspect_stops_at_first_probe_failure() {
    let runner = FakeRunner::default();
    assert!(matches!(
        probe_stage_device("/dev/sdb", "/dev/mapper/m", false, &mut TracedRunner::new(&runner)),
        Err(InspectError::Command(_))
    ));
    let runner = FakeRunner::default()
        .with(&["cryptsetup", "isLuks", "/dev/sdb"], Some(1), "")
        .with(&["blkid", "-o", "value", "-s", "TYPE", "/dev/sdb"], Some(9), "");
    assert_eq!(
        probe_stage_device("/dev/sdb", "/dev/mapper/m", true, &mut TracedRunner::new(&runner)),
        Err(InspectError::CommandStatus {
            command: "blkid -o value -s TYPE /dev/sdb".to_string(),
            status: Some(9),
        })
    );
}

fn argv(parts: &[&str]) -> Vec<String> {
    parts.iter().map(|s| s.to_string()).collect()
}

#[test]
fn inspect_runs_only_the_probe_commands_in_order() {
    let runner = FakeRunner::default()
        .with(&["cryptsetup", "isLuks", "/dev/sdb"], Some(1), "")
        .with(&["blkid", "-o", "value", "-s", "TYPE", "/dev/sdb"], Some(0), "xfs\n")
        .with(&["blkid", "-o", "value", "-s", "TYPE", "/dev/mapper/m"], Some(2), "");
    let probe = probe_stage_device("/dev/sdb", "/dev/mapper/m", true, &mut TracedRunner::new(&runner)).unwrap();
    assert_eq!(probe.raw_filesystem, Some("xfs".to_string()));
    assert_eq!(probe.filesystem, FilesystemState::Missing);
    assert_eq!(
        *runner.calls.borrow(),
        vec![
            argv(&["cryptsetup", "isLuks", "/dev/sdb"]),
            argv(&["blkid", "-o", "value", "-s", "TYPE", "/dev/sdb"]),
            argv(&["blkid", "-o", "value", "-s", "TYPE", "/dev/mapper/m"]),
        ]
    );

    let runner = FakeRunner::default().with(&["cryptsetup", "isLuks", "/dev/sdb"], Some(0), "");
    probe_stage_device("/dev/sdb", "/dev/mapper/m", false, &mut TracedRunner::new(&runner)).unwrap();
    assert_eq!(*runner.calls.borrow(), vec![argv(&["cryptsetup", "isLuks", "/dev/sdb"])]);
}
