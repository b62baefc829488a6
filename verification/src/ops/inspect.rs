use vstd::prelude::*;

use crate::ops::command::{
    lits, literals, no_secrets, opt_string_view, strs_view, CommandOutput, CommandRunError, CommandView, HostCommand,
    HostRunner, SecretValues, TracedRunner,
};
use crate::ops::iscsi::DeviceResolveError;
use crate::ops::mountinfo::{mountinfo_lookup, mountinfo_lookup_defined, mountinfo_entry};
use crate::ops::stage::{FilesystemState, FilesystemView, StageDeviceState};
use crate::text::{chars_of, string_from_chars, trim, trim_chars};

verus! {

/// Where the host keeps by-path device links, mapper devices and mountinfo.
#[derive(Debug, Clone, PartialEq, Eq)]
pub struct HostPaths {
    pub by_path_dir: String,
    pub mapper_dir: String,
    pub mountinfo_path: String,
}

impl Default for HostPaths {
    fn default() -> (paths: Self)
        ensures
            paths.by_path_dir@ == "/dev/disk/by-path"@,
            paths.mapper_dir@ == "/dev/mapper"@,
            paths.mountinfo_path@ == "/proc/self/mountinfo"@,
    {
        HostPaths {
            by_path_dir: "/dev/disk/by-path".to_owned(),
            mapper_dir: "/dev/mapper".to_owned(),
            mountinfo_path: "/proc/self/mountinfo".to_owned(),
        }
    }
}

/// Why inspecting the host failed.
#[derive(Debug, PartialEq, Eq)]
pub enum InspectError {
    Resolve(DeviceResolveError),
    Command(CommandRunError),
    CommandStatus { command: String, status: Option<i32> },
    MountInfo { path: String, message: String },
}

pub open spec fn is_luks_command(device: Seq<char>) -> CommandView {
    CommandView { program: "cryptsetup"@, args: lits(seq!["isLuks"@, device]), stdin: None }
}

pub open spec fn blkid_command(device: Seq<char>) -> CommandView {
    CommandView {
        program: "blkid"@,
        args: lits(seq!["-o"@, "value"@, "-s"@, "TYPE"@, device]),
        stdin: None,
    }
}

/// The error for a command that exited with a status the probe does not expect.
pub open spec fn is_status_error(e: InspectError, cmd: CommandView, status: Option<i32>) -> bool {
    e matches InspectError::CommandStatus { command, status: s } && command@
        == cmd.redacted_command_line() && s == status
}

/// How `cryptsetup isLuks` is read: exit 0 is a LUKS header, exit 1 is none,
/// any other status, or no status, is an error; a failure to run passes through.
pub open spec fn luks_probe(cmd: CommandView, output: Result<CommandOutput, CommandRunError>, out: Result<bool, InspectError>) -> bool {
    match output {
        Err(e) => out == Err::<bool, InspectError>(InspectError::Command(e)),
        Ok(o) => if o.status == Some(0i32) {
            out == Ok::<bool, InspectError>(true)
        } else if o.status == Some(1i32) {
            out == Ok::<bool, InspectError>(false)
        } else {
            out matches Err(e) && is_status_error(e, cmd, o.status)
        },
    }
}

/// The trimmed text, or none when it is empty.
pub open spec fn nonempty_trimmed(text: Seq<char>) -> Option<Seq<char>> {
    if trim(text).len() > 0 {
        Some(trim(text))
    } else {
        None
    }
}

/// How `blkid -o value -s TYPE` is read: exit 0 gives the trimmed type (none
/// when empty), exit 2 means no filesystem, anything else is an error.
pub open spec fn fs_probe(cmd: CommandView, output: Result<CommandOutput, CommandRunError>, out: Result<Option<String>, InspectError>) -> bool {
    match output {
        Err(e) => out == Err::<Option<String>, InspectError>(InspectError::Command(e)),
        Ok(o) => if o.status == Some(0i32) {
            out matches Ok(v) && opt_string_view(v) == nonempty_trimmed(o.stdout@)
        } else if o.status == Some(2i32) {
            out matches Ok(None)
        } else {
            out matches Err(e) && is_status_error(e, cmd, o.status)
        },
    }
}

/// Reads the outcome of `cryptsetup isLuks`.
pub fn luks_probe_result(command: &HostCommand, output: Result<CommandOutput, CommandRunError>) -> (out: Result<bool, InspectError>)
    ensures
        luks_probe(command@, output, out),
{
    match output {
        Err(e) => Err(InspectError::Command(e)),
        Ok(o) => match o.status {
            Some(0) => Ok(true),
            Some(1) => Ok(false),
            status => Err(InspectError::CommandStatus { command: command.redacted_command_line(), status }),
        },
    }
}

/// Reads the outcome of `blkid`.
pub fn filesystem_probe_result(command: &HostCommand, output: Result<CommandOutput, CommandRunError>) -> (out: Result<Option<String>, InspectError>)
    ensures
        fs_probe(command@, output, out),
{
    match output {
        Err(e) => Err(InspectError::Command(e)),
        Ok(o) => match o.status {
            Some(0) => {
                let trimmed = trim_chars(&chars_of(o.stdout.as_str()));
                if trimmed.len() > 0 {
                    Ok(Some(string_from_chars(&trimmed)))
                } else {
                    Ok(None)
                }
            },
            Some(2) => Ok(None),
            status => Err(InspectError::CommandStatus { command: command.redacted_command_line(), status }),
        },
    }
}

/// The command that asks whether a device holds a LUKS header.
pub fn luks_probe_command(device_path: &str) -> (out: HostCommand)
    ensures
        out@ == is_luks_command(device_path@),
{
    let texts = ["isLuks", device_path];
    assert(strs_view(texts@) =~= seq!["isLuks"@, device_path@]);
    HostCommand { program: "cryptsetup".to_owned(), args: literals(&texts), stdin: None }
}

/// The command that asks for the filesystem type on a device.
pub fn filesystem_probe_command(device_path: &str) -> (out: HostCommand)
    ensures
        out@ == blkid_command(device_path@),
{
    let texts = ["-o", "value", "-s", "TYPE", device_path];
    assert(strs_view(texts@) =~= seq!["-o"@, "value"@, "-s"@, "TYPE"@, device_path@]);
    HostCommand { program: "blkid".to_owned(), args: literals(&texts), stdin: None }
}

/// Whether the runner, given `cryptsetup isLuks <device>` and no secrets,
/// can answer so that the LUKS check reads `out`.
pub open spec fn luks_answer<R: HostRunner>(runner: R, device: Seq<char>, out: Result<bool, InspectError>) -> bool {
    exists|o: Result<CommandOutput, CommandRunError>|
        #[trigger] runner.ran(is_luks_command(device), no_secrets(), o) && luks_probe(is_luks_command(device), o, out)
}

/// Whether the runner, given `blkid -o value -s TYPE <device>` and no
/// secrets, can answer so that the filesystem probe reads `out`.
pub open spec fn fs_answer<R: HostRunner>(runner: R, device: Seq<char>, out: Result<Option<String>, InspectError>) -> bool {
    exists|o: Result<CommandOutput, CommandRunError>|
        #[trigger] runner.ran(blkid_command(device), no_secrets(), o) && fs_probe(blkid_command(device), o, out)
}

/// Asks the runner whether the device holds a LUKS header: runs
/// [`luks_probe_command`] with no secret values and reads its outcome with
/// [`luks_probe_result`].
pub fn cryptsetup_is_luks<R: HostRunner>(runner: &R, device_path: &str) -> (out: Result<bool, InspectError>)
    ensures
        luks_answer(*runner, device_path@, out),
{
    let command = luks_probe_command(device_path);
    let secrets = SecretValues { chap_username: None, chap_password: None, luks_passphrase: None };
    let output = runner.output(&command, &secrets);
    let ghost seen = output;
    let out = luks_probe_result(&command, output);
    assert(runner.ran(is_luks_command(device_path@), no_secrets(), seen));
    assert(luks_probe(is_luks_command(device_path@), seen, out));
    out
}

/// Asks the runner for the filesystem type on the device: runs
/// [`filesystem_probe_command`] with no secret values and reads its outcome
/// with [`filesystem_probe_result`].
pub fn filesystem_type<R: HostRunner>(runner: &R, device_path: &str) -> (out: Result<Option<String>, InspectError>)
    ensures
        fs_answer(*runner, device_path@, out),
{
    let command = filesystem_probe_command(device_path);
    let secrets = SecretValues { chap_username: None, chap_password: None, luks_passphrase: None };
    let output = runner.output(&command, &secrets);
    let ghost seen = output;
    let out = filesystem_probe_result(&command, output);
    assert(runner.ran(blkid_command(device_path@), no_secrets(), seen));
    assert(fs_probe(blkid_command(device_path@), seen, out));
    out
}

/// What the probes found on a resolved device.
#[derive(Debug, Clone, PartialEq, Eq)]
pub struct DeviceProbe {
    pub device_path: String,
    pub luks_header: bool,
    pub raw_filesystem: Option<String>,
    pub mapper_open: bool,
    pub filesystem: FilesystemState,
}

/// The probe report from the probes' outcomes, or the first failure, in the
/// order the probes run: LUKS check, raw filesystem (only without a LUKS
/// header), then mapper filesystem (only when the mapper is open).
pub open spec fn probe_report(
    out: Result<DeviceProbe, InspectError>,
    device: Seq<char>,
    mapper_open: bool,
    luks: Result<bool, InspectError>,
    raw: Result<Option<String>, InspectError>,
    mapper_fs: Result<Option<String>, InspectError>,
) -> bool {
    if luks is Err {
        out == Err::<DeviceProbe, InspectError>(luks->Err_0)
    } else if !luks->Ok_0 && raw is Err {
        out == Err::<DeviceProbe, InspectError>(raw->Err_0)
    } else if mapper_open && mapper_fs is Err {
        out == Err::<DeviceProbe, InspectError>(mapper_fs->Err_0)
    } else {
        let header = luks->Ok_0;
        let raw_fs = if header {
            None
        } else {
            opt_string_view(raw->Ok_0)
        };
        out matches Ok(p) && p.device_path@ == device && p.luks_header == header
            && opt_string_view(p.raw_filesystem) == raw_fs && p.mapper_open == mapper_open
            && p.filesystem@ == (if mapper_open {
            match mapper_fs->Ok_0 {
                Some(f) => FilesystemView::Present(f@),
                None => FilesystemView::Missing,
            }
        } else if !header && raw_fs is None {
            FilesystemView::Missing
        } else {
            FilesystemView::Unknown
        })
    }
}

/// The commands, each with no secret values, that a probe run hands the
/// runner, given what the LUKS check and the raw probe read: the LUKS check;
/// the raw filesystem probe after `Ok(false)`; then the mapper probe when the
/// mapper is open and nothing before it failed.
pub open spec fn probe_trace(
    device: Seq<char>,
    mapper: Seq<char>,
    mapper_open: bool,
    luks: Result<bool, InspectError>,
    raw: Result<Option<String>, InspectError>,
) -> Seq<(CommandView, SecretValues)> {
    seq![(is_luks_command(device), no_secrets())] + (if luks == Ok::<bool, InspectError>(false) {
        seq![(blkid_command(device), no_secrets())]
    } else {
        Seq::empty()
    }) + (if mapper_open && (luks == Ok::<bool, InspectError>(true) || (luks is Ok && raw is Ok)) {
        seq![(blkid_command(mapper), no_secrets())]
    } else {
        Seq::empty()
    })
}

fn traced_luks_probe<R: HostRunner>(runner: &mut TracedRunner<'_, R>, device_path: &str) -> (out: Result<bool, InspectError>)
    ensures
        final(runner).runner() == old(runner).runner(),
        final(runner).trace() == old(runner).trace().push((is_luks_command(device_path@), no_secrets())),
        luks_answer(old(runner).runner(), device_path@, out),
{
    let command = luks_probe_command(device_path);
    let secrets = SecretValues { chap_username: None, chap_password: None, luks_passphrase: None };
    let output = runner.output(&command, &secrets);
    let ghost seen = output;
    let out = luks_probe_result(&command, output);
    assert(old(runner).runner().ran(is_luks_command(device_path@), no_secrets(), seen));
    out
}

fn traced_fs_probe<R: HostRunner>(runner: &mut TracedRunner<'_, R>, device_path: &str) -> (out: Result<Option<String>, InspectError>)
    ensures
        final(runner).runner() == old(runner).runner(),
        final(runner).trace() == old(runner).trace().push((blkid_command(device_path@), no_secrets())),
        fs_answer(old(runner).runner(), device_path@, out),
{
    let command = filesystem_probe_command(device_path);
    let secrets = SecretValues { chap_username: None, chap_password: None, luks_passphrase: None };
    let output = runner.output(&command, &secrets);
    let ghost seen = output;
    let out = filesystem_probe_result(&command, output);
    assert(old(runner).runner().ran(blkid_command(device_path@), no_secrets(), seen));
    out
}

/// Probes a resolved device for staging through the runner: whether it has
/// a LUKS header, its plaintext filesystem when it has none, and the
/// filesystem inside the mapper device when that is open. The runner is
/// handed these probe commands and no others, in that order.
pub fn probe_stage_device<R: HostRunner>(
    device_path: &str,
    mapper_path: &str,
    mapper_open: bool,
    runner: &mut TracedRunner<'_, R>,
) -> (out: Result<DeviceProbe, InspectError>)
    ensures
        final(runner).runner() == old(runner).runner(),
        exists|
            luks: Result<bool, InspectError>,
            raw: Result<Option<String>, InspectError>,
            mapper_fs: Result<Option<String>, InspectError>,
        |
            #![trigger probe_report(out, device_path@, mapper_open, luks, raw, mapper_fs)]
            luks_answer(old(runner).runner(), device_path@, luks)
            && (luks == Ok::<bool, InspectError>(false) ==> fs_answer(old(runner).runner(), device_path@, raw))
            && (mapper_open && (luks == Ok::<bool, InspectError>(true) || (luks is Ok && raw is Ok))
                ==> fs_answer(old(runner).runner(), mapper_path@, mapper_fs))
            && final(runner).trace() == old(runner).trace() + probe_trace(
                device_path@,
                mapper_path@,
                mapper_open,
                luks,
                raw,
            )
            && probe_report(out, device_path@, mapper_open, luks, raw, mapper_fs),
{
    let ghost start = runner.trace();
    let ghost target = runner.runner();
    let luks = traced_luks_probe(runner, device_path);
    let ghost luks_seen = luks;
    let header = match luks {
        Err(e) => {
            assert(runner.trace() =~= start + probe_trace(device_path@, mapper_path@, mapper_open, luks_seen, Ok(None)));
            assert(probe_report(Err(e), device_path@, mapper_open, luks_seen, Ok(None), Ok(None)));
            return Err(e);
        },
        Ok(h) => h,
    };
    let raw = if header {
        None
    } else {
        let probed = traced_fs_probe(runner, device_path);
        let ghost raw_seen = probed;
        match probed {
            Err(e) => {
                assert(runner.trace() =~= start + probe_trace(device_path@, mapper_path@, mapper_open, luks_seen, raw_seen));
                assert(probe_report(Err(e), device_path@, mapper_open, luks_seen, raw_seen, Ok(None)));
                return Err(e);
            },
            Ok(r) => r,
        }
    };
    let ghost raw_seen: Result<Option<String>, InspectError> = Ok(raw);
    let ghost mut mapper_seen: Result<Option<String>, InspectError> = Ok(None);
    let filesystem = if mapper_open {
        let probed = traced_fs_probe(runner, mapper_path);
        proof {
            mapper_seen = probed;
        }
        match probed {
            Err(e) => {
                assert(runner.trace() =~= start + probe_trace(device_path@, mapper_path@, mapper_open, luks_seen, raw_seen));
                assert(probe_report(Err(e), device_path@, mapper_open, luks_seen, raw_seen, mapper_seen));
                return Err(e);
            },
            Ok(Some(f)) => FilesystemState::Present(f),
            Ok(None) => FilesystemState::Missing,
        }
    } else if !header && raw.is_none() {
        FilesystemState::Missing
    } else {
        FilesystemState::Unknown
    };
    let probe = DeviceProbe {
        device_path: device_path.to_owned(),
        luks_header: header,
        raw_filesystem: raw,
        mapper_open,
        filesystem,
    };
    assert(runner.trace() =~= start + probe_trace(device_path@, mapper_path@, mapper_open, luks_seen, raw_seen));
    assert(runner.runner() == target);
    assert(probe_report(Ok(probe), device_path@, mapper_open, luks_seen, raw_seen, mapper_seen));
    Ok(probe)
}

/// The stage state of a probed device: the probe's findings, the device
/// matching the target (it was resolved from it), and whether the staging
/// path is mounted according to the mountinfo text.
pub fn stage_device_state(probe: DeviceProbe, mountinfo: &str, staging_target_path: &str) -> (out: StageDeviceState)
    requires
        mountinfo_lookup_defined(mountinfo@, staging_target_path@),
    ensures
        out.device_path == probe.device_path,
        out.device_matches_target,
        out.luks_header == probe.luks_header,
        out.raw_filesystem == probe.raw_filesystem,
        out.mapper_open == probe.mapper_open,
        out.filesystem == probe.filesystem,
        out.staged == (mountinfo_lookup(mountinfo@, staging_target_path@) is Some),
{
    let staged = mountinfo_entry(mountinfo, staging_target_path).is_some();
    StageDeviceState {
        device_path: probe.device_path,
        device_matches_target: true,
        luks_header: probe.luks_header,
        raw_filesystem: probe.raw_filesystem,
        mapper_open: probe.mapper_open,
        filesystem: probe.filesystem,
        staged,
    }
}

} // verus!
