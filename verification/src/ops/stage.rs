use vstd::prelude::*;
use vstd::string::StringSliceAdditionalSpecFns;

use crate::ops::command::{
    args_view, commands_view, lits, literals, strs_view, CommandArg, CommandView, HostCommand,
    SecretSlot,
};
use crate::ops::iscsi::IscsiTarget;
use crate::text::{push_str, str_eq};

verus! {

/// Why a stage plan could not be made.
#[derive(Debug, PartialEq, Eq)]
pub enum SafetyError {
    EmptyVolumeId,
}

/// Whether a byte is kept as it is in a device-mapper name: ASCII letters
/// and digits, `-`, `_` and `.`.
pub open spec fn is_mapper_safe_byte(b: u8) -> bool {
    (0x30 <= b <= 0x39) || (0x41 <= b <= 0x5a) || (0x61 <= b <= 0x7a) || b == 0x2d || b == 0x5f
        || b == 0x2e
}

/// The character a volume-id byte becomes in a device-mapper name.
pub open spec fn mapper_char(b: u8) -> char {
    if is_mapper_safe_byte(b) {
        b as char
    } else {
        '_'
    }
}

/// The device-mapper name for a volume: the prefix, `-`, then one character
/// per UTF-8 byte of the volume id, unsafe bytes replaced by `_`.
pub open spec fn mapper_name_of(prefix: Seq<char>, volume_bytes: Seq<u8>) -> Seq<char> {
    prefix + seq!['-'] + volume_bytes.map_values(|b: u8| mapper_char(b))
}

/// Builds the device-mapper name for a volume; an empty volume id is refused.
pub fn safe_mapper_name(prefix: &str, volume_id: &str) -> (out: Result<String, SafetyError>)
    ensures
        volume_id@.len() == 0 ==> out == Err::<String, SafetyError>(SafetyError::EmptyVolumeId),
        volume_id@.len() != 0 ==> (out matches Ok(name) && name@ == mapper_name_of(
            prefix@,
            volume_id.spec_bytes(),
        )),
{
    if volume_id.is_empty() {
        return Err(SafetyError::EmptyVolumeId);
    }
    let mut safe = prefix.to_owned();
    crate::text::push_char(&mut safe, '-');
    let bytes = volume_id.as_bytes();
    let ghost head = prefix@ + seq!['-'];
    for i in 0..bytes.len()
        invariant
            bytes@ == volume_id.spec_bytes(),
            head == prefix@ + seq!['-'],
            safe@ == head + bytes@.take(i as int).map_values(|b: u8| mapper_char(b)),
    {
        let byte = bytes[i];
        let is_safe = (byte >= 0x30 && byte <= 0x39) || (byte >= 0x41 && byte <= 0x5a) || (byte >= 0x61
            && byte <= 0x7a) || byte == 0x2d || byte == 0x5f || byte == 0x2e;
        let ch = if is_safe {
            byte as char
        } else {
            '_'
        };
        assert(ch == mapper_char(byte));
        crate::text::push_char(&mut safe, ch);
        assert(bytes@.take(i + 1).map_values(|b: u8| mapper_char(b)) =~= bytes@.take(
            i as int,
        ).map_values(|b: u8| mapper_char(b)).push(ch));
    }
    assert(bytes@.take(bytes@.len() as int) =~= bytes@);
    Ok(safe)
}

/// What staging a volume needs: where the LUN is, the mapper name, and the
/// filesystem, and whether first-use formatting is allowed.
#[derive(Debug, Clone, PartialEq, Eq)]
pub struct StagePlan {
    pub target: IscsiTarget,
    pub mapper_name: String,
    pub fs_type: String,
    pub allow_format: bool,
}

impl StagePlan {
    /// A plan whose mapper name is derived from the prefix and the volume id.
    pub fn new(
        target: IscsiTarget,
        mapper_prefix: &str,
        volume_id: &str,
        fs_type: &str,
        allow_format: bool,
    ) -> (out: Result<Self, SafetyError>)
        ensures
            volume_id@.len() == 0 ==> out == Err::<Self, SafetyError>(SafetyError::EmptyVolumeId),
            volume_id@.len() != 0 ==> (out matches Ok(plan) && plan.target == target
                && plan.mapper_name@ == mapper_name_of(mapper_prefix@, volume_id.spec_bytes())
                && plan.fs_type@ == fs_type@ && plan.allow_format == allow_format),
    {
        let mapper_name = match safe_mapper_name(mapper_prefix, volume_id) {
            Ok(name) => name,
            Err(e) => return Err(e),
        };
        Ok(StagePlan { target, mapper_name, fs_type: fs_type.to_owned(), allow_format })
    }
}

/// What is known of the filesystem inside the LUKS container.
#[derive(Debug, Clone, PartialEq, Eq)]
pub enum FilesystemState {
    Unknown,
    Missing,
    Present(String),
}

/// The mathematical form of a [`FilesystemState`].
pub enum FilesystemView {
    Unknown,
    Missing,
    Present(Seq<char>),
}

impl View for FilesystemState {
    type V = FilesystemView;

    open spec fn view(&self) -> FilesystemView {
        match self {
            FilesystemState::Unknown => FilesystemView::Unknown,
            FilesystemState::Missing => FilesystemView::Missing,
            FilesystemState::Present(f) => FilesystemView::Present(f@),
        }
    }
}

/// What inspection of the host found for a stage request.
#[derive(Debug, Clone, PartialEq, Eq)]
pub struct StageDeviceState {
    pub device_path: String,
    pub device_matches_target: bool,
    pub luks_header: bool,
    pub raw_filesystem: Option<String>,
    pub mapper_open: bool,
    pub filesystem: FilesystemState,
    pub staged: bool,
}

/// Why staging was refused.
#[derive(Debug, PartialEq, Eq)]
pub enum PlanError {
    DeviceMismatch,
    MissingLuksHeader,
    PlaintextFilesystem(String),
    MissingFilesystem,
    FilesystemMismatch { found: String, expected: String },
    UnsupportedFilesystem(String),
}

/// The mathematical form of a [`PlanError`].
pub enum PlanErrorView {
    DeviceMismatch,
    MissingLuksHeader,
    PlaintextFilesystem(Seq<char>),
    MissingFilesystem,
    FilesystemMismatch { found: Seq<char>, expected: Seq<char> },
    UnsupportedFilesystem(Seq<char>),
}

impl View for PlanError {
    type V = PlanErrorView;

    open spec fn view(&self) -> PlanErrorView {
        match self {
            PlanError::DeviceMismatch => PlanErrorView::DeviceMismatch,
            PlanError::MissingLuksHeader => PlanErrorView::MissingLuksHeader,
            PlanError::PlaintextFilesystem(f) => PlanErrorView::PlaintextFilesystem(f@),
            PlanError::MissingFilesystem => PlanErrorView::MissingFilesystem,
            PlanError::FilesystemMismatch { found, expected } => PlanErrorView::FilesystemMismatch {
                found: found@,
                expected: expected@,
            },
            PlanError::UnsupportedFilesystem(f) => PlanErrorView::UnsupportedFilesystem(f@),
        }
    }
}

/// The only filesystem this driver creates and mounts.
pub open spec fn supported_fs_type() -> Seq<char> {
    "ext4"@
}

/// The first safety rule, in order, that the request breaks.
pub open spec fn stage_refusal(plan: StagePlan, state: StageDeviceState) -> Option<PlanErrorView> {
    if !state.device_matches_target {
        Some(PlanErrorView::DeviceMismatch)
    } else if !state.luks_header && state.raw_filesystem is Some {
        Some(PlanErrorView::PlaintextFilesystem(state.raw_filesystem->0@))
    } else if !state.luks_header && !plan.allow_format {
        Some(PlanErrorView::MissingLuksHeader)
    } else if state.filesystem is Missing && !plan.allow_format {
        Some(PlanErrorView::MissingFilesystem)
    } else if state.filesystem is Present && state.filesystem->Present_0@ != plan.fs_type@ {
        Some(
            PlanErrorView::FilesystemMismatch {
                found: state.filesystem->Present_0@,
                expected: plan.fs_type@,
            },
        )
    } else if plan.fs_type@ != supported_fs_type() {
        Some(PlanErrorView::UnsupportedFilesystem(plan.fs_type@))
    } else {
        None
    }
}

pub open spec fn mapper_path_of(mapper_name: Seq<char>) -> Seq<char> {
    "/dev/mapper/"@ + mapper_name
}

pub open spec fn luks_format_command(device: Seq<char>) -> CommandView {
    CommandView {
        program: "cryptsetup"@,
        args: lits(seq!["luksFormat"@, "--type"@, "luks2"@, device, "--key-file"@, "-"@]),
        stdin: Some(SecretSlot::LuksPassphrase),
    }
}

pub open spec fn luks_open_command(device: Seq<char>, mapper_name: Seq<char>) -> CommandView {
    CommandView {
        program: "cryptsetup"@,
        args: lits(
            seq!["open"@, device, mapper_name, "--type"@, "luks2"@, "--key-file"@, "-"@],
        ),
        stdin: Some(SecretSlot::LuksPassphrase),
    }
}

pub open spec fn mkfs_command(mapper_path: Seq<char>) -> CommandView {
    CommandView { program: "mkfs.ext4"@, args: lits(seq![mapper_path]), stdin: None }
}

pub open spec fn stage_mount_command(mapper_path: Seq<char>, staging: Seq<char>) -> CommandView {
    CommandView { program: "mount"@, args: lits(seq![mapper_path, staging]), stdin: None }
}

/// Whether a filesystem will be there to mount once the planned commands ran.
pub open spec fn filesystem_ready(plan: StagePlan, state: StageDeviceState) -> bool {
    match state.filesystem {
        FilesystemState::Present(_) => true,
        FilesystemState::Missing => plan.allow_format,
        FilesystemState::Unknown => false,
    }
}

pub open spec fn step_if(cond: bool, cmd: CommandView) -> Seq<CommandView> {
    if cond {
        seq![cmd]
    } else {
        Seq::empty()
    }
}

/// The commands that bring the device from its current state to staged, in
/// order: LUKS format, open, mkfs, mount, each only where it is still needed.
pub open spec fn stage_commands(plan: StagePlan, state: StageDeviceState, staging: Seq<char>) -> Seq<CommandView> {
    let mapper_path = mapper_path_of(plan.mapper_name@);
    step_if(!state.luks_header, luks_format_command(state.device_path@))
        + step_if(!state.mapper_open, luks_open_command(state.device_path@, plan.mapper_name@))
        + step_if(state.filesystem is Missing, mkfs_command(mapper_path))
        + step_if(!state.staged && filesystem_ready(plan, state), stage_mount_command(mapper_path, staging))
}

/// The stage plan: the refusal if a safety rule is broken, else the commands.
pub open spec fn stage_outcome(plan: StagePlan, state: StageDeviceState, staging: Seq<char>) -> Result<Seq<CommandView>, PlanErrorView> {
    match stage_refusal(plan, state) {
        Some(e) => Err(e),
        None => Ok(stage_commands(plan, state, staging)),
    }
}

pub open spec fn plan_result_view(r: Result<Vec<HostCommand>, PlanError>) -> Result<Seq<CommandView>, PlanErrorView> {
    match r {
        Ok(cmds) => Ok(commands_view(cmds@)),
        Err(e) => Err(e@),
    }
}

fn command(program: &str, args: Vec<CommandArg>, stdin: Option<SecretSlot>) -> (out: HostCommand)
    ensures
        out@ == (CommandView { program: program@, args: args_view(args@), stdin }),
{
    HostCommand { program: program.to_owned(), args, stdin }
}

/// Plans the host commands that stage a volume, refusing every request that
/// could destroy data: a device that is not the requested LUN, LUKS
/// initialisation over a plaintext filesystem, and any formatting that
/// `allow_format` does not permit.
pub fn stage_host_commands(plan: &StagePlan, state: &StageDeviceState, staging_target_path: &str) -> (out: Result<Vec<HostCommand>, PlanError>)
    ensures
        plan_result_view(out) == stage_outcome(*plan, *state, staging_target_path@),
{
    if !state.device_matches_target {
        return Err(PlanError::DeviceMismatch);
    }
    if !state.luks_header {
        if let Some(found) = &state.raw_filesystem {
            return Err(PlanError::PlaintextFilesystem(found.clone()));
        }
    }
    if !state.luks_header && !plan.allow_format {
        return Err(PlanError::MissingLuksHeader);
    }
    match &state.filesystem {
        FilesystemState::Missing => {
            if !plan.allow_format {
                return Err(PlanError::MissingFilesystem);
            }
        },
        FilesystemState::Present(found) => {
            if !str_eq(found.as_str(), plan.fs_type.as_str()) {
                return Err(
                    PlanError::FilesystemMismatch { found: found.clone(), expected: plan.fs_type.clone() },
                );
            }
        },
        FilesystemState::Unknown => {},
    }
    if !str_eq(plan.fs_type.as_str(), "ext4") {
        return Err(PlanError::UnsupportedFilesystem(plan.fs_type.clone()));
    }
    let ghost device = state.device_path@;
    let ghost mapper_path = mapper_path_of(plan.mapper_name@);
    let mut commands: Vec<HostCommand> = Vec::new();
    let ghost mut expected: Seq<CommandView> = Seq::empty();

    if !state.luks_header {
        let texts = ["luksFormat", "--type", "luks2", state.device_path.as_str(), "--key-file", "-"];
        assert(strs_view(texts@) =~= seq!["luksFormat"@, "--type"@, "luks2"@, device, "--key-file"@, "-"@]);
        let args = literals(&texts);
        let cmd = command("cryptsetup", args, Some(SecretSlot::LuksPassphrase));
        assert(cmd@ == luks_format_command(device));
        commands.push(cmd);
    }
    assert(commands_view(commands@) =~= step_if(!state.luks_header, luks_format_command(device)));

    let ghost before_open = commands@;
    if !state.mapper_open {
        let texts = [
            "open",
            state.device_path.as_str(),
            plan.mapper_name.as_str(),
            "--type",
            "luks2",
            "--key-file",
            "-",
        ];
        assert(strs_view(texts@) =~= seq![
            "open"@,
            device,
            plan.mapper_name@,
            "--type"@,
            "luks2"@,
            "--key-file"@,
            "-"@,
        ]);
        let args = literals(&texts);
        let cmd = command("cryptsetup", args, Some(SecretSlot::LuksPassphrase));
        assert(cmd@ == luks_open_command(device, plan.mapper_name@));
        commands.push(cmd);
    }
    assert(commands_view(commands@) =~= commands_view(before_open) + step_if(
        !state.mapper_open,
        luks_open_command(device, plan.mapper_name@),
    ));

    let mut mapper = "/dev/mapper/".to_owned();
    push_str(&mut mapper, plan.mapper_name.as_str());
    assert(mapper@ == mapper_path);

    let missing = match &state.filesystem {
        FilesystemState::Missing => true,
        _ => false,
    };
    let ghost before_mkfs = commands@;
    if missing {
        let texts = [mapper.as_str()];
        assert(strs_view(texts@) =~= seq![mapper_path]);
        let args = literals(&texts);
        let cmd = command("mkfs.ext4", args, None);
        assert(cmd@ == mkfs_command(mapper_path));
        commands.push(cmd);
    }
    assert(commands_view(commands@) =~= commands_view(before_mkfs) + step_if(
        state.filesystem is Missing,
        mkfs_command(mapper_path),
    ));

    let filesystem_ready = match &state.filesystem {
        FilesystemState::Present(_) => true,
        FilesystemState::Missing => plan.allow_format,
        FilesystemState::Unknown => false,
    };
    let ghost before_mount = commands@;
    if !state.staged && filesystem_ready {
        let texts = [mapper.as_str(), staging_target_path];
        assert(strs_view(texts@) =~= seq![mapper_path, staging_target_path@]);
        let args = literals(&texts);
        let cmd = command("mount", args, None);
        assert(cmd@ == stage_mount_command(mapper_path, staging_target_path@));
        commands.push(cmd);
    }
    assert(commands_view(commands@) =~= commands_view(before_mount) + step_if(
        !state.staged && filesystem_ready,
        stage_mount_command(mapper_path, staging_target_path@),
    ));
    Ok(commands)
}

} // verus!
