//! Planning of the host commands that stage, publish and unpublish a volume,
//! and reading back what the host reports.
pub mod command;
pub mod inspect;
pub mod iscsi;
pub mod mountinfo;
pub mod publish;
pub mod stage;

pub use command::{
    literals, CommandArg, CommandOutput, CommandRunError, HostCommand, HostRunner, SecretSlot,
    SecretValues, TracedRunner,
};
pub use inspect::{
    cryptsetup_is_luks, filesystem_probe_command, filesystem_probe_result, filesystem_type,
    luks_probe_command, luks_probe_result, probe_stage_device, stage_device_state, DeviceProbe,
    HostPaths, InspectError,
};
pub use iscsi::{
    iscsi_base_args, iscsi_by_path_name_matches, iscsi_login_commands, iscsi_update,
    select_iscsi_device, ByPathEntry, DeviceResolveError, IscsiTarget,
};
pub use mountinfo::{
    decode_mountinfo_path, mountinfo_entry, mountinfo_lookup_is_defined, publish_state_from_mountinfo,
    MountInfoEntry,
};
pub use publish::{
    publish_host_commands, unmount_host_commands, PublishPlan, PublishPlanError, PublishState,
};
pub use stage::{
    safe_mapper_name, stage_host_commands, FilesystemState, PlanError, SafetyError, StageDeviceState,
    StagePlan,
};
