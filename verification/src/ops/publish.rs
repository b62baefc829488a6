use vstd::prelude::*;

use crate::ops::command::{commands_view, lits, literals, strs_view, CommandView, HostCommand};

verus! {

/// A publish request: bind the staged filesystem into the pod's target path.
#[derive(Debug, Clone, PartialEq, Eq)]
pub struct PublishPlan {
    pub staging_target_path: String,
    pub target_path: String,
    pub readonly: bool,
}

/// What inspection found at the target path.
#[derive(Debug, Clone, Copy, PartialEq, Eq, Structural)]
pub struct PublishState {
    pub target_mounted: bool,
    pub target_readonly: bool,
}

/// Why publishing was refused.
#[derive(Debug, Clone, Copy, PartialEq, Eq, Structural)]
pub enum PublishPlanError {
    ReadonlyMismatch,
}

pub open spec fn bind_mount_command(staging: Seq<char>, target: Seq<char>) -> CommandView {
    CommandView { program: "mount"@, args: lits(seq!["--bind"@, staging, target]), stdin: None }
}

pub open spec fn remount_readonly_command(target: Seq<char>) -> CommandView {
    CommandView { program: "mount"@, args: lits(seq!["-o"@, "remount,bind,ro"@, target]), stdin: None }
}

/// Whether the target is mounted read-only while read-write was asked for.
pub open spec fn publish_refused(plan: PublishPlan, state: PublishState) -> bool {
    state.target_mounted && state.target_readonly && !plan.readonly
}

/// The bind mount unless the target is mounted, then the read-only remount
/// when read-only was asked for and the target is not read-only yet.
pub open spec fn publish_commands(plan: PublishPlan, state: PublishState) -> Seq<CommandView> {
    (if !state.target_mounted {
        seq![bind_mount_command(plan.staging_target_path@, plan.target_path@)]
    } else {
        Seq::empty()
    }) + (if plan.readonly && !state.target_readonly {
        seq![remount_readonly_command(plan.target_path@)]
    } else {
        Seq::empty()
    })
}

/// Plans the host commands that publish a staged volume at the target path.
pub fn publish_host_commands(plan: &PublishPlan, state: &PublishState) -> (out: Result<Vec<HostCommand>, PublishPlanError>)
    ensures
        publish_refused(*plan, *state) ==> out == Err::<Vec<HostCommand>, PublishPlanError>(PublishPlanError::ReadonlyMismatch),
        !publish_refused(*plan, *state) ==> (out matches Ok(cmds) && commands_view(cmds@) == publish_commands(*plan, *state)),
{
    if state.target_mounted && state.target_readonly && !plan.readonly {
        return Err(PublishPlanError::ReadonlyMismatch);
    }
    let mut commands: Vec<HostCommand> = Vec::new();
    if !state.target_mounted {
        let texts = ["--bind", plan.staging_target_path.as_str(), plan.target_path.as_str()];
        assert(strs_view(texts@) =~= seq!["--bind"@, plan.staging_target_path@, plan.target_path@]);
        commands.push(HostCommand { program: "mount".to_owned(), args: literals(&texts), stdin: None });
    }
    let ghost before = commands@;
    if plan.readonly && !state.target_readonly {
        let texts = ["-o", "remount,bind,ro", plan.target_path.as_str()];
        assert(strs_view(texts@) =~= seq!["-o"@, "remount,bind,ro"@, plan.target_path@]);
        commands.push(HostCommand { program: "mount".to_owned(), args: literals(&texts), stdin: None });
    }
    assert(commands_view(commands@) =~= publish_commands(*plan, *state));
    Ok(commands)
}

pub open spec fn unmount_command(path: Seq<char>) -> CommandView {
    CommandView { program: "umount"@, args: lits(seq![path]), stdin: None }
}

/// One `umount` of the path when it is mounted, else nothing.
pub fn unmount_host_commands(path: &str, mounted: bool) -> (out: Vec<HostCommand>)
    ensures
        commands_view(out@) == (if mounted {
            seq![unmount_command(path@)]
        } else {
            Seq::<CommandView>::empty()
        }),
{
    let mut commands: Vec<HostCommand> = Vec::new();
    if mounted {
        let texts = [path];
        assert(strs_view(texts@) =~= seq![path@]);
        commands.push(HostCommand { program: "umount".to_owned(), args: literals(&texts), stdin: None });
    }
    assert(commands_view(commands@) =~= (if mounted {
        seq![unmount_command(path@)]
    } else {
        Seq::<CommandView>::empty()
    }));
    commands
}

} // verus!
