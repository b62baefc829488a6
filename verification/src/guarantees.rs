//! What each planner and reader answers, stated over its inputs with the
//! commands written out, for every input.
use vstd::prelude::*;

use vstd::utf8::encode_utf8;

use crate::ops::command::{lits, opt_string_view, ArgView, CommandView, SecretSlot};
use crate::ops::inspect::{probe_report, DeviceProbe, InspectError};
use crate::ops::iscsi::{login_commands, IscsiTarget};
use crate::ops::mountinfo::{decode_mountinfo_bytes, line_entry, lookup_from, mountinfo_lookup};
use crate::ops::publish::{publish_commands, publish_refused, PublishPlan, PublishState};
use crate::ops::stage::{
    stage_outcome, FilesystemState, FilesystemView, PlanErrorView, StageDeviceState, StagePlan,
};
use crate::text::{split_on, words_of};

verus! {

/// Staging is refused exactly when a safety rule is broken: the device is
/// not the requested LUN; a device without a LUKS header holds a plaintext
/// filesystem or may not be formatted; a missing filesystem may not be
/// created; the filesystem found is not the one asked for; or the one asked
/// for is not ext4. The refusal names the first rule broken, in that order.
pub proof fn stage_refused_exactly_on_broken_rules(plan: StagePlan, state: StageDeviceState, staging: Seq<char>)
    ensures
        stage_outcome(plan, state, staging) is Ok <==> {
            &&& state.device_matches_target
            &&& state.luks_header || (state.raw_filesystem is None && plan.allow_format)
            &&& state.filesystem is Missing ==> plan.allow_format
            &&& state.filesystem matches FilesystemState::Present(f) ==> f@ == plan.fs_type@
            &&& plan.fs_type@ == "ext4"@
        },
        !state.device_matches_target ==> stage_outcome(plan, state, staging) == Err::<Seq<CommandView>, PlanErrorView>(
            PlanErrorView::DeviceMismatch,
        ),
        state.device_matches_target && !state.luks_header ==> (state.raw_filesystem matches Some(f)
            ==> stage_outcome(plan, state, staging) == Err::<Seq<CommandView>, PlanErrorView>(
            PlanErrorView::PlaintextFilesystem(f@),
        )),
        state.device_matches_target && !state.luks_header && state.raw_filesystem is None && !plan.allow_format
            ==> stage_outcome(plan, state, staging) == Err::<Seq<CommandView>, PlanErrorView>(
            PlanErrorView::MissingLuksHeader,
        ),
        state.device_matches_target && state.luks_header && state.filesystem is Missing && !plan.allow_format
            ==> stage_outcome(plan, state, staging) == Err::<Seq<CommandView>, PlanErrorView>(
            PlanErrorView::MissingFilesystem,
        ),
        state.device_matches_target && (state.luks_header || (state.raw_filesystem is None && plan.allow_format))
            ==> (state.filesystem matches FilesystemState::Present(f) ==> (f@ != plan.fs_type@
            ==> stage_outcome(plan, state, staging) == Err::<Seq<CommandView>, PlanErrorView>(
            PlanErrorView::FilesystemMismatch { found: f@, expected: plan.fs_type@ },
        ))),
        state.device_matches_target && (state.luks_header || (state.raw_filesystem is None && plan.allow_format))
            && (state.filesystem is Missing ==> plan.allow_format) && (state.filesystem matches FilesystemState::Present(
            f,
        ) ==> f@ == plan.fs_type@) && plan.fs_type@ != "ext4"@ ==> stage_outcome(plan, state, staging) == Err::<
            Seq<CommandView>,
            PlanErrorView,
        >(PlanErrorView::UnsupportedFilesystem(plan.fs_type@)),
{
    reveal_strlit("ext4");
}

/// An accepted stage plan is, in order: `cryptsetup luksFormat` on the
/// device when it has no LUKS header; `cryptsetup open` of the device as
/// the mapper name when the mapper is not open; `mkfs.ext4` on the mapper
/// device when it holds no filesystem; and the mount of the mapper device
/// at the staging path when the path is not mounted yet and a filesystem is
/// known to be there. With a LUKS header, an open mapper, no filesystem and
/// formatting allowed, that is `mkfs.ext4` then the mount.
pub proof fn stage_plan_is_the_missing_steps(plan: StagePlan, state: StageDeviceState, staging: Seq<char>)
    ensures
        stage_outcome(plan, state, staging) matches Ok(cmds) ==> cmds == {
            let device = state.device_path@;
            let mapper = "/dev/mapper/"@ + plan.mapper_name@;
            (if !state.luks_header {
                seq![
                    CommandView {
                        program: "cryptsetup"@,
                        args: lits(seq!["luksFormat"@, "--type"@, "luks2"@, device, "--key-file"@, "-"@]),
                        stdin: Some(SecretSlot::LuksPassphrase),
                    },
                ]
            } else {
                Seq::empty()
            }) + (if !state.mapper_open {
                seq![
                    CommandView {
                        program: "cryptsetup"@,
                        args: lits(
                            seq!["open"@, device, plan.mapper_name@, "--type"@, "luks2"@, "--key-file"@, "-"@],
                        ),
                        stdin: Some(SecretSlot::LuksPassphrase),
                    },
                ]
            } else {
                Seq::empty()
            }) + (if state.filesystem is Missing {
                seq![CommandView { program: "mkfs.ext4"@, args: lits(seq![mapper]), stdin: None }]
            } else {
                Seq::empty()
            }) + (if !state.staged && !(state.filesystem is Unknown) {
                seq![CommandView { program: "mount"@, args: lits(seq![mapper, staging]), stdin: None }]
            } else {
                Seq::empty()
            })
        },
{
    reveal_strlit("ext4");
    if stage_outcome(plan, state, staging) is Ok {
        let cmds = stage_outcome(plan, state, staging)->Ok_0;
        assert(cmds =~= {
            let device = state.device_path@;
            let mapper = "/dev/mapper/"@ + plan.mapper_name@;
            (if !state.luks_header {
                seq![
                    CommandView {
                        program: "cryptsetup"@,
                        args: lits(seq!["luksFormat"@, "--type"@, "luks2"@, device, "--key-file"@, "-"@]),
                        stdin: Some(SecretSlot::LuksPassphrase),
                    },
                ]
            } else {
                Seq::empty()
            }) + (if !state.mapper_open {
                seq![
                    CommandView {
                        program: "cryptsetup"@,
                        args: lits(
                            seq!["open"@, device, plan.mapper_name@, "--type"@, "luks2"@, "--key-file"@, "-"@],
                        ),
                        stdin: Some(SecretSlot::LuksPassphrase),
                    },
                ]
            } else {
                Seq::empty()
            }) + (if state.filesystem is Missing {
                seq![CommandView { program: "mkfs.ext4"@, args: lits(seq![mapper]), stdin: None }]
            } else {
                Seq::empty()
            }) + (if !state.staged && !(state.filesystem is Unknown) {
                seq![CommandView { program: "mount"@, args: lits(seq![mapper, staging]), stdin: None }]
            } else {
                Seq::empty()
            })
        });
    }
}


/// What a probe run reports, read from the probes' outcomes: the first
/// failure, in the order LUKS check, raw probe (run only without a header),
/// mapper probe (run only when the mapper is open); otherwise a report whose
/// header is the LUKS answer, whose raw filesystem is the raw probe's answer
/// (none with a header), and whose filesystem, with the mapper open, is
/// `Present(f)` for every type `f` the mapper probe reads and `Missing`
/// exactly when it reads none; with the mapper closed it is `Missing` for a
/// blank device without a header, else `Unknown`.
pub proof fn probe_report_follows_the_probes(
    out: Result<DeviceProbe, InspectError>,
    device: Seq<char>,
    mapper_open: bool,
    luks: Result<bool, InspectError>,
    raw: Result<Option<String>, InspectError>,
    mapper_fs: Result<Option<String>, InspectError>,
)
    requires
        probe_report(out, device, mapper_open, luks, raw, mapper_fs),
    ensures
        luks matches Err(e) ==> out == Err::<DeviceProbe, InspectError>(e),
        luks == Ok::<bool, InspectError>(false) ==> (raw matches Err(e) ==> out == Err::<DeviceProbe, InspectError>(e)),
        luks is Ok && (luks == Ok::<bool, InspectError>(true) || raw is Ok) && mapper_open ==> (mapper_fs matches Err(e)
            ==> out == Err::<DeviceProbe, InspectError>(e)),
        out is Ok <==> (luks is Ok && (luks == Ok::<bool, InspectError>(true) || raw is Ok) && (mapper_open
            ==> mapper_fs is Ok)),
        out matches Ok(p) ==> {
            &&& p.device_path@ == device
            &&& p.luks_header == (luks == Ok::<bool, InspectError>(true))
            &&& p.luks_header ==> p.raw_filesystem is None
            &&& !p.luks_header ==> (raw matches Ok(r) && opt_string_view(p.raw_filesystem) == opt_string_view(r))
            &&& p.mapper_open == mapper_open
            &&& mapper_open ==> (mapper_fs matches Ok(found) && (found matches Some(f) ==> p.filesystem@
                == FilesystemView::Present(f@)) && (found is None <==> p.filesystem@ == FilesystemView::Missing))
            &&& !mapper_open ==> p.filesystem@ == (if !p.luks_header && p.raw_filesystem is None {
                FilesystemView::Missing
            } else {
                FilesystemView::Unknown
            })
        },
{
}

/// Whether a mountinfo line has a mount point field and that field, decoded,
/// is exactly `target`.
pub open spec fn line_mounts(line: Seq<char>, target: Seq<char>) -> bool {
    words_of(line).len() >= 5 && decode_mountinfo_bytes(encode_utf8(words_of(line)[4])) == target
}

/// A line's options: its sixth field cut at commas, none without one.
pub open spec fn line_options(line: Seq<char>) -> Seq<Seq<char>> {
    if words_of(line).len() >= 6 {
        split_on(words_of(line)[5], ',')
    } else {
        Seq::empty()
    }
}

proof fn lemma_lookup_from_exact(lines: Seq<Seq<char>>, i: int, target: Seq<char>)
    requires
        0 <= i,
    ensures
        lookup_from(lines, i, target) matches Some(options) ==> exists|k: int|
            i <= k < lines.len() && #[trigger] line_mounts(lines[k], target) && options == line_options(lines[k])
                && forall|j: int| i <= j < k ==> !#[trigger] line_mounts(lines[j], target),
        (exists|k: int| i <= k < lines.len() && #[trigger] line_mounts(lines[k], target)) ==> lookup_from(
            lines,
            i,
            target,
        ) is Some,
    decreases lines.len() - i,
{
    if i < lines.len() {
        assert(line_entry(lines[i], target) is Some <==> line_mounts(lines[i], target));
        assert(line_entry(lines[i], target) matches Some(o) ==> o == line_options(lines[i]));
        lemma_lookup_from_exact(lines, i + 1, target);
        if lookup_from(lines, i, target) is Some && !line_mounts(lines[i], target) {
            let options = lookup_from(lines, i, target)->0;
            let k = choose|k: int|
                i + 1 <= k < lines.len() && #[trigger] line_mounts(lines[k], target) && options == line_options(
                    lines[k],
                ) && forall|j: int| i + 1 <= j < k ==> !#[trigger] line_mounts(lines[j], target);
            assert(forall|j: int| i <= j < k ==> !#[trigger] line_mounts(lines[j], target));
        }
        if (exists|k: int| i <= k < lines.len() && #[trigger] line_mounts(lines[k], target)) && !line_mounts(
            lines[i],
            target,
        ) {
            let k = choose|k: int| i <= k < lines.len() && #[trigger] line_mounts(lines[k], target);
            assert(k != i);
            assert(i + 1 <= k < lines.len() && line_mounts(lines[k], target));
        }
    }
}

/// The mount lookup finds a path only at a line whose decoded mount point is
/// exactly the path: it gives the options of the first such line, and it
/// finds something whenever such a line exists. A line whose mount point
/// merely starts with the path is skipped.
pub proof fn mountinfo_lookup_is_exact(text: Seq<char>, target: Seq<char>)
    ensures
        mountinfo_lookup(text, target) matches Some(options) ==> exists|k: int|
            0 <= k < split_on(text, '\n').len() && #[trigger] line_mounts(split_on(text, '\n')[k], target)
                && options == line_options(split_on(text, '\n')[k]) && forall|j: int|
                0 <= j < k ==> !#[trigger] line_mounts(split_on(text, '\n')[j], target),
        (exists|k: int| 0 <= k < split_on(text, '\n').len() && #[trigger] line_mounts(split_on(text, '\n')[k], target))
            ==> mountinfo_lookup(text, target) is Some,
{
    lemma_lookup_from_exact(split_on(text, '\n'), 0, target);
}

/// The node setting `name` of the target set to `value` by `iscsiadm`.
pub open spec fn node_setting(target: IscsiTarget, name: Seq<char>, value: ArgView) -> CommandView {
    CommandView {
        program: "iscsiadm"@,
        args: lits(
            seq![
                "--mode"@,
                "node"@,
                "--targetname"@,
                target.iqn@,
                "--portal"@,
                target.portal@,
                "--op"@,
                "update"@,
                "--name"@,
                name,
                "--value"@,
            ],
        ).push(value),
        stdin: None,
    }
}

/// The login plan starts with SendTargets discovery at the target's portal
/// and ends with the node login to the target at that portal; with CHAP the
/// three CHAP settings stand between them, without it nothing does.
pub proof fn login_plan_discovers_then_logs_in(target: IscsiTarget, use_chap: bool)
    ensures
        login_commands(target, use_chap).len() == (if use_chap {
            5int
        } else {
            2int
        }),
        login_commands(target, use_chap)[0] == (CommandView {
            program: "iscsiadm"@,
            args: lits(seq!["--mode"@, "discovery"@, "--type"@, "sendtargets"@, "--portal"@, target.portal@]),
            stdin: None,
        }),
        login_commands(target, use_chap).last() == (CommandView {
            program: "iscsiadm"@,
            args: lits(
                seq!["--mode"@, "node"@, "--targetname"@, target.iqn@, "--portal"@, target.portal@, "--login"@],
            ),
            stdin: None,
        }),
{
    let cmds = login_commands(target, use_chap);
    assert(cmds.last().args =~= lits(
        seq!["--mode"@, "node"@, "--targetname"@, target.iqn@, "--portal"@, target.portal@, "--login"@],
    ));
}

/// With CHAP the login plan sets, between discovery and login, the
/// authentication method to `CHAP`, the user name from the CHAP user name
/// secret and the password from the CHAP password secret, in that order;
/// every command that hands over a CHAP secret sets the setting named for it.
pub proof fn chap_settings_take_their_own_secrets(target: IscsiTarget)
    ensures
        login_commands(target, true).len() == 5,
        login_commands(target, true)[1] == node_setting(
            target,
            "node.session.auth.authmethod"@,
            ArgView::Literal("CHAP"@),
        ),
        login_commands(target, true)[2] == node_setting(
            target,
            "node.session.auth.username"@,
            ArgView::Secret(SecretSlot::ChapUsername),
        ),
        login_commands(target, true)[3] == node_setting(
            target,
            "node.session.auth.password"@,
            ArgView::Secret(SecretSlot::ChapPassword),
        ),
        forall|i: int|
            0 <= i < login_commands(target, true).len() && #[trigger] login_commands(target, true)[i].args.len() >= 3
                ==> {
                let a = login_commands(target, true)[i].args;
                &&& a.last() == ArgView::Secret(SecretSlot::ChapUsername) ==> a[a.len() - 3] == ArgView::Literal(
                    "node.session.auth.username"@,
                )
                &&& a.last() == ArgView::Secret(SecretSlot::ChapPassword) ==> a[a.len() - 3] == ArgView::Literal(
                    "node.session.auth.password"@,
                )
            },
{
    let cmds = login_commands(target, true);
    assert(cmds[1].args =~= node_setting(target, "node.session.auth.authmethod"@, ArgView::Literal("CHAP"@)).args);
    assert(cmds[2].args =~= node_setting(target, "node.session.auth.username"@, ArgView::Secret(SecretSlot::ChapUsername)).args);
    assert(cmds[3].args =~= node_setting(target, "node.session.auth.password"@, ArgView::Secret(SecretSlot::ChapPassword)).args);
    assert forall|i: int|
        0 <= i < cmds.len() && #[trigger] cmds[i].args.len() >= 3 implies {
        let a = cmds[i].args;
        &&& a.last() == ArgView::Secret(SecretSlot::ChapUsername) ==> a[a.len() - 3] == ArgView::Literal(
            "node.session.auth.username"@,
        )
        &&& a.last() == ArgView::Secret(SecretSlot::ChapPassword) ==> a[a.len() - 3] == ArgView::Literal(
            "node.session.auth.password"@,
        )
    } by {
        let a = cmds[i].args;
        if i == 0 || i == 4 {
            assert(a.last() is Literal);
        } else if i == 1 {
            assert(a.last() == ArgView::Literal("CHAP"@));
        } else if i == 2 {
            assert(a[a.len() - 3] == ArgView::Literal("node.session.auth.username"@));
        } else {
            assert(a[a.len() - 3] == ArgView::Literal("node.session.auth.password"@));
        }
    }
}

/// Publishing is refused exactly when the target is mounted read-only and
/// read-write was asked for. Otherwise the plan is the bind mount of the
/// staging path at the target when the target is not mounted, then the
/// read-only remount of the target when read-only was asked for and the
/// target is not read-only; so a read-only request on a target mounted
/// read-write is answered with that remount alone.
pub proof fn publish_refused_only_on_readonly_conflict(plan: PublishPlan, state: PublishState)
    ensures
        publish_refused(plan, state) <==> (state.target_mounted && state.target_readonly && !plan.readonly),
        !publish_refused(plan, state) ==> publish_commands(plan, state) == (if !state.target_mounted {
            seq![
                CommandView {
                    program: "mount"@,
                    args: lits(seq!["--bind"@, plan.staging_target_path@, plan.target_path@]),
                    stdin: None,
                },
            ]
        } else {
            Seq::<CommandView>::empty()
        }) + (if plan.readonly && !state.target_readonly {
            seq![
                CommandView {
                    program: "mount"@,
                    args: lits(seq!["-o"@, "remount,bind,ro"@, plan.target_path@]),
                    stdin: None,
                },
            ]
        } else {
            Seq::<CommandView>::empty()
        }),
        state.target_mounted && !state.target_readonly && plan.readonly ==> !publish_refused(plan, state)
            && publish_commands(plan, state) == seq![
            CommandView {
                program: "mount"@,
                args: lits(seq!["-o"@, "remount,bind,ro"@, plan.target_path@]),
                stdin: None,
            },
        ],
{
    if state.target_mounted && !state.target_readonly && plan.readonly {
        assert(publish_commands(plan, state) =~= seq![
            CommandView {
                program: "mount"@,
                args: lits(seq!["-o"@, "remount,bind,ro"@, plan.target_path@]),
                stdin: None,
            },
        ]);
    }
}

} // verus!
