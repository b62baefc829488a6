use vstd::prelude::*;

use crate::text::{
    chars_eq, chars_of, find_first, find_first_exec, find_last, find_last_exec, occurs_at_exec,
    parse_u32, parse_u32_chars, sub_chars,
};
use crate::ops::command::{
    args_view, commands_view, lits, literals, strs_view, ArgView, CommandArg, CommandView, HostCommand,
    SecretSlot,
};

verus! {

/// An iSCSI target and the LUN on it.
#[derive(Debug, Clone, PartialEq, Eq)]
pub struct IscsiTarget {
    pub portal: String,
    pub iqn: String,
    pub lun: u32,
}

/// `iscsiadm` node-mode arguments that select the target, then the tail.
pub open spec fn node_args(target: IscsiTarget, tail: Seq<Seq<char>>) -> Seq<ArgView> {
    lits(seq!["--mode"@, "node"@, "--targetname"@, target.iqn@, "--portal"@, target.portal@] + tail)
}

/// The `iscsiadm` command that sets one node setting of the target.
pub open spec fn node_update_command(target: IscsiTarget, name: Seq<char>, value: ArgView) -> CommandView {
    CommandView {
        program: "iscsiadm"@,
        args: node_args(target, seq!["--op"@, "update"@, "--name"@, name, "--value"@]).push(value),
        stdin: None,
    }
}

pub open spec fn discovery_command(target: IscsiTarget) -> CommandView {
    CommandView {
        program: "iscsiadm"@,
        args: lits(seq!["--mode"@, "discovery"@, "--type"@, "sendtargets"@, "--portal"@, target.portal@]),
        stdin: None,
    }
}

pub open spec fn login_command(target: IscsiTarget) -> CommandView {
    CommandView { program: "iscsiadm"@, args: node_args(target, seq!["--login"@]), stdin: None }
}

/// The three node updates that switch the session to CHAP with the
/// credentials taken from the secret slots.
pub open spec fn chap_commands(target: IscsiTarget) -> Seq<CommandView> {
    seq![
        node_update_command(target, "node.session.auth.authmethod"@, ArgView::Literal("CHAP"@)),
        node_update_command(target, "node.session.auth.username"@, ArgView::Secret(SecretSlot::ChapUsername)),
        node_update_command(target, "node.session.auth.password"@, ArgView::Secret(SecretSlot::ChapPassword)),
    ]
}

/// Discovery, the CHAP settings when asked for, then login.
pub open spec fn login_commands(target: IscsiTarget, use_chap: bool) -> Seq<CommandView> {
    seq![discovery_command(target)] + (if use_chap {
        chap_commands(target)
    } else {
        Seq::empty()
    }) + seq![login_command(target)]
}

/// `iscsiadm` node-mode arguments for the target followed by `tail`.
pub fn iscsi_base_args(target: &IscsiTarget, tail: &[&str]) -> (out: Vec<CommandArg>)
    ensures
        args_view(out@) == node_args(*target, strs_view(tail@)),
{
    let head = [
        "--mode",
        "node",
        "--targetname",
        target.iqn.as_str(),
        "--portal",
        target.portal.as_str(),
    ];
    let mut args = literals(&head);
    let mut rest = literals(tail);
    let ghost a = args@;
    let ghost b = rest@;
    args.append(&mut rest);
    assert(args_view(args@) =~= args_view(a) + args_view(b));
    assert(strs_view(head@) =~= seq!["--mode"@, "node"@, "--targetname"@, target.iqn@, "--portal"@, target.portal@]);
    assert(node_args(*target, strs_view(tail@)) =~= lits(strs_view(head@)) + lits(strs_view(tail@)));
    args
}

/// The `iscsiadm` command that sets node setting `name` of the target to `value`.
pub fn iscsi_update(target: &IscsiTarget, name: &str, value: CommandArg) -> (out: HostCommand)
    ensures
        out@ == node_update_command(*target, name@, value@),
{
    let tail = ["--op", "update", "--name", name, "--value"];
    assert(strs_view(tail@) =~= seq!["--op"@, "update"@, "--name"@, name@, "--value"@]);
    let mut args = iscsi_base_args(target, &tail);
    let ghost before = args@;
    args.push(value);
    assert(args_view(args@) =~= args_view(before).push(value@));
    HostCommand { program: "iscsiadm".to_owned(), args, stdin: None }
}

/// The commands that log the node in to the target: discovery, the CHAP
/// settings when `use_chap`, then login. CHAP credentials appear only as
/// secret slots, never as text.
pub fn iscsi_login_commands(target: &IscsiTarget, use_chap: bool) -> (out: Vec<HostCommand>)
    ensures
        commands_view(out@) == login_commands(*target, use_chap),
{
    let discovery = [
        "--mode",
        "discovery",
        "--type",
        "sendtargets",
        "--portal",
        target.portal.as_str(),
    ];
    assert(strs_view(discovery@) =~= seq!["--mode"@, "discovery"@, "--type"@, "sendtargets"@, "--portal"@, target.portal@]);
    let mut commands: Vec<HostCommand> = Vec::new();
    commands.push(HostCommand { program: "iscsiadm".to_owned(), args: literals(&discovery), stdin: None });
    assert(commands_view(commands@) =~= seq![discovery_command(*target)]);
    if use_chap {
        commands.push(iscsi_update(target, "node.session.auth.authmethod", CommandArg::Literal("CHAP".to_owned())));
        commands.push(iscsi_update(target, "node.session.auth.username", CommandArg::Secret(SecretSlot::ChapUsername)));
        commands.push(iscsi_update(target, "node.session.auth.password", CommandArg::Secret(SecretSlot::ChapPassword)));
        assert(commands_view(commands@) =~= seq![discovery_command(*target)] + chap_commands(*target));
    }
    let ghost before = commands@;
    let login = ["--login"];
    assert(strs_view(login@) =~= seq!["--login"@]);
    commands.push(HostCommand { program: "iscsiadm".to_owned(), args: iscsi_base_args(target, &login), stdin: None });
    assert(commands_view(commands@) =~= commands_view(before).push(login_command(*target)));
    assert(login_commands(*target, use_chap) =~= commands_view(before).push(login_command(*target)));
    commands
}


/// Whether a `/dev/disk/by-path` entry name, `ip-<portal>-iscsi-<iqn>-lun-<lun>`,
/// names the target: the portal ends at the first `-iscsi-`, the IQN at the
/// last `-lun-`, and the LUN must parse as the target's LUN.
pub open spec fn by_path_name_matches(name: Seq<char>, target: IscsiTarget) -> bool {
    let pre = "ip-"@;
    let sep = "-iscsi-"@;
    let lun_sep = "-lun-"@;
    pre.len() <= name.len() && name.take(pre.len() as int) == pre && {
        let rest = name.skip(pre.len() as int);
        match find_first(rest, sep) {
            None => false,
            Some(i) => {
                let portal = rest.take(i);
                let tail = rest.skip(i + sep.len());
                match find_last(tail, lun_sep) {
                    None => false,
                    Some(k) => portal == target.portal@ && tail.take(k) == target.iqn@ && parse_u32(
                        tail.skip(k + lun_sep.len()),
                    ) == Some(target.lun),
                }
            },
        }
    }
}

/// Whether a by-path entry name names the target.
pub fn iscsi_by_path_name_matches(name: &str, target: &IscsiTarget) -> (b: bool)
    ensures
        b == by_path_name_matches(name@, *target),
{
    let n = chars_of(name);
    let pre = chars_of("ip-");
    let sep = chars_of("-iscsi-");
    let lun_sep = chars_of("-lun-");
    if pre.len() > n.len() || !occurs_at_exec(&n, &pre, 0) {
        assert(pre@.len() <= n@.len() ==> n@.subrange(0, pre@.len() as int) =~= n@.take(pre@.len() as int));
        return false;
    }
    assert(n@.subrange(0, pre@.len() as int) =~= n@.take(pre@.len() as int));
    let rest = sub_chars(&n, pre.len(), n.len());
    assert(rest@ =~= n@.skip(pre@.len() as int));
    let i = match find_first_exec(&rest, &sep) {
        None => return false,
        Some(i) => i,
    };
    let portal = sub_chars(&rest, 0, i);
    assert(portal@ =~= rest@.take(i as int));
    let tail = sub_chars(&rest, i + sep.len(), rest.len());
    assert(tail@ =~= rest@.skip(i + sep@.len()));
    assert(find_first(rest@, sep@) == Some(i as int));
    let k = match find_last_exec(&tail, &lun_sep) {
        None => {
            assert(find_last(tail@, lun_sep@) is None);
            return false;
        },
        Some(k) => k,
    };
    assert(find_last(tail@, lun_sep@) == Some(k as int));
    let iqn = sub_chars(&tail, 0, k);
    assert(iqn@ =~= tail@.take(k as int));
    let lun = sub_chars(&tail, k + lun_sep.len(), tail.len());
    assert(lun@ =~= tail@.skip(k + lun_sep@.len()));
    let portal_ok = chars_eq(&portal, &chars_of(target.portal.as_str()));
    let iqn_ok = chars_eq(&iqn, &chars_of(target.iqn.as_str()));
    let lun_ok = match parse_u32_chars(&lun) {
        Some(v) => v == target.lun,
        None => false,
    };
    assert(lun_ok == (parse_u32(lun@) == Some(target.lun)));
    assert(by_path_name_matches(name@, *target) == (portal@ == target.portal@ && iqn@ == target.iqn@
        && parse_u32(lun@) == Some(target.lun)));
    portal_ok && iqn_ok && lun_ok
}

/// One entry of the by-path directory: its file name and its full path.
#[derive(Debug, Clone, PartialEq, Eq)]
pub struct ByPathEntry {
    pub name: String,
    pub path: String,
}

/// Why the target's device could not be found.
#[derive(Debug, PartialEq, Eq)]
pub enum DeviceResolveError {
    ReadDir { path: String, message: String },
    NotFound,
    Multiple(Vec<String>),
}

/// The paths of the entries whose names name the target, in order.
pub open spec fn matching_paths(entries: Seq<ByPathEntry>, target: IscsiTarget) -> Seq<Seq<char>>
    decreases entries.len(),
{
    if entries.len() == 0 {
        Seq::empty()
    } else {
        let done = matching_paths(entries.drop_last(), target);
        if by_path_name_matches(entries.last().name@, target) {
            done.push(entries.last().path@)
        } else {
            done
        }
    }
}

/// Picks the one by-path entry that names the target; none is `NotFound`,
/// several are `Multiple` with their paths.
pub fn select_iscsi_device(entries: &Vec<ByPathEntry>, target: &IscsiTarget) -> (out: Result<String, DeviceResolveError>)
    ensures
        ({
            let found = matching_paths(entries@, *target);
            &&& found.len() == 0 ==> out == Err::<String, DeviceResolveError>(DeviceResolveError::NotFound)
            &&& found.len() == 1 ==> (out matches Ok(p) && p@ == found[0])
            &&& found.len() > 1 ==> (out matches Err(DeviceResolveError::Multiple(paths))
                && crate::text::strings_view(paths@) == found)
        }),
{
    let mut matches: Vec<String> = Vec::new();
    for i in 0..entries.len()
        invariant
            crate::text::strings_view(matches@) == matching_paths(entries@.take(i as int), *target),
    {
        assert(entries@.take(i + 1).drop_last() =~= entries@.take(i as int));
        if iscsi_by_path_name_matches(entries[i].name.as_str(), target) {
            let ghost before = matches@;
            let p = entries[i].path.clone();
            matches.push(p);
            assert(crate::text::strings_view(matches@) =~= crate::text::strings_view(before).push(p@));
        }
    }
    assert(entries@.take(entries@.len() as int) =~= entries@);
    if matches.len() == 0 {
        Err(DeviceResolveError::NotFound)
    } else if matches.len() == 1 {
        let p = matches[0].clone();
        Ok(p)
    } else {
        Err(DeviceResolveError::Multiple(matches))
    }
}

} // verus!
