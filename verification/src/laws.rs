//! Properties of the planner that hold for every input.
use vstd::prelude::*;
use vstd::utf8::{encode_utf8, is_ascii_chars};

use crate::ops::command::{materialize, redacted_marker, ArgView, CommandView, SecretValues};
use crate::ops::iscsi::{by_path_name_matches, login_commands, IscsiTarget};
use crate::text::{
    all_digits, digits_value, find_first, find_from, find_last, occurs_at, parse_u32, rfind_upto,
};
use crate::csi::{socket_path_of, EndpointError};
use crate::ops::mountinfo::{decode_mountinfo_bytes, mountinfo_path_decodable};
use crate::ops::stage::{mapper_char, mapper_name_of};
use crate::ops::publish::{publish_commands, PublishPlan, PublishState};
use crate::ops::stage::{
    filesystem_ready, luks_format_command, luks_open_command, mapper_path_of, mkfs_command,
    stage_commands, stage_mount_command, stage_outcome, stage_refusal, supported_fs_type, step_if,
    FilesystemState, StageDeviceState, StagePlan,
};

verus! {

/// Each planned stage command is one of the four steps, planned only when
/// its step is still needed.
proof fn lemma_stage_command_origin(plan: StagePlan, state: StageDeviceState, staging: Seq<char>, i: int)
    requires
        0 <= i < stage_commands(plan, state, staging).len(),
    ensures
        ({
            let c = stage_commands(plan, state, staging)[i];
            let device = state.device_path@;
            let mp = mapper_path_of(plan.mapper_name@);
            ||| c == luks_format_command(device) && !state.luks_header
            ||| c == luks_open_command(device, plan.mapper_name@) && !state.mapper_open
            ||| c == mkfs_command(mp) && state.filesystem is Missing
            ||| c == stage_mount_command(mp, staging) && !state.staged && filesystem_ready(plan, state)
        }),
{
    let device = state.device_path@;
    let mp = mapper_path_of(plan.mapper_name@);
    let a = step_if(!state.luks_header, luks_format_command(device));
    let b = step_if(!state.mapper_open, luks_open_command(device, plan.mapper_name@));
    let c = step_if(state.filesystem is Missing, mkfs_command(mp));
    let d = step_if(!state.staged && filesystem_ready(plan, state), stage_mount_command(mp, staging));
    let all = stage_commands(plan, state, staging);
    assert(all == a + b + c + d);
    if i < a.len() {
        assert(all[i] == a[i]);
    } else if i < a.len() + b.len() {
        assert(all[i] == b[i - a.len()]);
    } else if i < a.len() + b.len() + c.len() {
        assert(all[i] == c[i - a.len() - b.len()]);
    } else {
        assert(all[i] == d[i - a.len() - b.len() - c.len()]);
    }
}

/// Staging writes a LUKS header only when formatting is allowed, on the
/// requested device, which has no LUKS header and no plaintext filesystem:
/// every planned command whose first argument is `luksFormat` comes with
/// all of these.
pub proof fn stage_formats_luks_only_when_allowed(plan: StagePlan, state: StageDeviceState, staging: Seq<char>)
    ensures
        stage_outcome(plan, state, staging) matches Ok(cmds) ==> forall|i: int|
            0 <= i < cmds.len() && cmds[i].args.len() > 0 && #[trigger] cmds[i].args[0]
                == ArgView::Literal("luksFormat"@) ==> plan.allow_format && state.device_matches_target
                && !state.luks_header && state.raw_filesystem is None,
{
    reveal_strlit("luksFormat");
    reveal_strlit("open");
    reveal_strlit("/dev/mapper/");
    if stage_refusal(plan, state) is None {
        let cmds = stage_commands(plan, state, staging);
        assert(mapper_path_of(plan.mapper_name@)[0] == '/');
        assert forall|i: int|
            0 <= i < cmds.len() && cmds[i].args.len() > 0 && #[trigger] cmds[i].args[0]
                == ArgView::Literal("luksFormat"@) implies plan.allow_format && state.device_matches_target
                && !state.luks_header && state.raw_filesystem is None by {
            lemma_stage_command_origin(plan, state, staging, i);
            assert("open"@[0] != "luksFormat"@[0]);
        }
    }
}

/// Staging creates a filesystem only when formatting is allowed and the
/// opened device holds none: every planned `mkfs.ext4` comes with both.
pub proof fn stage_makes_filesystem_only_when_allowed(plan: StagePlan, state: StageDeviceState, staging: Seq<char>)
    ensures
        stage_outcome(plan, state, staging) matches Ok(cmds) ==> forall|i: int|
            0 <= i < cmds.len() && #[trigger] cmds[i].program == "mkfs.ext4"@ ==> plan.allow_format
                && state.device_matches_target && state.filesystem is Missing,
{
    reveal_strlit("mkfs.ext4");
    reveal_strlit("cryptsetup");
    reveal_strlit("mount");
    if stage_refusal(plan, state) is None {
        let cmds = stage_commands(plan, state, staging);
        assert forall|i: int|
            0 <= i < cmds.len() && #[trigger] cmds[i].program == "mkfs.ext4"@ implies plan.allow_format
                && state.device_matches_target && state.filesystem is Missing by {
            lemma_stage_command_origin(plan, state, staging, i);
            assert("cryptsetup"@[0] != "mkfs.ext4"@[0]);
            assert("mount"@[1] != "mkfs.ext4"@[1]);
        }
    }
}

/// No staging command takes a secret as an argument: the LUKS passphrase
/// only ever goes to stdin.
pub proof fn stage_arguments_are_literal(plan: StagePlan, state: StageDeviceState, staging: Seq<char>)
    ensures
        stage_outcome(plan, state, staging) matches Ok(cmds) ==> forall|i: int, j: int|
            0 <= i < cmds.len() && 0 <= j < cmds[i].args.len() ==> #[trigger] cmds[i].args[j] is Literal,
{
    if stage_refusal(plan, state) is None {
        let cmds = stage_commands(plan, state, staging);
        assert forall|i: int, j: int|
            0 <= i < cmds.len() && 0 <= j < cmds[i].args.len() implies #[trigger] cmds[i].args[j] is Literal by {
            lemma_stage_command_origin(plan, state, staging, i);
        }
    }
}

/// Staging a volume that is already staged plans nothing: with the LUKS
/// header present, the mapper open, the requested filesystem present and
/// the staging path mounted, the plan is empty.
pub proof fn stage_is_idempotent(plan: StagePlan, state: StageDeviceState, staging: Seq<char>)
    requires
        state.device_matches_target,
        state.luks_header,
        state.mapper_open,
        state.filesystem matches FilesystemState::Present(found) && found@ == plan.fs_type@,
        state.staged,
        plan.fs_type@ == supported_fs_type(),
    ensures
        stage_outcome(plan, state, staging) == Ok::<Seq<CommandView>, crate::ops::stage::PlanErrorView>(Seq::empty()),
{
    assert(stage_commands(plan, state, staging) =~= Seq::<CommandView>::empty());
}

/// Publishing plans nothing exactly when the target is already mounted in
/// the requested mode (a read-write request accepts either mode).
pub proof fn publish_is_empty_iff_in_place(plan: PublishPlan, state: PublishState)
    ensures
        publish_commands(plan, state).len() == 0 <==> (state.target_mounted && (plan.readonly
            ==> state.target_readonly)),
{
}

/// Logging in without CHAP needs no secret, and with CHAP only the CHAP
/// user name and password are secrets: no login command names the LUKS
/// passphrase, and none feeds anything on stdin.
pub proof fn login_secrets_are_chap_only(target: IscsiTarget, use_chap: bool)
    ensures
        forall|i: int, j: int|
            0 <= i < login_commands(target, use_chap).len() && 0 <= j < login_commands(
                target,
                use_chap,
            )[i].args.len() ==> match #[trigger] login_commands(target, use_chap)[i].args[j] {
                ArgView::Secret(slot) => use_chap && slot != crate::ops::command::SecretSlot::LuksPassphrase,
                ArgView::Literal(_) => true,
            },
        forall|i: int| 0 <= i < login_commands(target, use_chap).len() ==> (#[trigger] login_commands(target, use_chap)[i]).stdin is None,
{
    let cmds = login_commands(target, use_chap);
    assert forall|i: int, j: int|
        0 <= i < cmds.len() && 0 <= j < cmds[i].args.len() implies match #[trigger] cmds[i].args[j] {
            ArgView::Secret(slot) => use_chap && slot != crate::ops::command::SecretSlot::LuksPassphrase,
            ArgView::Literal(_) => true,
        } by {
        if use_chap {
            if 1 <= i <= 3 {
                assert(cmds[i] == crate::ops::iscsi::chap_commands(target)[i - 1]);
            }
        }
    }
}

/// Running a command and showing it agree on every literal argument, and
/// differ only where an argument is a secret: there the run gets the
/// secret's value and the shown form gets `<redacted>`.
pub proof fn materialized_and_redacted_agree(cmd: CommandView, secrets: SecretValues)
    ensures
        materialize(cmd.args, secrets) matches Ok(values) ==> {
            &&& values.len() == cmd.args.len()
            &&& cmd.redacted_args().len() == cmd.args.len()
            &&& forall|i: int|
                0 <= i < cmd.args.len() ==> match #[trigger] cmd.args[i] {
                    ArgView::Literal(text) => values[i] == text && cmd.redacted_args()[i] == text,
                    ArgView::Secret(slot) => secrets.value_of(slot) == Some(values[i])
                        && cmd.redacted_args()[i] == redacted_marker(),
                }
        },
{
    lemma_materialize_positions(cmd.args, secrets);
}

proof fn lemma_materialize_positions(args: Seq<ArgView>, secrets: SecretValues)
    ensures
        materialize(args, secrets) matches Ok(values) ==> values.len() == args.len() && forall|i: int|
            0 <= i < args.len() ==> match #[trigger] args[i] {
                ArgView::Literal(text) => values[i] == text,
                ArgView::Secret(slot) => secrets.value_of(slot) == Some(values[i]),
            },
    decreases args.len(),
{
    if args.len() > 0 {
        lemma_materialize_positions(args.drop_last(), secrets);
        if materialize(args, secrets) is Ok {
            let values = materialize(args, secrets)->Ok_0;
            let prev = materialize(args.drop_last(), secrets)->Ok_0;
            assert forall|i: int| 0 <= i < args.len() implies match #[trigger] args[i] {
                ArgView::Literal(text) => values[i] == text,
                ArgView::Secret(slot) => secrets.value_of(slot) == Some(values[i]),
            } by {
                if i < args.len() - 1 {
                    assert(args[i] == args.drop_last()[i]);
                    assert(values[i] == prev[i]);
                }
            }
        }
    }
}

/// The characters a device-mapper name may hold after its prefix: ASCII
/// letters and digits, `-`, `_` and `.`.
pub open spec fn is_mapper_safe_char(c: char) -> bool {
    ('0' <= c <= '9') || ('A' <= c <= 'Z') || ('a' <= c <= 'z') || c == '-' || c == '_' || c == '.'
}

/// A mapper name is the prefix and `-`, then one safe character per byte of
/// the volume id.
pub proof fn mapper_name_is_safe(prefix: Seq<char>, volume_bytes: Seq<u8>)
    ensures
        mapper_name_of(prefix, volume_bytes).len() == prefix.len() + 1 + volume_bytes.len(),
        mapper_name_of(prefix, volume_bytes).take(prefix.len() as int + 1) == prefix + seq!['-'],
        forall|i: int|
            prefix.len() + 1 <= i < mapper_name_of(prefix, volume_bytes).len() ==> is_mapper_safe_char(
                #[trigger] mapper_name_of(prefix, volume_bytes)[i],
            ),
{
    let name = mapper_name_of(prefix, volume_bytes);
    assert(name.take(prefix.len() as int + 1) =~= prefix + seq!['-']);
    assert forall|i: int|
        prefix.len() + 1 <= i < name.len() implies is_mapper_safe_char(#[trigger] name[i]) by {
        let b = volume_bytes[i - prefix.len() - 1];
        assert(name[i] == mapper_char(b));
    }
}

/// A volume id made only of safe ASCII characters is kept as it is:
/// the mapper name is the prefix, `-`, and the volume id.
pub proof fn mapper_name_keeps_safe_volume_id(prefix: Seq<char>, volume_id: Seq<char>)
    requires
        forall|i: int| 0 <= i < volume_id.len() ==> is_mapper_safe_char(#[trigger] volume_id[i]),
    ensures
        mapper_name_of(prefix, encode_utf8(volume_id)) == prefix + seq!['-'] + volume_id,
{
    assert(is_ascii_chars(volume_id));
    vstd::utf8::is_ascii_chars_encode_utf8(volume_id);
    let bytes = encode_utf8(volume_id);
    assert forall|i: int| 0 <= i < volume_id.len() implies mapper_char(bytes[i]) == volume_id[i] by {
        assert(volume_id[i] as u8 == bytes[i]);
    }
    assert(bytes.map_values(|b: u8| mapper_char(b)) =~= volume_id);
}

/// The bytes of the four-byte escape `\NNN` for `b`, or `b` alone.
pub open spec fn mountinfo_escape_of(b: u8) -> Seq<u8> {
    if b == 0x20 {
        seq![0x5cu8, 0x30u8, 0x34u8, 0x30u8]
    } else if b == 0x09 {
        seq![0x5cu8, 0x30u8, 0x31u8, 0x31u8]
    } else if b == 0x0a {
        seq![0x5cu8, 0x30u8, 0x31u8, 0x32u8]
    } else if b == 0x5c {
        seq![0x5cu8, 0x31u8, 0x33u8, 0x34u8]
    } else {
        seq![b]
    }
}

/// A path as the kernel writes it into mountinfo: space, tab, newline and
/// backslash as octal escapes.
pub open spec fn escape_mountinfo_bytes(b: Seq<u8>) -> Seq<u8>
    decreases b.len(),
{
    if b.len() == 0 {
        Seq::empty()
    } else {
        mountinfo_escape_of(b[0]) + escape_mountinfo_bytes(b.skip(1))
    }
}

/// Decoding undoes the kernel's escaping: every path, escaped and then
/// decoded, comes back byte for byte.
pub proof fn mountinfo_decode_inverts_escape(b: Seq<u8>)
    ensures
        decode_mountinfo_bytes(escape_mountinfo_bytes(b)) == b.map_values(|x: u8| x as char),
    decreases b.len(),
{
    if b.len() > 0 {
        let e = mountinfo_escape_of(b[0]);
        let rest = escape_mountinfo_bytes(b.skip(1));
        let all = escape_mountinfo_bytes(b);
        assert(all == e + rest);
        mountinfo_decode_inverts_escape(b.skip(1));
        if e.len() == 4 {
            assert(all.skip(4) =~= rest);
        } else {
            assert(all.skip(1) =~= rest);
        }
        assert(b.map_values(|x: u8| x as char) =~= seq![b[0] as char] + b.skip(1).map_values(|x: u8| x as char));
    } else {
        assert(b.map_values(|x: u8| x as char) =~= Seq::<char>::empty());
    }
}

/// The character a mountinfo escape `\c1c2c3` stands for.
pub open spec fn mountinfo_escape_chars(c1: char, c2: char, c3: char) -> Option<char> {
    if c1 == '0' && c2 == '1' && c3 == '1' {
        Some('\t')
    } else if c1 == '0' && c2 == '1' && c3 == '2' {
        Some('\n')
    } else if c1 == '0' && c2 == '4' && c3 == '0' {
        Some(' ')
    } else if c1 == '1' && c2 == '3' && c3 == '4' {
        Some('\\')
    } else {
        None
    }
}

/// A text scanned left to right: each backslash followed by at least three
/// characters `011`, `012`, `040` or `134` becomes, with them, a tab,
/// newline, space or backslash; the result is not scanned again, and every
/// other character is copied.
pub open spec fn decode_mountinfo_chars(s: Seq<char>) -> Seq<char>
    decreases s.len(),
{
    if s.len() == 0 {
        Seq::empty()
    } else if s[0] == '\\' && s.len() > 3 && mountinfo_escape_chars(s[1], s[2], s[3]) is Some {
        seq![mountinfo_escape_chars(s[1], s[2], s[3])->0] + decode_mountinfo_chars(s.skip(4))
    } else {
        seq![s[0]] + decode_mountinfo_chars(s.skip(1))
    }
}

proof fn lemma_decode_bytes_chars(b: Seq<u8>, s: Seq<char>)
    requires
        b.len() == s.len(),
        forall|i: int| 0 <= i < s.len() ==> (#[trigger] b[i]) as int == s[i] as int,
    ensures
        decode_mountinfo_bytes(b) == decode_mountinfo_chars(s),
    decreases s.len(),
{
    if s.len() > 0 {
        assert(b[0] as int == s[0] as int);
        assert((b[0] as char) as int == b[0] as int);
        assert((b[0] as char) == s[0]);
        if s.len() > 3 {
            assert(b[1] as int == s[1] as int);
            assert(b[2] as int == s[2] as int);
            assert(b[3] as int == s[3] as int);
        }
        lemma_decode_bytes_chars(b.skip(1), s.skip(1));
        if s.len() >= 4 {
            lemma_decode_bytes_chars(b.skip(4), s.skip(4));
        }
    }
}

/// For ASCII text, decoding a mountinfo path never panics and is the
/// character-level scan [`decode_mountinfo_chars`].
pub proof fn mountinfo_decode_ascii(s: Seq<char>)
    requires
        is_ascii_chars(s),
    ensures
        mountinfo_path_decodable(encode_utf8(s)),
        decode_mountinfo_bytes(encode_utf8(s)) == decode_mountinfo_chars(s),
{
    let b = encode_utf8(s);
    vstd::utf8::is_ascii_chars_encode_utf8(s);
    vstd::utf8::encode_utf8_valid_utf8(s);
    assert forall|i: int| 0 <= i < s.len() implies (#[trigger] b[i]) as int == s[i] as int by {
        assert('\0' <= s[i] <= '\u{7f}');
        assert(s[i] as u8 == b[i]);
        assert((s[i] as int) < 128);
    }
    lemma_decode_bytes_chars(b, s);
    assert forall|i: int| 0 <= i && i + 3 < b.len() && #[trigger] b[i] == 0x5c implies vstd::utf8::is_char_boundary(
        b,
        i + 4,
    ) by {
        if i + 4 < b.len() {
            assert(s[i + 4] as u32 <= 0x7f);
            assert(b[i + 4] == s[i + 4] as u8);
            vstd::utf8::is_char_boundary_iff_not_is_continuation_byte(b, i + 4);
        } else {
            vstd::utf8::is_char_boundary_start_end_of_seq(b);
        }
    }
}

/// A `unix://` endpoint gives back exactly the absolute path after the
/// scheme, and every such path is accepted.
pub proof fn socket_path_round_trip(path: Seq<char>)
    requires
        path.len() > 0,
        path[0] == '/',
    ensures
        socket_path_of("unix://"@ + path) == Ok::<Seq<char>, EndpointError>(path),
{
    let e = "unix://"@ + path;
    assert(e.take("unix://"@.len() as int) =~= "unix://"@);
    assert(e.skip("unix://"@.len() as int) =~= path);
}

/// Whatever path an endpoint yields is absolute and is the endpoint with
/// its `unix://` scheme removed.
pub proof fn socket_path_is_the_rest(endpoint: Seq<char>)
    ensures
        socket_path_of(endpoint) matches Ok(p) ==> p.len() > 0 && p[0] == '/' && endpoint
            == "unix://"@ + p,
{
    if socket_path_of(endpoint) is Ok {
        let p = socket_path_of(endpoint)->Ok_0;
        assert(endpoint =~= endpoint.take("unix://"@.len() as int) + p);
    }
}

/// The decimal digits of `n`, most significant first, without leading zeros.
pub open spec fn decimal(n: nat) -> Seq<char>
    decreases n,
{
    if n < 10 {
        seq![(48 + n) as char]
    } else {
        decimal(n / 10).push((48 + n % 10) as char)
    }
}

/// The name udev gives the by-path link of an iSCSI LUN:
/// `ip-<portal>-iscsi-<iqn>-lun-<lun>`.
pub open spec fn by_path_name_of(target: IscsiTarget) -> Seq<char> {
    "ip-"@ + target.portal@ + "-iscsi-"@ + target.iqn@ + "-lun-"@ + decimal(target.lun as nat)
}

proof fn lemma_decimal_parses(n: nat)
    ensures
        decimal(n).len() > 0,
        all_digits(decimal(n)),
        digits_value(decimal(n)) == n,
        decimal(n)[0] != '+',
        forall|i: int| 0 <= i < decimal(n).len() ==> #[trigger] decimal(n)[i] != '-' && decimal(n)[i] != 'l',
    decreases n,
{
    if n >= 10 {
        lemma_decimal_parses(n / 10);
        let d = decimal(n);
        assert(d.drop_last() =~= decimal(n / 10));
        assert(d.last() == (48 + n % 10) as char);
        assert(d.last() as int - '0' as int == n % 10);
        assert(n == (n / 10) * 10 + n % 10);
        assert(digits_value(d) == digits_value(d.drop_last()) * 10 + (d.last() as int - '0' as int));
    } else {
        assert(digits_value(Seq::<char>::empty()) == 0);
        assert(decimal(n).last() as int - '0' as int == n);
        assert(decimal(n).drop_last() =~= Seq::<char>::empty());
    }
}

proof fn lemma_find_from_at(s: Seq<char>, pat: Seq<char>, i: int, j: int)
    requires
        0 <= i <= j,
        occurs_at(s, pat, j),
        forall|k: int| i <= k < j ==> !occurs_at(s, pat, k),
    ensures
        find_from(s, pat, i) == Some(j),
    decreases j - i,
{
    if i < j {
        lemma_find_from_at(s, pat, i + 1, j);
    }
}

proof fn lemma_rfind_upto_at(s: Seq<char>, pat: Seq<char>, i: int, j: int)
    requires
        0 <= j <= i,
        occurs_at(s, pat, j),
        forall|k: int| j < k <= i ==> !occurs_at(s, pat, k),
    ensures
        rfind_upto(s, pat, i) == Some(j),
    decreases i - j,
{
    if j < i {
        lemma_rfind_upto_at(s, pat, i - 1, j);
    }
}

/// Where a portal without `-` is followed by `-iscsi-`, that is the first
/// `-iscsi-`.
proof fn lemma_first_iscsi_after_portal(portal: Seq<char>, after: Seq<char>)
    requires
        forall|i: int| 0 <= i < portal.len() ==> #[trigger] portal[i] != '-',
    ensures
        find_first(portal + "-iscsi-"@ + after, "-iscsi-"@) == Some(portal.len() as int),
{
    reveal_strlit("-iscsi-");
    let sep = "-iscsi-"@;
    let rest = portal + sep + after;
    let p = portal.len() as int;
    assert(rest.subrange(p, p + sep.len()) =~= sep);
    assert forall|k: int| 0 <= k < p implies !occurs_at(rest, sep, k) by {
        if occurs_at(rest, sep, k) {
            assert(rest.subrange(k, k + sep.len())[0] == rest[k]);
            assert(rest[k] == portal[k]);
        }
    }
    lemma_find_from_at(rest, sep, 0, p);
}

/// Where digits follow `-lun-`, that is the last `-lun-`.
proof fn lemma_last_lun_before_digits(iqn: Seq<char>, digits: Seq<char>)
    requires
        forall|i: int| 0 <= i < digits.len() ==> #[trigger] digits[i] != '-' && digits[i] != 'l',
    ensures
        find_last(iqn + "-lun-"@ + digits, "-lun-"@) == Some(iqn.len() as int),
{
    reveal_strlit("-lun-");
    let lun_sep = "-lun-"@;
    let tail = iqn + lun_sep + digits;
    let q = iqn.len() as int;
    assert(tail.subrange(q, q + lun_sep.len()) =~= lun_sep);
    assert forall|k: int| q < k <= tail.len() - lun_sep.len() implies !occurs_at(tail, lun_sep, k) by {
        if occurs_at(tail, lun_sep, k) {
            let w = tail.subrange(k, k + lun_sep.len());
            assert(w[0] == tail[k]);
            assert(w[1] == tail[k + 1]);
            if k < q + 4 {
                assert(tail[k] == lun_sep[k - q]);
            } else if k == q + 4 {
                assert(tail[k + 1] == digits[k + 1 - q - 5]);
            } else {
                assert(tail[k] == digits[k - q - 5]);
            }
        }
    }
    lemma_rfind_upto_at(tail, lun_sep, tail.len() - lun_sep.len(), q);
}

/// The by-path link udev creates for a target is recognised as that
/// target's device, whatever its IQN, when the portal holds no `-` (as an
/// `address:port` portal does not).
pub proof fn by_path_name_round_trip(target: IscsiTarget)
    requires
        forall|i: int| 0 <= i < target.portal@.len() ==> #[trigger] target.portal@[i] != '-',
    ensures
        by_path_name_matches(by_path_name_of(target), target),
{
    reveal_strlit("ip-");
    let pre = "ip-"@;
    let sep = "-iscsi-"@;
    let lun_sep = "-lun-"@;
    let portal = target.portal@;
    let iqn = target.iqn@;
    let digits = decimal(target.lun as nat);
    lemma_decimal_parses(target.lun as nat);
    let name = by_path_name_of(target);
    let after = iqn + lun_sep + digits;
    let rest = portal + sep + after;
    assert(name =~= pre + rest);
    assert(name.take(pre.len() as int) =~= pre);
    assert(name.skip(pre.len() as int) =~= rest);
    let p = portal.len() as int;
    lemma_first_iscsi_after_portal(portal, after);
    assert(rest.take(p) =~= portal);
    assert(rest.skip(p + sep.len()) =~= after);
    lemma_last_lun_before_digits(iqn, digits);
    let q = iqn.len() as int;
    assert(after.take(q) =~= iqn);
    assert(after.skip(q + lun_sep.len()) =~= digits);
}


proof fn lemma_find_from_first(s: Seq<char>, pat: Seq<char>, i: int)
    ensures
        find_from(s, pat, i) matches Some(j) ==> i <= j && occurs_at(s, pat, j) && forall|k: int|
            i <= k < j ==> !#[trigger] occurs_at(s, pat, k),
    decreases s.len() + 1 - i,
{
    if !(i < 0 || i + pat.len() > s.len()) && !occurs_at(s, pat, i) {
        lemma_find_from_first(s, pat, i + 1);
    }
}

proof fn lemma_rfind_upto_found(s: Seq<char>, pat: Seq<char>, i: int)
    ensures
        rfind_upto(s, pat, i) matches Some(j) ==> j <= i && occurs_at(s, pat, j),
    decreases i + 1,
{
    if i >= 0 && !occurs_at(s, pat, i) {
        lemma_rfind_upto_found(s, pat, i - 1);
    }
}

/// A text that parses as a LUN holds neither `-` nor `l`.
proof fn lemma_lun_text_chars(l: Seq<char>)
    requires
        parse_u32(l) is Some,
    ensures
        forall|i: int| 0 <= i < l.len() ==> #[trigger] l[i] != '-' && l[i] != 'l',
{
    let d = if l.len() > 0 && l[0] == '+' {
        l.drop_first()
    } else {
        l
    };
    assert(all_digits(d));
    assert forall|i: int| 0 <= i < l.len() implies #[trigger] l[i] != '-' && l[i] != 'l' by {
        if l.len() > 0 && l[0] == '+' {
            if i > 0 {
                assert(l[i] == d[i - 1]);
            }
        } else {
            assert(l[i] == d[i]);
        }
    }
}

/// A by-path entry name names the target exactly when it reads
/// `ip-<portal>-iscsi-<iqn>-lun-<l>` with `l` parsing as the target's LUN,
/// for every portal whose first `-iscsi-`, once `-iscsi-` is appended, is the
/// appended one.
pub proof fn by_path_name_characterized(name: Seq<char>, target: IscsiTarget)
    requires
        find_first(target.portal@ + "-iscsi-"@, "-iscsi-"@) == Some(target.portal@.len() as int),
    ensures
        by_path_name_matches(name, target) <==> exists|l: Seq<char>|
            #![trigger parse_u32(l)]
            name == "ip-"@ + target.portal@ + "-iscsi-"@ + target.iqn@ + "-lun-"@ + l && parse_u32(l)
                == Some(target.lun),
{
    reveal_strlit("ip-");
    reveal_strlit("-iscsi-");
    reveal_strlit("-lun-");
    let pre = "ip-"@;
    let sep = "-iscsi-"@;
    let lun_sep = "-lun-"@;
    let portal = target.portal@;
    let iqn = target.iqn@;
    let p = portal.len() as int;
    if by_path_name_matches(name, target) {
        let rest = name.skip(pre.len() as int);
        lemma_find_from_first(rest, sep, 0);
        let i = find_first(rest, sep)->0;
        let tail = rest.skip(i + sep.len());
        lemma_rfind_upto_found(tail, lun_sep, tail.len() - lun_sep.len());
        let k = find_last(tail, lun_sep)->0;
        let l = tail.skip(k + lun_sep.len());
        assert(rest =~= rest.take(i) + rest.subrange(i, i + sep.len()) + tail);
        assert(tail =~= tail.take(k) + tail.subrange(k, k + lun_sep.len()) + l);
        assert(name =~= name.take(pre.len() as int) + rest);
        assert(name =~= pre + portal + sep + iqn + lun_sep + l);
        assert(parse_u32(l) == Some(target.lun));
    }
    if exists|l: Seq<char>|
        #![trigger parse_u32(l)]
        name == pre + portal + sep + iqn + lun_sep + l && parse_u32(l) == Some(target.lun) {
        let l = choose|l: Seq<char>|
            #![trigger parse_u32(l)]
            name == pre + portal + sep + iqn + lun_sep + l && parse_u32(l) == Some(target.lun);
        lemma_lun_text_chars(l);
        let after = iqn + lun_sep + l;
        let head = portal + sep;
        let rest = head + after;
        assert(name =~= pre + rest);
        assert(name.take(pre.len() as int) =~= pre);
        assert(name.skip(pre.len() as int) =~= rest);
        lemma_find_from_first(head, sep, 0);
        assert forall|k: int| 0 <= k < p implies !occurs_at(rest, sep, k) by {
            if occurs_at(rest, sep, k) {
                assert(rest.subrange(k, k + sep.len()) =~= head.subrange(k, k + sep.len()));
                assert(occurs_at(head, sep, k));
            }
        }
        assert(rest.subrange(p, p + sep.len()) =~= sep);
        lemma_find_from_at(rest, sep, 0, p);
        assert(rest.take(p) =~= portal);
        assert(rest.skip(p + sep.len()) =~= after);
        lemma_last_lun_before_digits(iqn, l);
        let q = iqn.len() as int;
        assert(after.take(q) =~= iqn);
        assert(after.skip(q + lun_sep.len()) =~= l);
    }
}

} // verus!
