use vstd::prelude::*;
use vstd::string::StringSliceAdditionalSpecFns;
use vstd::utf8::{encode_utf8, is_char_boundary};

use crate::ops::publish::PublishState;
use crate::text::{
    chars_of, nested_view, push_char, split_chars, split_on, split_words, str_eq, string_from_chars,
    strings_view, words_of,
};

verus! {

/// The character a mountinfo octal escape stands for: `\011` tab, `\012`
/// newline, `\040` space, `\134` backslash.
pub open spec fn mountinfo_escape(d1: u8, d2: u8, d3: u8) -> Option<char> {
    if d1 == 0x30 && d2 == 0x31 && d3 == 0x31 {
        Some('\t')
    } else if d1 == 0x30 && d2 == 0x31 && d3 == 0x32 {
        Some('\n')
    } else if d1 == 0x30 && d2 == 0x34 && d3 == 0x30 {
        Some(' ')
    } else if d1 == 0x31 && d2 == 0x33 && d3 == 0x34 {
        Some('\\')
    } else {
        None
    }
}

/// A mountinfo path with its escapes decoded; every other byte becomes the
/// character with that byte's value.
pub open spec fn decode_mountinfo_bytes(b: Seq<u8>) -> Seq<char>
    decreases b.len(),
{
    if b.len() == 0 {
        Seq::empty()
    } else if b[0] == 0x5c && b.len() > 3 && mountinfo_escape(b[1], b[2], b[3]) is Some {
        seq![mountinfo_escape(b[1], b[2], b[3])->0] + decode_mountinfo_bytes(b.skip(4))
    } else {
        seq![b[0] as char] + decode_mountinfo_bytes(b.skip(1))
    }
}

/// Whether decoding can look at the three bytes after every backslash as a
/// string slice: the slice must end on a character boundary.
pub open spec fn mountinfo_path_decodable(b: Seq<u8>) -> bool {
    forall|i: int|
        0 <= i && i + 3 < b.len() && #[trigger] b[i] == 0x5c ==> is_char_boundary(b, i + 4)
}

fn escape_for(d1: u8, d2: u8, d3: u8) -> (out: Option<char>)
    ensures
        out == mountinfo_escape(d1, d2, d3),
{
    if d1 == 0x30 && d2 == 0x31 && d3 == 0x31 {
        Some('\t')
    } else if d1 == 0x30 && d2 == 0x31 && d3 == 0x32 {
        Some('\n')
    } else if d1 == 0x30 && d2 == 0x34 && d3 == 0x30 {
        Some(' ')
    } else if d1 == 0x31 && d2 == 0x33 && d3 == 0x34 {
        Some('\\')
    } else {
        None
    }
}

/// Decodes a mountinfo path, or gives `None` where decoding would slice the
/// path inside a character.
fn decode_checked(value: &str) -> (out: Option<String>)
    ensures
        out is Some <==> mountinfo_path_decodable(value.spec_bytes()),
        out matches Some(s) ==> s@ == decode_mountinfo_bytes(value.spec_bytes()),
{
    let bytes = value.as_bytes();
    let ghost all = bytes@;
    let mut decoded = String::new();
    let mut index: usize = 0;
    assert(all.skip(0) =~= all);
    while index < bytes.len()
        invariant
            all == bytes@,
            all == value.spec_bytes(),
            index <= bytes.len(),
            decoded@ + decode_mountinfo_bytes(all.skip(index as int)) == decode_mountinfo_bytes(all),
            forall|j: int|
                0 <= j < index && j + 3 < all.len() && #[trigger] all[j] == 0x5c ==> is_char_boundary(
                    all,
                    j + 4,
                ),
        decreases bytes.len() - index,
    {
        let ghost rest = all.skip(index as int);
        if bytes[index] == 0x5c && bytes.len() - index > 3 {
            if !value.is_char_boundary(index + 4) {
                return None;
            }
            let esc = escape_for(bytes[index + 1], bytes[index + 2], bytes[index + 3]);
            if let Some(c) = esc {
                assert(rest.skip(4) =~= all.skip(index + 4));
                assert(decode_mountinfo_bytes(rest) == seq![c] + decode_mountinfo_bytes(rest.skip(4)));
                let ghost before = decoded@;
                push_char(&mut decoded, c);
                assert(decoded@ + decode_mountinfo_bytes(all.skip(index + 4)) =~= before + decode_mountinfo_bytes(rest));
                index = index + 4;
                continue;
            }
        }
        let b = bytes[index];
        assert(rest.skip(1) =~= all.skip(index + 1));
        assert(decode_mountinfo_bytes(rest) == seq![b as char] + decode_mountinfo_bytes(rest.skip(1)));
        let ghost before = decoded@;
        push_char(&mut decoded, b as char);
        assert(decoded@ + decode_mountinfo_bytes(all.skip(index + 1)) =~= before + decode_mountinfo_bytes(rest));
        index = index + 1;
    }
    assert(all.skip(index as int) =~= Seq::<u8>::empty());
    Some(decoded)
}


/// Decodes the escapes of a path field of `/proc/self/mountinfo`.
pub fn decode_mountinfo_path(value: &str) -> (out: String)
    requires
        mountinfo_path_decodable(value.spec_bytes()),
    ensures
        out@ == decode_mountinfo_bytes(value.spec_bytes()),
{
    match decode_checked(value) {
        Some(s) => s,
        None => {
            proof {
                assert(false);
            }
            String::new()
        },
    }
}

/// The mount options of a mountinfo entry.
#[derive(Debug, Clone, PartialEq, Eq)]
pub struct MountInfoEntry {
    pub options: Vec<String>,
}

/// The mount point of a mountinfo line's fields, decoded.
pub open spec fn mount_point_of(fields: Seq<Seq<char>>) -> Seq<char> {
    decode_mountinfo_bytes(encode_utf8(fields[4]))
}

/// The options of a line when its mount point is `target`: its sixth field
/// cut at commas, or none when it has no sixth field.
pub open spec fn line_entry(line: Seq<char>, target: Seq<char>) -> Option<Seq<Seq<char>>> {
    let fields = words_of(line);
    if fields.len() >= 5 && mount_point_of(fields) == target {
        Some(
            if fields.len() >= 6 {
                split_on(fields[5], ',')
            } else {
                Seq::empty()
            },
        )
    } else {
        None
    }
}

/// The entry of the first line, from line `i` on, whose mount point is `target`.
pub open spec fn lookup_from(lines: Seq<Seq<char>>, i: int, target: Seq<char>) -> Option<Seq<Seq<char>>>
    decreases lines.len() - i,
{
    if i < 0 || i >= lines.len() {
        None
    } else {
        match line_entry(lines[i], target) {
            Some(options) => Some(options),
            None => lookup_from(lines, i + 1, target),
        }
    }
}

/// Whether every mount point that the lookup decodes, from line `i` on up to
/// the matching line, can be decoded.
pub open spec fn decodable_from(lines: Seq<Seq<char>>, i: int, target: Seq<char>) -> bool
    decreases lines.len() - i,
{
    if i < 0 || i >= lines.len() {
        true
    } else {
        let fields = words_of(lines[i]);
        &&& (fields.len() >= 5 ==> mountinfo_path_decodable(encode_utf8(fields[4])))
        &&& (line_entry(lines[i], target) is None ==> decodable_from(lines, i + 1, target))
    }
}

/// The options of the first mountinfo line whose mount point is `target`.
pub open spec fn mountinfo_lookup(text: Seq<char>, target: Seq<char>) -> Option<Seq<Seq<char>>> {
    lookup_from(split_on(text, '\n'), 0, target)
}

/// Whether looking `target` up in the text decodes only decodable paths.
pub open spec fn mountinfo_lookup_defined(text: Seq<char>, target: Seq<char>) -> bool {
    decodable_from(split_on(text, '\n'), 0, target)
}

pub open spec fn entry_view(e: Option<MountInfoEntry>) -> Option<Seq<Seq<char>>> {
    match e {
        Some(entry) => Some(strings_view(entry.options@)),
        None => None,
    }
}

fn strings_from_pieces(pieces: &Vec<Vec<char>>) -> (out: Vec<String>)
    ensures
        strings_view(out@) == nested_view(pieces@),
{
    let mut out: Vec<String> = Vec::new();
    for i in 0..pieces.len()
        invariant
            strings_view(out@) == nested_view(pieces@.take(i as int)),
    {
        let s = string_from_chars(&pieces[i]);
        let ghost before = out@;
        out.push(s);
        assert(strings_view(out@) =~= strings_view(before).push(s@));
        assert(nested_view(pieces@.take(i + 1)) =~= nested_view(pieces@.take(i as int)).push(pieces@[i as int]@));
    }
    assert(pieces@.take(pieces@.len() as int) =~= pieces@);
    out
}

/// The lookup, or `None` where it would have to decode an undecodable path.
fn lookup_checked(mountinfo: &str, target: &str) -> (out: Option<Option<MountInfoEntry>>)
    ensures
        out is Some <==> mountinfo_lookup_defined(mountinfo@, target@),
        out matches Some(e) ==> entry_view(e) == mountinfo_lookup(mountinfo@, target@),
{
    let chars = chars_of(mountinfo);
    let lines = split_chars(&chars, '\n');
    let ghost ls = nested_view(lines@);
    for i in 0..lines.len()
        invariant
            ls == nested_view(lines@),
            ls == split_on(mountinfo@, '\n'),
            lookup_from(ls, 0, target@) == lookup_from(ls, i as int, target@),
            decodable_from(ls, 0, target@) == decodable_from(ls, i as int, target@),
    {
        let fields = split_words(&lines[i]);
        assert(nested_view(fields@) == words_of(ls[i as int]));
        if fields.len() >= 5 {
            let field = string_from_chars(&fields[4]);
            assert(field@ == words_of(ls[i as int])[4]);
            match decode_checked(field.as_str()) {
                None => {
                    return None;
                },
                Some(mount_point) => {
                    if str_eq(mount_point.as_str(), target) {
                        let options = if fields.len() >= 6 {
                            let pieces = split_chars(&fields[5], ',');
                            strings_from_pieces(&pieces)
                        } else {
                            Vec::new()
                        };
                        let entry = MountInfoEntry { options };
                        assert(entry_view(Some(entry)) =~= line_entry(ls[i as int], target@));
                        return Some(Some(entry));
                    }
                },
            }
        }
        assert(line_entry(ls[i as int], target@) is None);
    }
    Some(None)
}

/// The mountinfo entry whose mount point is `target`, if any.
pub fn mountinfo_entry(mountinfo: &str, target: &str) -> (out: Option<MountInfoEntry>)
    requires
        mountinfo_lookup_defined(mountinfo@, target@),
    ensures
        entry_view(out) == mountinfo_lookup(mountinfo@, target@),
{
    match lookup_checked(mountinfo, target) {
        Some(e) => e,
        None => {
            proof {
                assert(false);
            }
            None
        },
    }
}

/// Whether looking `target` up in `mountinfo` can decode every mount point
/// it meets; callers test this before [`mountinfo_entry`].
pub fn mountinfo_lookup_is_defined(mountinfo: &str, target: &str) -> (ok: bool)
    ensures
        ok == mountinfo_lookup_defined(mountinfo@, target@),
{
    lookup_checked(mountinfo, target).is_some()
}

/// Whether any option is exactly `ro`.
pub open spec fn has_ro_option(options: Seq<Seq<char>>) -> bool {
    exists|k: int| 0 <= k < options.len() && options[k] == "ro"@
}

/// Whether the target is mounted, and mounted read-only, by the mountinfo text.
pub fn publish_state_from_mountinfo(mountinfo: &str, target_path: &str) -> (out: PublishState)
    requires
        mountinfo_lookup_defined(mountinfo@, target_path@),
    ensures
        out.target_mounted == (mountinfo_lookup(mountinfo@, target_path@) is Some),
        out.target_readonly == (mountinfo_lookup(mountinfo@, target_path@) matches Some(options)
            && has_ro_option(options)),
{
    let entry = mountinfo_entry(mountinfo, target_path);
    match entry {
        None => PublishState { target_mounted: false, target_readonly: false },
        Some(e) => {
            let mut readonly = false;
            for k in 0..e.options.len()
                invariant
                    readonly == exists|j: int| 0 <= j < k && (#[trigger] strings_view(e.options@)[j]) == "ro"@,
            {
                if str_eq(e.options[k].as_str(), "ro") {
                    readonly = true;
                }
                assert(strings_view(e.options@)[k as int] == e.options@[k as int]@);
            }
            PublishState { target_mounted: true, target_readonly: readonly }
        },
    }
}

} // verus!
