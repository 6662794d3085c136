//! Which files of a download directory belong to a given output file, and
//! where the files of a plugin package go.

use vstd::prelude::*;

use crate::text::{
    chars_ends_with, chars_eq, chars_find, chars_of, chars_rfind, chars_starts_with, concat,
    ends_with, find, is_digit, rfind, starts_with, string_of, sub_chars, trim, trim_str,
};

verus! {

/// `s` without a trailing `.part` or `.ytdl`, the suffixes yt-dlp gives
/// files it is still writing.
pub open spec fn strip_temp_suffix(s: Seq<char>) -> Seq<char> {
    if ends_with(s, ".part"@) {
        s.take(s.len() - 5)
    } else if ends_with(s, ".ytdl"@) {
        s.take(s.len() - 5)
    } else {
        s
    }
}

/// `name` up to its last dot, or all of it when it has none.
pub open spec fn stem_of(name: Seq<char>) -> Seq<char> {
    match rfind(name, "."@) {
        Some(i) => name.take(i),
        None => name,
    }
}

/// `s` up to its first dot, or all of it when it has none.
pub open spec fn first_segment(s: Seq<char>) -> Seq<char> {
    match find(s, "."@) {
        Some(i) => s.take(i),
        None => s,
    }
}

/// A yt-dlp format id such as `f137`: `f` and at least one ASCII digit.
pub open spec fn is_format_id(f: Seq<char>) -> bool {
    f.len() > 1 && f[0] == 'f' && forall|i: int| 1 <= i < f.len() ==> is_digit(#[trigger] f[i])
}

/// `candidate` is `output_name`, possibly with a temporary suffix, or a
/// fragment of it named `<stem>.f<digits>[.<anything>]`, possibly with a
/// temporary suffix.
pub open spec fn belongs_to(candidate: Seq<char>, output_name: Seq<char>) -> bool {
    let core = strip_temp_suffix(candidate);
    let stem = stem_of(output_name);
    ||| core == output_name
    ||| starts_with(core, stem) && core.len() > stem.len() && core[stem.len() as int] == '.'
        && is_format_id(first_segment(core.skip(stem.len() + 1int)))
}

fn is_format_id_chars(f: &[char]) -> (r: bool)
    ensures
        r == is_format_id(f@),
{
    if f.len() <= 1 || f[0] != 'f' {
        return false;
    }
    let mut i: usize = 1;
    while i < f.len()
        invariant
            1 <= i <= f@.len(),
            forall|j: int| 1 <= j < i ==> is_digit(#[trigger] f@[j]),
        decreases f@.len() - i,
    {
        if !('0' <= f[i] && f[i] <= '9') {
            return false;
        }
        i += 1;
    }
    true
}

/// Whether a file named `candidate` in the same directory belongs to the
/// output file `output_name`. A longer name that merely starts with the
/// same title never does.
pub fn belongs_to_output(candidate: &str, output_name: &str) -> (r: bool)
    ensures
        r == belongs_to(candidate@, output_name@),
{
    proof {
        reveal_strlit(".part");
        reveal_strlit(".ytdl");
        reveal_strlit(".");
    }
    let c = chars_of(candidate);
    let o = chars_of(output_name);
    let part = chars_of(".part");
    let ytdl = chars_of(".ytdl");
    let dot = chars_of(".");
    assert(part@ =~= ".part"@);
    let core = if chars_ends_with(c.as_slice(), part.as_slice()) {
        sub_chars(c.as_slice(), 0, c.len() - 5)
    } else if chars_ends_with(c.as_slice(), ytdl.as_slice()) {
        sub_chars(c.as_slice(), 0, c.len() - 5)
    } else {
        c
    };
    assert(core@ == strip_temp_suffix(candidate@));
    if chars_eq(core.as_slice(), o.as_slice()) {
        return true;
    }
    let stem = match chars_rfind(o.as_slice(), dot.as_slice()) {
        Some(i) => sub_chars(o.as_slice(), 0, i),
        None => o,
    };
    assert(stem@ == stem_of(output_name@));
    if !chars_starts_with(core.as_slice(), stem.as_slice()) {
        return false;
    }
    if core.len() <= stem.len() || core[stem.len()] != '.' {
        return false;
    }
    let rest = sub_chars(core.as_slice(), stem.len() + 1, core.len());
    assert(rest@ =~= core@.skip(stem@.len() + 1int));
    let seg = match chars_find(rest.as_slice(), dot.as_slice()) {
        Some(i) => sub_chars(rest.as_slice(), 0, i),
        None => rest,
    };
    is_format_id_chars(seg.as_slice())
}

} // verus!

verus! {

/// The paths removed first for a task's output `output`: the trimmed path
/// itself and its `.part` and `.ytdl` files; none for a blank path.
pub fn residual_paths(output: &str) -> (r: Vec<String>)
    ensures
        trim(output@).len() == 0 ==> r@.len() == 0,
        trim(output@).len() > 0 ==> crate::sync::strings(r@) == seq![
            trim(output@),
            trim(output@) + ".part"@,
            trim(output@) + ".ytdl"@,
        ],
{
    let t = trim_str(output);
    let mut r: Vec<String> = Vec::new();
    if t.as_str().is_empty() {
        return r;
    }
    let part = concat(t.as_str(), ".part");
    let ytdl = concat(t.as_str(), ".ytdl");
    r.push(t);
    r.push(part);
    r.push(ytdl);
    assert(crate::sync::strings(r@) =~= seq![
        trim(output@),
        trim(output@) + ".part"@,
        trim(output@) + ".ytdl"@,
    ]);
    r
}

/// Where a plugin package's zip entry `name` goes under the plugin folder:
/// the part of its name after `yt_dlp_plugins/`, when that is not empty and
/// the entry is a file.
pub open spec fn plugin_target(name: Seq<char>, is_dir: bool) -> Option<Seq<char>> {
    if starts_with(name, "yt_dlp_plugins/"@) && name.len() > "yt_dlp_plugins/"@.len() && !is_dir {
        Some(name.skip("yt_dlp_plugins/"@.len() as int))
    } else {
        None
    }
}

/// Where a zip entry of a plugin package is extracted, under the plugin
/// folder: the part of its name after `yt_dlp_plugins/`, when that is not
/// empty and the entry is a file.
pub fn plugin_entry_target(name: &str, is_dir: bool) -> (r: Option<String>)
    ensures
        (starts_with(name@, "yt_dlp_plugins/"@) && name@.len() > "yt_dlp_plugins/"@.len()
            && !is_dir) ==> (r matches Some(t) && t@ == name@.skip("yt_dlp_plugins/"@.len() as int)),
        !(starts_with(name@, "yt_dlp_plugins/"@) && name@.len() > "yt_dlp_plugins/"@.len()
            && !is_dir) ==> r is None,
{
    let v = chars_of(name);
    let p = chars_of("yt_dlp_plugins/");
    if is_dir || !chars_starts_with(v.as_slice(), p.as_slice()) || v.len() <= p.len() {
        return None;
    }
    let rest = sub_chars(v.as_slice(), p.len(), v.len());
    assert(rest@ =~= name@.skip(p@.len() as int));
    Some(string_of(rest.as_slice()))
}

} // verus!
