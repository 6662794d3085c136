//! yt-dlp plugin packages: what kinds of plugin a zip holds, which names
//! a package may have, and the order in which the packages are listed.

use vstd::prelude::*;

use crate::install::{split_file_name, stem_and_extension};
use crate::keys::{lemma_lex_irreflexive, lemma_lex_total, lemma_lex_transitive, lex_lt, str_lt};
use crate::sync::strings;
use crate::text::{chars_contains, chars_ends_with, chars_of, contains, ends_with, owned};

verus! {

/// A plugin package in the plugin folder.
#[derive(Debug, Clone)]
pub struct PluginItem {
    /// The file name, such as `chrome-cookie-unlock.zip`.
    pub file_name: String,
    /// The name shown: the file name without its extension.
    pub name: String,
    pub size_bytes: u64,
    /// Last change, in milliseconds.
    pub modified_at: i64,
    /// `extractor` and/or `postprocessor`.
    pub plugin_types: Vec<String>,
}

/// `s` with back slashes turned into slashes.
pub open spec fn forward_slashes(s: Seq<char>) -> Seq<char> {
    s.map_values(|c: char| if c == '\\' { '/' } else { c })
}

/// A zip entry named `name` is a Python file under the plugin folder `dir`.
pub open spec fn is_plugin_file(name: Seq<char>, dir: Seq<char>) -> bool {
    contains(forward_slashes(name), dir) && ends_with(forward_slashes(name), ".py"@)
}

pub open spec fn has_plugin_file(names: Seq<Seq<char>>, dir: Seq<char>) -> bool {
    exists|i: int| 0 <= i < names.len() && is_plugin_file(#[trigger] names[i], dir)
}

/// The plugin kinds of a zip with these entries: `extractor` when it has a
/// Python file under `yt_dlp_plugins/extractor/`, then `postprocessor` when
/// it has one under `yt_dlp_plugins/postprocessor/`; refused when neither.
pub open spec fn plugin_types_of(names: Seq<Seq<char>>) -> Result<Seq<Seq<char>>, Seq<char>> {
    let e = has_plugin_file(names, "yt_dlp_plugins/extractor/"@);
    let p = has_plugin_file(names, "yt_dlp_plugins/postprocessor/"@);
    if !e && !p {
        Err("err_plugin_layout"@)
    } else {
        Ok(
            (if e {
                seq!["extractor"@]
            } else {
                seq![]
            }) + (if p {
                seq!["postprocessor"@]
            } else {
                seq![]
            }),
        )
    }
}

fn forward_slashes_of(s: &str) -> (r: Vec<char>)
    ensures
        r@ == forward_slashes(s@),
{
    let v = chars_of(s);
    let mut out: Vec<char> = Vec::new();
    let mut i: usize = 0;
    while i < v.len()
        invariant
            i <= v.len(),
            v@ == s@,
            out@ == forward_slashes(v@.take(i as int)),
        decreases v.len() - i,
    {
        let c = v[i];
        out.push(if c == '\\' { '/' } else { c });
        assert(forward_slashes(v@.take(i + 1)) =~= forward_slashes(v@.take(i as int)).push(
            if c == '\\' { '/' } else { c },
        ));
        i += 1;
    }
    assert(v@.take(v.len() as int) =~= v@);
    out
}

/// Whether the entry `name` is a plugin file under `dir`.
fn plugin_file_in(name: &[char], dir: &str) -> (r: bool)
    ensures
        r == (contains(name@, dir@) && ends_with(name@, ".py"@)),
{
    let d = chars_of(dir);
    let py = chars_of(".py");
    chars_contains(name, d.as_slice()) && chars_ends_with(name, py.as_slice())
}

/// The plugin kinds of a zip, from the names of its entries (see
/// `plugin_types_of`).
pub fn plugin_types(entry_names: &Vec<String>) -> (r: Result<Vec<String>, String>)
    ensures
        match r {
            Ok(t) => plugin_types_of(strings(entry_names@)) == Ok::<Seq<Seq<char>>, Seq<char>>(
                strings(t@),
            ),
            Err(e) => plugin_types_of(strings(entry_names@)) == Err::<Seq<Seq<char>>, Seq<char>>(
                e@,
            ),
        },
{
    let ghost names = strings(entry_names@);
    let ghost ext = "yt_dlp_plugins/extractor/"@;
    let ghost post = "yt_dlp_plugins/postprocessor/"@;
    let mut has_extractor = false;
    let mut has_postprocessor = false;
    let mut i: usize = 0;
    while i < entry_names.len()
        invariant
            i <= entry_names.len(),
            names == strings(entry_names@),
            ext == "yt_dlp_plugins/extractor/"@,
            post == "yt_dlp_plugins/postprocessor/"@,
            has_extractor == exists|j: int| 0 <= j < i && is_plugin_file(#[trigger] names[j], ext),
            has_postprocessor == exists|j: int|
                0 <= j < i && is_plugin_file(#[trigger] names[j], post),
        decreases entry_names.len() - i,
    {
        let name = forward_slashes_of(entry_names[i].as_str());
        assert(names[i as int] == entry_names@[i as int]@);
        if plugin_file_in(name.as_slice(), "yt_dlp_plugins/extractor/") {
            has_extractor = true;
        }
        if plugin_file_in(name.as_slice(), "yt_dlp_plugins/postprocessor/") {
            has_postprocessor = true;
        }
        i += 1;
    }
    let mut types: Vec<String> = Vec::new();
    if has_extractor {
        types.push(owned("extractor"));
    }
    if has_postprocessor {
        types.push(owned("postprocessor"));
    }
    if types.len() == 0 {
        return Err(owned("err_plugin_layout"));
    }
    assert(strings(types@) =~= (if has_extractor {
        seq!["extractor"@]
    } else {
        seq![]
    }) + (if has_postprocessor {
        seq!["postprocessor"@]
    } else {
        seq![]
    }));
    Ok(types)
}

/// A name of a plugin package that may be removed: not empty, and with no
/// slash, back slash or `..` in it.
pub open spec fn removable_name(name: Seq<char>) -> bool {
    name.len() > 0 && !contains(name, seq!['/']) && !contains(name, seq!['\\']) && !contains(
        name,
        ".."@,
    )
}

/// Checks the name of a package to remove (`err_invalid_plugin_name`).
pub fn check_plugin_name(name: &str) -> (r: Result<(), String>)
    ensures
        r.is_ok() == removable_name(name@),
        r matches Err(e) ==> e@ == "err_invalid_plugin_name"@,
{
    let v = chars_of(name);
    let slash = vec!['/'];
    let back = vec!['\\'];
    let dots = chars_of("..");
    assert(slash@ =~= seq!['/']);
    assert(back@ =~= seq!['\\']);
    if v.len() == 0 || chars_contains(v.as_slice(), slash.as_slice()) || chars_contains(
        v.as_slice(),
        back.as_slice(),
    ) || chars_contains(v.as_slice(), dots.as_slice()) {
        return Err(owned("err_invalid_plugin_name"));
    }
    Ok(())
}

/// `c` in lower case when it is an ASCII capital.
pub open spec fn ascii_lower(c: char) -> char {
    if 'A' <= c && c <= 'Z' {
        ((c as u32) + 32) as char
    } else {
        c
    }
}

pub open spec fn ascii_lower_all(s: Seq<char>) -> Seq<char> {
    s.map_values(|c: char| ascii_lower(c))
}

fn ascii_lower_of(s: &str) -> (r: Vec<char>)
    ensures
        r@ == ascii_lower_all(s@),
{
    let v = chars_of(s);
    let mut out: Vec<char> = Vec::new();
    let mut i: usize = 0;
    while i < v.len()
        invariant
            i <= v.len(),
            v@ == s@,
            out@ == ascii_lower_all(v@.take(i as int)),
        decreases v.len() - i,
    {
        let c = v[i];
        let l = if 'A' <= c && c <= 'Z' {
            crate::plugins::shift_case(c)
        } else {
            c
        };
        out.push(l);
        assert(ascii_lower_all(v@.take(i + 1)) =~= ascii_lower_all(v@.take(i as int)).push(
            ascii_lower(c),
        ));
        i += 1;
    }
    assert(v@.take(v.len() as int) =~= v@);
    out
}

fn shift_case(c: char) -> (r: char)
    requires
        'A' <= c && c <= 'Z',
    ensures
        r == ((c as u32) + 32) as char,
{
    let n = c as u32 + 32;
    match char::from_u32(n) {
        Some(l) => l,
        None => c,
    }
}

/// Checks the file name of a package to import: it must end in `.zip`, in
/// any ASCII case (`err_plugin_layout`).
pub fn check_import_name(file_name: &str) -> (r: Result<(), String>)
    ensures
        r.is_ok() == ends_with(ascii_lower_all(file_name@), ".zip"@),
        r matches Err(e) ==> e@ == "err_plugin_layout"@,
{
    let l = ascii_lower_of(file_name);
    let z = chars_of(".zip");
    if chars_ends_with(l.as_slice(), z.as_slice()) {
        Ok(())
    } else {
        Err(owned("err_plugin_layout"))
    }
}

/// A file of the plugin folder is listed when its extension is `zip`, in
/// any ASCII case.
pub open spec fn listed_file(file_name: Seq<char>) -> bool {
    match stem_and_extension(file_name).1 {
        Some(e) => ascii_lower_all(e) == "zip"@,
        None => false,
    }
}

/// Whether a file of the plugin folder is a package to list.
pub fn is_listed_file(file_name: &str) -> (r: bool)
    ensures
        r == listed_file(file_name@),
{
    let (_, ext) = split_file_name(file_name);
    match ext {
        Some(e) => {
            let l = ascii_lower_of(e.as_str());
            let z = chars_of("zip");
            crate::text::chars_eq(l.as_slice(), z.as_slice())
        },
        None => false,
    }
}

/// The name shown for a package: its file name without the extension.
pub fn plugin_display_name(file_name: &str) -> (r: String)
    ensures
        r@ == stem_and_extension(file_name@).0,
{
    let (stem, _) = split_file_name(file_name);
    stem
}

/// `items` ordered by name.
pub open spec fn sorted_by_name(items: Seq<PluginItem>) -> bool {
    forall|i: int, j: int| 0 <= i < j < items.len() ==> !lex_lt(#[trigger] items[j].name@, #[trigger] items[i].name@)
}

/// The packages as listed: ordered by name, none added or lost.
pub fn sort_plugins(items: Vec<PluginItem>) -> (r: Vec<PluginItem>)
    ensures
        sorted_by_name(r@),
        r@.to_multiset() == items@.to_multiset(),
{
    let mut rest = items;
    let mut out: Vec<PluginItem> = Vec::new();
    broadcast use vstd::seq_lib::group_to_multiset_ensures;
    while rest.len() > 0
        invariant
            sorted_by_name(out@),
            out@.to_multiset().add(rest@.to_multiset()) == items@.to_multiset(),
        decreases rest.len(),
    {
        let ghost before_rest = rest@;
        let x = rest.pop().unwrap();
        assert(before_rest =~= rest@.push(x));
        // the first stored item whose name is not before `x`
        let mut p: usize = 0;
        while p < out.len() && str_lt(out[p].name.as_str(), x.name.as_str())
            invariant
                p <= out.len(),
                forall|k: int| 0 <= k < p ==> lex_lt(#[trigger] out@[k].name@, x.name@),
            decreases out.len() - p,
        {
            p += 1;
        }
        let ghost old_out = out@;
        proof {
            assert forall|k: int| p <= k < old_out.len() implies !lex_lt(
                #[trigger] old_out[k].name@,
                x.name@,
            ) by {
                if p < old_out.len() {
                    lemma_lex_total(old_out[p as int].name@, x.name@);
                    if k > p && lex_lt(old_out[k].name@, x.name@) {
                        assert(!lex_lt(old_out[k].name@, old_out[p as int].name@));
                        lemma_lex_total(old_out[k].name@, old_out[p as int].name@);
                        if old_out[k].name@ == old_out[p as int].name@ {
                        } else {
                            lemma_lex_transitive(old_out[p as int].name@, old_out[k].name@, x.name@);
                        }
                        if old_out[p as int].name@ == x.name@ {
                            lemma_lex_irreflexive(x.name@);
                        }
                    }
                }
            }
        }
        out.insert(p, x);
        proof {
            assert(out@ =~= old_out.insert(p as int, x));
            assert forall|i: int, j: int| 0 <= i < j < out@.len() implies !lex_lt(
                #[trigger] out@[j].name@,
                #[trigger] out@[i].name@,
            ) by {
                if i < p && j == p {
                    lemma_lex_irreflexive(x.name@);
                    if lex_lt(x.name@, old_out[i].name@) {
                        lemma_lex_transitive(x.name@, old_out[i].name@, x.name@);
                    }
                } else if i == p && j > p {
                    assert(!lex_lt(old_out[j - 1].name@, x.name@));
                } else if i < p && j > p {
                    assert(!lex_lt(old_out[j - 1].name@, old_out[i].name@));
                } else if j < p {
                } else {
                    assert(!lex_lt(old_out[j - 1].name@, old_out[i - 1].name@));
                }
            }
            assert(old_out.insert(p as int, x) =~= old_out.take(p as int).push(x) + old_out.skip(p as int));
            vstd::seq_lib::lemma_multiset_commutative(old_out.take(p as int).push(x), old_out.skip(p as int));
            vstd::seq_lib::lemma_multiset_commutative(old_out.take(p as int), old_out.skip(p as int));
            assert(old_out =~= old_out.take(p as int) + old_out.skip(p as int));
            let mt = old_out.take(p as int).to_multiset();
            let ms = old_out.skip(p as int).to_multiset();
            old_out.take(p as int).to_multiset_ensures();
            rest@.to_multiset_ensures();
            assert(old_out.take(p as int).push(x).to_multiset() == mt.insert(x));
            assert(out@.to_multiset() == mt.insert(x).add(ms));
            assert(old_out.to_multiset() == mt.add(ms));
            assert(before_rest.to_multiset() == rest@.to_multiset().insert(x));
            assert(out@.to_multiset().add(rest@.to_multiset()) =~= old_out.to_multiset().add(
                before_rest.to_multiset(),
            ));
        }
    }
    out
}

} // verus!
