//! Reading zip archives held in memory: the names of their entries, the
//! files of a plugin package, and the Deno executable of a release.

use std::io::Read;

use vstd::prelude::*;

use crate::channel::lowercase;
use crate::files::{plugin_entry_target, plugin_target};
use crate::install::is_deno_entry;
use crate::plugins::{plugin_types, plugin_types_of};
use crate::sync::strings;
use crate::text::{concat, ends_with, owned};

verus! {

#[verifier::external_type_specification]
#[verifier::external_body]
#[verifier::reject_recursive_types(T)]
pub struct ExCursor<T>(std::io::Cursor<T>);

#[verifier::external_type_specification]
#[verifier::external_body]
#[verifier::reject_recursive_types(R)]
pub struct ExZipArchive<R>(zip::ZipArchive<R>);

/// One entry of a zip archive as the reader finds it.
pub struct ZipEntryModel {
    /// The entry's name in the archive's central directory.
    pub name: Seq<char>,
    /// Whether the entry can be reached without decompressing it.
    pub raw_ok: bool,
    /// Opening the entry for reading: refused with this text, or not.
    pub open: Result<(), Seq<char>>,
    /// The entry's bytes once read to the end, or the text of the error.
    pub data: Result<Seq<u8>, Seq<char>>,
}

/// The entries, in index order, that `zip::ZipArchive::new` finds in the
/// archive `bytes`, or the text of the error with which it refuses them.
pub uninterp spec fn zip_read(bytes: Seq<u8>) -> Result<Seq<ZipEntryModel>, Seq<char>>;

/// The entries, in index order, of an open archive.
pub uninterp spec fn zip_contents(a: zip::ZipArchive<std::io::Cursor<Vec<u8>>>) -> Seq<
    ZipEntryModel,
>;

/// A zip entry name that stands for a folder: it ends with `/` or `\`.
pub open spec fn names_dir(name: Seq<char>) -> bool {
    name.len() > 0 && (name.last() == '/' || name.last() == '\\')
}

/// Opens the archive `bytes` with `zip::ZipArchive::new`. The entries it
/// finds are named `zip_read(bytes)`, and so is the text of its error
/// (`Display` of `ZipError`).
#[verifier::external_body]
fn zip_open(bytes: &[u8]) -> (r: Result<zip::ZipArchive<std::io::Cursor<Vec<u8>>>, String>)
    ensures
        match zip_read(bytes@) {
            Ok(es) => r matches Ok(a) && zip_contents(a) == es,
            Err(e) => r matches Err(m) && m@ == e,
        },
{
    match zip::ZipArchive::new(std::io::Cursor::new(bytes.to_vec())) {
        Ok(a) => Ok(a),
        Err(e) => Err(e.to_string()),
    }
}

/// `ZipArchive::len`: the number of entries.
#[verifier::external_body]
fn zip_len(a: &zip::ZipArchive<std::io::Cursor<Vec<u8>>>) -> (r: usize)
    ensures
        r == zip_contents(*a).len(),
{
    a.len()
}

/// `ZipArchive::by_index_raw` on entry `i`: its name when the entry can be
/// reached without decompressing it. The archive's entries stay as they
/// were.
#[verifier::external_body]
fn zip_raw_name(a: &mut zip::ZipArchive<std::io::Cursor<Vec<u8>>>, i: usize) -> (r: Option<
    String,
>)
    requires
        i < zip_contents(*old(a)).len(),
    ensures
        zip_contents(*final(a)) == zip_contents(*old(a)),
        zip_contents(*old(a))[i as int].raw_ok ==> (r matches Some(n) && n@ == zip_contents(
            *old(a),
        )[i as int].name),
        !zip_contents(*old(a))[i as int].raw_ok ==> r is None,
{
    match a.by_index_raw(i) {
        Ok(f) => Some(f.name().to_string()),
        Err(_) => None,
    }
}

/// `ZipArchive::by_index` on entry `i`: its name, whether it is a folder
/// (`ZipFile::is_dir`: the name ends with `/` or `\`) and its bytes read
/// to the end (or the text of the read error); or the text of the error
/// with which the entry is refused. The archive's entries stay as they
/// were.
#[verifier::external_body]
fn zip_entry(a: &mut zip::ZipArchive<std::io::Cursor<Vec<u8>>>, i: usize) -> (r: Result<
    (String, bool, Result<Vec<u8>, String>),
    String,
>)
    requires
        i < zip_contents(*old(a)).len(),
    ensures
        zip_contents(*final(a)) == zip_contents(*old(a)),
        match zip_contents(*old(a))[i as int].open {
            Ok(_) => r matches Ok(h) && h.0@ == zip_contents(*old(a))[i as int].name && h.1
                == names_dir(zip_contents(*old(a))[i as int].name) && match zip_contents(
                *old(a),
            )[i as int].data {
                Ok(d) => h.2 matches Ok(v) && v@ == d,
                Err(m) => h.2 matches Err(x) && x@ == m,
            },
            Err(m) => r matches Err(x) && x@ == m,
        },
{
    match a.by_index(i) {
        Ok(mut f) => {
            let mut v: Vec<u8> = Vec::new();
            let data = match f.read_to_end(&mut v) {
                Ok(_) => Ok(v),
                Err(e) => Err(e.to_string()),
            };
            Ok((f.name().to_string(), f.is_dir(), data))
        },
        Err(e) => Err(e.to_string()),
    }
}

/// The names of the entries that can be reached without decompressing
/// them, in index order.
pub open spec fn raw_names(es: Seq<ZipEntryModel>) -> Seq<Seq<char>>
    decreases es.len(),
{
    if es.len() == 0 {
        seq![]
    } else {
        raw_names(es.drop_last()) + (if es.last().raw_ok {
            seq![es.last().name]
        } else {
            seq![]
        })
    }
}

/// The names of the entries of the archive `bytes` that can be reached
/// without decompressing them, in index order; nothing when the archive
/// cannot be read.
pub fn zip_entry_names(bytes: &[u8]) -> (r: Option<Vec<String>>)
    ensures
        match zip_read(bytes@) {
            Err(_) => r is None,
            Ok(es) => r matches Some(v) && strings(v@) == raw_names(es),
        },
{
    let mut a = match zip_open(bytes) {
        Ok(a) => a,
        Err(_) => return None,
    };
    let ghost es = zip_contents(a);
    let n = zip_len(&a);
    let mut names: Vec<String> = Vec::new();
    let mut i: usize = 0;
    while i < n
        invariant
            n == es.len(),
            i <= n,
            zip_contents(a) == es,
            strings(names@) == raw_names(es.take(i as int)),
        decreases n - i,
    {
        let ghost before = names@;
        assert(es.take(i + 1).drop_last() =~= es.take(i as int));
        match zip_raw_name(&mut a, i) {
            Some(name) => {
                names.push(name);
                assert(strings(names@) =~= strings(before).push(es[i as int].name));
            },
            None => {},
        }
        assert(strings(names@) =~= raw_names(es.take(i + 1)));
        i += 1;
    }
    assert(es.take(n as int) =~= es);
    Some(names)
}

/// The plugin kinds of the zip `zip_bytes`, judged by the names of its
/// entries (see `plugin_types_of`); an archive that cannot be read is no
/// plugin package (`err_plugin_layout`).
pub fn inspect_plugin_types(zip_bytes: &[u8]) -> (r: Result<Vec<String>, String>)
    ensures
        zip_read(zip_bytes@) is Err ==> (r matches Err(e) && e@ == "err_plugin_layout"@),
        zip_read(zip_bytes@) matches Ok(es) ==> match r {
            Ok(t) => plugin_types_of(raw_names(es)) == Ok::<Seq<Seq<char>>, Seq<char>>(
                strings(t@),
            ),
            Err(e) => plugin_types_of(raw_names(es)) == Err::<Seq<Seq<char>>, Seq<char>>(e@),
        },
{
    match zip_entry_names(zip_bytes) {
        Some(names) => plugin_types(&names),
        None => Err(owned("err_plugin_layout")),
    }
}

/// What installing a plugin package writes, from its entries in index
/// order: each file under `yt_dlp_plugins/` with its path below that folder
/// and its bytes. An entry that cannot be opened stops it with
/// `err_read_zip_entry:`, a file that cannot be read with `err_write_error:`.
pub open spec fn install_plan(es: Seq<ZipEntryModel>) -> Result<
    Seq<(Seq<char>, Seq<u8>)>,
    Seq<char>,
>
    decreases es.len(),
{
    if es.len() == 0 {
        Ok(seq![])
    } else {
        match install_plan(es.drop_last()) {
            Err(e) => Err(e),
            Ok(p) => {
                let e = es.last();
                match e.open {
                    Err(m) => Err("err_read_zip_entry:"@ + m),
                    Ok(_) => match plugin_target(e.name, names_dir(e.name)) {
                        None => Ok(p),
                        Some(t) => match e.data {
                            Err(m) => Err("err_write_error:"@ + m),
                            Ok(d) => Ok(p.push((t, d))),
                        },
                    },
                }
            },
        }
    }
}

pub open spec fn files_view(v: Seq<(String, Vec<u8>)>) -> Seq<(Seq<char>, Seq<u8>)> {
    v.map_values(|f: (String, Vec<u8>)| (f.0@, f.1@))
}

/// The files that installing the plugin package `zip_bytes` writes under
/// the plugin folder (see `install_plan`); `err_read_zip:` when the archive
/// cannot be read.
pub fn plugin_install_plan(zip_bytes: &[u8]) -> (r: Result<Vec<(String, Vec<u8>)>, String>)
    ensures
        match zip_read(zip_bytes@) {
            Err(m) => r matches Err(e) && e@ == "err_read_zip:"@ + m,
            Ok(es) => match install_plan(es) {
                Ok(p) => r matches Ok(v) && files_view(v@) == p,
                Err(m) => r matches Err(e) && e@ == m,
            },
        },
{
    let mut a = match zip_open(zip_bytes) {
        Ok(a) => a,
        Err(e) => return Err(concat("err_read_zip:", e.as_str())),
    };
    let ghost es = zip_contents(a);
    let n = zip_len(&a);
    let mut files: Vec<(String, Vec<u8>)> = Vec::new();
    let mut i: usize = 0;
    assert(es.take(0) =~= Seq::<ZipEntryModel>::empty());
    assert(files_view(files@) =~= Seq::<(Seq<char>, Seq<u8>)>::empty());
    while i < n
        invariant
            n == es.len(),
            i <= n,
            zip_contents(a) == es,
            zip_read(zip_bytes@) == Ok::<Seq<ZipEntryModel>, Seq<char>>(es),
            install_plan(es.take(i as int)) == Ok::<Seq<(Seq<char>, Seq<u8>)>, Seq<char>>(
                files_view(files@),
            ),
        decreases n - i,
    {
        let ghost before = files@;
        let ghost e = es[i as int];
        assert(es.take(i + 1).drop_last() =~= es.take(i as int));
        assert(es.take(i + 1).last() == e);
        let (name, is_dir, read) = match zip_entry(&mut a, i) {
            Ok(h) => h,
            Err(m) => {
                let r = concat("err_read_zip_entry:", m.as_str());
                proof {
                    lemma_plan_error_stays(es, i as int + 1, r@);
                }
                return Err(r);
            },
        };
        match plugin_entry_target(name.as_str(), is_dir) {
            None => {},
            Some(target) => {
                let data = match read {
                    Ok(d) => d,
                    Err(m) => {
                        let r = concat("err_write_error:", m.as_str());
                        proof {
                            lemma_plan_error_stays(es, i as int + 1, r@);
                        }
                        return Err(r);
                    },
                };
                files.push((target, data));
                assert(files_view(files@) =~= files_view(before).push((target@, data@)));
            },
        }
        i += 1;
    }
    assert(es.take(n as int) =~= es);
    Ok(files)
}

/// Once the plan of the first `k` entries fails, so does the plan of all
/// of them, with the same error.
proof fn lemma_plan_error_stays(es: Seq<ZipEntryModel>, k: int, m: Seq<char>)
    requires
        0 <= k <= es.len(),
        install_plan(es.take(k)) == Err::<Seq<(Seq<char>, Seq<u8>)>, Seq<char>>(m),
    ensures
        install_plan(es) == Err::<Seq<(Seq<char>, Seq<u8>)>, Seq<char>>(m),
    decreases es.len() - k,
{
    if k < es.len() {
        assert(es.take(k + 1).drop_last() =~= es.take(k));
        lemma_plan_error_stays(es, k + 1, m);
    } else {
        assert(es.take(k) =~= es);
    }
}

/// The first entry of a Deno release whose lower-cased name is `binary` or
/// ends with `/` and `binary`: its bytes, or `err_extract_deno:` when it
/// cannot be read. An entry before it that cannot be opened stops the search
/// with `err_read_zip_entry:`; none found gives `err_not_found_in_zip:`.
pub open spec fn deno_pick(es: Seq<ZipEntryModel>, binary: Seq<char>) -> Result<Seq<u8>, Seq<char>>
    decreases es.len(),
{
    if es.len() == 0 {
        Err("err_not_found_in_zip:"@ + binary)
    } else {
        let e = es[0];
        match e.open {
            Err(m) => Err("err_read_zip_entry:"@ + m),
            Ok(_) => if lowercase(e.name) == binary || ends_with(lowercase(e.name), "/"@ + binary) {
                match e.data {
                    Ok(d) => Ok(d),
                    Err(m) => Err("err_extract_deno:"@ + m),
                }
            } else {
                deno_pick(es.drop_first(), binary)
            },
        }
    }
}

/// The Deno executable `binary` out of the release archive `zip_bytes` (see
/// `deno_pick`); `err_read_zip:` when the archive cannot be read.
pub fn deno_binary_from_zip(zip_bytes: &[u8], binary: &str) -> (r: Result<Vec<u8>, String>)
    ensures
        match zip_read(zip_bytes@) {
            Err(m) => r matches Err(e) && e@ == "err_read_zip:"@ + m,
            Ok(es) => match deno_pick(es, binary@) {
                Ok(d) => r matches Ok(v) && v@ == d,
                Err(m) => r matches Err(e) && e@ == m,
            },
        },
{
    let mut a = match zip_open(zip_bytes) {
        Ok(a) => a,
        Err(e) => return Err(concat("err_read_zip:", e.as_str())),
    };
    let ghost es = zip_contents(a);
    let n = zip_len(&a);
    let mut i: usize = 0;
    assert(es.skip(0) =~= es);
    while i < n
        invariant
            n == es.len(),
            i <= n,
            zip_contents(a) == es,
            zip_read(zip_bytes@) == Ok::<Seq<ZipEntryModel>, Seq<char>>(es),
            deno_pick(es, binary@) == deno_pick(es.skip(i as int), binary@),
        decreases n - i,
    {
        let ghost rest = es.skip(i as int);
        assert(rest[0] == es[i as int]);
        assert(rest.drop_first() =~= es.skip(i + 1));
        let (name, _, read) = match zip_entry(&mut a, i) {
            Ok(h) => h,
            Err(m) => return Err(concat("err_read_zip_entry:", m.as_str())),
        };
        if is_deno_entry(name.as_str(), binary) {
            return match read {
                Ok(d) => Ok(d),
                Err(m) => Err(concat("err_extract_deno:", m.as_str())),
            };
        }
        i += 1;
    }
    assert(es.skip(n as int) =~= Seq::<ZipEntryModel>::empty());
    Err(concat("err_not_found_in_zip:", binary))
}

} // verus!
