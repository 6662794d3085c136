//! Installing and updating the external tools: file names, the checks a
//! download and a fresh executable must pass, and the tools' status.

use vstd::prelude::*;

use crate::channel::{lowercase, to_lowercase};
use crate::numbers::{decimal, signed_decimal, u64_to_string, i64_to_string};
use crate::releases::Os;
use crate::source::{cli_path_of, source_of, ToolSettings, ToolSource, get_tool_source, get_cli_tool_path};
use crate::text::{
    before, chars_occur_at, chars_of, concat, concat3, ends_with, occurs_at, owned, rfind,
    starts_with, str_eq, str_ends_with, string_of, sub_chars, trim, trim_str,
};
use crate::ytdlp::{lines_of, text_lines};
use crate::versions::{parse_version, reported_version};

verus! {

/// The stem and extension of a file name, as `Path::file_stem` and
/// `Path::extension` split it: at the last dot, unless that dot starts the
/// name (or the name is `..`).
pub open spec fn stem_and_extension(name: Seq<char>) -> (Seq<char>, Option<Seq<char>>) {
    if name == ".."@ {
        (name, None)
    } else {
        match rfind(name, seq!['.']) {
            None => (name, None),
            Some(i) => if i == 0 {
                (name, None)
            } else {
                (name.take(i), Some(name.skip(i + 1)))
            },
        }
    }
}

pub open spec fn temp_name_of(name: Seq<char>, suffix: Seq<char>) -> Seq<char> {
    let (stem, ext) = stem_and_extension(name);
    match ext {
        Some(e) => stem + "."@ + suffix + "."@ + e,
        None => stem + "."@ + suffix,
    }
}

/// A file name split into stem and extension (see `stem_and_extension`).
pub fn split_file_name(name: &str) -> (r: (String, Option<String>))
    ensures
        r.0@ == stem_and_extension(name@).0,
        match r.1 {
            Some(e) => stem_and_extension(name@).1 == Some(e@),
            None => stem_and_extension(name@).1.is_none(),
        },
{
    proof {
        reveal_strlit("..");
    }
    let v = chars_of(name);
    let dot = vec!['.'];
    assert(dot@ =~= seq!['.']);
    let is_dotdot = str_eq(name, "..");
    let split = if is_dotdot {
        None
    } else {
        match crate::text::chars_rfind(v.as_slice(), dot.as_slice()) {
            Some(i) => if i == 0 {
                None
            } else {
                Some(i)
            },
            None => None,
        }
    };
    match split {
        Some(i) => {
            let n = v.len();
            let stem = string_of(sub_chars(v.as_slice(), 0, i).as_slice());
            let ext = string_of(sub_chars(v.as_slice(), i + 1, n).as_slice());
            assert(stem@ =~= name@.take(i as int));
            assert(ext@ =~= name@.skip(i + 1));
            (stem, Some(ext))
        },
        None => (owned(name), None),
    }
}

/// The name of a temporary file beside an executable named `name`:
/// `suffix` inserted before the extension, so that the final rename stays
/// on one file system.
pub fn executable_temp_name(name: &str, suffix: &str) -> (r: String)
    ensures
        r@ == temp_name_of(name@, suffix@),
{
    let (stem, ext) = split_file_name(name);
    let a = concat3(stem.as_str(), ".", suffix);
    match ext {
        Some(e) => concat3(a.as_str(), ".", e.as_str()),
        None => a,
    }
}

/// The name under which the Deno archive is downloaded beside Deno.
pub fn deno_archive_name(name: &str) -> (r: String)
    ensures
        r@ == name@ + ".download.zip"@,
{
    concat(name, ".download.zip")
}

pub open spec fn exe_name(base: Seq<char>, os: Os) -> Seq<char> {
    match os {
        Os::Windows => base + ".exe"@,
        _ => base,
    }
}

/// The executable name of a tool on the platform.
pub fn executable_name(base: &str, os: Os) -> (r: String)
    ensures
        r@ == exe_name(base@, os),
{
    match os {
        Os::Windows => concat(base, ".exe"),
        _ => owned(base),
    }
}

/// Whether the lower-cased archive entry name `lower_name` is the Deno
/// executable `binary`: it is the binary or ends with `/` and the binary.
pub fn deno_entry_matches(lower_name: &str, binary: &str) -> (r: bool)
    ensures
        r == (lower_name@ == binary@ || ends_with(lower_name@, "/"@ + binary@)),
{
    let tail = concat("/", binary);
    str_eq(lower_name, binary) || str_ends_with(lower_name, tail.as_str())
}

/// Whether the archive entry `name` is the Deno executable `binary`: the
/// name, lower-cased, is the binary or ends with `/` and the binary.
pub fn is_deno_entry(name: &str, binary: &str) -> (r: bool)
    ensures
        r == (lowercase(name@) == binary@ || ends_with(lowercase(name@), "/"@ + binary@)),
{
    let lower = to_lowercase(name);
    deno_entry_matches(lower.as_str(), binary)
}

/// Bytes received of a download, against the announced size (0 when the
/// server announced none).
pub struct DownloadCounter {
    pub total: u64,
    pub downloaded: u64,
}

impl DownloadCounter {
    pub fn new(total: u64) -> (r: DownloadCounter)
        ensures
            r.total == total,
            r.downloaded == 0,
    {
        DownloadCounter { total, downloaded: 0 }
    }

    /// Counts a received chunk of `len` bytes.
    pub fn add(&mut self, len: u64)
        requires
            old(self).downloaded + len <= u64::MAX,
        ensures
            final(self).downloaded == old(self).downloaded + len,
            final(self).total == old(self).total,
    {
        self.downloaded = self.downloaded + len;
    }

    /// A download is complete unless a size was announced and a different
    /// number of bytes arrived.
    pub fn check_complete(&self) -> (r: Result<(), String>)
        ensures
            (self.total > 0 && self.downloaded != self.total) ==> (r matches Err(e) && e@
                == "err_download_incomplete:expected="@ + decimal(self.total as nat) + ",actual="@
                + decimal(self.downloaded as nat)),
            !(self.total > 0 && self.downloaded != self.total) ==> r is Ok,
    {
        if self.total > 0 && self.downloaded != self.total {
            let t = u64_to_string(self.total);
            let d = u64_to_string(self.downloaded);
            let a = concat("err_download_incomplete:expected=", t.as_str());
            let b = concat(a.as_str(), ",actual=");
            return Err(concat(b.as_str(), d.as_str()));
        }
        Ok(())
    }
}

/// A fresh executable is usable when its version run succeeded and
/// printed something; else the reason is its error output, trimmed, or
/// its exit code (`-1` without one).
pub fn verify_outcome(success: bool, stdout_empty: bool, stderr: &str, code: Option<i32>) -> (r: Result<(), String>)
    ensures
        (success && !stdout_empty) ==> r is Ok,
        !(success && !stdout_empty) && trim(stderr@).len() > 0 ==> (r matches Err(e) && e@ == trim(stderr@)),
        !(success && !stdout_empty) && trim(stderr@).len() == 0 ==> (r matches Err(e) && e@
            == "exit_code:"@ + signed_decimal(
            match code {
                Some(c) => c as int,
                None => -1,
            },
        )),
{
    if success && !stdout_empty {
        return Ok(());
    }
    let detail = trim_str(stderr);
    if detail.as_str().is_empty() {
        let c: i64 = match code {
            Some(c) => c as i64,
            None => -1,
        };
        Err(concat("exit_code:", i64_to_string(c).as_str()))
    } else {
        Err(detail)
    }
}

/// The first line of a tool's version output, trimmed: of its standard
/// output, or of its error output when the standard output is empty.
pub fn first_output_line(stdout: &str, stderr: &str) -> (r: String)
    ensures
        r@ == trim(before(if stdout@.len() > 0 {
            stdout@
        } else {
            stderr@
        }, '\n')),
{
    let raw = if !stdout.is_empty() {
        stdout
    } else {
        stderr
    };
    let v = chars_of(raw);
    let (head, _) = crate::text::split_once_char(v.as_slice(), '\n');
    let h = string_of(head.as_slice());
    trim_str(h.as_str())
}

/// What the settings page shows of a tool.
pub struct ToolStatus {
    pub installed: bool,
    pub runnable: bool,
    pub version: String,
    pub path: String,
    /// `managed`, `system`, or `custom` for a path given on the command line.
    pub source: String,
    pub is_managed: bool,
    pub can_update: bool,
}

pub open spec fn source_text(settings: ToolSettings, tool: Seq<char>, s: ToolSource) -> Seq<char> {
    if cli_path_of(settings, tool) is Some {
        "custom"@
    } else {
        s.text()
    }
}

/// The status of `tool` found at `path` (which `exists` or not; it is the
/// managed copy when `at_managed_path`), with the outcome of its version
/// run (`run`: success and first output line) when it exists.
pub fn build_tool_status(
    settings: &ToolSettings,
    tool: &str,
    path: &str,
    exists: bool,
    at_managed_path: bool,
    run: Option<(bool, String)>,
) -> (r: Result<ToolStatus, String>)
    requires
        exists ==> run is Some,
    ensures
        match source_of(*settings, tool@) {
            None => r matches Err(e) && e@ == "err_unknown_tool:"@ + tool@,
            Some(s) => r matches Ok(st) && {
                let custom = cli_path_of(*settings, tool@) is Some;
                &&& st.path@ == path@
                &&& st.source@ == source_text(*settings, tool@, s)
                &&& st.installed == exists
                &&& if !exists {
                    &&& !st.runnable
                    &&& st.version@ == Seq::<char>::empty()
                    &&& st.is_managed == (!custom && s == ToolSource::Managed)
                    &&& !st.can_update
                } else {
                    let (ok, line) = run->0;
                    &&& st.runnable == ok
                    &&& st.version@ == (if ok {
                        reported_version(tool@, line@)
                    } else {
                        Seq::<char>::empty()
                    })
                    &&& st.is_managed == at_managed_path
                    &&& st.can_update == (!custom && (s == ToolSource::Managed || tool@
                        != "ffmpeg"@))
                }
            },
        },
{
    let configured = match get_tool_source(settings, tool) {
        Ok(s) => s,
        Err(e) => return Err(e),
    };
    let custom = get_cli_tool_path(settings, tool).is_some();
    let source = if custom {
        owned("custom")
    } else {
        owned(configured.as_str())
    };
    if !exists {
        return Ok(
            ToolStatus {
                installed: false,
                runnable: false,
                version: String::new(),
                path: owned(path),
                source,
                is_managed: !custom && configured == ToolSource::Managed,
                can_update: false,
            },
        );
    }
    let (ok, line) = match run {
        Some(x) => x,
        None => (false, String::new()),
    };
    let version = if ok {
        parse_version(tool, line.as_str())
    } else {
        String::new()
    };
    Ok(
        ToolStatus {
            installed: true,
            runnable: ok,
            version,
            path: owned(path),
            source,
            is_managed: at_managed_path,
            can_update: !custom && (configured == ToolSource::Managed || !str_eq(tool, "ffmpeg")),
        },
    )
}

/// FFmpeg counts as installed and runnable only together with FFprobe.
pub fn with_ffprobe(status: ToolStatus, ffprobe_present: bool) -> (r: ToolStatus)
    ensures
        r.installed == (status.installed && ffprobe_present),
        r.runnable == (status.runnable && ffprobe_present),
        r.version == status.version,
        r.path == status.path,
        r.source == status.source,
        r.is_managed == status.is_managed,
        r.can_update == status.can_update,
{
    ToolStatus {
        installed: status.installed && ffprobe_present,
        runnable: status.runnable && ffprobe_present,
        version: status.version,
        path: status.path,
        source: status.source,
        is_managed: status.is_managed,
        can_update: status.can_update,
    }
}

/// How a tool is updated: the managed copy is downloaded again (`true`);
/// a system copy updates itself (`false`), except FFmpeg, which the
/// system's package manager updates.
pub fn update_route(settings: &ToolSettings, tool: &str) -> (r: Result<bool, String>)
    ensures
        match source_of(*settings, tool@) {
            None => r matches Err(e) && e@ == "err_unknown_tool:"@ + tool@,
            Some(s) => if s == ToolSource::Managed {
                r == Ok::<bool, String>(true)
            } else if tool@ == "ffmpeg"@ {
                r matches Err(e) && e@ == "err_system_ffmpeg_update_managed_externally"@
            } else {
                r == Ok::<bool, String>(false)
            },
        },
{
    match get_tool_source(settings, tool) {
        Err(e) => Err(e),
        Ok(s) => if s == ToolSource::Managed {
            Ok(true)
        } else if str_eq(tool, "ffmpeg") {
            Err(owned("err_system_ffmpeg_update_managed_externally"))
        } else {
            Ok(false)
        },
    }
}

/// Adds one line of an updater's output to its log.
pub fn append_log_line(log: &mut String, line: &str)
    ensures
        final(log)@ == old(log)@ + line@ + "\n"@,
{
    let next = concat3(log.as_str(), line, "\n");
    *log = next;
}

/// The result of yt-dlp's own updater: both logs, trimmed, when it
/// succeeded; else its error log, trimmed, as error.
pub fn ytdlp_update_result(success: bool, stdout_log: &str, stderr_log: &str) -> (r: Result<String, String>)
    ensures
        success ==> (r matches Ok(s) && s@ == trim(stdout_log@ + "\n"@ + stderr_log@)),
        !success ==> (r matches Err(e) && e@ == "err_update_failed:"@ + trim(stderr_log@)),
{
    if success {
        let all = concat3(stdout_log, "\n", stderr_log);
        Ok(trim_str(all.as_str()))
    } else {
        let t = trim_str(stderr_log);
        Err(concat("err_update_failed:", t.as_str()))
    }
}

/// The result of Deno's own updater: its output, trimmed, when it
/// succeeded; else its error output, trimmed, as error.
pub fn deno_update_result(success: bool, stdout: &str, stderr: &str) -> (r: Result<String, String>)
    ensures
        success ==> (r matches Ok(s) && s@ == trim(stdout@)),
        !success ==> (r matches Err(e) && e@ == "err_update_deno:"@ + trim(stderr@)),
{
    if success {
        Ok(trim_str(stdout))
    } else {
        let t = trim_str(stderr);
        Err(concat("err_update_deno:", t.as_str()))
    }
}


/// What the app shows of yt-dlp: whether it is there, its version and path.
pub struct YtdlpStatus {
    pub installed: bool,
    pub version: String,
    pub path: String,
}

/// What the app shows of Deno: whether it is there, its version and path.
pub struct DenoStatus {
    pub installed: bool,
    pub version: String,
    pub path: String,
}

/// yt-dlp's status: not installed when `version_output` is `None` (no file
/// at `path`), else installed, with its trimmed `--version` output.
pub fn ytdlp_status(path: String, version_output: Option<&str>) -> (r: YtdlpStatus)
    ensures
        r.installed == version_output.is_some(),
        r.path@ == path@,
        r.version@ == match version_output {
            Some(o) => trim(o@),
            None => seq![],
        },
{
    match version_output {
        Some(o) => YtdlpStatus { installed: true, version: trim_str(o), path },
        None => YtdlpStatus { installed: false, version: String::new(), path },
    }
}

/// `s` with every occurrence of `p` taken out, left to right
/// (`str::replace` with an empty replacement).
pub open spec fn remove_all(s: Seq<char>, p: Seq<char>) -> Seq<char>
    decreases s.len(),
{
    if s.len() == 0 || p.len() == 0 {
        s
    } else if starts_with(s, p) {
        remove_all(s.skip(p.len() as int), p)
    } else {
        seq![s[0]] + remove_all(s.skip(1), p)
    }
}

fn remove_all_chars(s: &[char], p: &[char]) -> (r: Vec<char>)
    requires
        p@.len() > 0,
    ensures
        r@ == remove_all(s@, p@),
{
    let mut out: Vec<char> = Vec::new();
    let mut i: usize = 0;
    assert(s@.skip(0) =~= s@);
    while i < s.len()
        invariant
            i <= s.len(),
            p@.len() > 0,
            out@ + remove_all(s@.skip(i as int), p@) == remove_all(s@, p@),
        decreases s.len() - i,
    {
        let ghost rest = s@.skip(i as int);
        let hit = chars_occur_at(s, i, p);
        proof {
            if hit {
                assert(rest.subrange(0, p@.len() as int) =~= s@.subrange(i as int, i + p@.len()));
            } else if p@.len() <= rest.len() {
                assert(rest.subrange(0, p@.len() as int) =~= s@.subrange(i as int, i + p@.len()));
            }
            assert(starts_with(rest, p@) == hit);
        }
        if hit {
            assert(rest.skip(p@.len() as int) =~= s@.skip(i + p@.len()));
            i = i + p.len();
        } else {
            let ghost before = out@;
            out.push(s[i]);
            assert(rest.skip(1) =~= s@.skip(i + 1));
            assert(rest[0] == s@[i as int]);
            assert(out@ + remove_all(s@.skip(i + 1), p@) =~= before + (seq![s@[i as int]]
                + remove_all(rest.skip(1), p@)));
            i = i + 1;
        }
    }
    out
}

/// The version Deno reports: the first line of its trimmed output, with
/// `deno ` taken out, trimmed.
pub open spec fn deno_version_of(stdout: Seq<char>) -> Seq<char> {
    let lines = lines_of(trim(stdout));
    let first = if lines.len() > 0 {
        lines[0]
    } else {
        seq![]
    };
    trim(remove_all(first, "deno "@))
}

/// Deno's status: not installed when `run` is `None` (no file at `path`);
/// else installed, with the version read from its `--version` output when
/// that run succeeded (`Some`), and an empty version when it did not.
pub fn deno_status(path: String, run: Option<Option<&str>>) -> (r: DenoStatus)
    ensures
        r.installed == run.is_some(),
        r.path@ == path@,
        r.version@ == match run {
            Some(Some(o)) => deno_version_of(o@),
            _ => seq![],
        },
{
    match run {
        Some(Some(o)) => {
            let t = trim_str(o);
            let lines = text_lines(t.as_str());
            let first: Vec<char> = if lines.len() > 0 {
                chars_of(lines[0].as_str())
            } else {
                Vec::new()
            };
            proof {
                if lines@.len() > 0 {
                    assert(crate::ytdlp::strings(lines@)[0] == lines@[0]@);
                }
            }
            let pat = chars_of("deno ");
            proof {
                reveal_strlit("deno ");
            }
            let removed = remove_all_chars(first.as_slice(), pat.as_slice());
            let s = string_of(removed.as_slice());
            DenoStatus { installed: true, version: trim_str(s.as_str()), path }
        },
        Some(None) => DenoStatus { installed: true, version: String::new(), path },
        None => DenoStatus { installed: false, version: String::new(), path },
    }
}


/// The temporary file never has the executable's own name: it is longer
/// by the suffix and a dot.
pub proof fn law_temp_name_differs(name: Seq<char>, suffix: Seq<char>)
    ensures
        temp_name_of(name, suffix).len() == name.len() + suffix.len() + 1,
        temp_name_of(name, suffix) != name,
{
    reveal_strlit(".");
    let (stem, ext) = stem_and_extension(name);
    match ext {
        Some(e) => {
            if name != ".."@ {
                let i = rfind(name, seq!['.'])->0;
                crate::text::lemma_rfind_to_some(name, seq!['.'], name.len() - 1);
                assert(0 <= i && i + 1 <= name.len());
                assert(stem.len() + e.len() + 1 == name.len());
            }
        },
        None => {},
    }
}

} // verus!
