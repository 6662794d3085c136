//! Running yt-dlp: the options every run shares, where the tools are,
//! reading its output and errors, and the cookie file it is given.

use vstd::prelude::*;

use crate::numbers::{decimal, in_range, parse_i64, parse_signed};
use crate::releases::Os;
use crate::source::{cli_path_of, get_cli_tool_path, get_tool_source, opt_str_view, source_of, ToolSettings, ToolSource};
use crate::text::{
    chars_of, concat, contains, find, owned, rfind, starts_with, str_contains, str_eq, string_of,
    sub_chars, trim, trim_str,
};
use crate::versions::split_char;

verus! {

pub open spec fn strings(v: Seq<String>) -> Seq<Seq<char>> {
    v.map_values(|s: String| s@)
}

/// `line` without the `\r` of a `\r\n` ending.
pub open spec fn strip_cr(line: Seq<char>) -> Seq<char> {
    if line.len() > 0 && line.last() == '\r' {
        line.drop_last()
    } else {
        line
    }
}

/// The lines of `s` as `str::lines` gives them: split at `\n`, a `\r`
/// before it dropped, no empty line after a final `\n`.
pub open spec fn lines_of(s: Seq<char>) -> Seq<Seq<char>>
    decreases s.len(),
{
    if s.len() == 0 {
        seq![]
    } else {
        match find(s, seq!['\n']) {
            None => seq![s],
            Some(i) => if 0 <= i < s.len() {
                seq![strip_cr(s.take(i))] + lines_of(s.skip(i + 1))
            } else {
                seq![s]
            },
        }
    }
}

/// The lines of `s` (`str::lines`).
pub fn text_lines(s: &str) -> (r: Vec<String>)
    ensures
        strings(r@) == lines_of(s@),
{
    let v = chars_of(s);
    let n = v.len();
    let mut out: Vec<String> = Vec::new();
    let mut start: usize = 0;
    let mut i: usize = 0;
    assert(v@.skip(0) =~= v@);
    while i < n
        invariant
            n == v@.len(),
            v@ == s@,
            start <= i <= n,
            forall|k: int| start <= k < i ==> v@[k] != '\n',
            strings(out@) + lines_of(v@.skip(start as int)) == lines_of(s@),
        decreases n - i,
    {
        if v[i] == '\n' {
            let ghost rest = v@.skip(start as int);
            proof {
                let j = i - start;
                assert(crate::text::occurs_at(rest, j as int, seq!['\n'])) by {
                    assert(rest.subrange(j as int, j + 1) =~= seq!['\n']);
                }
                assert forall|k: int| 0 <= k < j implies !crate::text::occurs_at(rest, k, seq!['\n']) by {
                    assert(rest[k] == v@[start + k]);
                    if crate::text::occurs_at(rest, k, seq!['\n']) {
                        assert(rest.subrange(k, k + 1)[0] == rest[k]);
                    }
                }
                lemma_find_first(rest, seq!['\n'], j as int);
                assert(rest.skip(j + 1) =~= v@.skip(i + 1));
                assert(rest.take(j as int) =~= v@.subrange(start as int, i as int));
            }
            let mut end = i;
            if end > start && v[end - 1] == '\r' {
                end = end - 1;
            }
            let line = string_of(sub_chars(v.as_slice(), start, end).as_slice());
            assert(line@ =~= strip_cr(v@.subrange(start as int, i as int)));
            let ghost before = strings(out@);
            out.push(line);
            assert(strings(out@) =~= before.push(line@));
            assert(strings(out@) + lines_of(v@.skip(i + 1)) =~= before + (seq![line@] + lines_of(v@.skip(i + 1))));
            start = i + 1;
        }
        i += 1;
    }
    proof {
        let rest = v@.skip(start as int);
        if rest.len() > 0 {
            assert forall|k: int| 0 <= k implies !crate::text::occurs_at(rest, k, seq!['\n']) by {
                if crate::text::occurs_at(rest, k, seq!['\n']) {
                    assert(rest.subrange(k, k + 1)[0] == rest[k]);
                    assert(rest[k] == v@[start + k]);
                }
            }
            lemma_find_none(rest, seq!['\n']);
        }
    }
    if start < n {
        let line = string_of(sub_chars(v.as_slice(), start, n).as_slice());
        assert(line@ =~= v@.skip(start as int));
        let ghost before = strings(out@);
        out.push(line);
        assert(strings(out@) =~= before.push(line@));
        assert(strings(out@) =~= before + lines_of(v@.skip(start as int)));
    } else {
        assert(v@.skip(start as int) =~= Seq::<char>::empty());
        assert(strings(out@) + Seq::<Seq<char>>::empty() =~= strings(out@));
    }
    out
}

proof fn lemma_find_first(s: Seq<char>, p: Seq<char>, j: int)
    requires
        0 <= j,
        crate::text::occurs_at(s, j, p),
        forall|k: int| 0 <= k < j ==> !crate::text::occurs_at(s, k, p),
    ensures
        find(s, p) == Some(j),
{
    lemma_find_from_first(s, p, 0, j);
}

proof fn lemma_find_from_first(s: Seq<char>, p: Seq<char>, i: int, j: int)
    requires
        0 <= i <= j,
        crate::text::occurs_at(s, j, p),
        forall|k: int| i <= k < j ==> !crate::text::occurs_at(s, k, p),
    ensures
        crate::text::find_from(s, p, i) == Some(j),
    decreases j - i,
{
    if i < j {
        lemma_find_from_first(s, p, i + 1, j);
    }
}

proof fn lemma_find_none(s: Seq<char>, p: Seq<char>)
    requires
        forall|k: int| 0 <= k ==> !crate::text::occurs_at(s, k, p),
    ensures
        find(s, p) is None,
{
    lemma_find_from_none(s, p, 0);
}

proof fn lemma_find_from_none(s: Seq<char>, p: Seq<char>, i: int)
    requires
        0 <= i,
        forall|k: int| 0 <= k ==> !crate::text::occurs_at(s, k, p),
    ensures
        crate::text::find_from(s, p, i) is None,
    decreases s.len() + 1 - i,
{
    if i + p.len() <= s.len() {
        lemma_find_from_none(s, p, i + 1);
    }
}

/// The lines that mention `ERROR:`, in order.
pub open spec fn error_lines(ls: Seq<Seq<char>>) -> Seq<Seq<char>>
    decreases ls.len(),
{
    if ls.len() == 0 {
        seq![]
    } else if contains(ls.last(), "ERROR:"@) {
        error_lines(ls.drop_last()).push(ls.last())
    } else {
        error_lines(ls.drop_last())
    }
}

/// What yt-dlp's error output says went wrong: its `ERROR:` lines joined
/// by new lines, else all of it, trimmed.
pub open spec fn ytdlp_error_of(s: Seq<char>) -> Seq<char> {
    let e = error_lines(lines_of(s));
    if e.len() == 0 {
        trim(s)
    } else {
        crate::source::join(e, "\n"@)
    }
}

/// `parts` joined with `sep` between neighbours.
pub fn join_with(parts: &Vec<String>, sep: &str) -> (r: String)
    ensures
        r@ == crate::source::join(strings(parts@), sep@),
{
    let n = parts.len();
    let mut out = String::new();
    let mut i: usize = 0;
    while i < n
        invariant
            n == parts@.len(),
            i <= n,
            out@ == crate::source::join(strings(parts@).take(i as int), sep@),
        decreases n - i,
    {
        let ghost part = strings(parts@).take(i + 1);
        assert(part.drop_last() =~= strings(parts@).take(i as int));
        assert(part.last() == parts@[i as int]@);
        if i == 0 {
            out = parts[i].clone();
        } else {
            out = crate::text::concat3(out.as_str(), sep, parts[i].as_str());
        }
        i += 1;
    }
    assert(strings(parts@).take(n as int) =~= strings(parts@));
    out
}

/// What went wrong according to yt-dlp's error output.
pub fn extract_ytdlp_error(stderr: &str) -> (r: String)
    ensures
        r@ == ytdlp_error_of(stderr@),
{
    let lines = text_lines(stderr);
    let n = lines.len();
    let mut errors: Vec<String> = Vec::new();
    let mut i: usize = 0;
    while i < n
        invariant
            n == lines@.len(),
            i <= n,
            strings(errors@) == error_lines(strings(lines@).take(i as int)),
        decreases n - i,
    {
        assert(strings(lines@).take(i + 1).drop_last() =~= strings(lines@).take(i as int));
        if str_contains(lines[i].as_str(), "ERROR:") {
            let ghost before = strings(errors@);
            errors.push(lines[i].clone());
            assert(strings(errors@) =~= before.push(lines@[i as int]@));
        }
        i += 1;
    }
    assert(strings(lines@).take(n as int) =~= strings(lines@));
    if errors.len() == 0 {
        trim_str(stderr)
    } else {
        join_with(&errors, "\n")
    }
}

/// The error of a JSON run of yt-dlp that printed no JSON: from its error
/// output, else from its standard output, else a generic one.
pub fn ytdlp_failure(stdout: &str, stderr: &str) -> (r: String)
    ensures
        ytdlp_error_of(stderr@).len() > 0 ==> r@ == ytdlp_error_of(stderr@),
        ytdlp_error_of(stderr@).len() == 0 && ytdlp_error_of(stdout@).len() > 0 ==> r@
            == ytdlp_error_of(stdout@),
        ytdlp_error_of(stderr@).len() == 0 && ytdlp_error_of(stdout@).len() == 0 ==> r@
            == "err_parse_video_info:empty_json"@,
{
    let err = extract_ytdlp_error(stderr);
    if !err.as_str().is_empty() {
        return err;
    }
    let out_err = extract_ytdlp_error(stdout);
    if !out_err.as_str().is_empty() {
        return out_err;
    }
    owned("err_parse_video_info:empty_json")
}

pub open spec fn given_ref(o: Option<&str>) -> Option<Seq<char>> {
    match o {
        Some(s) => if s@.len() > 0 {
            Some(s@)
        } else {
            None
        },
        None => None,
    }
}

pub open spec fn pair(flag: Seq<char>, v: Option<Seq<char>>) -> Seq<Seq<char>> {
    match v {
        Some(x) => seq![flag, x],
        None => seq![],
    }
}

/// The cookie and proxy options: `--cookies`, `--cookies-from-browser` and
/// `--proxy`, each with its value when that is given and not empty.
pub open spec fn cookie_proxy_args_of(
    cookie_file: Option<&str>,
    cookie_browser: Option<&str>,
    proxy: Option<&str>,
) -> Seq<Seq<char>> {
    pair("--cookies"@, given_ref(cookie_file)) + pair(
        "--cookies-from-browser"@,
        given_ref(cookie_browser),
    ) + pair("--proxy"@, given_ref(proxy))
}

fn push_pair(args: &mut Vec<String>, flag: &str, value: Option<&str>)
    ensures
        strings(final(args)@) == strings(old(args)@) + pair(flag@, given_ref(value)),
{
    let ghost before = strings(args@);
    match value {
        Some(v) => if !v.is_empty() {
            args.push(owned(flag));
            args.push(owned(v));
            assert(strings(args@) =~= before + seq![flag@, v@]);
        } else {
            assert(strings(args@) =~= before + Seq::<Seq<char>>::empty());
        },
        None => {
            assert(strings(args@) =~= before + Seq::<Seq<char>>::empty());
        },
    }
}

/// Appends the cookie and proxy options to `args`.
pub fn append_cookie_proxy_args(
    args: &mut Vec<String>,
    cookie_file: Option<&str>,
    cookie_browser: Option<&str>,
    proxy: Option<&str>,
)
    ensures
        strings(final(args)@) == strings(old(args)@) + cookie_proxy_args_of(
            cookie_file,
            cookie_browser,
            proxy,
        ),
{
    let ghost before = strings(args@);
    push_pair(args, "--cookies", cookie_file);
    push_pair(args, "--cookies-from-browser", cookie_browser);
    push_pair(args, "--proxy", proxy);
    assert(strings(args@) =~= before + cookie_proxy_args_of(cookie_file, cookie_browser, proxy));
}

/// The JavaScript runtime option: the selected Deno when it exists, else
/// the managed one when that exists (a system Deno may be missing from
/// the application's search path).
pub fn js_runtime_args(deno_if_present: Option<&str>, managed_if_present: Option<&str>) -> (r: Vec<String>)
    ensures
        strings(r@) == match deno_if_present {
            Some(d) => seq!["--js-runtimes"@, "deno:"@ + d@],
            None => match managed_if_present {
                Some(m) => seq!["--js-runtimes"@, "deno:"@ + m@],
                None => seq![],
            },
        },
{
    let chosen = match deno_if_present {
        Some(d) => Some(d),
        None => managed_if_present,
    };
    let mut r: Vec<String> = Vec::new();
    if let Some(p) = chosen {
        r.push(owned("--js-runtimes"));
        r.push(concat("deno:", p));
    }
    assert(strings(r@) =~= match deno_if_present {
        Some(d) => seq!["--js-runtimes"@, "deno:"@ + d@],
        None => match managed_if_present {
            Some(m) => seq!["--js-runtimes"@, "deno:"@ + m@],
            None => seq![],
        },
    });
    r
}

/// An option whose value is a folder that exists: `flag folder`, else
/// nothing (`--ffmpeg-location` with FFmpeg's folder, `--plugin-dirs`
/// with the plugin folder).
pub fn folder_args(flag: &str, folder_if_present: Option<&str>) -> (r: Vec<String>)
    ensures
        strings(r@) == match folder_if_present {
            Some(d) => seq![flag@, d@],
            None => seq![],
        },
{
    let mut r: Vec<String> = Vec::new();
    if let Some(d) = folder_if_present {
        r.push(owned(flag));
        r.push(owned(d));
    }
    assert(strings(r@) =~= match folder_if_present {
        Some(d) => seq![flag@, d@],
        None => seq![],
    });
    r
}

/// The options of a JSON run of yt-dlp: fail fast on network trouble.
pub open spec fn json_base_args() -> Seq<Seq<char>> {
    seq![
        "-J"@,
        "--ignore-config"@,
        "--color"@,
        "never"@,
        "--no-warnings"@,
        "--socket-timeout"@,
        "15"@,
        "--retries"@,
        "3"@,
        "--extractor-retries"@,
        "2"@,
    ]
}

fn push_all(args: &mut Vec<String>, items: &Vec<String>)
    ensures
        strings(final(args)@) == strings(old(args)@) + strings(items@),
{
    let ghost start = strings(args@);
    let n = items.len();
    let mut i: usize = 0;
    while i < n
        invariant
            n == items@.len(),
            i <= n,
            strings(args@) == start + strings(items@).take(i as int),
        decreases n - i,
    {
        let ghost before = args@;
        args.push(items[i].clone());
        assert(strings(args@) =~= strings(before).push(items@[i as int]@));
        assert(strings(items@).take(i + 1) =~= strings(items@).take(i as int).push(items@[i as int]@));
        i += 1;
    }
    assert(strings(items@).take(n as int) =~= strings(items@));
}

/// The options of a JSON run of yt-dlp for `url`: the common ones, the
/// caller's, the tool options (JavaScript runtime, FFmpeg, plugins,
/// YouTube), cookies and proxy, then the address.
pub fn ytdlp_json_args(
    extra: &Vec<String>,
    tool_args: &Vec<String>,
    cookie_file: Option<&str>,
    cookie_browser: Option<&str>,
    proxy: Option<&str>,
    url: &str,
) -> (r: Vec<String>)
    ensures
        strings(r@) == json_base_args() + strings(extra@) + strings(tool_args@)
            + cookie_proxy_args_of(cookie_file, cookie_browser, proxy) + seq![url@],
{
    let mut r: Vec<String> = Vec::new();
    r.push(owned("-J"));
    r.push(owned("--ignore-config"));
    r.push(owned("--color"));
    r.push(owned("never"));
    r.push(owned("--no-warnings"));
    r.push(owned("--socket-timeout"));
    r.push(owned("15"));
    r.push(owned("--retries"));
    r.push(owned("3"));
    r.push(owned("--extractor-retries"));
    r.push(owned("2"));
    assert(strings(r@) =~= json_base_args());
    push_all(&mut r, extra);
    push_all(&mut r, tool_args);
    append_cookie_proxy_args(&mut r, cookie_file, cookie_browser, proxy);
    let ghost before = strings(r@);
    r.push(owned(url));
    assert(strings(r@) =~= before + seq![url@]);
    r
}

/// Where a tool is run from: the path given on the command line (yt-dlp
/// and Deno only); else the managed copy, or for a system tool the copy
/// found on the search path (`found`), else its bare name.
pub fn resolve_executable_path(
    settings: &ToolSettings,
    source_tool: &str,
    managed: &str,
    system_name: &str,
    found: Option<String>,
) -> (r: Result<String, String>)
    ensures
        match cli_path_of(*settings, source_tool@) {
            Some(p) => r matches Ok(x) && x@ == p,
            None => match source_of(*settings, source_tool@) {
                None => r matches Err(e) && e@ == "err_unknown_tool:"@ + source_tool@,
                Some(ToolSource::Managed) => r matches Ok(x) && x@ == managed@,
                Some(ToolSource::System) => r matches Ok(x) && x@ == match found {
                    Some(f) => f@,
                    None => system_name@,
                },
            },
        },
{
    if let Some(p) = get_cli_tool_path(settings, source_tool) {
        return Ok(p);
    }
    match get_tool_source(settings, source_tool) {
        Err(e) => Err(e),
        Ok(ToolSource::Managed) => Ok(owned(managed)),
        Ok(ToolSource::System) => match found {
            Some(f) => Ok(f),
            None => Ok(owned(system_name)),
        },
    }
}

/// Folders searched for a system tool after the search path: package
/// manager folders that a desktop application's search path may lack.
pub fn system_search_dirs(os: Os) -> (r: Vec<&'static str>)
    ensures
        r@.map_values(|s: &str| s@) == match os {
            Os::Macos => seq!["/opt/homebrew/bin"@, "/usr/local/bin"@, "/opt/local/bin"@],
            Os::Linux => seq!["/usr/local/bin"@, "/usr/bin"@, "/snap/bin"@],
            Os::Windows => Seq::<Seq<char>>::empty(),
        },
{
    let r = match os {
        Os::Macos => vec!["/opt/homebrew/bin", "/usr/local/bin", "/opt/local/bin"],
        Os::Linux => vec!["/usr/local/bin", "/usr/bin", "/snap/bin"],
        Os::Windows => Vec::new(),
    };
    assert(r@.map_values(|s: &str| s@) =~= match os {
        Os::Macos => seq!["/opt/homebrew/bin"@, "/usr/local/bin"@, "/opt/local/bin"@],
        Os::Linux => seq!["/usr/local/bin"@, "/usr/bin"@, "/snap/bin"@],
        Os::Windows => Seq::<Seq<char>>::empty(),
    });
    r
}

/// The pieces of `line` between the occurrences of `c` (`str::split`).
pub fn split_fields(line: &str, c: char) -> (r: Vec<String>)
    ensures
        strings(r@) == split_char(line@, c),
{
    let mut out: Vec<String> = Vec::new();
    let mut rest = chars_of(line);
    loop
        invariant_except_break
            strings(out@) + split_char(rest@, c) == split_char(line@, c),
        ensures
            strings(out@) == split_char(line@, c),
        decreases rest@.len(),
    {
        let ghost r0 = rest@;
        proof {
            crate::text::lemma_find_from_some(r0, seq![c], 0);
        }
        let (head, tail) = crate::text::split_once_char(rest.as_slice(), c);
        let ghost before = strings(out@);
        out.push(string_of(head.as_slice()));
        assert(strings(out@) =~= before.push(head@));
        match tail {
            Some(t) => {
                proof {
                    crate::text::lemma_after_shorter(r0, c);
                    let i = find(r0, seq![c])->0;
                    assert(split_char(r0, c) == seq![r0.take(i)] + split_char(r0.skip(i + 1), c));
                    assert(strings(out@) + split_char(t@, c) =~= before + (seq![head@] + split_char(t@, c)));
                }
                rest = t;
            },
            None => {
                assert(split_char(r0, c) == seq![r0]);
                assert(strings(out@) =~= before + split_char(r0, c));
                break;
            },
        }
    }
    out
}

/// `s` without the `\r` characters at its end.
pub open spec fn trim_end_cr(s: Seq<char>) -> Seq<char>
    decreases s.len(),
{
    if s.len() > 0 && s.last() == '\r' {
        trim_end_cr(s.drop_last())
    } else {
        s
    }
}

pub open spec fn is_cookie_header(line: Seq<char>) -> bool {
    line == "# Netscape HTTP Cookie File"@ || line == "# HTTP Cookie File"@
}

/// Empty lines and comments are kept as they are; `#HttpOnly_` lines are
/// cookies.
pub open spec fn is_passthrough(line: Seq<char>) -> bool {
    line.len() == 0 || (starts_with(line, "#"@) && !starts_with(line, "#HttpOnly_"@))
}

pub open spec fn is_flag_field(f: Seq<char>) -> bool {
    f == "TRUE"@ || f == "FALSE"@
}

/// A cookie row: seven tab-separated fields — a domain, a flag, a path
/// starting with `/`, a flag, an expiry that is an `i64`, a name, a value.
pub open spec fn is_cookie_row(line: Seq<char>) -> bool {
    let f = split_char(line, '\t');
    &&& f.len() == 7
    &&& f[0].len() > 0
    &&& is_flag_field(f[1])
    &&& starts_with(f[2], "/"@)
    &&& is_flag_field(f[3])
    &&& in_range(parse_signed(f[4]), i64::MIN as int, i64::MAX as int) is Some
    &&& f[5].len() > 0
}

/// The first line at or after `i` that is neither kept nor a cookie row.
pub open spec fn first_bad_line(ls: Seq<Seq<char>>, i: int) -> Option<int>
    decreases ls.len() - i,
{
    if i < 0 || i >= ls.len() {
        None
    } else if !is_passthrough(ls[i]) && !is_cookie_row(ls[i]) {
        Some(i)
    } else {
        first_bad_line(ls, i + 1)
    }
}

pub open spec fn cookie_rows(ls: Seq<Seq<char>>) -> int
    decreases ls.len(),
{
    if ls.len() == 0 {
        0
    } else {
        cookie_rows(ls.drop_last()) + if is_passthrough(ls.last()) {
            0int
        } else {
            1int
        }
    }
}

pub open spec fn cookie_lines(text: Seq<char>) -> Seq<Seq<char>> {
    lines_of(text).map_values(|l: Seq<char>| trim_end_cr(l))
}

/// A Netscape cookie file, checked and with `\n` line ends: the first bad
/// line (numbered from 1) is reported; the file must start with the
/// Netscape header and hold a cookie.
pub open spec fn normalized_cookies(text: Seq<char>) -> Result<Seq<char>, Seq<char>> {
    let ls = cookie_lines(text);
    match first_bad_line(ls, 0) {
        Some(k) => Err("err_invalid_cookie_line:"@ + decimal((k + 1) as nat)),
        None => if !(ls.len() > 0 && is_cookie_header(ls[0])) {
            Err("err_invalid_cookie_header"@)
        } else if cookie_rows(ls) == 0 {
            Err("err_empty_cookie_file"@)
        } else {
            Ok(crate::source::join(ls, "\n"@) + "\n"@)
        },
    }
}

fn trim_end_cr_str(s: &str) -> (r: String)
    ensures
        r@ == trim_end_cr(s@),
{
    let v = chars_of(s);
    let mut n = v.len();
    assert(v@.take(n as int) =~= v@);
    while n > 0 && v[n - 1] == '\r'
        invariant
            n <= v@.len(),
            v@ == s@,
            trim_end_cr(s@) == trim_end_cr(v@.take(n as int)),
        decreases n,
    {
        assert(v@.take(n as int).drop_last() =~= v@.take(n - 1));
        n -= 1;
    }
    string_of(sub_chars(v.as_slice(), 0, n).as_slice())
}

fn is_cookie_row_exec(line: &str) -> (r: bool)
    ensures
        r == is_cookie_row(line@),
{
    let f = split_fields(line, '\t');
    if f.len() != 7 {
        return false;
    }
    assert(strings(f@)[0] == f@[0]@);
    assert(strings(f@)[1] == f@[1]@);
    assert(strings(f@)[2] == f@[2]@);
    assert(strings(f@)[3] == f@[3]@);
    assert(strings(f@)[4] == f@[4]@);
    assert(strings(f@)[5] == f@[5]@);
    let expiry = chars_of(f[4].as_str());
    !f[0].as_str().is_empty() && (str_eq(f[1].as_str(), "TRUE") || str_eq(f[1].as_str(), "FALSE"))
        && crate::text::str_starts_with(f[2].as_str(), "/") && (str_eq(f[3].as_str(), "TRUE")
        || str_eq(f[3].as_str(), "FALSE")) && parse_i64(expiry.as_slice()).is_some()
        && !f[5].as_str().is_empty()
}

fn is_passthrough_exec(line: &str) -> (r: bool)
    ensures
        r == is_passthrough(line@),
{
    line.is_empty() || (crate::text::str_starts_with(line, "#") && !crate::text::str_starts_with(
        line,
        "#HttpOnly_",
    ))
}

/// Checks a Netscape cookie file and gives it back with `\n` line ends
/// (see `normalized_cookies`).
pub fn normalize_netscape_cookie_file(text: &str) -> (r: Result<String, String>)
    ensures
        match normalized_cookies(text@) {
            Ok(s) => r matches Ok(x) && x@ == s,
            Err(e) => r matches Err(x) && x@ == e,
        },
{
    let raw = text_lines(text);
    let n = raw.len();
    let ghost ls = cookie_lines(text@);
    assert(ls.len() == n);
    let mut lines: Vec<String> = Vec::new();
    let mut count: usize = 0;
    let mut i: usize = 0;
    while i < n
        invariant
            n == raw@.len(),
            ls == cookie_lines(text@),
            strings(raw@) == lines_of(text@),
            ls.len() == n,
            i <= n,
            strings(lines@) == ls.take(i as int),
            first_bad_line(ls, 0) == first_bad_line(ls, i as int),
            count as int == cookie_rows(ls.take(i as int)),
            count <= i,
        decreases n - i,
    {
        assert(ls[i as int] == trim_end_cr(raw@[i as int]@));
        let line = trim_end_cr_str(raw[i].as_str());
        let pass = is_passthrough_exec(line.as_str());
        assert(ls.take(i + 1).drop_last() =~= ls.take(i as int));
        if !pass && !is_cookie_row_exec(line.as_str()) {
            let k = crate::numbers::u64_to_string((i as u64) + 1);
            return Err(concat("err_invalid_cookie_line:", k.as_str()));
        }
        if !pass {
            count = count + 1;
        }
        let ghost before = strings(lines@);
        lines.push(line);
        assert(strings(lines@) =~= before.push(ls[i as int]));
        assert(ls.take(i + 1) =~= ls.take(i as int).push(ls[i as int]));
        i += 1;
    }
    assert(ls.take(n as int) =~= ls);
    let has_header = n > 0 && (str_eq(lines[0].as_str(), "# Netscape HTTP Cookie File") || str_eq(
        lines[0].as_str(),
        "# HTTP Cookie File",
    ));
    proof {
        if n > 0 {
            assert(strings(lines@)[0] == lines@[0]@);
        }
    }
    if !has_header {
        return Err(owned("err_invalid_cookie_header"));
    }
    if count == 0 {
        return Err(owned("err_empty_cookie_file"));
    }
    let joined = join_with(&lines, "\n");
    Ok(concat(joined.as_str(), "\n"))
}

/// Where the JSON of a run's output may be: the text from its first `{`
/// to its last `}` (when the last comes after the first), and the text
/// from its first `{` on, both of the trimmed output.
pub open spec fn json_spans(stdout: Seq<char>) -> (Option<Seq<char>>, Option<Seq<char>>) {
    let t = trim(stdout);
    match find(t, seq!['{']) {
        None => (None, None),
        Some(a) => (
            match rfind(t, seq!['}']) {
                Some(b) => if a < b {
                    Some(t.subrange(a, b + 1))
                } else {
                    None
                },
                None => None,
            },
            Some(t.skip(a)),
        ),
    }
}

/// The texts in which a run's output is searched for its JSON, to be
/// parsed in this order: the whole braced span, then a JSON value read
/// from the first brace on.
pub fn json_candidates(stdout: &str) -> (r: (Option<String>, Option<String>))
    ensures
        opt_str_view(r.0) == json_spans(stdout@).0,
        opt_str_view(r.1) == json_spans(stdout@).1,
{
    let t = trim_str(stdout);
    let v = chars_of(t.as_str());
    let n = v.len();
    let open = vec!['{'];
    let close = vec!['}'];
    assert(open@ =~= seq!['{']);
    assert(close@ =~= seq!['}']);
    match crate::text::chars_find(v.as_slice(), open.as_slice()) {
        None => (None, None),
        Some(a) => {
            let whole = match crate::text::chars_rfind(v.as_slice(), close.as_slice()) {
                Some(b) => if a < b {
                    Some(string_of(sub_chars(v.as_slice(), a, b + 1).as_slice()))
                } else {
                    None
                },
                None => None,
            };
            let from = string_of(sub_chars(v.as_slice(), a, n).as_slice());
            assert(from@ =~= t@.skip(a as int));
            (whole, Some(from))
        },
    }
}

} // verus!

verus! {

/// `serde_json::from_str::<serde_json::Value>` accepts `text` as one JSON
/// value (with nothing but white space around it).
pub uninterp spec fn json_whole(text: Seq<char>) -> bool;

/// `serde_json::Value::deserialize` on `serde_json::Deserializer::from_str`
/// reads a JSON value from the start of `text` (what follows it is left
/// unread).
pub uninterp spec fn json_leading(text: Seq<char>) -> bool;

/// Whether `serde_json::from_str` parses `text` as a `serde_json::Value`.
#[verifier::external_body]
fn parses_whole(text: &str) -> (r: bool)
    ensures
        r == json_whole(text@),
{
    serde_json::from_str::<serde_json::Value>(text).is_ok()
}

/// Whether a `serde_json::Value` can be read from the start of `text`.
#[verifier::external_body]
fn parses_leading(text: &str) -> (r: bool)
    ensures
        r == json_leading(text@),
{
    let mut de = serde_json::Deserializer::from_str(text);
    let v: Result<serde_json::Value, serde_json::Error> = serde::Deserialize::deserialize(&mut de);
    v.is_ok()
}

/// The text of a run's output that holds its JSON: the braced span when it
/// parses whole (`true`), else the text from the first brace on when a
/// value can be read from its start (`false`); nothing otherwise.
pub open spec fn json_text_choice(stdout: Seq<char>) -> Option<(Seq<char>, bool)> {
    let spans = json_spans(stdout);
    if spans.0 is Some && json_whole(spans.0->0) {
        Some((spans.0->0, true))
    } else if spans.1 is Some && json_leading(spans.1->0) {
        Some((spans.1->0, false))
    } else {
        None
    }
}

/// Picks the text of a run's output to read its JSON from (see
/// `json_text_choice`); the flag says whether it is one whole value.
pub fn json_text_of_stdout(stdout: &str) -> (r: Option<(String, bool)>)
    ensures
        match json_text_choice(stdout@) {
            Some(c) => r matches Some(x) && x.0@ == c.0 && x.1 == c.1,
            None => r is None,
        },
{
    let (span, from_brace) = json_candidates(stdout);
    if let Some(t) = span {
        if parses_whole(t.as_str()) {
            return Some((t, true));
        }
    }
    if let Some(t) = from_brace {
        if parses_leading(t.as_str()) {
            return Some((t, false));
        }
    }
    None
}

} // verus!
