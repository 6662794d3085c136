//! Command-line options of the desktop application.

use vstd::prelude::*;

use crate::text::{chars_eq, chars_of, chars_starts_with, split_once_char, starts_with, string_of};

verus! {

/// What the application is asked to open on start.
#[derive(Clone, Debug, Default, PartialEq)]
pub struct CliOpenRequest {
    pub url: Option<String>,
    pub cookie_file: Option<String>,
    pub download_dir: Option<String>,
}

/// Options given on the command line.
#[derive(Debug, Default, PartialEq)]
pub struct CliOptions {
    pub request: CliOpenRequest,
    pub ytdlp_path: Option<String>,
    pub deno_path: Option<String>,
}

pub open spec fn opt_view(o: Option<String>) -> Option<Seq<char>> {
    match o {
        Some(s) => Some(s@),
        None => None,
    }
}

impl CliOpenRequest {
    pub fn is_empty(&self) -> (r: bool)
        ensures
            r == (self.url is None && self.cookie_file is None && self.download_dir is None),
    {
        self.url.is_none() && self.cookie_file.is_none() && self.download_dir.is_none()
    }
}

/// The options as values: url, cookie file, download directory, yt-dlp
/// path, Deno path.
pub struct CliModel {
    pub url: Option<Seq<char>>,
    pub cookie_file: Option<Seq<char>>,
    pub download_dir: Option<Seq<char>>,
    pub ytdlp_path: Option<Seq<char>>,
    pub deno_path: Option<Seq<char>>,
}

pub open spec fn cli_model(o: CliOptions) -> CliModel {
    CliModel {
        url: opt_view(o.request.url),
        cookie_file: opt_view(o.request.cookie_file),
        download_dir: opt_view(o.request.download_dir),
        ytdlp_path: opt_view(o.ytdlp_path),
        deno_path: opt_view(o.deno_path),
    }
}

pub open spec fn cli_empty() -> CliModel {
    CliModel { url: None, cookie_file: None, download_dir: None, ytdlp_path: None, deno_path: None }
}

/// The flag part of an argument: up to its first `=`.
pub open spec fn flag_of(arg: Seq<char>) -> Seq<char> {
    crate::text::before(arg, '=')
}

/// The value that the flag at `i` takes: its `=` part, else the next
/// argument, else nothing.
pub open spec fn flag_value(args: Seq<Seq<char>>, i: int) -> Option<Seq<char>> {
    match crate::text::after(args[i], '=') {
        Some(v) => Some(v),
        None => if i + 1 < args.len() {
            Some(args[i + 1])
        } else {
            None
        },
    }
}

/// Number of arguments the flag at `i` uses.
pub open spec fn flag_width(args: Seq<Seq<char>>, i: int) -> int {
    if crate::text::after(args[i], '=') is None && i + 1 < args.len() {
        2
    } else {
        1
    }
}

pub open spec fn non_empty(v: Option<Seq<char>>) -> Option<Seq<char>> {
    match v {
        Some(s) => if s.len() > 0 {
            Some(s)
        } else {
            None
        },
        None => None,
    }
}

pub open spec fn is_value_flag(f: Seq<char>) -> bool {
    f == "--url"@ || f == "--cookies"@ || f == "--dir"@ || f == "--yt-dlp-path"@ || f
        == "--deno-path"@
}

pub open spec fn is_http_url(a: Seq<char>) -> bool {
    starts_with(a, "https://"@) || starts_with(a, "http://"@)
}

/// The options after reading the argument at `i`. A flag sets its option
/// to its non-empty value (or clears it); the first `http(s)://` argument
/// that is no flag becomes the url if none is set; anything else is
/// ignored.
pub open spec fn cli_step(args: Seq<Seq<char>>, i: int, m: CliModel) -> CliModel {
    let f = flag_of(args[i]);
    let v = non_empty(flag_value(args, i));
    if f == "--url"@ {
        CliModel { url: v, ..m }
    } else if f == "--cookies"@ {
        CliModel { cookie_file: v, ..m }
    } else if f == "--dir"@ {
        CliModel { download_dir: v, ..m }
    } else if f == "--yt-dlp-path"@ {
        CliModel { ytdlp_path: v, ..m }
    } else if f == "--deno-path"@ {
        CliModel { deno_path: v, ..m }
    } else if m.url is None && is_http_url(args[i]) {
        CliModel { url: Some(args[i]), ..m }
    } else {
        m
    }
}

pub open spec fn cli_step_width(args: Seq<Seq<char>>, i: int) -> int {
    if is_value_flag(flag_of(args[i])) {
        flag_width(args, i)
    } else {
        1
    }
}

pub open spec fn cli_run(args: Seq<Seq<char>>, i: int, m: CliModel) -> CliModel
    decreases args.len() - i,
{
    if i < 0 || i >= args.len() {
        m
    } else {
        cli_run(args, i + cli_step_width(args, i), cli_step(args, i, m))
    }
}

/// The options that `args` (the program name first) give.
pub open spec fn parse_cli(args: Seq<Seq<char>>) -> CliModel {
    cli_run(args, 0, cli_empty())
}

pub open spec fn args_view(args: Seq<String>) -> Seq<Seq<char>> {
    args.map_values(|a: String| a@)
}

fn lit_is(v: &[char], lit: &str) -> (r: bool)
    ensures
        r == (v@ == lit@),
{
    let l = chars_of(lit);
    chars_eq(v, l.as_slice())
}

fn non_empty_exec(v: Option<Vec<char>>) -> (r: Option<String>)
    ensures
        opt_view(r) == non_empty(match v {
            Some(x) => Some(x@),
            None => None,
        }),
{
    match v {
        Some(x) => if x.len() > 0 {
            Some(string_of(x.as_slice()))
        } else {
            None
        },
        None => None,
    }
}

/// Reads the application's command line: `--url`, `--cookies`, `--dir`,
/// `--yt-dlp-path` and `--deno-path`, each as `--flag value` or
/// `--flag=value`, and a bare `http(s)://` url.
pub fn parse_cli_args(args: Vec<String>) -> (r: CliOptions)
    ensures
        cli_model(r) == parse_cli(args_view(args@)),
{
    let ghost a = args_view(args@);
    let mut opts = CliOptions::default_options();
    let n = args.len();
    let mut i: usize = 0;
    while i < n
        invariant
            n == args@.len(),
            a == args_view(args@),
            a.len() == n,
            i <= n,
            cli_run(a, i as int, cli_model(opts)) == parse_cli(a),
        decreases n - i,
    {
        let arg = chars_of(args[i].as_str());
        assert(arg@ == a[i as int]);
        let (flag, inline) = split_once_char(arg.as_slice(), '=');
        let is_url = lit_is(flag.as_slice(), "--url");
        let is_cookies = lit_is(flag.as_slice(), "--cookies");
        let is_dir = lit_is(flag.as_slice(), "--dir");
        let is_ytdlp = lit_is(flag.as_slice(), "--yt-dlp-path");
        let is_deno = lit_is(flag.as_slice(), "--deno-path");
        if is_url || is_cookies || is_dir || is_ytdlp || is_deno {
            let (value, width): (Option<Vec<char>>, usize) = match inline {
                Some(v) => (Some(v), 1),
                None => if i + 1 < n {
                    (Some(chars_of(args[i + 1].as_str())), 2)
                } else {
                    (None, 1)
                },
            };
            let v = non_empty_exec(value);
            if is_url {
                opts.request.url = v;
            } else if is_cookies {
                opts.request.cookie_file = v;
            } else if is_dir {
                opts.request.download_dir = v;
            } else if is_ytdlp {
                opts.ytdlp_path = v;
            } else {
                opts.deno_path = v;
            }
            i += width;
        } else {
            let https = chars_of("https://");
            let http = chars_of("http://");
            if opts.request.url.is_none() && (chars_starts_with(arg.as_slice(), https.as_slice())
                || chars_starts_with(arg.as_slice(), http.as_slice())) {
                opts.request.url = Some(string_of(arg.as_slice()));
            }
            i += 1;
        }
    }
    opts
}

impl CliOptions {
    /// No option set.
    pub fn default_options() -> (r: CliOptions)
        ensures
            cli_model(r) == cli_empty(),
    {
        CliOptions {
            request: CliOpenRequest { url: None, cookie_file: None, download_dir: None },
            ytdlp_path: None,
            deno_path: None,
        }
    }
}


/// The arguments of a second launch that are deep links (`ytdlp-gui://`),
/// in order.
pub open spec fn deep_links_of(args: Seq<Seq<char>>) -> Seq<Seq<char>>
    decreases args.len(),
{
    if args.len() == 0 {
        seq![]
    } else if starts_with(args.last(), "ytdlp-gui://"@) {
        deep_links_of(args.drop_last()).push(args.last())
    } else {
        deep_links_of(args.drop_last())
    }
}

/// The deep links among the arguments of a second launch, forwarded to
/// the front end.
pub fn deep_links(args: &Vec<String>) -> (r: Vec<String>)
    ensures
        args_view(r@) == deep_links_of(args_view(args@)),
{
    let prefix = chars_of("ytdlp-gui://");
    let mut out: Vec<String> = Vec::new();
    let mut i: usize = 0;
    while i < args.len()
        invariant
            i <= args@.len(),
            prefix@ == "ytdlp-gui://"@,
            args_view(out@) == deep_links_of(args_view(args@).take(i as int)),
        decreases args.len() - i,
    {
        assert(args_view(args@).take(i + 1).drop_last() =~= args_view(args@).take(i as int));
        assert(args_view(args@).take(i + 1).last() == args@[i as int]@);
        let a = chars_of(args[i].as_str());
        if chars_starts_with(a.as_slice(), prefix.as_slice()) {
            let ghost before = args_view(out@);
            out.push(string_of(a.as_slice()));
            assert(args_view(out@) =~= before.push(args@[i as int]@));
        }
        i += 1;
    }
    assert(args_view(args@).take(args@.len() as int) =~= args_view(args@));
    out
}

} // verus!
