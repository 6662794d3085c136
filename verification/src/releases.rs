//! Official download and release addresses of the external tools, per
//! operating system and processor architecture.

use vstd::prelude::*;

use crate::source::YtdlpChannel;
use crate::text::{concat, concat3, owned, str_eq, trim, trim_str};

verus! {

/// The operating system the application runs on.
#[derive(Clone, Copy, Debug, PartialEq, Eq, Structural)]
pub enum Os {
    Windows,
    Macos,
    Linux,
}

/// The processor architecture the application runs on; `Other` covers
/// every architecture without builds of its own (they get the x86-64 ones).
#[derive(Clone, Copy, Debug, PartialEq, Eq, Structural)]
pub enum Arch {
    X86_64,
    Aarch64,
    Arm,
    Other,
}

#[derive(Clone, Copy, Debug, PartialEq, Eq, Structural)]
pub struct Platform {
    pub os: Os,
    pub arch: Arch,
}

pub open spec fn os_name(os: Os) -> Seq<char> {
    match os {
        Os::Windows => "windows"@,
        Os::Macos => "macos"@,
        Os::Linux => "linux"@,
    }
}

/// The name the front end uses for the operating system.
pub fn get_platform(os: Os) -> (r: String)
    ensures
        r@ == os_name(os),
{
    match os {
        Os::Windows => owned("windows"),
        Os::Macos => owned("macos"),
        Os::Linux => owned("linux"),
    }
}

pub open spec fn ytdlp_latest_release_of(channel: YtdlpChannel) -> Seq<char> {
    "https://github.com/"@ + channel.repository_text() + "/releases/latest"@
}

/// The page of yt-dlp's latest release in the channel's repository; the
/// address it redirects to carries the version tag.
pub fn get_ytdlp_latest_release_url(channel: YtdlpChannel) -> (r: String)
    ensures
        r@ == ytdlp_latest_release_of(channel),
{
    concat3("https://github.com/", channel.repository(), "/releases/latest")
}

pub open spec fn latest_release_of(tool: Seq<char>, channel: YtdlpChannel) -> Option<Seq<char>> {
    if tool == "yt-dlp"@ {
        Some(ytdlp_latest_release_of(channel))
    } else if tool == "deno"@ {
        Some("https://github.com/denoland/deno/releases/latest"@)
    } else if tool == "ffmpeg"@ {
        Some("https://github.com/eugeneware/ffmpeg-static/releases/latest"@)
    } else {
        None
    }
}

/// The latest-release page of `yt-dlp` (in the selected channel), `deno`
/// or `ffmpeg`; `None` for any other tool.
pub fn get_tool_latest_release_url(tool: &str, channel: YtdlpChannel) -> (r: Option<String>)
    ensures
        match latest_release_of(tool@, channel) {
            Some(u) => r matches Some(s) && s@ == u,
            None => r is None,
        },
{
    if str_eq(tool, "yt-dlp") {
        Some(get_ytdlp_latest_release_url(channel))
    } else if str_eq(tool, "deno") {
        Some(owned("https://github.com/denoland/deno/releases/latest"))
    } else if str_eq(tool, "ffmpeg") {
        Some(owned("https://github.com/eugeneware/ffmpeg-static/releases/latest"))
    } else {
        None
    }
}

pub open spec fn ytdlp_asset_of(os: Os) -> Seq<char> {
    match os {
        Os::Windows => "yt-dlp.exe"@,
        Os::Macos => "yt-dlp_macos"@,
        Os::Linux => "yt-dlp_linux"@,
    }
}

/// The name of yt-dlp's executable among a release's assets; it is the
/// same in all three channels.
pub fn ytdlp_asset_name(os: Os) -> (r: &'static str)
    ensures
        r@ == ytdlp_asset_of(os),
{
    match os {
        Os::Windows => "yt-dlp.exe",
        Os::Macos => "yt-dlp_macos",
        Os::Linux => "yt-dlp_linux",
    }
}

pub open spec fn ytdlp_download_of(channel: YtdlpChannel, os: Os) -> Seq<char> {
    "https://github.com/"@ + channel.repository_text() + "/releases/latest/download/"@
        + ytdlp_asset_of(os)
}

/// The download address of yt-dlp in the channel named by the trimmed
/// `channel`; an unknown name is an error.
pub fn get_ytdlp_download_url_for_channel(channel: &str, os: Os) -> (r: Result<String, String>)
    ensures
        match YtdlpChannel::of_text(trim(channel@)) {
            Some(c) => r matches Ok(u) && u@ == ytdlp_download_of(c, os),
            None => r matches Err(e) && e@ == "err_invalid_ytdlp_channel:"@ + trim(channel@),
        },
{
    let trimmed = trim_str(channel);
    match YtdlpChannel::parse(trimmed.as_str()) {
        Ok(c) => Ok(download_url_of(c, os)),
        Err(_) => Err(concat("err_invalid_ytdlp_channel:", trimmed.as_str())),
    }
}

fn download_url_of(channel: YtdlpChannel, os: Os) -> (r: String)
    ensures
        r@ == ytdlp_download_of(channel, os),
{
    let head = concat3("https://github.com/", channel.repository(), "/releases/latest/download/");
    concat(head.as_str(), ytdlp_asset_name(os))
}

/// The download address of yt-dlp in the selected channel.
pub fn get_ytdlp_download_url(channel: YtdlpChannel, os: Os) -> (r: String)
    ensures
        r@ == ytdlp_download_of(channel, os),
{
    proof {
        reveal_strlit("stable");
        reveal_strlit("nightly");
        reveal_strlit("master");
        reveal_strlit("");
    }
    match get_ytdlp_download_url_for_channel(channel.as_str(), os) {
        Ok(u) => u,
        Err(_) => download_url_of(YtdlpChannel::Stable, os),
    }
}

pub open spec fn deno_target_of(p: Platform) -> Seq<char> {
    match (p.os, p.arch) {
        (Os::Windows, Arch::Aarch64) => "aarch64-pc-windows-msvc"@,
        (Os::Windows, _) => "x86_64-pc-windows-msvc"@,
        (Os::Macos, Arch::Aarch64) => "aarch64-apple-darwin"@,
        (Os::Macos, _) => "x86_64-apple-darwin"@,
        (Os::Linux, Arch::Aarch64) => "aarch64-unknown-linux-gnu"@,
        (Os::Linux, _) => "x86_64-unknown-linux-gnu"@,
    }
}

pub open spec fn deno_download_of(p: Platform) -> Seq<char> {
    "https://github.com/denoland/deno/releases/latest/download/deno-"@ + deno_target_of(p)
        + ".zip"@
}

/// The download address of the Deno archive built for the platform.
pub fn get_deno_download_url(p: Platform) -> (r: &'static str)
    ensures
        r@ == deno_download_of(p),
{
    proof {
        reveal_strlit("https://github.com/denoland/deno/releases/latest/download/deno-");
        reveal_strlit(".zip");
    }
    match (p.os, p.arch) {
        (Os::Windows, Arch::Aarch64) => {
            let r = "https://github.com/denoland/deno/releases/latest/download/deno-aarch64-pc-windows-msvc.zip";
            proof {
                reveal_strlit("https://github.com/denoland/deno/releases/latest/download/deno-aarch64-pc-windows-msvc.zip");
                reveal_strlit("aarch64-pc-windows-msvc");
                assert(r@ =~= deno_download_of(p));
            }
            r
        },
        (Os::Windows, _) => {
            let r = "https://github.com/denoland/deno/releases/latest/download/deno-x86_64-pc-windows-msvc.zip";
            proof {
                reveal_strlit("https://github.com/denoland/deno/releases/latest/download/deno-x86_64-pc-windows-msvc.zip");
                reveal_strlit("x86_64-pc-windows-msvc");
                assert(r@ =~= deno_download_of(p));
            }
            r
        },
        (Os::Macos, Arch::Aarch64) => {
            let r = "https://github.com/denoland/deno/releases/latest/download/deno-aarch64-apple-darwin.zip";
            proof {
                reveal_strlit("https://github.com/denoland/deno/releases/latest/download/deno-aarch64-apple-darwin.zip");
                reveal_strlit("aarch64-apple-darwin");
                assert(r@ =~= deno_download_of(p));
            }
            r
        },
        (Os::Macos, _) => {
            let r = "https://github.com/denoland/deno/releases/latest/download/deno-x86_64-apple-darwin.zip";
            proof {
                reveal_strlit("https://github.com/denoland/deno/releases/latest/download/deno-x86_64-apple-darwin.zip");
                reveal_strlit("x86_64-apple-darwin");
                assert(r@ =~= deno_download_of(p));
            }
            r
        },
        (Os::Linux, Arch::Aarch64) => {
            let r = "https://github.com/denoland/deno/releases/latest/download/deno-aarch64-unknown-linux-gnu.zip";
            proof {
                reveal_strlit("https://github.com/denoland/deno/releases/latest/download/deno-aarch64-unknown-linux-gnu.zip");
                reveal_strlit("aarch64-unknown-linux-gnu");
                assert(r@ =~= deno_download_of(p));
            }
            r
        },
        (Os::Linux, _) => {
            let r = "https://github.com/denoland/deno/releases/latest/download/deno-x86_64-unknown-linux-gnu.zip";
            proof {
                reveal_strlit("https://github.com/denoland/deno/releases/latest/download/deno-x86_64-unknown-linux-gnu.zip");
                reveal_strlit("x86_64-unknown-linux-gnu");
                assert(r@ =~= deno_download_of(p));
            }
            r
        },
    }
}

pub open spec fn ffmpeg_tag_of(p: Platform) -> Seq<char> {
    match (p.os, p.arch) {
        (Os::Windows, _) => "win32-x64"@,
        (Os::Macos, Arch::Aarch64) => "darwin-arm64"@,
        (Os::Macos, _) => "darwin-x64"@,
        (Os::Linux, Arch::Aarch64) => "linux-arm64"@,
        (Os::Linux, Arch::Arm) => "linux-arm"@,
        (Os::Linux, _) => "linux-x64"@,
    }
}

pub open spec fn ffmpeg_asset_url(name: Seq<char>, p: Platform) -> Seq<char> {
    "https://github.com/eugeneware/ffmpeg-static/releases/latest/download/"@ + name + "-"@ + ffmpeg_tag_of(p)
}

/// The download addresses of the static `ffmpeg` and `ffprobe` builds for
/// the platform, each with the tool's name.
pub fn get_ffmpeg_download_urls(p: Platform) -> (r: [(&'static str, &'static str); 2])
    ensures
        r@[0].0@ == "ffmpeg"@,
        r@[0].1@ == ffmpeg_asset_url("ffmpeg"@, p),
        r@[1].0@ == "ffprobe"@,
        r@[1].1@ == ffmpeg_asset_url("ffprobe"@, p),
{
    proof {
        reveal_strlit("https://github.com/eugeneware/ffmpeg-static/releases/latest/download/");
        reveal_strlit("ffmpeg");
        reveal_strlit("ffprobe");
        reveal_strlit("-");
    }
    match (p.os, p.arch) {
        (Os::Macos, Arch::Aarch64) => {
            let r = [("ffmpeg", "https://github.com/eugeneware/ffmpeg-static/releases/latest/download/ffmpeg-darwin-arm64"), ("ffprobe", "https://github.com/eugeneware/ffmpeg-static/releases/latest/download/ffprobe-darwin-arm64")];
            proof {
                reveal_strlit("https://github.com/eugeneware/ffmpeg-static/releases/latest/download/ffmpeg-darwin-arm64");
                reveal_strlit("https://github.com/eugeneware/ffmpeg-static/releases/latest/download/ffprobe-darwin-arm64");
                reveal_strlit("darwin-arm64");
                assert(r@[0].1@ =~= ffmpeg_asset_url("ffmpeg"@, p));
                assert(r@[1].1@ =~= ffmpeg_asset_url("ffprobe"@, p));
            }
            r
        },
        (Os::Macos, _) => {
            let r = [("ffmpeg", "https://github.com/eugeneware/ffmpeg-static/releases/latest/download/ffmpeg-darwin-x64"), ("ffprobe", "https://github.com/eugeneware/ffmpeg-static/releases/latest/download/ffprobe-darwin-x64")];
            proof {
                reveal_strlit("https://github.com/eugeneware/ffmpeg-static/releases/latest/download/ffmpeg-darwin-x64");
                reveal_strlit("https://github.com/eugeneware/ffmpeg-static/releases/latest/download/ffprobe-darwin-x64");
                reveal_strlit("darwin-x64");
                assert(r@[0].1@ =~= ffmpeg_asset_url("ffmpeg"@, p));
                assert(r@[1].1@ =~= ffmpeg_asset_url("ffprobe"@, p));
            }
            r
        },
        (Os::Linux, Arch::Aarch64) => {
            let r = [("ffmpeg", "https://github.com/eugeneware/ffmpeg-static/releases/latest/download/ffmpeg-linux-arm64"), ("ffprobe", "https://github.com/eugeneware/ffmpeg-static/releases/latest/download/ffprobe-linux-arm64")];
            proof {
                reveal_strlit("https://github.com/eugeneware/ffmpeg-static/releases/latest/download/ffmpeg-linux-arm64");
                reveal_strlit("https://github.com/eugeneware/ffmpeg-static/releases/latest/download/ffprobe-linux-arm64");
                reveal_strlit("linux-arm64");
                assert(r@[0].1@ =~= ffmpeg_asset_url("ffmpeg"@, p));
                assert(r@[1].1@ =~= ffmpeg_asset_url("ffprobe"@, p));
            }
            r
        },
        (Os::Linux, Arch::Arm) => {
            let r = [("ffmpeg", "https://github.com/eugeneware/ffmpeg-static/releases/latest/download/ffmpeg-linux-arm"), ("ffprobe", "https://github.com/eugeneware/ffmpeg-static/releases/latest/download/ffprobe-linux-arm")];
            proof {
                reveal_strlit("https://github.com/eugeneware/ffmpeg-static/releases/latest/download/ffmpeg-linux-arm");
                reveal_strlit("https://github.com/eugeneware/ffmpeg-static/releases/latest/download/ffprobe-linux-arm");
                reveal_strlit("linux-arm");
                assert(r@[0].1@ =~= ffmpeg_asset_url("ffmpeg"@, p));
                assert(r@[1].1@ =~= ffmpeg_asset_url("ffprobe"@, p));
            }
            r
        },
        (Os::Windows, _) => {
            let r = [("ffmpeg", "https://github.com/eugeneware/ffmpeg-static/releases/latest/download/ffmpeg-win32-x64"), ("ffprobe", "https://github.com/eugeneware/ffmpeg-static/releases/latest/download/ffprobe-win32-x64")];
            proof {
                reveal_strlit("https://github.com/eugeneware/ffmpeg-static/releases/latest/download/ffmpeg-win32-x64");
                reveal_strlit("https://github.com/eugeneware/ffmpeg-static/releases/latest/download/ffprobe-win32-x64");
                reveal_strlit("win32-x64");
                assert(r@[0].1@ =~= ffmpeg_asset_url("ffmpeg"@, p));
                assert(r@[1].1@ =~= ffmpeg_asset_url("ffprobe"@, p));
            }
            r
        },
        (Os::Linux, _) => {
            let r = [("ffmpeg", "https://github.com/eugeneware/ffmpeg-static/releases/latest/download/ffmpeg-linux-x64"), ("ffprobe", "https://github.com/eugeneware/ffmpeg-static/releases/latest/download/ffprobe-linux-x64")];
            proof {
                reveal_strlit("https://github.com/eugeneware/ffmpeg-static/releases/latest/download/ffmpeg-linux-x64");
                reveal_strlit("https://github.com/eugeneware/ffmpeg-static/releases/latest/download/ffprobe-linux-x64");
                reveal_strlit("linux-x64");
                assert(r@[0].1@ =~= ffmpeg_asset_url("ffmpeg"@, p));
                assert(r@[1].1@ =~= ffmpeg_asset_url("ffprobe"@, p));
            }
            r
        },
    }
}


/// The tag that the latest-release page redirected to: the path segment
/// after the first `tag` segment, when there is one and it is not empty.
pub open spec fn tag_of_segments(segments: Seq<Seq<char>>) -> Option<Seq<char>>
    decreases segments.len(),
{
    if segments.len() < 2 {
        None
    } else if segments[0] == "tag"@ {
        if segments[1].len() > 0 {
            Some(segments[1])
        } else {
            None
        }
    } else {
        tag_of_segments(segments.drop_first())
    }
}

/// Reads the latest release's tag from the path segments of the address
/// that the latest-release page redirected to (`err_latest_release_version`
/// when there is none).
pub fn latest_tag_from_segments(segments: &Vec<String>) -> (r: Result<String, String>)
    ensures
        match tag_of_segments(crate::sync::strings(segments@)) {
            Some(t) => r matches Ok(x) && x@ == t,
            None => r matches Err(e) && e@ == "err_latest_release_version"@,
        },
{
    let ghost all = crate::sync::strings(segments@);
    let mut i: usize = 0;
    assert(all.skip(0) =~= all);
    while segments.len() >= 2 && i < segments.len() - 1
        invariant
            i <= segments.len(),
            all == crate::sync::strings(segments@),
            tag_of_segments(all.skip(i as int)) == tag_of_segments(all),
        decreases segments.len() - i,
    {
        let ghost rest = all.skip(i as int);
        assert(rest[0] == segments@[i as int]@);
        assert(rest[1] == segments@[i + 1]@);
        if crate::text::str_eq(segments[i].as_str(), "tag") {
            if segments[i + 1].as_str().is_empty() {
                return Err(crate::text::owned("err_latest_release_version"));
            }
            return Ok(crate::text::owned(segments[i + 1].as_str()));
        }
        assert(rest.drop_first() =~= all.skip(i + 1));
        i += 1;
    }
    Err(crate::text::owned("err_latest_release_version"))
}

} // verus!

verus! {

/// `s` up to its first `?` or `#` (the address without query or fragment).
pub open spec fn until_query(s: Seq<char>) -> Seq<char>
    decreases s.len(),
{
    if s.len() == 0 {
        s
    } else if s[0] == '?' || s[0] == '#' {
        seq![]
    } else {
        seq![s[0]] + until_query(s.drop_first())
    }
}

/// The address `url` after its scheme (`...://`), when it has one.
pub open spec fn after_scheme(url: Seq<char>) -> Seq<char> {
    match crate::text::find(url, "://"@) {
        Some(i) => url.skip(i + 3),
        None => url,
    }
}

/// The segments of the path of the address `url` (after the host, before
/// any query or fragment), split at `/`; nothing when it has no path.
pub open spec fn url_path_segments(url: Seq<char>) -> Option<Seq<Seq<char>>> {
    let path = until_query(after_scheme(url));
    match crate::text::find(path, "/"@) {
        Some(i) => Some(crate::versions::split_char(path.skip(i + 1), '/')),
        None => None,
    }
}

fn until_query_len(v: &[char]) -> (r: usize)
    ensures
        r <= v@.len(),
        v@.take(r as int) == until_query(v@),
{
    let mut i: usize = 0;
    assert(v@.skip(0) =~= v@);
    assert(v@.take(0) + until_query(v@) =~= until_query(v@));
    while i < v.len() && v[i] != '?' && v[i] != '#'
        invariant
            i <= v@.len(),
            until_query(v@) == v@.take(i as int) + until_query(v@.skip(i as int)),
        decreases v@.len() - i,
    {
        let ghost rest = v@.skip(i as int);
        assert(rest[0] == v@[i as int]);
        assert(rest.drop_first() =~= v@.skip(i + 1));
        assert(v@.take(i + 1) =~= v@.take(i as int) + seq![v@[i as int]]);
        i += 1;
    }
    let ghost rest = v@.skip(i as int);
    if i < v.len() {
        assert(rest[0] == v@[i as int]);
    } else {
        assert(rest.len() == 0);
    }
    assert(until_query(rest) =~= Seq::<char>::empty());
    assert(v@.take(i as int) + Seq::<char>::empty() =~= v@.take(i as int));
    i
}

/// The pieces of `v` between its `/` characters.
fn split_slashes(v: &[char]) -> (r: Vec<String>)
    ensures
        crate::sync::strings(r@) == crate::versions::split_char(v@, '/'),
{
    let slash = crate::text::chars_of("/");
    proof {
        reveal_strlit("/");
        assert(slash@ =~= seq!['/']);
    }
    let mut out: Vec<String> = Vec::new();
    let mut rest = crate::text::sub_chars_all(v);
    loop
        invariant
            slash@ == seq!['/'],
            crate::sync::strings(out@) + crate::versions::split_char(rest@, '/')
                == crate::versions::split_char(v@, '/'),
        decreases rest@.len(),
    {
        let ghost old_out = out@;
        match crate::text::chars_find(rest.as_slice(), slash.as_slice()) {
            None => {
                out.push(crate::text::string_of(rest.as_slice()));
                assert(crate::sync::strings(out@) =~= crate::sync::strings(old_out) + seq![rest@]);
                return out;
            },
            Some(i) => {
                let n = rest.len();
                let head = crate::text::string_of(crate::text::sub_chars(rest.as_slice(), 0, i).as_slice());
                let tail = crate::text::sub_chars(rest.as_slice(), i + 1, n);
                assert(tail@ =~= rest@.skip(i + 1));
                assert(head@ =~= rest@.take(i as int));
                out.push(head);
                assert(crate::sync::strings(out@) =~= crate::sync::strings(old_out) + seq![head@]);
                assert(crate::sync::strings(out@) + crate::versions::split_char(tail@, '/')
                    =~= crate::sync::strings(old_out) + crate::versions::split_char(rest@, '/'));
                rest = tail;
            },
        }
    }
}

/// The tag of the latest release, from the address that the latest-release
/// page redirected to: the segment after `tag` in its path.
pub fn latest_tag_of_url(redirected: &str) -> (r: Result<String, String>)
    ensures
        match url_path_segments(redirected@) {
            Some(s) => match tag_of_segments(s) {
                Some(t) => r matches Ok(x) && x@ == t,
                None => r matches Err(e) && e@ == "err_latest_release_version"@,
            },
            None => r matches Err(e) && e@ == "err_latest_release_version"@,
        },
{
    let u = crate::text::chars_of(redirected);
    let sep = crate::text::chars_of("://");
    proof {
        reveal_strlit("://");
    }
    assert(sep@.len() == 3);
    let rest = match crate::text::chars_find(u.as_slice(), sep.as_slice()) {
        Some(i) => {
            let n = u.len();
            assert(i + 3 <= n);
            let r = crate::text::sub_chars(u.as_slice(), i + 3, n);
            assert(r@ =~= u@.skip(i + 3));
            r
        },
        None => crate::text::sub_chars_all(u.as_slice()),
    };
    assert(rest@ == after_scheme(redirected@));
    let end = until_query_len(rest.as_slice());
    let path = crate::text::sub_chars(rest.as_slice(), 0, end);
    assert(path@ =~= rest@.take(end as int));
    let slash = crate::text::chars_of("/");
    let i = match crate::text::chars_find(path.as_slice(), slash.as_slice()) {
        Some(i) => i,
        None => return Err(crate::text::owned("err_latest_release_version")),
    };
    proof {
        reveal_strlit("/");
    }
    assert(i + 1 <= path@.len());
    let tail = crate::text::sub_chars(path.as_slice(), i + 1, path.len());
    assert(tail@ =~= path@.skip(i + 1));
    let segments = split_slashes(tail.as_slice());
    latest_tag_from_segments(&segments)
}

} // verus!
