//! Where each external tool comes from, yt-dlp's release channel and the
//! YouTube extractor settings.

use vstd::prelude::*;

use crate::text::{concat, concat3, owned, str_eq, trim, trim_str};

verus! {

/// Whether a tool is the copy the application manages or one on the system.
#[derive(Clone, Copy, Debug, PartialEq, Eq, Structural)]
pub enum ToolSource {
    Managed,
    System,
}

impl ToolSource {
    pub open spec fn text(self) -> Seq<char> {
        match self {
            ToolSource::Managed => "managed"@,
            ToolSource::System => "system"@,
        }
    }

    pub open spec fn of_text(value: Seq<char>) -> Option<ToolSource> {
        if value == "managed"@ {
            Some(ToolSource::Managed)
        } else if value == "system"@ {
            Some(ToolSource::System)
        } else {
            None
        }
    }

    /// Reads `managed` or `system`.
    pub fn parse(value: &str) -> (r: Result<ToolSource, String>)
        ensures
            match ToolSource::of_text(value@) {
                Some(s) => r == Ok::<ToolSource, String>(s),
                None => r matches Err(e) && e@ == "err_invalid_tool_source:"@ + value@,
            },
    {
        if str_eq(value, "managed") {
            Ok(ToolSource::Managed)
        } else if str_eq(value, "system") {
            Ok(ToolSource::System)
        } else {
            Err(concat("err_invalid_tool_source:", value))
        }
    }

    pub fn as_str(self) -> (r: &'static str)
        ensures
            r@ == self.text(),
    {
        match self {
            ToolSource::Managed => "managed",
            ToolSource::System => "system",
        }
    }
}

/// One of yt-dlp's official release channels.
#[derive(Clone, Copy, Debug, PartialEq, Eq, Structural)]
pub enum YtdlpChannel {
    Stable,
    Nightly,
    Master,
}

impl YtdlpChannel {
    pub open spec fn text(self) -> Seq<char> {
        match self {
            YtdlpChannel::Stable => "stable"@,
            YtdlpChannel::Nightly => "nightly"@,
            YtdlpChannel::Master => "master"@,
        }
    }

    pub open spec fn repository_text(self) -> Seq<char> {
        match self {
            YtdlpChannel::Stable => "yt-dlp/yt-dlp"@,
            YtdlpChannel::Nightly => "yt-dlp/yt-dlp-nightly-builds"@,
            YtdlpChannel::Master => "yt-dlp/yt-dlp-master-builds"@,
        }
    }

    pub open spec fn of_text(value: Seq<char>) -> Option<YtdlpChannel> {
        if value == "stable"@ {
            Some(YtdlpChannel::Stable)
        } else if value == "nightly"@ {
            Some(YtdlpChannel::Nightly)
        } else if value == "master"@ {
            Some(YtdlpChannel::Master)
        } else {
            None
        }
    }

    /// Reads `stable`, `nightly` or `master`.
    pub fn parse(value: &str) -> (r: Result<YtdlpChannel, String>)
        ensures
            match YtdlpChannel::of_text(value@) {
                Some(c) => r == Ok::<YtdlpChannel, String>(c),
                None => r matches Err(e) && e@ == "err_invalid_ytdlp_channel:"@ + value@,
            },
    {
        if str_eq(value, "stable") {
            Ok(YtdlpChannel::Stable)
        } else if str_eq(value, "nightly") {
            Ok(YtdlpChannel::Nightly)
        } else if str_eq(value, "master") {
            Ok(YtdlpChannel::Master)
        } else {
            Err(concat("err_invalid_ytdlp_channel:", value))
        }
    }

    pub fn as_str(self) -> (r: &'static str)
        ensures
            r@ == self.text(),
    {
        match self {
            YtdlpChannel::Stable => "stable",
            YtdlpChannel::Nightly => "nightly",
            YtdlpChannel::Master => "master",
        }
    }

    /// The GitHub repository that publishes the channel's builds.
    pub fn repository(self) -> (r: &'static str)
        ensures
            r@ == self.repository_text(),
    {
        match self {
            YtdlpChannel::Stable => "yt-dlp/yt-dlp",
            YtdlpChannel::Nightly => "yt-dlp/yt-dlp-nightly-builds",
            YtdlpChannel::Master => "yt-dlp/yt-dlp-master-builds",
        }
    }
}

/// The runtime configuration of the external tools.
pub struct ToolSettings {
    pub ytdlp_source: ToolSource,
    pub deno_source: ToolSource,
    pub ffmpeg_source: ToolSource,
    /// Paths given on the command line for yt-dlp and Deno.
    pub ytdlp_cli_path: Option<String>,
    pub deno_cli_path: Option<String>,
    /// YouTube PO token and visitor data; empty means unset.
    pub po_token: String,
    pub visitor_data: String,
    pub ytdlp_channel: YtdlpChannel,
}

impl ToolSettings {
    /// yt-dlp and Deno managed, FFmpeg from the system, no paths, no
    /// YouTube tokens, the stable channel.
    pub fn new() -> (r: ToolSettings)
        ensures
            r.ytdlp_source == ToolSource::Managed,
            r.deno_source == ToolSource::Managed,
            r.ffmpeg_source == ToolSource::System,
            r.ytdlp_cli_path is None,
            r.deno_cli_path is None,
            r.po_token@ == Seq::<char>::empty(),
            r.visitor_data@ == Seq::<char>::empty(),
            r.ytdlp_channel == YtdlpChannel::Stable,
    {
        ToolSettings {
            ytdlp_source: ToolSource::Managed,
            deno_source: ToolSource::Managed,
            ffmpeg_source: ToolSource::System,
            ytdlp_cli_path: None,
            deno_cli_path: None,
            po_token: String::new(),
            visitor_data: String::new(),
            ytdlp_channel: YtdlpChannel::Stable,
        }
    }
}

/// `b` is `a` with (at most) the three tool sources changed.
pub open spec fn same_but_sources(a: ToolSettings, b: ToolSettings) -> bool {
    &&& b.ytdlp_cli_path == a.ytdlp_cli_path
    &&& b.deno_cli_path == a.deno_cli_path
    &&& b.po_token == a.po_token
    &&& b.visitor_data == a.visitor_data
    &&& b.ytdlp_channel == a.ytdlp_channel
}

/// Sets the sources of yt-dlp, Deno and FFmpeg together; when one of them
/// is not `managed` or `system`, nothing changes and the first bad one is
/// reported.
pub fn set_tool_sources(settings: &mut ToolSettings, ytdlp: &str, deno: &str, ffmpeg: &str) -> (r:
    Result<(), String>)
    ensures
        same_but_sources(*old(settings), *final(settings)),
        match (
            ToolSource::of_text(ytdlp@),
            ToolSource::of_text(deno@),
            ToolSource::of_text(ffmpeg@),
        ) {
            (Some(a), Some(b), Some(c)) => {
                &&& r is Ok
                &&& final(settings).ytdlp_source == a
                &&& final(settings).deno_source == b
                &&& final(settings).ffmpeg_source == c
            },
            (None, _, _) => *final(settings) == *old(settings) && (r matches Err(e) && e@
                == "err_invalid_tool_source:"@ + ytdlp@),
            (Some(_), None, _) => *final(settings) == *old(settings) && (r matches Err(e) && e@
                == "err_invalid_tool_source:"@ + deno@),
            (Some(_), Some(_), None) => *final(settings) == *old(settings) && (r matches Err(e)
                && e@ == "err_invalid_tool_source:"@ + ffmpeg@),
        },
{
    let a = match ToolSource::parse(ytdlp) {
        Ok(s) => s,
        Err(e) => return Err(e),
    };
    let b = match ToolSource::parse(deno) {
        Ok(s) => s,
        Err(e) => return Err(e),
    };
    let c = match ToolSource::parse(ffmpeg) {
        Ok(s) => s,
        Err(e) => return Err(e),
    };
    settings.ytdlp_source = a;
    settings.deno_source = b;
    settings.ffmpeg_source = c;
    Ok(())
}

pub open spec fn source_of(settings: ToolSettings, tool: Seq<char>) -> Option<ToolSource> {
    if tool == "yt-dlp"@ {
        Some(settings.ytdlp_source)
    } else if tool == "deno"@ {
        Some(settings.deno_source)
    } else if tool == "ffmpeg"@ {
        Some(settings.ffmpeg_source)
    } else {
        None
    }
}

/// The source configured for `yt-dlp`, `deno` or `ffmpeg`.
pub fn get_tool_source(settings: &ToolSettings, tool: &str) -> (r: Result<ToolSource, String>)
    ensures
        match source_of(*settings, tool@) {
            Some(s) => r == Ok::<ToolSource, String>(s),
            None => r matches Err(e) && e@ == "err_unknown_tool:"@ + tool@,
        },
{
    if str_eq(tool, "yt-dlp") {
        Ok(settings.ytdlp_source)
    } else if str_eq(tool, "deno") {
        Ok(settings.deno_source)
    } else if str_eq(tool, "ffmpeg") {
        Ok(settings.ffmpeg_source)
    } else {
        Err(concat("err_unknown_tool:", tool))
    }
}

pub open spec fn opt_str_view(o: Option<String>) -> Option<Seq<char>> {
    match o {
        Some(s) => Some(s@),
        None => None,
    }
}

/// Records the path that the command line gives for `yt-dlp` or `deno`.
pub fn set_cli_tool_path(settings: &mut ToolSettings, tool: &str, path: &str) -> (r: Result<
    (),
    String,
>)
    ensures
        final(settings).ytdlp_source == old(settings).ytdlp_source,
        final(settings).deno_source == old(settings).deno_source,
        final(settings).ffmpeg_source == old(settings).ffmpeg_source,
        final(settings).po_token == old(settings).po_token,
        final(settings).visitor_data == old(settings).visitor_data,
        final(settings).ytdlp_channel == old(settings).ytdlp_channel,
        tool@ == "yt-dlp"@ ==> {
            &&& r is Ok
            &&& opt_str_view(final(settings).ytdlp_cli_path) == Some(path@)
            &&& final(settings).deno_cli_path == old(settings).deno_cli_path
        },
        tool@ == "deno"@ ==> {
            &&& r is Ok
            &&& opt_str_view(final(settings).deno_cli_path) == Some(path@)
            &&& final(settings).ytdlp_cli_path == old(settings).ytdlp_cli_path
        },
        tool@ != "yt-dlp"@ && tool@ != "deno"@ ==> {
            &&& (r matches Err(e) && e@ == "err_unknown_tool:"@ + tool@)
            &&& final(settings).ytdlp_cli_path == old(settings).ytdlp_cli_path
            &&& final(settings).deno_cli_path == old(settings).deno_cli_path
        },
{
    proof {
        reveal_strlit("yt-dlp");
        reveal_strlit("deno");
        assert("deno"@.len() != "yt-dlp"@.len());
    }
    if str_eq(tool, "yt-dlp") {
        settings.ytdlp_cli_path = Some(owned(path));
        Ok(())
    } else if str_eq(tool, "deno") {
        settings.deno_cli_path = Some(owned(path));
        Ok(())
    } else {
        Err(concat("err_unknown_tool:", tool))
    }
}

pub open spec fn cli_path_of(settings: ToolSettings, tool: Seq<char>) -> Option<Seq<char>> {
    if tool == "yt-dlp"@ {
        opt_str_view(settings.ytdlp_cli_path)
    } else if tool == "deno"@ {
        opt_str_view(settings.deno_cli_path)
    } else {
        None
    }
}

/// The path the command line gave for `yt-dlp` or `deno`.
pub fn get_cli_tool_path(settings: &ToolSettings, tool: &str) -> (r: Option<String>)
    ensures
        opt_str_view(r) == cli_path_of(*settings, tool@),
{
    if str_eq(tool, "yt-dlp") {
        match &settings.ytdlp_cli_path {
            Some(p) => Some(owned(p.as_str())),
            None => None,
        }
    } else if str_eq(tool, "deno") {
        match &settings.deno_cli_path {
            Some(p) => Some(owned(p.as_str())),
            None => None,
        }
    } else {
        None
    }
}

/// Stores the YouTube PO token and visitor data, trimmed; empty clears.
pub fn set_youtube_extractor_args(settings: &mut ToolSettings, po_token: &str, visitor_data: &str)
    ensures
        final(settings).po_token@ == trim(po_token@),
        final(settings).visitor_data@ == trim(visitor_data@),
        final(settings).ytdlp_source == old(settings).ytdlp_source,
        final(settings).deno_source == old(settings).deno_source,
        final(settings).ffmpeg_source == old(settings).ffmpeg_source,
        final(settings).ytdlp_cli_path == old(settings).ytdlp_cli_path,
        final(settings).deno_cli_path == old(settings).deno_cli_path,
        final(settings).ytdlp_channel == old(settings).ytdlp_channel,
{
    settings.po_token = trim_str(po_token);
    settings.visitor_data = trim_str(visitor_data);
}

/// The `--extractor-args` value parts for the stored YouTube settings.
pub open spec fn youtube_arg_parts(po_token: Seq<char>, visitor_data: Seq<char>) -> Seq<
    Seq<char>,
> {
    let a = if po_token.len() > 0 {
        seq!["player_client=mweb"@, "po_token=mweb.gvs+"@ + po_token]
    } else {
        seq![]
    };
    if visitor_data.len() > 0 {
        a.push("visitor_data="@ + visitor_data)
    } else {
        a
    }
}

/// `parts` joined with `sep` between neighbours (`join`).
pub open spec fn join(parts: Seq<Seq<char>>, sep: Seq<char>) -> Seq<char>
    decreases parts.len(),
{
    if parts.len() == 0 {
        seq![]
    } else if parts.len() == 1 {
        parts[0]
    } else {
        join(parts.drop_last(), sep) + sep + parts.last()
    }
}

/// The yt-dlp arguments for the stored YouTube settings: none when both are
/// empty, else `--extractor-args youtube:<parts joined by ;>`.
pub open spec fn youtube_args(po_token: Seq<char>, visitor_data: Seq<char>) -> Seq<Seq<char>> {
    let parts = youtube_arg_parts(po_token, visitor_data);
    if parts.len() == 0 {
        seq![]
    } else {
        seq!["--extractor-args"@, "youtube:"@ + join(parts, ";"@)]
    }
}

pub open spec fn strings_view(v: Seq<String>) -> Seq<Seq<char>> {
    v.map_values(|a: String| a@)
}

/// Builds the `--extractor-args` arguments from the stored PO token and
/// visitor data.
pub fn build_youtube_extractor_args(settings: &ToolSettings) -> (r: Vec<String>)
    ensures
        strings_view(r@) == youtube_args(settings.po_token@, settings.visitor_data@),
{
    proof {
        reveal_strlit(";");
    }
    let has_po = !settings.po_token.as_str().is_empty();
    let has_visitor = !settings.visitor_data.as_str().is_empty();
    let ghost parts = youtube_arg_parts(settings.po_token@, settings.visitor_data@);
    if !has_po && !has_visitor {
        let r: Vec<String> = Vec::new();
        assert(strings_view(r@) =~= seq![]);
        return r;
    }
    let joined = if has_po {
        let po = concat("po_token=mweb.gvs+", settings.po_token.as_str());
        let first = concat3("player_client=mweb", ";", po.as_str());
        if has_visitor {
            let vd = concat("visitor_data=", settings.visitor_data.as_str());
            concat3(first.as_str(), ";", vd.as_str())
        } else {
            first
        }
    } else {
        concat("visitor_data=", settings.visitor_data.as_str())
    };
    proof {
        let a = "player_client=mweb"@;
        let b = "po_token=mweb.gvs+"@ + settings.po_token@;
        let c = "visitor_data="@ + settings.visitor_data@;
        reveal_with_fuel(join, 3);
        assert(join(seq![a], ";"@) == a);
        assert(join(seq![a, b], ";"@) == join(seq![a], ";"@) + ";"@ + b);
        assert(join(seq![a, b, c], ";"@) == join(seq![a, b], ";"@) + ";"@ + c);
        if has_po && has_visitor {
            assert(parts =~= seq![a, b, c]);
            assert(seq![a, b, c].drop_last() =~= seq![a, b]);
            assert(seq![a, b].drop_last() =~= seq![a]);
            assert(join(parts, ";"@) =~= a + ";"@ + b + ";"@ + c);
        } else if has_po {
            assert(parts =~= seq![a, b]);
            assert(seq![a, b].drop_last() =~= seq![a]);
            assert(join(parts, ";"@) =~= a + ";"@ + b);
        } else {
            assert(parts =~= seq![c]);
            assert(join(parts, ";"@) =~= c);
        }
    }
    let mut r: Vec<String> = Vec::new();
    r.push(owned("--extractor-args"));
    r.push(concat("youtube:", joined.as_str()));
    assert(strings_view(r@) =~= seq!["--extractor-args"@, "youtube:"@ + join(parts, ";"@)]);
    r
}

/// Selects yt-dlp's release channel from the trimmed `channel`; an unknown
/// name is reported and leaves the settings unchanged.
pub fn set_ytdlp_channel(settings: &mut ToolSettings, channel: &str) -> (r: Result<(), String>)
    ensures
        match YtdlpChannel::of_text(trim(channel@)) {
            Some(c) => {
                &&& r is Ok
                &&& final(settings).ytdlp_channel == c
                &&& final(settings).ytdlp_source == old(settings).ytdlp_source
                &&& final(settings).deno_source == old(settings).deno_source
                &&& final(settings).ffmpeg_source == old(settings).ffmpeg_source
                &&& final(settings).ytdlp_cli_path == old(settings).ytdlp_cli_path
                &&& final(settings).deno_cli_path == old(settings).deno_cli_path
                &&& final(settings).po_token == old(settings).po_token
                &&& final(settings).visitor_data == old(settings).visitor_data
            },
            None => {
                &&& *final(settings) == *old(settings)
                &&& r matches Err(e) && e@ == "err_invalid_ytdlp_channel:"@ + trim(channel@)
            },
        },
{
    let trimmed = trim_str(channel);
    match YtdlpChannel::parse(trimmed.as_str()) {
        Ok(c) => {
            settings.ytdlp_channel = c;
            Ok(())
        },
        Err(e) => Err(e),
    }
}

/// The release channel currently selected for yt-dlp.
pub fn get_ytdlp_channel(settings: &ToolSettings) -> (r: YtdlpChannel)
    ensures
        r == settings.ytdlp_channel,
{
    settings.ytdlp_channel
}


/// Reading back the name of a tool source gives that source.
pub proof fn law_tool_source_round_trip(s: ToolSource)
    ensures
        ToolSource::of_text(s.text()) == Some(s),
{
    reveal_strlit("managed");
    reveal_strlit("system");
    assert("managed"@.len() != "system"@.len());
}

/// Reading back the name of a release channel gives that channel.
pub proof fn law_ytdlp_channel_round_trip(c: YtdlpChannel)
    ensures
        YtdlpChannel::of_text(c.text()) == Some(c),
{
    reveal_strlit("stable");
    reveal_strlit("nightly");
    reveal_strlit("master");
    assert("stable"@.len() != "nightly"@.len());
    assert("master"@.len() != "nightly"@.len());
    assert("stable"@[0] != "master"@[0]);
}

} // verus!
