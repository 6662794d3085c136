//! Downloads: the yt-dlp options of a download, the files a running
//! download reports, and how a finished download is announced.

use vstd::prelude::*;

use crate::keys::{distinct, has_key, key_index, lemma_insert_key, lemma_key_index, lemma_key_index_found};
use crate::numbers::{i64_to_string, signed_decimal};
use crate::source::opt_str_view;
use crate::text::{
    chars_of, concat, concat3, contains, ends_with, find, owned, rfind, starts_with, str_contains,
    str_ends_with, str_eq, str_starts_with, string_of, sub_chars, trim, trim_str,
};

verus! {

pub open spec fn strings(v: Seq<String>) -> Seq<Seq<char>> {
    v.map_values(|s: String| s@)
}

/// What the user asked to download.
pub struct DownloadParams {
    pub id: String,
    pub url: String,
    pub download_dir: String,
    /// `video`, `audio` or anything else for both merged.
    pub download_mode: String,
    pub video_format: Option<String>,
    pub audio_format: Option<String>,
    pub cookie_file: Option<String>,
    pub embed_subs: bool,
    pub embed_thumbnail: bool,
    pub embed_metadata: bool,
    pub no_merge: bool,
    pub recode_format: Option<String>,
    pub limit_rate: Option<String>,
    pub subtitles: Vec<String>,
    /// Start and end of the section to download, in seconds as decimal
    /// text.
    pub start_time: Option<String>,
    pub end_time: Option<String>,
    pub no_playlist: bool,
    pub playlist_items: Option<String>,
}

/// A text option that is given and not empty.
pub open spec fn given(o: Option<String>) -> Option<Seq<char>> {
    match o {
        Some(s) => if s@.len() > 0 {
            Some(s@)
        } else {
            None
        },
        None => None,
    }
}

/// `flag value` when the value is given.
pub open spec fn option_pair(flag: Seq<char>, v: Option<Seq<char>>) -> Seq<Seq<char>> {
    match v {
        Some(x) => seq![flag, x],
        None => seq![],
    }
}

pub open spec fn flag_if(flag: Seq<char>, on: bool) -> Seq<Seq<char>> {
    if on {
        seq![flag]
    } else {
        seq![]
    }
}

/// The `-f` selection: the video or audio format alone in those modes;
/// otherwise the video and audio formats merged, the missing one replaced
/// by the best available.
pub open spec fn format_of(mode: Seq<char>, video: Option<Seq<char>>, audio: Option<Seq<char>>) -> Option<Seq<char>> {
    if mode == "video"@ {
        video
    } else if mode == "audio"@ {
        audio
    } else {
        match (video, audio) {
            (Some(v), Some(a)) => Some(v + "+"@ + a),
            (Some(v), None) => Some(v + "+bestaudio"@),
            (None, Some(a)) => Some("bestvideo+"@ + a),
            (None, None) => None,
        }
    }
}

pub open spec fn join_commas(parts: Seq<Seq<char>>) -> Seq<char>
    decreases parts.len(),
{
    if parts.len() == 0 {
        seq![]
    } else if parts.len() == 1 {
        parts[0]
    } else {
        join_commas(parts.drop_last()) + ","@ + parts.last()
    }
}

/// The section option when a start or an end is given: `*start-end`, the
/// start 0 and the end `inf` when missing.
pub open spec fn section_of(start: Option<Seq<char>>, end: Option<Seq<char>>) -> Seq<Seq<char>> {
    if start is None && end is None {
        seq![]
    } else {
        seq![
            "--download-sections"@,
            "*"@ + (match start {
                Some(s) => s,
                None => "0"@,
            }) + "-"@ + (match end {
                Some(e) => e,
                None => "inf"@,
            }),
        ]
    }
}

pub open spec fn subtitles_of(p: DownloadParams) -> Seq<Seq<char>> {
    if p.subtitles@.len() > 0 {
        seq!["--write-subs"@, "--sub-langs"@, join_commas(strings(p.subtitles@))]
    } else {
        seq![]
    }
}

pub open spec fn playlist_of(p: DownloadParams) -> Seq<Seq<char>> {
    if p.no_playlist {
        seq!["--no-playlist"@]
    } else {
        option_pair("--playlist-items"@, given(p.playlist_items))
    }
}

/// The yt-dlp options of a download, in order: progress on new lines; the
/// JavaScript runtime; the format; the output template with portable file
/// names; cookies; embedding, merging and recoding; the rate limit;
/// subtitles; the section; the playlist choice; the address.
pub open spec fn download_args_of(p: DownloadParams, js_args: Seq<Seq<char>>, template: Seq<char>) -> Seq<Seq<char>> {
    seq!["--newline"@] + js_args + option_pair(
        "-f"@,
        format_of(p.download_mode@, given(p.video_format), given(p.audio_format)),
    ) + seq!["-o"@, template, "--windows-filenames"@] + option_pair("--cookies"@, given(p.cookie_file))
        + flag_if("--embed-subs"@, p.embed_subs) + flag_if("--embed-thumbnail"@, p.embed_thumbnail)
        + flag_if("--embed-metadata"@, p.embed_metadata) + flag_if("--no-merge-output"@, p.no_merge)
        + option_pair("--recode-video"@, given(p.recode_format)) + option_pair(
        "-r"@,
        given(p.limit_rate),
    ) + subtitles_of(p) + section_of(
        opt_str_view(p.start_time),
        opt_str_view(p.end_time),
    ) + playlist_of(p) + seq![p.url@]
}

fn given_str(o: &Option<String>) -> (r: Option<String>)
    ensures
        opt_str_view(r) == given(*o),
{
    match o {
        Some(s) => if !s.as_str().is_empty() {
            Some(s.clone())
        } else {
            None
        },
        None => None,
    }
}

fn push_str(v: &mut Vec<String>, s: &str)
    ensures
        strings(final(v)@) == strings(old(v)@).push(s@),
{
    let ghost before = v@;
    let x = owned(s);
    v.push(x);
    assert(strings(v@) =~= strings(before).push(s@));
}

fn push_pair(v: &mut Vec<String>, flag: &str, value: Option<String>)
    ensures
        strings(final(v)@) == strings(old(v)@) + option_pair(flag@, opt_str_view(value)),
{
    match value {
        Some(x) => {
            let ghost before = strings(v@);
            push_str(v, flag);
            push_str(v, x.as_str());
            assert(strings(v@) =~= before + seq![flag@, x@]);
        },
        None => {
            assert(strings(v@) =~= strings(v@) + Seq::<Seq<char>>::empty());
        },
    }
}

fn push_flag(v: &mut Vec<String>, flag: &str, on: bool)
    ensures
        strings(final(v)@) == strings(old(v)@) + flag_if(flag@, on),
{
    if on {
        let ghost before = strings(v@);
        push_str(v, flag);
        assert(strings(v@) =~= before + seq![flag@]);
    } else {
        assert(strings(v@) =~= strings(v@) + Seq::<Seq<char>>::empty());
    }
}

/// The `-f` selection of a download.
pub fn format_selection(mode: &str, video: &Option<String>, audio: &Option<String>) -> (r: Option<String>)
    ensures
        opt_str_view(r) == format_of(mode@, given(*video), given(*audio)),
{
    proof {
        reveal_strlit("video");
        reveal_strlit("audio");
    }
    let v = given_str(video);
    let a = given_str(audio);
    if str_eq(mode, "video") {
        v
    } else if str_eq(mode, "audio") {
        a
    } else {
        match (v, a) {
            (Some(v), Some(a)) => Some(concat3(v.as_str(), "+", a.as_str())),
            (Some(v), None) => Some(concat(v.as_str(), "+bestaudio")),
            (None, Some(a)) => Some(concat("bestvideo+", a.as_str())),
            (None, None) => None,
        }
    }
}

/// The subtitle languages joined by commas.
pub fn join_languages(langs: &Vec<String>) -> (r: String)
    ensures
        r@ == join_commas(strings(langs@)),
{
    let n = langs.len();
    let mut out = String::new();
    let mut i: usize = 0;
    while i < n
        invariant
            n == langs@.len(),
            i <= n,
            out@ == join_commas(strings(langs@).take(i as int)),
        decreases n - i,
    {
        let ghost part = strings(langs@).take(i + 1);
        assert(part.drop_last() =~= strings(langs@).take(i as int));
        assert(part.last() == langs@[i as int]@);
        if i == 0 {
            out = langs[i].clone();
            assert(part.len() == 1);
        } else {
            out = concat3(out.as_str(), ",", langs[i].as_str());
        }
        i += 1;
    }
    assert(strings(langs@).take(n as int) =~= strings(langs@));
    out
}

fn push_output(args: &mut Vec<String>, template: &str)
    ensures
        strings(final(args)@) == strings(old(args)@) + seq!["-o"@, template@, "--windows-filenames"@],
{
    let ghost s2 = strings(args@);
    push_str(args, "-o");
    push_str(args, template);
    push_str(args, "--windows-filenames");
    assert(strings(args@) =~= s2 + seq!["-o"@, template@, "--windows-filenames"@]);
}

fn push_subtitles(args: &mut Vec<String>, p: &DownloadParams)
    ensures
        strings(final(args)@) == strings(old(args)@) + subtitles_of(*p),
{
    let ghost a2 = strings(args@);
    if p.subtitles.len() > 0 {
        push_str(args, "--write-subs");
        push_str(args, "--sub-langs");
        let joined = join_languages(&p.subtitles);
        push_str(args, joined.as_str());
        assert(strings(args@) =~= a2 + subtitles_of(*p));
    } else {
        assert(strings(args@) =~= a2 + subtitles_of(*p));
    }
}

fn push_section(args: &mut Vec<String>, p: &DownloadParams)
    ensures
        strings(final(args)@) == strings(old(args)@) + section_of(
            opt_str_view(p.start_time),
            opt_str_view(p.end_time),
        ),
{
    let ghost a3 = strings(args@);
    if p.start_time.is_some() || p.end_time.is_some() {
        let start = match &p.start_time {
            Some(s) => s.clone(),
            None => owned("0"),
        };
        let end = match &p.end_time {
            Some(e) => e.clone(),
            None => owned("inf"),
        };
        let a = concat3("*", start.as_str(), "-");
        let section = concat(a.as_str(), end.as_str());
        push_str(args, "--download-sections");
        push_str(args, section.as_str());
        assert(strings(args@) =~= a3 + section_of(opt_str_view(p.start_time), opt_str_view(p.end_time)));
    } else {
        assert(strings(args@) =~= a3 + section_of(opt_str_view(p.start_time), opt_str_view(p.end_time)));
    }
}

fn push_playlist(args: &mut Vec<String>, p: &DownloadParams)
    ensures
        strings(final(args)@) == strings(old(args)@) + playlist_of(*p),
{
    if p.no_playlist {
        let ghost a4 = strings(args@);
        push_str(args, "--no-playlist");
        assert(strings(args@) =~= a4 + playlist_of(*p));
    } else {
        push_pair(args, "--playlist-items", given_str(&p.playlist_items));
    }
}

/// The yt-dlp options of a download (see `download_args_of`); the output
/// template is the download folder joined with the title pattern.
pub fn download_args(p: &DownloadParams, js_args: Vec<String>, output_template: &str) -> (r: Vec<String>)
    ensures
        strings(r@) == download_args_of(*p, strings(js_args@), output_template@),
{
    let mut args: Vec<String> = Vec::new();
    push_str(&mut args, "--newline");
    let ghost a0 = strings(args@);
    let n = js_args.len();
    let mut i: usize = 0;
    while i < n
        invariant
            n == js_args@.len(),
            i <= n,
            strings(args@) == a0 + strings(js_args@).take(i as int),
        decreases n - i,
    {
        push_str(&mut args, js_args[i].as_str());
        assert(strings(js_args@).take(i + 1) =~= strings(js_args@).take(i as int).push(js_args@[i as int]@));
        assert(strings(args@) =~= a0 + strings(js_args@).take(i + 1));
        i += 1;
    }
    assert(strings(js_args@).take(n as int) =~= strings(js_args@));
    let ghost s1 = strings(args@);
    push_pair(&mut args, "-f", format_selection(p.download_mode.as_str(), &p.video_format, &p.audio_format));
    let ghost s2 = strings(args@);
    push_output(&mut args, output_template);
    push_pair(&mut args, "--cookies", given_str(&p.cookie_file));
    push_flag(&mut args, "--embed-subs", p.embed_subs);
    push_flag(&mut args, "--embed-thumbnail", p.embed_thumbnail);
    push_flag(&mut args, "--embed-metadata", p.embed_metadata);
    push_flag(&mut args, "--no-merge-output", p.no_merge);
    push_pair(&mut args, "--recode-video", given_str(&p.recode_format));
    push_pair(&mut args, "-r", given_str(&p.limit_rate));
    let ghost s4 = strings(args@);
    push_subtitles(&mut args, p);
    let ghost s5 = strings(args@);
    push_section(&mut args, p);
    let ghost s6 = strings(args@);
    push_playlist(&mut args, p);
    let ghost s7 = strings(args@);
    push_str(&mut args, p.url.as_str());
    assert(s7.push(p.url@) =~= s7 + seq![p.url@]);
    args
}

/// The file a line of yt-dlp's output names as a download's output: a
/// `Destination:` line, an `already been downloaded` line, or the merge
/// target in quotes.
pub open spec fn destination_of(line: Seq<char>) -> Option<Seq<char>> {
    let t = trim(line);
    let dest = "[download] Destination: "@;
    let head = "[download] "@;
    let tail = "has already been downloaded"@;
    if starts_with(t, dest) {
        Some(trim(t.skip(dest.len() as int)))
    } else if starts_with(t, head) && ends_with(t, tail) && trim(
        t.subrange(head.len() as int, t.len() - tail.len()),
    ).len() > 0 {
        Some(trim(t.subrange(head.len() as int, t.len() - tail.len())))
    } else if contains(t, "[Merger] Merging formats into"@) {
        match (find(t, seq!['"']), rfind(t, seq!['"'])) {
            (Some(a), Some(b)) => if a + 1 < b {
                Some(t.subrange(a + 1, b))
            } else {
                None
            },
            _ => None,
        }
    } else {
        None
    }
}

/// The output file a line of yt-dlp's output names, if any.
pub fn parse_destination(line: &str) -> (r: Option<String>)
    ensures
        opt_str_view(r) == destination_of(line@),
{
    proof {
        reveal_strlit("[download] ");
        reveal_strlit("has already been downloaded");
        reveal_strlit("[download] Destination: ");
    }
    let t = trim_str(line);
    let v = chars_of(t.as_str());
    let n = v.len();
    if str_starts_with(t.as_str(), "[download] Destination: ") {
        let k = chars_of("[download] Destination: ").len();
        let rest = string_of(sub_chars(v.as_slice(), k, n).as_slice());
        assert(rest@ =~= t@.skip(k as int));
        return Some(trim_str(rest.as_str()));
    }
    if str_starts_with(t.as_str(), "[download] ") && str_ends_with(
        t.as_str(),
        "has already been downloaded",
    ) {
        let a = chars_of("[download] ").len();
        let b = chars_of("has already been downloaded").len();
        if a + b <= n {
            let inner = string_of(sub_chars(v.as_slice(), a, n - b).as_slice());
            let inner = trim_str(inner.as_str());
            if !inner.as_str().is_empty() {
                return Some(inner);
            }
        } else {
            proof {
                assert(t@.subrange(0, 11) =~= "[download] "@);
                assert(t@.subrange(t@.len() - 27, t@.len() as int) =~= "has already been downloaded"@);
                let k = t@.len() - 27;
                assert(0 <= k < 11);
                assert(t@[k] == "has already been downloaded"@[0]);
                assert(t@[k] == "[download] "@[k]);
                assert(false);
            }
        }
    }
    if str_contains(t.as_str(), "[Merger] Merging formats into") {
        let q = vec!['"'];
        assert(q@ =~= seq!['"']);
        let start = match crate::text::chars_find(v.as_slice(), q.as_slice()) {
            Some(i) => i,
            None => return None,
        };
        let end = match crate::text::chars_rfind(v.as_slice(), q.as_slice()) {
            Some(i) => i,
            None => return None,
        };
        if start + 1 < end {
            return Some(string_of(sub_chars(v.as_slice(), start + 1, end).as_slice()));
        }
    }
    None
}

/// A running download: its process, whether the user cancelled it, and
/// the files it reported writing.
pub struct DownloadProcessInfo {
    pub pid: u32,
    pub cancelled: bool,
    pub output_files: Vec<String>,
}

pub struct DownloadModel {
    pub pid: u32,
    pub cancelled: bool,
    pub files: Seq<Seq<char>>,
}

pub open spec fn download_model(i: DownloadProcessInfo) -> DownloadModel {
    DownloadModel { pid: i.pid, cancelled: i.cancelled, files: strings(i.output_files@) }
}

/// The running downloads by task id.
pub struct DownloadState {
    entries: Vec<(String, DownloadProcessInfo)>,
}

fn copy_strings(v: &Vec<String>) -> (r: Vec<String>)
    ensures
        strings(r@) == strings(v@),
{
    let n = v.len();
    let mut r: Vec<String> = Vec::new();
    let mut i: usize = 0;
    while i < n
        invariant
            n == v@.len(),
            i <= n,
            strings(r@) == strings(v@).take(i as int),
        decreases n - i,
    {
        push_str(&mut r, v[i].as_str());
        assert(strings(v@).take(i + 1) =~= strings(v@).take(i as int).push(v@[i as int]@));
        i += 1;
    }
    assert(strings(v@).take(n as int) =~= strings(v@));
    r
}

impl DownloadState {
    pub closed spec fn ids(&self) -> Seq<Seq<char>> {
        self.entries@.map_values(|e: (String, DownloadProcessInfo)| e.0@)
    }

    /// The running download of `task`.
    pub closed spec fn info(&self, task: Seq<char>) -> Option<DownloadModel> {
        if has_key(self.ids(), task) {
            Some(download_model(self.entries@[key_index(self.ids(), task)].1))
        } else {
            None
        }
    }

    #[verifier::type_invariant]
    closed spec fn wf(&self) -> bool {
        distinct(self.ids())
    }

    pub fn new() -> (r: DownloadState)
        ensures
            forall|k: Seq<char>| #[trigger] r.info(k) is None,
    {
        let r = DownloadState { entries: Vec::new() };
        assert(r.ids() =~= Seq::<Seq<char>>::empty());
        r
    }

    fn position(&self, task: &str) -> (r: Option<usize>)
        ensures
            match r {
                Some(i) => i < self.ids().len() && self.ids()[i as int] == task@,
                None => !has_key(self.ids(), task@),
            },
    {
        let n = self.entries.len();
        let mut i: usize = 0;
        while i < n
            invariant
                n == self.entries@.len(),
                i <= n,
                forall|j: int| 0 <= j < i ==> self.ids()[j] != task@,
            decreases n - i,
        {
            if str_eq(self.entries[i].0.as_str(), task) {
                return Some(i);
            }
            i += 1;
        }
        None
    }

    /// Replaces the entry at `i` (of the same task) by `info`.
    fn replace(&mut self, i: usize, info: DownloadProcessInfo)
        requires
            i < old(self).ids().len(),
        ensures
            final(self).ids() == old(self).ids(),
            final(self).entries@[i as int].1 == info,
            forall|j: int| 0 <= j < old(self).ids().len() && j != i ==> #[trigger] final(self).entries@[j] == old(self).entries@[j],
    {
        proof {
            use_type_invariant(&*self);
        }
        let ghost old_ids = self.ids();
        let mut entries: Vec<(String, DownloadProcessInfo)> = Vec::new();
        std::mem::swap(&mut entries, &mut self.entries);
        let (key, _) = entries.remove(i);
        entries.insert(i, (key, info));
        let ghost new_ids = entries@.map_values(|e: (String, DownloadProcessInfo)| e.0@);
        assert(new_ids =~= old_ids);
        self.entries = entries;
        assert(self.ids() =~= old_ids);
    }

    /// Registers the download `task` run by `pid`, not cancelled and without
    /// files, replacing an earlier entry of the task.
    pub fn start(&mut self, task: &str, pid: u32)
        ensures
            final(self).info(task@) == Some(
                DownloadModel { pid, cancelled: false, files: Seq::<Seq<char>>::empty() },
            ),
            forall|k: Seq<char>| k != task@ ==> #[trigger] final(self).info(k) == old(self).info(k),
    {
        proof {
            use_type_invariant(&*self);
        }
        let ghost old_ids = self.ids();
        let info = DownloadProcessInfo { pid, cancelled: false, output_files: Vec::new() };
        assert(strings(info.output_files@) =~= Seq::<Seq<char>>::empty());
        match self.position(task) {
            Some(i) => {
                self.replace(i, info);
                proof {
                    lemma_key_index(old_ids, i as int);
                    assert forall|k: Seq<char>| k != task@ implies #[trigger] self.info(k) == old(
                        self,
                    ).info(k) by {
                        if has_key(old_ids, k) {
                            lemma_key_index_found(old_ids, k);
                        }
                    }
                }
            },
            None => {
                proof {
                    lemma_insert_key(old_ids, old_ids.len() as int, task@);
                }
                let mut entries: Vec<(String, DownloadProcessInfo)> = Vec::new();
                std::mem::swap(&mut entries, &mut self.entries);
                entries.push((owned(task), info));
                let ghost new_ids = entries@.map_values(|e: (String, DownloadProcessInfo)| e.0@);
                assert(new_ids =~= old_ids.insert(old_ids.len() as int, task@));
                self.entries = entries;
                assert(self.ids() =~= old_ids.insert(old_ids.len() as int, task@));
                proof {
                    assert forall|k: Seq<char>| k != task@ implies #[trigger] self.info(k) == old(
                        self,
                    ).info(k) by {
                        if has_key(old_ids, k) {
                            lemma_key_index_found(old_ids, k);
                        }
                    }
                }
            },
        }
    }

    /// Notes that the download `task` writes `file`; nothing when the task
    /// is not running.
    pub fn add_output(&mut self, task: &str, file: &str)
        ensures
            match old(self).info(task@) {
                Some(m) => final(self).info(task@) == Some(
                    DownloadModel { pid: m.pid, cancelled: m.cancelled, files: m.files.push(file@) },
                ),
                None => final(self).info(task@) is None,
            },
            forall|k: Seq<char>| k != task@ ==> #[trigger] final(self).info(k) == old(self).info(k),
    {
        proof {
            use_type_invariant(&*self);
        }
        let ghost old_ids = self.ids();
        if let Some(i) = self.position(task) {
            let pid = self.entries[i].1.pid;
            let cancelled = self.entries[i].1.cancelled;
            let mut files = copy_strings(&self.entries[i].1.output_files);
            push_str(&mut files, file);
            self.replace(i, DownloadProcessInfo { pid, cancelled, output_files: files });
            proof {
                lemma_key_index(old_ids, i as int);
                assert forall|k: Seq<char>| k != task@ implies #[trigger] self.info(k) == old(
                    self,
                ).info(k) by {
                    if has_key(old_ids, k) {
                        lemma_key_index_found(old_ids, k);
                    }
                }
            }
        }
    }

    /// The process of the download `task`, for pausing and resuming.
    pub fn pid_of(&self, task: &str) -> (r: Result<u32, String>)
        ensures
            match self.info(task@) {
                Some(m) => r == Ok::<u32, String>(m.pid),
                None => r matches Err(e) && e@ == "err_task_not_found"@,
            },
    {
        match self.position(task) {
            Some(i) => {
                proof {
                    use_type_invariant(self);
                    lemma_key_index(self.ids(), i as int);
                }
                Ok(self.entries[i].1.pid)
            },
            None => Err(owned("err_task_not_found")),
        }
    }

    /// Marks the download `task` cancelled and hands out its process and
    /// files, so that the caller can stop it and remove what it wrote.
    pub fn cancel(&mut self, task: &str) -> (r: Result<(u32, Vec<String>), String>)
        ensures
            match old(self).info(task@) {
                Some(m) => {
                    &&& r matches Ok((pid, files)) && pid == m.pid && strings(files@) == m.files
                    &&& final(self).info(task@) == Some(
                        DownloadModel { pid: m.pid, cancelled: true, files: m.files },
                    )
                },
                None => {
                    &&& r matches Err(e) && e@ == "err_task_not_found"@
                    &&& final(self).info(task@) is None
                },
            },
            forall|k: Seq<char>| k != task@ ==> #[trigger] final(self).info(k) == old(self).info(k),
    {
        proof {
            use_type_invariant(&*self);
        }
        let ghost old_ids = self.ids();
        match self.position(task) {
            None => Err(owned("err_task_not_found")),
            Some(i) => {
                let pid = self.entries[i].1.pid;
                let files = copy_strings(&self.entries[i].1.output_files);
                let kept = copy_strings(&self.entries[i].1.output_files);
                self.replace(i, DownloadProcessInfo { pid, cancelled: true, output_files: kept });
                proof {
                    lemma_key_index(old_ids, i as int);
                    assert forall|k: Seq<char>| k != task@ implies #[trigger] self.info(k) == old(
                        self,
                    ).info(k) by {
                        if has_key(old_ids, k) {
                            lemma_key_index_found(old_ids, k);
                        }
                    }
                }
                Ok((pid, files))
            },
        }
    }

    /// Removes the finished download `task` and hands out its entry.
    pub fn finish(&mut self, task: &str) -> (r: Option<DownloadProcessInfo>)
        ensures
            match r {
                Some(i) => old(self).info(task@) == Some(download_model(i)),
                None => old(self).info(task@) is None,
            },
            final(self).info(task@) is None,
            forall|k: Seq<char>| k != task@ ==> #[trigger] final(self).info(k) == old(self).info(k),
    {
        proof {
            use_type_invariant(&*self);
        }
        let ghost old_ids = self.ids();
        match self.position(task) {
            None => None,
            Some(i) => {
                proof {
                    lemma_key_index(old_ids, i as int);
                }
                let mut entries: Vec<(String, DownloadProcessInfo)> = Vec::new();
                std::mem::swap(&mut entries, &mut self.entries);
                let (_, info) = entries.remove(i);
                let ghost new_ids = entries@.map_values(|e: (String, DownloadProcessInfo)| e.0@);
                assert(new_ids =~= old_ids.remove(i as int));
                assert(distinct(new_ids));
                self.entries = entries;
                proof {
                    assert(self.ids() =~= old_ids.remove(i as int));
                    assert(!has_key(self.ids(), task@));
                    assert forall|k: Seq<char>| k != task@ implies #[trigger] self.info(k) == old(
                        self,
                    ).info(k) by {
                        if has_key(old_ids, k) {
                            lemma_key_index_found(old_ids, k);
                            let j = key_index(old_ids, k);
                            let nj = if j < i {
                                j
                            } else {
                                j - 1
                            };
                            assert(self.ids()[nj] == k);
                            lemma_key_index(self.ids(), nj);
                        }
                        if has_key(self.ids(), k) {
                            lemma_key_index_found(self.ids(), k);
                            let j = key_index(self.ids(), k);
                            if j < i {
                                assert(old_ids[j] == k);
                            } else {
                                assert(old_ids[j + 1] == k);
                            }
                        }
                    }
                }
                Some(info)
            },
        }
    }
}

/// How a finished download is announced.
pub enum DownloadEnd {
    /// Done: the process succeeded or wrote files; the last one is shown.
    Complete { output_file: String },
    /// Failed, with the exit code or the error of waiting for it.
    Failed { error: String },
    /// Cancelled by the user: nothing to announce.
    Quiet,
}

pub open spec fn last_or_empty(files: Seq<Seq<char>>) -> Seq<char> {
    if files.len() > 0 {
        files.last()
    } else {
        seq![]
    }
}

/// How the download that ended with `exited_ok` (the exit `code`, or
/// `wait_error` when waiting failed) is announced, given its entry.
pub fn download_end(exited_ok: bool, code: Option<i32>, wait_error: Option<String>, info: Option<&DownloadProcessInfo>) -> (r: DownloadEnd)
    ensures
        ({
            let files = match info {
                Some(i) => strings(i.output_files@),
                None => Seq::<Seq<char>>::empty(),
            };
            let cancelled = match info {
                Some(i) => i.cancelled,
                None => false,
            };
            if exited_ok || files.len() > 0 {
                r matches DownloadEnd::Complete { output_file } && output_file@ == last_or_empty(files)
            } else if !cancelled {
                r matches DownloadEnd::Failed { error } && error@ == match wait_error {
                    Some(e) => e@,
                    None => "进程退出码: "@ + signed_decimal(
                        match code {
                            Some(c) => c as int,
                            None => -1,
                        },
                    ),
                }
            } else {
                r is Quiet
            }
        }),
{
    let (n, cancelled) = match info {
        Some(i) => (i.output_files.len(), i.cancelled),
        None => (0, false),
    };
    if exited_ok || n > 0 {
        let output_file = match info {
            Some(i) => if n > 0 {
                i.output_files[n - 1].clone()
            } else {
                String::new()
            },
            None => String::new(),
        };
        return DownloadEnd::Complete { output_file };
    }
    if !cancelled {
        let error = match wait_error {
            Some(e) => e,
            None => {
                let c: i64 = match code {
                    Some(c) => c as i64,
                    None => -1,
                };
                concat("进程退出码: ", i64_to_string(c).as_str())
            },
        };
        return DownloadEnd::Failed { error };
    }
    DownloadEnd::Quiet
}

pub open spec fn cancel_paths_of(files: Seq<Seq<char>>) -> Seq<Seq<char>>
    decreases files.len(),
{
    if files.len() == 0 {
        seq![]
    } else {
        cancel_paths_of(files.drop_last()) + seq![files.last(), files.last() + ".part"@]
    }
}

/// The paths removed when a cancelled download's files are deleted: each
/// file and its `.part` file.
pub fn cancel_delete_paths(files: &Vec<String>) -> (r: Vec<String>)
    ensures
        strings(r@) == cancel_paths_of(strings(files@)),
{
    let n = files.len();
    let mut r: Vec<String> = Vec::new();
    let mut i: usize = 0;
    while i < n
        invariant
            n == files@.len(),
            i <= n,
            strings(r@) == cancel_paths_of(strings(files@).take(i as int)),
        decreases n - i,
    {
        let ghost before = strings(r@);
        push_str(&mut r, files[i].as_str());
        let part = concat(files[i].as_str(), ".part");
        push_str(&mut r, part.as_str());
        assert(strings(files@).take(i + 1).drop_last() =~= strings(files@).take(i as int));
        assert(strings(r@) =~= before + seq![files@[i as int]@, files@[i as int]@ + ".part"@]);
        i += 1;
    }
    assert(strings(files@).take(n as int) =~= strings(files@));
    r
}

} // verus!

verus! {

/// `flag` stands in `args` directly followed by `value`.
pub open spec fn has_pair(args: Seq<Seq<char>>, flag: Seq<char>, value: Seq<char>) -> bool {
    exists|i: int| 0 <= i && i + 1 < args.len() && #[trigger] args[i] == flag && args[i + 1] == value
}

/// `flag` stands in `args`.
pub open spec fn has_flag(args: Seq<Seq<char>>, flag: Seq<char>) -> bool {
    exists|i: int| 0 <= i < args.len() && #[trigger] args[i] == flag
}

/// What every download's arguments carry: progress on new lines first and
/// the address last; the output template after `-o` with portable file
/// names; and each option the user gave, with its value: the format, the
/// cookie file, the recode format, the rate limit, the playlist choice, and
/// the embedding and merging switches.
pub proof fn law_download_args_carry_the_options(
    p: DownloadParams,
    js_args: Seq<Seq<char>>,
    template: Seq<char>,
)
    ensures
        ({
            let args = download_args_of(p, js_args, template);
            &&& args[0] == "--newline"@
            &&& args.last() == p.url@
            &&& has_pair(args, "-o"@, template)
            &&& has_flag(args, "--windows-filenames"@)
            &&& (format_of(p.download_mode@, given(p.video_format), given(p.audio_format)) matches Some(
                f,
            ) ==> has_pair(args, "-f"@, f))
            &&& (given(p.cookie_file) matches Some(c) ==> has_pair(args, "--cookies"@, c))
            &&& (p.embed_subs ==> has_flag(args, "--embed-subs"@))
            &&& (p.embed_thumbnail ==> has_flag(args, "--embed-thumbnail"@))
            &&& (p.embed_metadata ==> has_flag(args, "--embed-metadata"@))
            &&& (p.no_merge ==> has_flag(args, "--no-merge-output"@))
            &&& (given(p.recode_format) matches Some(f) ==> has_pair(args, "--recode-video"@, f))
            &&& (given(p.limit_rate) matches Some(r) ==> has_pair(args, "-r"@, r))
            &&& (p.no_playlist ==> has_flag(args, "--no-playlist"@))
            &&& (!p.no_playlist ==> (given(p.playlist_items) matches Some(x) ==> has_pair(
                args,
                "--playlist-items"@,
                x,
            )))
        }),
{
    let fmt = format_of(p.download_mode@, given(p.video_format), given(p.audio_format));
    let q0 = seq!["--newline"@];
    let q1 = q0 + js_args;
    let q2 = q1 + option_pair("-f"@, fmt);
    let q3 = q2 + seq!["-o"@, template, "--windows-filenames"@];
    let q4 = q3 + option_pair("--cookies"@, given(p.cookie_file));
    let q5 = q4 + flag_if("--embed-subs"@, p.embed_subs);
    let q6 = q5 + flag_if("--embed-thumbnail"@, p.embed_thumbnail);
    let q7 = q6 + flag_if("--embed-metadata"@, p.embed_metadata);
    let q8 = q7 + flag_if("--no-merge-output"@, p.no_merge);
    let q9 = q8 + option_pair("--recode-video"@, given(p.recode_format));
    let q10 = q9 + option_pair("-r"@, given(p.limit_rate));
    let q11 = q10 + subtitles_of(p);
    let q12 = q11 + section_of(opt_str_view(p.start_time), opt_str_view(p.end_time));
    let q13 = q12 + playlist_of(p);
    let q14 = q13 + seq![p.url@];
    assert(q14 == download_args_of(p, js_args, template));
    assert(q1[0] == "--newline"@);
    assert((q1 + option_pair("-f"@, fmt))[0] == q1[0]);
    assert((q2 + seq!["-o"@, template, "--windows-filenames"@])[0] == q2[0]);
    assert((q3 + option_pair("--cookies"@, given(p.cookie_file)))[0] == q3[0]);
    assert((q4 + flag_if("--embed-subs"@, p.embed_subs))[0] == q4[0]);
    assert((q5 + flag_if("--embed-thumbnail"@, p.embed_thumbnail))[0] == q5[0]);
    assert((q6 + flag_if("--embed-metadata"@, p.embed_metadata))[0] == q6[0]);
    assert((q7 + flag_if("--no-merge-output"@, p.no_merge))[0] == q7[0]);
    assert((q8 + option_pair("--recode-video"@, given(p.recode_format)))[0] == q8[0]);
    assert((q9 + option_pair("-r"@, given(p.limit_rate)))[0] == q9[0]);
    assert((q10 + subtitles_of(p))[0] == q10[0]);
    assert((q11 + section_of(opt_str_view(p.start_time), opt_str_view(p.end_time)))[0] == q11[0]);
    assert((q12 + playlist_of(p))[0] == q12[0]);
    assert((q13 + seq![p.url@])[0] == q13[0]);
    lemma_args_format(p, js_args, template);
    lemma_args_cookies(p, js_args, template);
    lemma_args_recode(p, js_args, template);
    lemma_args_rate(p, js_args, template);
    lemma_args_subs(p, js_args, template);
    lemma_args_thumb(p, js_args, template);
    lemma_args_meta(p, js_args, template);
    lemma_args_merge(p, js_args, template);
    lemma_args_output(p, js_args, template);
    lemma_args_playlist(p, js_args, template);
}

proof fn lemma_pair_at(a: Seq<Seq<char>>, flag: Seq<char>, v: Seq<char>)
    ensures
        has_pair(a + seq![flag, v], flag, v),
{
    let b = a + seq![flag, v];
    assert(b[a.len() as int] == flag);
    assert(b[a.len() as int + 1] == v);
}

proof fn lemma_flag_at(a: Seq<Seq<char>>, flag: Seq<char>)
    ensures
        has_flag(a + seq![flag], flag),
{
    let b = a + seq![flag];
    assert(b[a.len() as int] == flag);
}

proof fn lemma_pair_kept(a: Seq<Seq<char>>, b: Seq<Seq<char>>, flag: Seq<char>, v: Seq<char>)
    requires
        has_pair(a, flag, v),
    ensures
        has_pair(a + b, flag, v),
{
    let i = choose|i: int| 0 <= i && i + 1 < a.len() && #[trigger] a[i] == flag && a[i + 1] == v;
    assert((a + b)[i] == a[i]);
    assert((a + b)[i + 1] == a[i + 1]);
}

proof fn lemma_flag_kept(a: Seq<Seq<char>>, b: Seq<Seq<char>>, flag: Seq<char>)
    requires
        has_flag(a, flag),
    ensures
        has_flag(a + b, flag),
{
    let i = choose|i: int| 0 <= i < a.len() && #[trigger] a[i] == flag;
    assert((a + b)[i] == a[i]);
}

/// The format, when there is one, follows `-f`.
proof fn lemma_args_format(p: DownloadParams, js_args: Seq<Seq<char>>, template: Seq<char>)
    ensures
        format_of(p.download_mode@, given(p.video_format), given(p.audio_format)) matches Some(f) ==> has_pair(download_args_of(p, js_args, template), "-f"@, f),
{
    let fmt = format_of(p.download_mode@, given(p.video_format), given(p.audio_format));
    let q0 = seq!["--newline"@];
    let q1 = q0 + js_args;
    let q2 = q1 + option_pair("-f"@, fmt);
    let q3 = q2 + seq!["-o"@, template, "--windows-filenames"@];
    let q4 = q3 + option_pair("--cookies"@, given(p.cookie_file));
    let q5 = q4 + flag_if("--embed-subs"@, p.embed_subs);
    let q6 = q5 + flag_if("--embed-thumbnail"@, p.embed_thumbnail);
    let q7 = q6 + flag_if("--embed-metadata"@, p.embed_metadata);
    let q8 = q7 + flag_if("--no-merge-output"@, p.no_merge);
    let q9 = q8 + option_pair("--recode-video"@, given(p.recode_format));
    let q10 = q9 + option_pair("-r"@, given(p.limit_rate));
    let q11 = q10 + subtitles_of(p);
    let q12 = q11 + section_of(opt_str_view(p.start_time), opt_str_view(p.end_time));
    let q13 = q12 + playlist_of(p);
    let q14 = q13 + seq![p.url@];
    assert(q14 == download_args_of(p, js_args, template));
    if let Some(f) = fmt {
        assert(q2 == q1 + seq!["-f"@, f]);
        lemma_pair_at(q1, "-f"@, f);
        lemma_pair_kept(q2, seq!["-o"@, template, "--windows-filenames"@], "-f"@, f);
        lemma_pair_kept(q3, option_pair("--cookies"@, given(p.cookie_file)), "-f"@, f);
        lemma_pair_kept(q4, flag_if("--embed-subs"@, p.embed_subs), "-f"@, f);
        lemma_pair_kept(q5, flag_if("--embed-thumbnail"@, p.embed_thumbnail), "-f"@, f);
        lemma_pair_kept(q6, flag_if("--embed-metadata"@, p.embed_metadata), "-f"@, f);
        lemma_pair_kept(q7, flag_if("--no-merge-output"@, p.no_merge), "-f"@, f);
        lemma_pair_kept(q8, option_pair("--recode-video"@, given(p.recode_format)), "-f"@, f);
        lemma_pair_kept(q9, option_pair("-r"@, given(p.limit_rate)), "-f"@, f);
        lemma_pair_kept(q10, subtitles_of(p), "-f"@, f);
        lemma_pair_kept(q11, section_of(opt_str_view(p.start_time), opt_str_view(p.end_time)), "-f"@, f);
        lemma_pair_kept(q12, playlist_of(p), "-f"@, f);
        lemma_pair_kept(q13, seq![p.url@], "-f"@, f);
    }
}

/// The cookie file, when given, follows `--cookies`.
proof fn lemma_args_cookies(p: DownloadParams, js_args: Seq<Seq<char>>, template: Seq<char>)
    ensures
        given(p.cookie_file) matches Some(c) ==> has_pair(download_args_of(p, js_args, template), "--cookies"@, c),
{
    let fmt = format_of(p.download_mode@, given(p.video_format), given(p.audio_format));
    let q0 = seq!["--newline"@];
    let q1 = q0 + js_args;
    let q2 = q1 + option_pair("-f"@, fmt);
    let q3 = q2 + seq!["-o"@, template, "--windows-filenames"@];
    let q4 = q3 + option_pair("--cookies"@, given(p.cookie_file));
    let q5 = q4 + flag_if("--embed-subs"@, p.embed_subs);
    let q6 = q5 + flag_if("--embed-thumbnail"@, p.embed_thumbnail);
    let q7 = q6 + flag_if("--embed-metadata"@, p.embed_metadata);
    let q8 = q7 + flag_if("--no-merge-output"@, p.no_merge);
    let q9 = q8 + option_pair("--recode-video"@, given(p.recode_format));
    let q10 = q9 + option_pair("-r"@, given(p.limit_rate));
    let q11 = q10 + subtitles_of(p);
    let q12 = q11 + section_of(opt_str_view(p.start_time), opt_str_view(p.end_time));
    let q13 = q12 + playlist_of(p);
    let q14 = q13 + seq![p.url@];
    assert(q14 == download_args_of(p, js_args, template));
    if let Some(c) = given(p.cookie_file) {
        assert(q4 == q3 + seq!["--cookies"@, c]);
        lemma_pair_at(q3, "--cookies"@, c);
        lemma_pair_kept(q4, flag_if("--embed-subs"@, p.embed_subs), "--cookies"@, c);
        lemma_pair_kept(q5, flag_if("--embed-thumbnail"@, p.embed_thumbnail), "--cookies"@, c);
        lemma_pair_kept(q6, flag_if("--embed-metadata"@, p.embed_metadata), "--cookies"@, c);
        lemma_pair_kept(q7, flag_if("--no-merge-output"@, p.no_merge), "--cookies"@, c);
        lemma_pair_kept(q8, option_pair("--recode-video"@, given(p.recode_format)), "--cookies"@, c);
        lemma_pair_kept(q9, option_pair("-r"@, given(p.limit_rate)), "--cookies"@, c);
        lemma_pair_kept(q10, subtitles_of(p), "--cookies"@, c);
        lemma_pair_kept(q11, section_of(opt_str_view(p.start_time), opt_str_view(p.end_time)), "--cookies"@, c);
        lemma_pair_kept(q12, playlist_of(p), "--cookies"@, c);
        lemma_pair_kept(q13, seq![p.url@], "--cookies"@, c);
    }
}

/// The recode format, when given, follows `--recode-video`.
proof fn lemma_args_recode(p: DownloadParams, js_args: Seq<Seq<char>>, template: Seq<char>)
    ensures
        given(p.recode_format) matches Some(f) ==> has_pair(download_args_of(p, js_args, template), "--recode-video"@, f),
{
    let fmt = format_of(p.download_mode@, given(p.video_format), given(p.audio_format));
    let q0 = seq!["--newline"@];
    let q1 = q0 + js_args;
    let q2 = q1 + option_pair("-f"@, fmt);
    let q3 = q2 + seq!["-o"@, template, "--windows-filenames"@];
    let q4 = q3 + option_pair("--cookies"@, given(p.cookie_file));
    let q5 = q4 + flag_if("--embed-subs"@, p.embed_subs);
    let q6 = q5 + flag_if("--embed-thumbnail"@, p.embed_thumbnail);
    let q7 = q6 + flag_if("--embed-metadata"@, p.embed_metadata);
    let q8 = q7 + flag_if("--no-merge-output"@, p.no_merge);
    let q9 = q8 + option_pair("--recode-video"@, given(p.recode_format));
    let q10 = q9 + option_pair("-r"@, given(p.limit_rate));
    let q11 = q10 + subtitles_of(p);
    let q12 = q11 + section_of(opt_str_view(p.start_time), opt_str_view(p.end_time));
    let q13 = q12 + playlist_of(p);
    let q14 = q13 + seq![p.url@];
    assert(q14 == download_args_of(p, js_args, template));
    if let Some(f) = given(p.recode_format) {
        assert(q9 == q8 + seq!["--recode-video"@, f]);
        lemma_pair_at(q8, "--recode-video"@, f);
        lemma_pair_kept(q9, option_pair("-r"@, given(p.limit_rate)), "--recode-video"@, f);
        lemma_pair_kept(q10, subtitles_of(p), "--recode-video"@, f);
        lemma_pair_kept(q11, section_of(opt_str_view(p.start_time), opt_str_view(p.end_time)), "--recode-video"@, f);
        lemma_pair_kept(q12, playlist_of(p), "--recode-video"@, f);
        lemma_pair_kept(q13, seq![p.url@], "--recode-video"@, f);
    }
}

/// The rate limit, when given, follows `-r`.
proof fn lemma_args_rate(p: DownloadParams, js_args: Seq<Seq<char>>, template: Seq<char>)
    ensures
        given(p.limit_rate) matches Some(r) ==> has_pair(download_args_of(p, js_args, template), "-r"@, r),
{
    let fmt = format_of(p.download_mode@, given(p.video_format), given(p.audio_format));
    let q0 = seq!["--newline"@];
    let q1 = q0 + js_args;
    let q2 = q1 + option_pair("-f"@, fmt);
    let q3 = q2 + seq!["-o"@, template, "--windows-filenames"@];
    let q4 = q3 + option_pair("--cookies"@, given(p.cookie_file));
    let q5 = q4 + flag_if("--embed-subs"@, p.embed_subs);
    let q6 = q5 + flag_if("--embed-thumbnail"@, p.embed_thumbnail);
    let q7 = q6 + flag_if("--embed-metadata"@, p.embed_metadata);
    let q8 = q7 + flag_if("--no-merge-output"@, p.no_merge);
    let q9 = q8 + option_pair("--recode-video"@, given(p.recode_format));
    let q10 = q9 + option_pair("-r"@, given(p.limit_rate));
    let q11 = q10 + subtitles_of(p);
    let q12 = q11 + section_of(opt_str_view(p.start_time), opt_str_view(p.end_time));
    let q13 = q12 + playlist_of(p);
    let q14 = q13 + seq![p.url@];
    assert(q14 == download_args_of(p, js_args, template));
    if let Some(r) = given(p.limit_rate) {
        assert(q10 == q9 + seq!["-r"@, r]);
        lemma_pair_at(q9, "-r"@, r);
        lemma_pair_kept(q10, subtitles_of(p), "-r"@, r);
        lemma_pair_kept(q11, section_of(opt_str_view(p.start_time), opt_str_view(p.end_time)), "-r"@, r);
        lemma_pair_kept(q12, playlist_of(p), "-r"@, r);
        lemma_pair_kept(q13, seq![p.url@], "-r"@, r);
    }
}

/// The switch --embed-subs is passed when it is on.
proof fn lemma_args_subs(p: DownloadParams, js_args: Seq<Seq<char>>, template: Seq<char>)
    ensures
        p.embed_subs ==> has_flag(download_args_of(p, js_args, template), "--embed-subs"@),
{
    let fmt = format_of(p.download_mode@, given(p.video_format), given(p.audio_format));
    let q0 = seq!["--newline"@];
    let q1 = q0 + js_args;
    let q2 = q1 + option_pair("-f"@, fmt);
    let q3 = q2 + seq!["-o"@, template, "--windows-filenames"@];
    let q4 = q3 + option_pair("--cookies"@, given(p.cookie_file));
    let q5 = q4 + flag_if("--embed-subs"@, p.embed_subs);
    let q6 = q5 + flag_if("--embed-thumbnail"@, p.embed_thumbnail);
    let q7 = q6 + flag_if("--embed-metadata"@, p.embed_metadata);
    let q8 = q7 + flag_if("--no-merge-output"@, p.no_merge);
    let q9 = q8 + option_pair("--recode-video"@, given(p.recode_format));
    let q10 = q9 + option_pair("-r"@, given(p.limit_rate));
    let q11 = q10 + subtitles_of(p);
    let q12 = q11 + section_of(opt_str_view(p.start_time), opt_str_view(p.end_time));
    let q13 = q12 + playlist_of(p);
    let q14 = q13 + seq![p.url@];
    assert(q14 == download_args_of(p, js_args, template));
    if p.embed_subs {
        assert(q5 == q4 + seq!["--embed-subs"@]);
        lemma_flag_at(q4, "--embed-subs"@);
        lemma_flag_kept(q5, flag_if("--embed-thumbnail"@, p.embed_thumbnail), "--embed-subs"@);
        lemma_flag_kept(q6, flag_if("--embed-metadata"@, p.embed_metadata), "--embed-subs"@);
        lemma_flag_kept(q7, flag_if("--no-merge-output"@, p.no_merge), "--embed-subs"@);
        lemma_flag_kept(q8, option_pair("--recode-video"@, given(p.recode_format)), "--embed-subs"@);
        lemma_flag_kept(q9, option_pair("-r"@, given(p.limit_rate)), "--embed-subs"@);
        lemma_flag_kept(q10, subtitles_of(p), "--embed-subs"@);
        lemma_flag_kept(q11, section_of(opt_str_view(p.start_time), opt_str_view(p.end_time)), "--embed-subs"@);
        lemma_flag_kept(q12, playlist_of(p), "--embed-subs"@);
        lemma_flag_kept(q13, seq![p.url@], "--embed-subs"@);
    }
}

/// The switch --embed-thumbnail is passed when it is on.
proof fn lemma_args_thumb(p: DownloadParams, js_args: Seq<Seq<char>>, template: Seq<char>)
    ensures
        p.embed_thumbnail ==> has_flag(download_args_of(p, js_args, template), "--embed-thumbnail"@),
{
    let fmt = format_of(p.download_mode@, given(p.video_format), given(p.audio_format));
    let q0 = seq!["--newline"@];
    let q1 = q0 + js_args;
    let q2 = q1 + option_pair("-f"@, fmt);
    let q3 = q2 + seq!["-o"@, template, "--windows-filenames"@];
    let q4 = q3 + option_pair("--cookies"@, given(p.cookie_file));
    let q5 = q4 + flag_if("--embed-subs"@, p.embed_subs);
    let q6 = q5 + flag_if("--embed-thumbnail"@, p.embed_thumbnail);
    let q7 = q6 + flag_if("--embed-metadata"@, p.embed_metadata);
    let q8 = q7 + flag_if("--no-merge-output"@, p.no_merge);
    let q9 = q8 + option_pair("--recode-video"@, given(p.recode_format));
    let q10 = q9 + option_pair("-r"@, given(p.limit_rate));
    let q11 = q10 + subtitles_of(p);
    let q12 = q11 + section_of(opt_str_view(p.start_time), opt_str_view(p.end_time));
    let q13 = q12 + playlist_of(p);
    let q14 = q13 + seq![p.url@];
    assert(q14 == download_args_of(p, js_args, template));
    if p.embed_thumbnail {
        assert(q6 == q5 + seq!["--embed-thumbnail"@]);
        lemma_flag_at(q5, "--embed-thumbnail"@);
        lemma_flag_kept(q6, flag_if("--embed-metadata"@, p.embed_metadata), "--embed-thumbnail"@);
        lemma_flag_kept(q7, flag_if("--no-merge-output"@, p.no_merge), "--embed-thumbnail"@);
        lemma_flag_kept(q8, option_pair("--recode-video"@, given(p.recode_format)), "--embed-thumbnail"@);
        lemma_flag_kept(q9, option_pair("-r"@, given(p.limit_rate)), "--embed-thumbnail"@);
        lemma_flag_kept(q10, subtitles_of(p), "--embed-thumbnail"@);
        lemma_flag_kept(q11, section_of(opt_str_view(p.start_time), opt_str_view(p.end_time)), "--embed-thumbnail"@);
        lemma_flag_kept(q12, playlist_of(p), "--embed-thumbnail"@);
        lemma_flag_kept(q13, seq![p.url@], "--embed-thumbnail"@);
    }
}

/// The switch --embed-metadata is passed when it is on.
proof fn lemma_args_meta(p: DownloadParams, js_args: Seq<Seq<char>>, template: Seq<char>)
    ensures
        p.embed_metadata ==> has_flag(download_args_of(p, js_args, template), "--embed-metadata"@),
{
    let fmt = format_of(p.download_mode@, given(p.video_format), given(p.audio_format));
    let q0 = seq!["--newline"@];
    let q1 = q0 + js_args;
    let q2 = q1 + option_pair("-f"@, fmt);
    let q3 = q2 + seq!["-o"@, template, "--windows-filenames"@];
    let q4 = q3 + option_pair("--cookies"@, given(p.cookie_file));
    let q5 = q4 + flag_if("--embed-subs"@, p.embed_subs);
    let q6 = q5 + flag_if("--embed-thumbnail"@, p.embed_thumbnail);
    let q7 = q6 + flag_if("--embed-metadata"@, p.embed_metadata);
    let q8 = q7 + flag_if("--no-merge-output"@, p.no_merge);
    let q9 = q8 + option_pair("--recode-video"@, given(p.recode_format));
    let q10 = q9 + option_pair("-r"@, given(p.limit_rate));
    let q11 = q10 + subtitles_of(p);
    let q12 = q11 + section_of(opt_str_view(p.start_time), opt_str_view(p.end_time));
    let q13 = q12 + playlist_of(p);
    let q14 = q13 + seq![p.url@];
    assert(q14 == download_args_of(p, js_args, template));
    if p.embed_metadata {
        assert(q7 == q6 + seq!["--embed-metadata"@]);
        lemma_flag_at(q6, "--embed-metadata"@);
        lemma_flag_kept(q7, flag_if("--no-merge-output"@, p.no_merge), "--embed-metadata"@);
        lemma_flag_kept(q8, option_pair("--recode-video"@, given(p.recode_format)), "--embed-metadata"@);
        lemma_flag_kept(q9, option_pair("-r"@, given(p.limit_rate)), "--embed-metadata"@);
        lemma_flag_kept(q10, subtitles_of(p), "--embed-metadata"@);
        lemma_flag_kept(q11, section_of(opt_str_view(p.start_time), opt_str_view(p.end_time)), "--embed-metadata"@);
        lemma_flag_kept(q12, playlist_of(p), "--embed-metadata"@);
        lemma_flag_kept(q13, seq![p.url@], "--embed-metadata"@);
    }
}

/// The switch --no-merge-output is passed when it is on.
proof fn lemma_args_merge(p: DownloadParams, js_args: Seq<Seq<char>>, template: Seq<char>)
    ensures
        p.no_merge ==> has_flag(download_args_of(p, js_args, template), "--no-merge-output"@),
{
    let fmt = format_of(p.download_mode@, given(p.video_format), given(p.audio_format));
    let q0 = seq!["--newline"@];
    let q1 = q0 + js_args;
    let q2 = q1 + option_pair("-f"@, fmt);
    let q3 = q2 + seq!["-o"@, template, "--windows-filenames"@];
    let q4 = q3 + option_pair("--cookies"@, given(p.cookie_file));
    let q5 = q4 + flag_if("--embed-subs"@, p.embed_subs);
    let q6 = q5 + flag_if("--embed-thumbnail"@, p.embed_thumbnail);
    let q7 = q6 + flag_if("--embed-metadata"@, p.embed_metadata);
    let q8 = q7 + flag_if("--no-merge-output"@, p.no_merge);
    let q9 = q8 + option_pair("--recode-video"@, given(p.recode_format));
    let q10 = q9 + option_pair("-r"@, given(p.limit_rate));
    let q11 = q10 + subtitles_of(p);
    let q12 = q11 + section_of(opt_str_view(p.start_time), opt_str_view(p.end_time));
    let q13 = q12 + playlist_of(p);
    let q14 = q13 + seq![p.url@];
    assert(q14 == download_args_of(p, js_args, template));
    if p.no_merge {
        assert(q8 == q7 + seq!["--no-merge-output"@]);
        lemma_flag_at(q7, "--no-merge-output"@);
        lemma_flag_kept(q8, option_pair("--recode-video"@, given(p.recode_format)), "--no-merge-output"@);
        lemma_flag_kept(q9, option_pair("-r"@, given(p.limit_rate)), "--no-merge-output"@);
        lemma_flag_kept(q10, subtitles_of(p), "--no-merge-output"@);
        lemma_flag_kept(q11, section_of(opt_str_view(p.start_time), opt_str_view(p.end_time)), "--no-merge-output"@);
        lemma_flag_kept(q12, playlist_of(p), "--no-merge-output"@);
        lemma_flag_kept(q13, seq![p.url@], "--no-merge-output"@);
    }
}

/// The output template follows `-o`, with portable file names.
proof fn lemma_args_output(p: DownloadParams, js_args: Seq<Seq<char>>, template: Seq<char>)
    ensures
        has_pair(download_args_of(p, js_args, template), "-o"@, template) && has_flag(download_args_of(p, js_args, template), "--windows-filenames"@),
{
    let fmt = format_of(p.download_mode@, given(p.video_format), given(p.audio_format));
    let q0 = seq!["--newline"@];
    let q1 = q0 + js_args;
    let q2 = q1 + option_pair("-f"@, fmt);
    let q3 = q2 + seq!["-o"@, template, "--windows-filenames"@];
    let q4 = q3 + option_pair("--cookies"@, given(p.cookie_file));
    let q5 = q4 + flag_if("--embed-subs"@, p.embed_subs);
    let q6 = q5 + flag_if("--embed-thumbnail"@, p.embed_thumbnail);
    let q7 = q6 + flag_if("--embed-metadata"@, p.embed_metadata);
    let q8 = q7 + flag_if("--no-merge-output"@, p.no_merge);
    let q9 = q8 + option_pair("--recode-video"@, given(p.recode_format));
    let q10 = q9 + option_pair("-r"@, given(p.limit_rate));
    let q11 = q10 + subtitles_of(p);
    let q12 = q11 + section_of(opt_str_view(p.start_time), opt_str_view(p.end_time));
    let q13 = q12 + playlist_of(p);
    let q14 = q13 + seq![p.url@];
    assert(q14 == download_args_of(p, js_args, template));
    assert(q3[q2.len() as int] == "-o"@);
    assert(q3[q2.len() as int + 1] == template);
    assert(q3[q2.len() as int + 2] == "--windows-filenames"@);
    assert(has_pair(q3, "-o"@, template));
    assert(has_flag(q3, "--windows-filenames"@));
    lemma_pair_kept(q3, option_pair("--cookies"@, given(p.cookie_file)), "-o"@, template);
    lemma_pair_kept(q4, flag_if("--embed-subs"@, p.embed_subs), "-o"@, template);
    lemma_pair_kept(q5, flag_if("--embed-thumbnail"@, p.embed_thumbnail), "-o"@, template);
    lemma_pair_kept(q6, flag_if("--embed-metadata"@, p.embed_metadata), "-o"@, template);
    lemma_pair_kept(q7, flag_if("--no-merge-output"@, p.no_merge), "-o"@, template);
    lemma_pair_kept(q8, option_pair("--recode-video"@, given(p.recode_format)), "-o"@, template);
    lemma_pair_kept(q9, option_pair("-r"@, given(p.limit_rate)), "-o"@, template);
    lemma_pair_kept(q10, subtitles_of(p), "-o"@, template);
    lemma_pair_kept(q11, section_of(opt_str_view(p.start_time), opt_str_view(p.end_time)), "-o"@, template);
    lemma_pair_kept(q12, playlist_of(p), "-o"@, template);
    lemma_pair_kept(q13, seq![p.url@], "-o"@, template);
    lemma_flag_kept(q3, option_pair("--cookies"@, given(p.cookie_file)), "--windows-filenames"@);
    lemma_flag_kept(q4, flag_if("--embed-subs"@, p.embed_subs), "--windows-filenames"@);
    lemma_flag_kept(q5, flag_if("--embed-thumbnail"@, p.embed_thumbnail), "--windows-filenames"@);
    lemma_flag_kept(q6, flag_if("--embed-metadata"@, p.embed_metadata), "--windows-filenames"@);
    lemma_flag_kept(q7, flag_if("--no-merge-output"@, p.no_merge), "--windows-filenames"@);
    lemma_flag_kept(q8, option_pair("--recode-video"@, given(p.recode_format)), "--windows-filenames"@);
    lemma_flag_kept(q9, option_pair("-r"@, given(p.limit_rate)), "--windows-filenames"@);
    lemma_flag_kept(q10, subtitles_of(p), "--windows-filenames"@);
    lemma_flag_kept(q11, section_of(opt_str_view(p.start_time), opt_str_view(p.end_time)), "--windows-filenames"@);
    lemma_flag_kept(q12, playlist_of(p), "--windows-filenames"@);
    lemma_flag_kept(q13, seq![p.url@], "--windows-filenames"@);
}

/// `--no-playlist` when asked for; otherwise the chosen items follow `--playlist-items`.
proof fn lemma_args_playlist(p: DownloadParams, js_args: Seq<Seq<char>>, template: Seq<char>)
    ensures
        (p.no_playlist ==> has_flag(download_args_of(p, js_args, template), "--no-playlist"@)) && (!p.no_playlist ==> (given(p.playlist_items) matches Some(x) ==> has_pair(download_args_of(p, js_args, template), "--playlist-items"@, x))),
{
    let fmt = format_of(p.download_mode@, given(p.video_format), given(p.audio_format));
    let q0 = seq!["--newline"@];
    let q1 = q0 + js_args;
    let q2 = q1 + option_pair("-f"@, fmt);
    let q3 = q2 + seq!["-o"@, template, "--windows-filenames"@];
    let q4 = q3 + option_pair("--cookies"@, given(p.cookie_file));
    let q5 = q4 + flag_if("--embed-subs"@, p.embed_subs);
    let q6 = q5 + flag_if("--embed-thumbnail"@, p.embed_thumbnail);
    let q7 = q6 + flag_if("--embed-metadata"@, p.embed_metadata);
    let q8 = q7 + flag_if("--no-merge-output"@, p.no_merge);
    let q9 = q8 + option_pair("--recode-video"@, given(p.recode_format));
    let q10 = q9 + option_pair("-r"@, given(p.limit_rate));
    let q11 = q10 + subtitles_of(p);
    let q12 = q11 + section_of(opt_str_view(p.start_time), opt_str_view(p.end_time));
    let q13 = q12 + playlist_of(p);
    let q14 = q13 + seq![p.url@];
    assert(q14 == download_args_of(p, js_args, template));
    if p.no_playlist {
        assert(q13 == q12 + seq!["--no-playlist"@]);
        lemma_flag_at(q12, "--no-playlist"@);
        lemma_flag_kept(q13, seq![p.url@], "--no-playlist"@);
    } else if let Some(x) = given(p.playlist_items) {
        assert(q13 == q12 + seq!["--playlist-items"@, x]);
        lemma_pair_at(q12, "--playlist-items"@, x);
        lemma_pair_kept(q13, seq![p.url@], "--playlist-items"@, x);
    }
}


/// Subtitles, when asked for, are written in the chosen languages; a
/// section, when a start or an end is given, is downloaded alone.
pub proof fn law_download_args_subtitles_and_section(
    p: DownloadParams,
    js_args: Seq<Seq<char>>,
    template: Seq<char>,
)
    ensures
        p.subtitles@.len() > 0 ==> has_flag(download_args_of(p, js_args, template), "--write-subs"@)
            && has_pair(
            download_args_of(p, js_args, template),
            "--sub-langs"@,
            join_commas(strings(p.subtitles@)),
        ),
        (p.start_time is Some || p.end_time is Some) ==> has_flag(
            download_args_of(p, js_args, template),
            "--download-sections"@,
        ),
{
    let fmt = format_of(p.download_mode@, given(p.video_format), given(p.audio_format));
    let q0 = seq!["--newline"@];
    let q1 = q0 + js_args;
    let q2 = q1 + option_pair("-f"@, fmt);
    let q3 = q2 + seq!["-o"@, template, "--windows-filenames"@];
    let q4 = q3 + option_pair("--cookies"@, given(p.cookie_file));
    let q5 = q4 + flag_if("--embed-subs"@, p.embed_subs);
    let q6 = q5 + flag_if("--embed-thumbnail"@, p.embed_thumbnail);
    let q7 = q6 + flag_if("--embed-metadata"@, p.embed_metadata);
    let q8 = q7 + flag_if("--no-merge-output"@, p.no_merge);
    let q9 = q8 + option_pair("--recode-video"@, given(p.recode_format));
    let q10 = q9 + option_pair("-r"@, given(p.limit_rate));
    let q11 = q10 + subtitles_of(p);
    let q12 = q11 + section_of(opt_str_view(p.start_time), opt_str_view(p.end_time));
    let q13 = q12 + playlist_of(p);
    let q14 = q13 + seq![p.url@];
    assert(q14 == download_args_of(p, js_args, template));
    if p.subtitles@.len() > 0 {
        let langs = join_commas(strings(p.subtitles@));
        assert(q11[q10.len() as int] == "--write-subs"@);
        assert(q11[q10.len() as int + 1] == "--sub-langs"@);
        assert(q11[q10.len() as int + 2] == langs);
        assert(has_flag(q11, "--write-subs"@));
        assert(has_pair(q11, "--sub-langs"@, langs));
        lemma_flag_kept(q11, section_of(opt_str_view(p.start_time), opt_str_view(p.end_time)), "--write-subs"@);
        lemma_flag_kept(q12, playlist_of(p), "--write-subs"@);
        lemma_flag_kept(q13, seq![p.url@], "--write-subs"@);
        lemma_pair_kept(q11, section_of(opt_str_view(p.start_time), opt_str_view(p.end_time)), "--sub-langs"@, langs);
        lemma_pair_kept(q12, playlist_of(p), "--sub-langs"@, langs);
        lemma_pair_kept(q13, seq![p.url@], "--sub-langs"@, langs);
    }
    if p.start_time is Some || p.end_time is Some {
        assert(q12[q11.len() as int] == "--download-sections"@);
        assert(has_flag(q12, "--download-sections"@));
        lemma_flag_kept(q12, playlist_of(p), "--download-sections"@);
        lemma_flag_kept(q13, seq![p.url@], "--download-sections"@);
    }
}


/// The `-f` selection: the video or the audio format alone in those modes;
/// otherwise both merged, with the best available standing in for the one
/// not chosen, and no selection when neither is chosen.
pub proof fn law_format_selection(mode: Seq<char>, video: Option<Seq<char>>, audio: Option<Seq<char>>)
    ensures
        mode == "video"@ ==> format_of(mode, video, audio) == video,
        mode == "audio"@ ==> format_of(mode, video, audio) == audio,
        mode != "video"@ && mode != "audio"@ ==> format_of(mode, video, audio) == match (
            video,
            audio,
        ) {
            (Some(v), Some(a)) => Some(v + "+"@ + a),
            (Some(v), None) => Some(v + "+bestaudio"@),
            (None, Some(a)) => Some("bestvideo+"@ + a),
            (None, None) => None::<Seq<char>>,
        },
{
    reveal_strlit("video");
    reveal_strlit("audio");
    assert("video"@[0] != "audio"@[0]);
}

} // verus!
