//! Live chat replays: the messages of yt-dlp's chat file, and the files of
//! a chat download.

use vstd::prelude::*;

use crate::enrich::i64_of_text;
use crate::json::{array_of, get, get_str, str_of, Json};
use crate::numbers::{decimal, parse_i64, u64_to_string};
use crate::source::opt_str_view;
use crate::text::{chars_of, concat, concat3, contains, ends_with, owned, str_contains, str_ends_with};

verus! {

/// One chat message as the front end shows it.
pub struct LiveChatMessage {
    /// Its position among the messages of the replay.
    pub idx: usize,
    pub time: String,
    pub timestamp_usec: i64,
    pub author: String,
    pub channel_id: String,
    pub message: String,
    /// `text`, `paid` or `membership`.
    pub msg_type: String,
    pub amount: String,
}

/// `j[a][b]`.
pub open spec fn get2(j: Option<Json>, a: Seq<char>, b: Seq<char>) -> Option<Json> {
    match j {
        Some(v) => match get(v, a) {
            Some(w) => get(w, b),
            None => None,
        },
        None => None,
    }
}

/// The texts of a list of runs, joined.
pub open spec fn runs_text_of(runs: Seq<Json>) -> Seq<char>
    decreases runs.len(),
{
    if runs.len() == 0 {
        seq![]
    } else {
        runs_text_of(runs.drop_last()) + match str_of(get(runs.last(), "text"@)) {
            Some(t) => t,
            None => seq![],
        }
    }
}

/// The joined texts of a run list, when there is any text.
pub open spec fn runs_text(value: Option<Json>) -> Option<Seq<char>> {
    match array_of(value) {
        Some(runs) => if runs_text_of(runs).len() > 0 {
            Some(runs_text_of(runs))
        } else {
            None
        },
        None => None,
    }
}

/// The joined texts of a run list, when there is any text.
pub fn extract_runs_text(value: Option<&Json>) -> (r: Option<String>)
    ensures
        opt_str_view(r) == runs_text(
            match value {
                Some(v) => Some(*v),
                None => None,
            },
        ),
{
    let runs = match value {
        Some(v) => match v.as_array() {
            Some(a) => a,
            None => return None,
        },
        None => return None,
    };
    let n = runs.len();
    let mut text = String::new();
    let mut i: usize = 0;
    while i < n
        invariant
            n == runs@.len(),
            i <= n,
            text@ == runs_text_of(runs@.take(i as int)),
        decreases n - i,
    {
        assert(runs@.take(i + 1).drop_last() =~= runs@.take(i as int));
        match get_str(&runs[i], "text") {
            Some(t) => {
                text = concat(text.as_str(), t);
            },
            None => {
                assert(text@ + Seq::<char>::empty() =~= text@);
            },
        }
        i += 1;
    }
    assert(runs@.take(n as int) =~= runs@);
    if text.as_str().is_empty() {
        None
    } else {
        Some(text)
    }
}

/// The chat item of the first action that adds one (as a message or as a
/// ticker item).
pub open spec fn first_item(actions: Seq<Json>) -> Option<Json>
    decreases actions.len(),
{
    if actions.len() == 0 {
        None
    } else {
        match get2(Some(actions[0]), "addChatItemAction"@, "item"@) {
            Some(i) => Some(i),
            None => match get2(Some(actions[0]), "addLiveChatTickerItemAction"@, "item"@) {
                Some(i) => Some(i),
                None => first_item(actions.drop_first()),
            },
        }
    }
}

/// The renderer of a chat item and the kind of message it renders.
pub open spec fn renderer_of(item: Json) -> Option<(Json, Seq<char>)> {
    match get(item, "liveChatTextMessageRenderer"@) {
        Some(r) => Some((r, "text"@)),
        None => match get(item, "liveChatPaidMessageRenderer"@) {
            Some(r) => Some((r, "paid"@)),
            None => match get(item, "liveChatMembershipItemRenderer"@) {
                Some(r) => Some((r, "membership"@)),
                None => None,
            },
        },
    }
}

pub open spec fn text_or_empty(o: Option<Seq<char>>) -> Seq<char> {
    match o {
        Some(s) => s,
        None => seq![],
    }
}

/// Whether `m` is the message that renderer `r` of kind `kind` shows.
pub open spec fn message_from(m: LiveChatMessage, r: Json, kind: Seq<char>) -> bool {
    &&& m.idx == 0
    &&& m.msg_type@ == kind
    &&& m.author@ == text_or_empty(str_of(get2(Some(r), "authorName"@, "simpleText"@)))
    &&& m.channel_id@ == text_or_empty(str_of(get(r, "authorExternalChannelId"@)))
    &&& m.timestamp_usec as int == match i64_of_text(str_of(get(r, "timestampUsec"@))) {
        Some(v) => v,
        None => 0,
    }
    &&& m.time@ == text_or_empty(str_of(get2(Some(r), "timestampText"@, "simpleText"@)))
    &&& m.message@ == match runs_text(get2(Some(r), "message"@, "runs"@)) {
        Some(t) => t,
        None => text_or_empty(runs_text(get2(Some(r), "headerSubtext"@, "runs"@))),
    }
    &&& m.amount@ == text_or_empty(str_of(get2(Some(r), "purchaseAmountText"@, "simpleText"@)))
}

fn get2_ref<'a>(j: &'a Json, a: &str, b: &str) -> (r: Option<&'a Json>)
    ensures
        match r {
            Some(v) => get2(Some(*j), a@, b@) == Some(*v),
            None => get2(Some(*j), a@, b@) is None,
        },
{
    match j.get(a) {
        Some(w) => w.get(b),
        None => None,
    }
}

fn text_at(j: &Json, a: &str, b: &str) -> (r: String)
    ensures
        r@ == text_or_empty(str_of(get2(Some(*j), a@, b@))),
{
    match get2_ref(j, a, b) {
        Some(v) => match v.as_str() {
            Some(s) => owned(s),
            None => String::new(),
        },
        None => String::new(),
    }
}

/// The message of one line of a chat replay (already read as JSON): the
/// first added chat item of the replayed actions, when it is a text, paid
/// or membership message.
pub fn live_chat_message(root: &Json) -> (r: Option<LiveChatMessage>)
    ensures
        match array_of(get2(Some(*root), "replayChatItemAction"@, "actions"@)) {
            None => r is None,
            Some(actions) => match first_item(actions) {
                None => r is None,
                Some(item) => match renderer_of(item) {
                    None => r is None,
                    Some((rd, kind)) => r matches Some(m) && message_from(m, rd, kind),
                },
            },
        },
{
    proof {
        reveal_strlit("");
        assert(""@ =~= Seq::<char>::empty());
    }
    let actions = match get2_ref(root, "replayChatItemAction", "actions") {
        Some(v) => match v.as_array() {
            Some(a) => a,
            None => return None,
        },
        None => return None,
    };
    let n = actions.len();
    let mut i: usize = 0;
    let mut found: Option<&Json> = None;
    assert(actions@.skip(0) =~= actions@);
    while i < n
        invariant_except_break
            n == actions@.len(),
            i <= n,
            found is None,
            first_item(actions@) == first_item(actions@.skip(i as int)),
        ensures
            match found {
                Some(v) => first_item(actions@) == Some(*v),
                None => first_item(actions@) is None,
            },
        decreases n - i,
    {
        let a = &actions[i];
        assert(actions@.skip(i as int)[0] == *a);
        assert(actions@.skip(i as int).drop_first() =~= actions@.skip(i + 1));
        match get2_ref(a, "addChatItemAction", "item") {
            Some(v) => {
                found = Some(v);
                break;
            },
            None => match get2_ref(a, "addLiveChatTickerItemAction", "item") {
                Some(v) => {
                    found = Some(v);
                    break;
                },
                None => {},
            },
        }
        i += 1;
    }
    let item = match found {
        Some(v) => v,
        None => return None,
    };
    let (renderer, kind) = match item.get("liveChatTextMessageRenderer") {
        Some(r) => (r, "text"),
        None => match item.get("liveChatPaidMessageRenderer") {
            Some(r) => (r, "paid"),
            None => match item.get("liveChatMembershipItemRenderer") {
                Some(r) => (r, "membership"),
                None => return None,
            },
        },
    };
    let author = text_at(renderer, "authorName", "simpleText");
    let channel_id = match get_str(renderer, "authorExternalChannelId") {
        Some(s) => owned(s),
        None => String::new(),
    };
    let timestamp_usec: i64 = match get_str(renderer, "timestampUsec") {
        Some(s) => {
            let cs = chars_of(s);
            match parse_i64(cs.as_slice()) {
                Some(v) => v,
                None => 0,
            }
        },
        None => 0,
    };
    let time = text_at(renderer, "timestampText", "simpleText");
    let message = match extract_runs_text(get2_ref(renderer, "message", "runs")) {
        Some(t) => t,
        None => match extract_runs_text(get2_ref(renderer, "headerSubtext", "runs")) {
            Some(t) => t,
            None => String::new(),
        },
    };
    let amount = text_at(renderer, "purchaseAmountText", "simpleText");
    Some(
        LiveChatMessage {
            idx: 0,
            time,
            timestamp_usec,
            author,
            channel_id,
            message,
            msg_type: owned(kind),
            amount,
        },
    )
}

/// Whether a file of the chat download is the chat replay.
pub fn is_chat_file(name: &str) -> (r: bool)
    ensures
        r == (contains(name@, "live_chat"@) && ends_with(name@, ".json"@)),
{
    str_contains(name, "live_chat") && str_ends_with(name, ".json")
}

/// Where a run's chat messages are kept, relative to the data folder.
pub fn live_chat_result_path(run_id: &str) -> (r: String)
    ensures
        r@ == "tool-results/livechat/"@ + run_id@ + ".jsonl"@,
{
    concat3("tool-results/livechat/", run_id, ".jsonl")
}

/// The name of the temporary folder of a chat download started at `millis`.
pub fn live_chat_temp_dir_name(millis: u64) -> (r: String)
    ensures
        r@ == "ytdlp-livechat-"@ + decimal(millis as nat),
{
    concat("ytdlp-livechat-", u64_to_string(millis).as_str())
}

/// The options of a chat download: no media, the `live_chat` subtitles,
/// the output template, the tool options, cookies and proxy, the address.
pub open spec fn live_chat_base_args(template: Seq<char>) -> Seq<Seq<char>> {
    seq![
        "--skip-download"@,
        "--ignore-config"@,
        "--color"@,
        "never"@,
        "--no-warnings"@,
        "--socket-timeout"@,
        "15"@,
        "--retries"@,
        "3"@,
        "--write-subs"@,
        "--sub-langs"@,
        "live_chat"@,
        "-o"@,
        template,
    ]
}

pub open spec fn strings(v: Seq<String>) -> Seq<Seq<char>> {
    v.map_values(|s: String| s@)
}

/// The options of a chat download.
pub fn live_chat_args(
    output_template: &str,
    tool_args: &Vec<String>,
    cookie_file: Option<&str>,
    cookie_browser: Option<&str>,
    proxy: Option<&str>,
    url: &str,
) -> (r: Vec<String>)
    ensures
        strings(r@) == live_chat_base_args(output_template@) + strings(tool_args@)
            + crate::ytdlp::cookie_proxy_args_of(cookie_file, cookie_browser, proxy) + seq![url@],
{
    let mut r: Vec<String> = Vec::new();
    r.push(owned("--skip-download"));
    r.push(owned("--ignore-config"));
    r.push(owned("--color"));
    r.push(owned("never"));
    r.push(owned("--no-warnings"));
    r.push(owned("--socket-timeout"));
    r.push(owned("15"));
    r.push(owned("--retries"));
    r.push(owned("3"));
    r.push(owned("--write-subs"));
    r.push(owned("--sub-langs"));
    r.push(owned("live_chat"));
    r.push(owned("-o"));
    r.push(owned(output_template));
    assert(strings(r@) =~= live_chat_base_args(output_template@));
    let ghost start = strings(r@);
    let n = tool_args.len();
    let mut i: usize = 0;
    while i < n
        invariant
            n == tool_args@.len(),
            i <= n,
            strings(r@) == start + strings(tool_args@).take(i as int),
        decreases n - i,
    {
        let ghost before = r@;
        r.push(tool_args[i].clone());
        assert(strings(r@) =~= strings(before).push(tool_args@[i as int]@));
        assert(strings(tool_args@).take(i + 1) =~= strings(tool_args@).take(i as int).push(
            tool_args@[i as int]@,
        ));
        i += 1;
    }
    assert(strings(tool_args@).take(n as int) =~= strings(tool_args@));
    crate::ytdlp::append_cookie_proxy_args(&mut r, cookie_file, cookie_browser, proxy);
    let ghost b = strings(r@);
    r.push(owned(url));
    assert(strings(r@) =~= b + seq![url@]);
    r
}

} // verus!
