//! Splitting of a user-supplied command line into separate yt-dlp arguments.

use vstd::prelude::*;

use crate::text::{chars_of, is_whitespace, is_ws, string_of, trim_start, word_prefix};

verus! {

/// Progress of the argument splitter over its input.
pub struct SplitState {
    /// Arguments completed so far.
    pub args: Seq<Seq<char>>,
    /// The argument being collected.
    pub current: Seq<char>,
    pub in_single: bool,
    pub in_double: bool,
}

pub open spec fn split_start() -> SplitState {
    SplitState { args: seq![], current: seq![], in_single: false, in_double: false }
}

/// Number of input characters the splitter consumes at position `i`.
pub open spec fn split_step_len(s: Seq<char>, i: int, st: SplitState) -> int {
    if s[i] == '\\' && st.in_double && i + 1 < s.len() && (s[i + 1] == '"' || s[i + 1] == '\\') {
        2
    } else {
        1
    }
}

/// The splitter's state after it reads the character(s) at position `i`.
///
/// A single quote toggles single quoting outside double quotes; a double
/// quote toggles double quoting outside single quotes; inside double quotes
/// a backslash escapes a following `"` or `\` and is kept literally
/// otherwise; unquoted white space ends the current argument; any other
/// character is kept.
pub open spec fn split_step(s: Seq<char>, i: int, st: SplitState) -> SplitState {
    let c = s[i];
    if c == '\'' && !st.in_double {
        SplitState { in_single: !st.in_single, ..st }
    } else if c == '"' && !st.in_single {
        SplitState { in_double: !st.in_double, ..st }
    } else if c == '\\' && st.in_double {
        if i + 1 < s.len() && (s[i + 1] == '"' || s[i + 1] == '\\') {
            SplitState { current: st.current.push(s[i + 1]), ..st }
        } else {
            SplitState { current: st.current.push('\\'), ..st }
        }
    } else if is_ws(c) && !st.in_single && !st.in_double {
        if st.current.len() > 0 {
            SplitState { args: st.args.push(st.current), current: seq![], ..st }
        } else {
            st
        }
    } else {
        SplitState { current: st.current.push(c), ..st }
    }
}

/// The splitter's state once it has read `s` from position `i` on.
pub open spec fn split_run(s: Seq<char>, i: int, st: SplitState) -> SplitState
    decreases s.len() - i,
{
    if i < 0 || i >= s.len() {
        st
    } else {
        split_run(s, i + split_step_len(s, i, st), split_step(s, i, st))
    }
}

/// The arguments that `s` splits into.
pub open spec fn split_args(s: Seq<char>) -> Seq<Seq<char>> {
    split_finish(split_run(s, 0, split_start()))
}

/// The white-space separated words of `s`, in order (what
/// `str::split_whitespace` yields).
pub open spec fn words(s: Seq<char>) -> Seq<Seq<char>>
    decreases s.len(),
{
    let t = trim_start(s);
    if t.len() == 0 {
        seq![]
    } else {
        let w = word_prefix(t);
        proof {
            lemma_trim_start_shape(s);
            lemma_word_prefix_len(t);
        }
        seq![w] + words(t.skip(w.len() as int))
    }
}

pub proof fn lemma_trim_start_shape(s: Seq<char>)
    ensures
        trim_start(s).len() <= s.len(),
        trim_start(s).len() > 0 ==> !is_ws(trim_start(s)[0]),
    decreases s.len(),
{
    if s.len() > 0 && is_ws(s[0]) {
        lemma_trim_start_shape(s.drop_first());
    }
}

pub proof fn lemma_word_prefix_len(t: Seq<char>)
    ensures
        word_prefix(t).len() <= t.len(),
        t.len() > 0 && !is_ws(t[0]) ==> word_prefix(t).len() >= 1,
    decreases t.len(),
{
    if t.len() > 0 && !is_ws(t[0]) {
        lemma_word_prefix_len(t.drop_first());
    }
}

/// A prefix without white space belongs to the first word.
proof fn lemma_word_prefix_append(a: Seq<char>, b: Seq<char>)
    requires
        forall|k: int| 0 <= k < a.len() ==> !is_ws(#[trigger] a[k]),
    ensures
        word_prefix(a + b) == a + word_prefix(b),
    decreases a.len(),
{
    if a.len() > 0 {
        assert((a + b)[0] == a[0]);
        assert((a + b).drop_first() =~= a.drop_first() + b);
        lemma_word_prefix_append(a.drop_first(), b);
        assert(a =~= seq![a[0]] + a.drop_first());
        assert(seq![a[0]] + (a.drop_first() + word_prefix(b)) =~= a + word_prefix(b));
    } else {
        assert(a + b =~= b);
        assert(a + word_prefix(b) =~= word_prefix(b));
    }
}

/// Leading white space separates no word.
proof fn lemma_words_skip_space(c: char, t: Seq<char>)
    requires
        is_ws(c),
    ensures
        words(seq![c] + t) == words(t),
{
    let x = seq![c] + t;
    assert(x.drop_first() =~= t);
    assert(trim_start(x) == trim_start(t));
}

/// A run without white space followed by white space is one word.
proof fn lemma_words_cut(cur: Seq<char>, c: char, t: Seq<char>)
    requires
        cur.len() > 0,
        forall|k: int| 0 <= k < cur.len() ==> !is_ws(#[trigger] cur[k]),
        is_ws(c),
    ensures
        words(cur + (seq![c] + t)) == seq![cur] + words(t),
{
    let x = cur + (seq![c] + t);
    assert(x[0] == cur[0]);
    assert(trim_start(x) == x);
    lemma_word_prefix_append(cur, seq![c] + t);
    assert((seq![c] + t)[0] == c);
    assert(word_prefix(seq![c] + t) == Seq::<char>::empty());
    assert(word_prefix(x) =~= cur);
    assert(x.skip(cur.len() as int) =~= seq![c] + t);
    lemma_words_skip_space(c, t);
}

/// A run without white space at the end is the last word.
proof fn lemma_words_last(cur: Seq<char>)
    requires
        forall|k: int| 0 <= k < cur.len() ==> !is_ws(#[trigger] cur[k]),
    ensures
        words(cur) == (if cur.len() > 0 {
            seq![cur]
        } else {
            Seq::<Seq<char>>::empty()
        }),
{
    if cur.len() > 0 {
        assert(trim_start(cur) == cur);
        lemma_word_prefix_append(cur, Seq::<char>::empty());
        assert(cur + Seq::<char>::empty() =~= cur);
        assert(word_prefix(Seq::<char>::empty()) == Seq::<char>::empty());
        assert(word_prefix(cur) =~= cur);
        assert(cur.skip(cur.len() as int) =~= Seq::<char>::empty());
        assert(trim_start(Seq::<char>::empty()) == Seq::<char>::empty());
        assert(words(Seq::<char>::empty()) == Seq::<Seq<char>>::empty());
        assert(seq![cur] + Seq::<Seq<char>>::empty() =~= seq![cur]);
    } else {
        assert(trim_start(cur) == cur);
    }
}

/// The arguments collected once the splitter is done with its state.
pub open spec fn split_finish(st: SplitState) -> Seq<Seq<char>> {
    if st.current.len() > 0 {
        st.args.push(st.current)
    } else {
        st.args
    }
}

proof fn lemma_unquoted_run(s: Seq<char>, i: int, st: SplitState)
    requires
        0 <= i <= s.len(),
        forall|j: int| i <= j < s.len() ==> #[trigger] s[j] != '\'' && s[j] != '"',
        !st.in_single,
        !st.in_double,
        forall|k: int| 0 <= k < st.current.len() ==> !is_ws(#[trigger] st.current[k]),
    ensures
        split_finish(split_run(s, i, st)) == st.args + words(st.current + s.skip(i)),
    decreases s.len() - i,
{
    if i == s.len() {
        assert(st.current + s.skip(i) =~= st.current);
        lemma_words_last(st.current);
        if st.current.len() > 0 {
            assert(st.args.push(st.current) =~= st.args + seq![st.current]);
        } else {
            assert(st.args + Seq::<Seq<char>>::empty() =~= st.args);
        }
    } else {
        let c = s[i];
        assert(split_step_len(s, i, st) == 1);
        let nx = split_step(s, i, st);
        assert(s.skip(i) =~= seq![c] + s.skip(i + 1));
        if is_ws(c) {
            if st.current.len() > 0 {
                assert(nx.current == Seq::<char>::empty());
                lemma_unquoted_run(s, i + 1, nx);
                assert(nx.current + s.skip(i + 1) =~= s.skip(i + 1));
                lemma_words_cut(st.current, c, s.skip(i + 1));
                assert(st.args.push(st.current) + words(s.skip(i + 1)) =~= st.args + (seq![
                    st.current,
                ] + words(s.skip(i + 1))));
            } else {
                lemma_unquoted_run(s, i + 1, nx);
                assert(st.current + s.skip(i) =~= seq![c] + s.skip(i + 1));
                assert(st.current + s.skip(i + 1) =~= s.skip(i + 1));
                lemma_words_skip_space(c, s.skip(i + 1));
            }
        } else {
            assert(nx.current == st.current.push(c));
            lemma_unquoted_run(s, i + 1, nx);
            assert(st.current.push(c) + s.skip(i + 1) =~= st.current + s.skip(i));
        }
    }
}

/// On a command line without quotes, the splitter agrees with
/// `split_whitespace`: the arguments are the white-space separated words,
/// none of them empty, and backslashes are kept as written.
pub proof fn law_unquoted_split_is_whitespace_split(s: Seq<char>)
    requires
        !s.contains('\''),
        !s.contains('"'),
    ensures
        split_args(s) == words(s),
{
    assert forall|j: int| 0 <= j < s.len() implies #[trigger] s[j] != '\'' && s[j] != '"' by {
        if s[j] == '\'' {
            assert(s.contains('\''));
        }
        if s[j] == '"' {
            assert(s.contains('"'));
        }
    }
    lemma_unquoted_run(s, 0, split_start());
    assert(split_start().current + s.skip(0) =~= s);
    assert(split_start().args + words(s) =~= words(s));
}

pub open spec fn strings_view(v: Seq<String>) -> Seq<Seq<char>> {
    v.map_values(|a: String| a@)
}

/// Splits a command line into arguments, honouring single quotes, double
/// quotes and, inside double quotes, backslash escapes of `"` and `\`.
pub fn split_command_line_args(input: &str) -> (args: Vec<String>)
    ensures
        strings_view(args@) == split_args(input@),
{
    let s = chars_of(input);
    let n = s.len();
    let mut args: Vec<String> = Vec::new();
    let mut current: Vec<char> = Vec::new();
    let mut in_single = false;
    let mut in_double = false;
    let mut i: usize = 0;
    assert(strings_view(args@) =~= seq![]);
    assert(current@ =~= seq![]);
    while i < n
        invariant
            n == s@.len(),
            s@ == input@,
            i <= n,
            split_run(s@, i as int, SplitState {
                args: strings_view(args@),
                current: current@,
                in_single,
                in_double,
            }) == split_run(s@, 0, split_start()),
        decreases n - i,
    {
        let c = s[i];
        if c == '\'' && !in_double {
            in_single = !in_single;
            i += 1;
        } else if c == '"' && !in_single {
            in_double = !in_double;
            i += 1;
        } else if c == '\\' && in_double {
            if i + 1 < n && (s[i + 1] == '"' || s[i + 1] == '\\') {
                current.push(s[i + 1]);
                i += 2;
            } else {
                current.push('\\');
                i += 1;
            }
        } else if is_whitespace(c) && !in_single && !in_double {
            if current.len() > 0 {
                let ghost old_args = args@;
                args.push(string_of(current.as_slice()));
                assert(strings_view(args@) =~= strings_view(old_args).push(current@));
                current = Vec::new();
            }
            i += 1;
        } else {
            current.push(c);
            i += 1;
        }
    }
    if current.len() > 0 {
        let ghost old_args = args@;
        args.push(string_of(current.as_slice()));
        assert(strings_view(args@) =~= strings_view(old_args).push(current@));
    }
    args
}

} // verus!
