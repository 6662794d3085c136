//! State of the toolbox's background tasks, one per tool, and the last
//! result each tool produced.
//!
//! A task starts as `running`; it ends once, with `completed`, `failed` or
//! `cancelled`. An ending or a stage change only applies to the run that is
//! still running, so a late report of an earlier or cancelled run changes
//! nothing.

use vstd::prelude::*;

use crate::arguments::strings_view;
use crate::keys::{
    distinct, has_key, key_index, lemma_insert_key, lemma_insert_sorted, lemma_key_index,
    lemma_key_index_found, lemma_lex_irreflexive, lemma_lex_total, lemma_lex_transitive,
    lemma_sorted_distinct, lex_lt, sorted_keys, str_lt,
};
use crate::numbers::{decimal, i64_to_string, signed_decimal, u64_to_string};
use crate::source::opt_str_view;
use crate::text::{concat, owned, str_eq};

verus! {

/// The state of one tool's current (or last) task.
#[derive(Debug)]
pub struct ToolTaskStateRecord {
    pub tool_id: String,
    pub run_id: String,
    pub status: String,
    pub url: String,
    pub stage: Option<String>,
    /// Progress in whole percent.
    pub progress: Option<u32>,
    pub error: Option<String>,
    pub started_at: i64,
    pub updated_at: i64,
}

/// A task state with its texts taken by their characters.
pub struct TaskModel {
    pub tool_id: Seq<char>,
    pub run_id: Seq<char>,
    pub status: Seq<char>,
    pub url: Seq<char>,
    pub stage: Option<Seq<char>>,
    pub progress: Option<int>,
    pub error: Option<Seq<char>>,
    pub started_at: int,
    pub updated_at: int,
}

pub open spec fn opt_u32_view(o: Option<u32>) -> Option<int> {
    match o {
        Some(p) => Some(p as int),
        None => None,
    }
}

pub open spec fn opt_str_ref_view(o: Option<&str>) -> Option<Seq<char>> {
    match o {
        Some(s) => Some(s@),
        None => None,
    }
}

impl View for ToolTaskStateRecord {
    type V = TaskModel;

    open spec fn view(&self) -> TaskModel {
        TaskModel {
            tool_id: self.tool_id@,
            run_id: self.run_id@,
            status: self.status@,
            url: self.url@,
            stage: opt_str_view(self.stage),
            progress: opt_u32_view(self.progress),
            error: opt_str_view(self.error),
            started_at: self.started_at as int,
            updated_at: self.updated_at as int,
        }
    }
}

pub open spec fn opt_model(o: Option<ToolTaskStateRecord>) -> Option<TaskModel> {
    match o {
        Some(r) => Some(r@),
        None => None,
    }
}

fn copy_text(o: &Option<String>) -> (r: Option<String>)
    ensures
        opt_str_view(r) == opt_str_view(*o),
{
    match o {
        Some(s) => Some(owned(s.as_str())),
        None => None,
    }
}

fn text_of(o: Option<&str>) -> (r: Option<String>)
    ensures
        opt_str_view(r) == opt_str_ref_view(o),
{
    match o {
        Some(s) => Some(owned(s)),
        None => None,
    }
}

impl ToolTaskStateRecord {
    /// A copy with the same texts and numbers.
    pub fn duplicate(&self) -> (r: ToolTaskStateRecord)
        ensures
            r@ == self@,
    {
        ToolTaskStateRecord {
            tool_id: owned(self.tool_id.as_str()),
            run_id: owned(self.run_id.as_str()),
            status: owned(self.status.as_str()),
            url: owned(self.url.as_str()),
            stage: copy_text(&self.stage),
            progress: self.progress,
            error: copy_text(&self.error),
            started_at: self.started_at,
            updated_at: self.updated_at,
        }
    }
}

pub open spec fn is_running(m: TaskModel) -> bool {
    m.status == "running"@
}

/// A fresh run: `running`, at stage `preparing`, progress 0, no error.
pub open spec fn started(tool: Seq<char>, run: Seq<char>, url: Seq<char>, now: int) -> TaskModel {
    TaskModel {
        tool_id: tool,
        run_id: run,
        status: "running"@,
        url: url,
        stage: Some("preparing"@),
        progress: Some(0),
        error: None,
        started_at: now,
        updated_at: now,
    }
}

/// Starting is refused while the tool's task is running; otherwise the
/// fresh run replaces whatever state the tool had.
pub open spec fn start_outcome(
    current: Option<TaskModel>,
    tool: Seq<char>,
    run: Seq<char>,
    url: Seq<char>,
    now: int,
) -> Result<TaskModel, Seq<char>> {
    match current {
        Some(m) => if is_running(m) {
            Err("err_tool_already_running"@)
        } else {
            Ok(started(tool, run, url, now))
        },
        None => Ok(started(tool, run, url, now)),
    }
}

/// An ending or a stage change of `run` applies only while `run` is the
/// tool's running task.
pub open spec fn applies(current: Option<TaskModel>, run: Seq<char>) -> bool {
    current matches Some(m) && m.run_id == run && is_running(m)
}

/// The state after the run ends with `status`: no stage, progress 100 when
/// completed, the given error.
pub open spec fn finished(m: TaskModel, status: Seq<char>, error: Option<Seq<char>>, now: int) -> TaskModel {
    TaskModel {
        tool_id: m.tool_id,
        run_id: m.run_id,
        status: status,
        url: m.url,
        stage: None,
        progress: if status == "completed"@ {
            Some(100)
        } else {
            m.progress
        },
        error: error,
        started_at: m.started_at,
        updated_at: now,
    }
}

pub open spec fn staged(m: TaskModel, stage: Seq<char>, now: int) -> TaskModel {
    TaskModel {
        tool_id: m.tool_id,
        run_id: m.run_id,
        status: m.status,
        url: m.url,
        stage: Some(stage),
        progress: m.progress,
        error: m.error,
        started_at: m.started_at,
        updated_at: now,
    }
}

/// The state after an application restart cut a running task short.
pub open spec fn interrupted(m: TaskModel, now: int) -> TaskModel {
    TaskModel {
        tool_id: m.tool_id,
        run_id: m.run_id,
        status: "interrupted"@,
        url: m.url,
        stage: m.stage,
        progress: m.progress,
        error: Some("application restarted"@),
        started_at: m.started_at,
        updated_at: now,
    }
}

/// Starts `run_id` for `tool_id` given the tool's stored state.
pub fn start_transition(
    current: Option<&ToolTaskStateRecord>,
    tool_id: &str,
    run_id: &str,
    url: &str,
    now: i64,
) -> (r: Result<ToolTaskStateRecord, String>)
    ensures
        match start_outcome(
            match current {
                Some(c) => Some(c@),
                None => None,
            },
            tool_id@,
            run_id@,
            url@,
            now as int,
        ) {
            Ok(m) => r matches Ok(x) && x@ == m,
            Err(e) => r matches Err(x) && x@ == e,
        },
{
    if let Some(c) = current {
        if str_eq(c.status.as_str(), "running") {
            return Err(owned("err_tool_already_running"));
        }
    }
    Ok(ToolTaskStateRecord {
        tool_id: owned(tool_id),
        run_id: owned(run_id),
        status: owned("running"),
        url: owned(url),
        stage: Some(owned("preparing")),
        progress: Some(0),
        error: None,
        started_at: now,
        updated_at: now,
    })
}

/// Ends `run_id` with `status` when it is still the running task of
/// `current`'s tool; `None` when the ending does not apply.
pub fn finish_transition(
    current: &ToolTaskStateRecord,
    run_id: &str,
    status: &str,
    error: Option<&str>,
    now: i64,
) -> (r: Option<ToolTaskStateRecord>)
    ensures
        applies(Some(current@), run_id@) ==> (r matches Some(x) && x@ == finished(
            current@,
            status@,
            opt_str_ref_view(error),
            now as int,
        )),
        !applies(Some(current@), run_id@) ==> r is None,
{
    if !str_eq(current.run_id.as_str(), run_id) || !str_eq(current.status.as_str(), "running") {
        return None;
    }
    proof {
        reveal_strlit("completed");
    }
    let completed = str_eq(status, "completed");
    Some(ToolTaskStateRecord {
        tool_id: owned(current.tool_id.as_str()),
        run_id: owned(current.run_id.as_str()),
        status: owned(status),
        url: owned(current.url.as_str()),
        stage: None,
        progress: if completed {
            Some(100)
        } else {
            current.progress
        },
        error: text_of(error),
        started_at: current.started_at,
        updated_at: now,
    })
}

/// Moves `run_id` to `stage` when it is still the running task of
/// `current`'s tool; `None` when the change does not apply.
pub fn stage_transition(current: &ToolTaskStateRecord, run_id: &str, stage: &str, now: i64) -> (r:
    Option<ToolTaskStateRecord>)
    ensures
        applies(Some(current@), run_id@) ==> (r matches Some(x) && x@ == staged(
            current@,
            stage@,
            now as int,
        )),
        !applies(Some(current@), run_id@) ==> r is None,
{
    if !str_eq(current.run_id.as_str(), run_id) || !str_eq(current.status.as_str(), "running") {
        return None;
    }
    Some(ToolTaskStateRecord {
        tool_id: owned(current.tool_id.as_str()),
        run_id: owned(current.run_id.as_str()),
        status: owned(current.status.as_str()),
        url: owned(current.url.as_str()),
        stage: Some(owned(stage)),
        progress: current.progress,
        error: copy_text(&current.error),
        started_at: current.started_at,
        updated_at: now,
    })
}

/// Marks a task that was running when the application stopped as
/// `interrupted`; other states are kept.
pub fn interrupt_transition(current: &ToolTaskStateRecord, now: i64) -> (r: ToolTaskStateRecord)
    ensures
        is_running(current@) ==> r@ == interrupted(current@, now as int),
        !is_running(current@) ==> r@ == current@,
{
    if !str_eq(current.status.as_str(), "running") {
        return current.duplicate();
    }
    ToolTaskStateRecord {
        tool_id: owned(current.tool_id.as_str()),
        run_id: owned(current.run_id.as_str()),
        status: owned("interrupted"),
        url: owned(current.url.as_str()),
        stage: copy_text(&current.stage),
        progress: current.progress,
        error: Some(owned("application restarted")),
        started_at: current.started_at,
        updated_at: now,
    }
}

/// The last result a tool produced: inline JSON, or a paged result kept in
/// a file beside it.
#[derive(Debug)]
pub struct ToolResultRecord {
    pub tool_id: String,
    pub run_id: String,
    pub result_type: String,
    pub result_json: Option<String>,
    pub total: i64,
    pub completed_at: i64,
}

pub struct ResultModel {
    pub tool_id: Seq<char>,
    pub run_id: Seq<char>,
    pub result_type: Seq<char>,
    pub result_json: Option<Seq<char>>,
    pub result_file: Option<Seq<char>>,
    pub total: int,
    pub completed_at: int,
}

pub open spec fn result_model(rec: ToolResultRecord, file: Option<String>) -> ResultModel {
    ResultModel {
        tool_id: rec.tool_id@,
        run_id: rec.run_id@,
        result_type: rec.result_type@,
        result_json: opt_str_view(rec.result_json),
        result_file: opt_str_view(file),
        total: rec.total as int,
        completed_at: rec.completed_at as int,
    }
}

pub open spec fn json_result(tool: Seq<char>, run: Seq<char>, json: Seq<char>, total: int, now: int) -> ResultModel {
    ResultModel {
        tool_id: tool,
        run_id: run,
        result_type: "json"@,
        result_json: Some(json),
        result_file: None,
        total: total,
        completed_at: now,
    }
}

pub open spec fn paged_result(tool: Seq<char>, run: Seq<char>, file: Seq<char>, total: int, now: int) -> ResultModel {
    ResultModel {
        tool_id: tool,
        run_id: run,
        result_type: "paged"@,
        result_json: None,
        result_file: Some(file),
        total: total,
        completed_at: now,
    }
}

impl ToolResultRecord {
    pub fn duplicate(&self) -> (r: ToolResultRecord)
        ensures
            r.tool_id@ == self.tool_id@,
            r.run_id@ == self.run_id@,
            r.result_type@ == self.result_type@,
            opt_str_view(r.result_json) == opt_str_view(self.result_json),
            r.total == self.total,
            r.completed_at == self.completed_at,
    {
        ToolResultRecord {
            tool_id: owned(self.tool_id.as_str()),
            run_id: owned(self.run_id.as_str()),
            result_type: owned(self.result_type.as_str()),
            result_json: copy_text(&self.result_json),
            total: self.total,
            completed_at: self.completed_at,
        }
    }
}

pub open spec fn finish_model(
    current: Option<TaskModel>,
    run: Seq<char>,
    status: Seq<char>,
    error: Option<Seq<char>>,
    now: int,
) -> Option<TaskModel> {
    if applies(current, run) {
        Some(finished(current->0, status, error, now))
    } else {
        None
    }
}

pub open spec fn stage_model(current: Option<TaskModel>, run: Seq<char>, stage: Seq<char>, now: int) -> Option<TaskModel> {
    if applies(current, run) {
        Some(staged(current->0, stage, now))
    } else {
        None
    }
}

/// The ids of the running tasks among `s`, in the order of `s`.
pub open spec fn running_ids(s: Seq<TaskModel>) -> Seq<Seq<char>>
    decreases s.len(),
{
    if s.len() == 0 {
        seq![]
    } else if is_running(s.last()) {
        running_ids(s.drop_last()).push(s.last().tool_id)
    } else {
        running_ids(s.drop_last())
    }
}

/// The task states of all tools and their last results, each tool at most
/// once in each.
pub struct ToolTaskStore {
    states: Vec<ToolTaskStateRecord>,
    results: Vec<(ToolResultRecord, Option<String>)>,
}

impl ToolTaskStore {
    closed spec fn models(&self) -> Seq<TaskModel> {
        self.states@.map_values(|r: ToolTaskStateRecord| r@)
    }

    closed spec fn state_ids(&self) -> Seq<Seq<char>> {
        self.states@.map_values(|r: ToolTaskStateRecord| r.tool_id@)
    }

    closed spec fn result_ids(&self) -> Seq<Seq<char>> {
        self.results@.map_values(|e: (ToolResultRecord, Option<String>)| e.0.tool_id@)
    }

    #[verifier::type_invariant]
    closed spec fn wf(&self) -> bool {
        sorted_keys(self.state_ids()) && distinct(self.result_ids())
    }

    /// The task state stored for `tool`.
    pub closed spec fn state(&self, tool: Seq<char>) -> Option<TaskModel> {
        if has_key(self.state_ids(), tool) {
            Some(self.states@[key_index(self.state_ids(), tool)]@)
        } else {
            None
        }
    }

    /// The last result stored for `tool`.
    pub closed spec fn result(&self, tool: Seq<char>) -> Option<ResultModel> {
        if has_key(self.result_ids(), tool) {
            let e = self.results@[key_index(self.result_ids(), tool)];
            Some(result_model(e.0, e.1))
        } else {
            None
        }
    }

    /// A stored state belongs to the tool it is stored under.
    pub proof fn lemma_state_tool(&self, tool: Seq<char>)
        ensures
            self.state(tool) matches Some(m) ==> m.tool_id == tool,
    {
        if has_key(self.state_ids(), tool) {
            lemma_key_index_found(self.state_ids(), tool);
        }
    }

    /// No task states and no results.
    pub fn new() -> (r: ToolTaskStore)
        ensures
            forall|k: Seq<char>| #[trigger] r.state(k) is None,
            forall|k: Seq<char>| #[trigger] r.result(k) is None,
    {
        let r = ToolTaskStore { states: Vec::new(), results: Vec::new() };
        assert(r.state_ids() =~= Seq::<Seq<char>>::empty());
        assert(r.result_ids() =~= Seq::<Seq<char>>::empty());
        r
    }

    fn find_state(&self, tool: &str) -> (r: Option<usize>)
        ensures
            match r {
                Some(i) => i < self.states@.len() && self.state_ids()[i as int] == tool@,
                None => !has_key(self.state_ids(), tool@),
            },
    {
        let n = self.states.len();
        let mut i: usize = 0;
        while i < n
            invariant
                n == self.states@.len(),
                i <= n,
                forall|j: int| 0 <= j < i ==> self.state_ids()[j] != tool@,
            decreases n - i,
        {
            if str_eq(self.states[i].tool_id.as_str(), tool) {
                return Some(i);
            }
            i += 1;
        }
        None
    }

    /// The first position whose tool does not come before `tool`.
    fn state_slot(&self, tool: &str) -> (r: usize)
        ensures
            r <= self.states@.len(),
            forall|j: int| 0 <= j < r ==> lex_lt(#[trigger] self.state_ids()[j], tool@),
            r < self.states@.len() ==> !lex_lt(self.state_ids()[r as int], tool@),
    {
        let n = self.states.len();
        let mut i: usize = 0;
        while i < n
            invariant
                n == self.states@.len(),
                i <= n,
                forall|j: int| 0 <= j < i ==> lex_lt(#[trigger] self.state_ids()[j], tool@),
            decreases n - i,
        {
            if !str_lt(self.states[i].tool_id.as_str(), tool) {
                return i;
            }
            i += 1;
        }
        n
    }

    /// Stores `rec` as the state of its tool.
    fn put_state(&mut self, rec: ToolTaskStateRecord)
        ensures
            forall|k: Seq<char>|
                #[trigger] final(self).state(k) == (if k == rec.tool_id@ {
                    Some(rec@)
                } else {
                    old(self).state(k)
                }),
            forall|k: Seq<char>| #[trigger] final(self).result(k) == old(self).result(k),
    {
        proof {
            use_type_invariant(&*self);
            lemma_sorted_distinct(self.state_ids());
        }
        let ghost old_ids = self.state_ids();
        let ghost old_states = self.states@;
        let ghost key = rec.tool_id@;
        let p = self.state_slot(rec.tool_id.as_str());
        let found = p < self.states.len() && str_eq(self.states[p].tool_id.as_str(), rec.tool_id.as_str());
        let mut states: Vec<ToolTaskStateRecord> = Vec::new();
        std::mem::swap(&mut states, &mut self.states);
        if found {
            states.set(p, rec);
            let ghost new_ids = states@.map_values(|r: ToolTaskStateRecord| r.tool_id@);
            assert(new_ids =~= old_ids);
            self.states = states;
            assert(self.state_ids() =~= old_ids);
            proof {
                lemma_key_index(old_ids, p as int);
                assert forall|k: Seq<char>| #[trigger] self.state(k) == (if k == key {
                    Some(self.states@[p as int]@)
                } else {
                    old(self).state(k)
                }) by {
                    if k != key && has_key(old_ids, k) {
                        lemma_key_index_found(old_ids, k);
                    }
                }
            }
        } else {
            proof {
                if p < old_ids.len() {
                    lemma_lex_total(old_ids[p as int], key);
                }
                assert forall|j: int| 0 <= j < old_ids.len() implies old_ids[j] != key by {
                    if j < p {
                        lemma_lex_irreflexive(key);
                    } else if j > p {
                        lemma_lex_transitive(key, old_ids[p as int], old_ids[j]);
                        lemma_lex_irreflexive(key);
                    }
                }
                lemma_insert_key(old_ids, p as int, key);
                lemma_insert_sorted(old_ids, p as int, key);
            }
            states.insert(p, rec);
            let ghost new_ids = states@.map_values(|r: ToolTaskStateRecord| r.tool_id@);
            assert(new_ids =~= old_ids.insert(p as int, key));
            self.states = states;
            assert(self.state_ids() =~= old_ids.insert(p as int, key));
            proof {
                assert forall|k: Seq<char>| #[trigger] self.state(k) == (if k == key {
                    Some(self.states@[p as int]@)
                } else {
                    old(self).state(k)
                }) by {
                    if k != key && has_key(old_ids, k) {
                        lemma_key_index_found(old_ids, k);
                    }
                }
            }
        }
        assert(self.results@ == old(self).results@);
    }
    /// The state stored for `tool_id`.
    pub fn get_state(&self, tool_id: &str) -> (r: Option<ToolTaskStateRecord>)
        ensures
            opt_model(r) == self.state(tool_id@),
    {
        match self.find_state(tool_id) {
            Some(i) => {
                proof {
                    use_type_invariant(self);
                    lemma_sorted_distinct(self.state_ids());
                    lemma_key_index(self.state_ids(), i as int);
                }
                Some(self.states[i].duplicate())
            },
            None => None,
        }
    }

    /// Starts `run_id` for `tool_id` at `now`: refused with
    /// `err_tool_already_running` while the tool's task runs; otherwise the
    /// fresh running state replaces the tool's state and is returned. Other
    /// tools are not touched.
    pub fn start_state(&mut self, tool_id: &str, run_id: &str, url: &str, now: i64) -> (r: Result<
        ToolTaskStateRecord,
        String,
    >)
        ensures
            match start_outcome(old(self).state(tool_id@), tool_id@, run_id@, url@, now as int) {
                Ok(m) => {
                    &&& r matches Ok(x) && x@ == m
                    &&& final(self).state(tool_id@) == Some(m)
                },
                Err(e) => {
                    &&& r matches Err(x) && x@ == e
                    &&& final(self).state(tool_id@) == old(self).state(tool_id@)
                },
            },
            forall|k: Seq<char>|
                k != tool_id@ ==> #[trigger] final(self).state(k) == old(self).state(k),
            forall|k: Seq<char>| #[trigger] final(self).result(k) == old(self).result(k),
    {
        let current = self.get_state(tool_id);
        let rec = match current {
            Some(c) => start_transition(Some(&c), tool_id, run_id, url, now),
            None => start_transition(None, tool_id, run_id, url, now),
        };
        match rec {
            Ok(rec) => {
                let out = rec.duplicate();
                self.put_state(rec);
                Ok(out)
            },
            Err(e) => Err(e),
        }
    }

    /// Ends `run_id` of `tool_id` with `status` and `error` at `now`, when
    /// it is still the tool's running task; otherwise nothing changes and
    /// `None` comes back.
    pub fn finish_state(
        &mut self,
        tool_id: &str,
        run_id: &str,
        status: &str,
        error: Option<&str>,
        now: i64,
    ) -> (r: Option<ToolTaskStateRecord>)
        ensures
            opt_model(r) == finish_model(
                old(self).state(tool_id@),
                run_id@,
                status@,
                opt_str_ref_view(error),
                now as int,
            ),
            forall|k: Seq<char>|
                #[trigger] final(self).state(k) == (if k == tool_id@ && r is Some {
                    opt_model(r)
                } else {
                    old(self).state(k)
                }),
            forall|k: Seq<char>| #[trigger] final(self).result(k) == old(self).result(k),
    {
        proof {
            self.lemma_state_tool(tool_id@);
        }
        match self.get_state(tool_id) {
            None => None,
            Some(c) => match finish_transition(&c, run_id, status, error, now) {
                None => None,
                Some(rec) => {
                    let out = rec.duplicate();
                    self.put_state(rec);
                    Some(out)
                },
            },
        }
    }

    /// Moves `run_id` of `tool_id` to `stage` at `now`, when it is still the
    /// tool's running task; otherwise nothing changes and `None` comes back.
    pub fn update_running_stage(&mut self, tool_id: &str, run_id: &str, stage: &str, now: i64) -> (r:
        Option<ToolTaskStateRecord>)
        ensures
            opt_model(r) == stage_model(old(self).state(tool_id@), run_id@, stage@, now as int),
            forall|k: Seq<char>|
                #[trigger] final(self).state(k) == (if k == tool_id@ && r is Some {
                    opt_model(r)
                } else {
                    old(self).state(k)
                }),
            forall|k: Seq<char>| #[trigger] final(self).result(k) == old(self).result(k),
    {
        proof {
            self.lemma_state_tool(tool_id@);
        }
        match self.get_state(tool_id) {
            None => None,
            Some(c) => match stage_transition(&c, run_id, stage, now) {
                None => None,
                Some(rec) => {
                    let out = rec.duplicate();
                    self.put_state(rec);
                    Some(out)
                },
            },
        }
    }
    /// The tools whose task is running, each once, in the order of their
    /// ids.
    pub fn get_running_tool_ids(&self) -> (r: Vec<String>)
        ensures
            sorted_keys(strings_view(r@)),
            forall|k: Seq<char>|
                #[trigger] strings_view(r@).contains(k) <==> (self.state(k) matches Some(m)
                    && is_running(m)),
    {
        proof {
            use_type_invariant(self);
            lemma_sorted_distinct(self.state_ids());
        }
        let n = self.states.len();
        let mut r: Vec<String> = Vec::new();
        let mut i: usize = 0;
        while i < n
            invariant
                n == self.states@.len(),
                i <= n,
                strings_view(r@) == running_ids(self.models().take(i as int)),
            decreases n - i,
        {
            proof {
                assert(self.models().take(i + 1).drop_last() =~= self.models().take(i as int));
            }
            if str_eq(self.states[i].status.as_str(), "running") {
                r.push(owned(self.states[i].tool_id.as_str()));
                assert(strings_view(r@) =~= running_ids(self.models().take(i as int)).push(
                    self.states@[i as int].tool_id@,
                ));
            }
            i += 1;
        }
        proof {
            let m = self.models();
            assert(m.take(n as int) =~= m);
            let ids = m.map_values(|t: TaskModel| t.tool_id);
            assert(ids =~= self.state_ids());
            lemma_running_ids_sorted(m);
            lemma_running_ids_members(m);
            assert forall|k: Seq<char>|
                #[trigger] strings_view(r@).contains(k) <==> (self.state(k) matches Some(t)
                    && is_running(t)) by {
                if strings_view(r@).contains(k) {
                    let j = choose|j: int| 0 <= j < m.len() && m[j].tool_id == k && is_running(m[j]);
                    assert(self.state_ids()[j] == k);
                    lemma_key_index(self.state_ids(), j);
                }
                if self.state(k) matches Some(t) && is_running(t) {
                    lemma_key_index_found(self.state_ids(), k);
                    let j = key_index(self.state_ids(), k);
                    assert(m[j].tool_id == k && is_running(m[j]));
                }
            }
        }
        r
    }
}

impl ToolTaskStore {
    /// Marks every running task `interrupted` with the error `application
    /// restarted`, as the application does when it starts again.
    pub fn interrupt_running(&mut self, now: i64)
        ensures
            forall|k: Seq<char>|
                #[trigger] final(self).state(k) == match old(self).state(k) {
                    Some(m) => Some(
                        if is_running(m) {
                            interrupted(m, now as int)
                        } else {
                            m
                        },
                    ),
                    None => None,
                },
            forall|k: Seq<char>| #[trigger] final(self).result(k) == old(self).result(k),
    {
        proof {
            use_type_invariant(&*self);
        }
        let ghost old_ids = self.state_ids();
        let mut states: Vec<ToolTaskStateRecord> = Vec::new();
        std::mem::swap(&mut states, &mut self.states);
        let n = states.len();
        let mut out: Vec<ToolTaskStateRecord> = Vec::new();
        let mut i: usize = 0;
        while i < n
            invariant
                n == states@.len(),
                i <= n,
                out@.len() == i,
                forall|j: int|
                    0 <= j < i ==> (#[trigger] out@[j])@ == (if is_running(states@[j]@) {
                        interrupted(states@[j]@, now as int)
                    } else {
                        states@[j]@
                    }),
            decreases n - i,
        {
            out.push(interrupt_transition(&states[i], now));
            i += 1;
        }
        let ghost new_ids = out@.map_values(|r: ToolTaskStateRecord| r.tool_id@);
        assert(new_ids =~= old_ids);
        self.states = out;
        assert(self.state_ids() =~= old_ids);
        assert(self.results@ == old(self).results@);
    }

    fn find_result(&self, tool: &str) -> (r: Option<usize>)
        ensures
            match r {
                Some(i) => i < self.results@.len() && self.result_ids()[i as int] == tool@,
                None => !has_key(self.result_ids(), tool@),
            },
    {
        let n = self.results.len();
        let mut i: usize = 0;
        while i < n
            invariant
                n == self.results@.len(),
                i <= n,
                forall|j: int| 0 <= j < i ==> self.result_ids()[j] != tool@,
            decreases n - i,
        {
            if str_eq(self.results[i].0.tool_id.as_str(), tool) {
                return Some(i);
            }
            i += 1;
        }
        None
    }

    /// Stores `rec` with `file` as the last result of its tool.
    fn put_result(&mut self, rec: ToolResultRecord, file: Option<String>)
        ensures
            forall|k: Seq<char>|
                #[trigger] final(self).result(k) == (if k == rec.tool_id@ {
                    Some(result_model(rec, file))
                } else {
                    old(self).result(k)
                }),
            forall|k: Seq<char>| #[trigger] final(self).state(k) == old(self).state(k),
    {
        proof {
            use_type_invariant(&*self);
        }
        let ghost old_ids = self.result_ids();
        let ghost key = rec.tool_id@;
        let ghost model = result_model(rec, file);
        let found = self.find_result(rec.tool_id.as_str());
        let mut results: Vec<(ToolResultRecord, Option<String>)> = Vec::new();
        std::mem::swap(&mut results, &mut self.results);
        match found {
            Some(p) => {
                results.set(p, (rec, file));
                let ghost new_ids = results@.map_values(
                    |e: (ToolResultRecord, Option<String>)| e.0.tool_id@,
                );
                assert(new_ids =~= old_ids);
                self.results = results;
                assert(self.result_ids() =~= old_ids);
                proof {
                    lemma_key_index(old_ids, p as int);
                    assert forall|k: Seq<char>| #[trigger] self.result(k) == (if k == key {
                        Some(model)
                    } else {
                        old(self).result(k)
                    }) by {
                        if k != key && has_key(old_ids, k) {
                            lemma_key_index_found(old_ids, k);
                        }
                    }
                }
            },
            None => {
                let ghost p = old_ids.len();
                proof {
                    lemma_insert_key(old_ids, p as int, key);
                }
                results.push((rec, file));
                let ghost new_ids = results@.map_values(
                    |e: (ToolResultRecord, Option<String>)| e.0.tool_id@,
                );
                assert(new_ids =~= old_ids.insert(p as int, key));
                self.results = results;
                assert(self.result_ids() =~= old_ids.insert(p as int, key));
                proof {
                    assert forall|k: Seq<char>| #[trigger] self.result(k) == (if k == key {
                        Some(model)
                    } else {
                        old(self).result(k)
                    }) by {
                        if k != key && has_key(old_ids, k) {
                            lemma_key_index_found(old_ids, k);
                        }
                    }
                }
            },
        }
        assert(self.states@ == old(self).states@);
    }

    /// Keeps `result_json` (with `total` items) as the last result of
    /// `tool_id`, replacing an earlier one.
    pub fn save_json_result(
        &mut self,
        tool_id: &str,
        run_id: &str,
        result_json: &str,
        total: i64,
        now: i64,
    )
        ensures
            final(self).result(tool_id@) == Some(
                json_result(tool_id@, run_id@, result_json@, total as int, now as int),
            ),
            forall|k: Seq<char>|
                k != tool_id@ ==> #[trigger] final(self).result(k) == old(self).result(k),
            forall|k: Seq<char>| #[trigger] final(self).state(k) == old(self).state(k),
    {
        let rec = ToolResultRecord {
            tool_id: owned(tool_id),
            run_id: owned(run_id),
            result_type: owned("json"),
            result_json: Some(owned(result_json)),
            total: total,
            completed_at: now,
        };
        self.put_result(rec, None);
    }

    /// Keeps the paged result in `relative_file` (with `total` items) as the
    /// last result of `tool_id`, and hands back the file of the result it
    /// replaces, if that one had a file.
    pub fn save_file_result(
        &mut self,
        tool_id: &str,
        run_id: &str,
        relative_file: &str,
        total: i64,
        now: i64,
    ) -> (r: Option<String>)
        ensures
            opt_str_view(r) == match old(self).result(tool_id@) {
                Some(m) => m.result_file,
                None => None,
            },
            final(self).result(tool_id@) == Some(
                paged_result(tool_id@, run_id@, relative_file@, total as int, now as int),
            ),
            forall|k: Seq<char>|
                k != tool_id@ ==> #[trigger] final(self).result(k) == old(self).result(k),
            forall|k: Seq<char>| #[trigger] final(self).state(k) == old(self).state(k),
    {
        proof {
            use_type_invariant(&*self);
        }
        let previous = match self.find_result(tool_id) {
            Some(i) => {
                proof {
                    lemma_key_index(self.result_ids(), i as int);
                }
                copy_text(&self.results[i].1)
            },
            None => None,
        };
        let rec = ToolResultRecord {
            tool_id: owned(tool_id),
            run_id: owned(run_id),
            result_type: owned("paged"),
            result_json: None,
            total: total,
            completed_at: now,
        };
        self.put_result(rec, Some(owned(relative_file)));
        previous
    }

    /// The last result of `tool_id` with the file of a paged result.
    pub fn get_result(&self, tool_id: &str) -> (r: Option<(ToolResultRecord, Option<String>)>)
        ensures
            match r {
                Some(e) => self.result(tool_id@) == Some(result_model(e.0, e.1)),
                None => self.result(tool_id@) is None,
            },
    {
        match self.find_result(tool_id) {
            Some(i) => {
                proof {
                    use_type_invariant(self);
                    lemma_key_index(self.result_ids(), i as int);
                }
                Some((self.results[i].0.duplicate(), copy_text(&self.results[i].1)))
            },
            None => None,
        }
    }
}

/// Cancels `run_id` of `tool_id`: writes `cancelled` first, and only then
/// may the caller kill the run's process. The new state comes back when it
/// was written, and then the caller kills; `None` means the task was no
/// longer running (it may just have completed), so nothing may be killed.
pub fn cancel_state_then_kill(store: &mut ToolTaskStore, tool_id: &str, run_id: &str, now: i64) -> (r:
    Option<ToolTaskStateRecord>)
    ensures
        opt_model(r) == finish_model(old(store).state(tool_id@), run_id@, "cancelled"@, None, now as int),
        forall|k: Seq<char>|
            #[trigger] final(store).state(k) == (if k == tool_id@ && r is Some {
                opt_model(r)
            } else {
                old(store).state(k)
            }),
        forall|k: Seq<char>| #[trigger] final(store).result(k) == old(store).result(k),
{
    store.finish_state(tool_id, run_id, "cancelled", None, now)
}

pub open spec fn run_id_of(tool: Seq<char>, now: int, seq: nat) -> Seq<char> {
    tool + "_"@ + signed_decimal(now) + "_"@ + decimal(seq)
}

/// The id of a new run: the tool, the start time and a sequence number,
/// joined by `_`.
pub fn make_run_id(tool_id: &str, now: i64, seq: u64) -> (r: String)
    ensures
        r@ == run_id_of(tool_id@, now as int, seq as nat),
{
    let a = concat(tool_id, "_");
    let b = i64_to_string(now);
    let c = concat(a.as_str(), b.as_str());
    let d = concat(c.as_str(), "_");
    let e = u64_to_string(seq);
    concat(d.as_str(), e.as_str())
}

pub proof fn lemma_running_ids_members(s: Seq<TaskModel>)
    ensures
        forall|k: Seq<char>|
            #[trigger] running_ids(s).contains(k) <==> exists|j: int|
                0 <= j < s.len() && s[j].tool_id == k && is_running(s[j]),
    decreases s.len(),
{
    if s.len() > 0 {
        let d = s.drop_last();
        lemma_running_ids_members(d);
        assert forall|k: Seq<char>|
            #[trigger] running_ids(s).contains(k) <==> exists|j: int|
                0 <= j < s.len() && s[j].tool_id == k && is_running(s[j]) by {
            if running_ids(s).contains(k) {
                if running_ids(d).contains(k) {
                    let j = choose|j: int| 0 <= j < d.len() && d[j].tool_id == k && is_running(d[j]);
                    assert(s[j] == d[j]);
                } else {
                    assert(is_running(s.last()));
                    let r = running_ids(d).push(s.last().tool_id);
                    let i = choose|i: int| 0 <= i < r.len() && r[i] == k;
                    assert(s[s.len() - 1].tool_id == k);
                }
            }
            if exists|j: int| 0 <= j < s.len() && s[j].tool_id == k && is_running(s[j]) {
                let j = choose|j: int| 0 <= j < s.len() && s[j].tool_id == k && is_running(s[j]);
                if j < s.len() - 1 {
                    assert(d[j] == s[j]);
                    assert(running_ids(d).contains(k));
                    if is_running(s.last()) {
                        let r = running_ids(d).push(s.last().tool_id);
                        let i = choose|i: int| 0 <= i < running_ids(d).len() && running_ids(d)[i] == k;
                        assert(r[i] == k);
                    }
                } else {
                    let r = running_ids(d).push(s.last().tool_id);
                    assert(r[r.len() - 1] == k);
                }
            }
        }
    }
}

pub proof fn lemma_running_ids_sorted(s: Seq<TaskModel>)
    requires
        sorted_keys(s.map_values(|t: TaskModel| t.tool_id)),
    ensures
        sorted_keys(running_ids(s)),
    decreases s.len(),
{
    if s.len() > 0 {
        let d = s.drop_last();
        let ids = s.map_values(|t: TaskModel| t.tool_id);
        assert(d.map_values(|t: TaskModel| t.tool_id) =~= ids.drop_last());
        lemma_running_ids_sorted(d);
        if is_running(s.last()) {
            lemma_running_ids_members(d);
            let r = running_ids(d);
            let last = s.last().tool_id;
            assert forall|i: int, j: int|
                0 <= i < j < r.push(last).len() implies lex_lt(
                #[trigger] r.push(last)[i],
                #[trigger] r.push(last)[j],
            ) by {
                if j == r.len() {
                    assert(r.contains(r[i]));
                    let w = choose|w: int| 0 <= w < d.len() && d[w].tool_id == r[i] && is_running(d[w]);
                    assert(ids[w] == r[i]);
                    assert(ids[s.len() - 1] == last);
                } else {
                    assert(r.push(last)[i] == r[i] && r.push(last)[j] == r[j]);
                }
            }
        }
    }
}

/// A freshly started run is the tool's running task, so its own ending and
/// stage changes apply to it.
pub proof fn law_started_run_is_running(tool: Seq<char>, run: Seq<char>, url: Seq<char>, now: int)
    ensures
        is_running(started(tool, run, url, now)),
        applies(Some(started(tool, run, url, now)), run),
{
}

/// A start is refused exactly while the tool's task is running.
pub proof fn law_start_refused_iff_running(
    m: TaskModel,
    tool: Seq<char>,
    run: Seq<char>,
    url: Seq<char>,
    now: int,
)
    ensures
        start_outcome(Some(m), tool, run, url, now) is Err <==> is_running(m),
        start_outcome(None, tool, run, url, now) is Ok,
{
}

/// Once a run has ended (with anything but `running`), no later ending
/// and no stage change applies, whichever run reports it: a late failure
/// cannot overwrite a cancellation.
pub proof fn law_ended_task_is_final(
    m: TaskModel,
    status: Seq<char>,
    error: Option<Seq<char>>,
    now: int,
    run: Seq<char>,
    later_status: Seq<char>,
    later_error: Option<Seq<char>>,
    stage: Seq<char>,
    later: int,
)
    requires
        status != "running"@,
    ensures
        finish_model(Some(finished(m, status, error, now)), run, later_status, later_error, later)
            is None,
        stage_model(Some(finished(m, status, error, now)), run, stage, later) is None,
{
}

/// The late ending or stage change of an earlier run leaves the tool's new
/// run untouched.
pub proof fn law_late_report_leaves_new_run(
    tool: Seq<char>,
    old_run: Seq<char>,
    new_run: Seq<char>,
    url: Seq<char>,
    now: int,
    status: Seq<char>,
    error: Option<Seq<char>>,
    stage: Seq<char>,
    later: int,
)
    requires
        old_run != new_run,
    ensures
        finish_model(Some(started(tool, new_run, url, now)), old_run, status, error, later) is None,
        stage_model(Some(started(tool, new_run, url, now)), old_run, stage, later) is None,
{
}

/// A stage change keeps a run running, so it can still end.
pub proof fn law_stage_keeps_running(m: TaskModel, run: Seq<char>, stage: Seq<char>, now: int)
    requires
        applies(Some(m), run),
    ensures
        stage_model(Some(m), run, stage, now) matches Some(s) && applies(Some(s), run),
{
}

/// A completed run shows full progress; a cancelled or failed one keeps
/// the progress it had.
pub proof fn law_finished_progress(m: TaskModel, status: Seq<char>, error: Option<Seq<char>>, now: int)
    ensures
        status == "completed"@ ==> finished(m, status, error, now).progress == Some(100int),
        status != "completed"@ ==> finished(m, status, error, now).progress == m.progress,
        finished(m, status, error, now).stage is None,
{
}

/// After a restart no task is running.
pub proof fn law_interrupted_not_running(m: TaskModel, now: int)
    ensures
        !is_running(interrupted(m, now)),
{
    reveal_strlit("interrupted");
    reveal_strlit("running");
    assert(interrupted(m, now).status.len() != "running"@.len());
}

} // verus!
