//! Download tasks: their state machine, how a task is created from a page
//! URL, the store that holds every task, and how tasks are restored.

use vstd::prelude::*;
use crate::download_engine::{DownloadProgress, DownloadProgressView};
use crate::keyed;
use crate::order;
use crate::text;
use crate::text::{chars_to_string, str_to_chars};
use crate::urls;
use crate::urls::{parse_url, ParsedUrl, UrlError};

verus! {

// ---------------------------------------------------------------------
//  The state machine
// ---------------------------------------------------------------------

#[derive(Clone, Copy, PartialEq, Eq, Debug, Structural)]
pub enum TaskState {
    Pending,
    Extracting,
    Selecting,
    Downloading,
    Merging,
    Relaying,
    Paused,
    Completed,
    Cancelled,
    Failed,
}

/// The transitions a task may take.
pub open spec fn valid_transition(current: TaskState, next: TaskState) -> bool {
    match (current, next) {
        (TaskState::Pending, TaskState::Extracting) => true,
        (TaskState::Pending, TaskState::Cancelled) => true,
        (TaskState::Pending, TaskState::Failed) => true,
        (TaskState::Extracting, TaskState::Selecting) => true,
        (TaskState::Extracting, TaskState::Downloading) => true,
        (TaskState::Extracting, TaskState::Cancelled) => true,
        (TaskState::Extracting, TaskState::Failed) => true,
        (TaskState::Selecting, TaskState::Downloading) => true,
        (TaskState::Selecting, TaskState::Cancelled) => true,
        (TaskState::Selecting, TaskState::Failed) => true,
        (TaskState::Downloading, TaskState::Completed) => true,
        (TaskState::Downloading, TaskState::Merging) => true,
        (TaskState::Downloading, TaskState::Relaying) => true,
        (TaskState::Downloading, TaskState::Paused) => true,
        (TaskState::Downloading, TaskState::Cancelled) => true,
        (TaskState::Downloading, TaskState::Failed) => true,
        (TaskState::Merging, TaskState::Completed) => true,
        (TaskState::Merging, TaskState::Relaying) => true,
        (TaskState::Merging, TaskState::Cancelled) => true,
        (TaskState::Merging, TaskState::Failed) => true,
        (TaskState::Relaying, TaskState::Downloading) => true,
        (TaskState::Relaying, TaskState::Cancelled) => true,
        (TaskState::Relaying, TaskState::Failed) => true,
        (TaskState::Paused, TaskState::Downloading) => true,
        (TaskState::Paused, TaskState::Cancelled) => true,
        (TaskState::Paused, TaskState::Failed) => true,
        (TaskState::Failed, TaskState::Pending) => true,
        _ => false,
    }
}

/// Whether a task in state `current` may move to `next`.
pub fn is_valid_transition(current: &TaskState, next: &TaskState) -> (r: bool)
    ensures
        r == valid_transition(*current, *next),
{
    match (current, next) {
        (TaskState::Pending, TaskState::Extracting)
        | (TaskState::Pending, TaskState::Cancelled)
        | (TaskState::Pending, TaskState::Failed)
        | (TaskState::Extracting, TaskState::Selecting)
        | (TaskState::Extracting, TaskState::Downloading)
        | (TaskState::Extracting, TaskState::Cancelled)
        | (TaskState::Extracting, TaskState::Failed)
        | (TaskState::Selecting, TaskState::Downloading)
        | (TaskState::Selecting, TaskState::Cancelled)
        | (TaskState::Selecting, TaskState::Failed)
        | (TaskState::Downloading, TaskState::Completed)
        | (TaskState::Downloading, TaskState::Merging)
        | (TaskState::Downloading, TaskState::Relaying)
        | (TaskState::Downloading, TaskState::Paused)
        | (TaskState::Downloading, TaskState::Cancelled)
        | (TaskState::Downloading, TaskState::Failed)
        | (TaskState::Merging, TaskState::Completed)
        | (TaskState::Merging, TaskState::Relaying)
        | (TaskState::Merging, TaskState::Cancelled)
        | (TaskState::Merging, TaskState::Failed)
        | (TaskState::Relaying, TaskState::Downloading)
        | (TaskState::Relaying, TaskState::Cancelled)
        | (TaskState::Relaying, TaskState::Failed)
        | (TaskState::Paused, TaskState::Downloading)
        | (TaskState::Paused, TaskState::Cancelled)
        | (TaskState::Paused, TaskState::Failed)
        | (TaskState::Failed, TaskState::Pending) => true,
        _ => false,
    }
}

/// The name a state goes by in `state-changed` events.
pub open spec fn state_name(s: TaskState) -> Seq<char> {
    match s {
        TaskState::Pending => "Pending"@,
        TaskState::Extracting => "Extracting"@,
        TaskState::Selecting => "Selecting"@,
        TaskState::Downloading => "Downloading"@,
        TaskState::Merging => "Merging"@,
        TaskState::Relaying => "Relaying"@,
        TaskState::Paused => "Paused"@,
        TaskState::Completed => "Completed"@,
        TaskState::Cancelled => "Cancelled"@,
        TaskState::Failed => "Failed"@,
    }
}

/// The state an event name stands for.
pub open spec fn state_of_name(name: Seq<char>) -> Option<TaskState> {
    if name == "Pending"@ { Some(TaskState::Pending) }
    else if name == "Extracting"@ { Some(TaskState::Extracting) }
    else if name == "Selecting"@ { Some(TaskState::Selecting) }
    else if name == "Downloading"@ { Some(TaskState::Downloading) }
    else if name == "Merging"@ { Some(TaskState::Merging) }
    else if name == "Relaying"@ { Some(TaskState::Relaying) }
    else if name == "Paused"@ { Some(TaskState::Paused) }
    else if name == "Completed"@ { Some(TaskState::Completed) }
    else if name == "Cancelled"@ { Some(TaskState::Cancelled) }
    else if name == "Failed"@ { Some(TaskState::Failed) }
    else { None }
}

impl TaskState {
    /// The state named in a `state-changed` event.
    pub fn from_event_state(value: &str) -> (r: Option<TaskState>)
        ensures
            r == state_of_name(value@),
    {
        let v = String::from_str(value);
        if v == String::from_str("Pending") { Some(TaskState::Pending) }
        else if v == String::from_str("Extracting") { Some(TaskState::Extracting) }
        else if v == String::from_str("Selecting") { Some(TaskState::Selecting) }
        else if v == String::from_str("Downloading") { Some(TaskState::Downloading) }
        else if v == String::from_str("Merging") { Some(TaskState::Merging) }
        else if v == String::from_str("Relaying") { Some(TaskState::Relaying) }
        else if v == String::from_str("Paused") { Some(TaskState::Paused) }
        else if v == String::from_str("Completed") { Some(TaskState::Completed) }
        else if v == String::from_str("Cancelled") { Some(TaskState::Cancelled) }
        else if v == String::from_str("Failed") { Some(TaskState::Failed) }
        else { None }
    }

    /// The name this state goes by in `state-changed` events.
    pub fn event_name(&self) -> (r: &'static str)
        ensures
            r@ == state_name(*self),
    {
        match self {
            TaskState::Pending => "Pending",
            TaskState::Extracting => "Extracting",
            TaskState::Selecting => "Selecting",
            TaskState::Downloading => "Downloading",
            TaskState::Merging => "Merging",
            TaskState::Relaying => "Relaying",
            TaskState::Paused => "Paused",
            TaskState::Completed => "Completed",
            TaskState::Cancelled => "Cancelled",
            TaskState::Failed => "Failed",
        }
    }
}

// ---------------------------------------------------------------------
//  Tasks
// ---------------------------------------------------------------------

pub struct DownloadTask {
    pub id: String,
    pub page_url: String,
    pub m3u8_url: Option<String>,
    pub selected_resolution: Option<String>,
    pub save_directory: String,
    pub filename: String,
    pub state: TaskState,
    pub progress: DownloadProgress,
    pub error_message: Option<String>,
    pub relay_phase: Option<String>,
}

pub struct DownloadTaskView {
    pub id: Seq<char>,
    pub page_url: Seq<char>,
    pub m3u8_url: Option<Seq<char>>,
    pub selected_resolution: Option<Seq<char>>,
    pub save_directory: Seq<char>,
    pub filename: Seq<char>,
    pub state: TaskState,
    pub progress: DownloadProgressView,
    pub error_message: Option<Seq<char>>,
    pub relay_phase: Option<Seq<char>>,
}

impl View for DownloadTask {
    type V = DownloadTaskView;

    open spec fn view(&self) -> DownloadTaskView {
        DownloadTaskView {
            id: self.id@,
            page_url: self.page_url@,
            m3u8_url: text::opt_view(self.m3u8_url),
            selected_resolution: text::opt_view(self.selected_resolution),
            save_directory: self.save_directory@,
            filename: self.filename@,
            state: self.state,
            progress: self.progress@,
            error_message: text::opt_view(self.error_message),
            relay_phase: text::opt_view(self.relay_phase),
        }
    }
}

fn clone_opt(o: &Option<String>) -> (r: Option<String>)
    ensures
        text::opt_view(r) == text::opt_view(*o),
{
    match o {
        Some(s) => Some(s.clone()),
        None => None,
    }
}

impl Clone for DownloadTask {
    fn clone(&self) -> (r: Self)
        ensures
            r@ == self@,
    {
        DownloadTask {
            id: self.id.clone(),
            page_url: self.page_url.clone(),
            m3u8_url: clone_opt(&self.m3u8_url),
            selected_resolution: clone_opt(&self.selected_resolution),
            save_directory: self.save_directory.clone(),
            filename: self.filename.clone(),
            state: self.state,
            progress: self.progress.clone(),
            error_message: clone_opt(&self.error_message),
            relay_phase: clone_opt(&self.relay_phase),
        }
    }
}

/// What a user submits to create a task.
pub struct CreateTaskInput {
    pub page_url: String,
    pub save_directory: Option<String>,
    pub filename: Option<String>,
}

/// Why a task operation was refused.
#[derive(Clone, Copy, PartialEq, Eq, Debug)]
pub enum TaskError {
    /// The page URL does not parse or is not http(s).
    InvalidUrl(UrlError),
    /// The save directory does not exist.
    MissingDirectory,
    /// The file name holds a `/` or a NUL.
    InvalidFilename,
    /// No task has this id.
    NotFound,
    /// The state machine forbids the move.
    InvalidTransition(TaskState, TaskState),
}

/// A file name that holds neither `/` nor NUL.
pub open spec fn valid_filename(name: Seq<char>) -> bool {
    !text::contains(name, "/"@) && !text::contains(name, "\0"@)
}

pub fn validate_filename(filename: &str) -> (r: Result<(), TaskError>)
    ensures
        r == (if valid_filename(filename@) { Ok(()) } else { Err::<(), TaskError>(TaskError::InvalidFilename) }),
{
    if text::str_contains(filename, "/") || text::str_contains(filename, "\0") {
        Err(TaskError::InvalidFilename)
    } else {
        Ok(())
    }
}

/// The file name derived from a parsed page URL: its last path segment
/// (where non-empty) without trailing `.html`s, or `video`; then `.mp4`.
pub open spec fn derived_filename(parsed: Option<urls::ParsedUrlView>) -> Seq<char> {
    let stem = match parsed {
        Some(u) => match u.last_segment {
            Some(seg) => if seg.len() > 0 { text::trim_suffix_all(seg, ".html"@) } else { "video"@ },
            None => "video"@,
        },
        None => "video"@,
    };
    stem + ".mp4"@
}

/// The default file name for a parsed page URL.
pub fn filename_from_parsed(parsed: Option<ParsedUrl>) -> (r: String)
    ensures
        r@ == derived_filename(urls::parsed_view(parsed)),
{
    let stem: String = match parsed {
        Some(u) => match u.last_segment {
            Some(seg) => if seg.as_str().is_empty() {
                String::from_str("video")
            } else {
                let v = str_to_chars(seg.as_str());
                let html = str_to_chars(".html");
                chars_to_string(&text::trim_suffix_all_exec(&v, &html))
            },
            None => String::from_str("video"),
        },
        None => String::from_str("video"),
    };
    stem.concat(".mp4")
}

/// The default file name for a page URL, e.g. `one.mp4` for
/// `https://example.com/watch/one`.
pub fn derive_filename(page_url: &str) -> (r: String)
    ensures
        r@ == derived_filename(urls::url_parse(page_url@)),
{
    filename_from_parsed(parse_url(page_url))
}

/// The directory a task saves to: the one given, or the default.
pub open spec fn resolved_directory(input: Option<Seq<char>>, default_dir: Seq<char>) -> Seq<char> {
    match input {
        Some(d) => d,
        None => default_dir,
    }
}

pub fn resolve_save_directory(input: &Option<String>, default_dir: &str) -> (r: String)
    ensures
        r@ == resolved_directory(text::opt_view(*input), default_dir@),
{
    match input {
        Some(d) => d.clone(),
        None => String::from_str(default_dir),
    }
}

/// The file name a task saves to: the one given unless it is blank, else
/// the one derived from the page URL.
pub open spec fn chosen_filename(input: Option<Seq<char>>, page_url: Seq<char>) -> Seq<char> {
    match input {
        Some(name) => if crate::download_engine::blank(name) { derived_filename(urls::url_parse(page_url)) } else { name },
        None => derived_filename(urls::url_parse(page_url)),
    }
}

/// A new task: Pending, nothing selected, no progress yet.
pub open spec fn new_task(id: Seq<char>, page_url: Seq<char>, dir: Seq<char>, filename: Seq<char>) -> DownloadTaskView {
    DownloadTaskView {
        id,
        page_url,
        m3u8_url: None,
        selected_resolution: None,
        save_directory: dir,
        filename,
        state: TaskState::Pending,
        progress: crate::download_engine::initial_progress(),
        error_message: None,
        relay_phase: None,
    }
}

/// The outcome of creating a task: the URL is checked first, then that the
/// directory exists, then the file name.
pub open spec fn creation_outcome(
    page_url: Seq<char>,
    dir_input: Option<Seq<char>>,
    name_input: Option<Seq<char>>,
    default_dir: Seq<char>,
    dir_exists: bool,
    id: Seq<char>,
) -> Result<DownloadTaskView, TaskError> {
    match urls::http_scheme_outcome(urls::url_parse(page_url)) {
        Err(e) => Err(TaskError::InvalidUrl(e)),
        Ok(_) => if !dir_exists {
            Err(TaskError::MissingDirectory)
        } else {
            let name = chosen_filename(name_input, page_url);
            if !valid_filename(name) {
                Err(TaskError::InvalidFilename)
            } else {
                Ok(new_task(id, page_url, resolved_directory(dir_input, default_dir), name))
            }
        },
    }
}

pub open spec fn task_result_view(r: Result<DownloadTask, TaskError>) -> Result<DownloadTaskView, TaskError> {
    match r {
        Ok(t) => Ok(t@),
        Err(e) => Err(e),
    }
}

// ---------------------------------------------------------------------
//  Restoring tasks
// ---------------------------------------------------------------------

/// A task as it comes back after a restart: a download or relay that was
/// running comes back paused.
pub open spec fn restored(t: DownloadTaskView) -> DownloadTaskView {
    if t.state == TaskState::Downloading || t.state == TaskState::Relaying {
        DownloadTaskView { state: TaskState::Paused, ..t }
    } else {
        t
    }
}

/// The tasks that come back after a restart: all but the completed ones,
/// in order, with running ones paused.
pub open spec fn restored_all(tasks: Seq<DownloadTaskView>) -> Seq<DownloadTaskView>
    decreases tasks.len(),
{
    if tasks.len() == 0 {
        seq![]
    } else {
        let rest = restored_all(tasks.drop_last());
        if tasks.last().state == TaskState::Completed {
            rest
        } else {
            rest.push(restored(tasks.last()))
        }
    }
}

pub open spec fn tasks_view(v: Seq<DownloadTask>) -> Seq<DownloadTaskView> {
    v.map_values(|t: DownloadTask| t@)
}

/// Applies the restore rules to tasks read back from storage.
pub fn restore_loaded_tasks(tasks: Vec<DownloadTask>) -> (r: Vec<DownloadTask>)
    ensures
        tasks_view(r@) == restored_all(tasks_view(tasks@)),
{
    let mut out: Vec<DownloadTask> = Vec::new();
    let mut i: usize = 0;
    while i < tasks.len()
        invariant
            i <= tasks.len(),
            tasks_view(out@) == restored_all(tasks_view(tasks@.take(i as int))),
        decreases tasks.len() - i,
    {
        assert(tasks_view(tasks@.take(i + 1)).drop_last() =~= tasks_view(tasks@.take(i as int)));
        assert(tasks_view(tasks@.take(i + 1)).last() == tasks@[i as int]@);
        let ghost before = tasks_view(out@);
        if tasks[i].state != TaskState::Completed {
            let mut t = tasks[i].clone();
            if t.state == TaskState::Downloading || t.state == TaskState::Relaying {
                t.state = TaskState::Paused;
            }
            out.push(t);
            assert(tasks_view(out@) =~= before.push(restored(tasks@[i as int]@)));
        }
        i = i + 1;
    }
    assert(tasks@.take(tasks.len() as int) =~= tasks@);
    out
}

/// A fresh random task id: `uuid::Uuid::new_v4()` in its hyphenated text
/// form (`to_string`), 36 characters with `-` at positions 8, 13, 18 and 23.
/// Which id comes out is chance and is not stated, nor that the random
/// source can fail (the crate then panics).
#[verifier::external_body]
fn new_task_id() -> (id: String)
    ensures
        id@.len() == 36,
        id@[8] == '-' && id@[13] == '-' && id@[18] == '-' && id@[23] == '-',
{
    uuid::Uuid::new_v4().to_string()
}

/// `m` with each of `ts` stored under its id, in order.
pub open spec fn stored_all(m: Map<Seq<char>, DownloadTaskView>, ts: Seq<DownloadTaskView>) -> Map<Seq<char>, DownloadTaskView>
    decreases ts.len(),
{
    if ts.len() == 0 {
        m
    } else {
        stored_all(m, ts.drop_last()).insert(ts.last().id, ts.last())
    }
}

// ---------------------------------------------------------------------
//  The task store
// ---------------------------------------------------------------------

pub open spec fn task_entry(t: DownloadTask) -> (Seq<char>, DownloadTaskView) {
    (t.id@, t@)
}

pub open spec fn task_ids(v: Seq<DownloadTask>) -> Seq<Seq<char>> {
    v.map_values(|t: DownloadTask| t.id@)
}

pub open spec fn task_entries(v: Seq<DownloadTask>) -> Seq<(Seq<char>, DownloadTaskView)> {
    v.map_values(|t: DownloadTask| task_entry(t))
}

/// All tasks, kept in order of id (the order `list` gives).
pub struct TaskStore {
    tasks: Vec<DownloadTask>,
}

pub proof fn lemma_sorted_keys_distinct(v: Seq<DownloadTask>)
    requires
        order::strictly_sorted(task_ids(v)),
    ensures
        keyed::distinct_keys(task_entries(v)),
{
    assert forall|i: int, j: int| 0 <= i < task_entries(v).len() && 0 <= j < task_entries(v).len() && i != j
        implies task_entries(v)[i].0 != task_entries(v)[j].0 by {
        order::lemma_sorted_distinct(task_ids(v), i, j);
    }
}

impl TaskStore {
    #[verifier::type_invariant]
    closed spec fn sorted_by_id(&self) -> bool {
        order::strictly_sorted(task_ids(self.tasks@))
    }

    /// Task id to task.
    pub closed spec fn view(&self) -> Map<Seq<char>, DownloadTaskView> {
        keyed::to_map(task_entries(self.tasks@))
    }

    /// Every task is stored under its own id.
    pub proof fn lemma_keys_are_ids(&self)
        ensures
            forall|k: Seq<char>| #[trigger] self.view().contains_key(k) ==> self.view()[k].id == k,
    {
        assert forall|k: Seq<char>| #[trigger] self.view().contains_key(k) implies self.view()[k].id == k by {
            let e = task_entries(self.tasks@);
            let i = choose|i: int| 0 <= i < e.len() && e[i].0 == k;
            assert(self.view()[k] == e[i].1);
            assert(e[i] == task_entry(self.tasks@[i]));
        }
    }

    pub fn new() -> (r: Self)
        ensures
            r.view() == Map::<Seq<char>, DownloadTaskView>::empty(),
    {
        let r = TaskStore { tasks: Vec::new() };
        assert(r.view() =~= Map::<Seq<char>, DownloadTaskView>::empty());
        r
    }

    /// Forgets every task (what the app does at every start).
    pub fn clear(&mut self)
        ensures
            final(self).view() == Map::<Seq<char>, DownloadTaskView>::empty(),
    {
        self.tasks = Vec::new();
        assert(self.view() =~= Map::<Seq<char>, DownloadTaskView>::empty());
    }

    fn index_of(&self, task_id: &str) -> (r: Option<usize>)
        ensures
            match r {
                Some(i) => i < self.tasks.len() && self.tasks@[i as int].id@ == task_id@,
                None => !keyed::has_key(task_entries(self.tasks@), task_id@),
            },
    {
        let key = String::from_str(task_id);
        let mut i: usize = 0;
        while i < self.tasks.len()
            invariant
                i <= self.tasks.len(),
                key@ == task_id@,
                forall|j: int| 0 <= j < i ==> task_entries(self.tasks@)[j].0 != task_id@,
            decreases self.tasks.len() - i,
        {
            if self.tasks[i].id == key {
                return Some(i);
            }
            i = i + 1;
        }
        None
    }

    /// The task with this id.
    pub fn get(&self, task_id: &str) -> (r: Result<DownloadTask, TaskError>)
        ensures
            task_result_view(r) == (if self.view().contains_key(task_id@) {
                Ok(self.view()[task_id@])
            } else {
                Err(TaskError::NotFound)
            }),
            r matches Ok(t) ==> t.id@ == task_id@,
    {
        proof { self.lemma_keys_are_ids(); }
        proof {
            use_type_invariant(self);
            lemma_sorted_keys_distinct(self.tasks@);
            keyed::lemma_to_map_all(task_entries(self.tasks@));
        }
        match self.index_of(task_id) {
            Some(i) => {
                assert(task_entries(self.tasks@)[i as int] == task_entry(self.tasks@[i as int]));
                Ok(self.tasks[i].clone())
            },
            None => Err(TaskError::NotFound),
        }
    }

    /// Every task, in order of id.
    pub fn list(&self) -> (r: Vec<DownloadTask>)
        ensures
            order::strictly_sorted(task_ids(r@)),
            keyed::to_map(task_entries(r@)) == self.view(),
    {
        proof { use_type_invariant(self); }
        let mut out: Vec<DownloadTask> = Vec::new();
        let mut i: usize = 0;
        while i < self.tasks.len()
            invariant
                i <= self.tasks.len(),
                out@.len() == i,
                forall|k: int| 0 <= k < i ==> (#[trigger] out@[k])@ == self.tasks@[k]@,
            decreases self.tasks.len() - i,
        {
            let t = self.tasks[i].clone();
            out.push(t);
            i = i + 1;
        }
        assert(task_entries(out@) =~= task_entries(self.tasks@)) by {
            assert forall|k: int| 0 <= k < out@.len() implies task_entries(out@)[k] == task_entries(self.tasks@)[k] by {
                assert(out@[k]@ == self.tasks@[k]@);
            }
        }
        assert(task_ids(out@) =~= task_ids(self.tasks@)) by {
            assert forall|k: int| 0 <= k < out@.len() implies task_ids(out@)[k] == task_ids(self.tasks@)[k] by {
                assert(out@[k]@ == self.tasks@[k]@);
            }
        }
        out
    }

    /// Replaces the task at `i` by `t`, which has the same id.
    fn replace_at(&mut self, i: usize, t: DownloadTask)
        requires
            i < old(self).tasks.len(),
            t.id@ == old(self).tasks@[i as int].id@,
        ensures
            final(self).view() == old(self).view().insert(t.id@, t@),
    {
        proof {
            use_type_invariant(&*self);
            lemma_sorted_keys_distinct(self.tasks@);
        }
        let ghost before = task_entries(self.tasks@);
        let mut tasks: Vec<DownloadTask> = Vec::new();
        std::mem::swap(&mut tasks, &mut self.tasks);
        let ghost old_tasks = tasks@;
        tasks.set(i, t);
        proof {
            assert(task_entries(tasks@) =~= before.update(i as int, (before[i as int].0, t@)));
            assert(task_ids(tasks@) =~= task_ids(old_tasks));
            keyed::lemma_to_map_update(before, i as int, t@);
        }
        self.tasks = tasks;
    }

    /// The first position whose id does not sort before `key`.
    fn id_position(&self, key: &Vec<char>) -> (p: usize)
        ensures
            p <= self.tasks.len(),
            forall|k: int| 0 <= k < p ==> order::seq_lt(#[trigger] task_ids(self.tasks@)[k], key@),
            p < self.tasks.len() ==> !order::seq_lt(task_ids(self.tasks@)[p as int], key@),
    {
        let mut p: usize = 0;
        while p < self.tasks.len()
            invariant
                p <= self.tasks.len(),
                forall|k: int| 0 <= k < p ==> order::seq_lt(#[trigger] task_ids(self.tasks@)[k], key@),
            decreases self.tasks.len() - p,
        {
            let item = str_to_chars(self.tasks[p].id.as_str());
            if !order::chars_less(&item, key) {
                return p;
            }
            p = p + 1;
        }
        p
    }

    /// Adds a task, or replaces the one with its id.
    fn put(&mut self, t: DownloadTask)
        ensures
            final(self).view() == old(self).view().insert(t.id@, t@),
    {
        proof {
            use_type_invariant(&*self);
            lemma_sorted_keys_distinct(self.tasks@);
        }
        let key = str_to_chars(t.id.as_str());
        let p = self.id_position(&key);
        let ghost ids = task_ids(self.tasks@);
        if p < self.tasks.len() && self.tasks[p].id == t.id {
            self.replace_at(p, t);
            return;
        }
        proof {
            assert forall|k: int| p <= k < ids.len() implies order::seq_lt(key@, #[trigger] ids[k]) by {
                order::lemma_lt_total(ids[k], key@);
                if k == p {
                    assert(ids[k] != key@);
                    assert(!order::seq_lt(ids[k], key@));
                } else {
                    assert(order::seq_lt(ids[p as int], ids[k]));
                    if ids[k] == key@ || order::seq_lt(ids[k], key@) {
                        order::lemma_lt_total(ids[p as int], key@);
                        if ids[k] == key@ {
                            order::lemma_lt_asymmetric(ids[p as int], key@);
                        } else {
                            order::lemma_lt_transitive(ids[p as int], ids[k], key@);
                        }
                        assert(order::seq_lt(ids[p as int], key@));
                    }
                }
            }
            assert(!keyed::has_key(task_entries(self.tasks@), key@)) by {
                if keyed::has_key(task_entries(self.tasks@), key@) {
                    let k = choose|k: int| 0 <= k < task_entries(self.tasks@).len() && task_entries(self.tasks@)[k].0 == key@;
                    assert(ids[k] == key@);
                    order::lemma_lt_irreflexive(key@);
                }
            }
            order::lemma_sorted_insert(ids, p as int, key@);
            keyed::lemma_to_map_insert_at(task_entries(self.tasks@), p as int, t.id@, t@);
        }
        let ghost before = task_entries(self.tasks@);
        let mut tasks: Vec<DownloadTask> = Vec::new();
        std::mem::swap(&mut tasks, &mut self.tasks);
        let ghost old_tasks = tasks@;
        tasks.insert(p, t);
        proof {
            assert(task_entries(tasks@) =~= before.insert(p as int, task_entry(t)));
            assert(task_ids(tasks@) =~= task_ids(old_tasks).insert(p as int, key@));
        }
        self.tasks = tasks;
    }

    /// Brings back tasks read from storage, by the restore rules: completed
    /// ones are dropped, and running ones come back paused.
    pub fn restore(&mut self, tasks: Vec<DownloadTask>)
        ensures
            final(self).view() == stored_all(old(self).view(), restored_all(tasks_view(tasks@))),
    {
        let kept = restore_loaded_tasks(tasks);
        let mut i: usize = 0;
        while i < kept.len()
            invariant
                i <= kept.len(),
                tasks_view(kept@) == restored_all(tasks_view(tasks@)),
                self.view() == stored_all(old(self).view(), tasks_view(kept@).take(i as int)),
            decreases kept.len() - i,
        {
            assert(tasks_view(kept@).take(i + 1).drop_last() =~= tasks_view(kept@).take(i as int));
            assert(tasks_view(kept@).take(i + 1).last() == kept@[i as int]@);
            self.put(kept[i].clone());
            i = i + 1;
        }
        assert(tasks_view(kept@).take(kept.len() as int) =~= tasks_view(kept@));
    }

    /// Creates a task from a submitted page URL. `default_dir` is the
    /// directory used when none is given, `save_dir_exists` whether the
    /// directory the task resolves to exists, and `id` the new task's id.
    pub fn create_task(
        &mut self,
        input: CreateTaskInput,
        default_dir: &str,
        save_dir_exists: bool,
        id: String,
    ) -> (r: Result<DownloadTask, TaskError>)
        ensures
            task_result_view(r) == creation_outcome(
                input.page_url@,
                text::opt_view(input.save_directory),
                text::opt_view(input.filename),
                default_dir@,
                save_dir_exists,
                id@,
            ),
            match r {
                Ok(t) => final(self).view() == old(self).view().insert(t.id@, t@),
                Err(_) => final(self).view() == old(self).view(),
            },
    {
        match urls::validate_http_url(input.page_url.as_str()) {
            Err(e) => return Err(TaskError::InvalidUrl(e)),
            Ok(_) => {},
        }
        let save_directory = resolve_save_directory(&input.save_directory, default_dir);
        if !save_dir_exists {
            return Err(TaskError::MissingDirectory);
        }
        let filename = match input.filename {
            Some(name) => {
                let nv = str_to_chars(name.as_str());
                if crate::download_engine::blank_exec(&nv) {
                    derive_filename(input.page_url.as_str())
                } else {
                    name
                }
            },
            None => derive_filename(input.page_url.as_str()),
        };
        match validate_filename(filename.as_str()) {
            Err(e) => return Err(e),
            Ok(_) => {},
        }
        let task = DownloadTask {
            id,
            page_url: input.page_url,
            m3u8_url: None,
            selected_resolution: None,
            save_directory,
            filename,
            state: TaskState::Pending,
            progress: DownloadProgress::default(),
            error_message: None,
            relay_phase: None,
        };
        self.put(task.clone());
        Ok(task)
    }

    /// Creates a task under a fresh random id (see `create_task`).
    pub fn create_new_task(
        &mut self,
        input: CreateTaskInput,
        default_dir: &str,
        save_dir_exists: bool,
    ) -> (r: Result<DownloadTask, TaskError>)
        ensures
            exists|id: Seq<char>| id.len() == 36 && task_result_view(r) == #[trigger] creation_outcome(
                input.page_url@,
                text::opt_view(input.save_directory),
                text::opt_view(input.filename),
                default_dir@,
                save_dir_exists,
                id,
            ),
            match r {
                Ok(t) => final(self).view() == old(self).view().insert(t.id@, t@),
                Err(_) => final(self).view() == old(self).view(),
            },
    {
        let id = new_task_id();
        let ghost id_view = id@;
        let ghost page = input.page_url@;
        let ghost dir = text::opt_view(input.save_directory);
        let ghost name = text::opt_view(input.filename);
        let r = self.create_task(input, default_dir, save_dir_exists, id);
        assert(task_result_view(r) == creation_outcome(page, dir, name, default_dir@, save_dir_exists, id_view));
        r
    }

    /// Moves a task to `next`. A move to the state it is in changes
    /// nothing; a move the state machine forbids is refused.
    pub fn update_state(&mut self, task_id: &str, next: TaskState) -> (r: Result<DownloadTask, TaskError>)
        ensures
            match r {
                Ok(t) => old(self).view().contains_key(task_id@)
                    && t@ == DownloadTaskView { state: next, ..old(self).view()[task_id@] }
                    && (old(self).view()[task_id@].state == next || valid_transition(old(self).view()[task_id@].state, next))
                    && final(self).view() == old(self).view().insert(task_id@, t@),
                Err(e) => final(self).view() == old(self).view() && (if !old(self).view().contains_key(task_id@) {
                    e == TaskError::NotFound
                } else {
                    old(self).view()[task_id@].state != next
                        && !valid_transition(old(self).view()[task_id@].state, next)
                        && e == TaskError::InvalidTransition(old(self).view()[task_id@].state, next)
                }),
            },
    {
        proof {
            use_type_invariant(&*self);
            lemma_sorted_keys_distinct(self.tasks@);
            keyed::lemma_to_map_all(task_entries(self.tasks@));
        }
        let i = match self.index_of(task_id) {
            Some(i) => i,
            None => return Err(TaskError::NotFound),
        };
        assert(task_entries(self.tasks@)[i as int] == task_entry(self.tasks@[i as int]));
        let current = self.tasks[i].state;
        if current == next {
            let t = self.tasks[i].clone();
            assert(old(self).view().insert(task_id@, t@) =~= old(self).view());
            return Ok(t);
        }
        if !is_valid_transition(&current, &next) {
            return Err(TaskError::InvalidTransition(current, next));
        }
        let mut t = self.tasks[i].clone();
        t.state = next;
        self.replace_at(i, t.clone());
        Ok(t)
    }

    /// Records the playlist URL and quality chosen for a task.
    pub fn set_download_selection(
        &mut self,
        task_id: &str,
        m3u8_url: String,
        selected_resolution: String,
    ) -> (r: Result<DownloadTask, TaskError>)
        ensures
            match r {
                Ok(t) => old(self).view().contains_key(task_id@)
                    && t@ == DownloadTaskView {
                        m3u8_url: Some(m3u8_url@),
                        selected_resolution: Some(selected_resolution@),
                        ..old(self).view()[task_id@]
                    }
                    && final(self).view() == old(self).view().insert(task_id@, t@),
                Err(e) => !old(self).view().contains_key(task_id@) && e == TaskError::NotFound
                    && final(self).view() == old(self).view(),
            },
    {
        proof {
            use_type_invariant(&*self);
            lemma_sorted_keys_distinct(self.tasks@);
            keyed::lemma_to_map_all(task_entries(self.tasks@));
        }
        let i = match self.index_of(task_id) {
            Some(i) => i,
            None => return Err(TaskError::NotFound),
        };
        assert(task_entries(self.tasks@)[i as int] == task_entry(self.tasks@[i as int]));
        let mut t = self.tasks[i].clone();
        t.m3u8_url = Some(m3u8_url);
        t.selected_resolution = Some(selected_resolution);
        self.replace_at(i, t.clone());
        Ok(t)
    }

    /// Records a task's latest progress.
    pub fn update_progress(&mut self, task_id: &str, progress: DownloadProgress) -> (r: Result<DownloadTask, TaskError>)
        ensures
            match r {
                Ok(t) => old(self).view().contains_key(task_id@)
                    && t@ == DownloadTaskView { progress: progress@, ..old(self).view()[task_id@] }
                    && final(self).view() == old(self).view().insert(task_id@, t@),
                Err(e) => !old(self).view().contains_key(task_id@) && e == TaskError::NotFound
                    && final(self).view() == old(self).view(),
            },
    {
        proof {
            use_type_invariant(&*self);
            lemma_sorted_keys_distinct(self.tasks@);
            keyed::lemma_to_map_all(task_entries(self.tasks@));
        }
        let i = match self.index_of(task_id) {
            Some(i) => i,
            None => return Err(TaskError::NotFound),
        };
        assert(task_entries(self.tasks@)[i as int] == task_entry(self.tasks@[i as int]));
        let mut t = self.tasks[i].clone();
        t.progress = progress;
        self.replace_at(i, t.clone());
        Ok(t)
    }

    /// Removes a task; reports whether there was one.
    pub fn delete_task(&mut self, task_id: &str) -> (r: bool)
        ensures
            r == old(self).view().contains_key(task_id@),
            final(self).view() == old(self).view().remove(task_id@),
    {
        proof {
            use_type_invariant(&*self);
            lemma_sorted_keys_distinct(self.tasks@);
            keyed::lemma_to_map_all(task_entries(self.tasks@));
        }
        let ghost before = task_entries(self.tasks@);
        match self.index_of(task_id) {
            Some(i) => {
                assert(before[i as int] == task_entry(self.tasks@[i as int]));
                let mut tasks: Vec<DownloadTask> = Vec::new();
                std::mem::swap(&mut tasks, &mut self.tasks);
                let ghost old_tasks = tasks@;
                let _ = tasks.remove(i);
                proof {
                    assert(task_entries(tasks@) =~= before.remove(i as int));
                    assert(task_ids(tasks@) =~= task_ids(old_tasks).remove(i as int));
                    order::lemma_sorted_remove(task_ids(old_tasks), i as int);
                    keyed::lemma_to_map_remove(before, i as int);
                }
                self.tasks = tasks;
                true
            },
            None => {
                assert(old(self).view().remove(task_id@) =~= old(self).view());
                false
            },
        }
    }
}

} // verus!
