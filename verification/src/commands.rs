//! The task commands the user interface invokes, as far as they decide
//! anything: what a request becomes, which download a command starts, and
//! which state moves it makes. Starting and signalling processes is left
//! to the caller.

use vstd::prelude::*;
use crate::download_engine::{DownloadConfig, DownloadConfigView, DEFAULT_THREAD_COUNT};
use crate::task_management;
use crate::task_management::{CreateTaskInput, DownloadTask, DownloadTaskView, TaskError, TaskState, TaskStore};
use crate::text;

verus! {

/// A create-task request from the user interface.
pub struct CreateTaskRequest {
    pub page_url: String,
    pub save_directory: Option<String>,
    pub filename: Option<String>,
}

impl CreateTaskRequest {
    /// The task input the request stands for.
    pub fn into_input(self) -> (r: CreateTaskInput)
        ensures
            r.page_url@ == self.page_url@,
            text::opt_view(r.save_directory) == text::opt_view(self.save_directory),
            text::opt_view(r.filename) == text::opt_view(self.filename),
    {
        CreateTaskInput { page_url: self.page_url, save_directory: self.save_directory, filename: self.filename }
    }
}

/// The download a task runs with a given playlist URL.
pub open spec fn task_config(t: DownloadTaskView, m3u8_url: Seq<char>) -> DownloadConfigView {
    DownloadConfigView {
        task_id: t.id,
        page_url: t.page_url,
        m3u8_url,
        save_directory: t.save_directory,
        filename: t.filename,
        thread_count: DEFAULT_THREAD_COUNT,
    }
}

pub fn download_config_for(task: &DownloadTask, m3u8_url: &str) -> (r: DownloadConfig)
    ensures
        r@ == task_config(task@, m3u8_url@),
{
    DownloadConfig {
        task_id: task.id.clone(),
        page_url: task.page_url.clone(),
        m3u8_url: String::from_str(m3u8_url),
        save_directory: task.save_directory.clone(),
        filename: task.filename.clone(),
        thread_count: DEFAULT_THREAD_COUNT,
    }
}

pub open spec fn config_result_view(r: Result<DownloadConfig, TaskError>) -> Result<DownloadConfigView, TaskError> {
    match r {
        Ok(c) => Ok(c@),
        Err(e) => Err(e),
    }
}

/// Starting a task: a Pending task first moves to Extracting (a refused
/// move is ignored), and the download runs with the chosen URL.
pub fn prepare_start(store: &mut TaskStore, task_id: &str, m3u8_url: &str) -> (r: Result<DownloadConfig, TaskError>)
    ensures
        config_result_view(r) == (if old(store).view().contains_key(task_id@) {
            Ok(task_config(old(store).view()[task_id@], m3u8_url@))
        } else {
            Err(TaskError::NotFound)
        }),
        final(store).view() == (if old(store).view().contains_key(task_id@)
            && old(store).view()[task_id@].state == TaskState::Pending {
            old(store).view().insert(task_id@, DownloadTaskView { state: TaskState::Extracting, ..old(store).view()[task_id@] })
        } else {
            old(store).view()
        }),
{
    let task = match store.get(task_id) {
        Ok(t) => t,
        Err(e) => return Err(e),
    };
    if task.state == TaskState::Pending {
        let _ = store.update_state(task_id, TaskState::Extracting);
    }
    Ok(download_config_for(&task, m3u8_url))
}

/// What recording a started task's selection does: the chosen URL and
/// quality are stored, then the task moves to Downloading where the state
/// machine allows it (the selection stays recorded either way).
pub open spec fn start_finish(m: Map<Seq<char>, DownloadTaskView>, id: Seq<char>, url: Seq<char>, res: Seq<char>)
    -> (Result<DownloadTaskView, TaskError>, Map<Seq<char>, DownloadTaskView>)
{
    if !m.contains_key(id) {
        (Err(TaskError::NotFound), m)
    } else {
        let sel = DownloadTaskView { m3u8_url: Some(url), selected_resolution: Some(res), ..m[id] };
        if sel.state == TaskState::Downloading || task_management::valid_transition(sel.state, TaskState::Downloading) {
            let t = DownloadTaskView { state: TaskState::Downloading, ..sel };
            (Ok(t), m.insert(id, t))
        } else {
            (Err(TaskError::InvalidTransition(sel.state, TaskState::Downloading)), m.insert(id, sel))
        }
    }
}

/// After the download of a started task is running: the selection is
/// recorded and the task moves to Downloading.
pub fn finish_start(store: &mut TaskStore, task_id: &str, m3u8_url: String, resolution: String)
    -> (r: Result<DownloadTask, TaskError>)
    ensures
        task_management::task_result_view(r) == start_finish(old(store).view(), task_id@, m3u8_url@, resolution@).0,
        final(store).view() == start_finish(old(store).view(), task_id@, m3u8_url@, resolution@).1,
{
    let _ = store.set_download_selection(task_id, m3u8_url, resolution);
    store.update_state(task_id, TaskState::Downloading)
}

/// Why a paused task cannot be resumed.
#[derive(Clone, Copy, PartialEq, Eq, Debug)]
pub enum ResumeError {
    Task(TaskError),
    /// The task never had a playlist URL chosen.
    NoSelectedUrl,
}

/// The download a resumed task restarts when no running process knows its
/// configuration: its chosen URL, which it must have.
pub fn resume_config_from_task(task: &DownloadTask) -> (r: Result<DownloadConfig, ResumeError>)
    ensures
        match task@.m3u8_url {
            Some(u) => r matches Ok(c) && c@ == task_config(task@, u),
            None => r == Err::<DownloadConfig, ResumeError>(ResumeError::NoSelectedUrl),
        },
{
    match &task.m3u8_url {
        Some(u) => Ok(download_config_for(task, u.as_str())),
        None => Err(ResumeError::NoSelectedUrl),
    }
}

/// Cancelling stops a running process first: only Downloading and
/// Relaying tasks have one.
pub fn cancel_needs_signal(state: TaskState) -> (r: bool)
    ensures
        r == (state == TaskState::Downloading || state == TaskState::Relaying),
{
    state == TaskState::Downloading || state == TaskState::Relaying
}

} // verus!
