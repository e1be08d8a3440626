//! The automatic relay: when a download hits an expired token, the task is
//! moved to Relaying, its relay count goes up, the page is extracted again
//! (with a cache-busting parameter), the fresh playlist of the same
//! quality is chosen (its credentials grafted onto the old URL where the
//! quality differs), and yt-dlp is restarted on the same output file.

use vstd::prelude::*;
use crate::cdn_adapter;
use crate::clock;
use crate::cdn_adapter::patch_m3u8_url;
use crate::download_engine::{DownloadConfig, DownloadConfigView, DownloadProgressView, StateChangedPayload, DEFAULT_THREAD_COUNT};
use crate::extraction;
use crate::order;
use crate::extraction::{choose_resolution, M3u8Option, M3u8OptionView};
use crate::task_management;
use crate::task_management::{DownloadTask, DownloadTaskView, TaskError, TaskState, TaskStore};
use crate::text;

verus! {

/// The most relays a task may go through.
pub const MAX_RELAY_ATTEMPTS: u32 = 30;

/// Whether relay number `next_attempt` may still run.
pub fn relay_attempt_allowed(next_attempt: u32) -> (r: bool)
    ensures
        r == (next_attempt <= MAX_RELAY_ATTEMPTS),
{
    next_attempt <= MAX_RELAY_ATTEMPTS
}

/// `relay-status`: which relay attempt a task is in, and its phase.
pub struct RelayStatusPayload {
    pub task_id: String,
    pub attempt: u32,
    pub phase: String,
}

/// Why a relay stopped.
#[derive(Clone, Copy, PartialEq, Eq, Debug)]
pub enum RelayError {
    /// A task operation was refused.
    Task(TaskError),
    /// The task has used up its relays.
    RetryLimitExceeded,
    /// The fresh extraction offered no playlist.
    NoRefreshedUrl,
}

/// What the start of a relay does to the task store.
pub open spec fn relay_start(m: Map<Seq<char>, DownloadTaskView>, id: Seq<char>)
    -> (Result<DownloadTaskView, RelayError>, Map<Seq<char>, DownloadTaskView>)
{
    if !m.contains_key(id) {
        (Err(RelayError::Task(TaskError::NotFound)), m)
    } else {
        let t = m[id];
        let may_fail = t.state == TaskState::Failed || task_management::valid_transition(t.state, TaskState::Failed);
        let may_relay = t.state == TaskState::Relaying || task_management::valid_transition(t.state, TaskState::Relaying);
        if t.progress.relay_attempts >= MAX_RELAY_ATTEMPTS {
            if may_fail {
                (Err(RelayError::RetryLimitExceeded), m.insert(id, DownloadTaskView { state: TaskState::Failed, ..t }))
            } else {
                (Err(RelayError::Task(TaskError::InvalidTransition(t.state, TaskState::Failed))), m)
            }
        } else if !may_relay {
            (Err(RelayError::Task(TaskError::InvalidTransition(t.state, TaskState::Relaying))), m)
        } else {
            let next = DownloadTaskView {
                state: TaskState::Relaying,
                progress: DownloadProgressView { relay_attempts: (t.progress.relay_attempts + 1) as u32, ..t.progress },
                ..t
            };
            (Ok(next), m.insert(id, next))
        }
    }
}

pub open spec fn relay_result_view(r: Result<DownloadTask, RelayError>) -> Result<DownloadTaskView, RelayError> {
    match r {
        Ok(t) => Ok(t@),
        Err(e) => Err(e),
    }
}

/// Starts a relay in the store: a task that has used up its relays is
/// marked Failed and refused; otherwise it moves to Relaying with its
/// relay count one higher, and is returned as it now stands.
pub fn begin_relay(store: &mut TaskStore, task_id: &str) -> (r: Result<DownloadTask, RelayError>)
    ensures
        relay_result_view(r) == relay_start(old(store).view(), task_id@).0,
        final(store).view() == relay_start(old(store).view(), task_id@).1,
{
    let task = match store.get(task_id) {
        Ok(t) => t,
        Err(e) => return Err(RelayError::Task(e)),
    };
    if task.progress.relay_attempts >= MAX_RELAY_ATTEMPTS {
        return match store.update_state(task_id, TaskState::Failed) {
            Err(e) => Err(RelayError::Task(e)),
            Ok(_) => Err(RelayError::RetryLimitExceeded),
        };
    }
    match store.update_state(task_id, TaskState::Relaying) {
        Ok(_) => {},
        Err(e) => return Err(RelayError::Task(e)),
    }
    let mut progress = task.progress.clone();
    progress.relay_attempts = progress.relay_attempts + 1;
    match store.update_progress(task_id, progress) {
        Ok(t) => Ok(t),
        Err(e) => Err(RelayError::Task(e)),
    }
}

/// The tasks whose relay is running: at most one relay runs per task, and a
/// relay request for a task already relaying is dropped.
pub struct RelayGuard {
    running: Vec<String>,
}

impl RelayGuard {
    #[verifier::type_invariant]
    closed spec fn sorted(&self) -> bool {
        order::strictly_sorted(order::string_views(self.running@))
    }

    /// The ids of the tasks whose relay is running.
    pub closed spec fn view(&self) -> Set<Seq<char>> {
        order::string_views(self.running@).to_set()
    }

    pub fn new() -> (r: Self)
        ensures
            r.view() == Set::<Seq<char>>::empty(),
    {
        let r = RelayGuard { running: Vec::new() };
        assert(r.view() =~= Set::<Seq<char>>::empty());
        r
    }

    /// Claims the relay of a task; refused (`false`, nothing changed) where
    /// its relay is already running.
    pub fn try_begin(&mut self, task_id: &str) -> (r: bool)
        ensures
            r == !old(self).view().contains(task_id@),
            final(self).view() == old(self).view().insert(task_id@),
    {
        proof { use_type_invariant(&*self); }
        let mut running: Vec<String> = Vec::new();
        std::mem::swap(&mut running, &mut self.running);
        let ghost before = order::string_views(running@);
        let r = order::sorted_insert(&mut running, String::from_str(task_id));
        assert(before.to_set().contains(task_id@) == before.contains(task_id@));
        self.running = running;
        r
    }

    /// Releases the relay of a task.
    pub fn finish(&mut self, task_id: &str)
        ensures
            final(self).view() == old(self).view().remove(task_id@),
    {
        proof { use_type_invariant(&*self); }
        let key = String::from_str(task_id);
        let mut i: usize = 0;
        while i < self.running.len()
            invariant
                i <= self.running.len(),
                key@ == task_id@,
                forall|j: int| 0 <= j < i ==> order::string_views(self.running@)[j] != task_id@,
            ensures
                i <= self.running.len(),
                forall|j: int| 0 <= j < i ==> order::string_views(self.running@)[j] != task_id@,
                i < self.running.len() ==> order::string_views(self.running@)[i as int] == task_id@,
            decreases self.running.len() - i,
        {
            if self.running[i] == key {
                assert(order::string_views(self.running@)[i as int] == self.running@[i as int]@);
                break;
            }
            i = i + 1;
        }
        let ghost s = order::string_views(self.running@);
        if i < self.running.len() {
            assert(s[i as int] == task_id@);
            let mut running: Vec<String> = Vec::new();
            std::mem::swap(&mut running, &mut self.running);
            let ghost old_running = running@;
            let _ = running.remove(i);
            proof {
                assert(order::string_views(running@) =~= s.remove(i as int));
                order::lemma_sorted_remove(s, i as int);
                assert forall|y: Seq<char>| #[trigger] s.remove(i as int).to_set().contains(y)
                    <==> s.to_set().remove(task_id@).contains(y) by {
                    if s.remove(i as int).contains(y) {
                        let k = choose|k: int| 0 <= k < s.remove(i as int).len() && s.remove(i as int)[k] == y;
                        let sk = if k < i { k } else { k + 1 };
                        assert(s[sk] == y);
                        order::lemma_sorted_distinct(s, sk, i as int);
                    }
                    if s.contains(y) && y != task_id@ {
                        let k = choose|k: int| 0 <= k < s.len() && s[k] == y;
                        assert(k != i);
                        let rk = if k < i { k } else { k - 1 };
                        assert(s.remove(i as int)[rk] == y);
                    }
                }
                assert(s.remove(i as int).to_set() =~= s.to_set().remove(task_id@));
            }
            self.running = running;
        } else {
            assert(!s.contains(task_id@));
            assert(s.to_set().remove(task_id@) =~= s.to_set());
        }
    }
}

/// The page URL with a `_t` parameter holding `now_millis`, so that no
/// cached page is served.
pub open spec fn cache_busted(page_url: Seq<char>, now_millis: u128) -> Seq<char> {
    if text::contains(page_url, "?"@) {
        page_url + "&_t="@ + text::decimal(now_millis as nat)
    } else {
        page_url + "?_t="@ + text::decimal(now_millis as nat)
    }
}

pub fn cache_busted_url(page_url: &str, now_millis: u128) -> (r: String)
    ensures
        r@ == cache_busted(page_url@, now_millis),
{
    let stamp = text::decimal_string(now_millis);
    let base = String::from_str(page_url);
    if text::str_contains(page_url, "?") {
        base.concat("&_t=").concat(stamp.as_str())
    } else {
        base.concat("?_t=").concat(stamp.as_str())
    }
}

/// The page URL with the current time (milliseconds since the Unix epoch)
/// as its cache-busting parameter.
pub fn cache_busted_url_now(page_url: &str) -> (r: String)
    ensures
        exists|now_millis: u128| r@ == #[trigger] cache_busted(page_url@, now_millis),
{
    let now_millis = clock::unix_now_millis();
    let r = cache_busted_url(page_url, now_millis);
    assert(r@ == cache_busted(page_url@, now_millis));
    r
}

/// The fresh option a relay downloads: the one of the quality the task was
/// started with (or the nearest quality), else the first offered.
pub open spec fn relay_choice(opts: Seq<M3u8OptionView>, wanted: Option<Seq<char>>) -> Option<M3u8OptionView> {
    let chosen = match wanted {
        Some(w) => extraction::chosen_option(opts, w),
        None => None,
    };
    match chosen {
        Some(o) => Some(o),
        None => if opts.len() > 0 { Some(opts[0]) } else { None },
    }
}

/// The URL a relay restarts yt-dlp with: the chosen option's URL, or,
/// where its quality differs from the one wanted and the task had a URL,
/// the old URL with the fresh credentials grafted on.
pub open spec fn relay_url(opts: Seq<M3u8OptionView>, wanted: Option<Seq<char>>, old_url: Option<Seq<char>>) -> Option<Seq<char>> {
    match relay_choice(opts, wanted) {
        None => None,
        Some(o) => Some(match (wanted, old_url) {
            (Some(w), Some(old)) => if o.resolution != w {
                cdn_adapter::patched_m3u8_url(o.url, old)
            } else {
                o.url
            },
            _ => o.url,
        }),
    }
}

/// Picks the URL a relay restarts with from the freshly extracted options.
pub fn relay_target_url(
    options: &[M3u8Option],
    selected_resolution: &Option<String>,
    old_m3u8_url: &Option<String>,
) -> (r: Result<String, RelayError>)
    ensures
        match relay_url(extraction::options_view(options@), text::opt_view(*selected_resolution), text::opt_view(*old_m3u8_url)) {
            Some(u) => r matches Ok(s) && s@ == u,
            None => r == Err::<String, RelayError>(RelayError::NoRefreshedUrl),
        },
{
    let chosen = match selected_resolution {
        Some(w) => choose_resolution(options, w.as_str()),
        None => None,
    };
    let selected = match chosen {
        Some(o) => o,
        None => {
            if options.len() > 0 {
                assert(extraction::options_view(options@)[0] == options@[0]@);
                options[0].clone()
            } else {
                return Err(RelayError::NoRefreshedUrl);
            }
        },
    };
    match (selected_resolution, old_m3u8_url) {
        (Some(w), Some(old)) => {
            if selected.resolution != *w {
                return Ok(patch_m3u8_url(selected.url.as_str(), old.as_str()));
            }
            Ok(selected.url)
        },
        _ => Ok(selected.url),
    }
}

/// How a relay restarts the task's download.
pub open spec fn relay_config(t: DownloadTaskView, url: Seq<char>) -> DownloadConfigView {
    DownloadConfigView {
        task_id: t.id,
        page_url: t.page_url,
        m3u8_url: url,
        save_directory: t.save_directory,
        filename: t.filename,
        thread_count: DEFAULT_THREAD_COUNT,
    }
}

/// The download a relay restarts: the task's page, directory and file,
/// with the fresh URL.
pub fn relay_download_config(task: &DownloadTask, final_url: String) -> (r: DownloadConfig)
    ensures
        r@ == relay_config(task@, final_url@),
{
    DownloadConfig {
        task_id: task.id.clone(),
        page_url: task.page_url.clone(),
        m3u8_url: final_url,
        save_directory: task.save_directory.clone(),
        filename: task.filename.clone(),
        thread_count: DEFAULT_THREAD_COUNT,
    }
}

/// `Relay attempt <n>/<max>: <phase>...`
pub open spec fn phase_message(attempt: u32, phase: Seq<char>) -> Seq<char> {
    "Relay attempt "@ + text::decimal(attempt as nat) + "/"@ + text::decimal(MAX_RELAY_ATTEMPTS as nat) + ": "@
        + phase + "..."@
}

pub fn relay_phase_message(attempt: u32, phase: &str) -> (r: String)
    ensures
        r@ == phase_message(attempt, phase@),
{
    let n = text::decimal_string(attempt as u128);
    let max = text::decimal_string(MAX_RELAY_ATTEMPTS as u128);
    String::from_str("Relay attempt ").concat(n.as_str()).concat("/").concat(max.as_str()).concat(": ").concat(phase).concat("...")
}

/// The `relay-status` payload for a phase of a relay attempt.
pub fn relay_status_payload(task_id: &str, attempt: u32, phase: &str) -> (r: RelayStatusPayload)
    ensures
        r.task_id@ == task_id@,
        r.attempt == attempt,
        r.phase@ == phase_message(attempt, phase@),
{
    RelayStatusPayload { task_id: String::from_str(task_id), attempt, phase: relay_phase_message(attempt, phase) }
}

/// The `state-changed` payload announcing a task's new state.
pub fn state_changed_payload(task_id: &str, state: TaskState, error_message: Option<&str>) -> (r: StateChangedPayload)
    ensures
        r.task_id@ == task_id@,
        r.state@ == task_management::state_name(state),
        text::opt_view(r.error_message) == text::opt_str_view(error_message),
        r.relay_phase is None,
{
    StateChangedPayload {
        task_id: String::from_str(task_id),
        state: String::from_str(state.event_name()),
        error_message: match error_message {
            Some(m) => Some(String::from_str(m)),
            None => None,
        },
        relay_phase: None,
    }
}

} // verus!
