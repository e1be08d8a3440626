//! The yt-dlp side of a download: the command line it is started with, how
//! its output lines are read (progress, HTTP 403, merging), when an exit
//! counts as completion, and the registry of running downloads.

use vstd::prelude::*;
use crate::extraction::SAFARI_USER_AGENT;
use crate::progress_line;
use crate::text;
use crate::keyed;
use crate::text::{chars_to_string, copy_range, str_contains, str_to_chars};
use crate::urls;
use crate::urls::{origin_from_url, UrlError};

verus! {

// ---------------------------------------------------------------------
//  Progress
// ---------------------------------------------------------------------

/// Progress of one download. `percentage` is the decimal text yt-dlp
/// printed (digits with an optional fraction, e.g. `45.3`).
pub struct DownloadProgress {
    pub percentage: String,
    pub speed: String,
    pub eta: String,
    pub current_fragment: Option<u32>,
    pub total_fragments: Option<u32>,
    pub relay_attempts: u32,
}

pub struct DownloadProgressView {
    pub percentage: Seq<char>,
    pub speed: Seq<char>,
    pub eta: Seq<char>,
    pub current_fragment: Option<u32>,
    pub total_fragments: Option<u32>,
    pub relay_attempts: u32,
}

impl View for DownloadProgress {
    type V = DownloadProgressView;

    open spec fn view(&self) -> DownloadProgressView {
        DownloadProgressView {
            percentage: self.percentage@,
            speed: self.speed@,
            eta: self.eta@,
            current_fragment: self.current_fragment,
            total_fragments: self.total_fragments,
            relay_attempts: self.relay_attempts,
        }
    }
}

/// No progress yet: 0 percent, no speed, eta or fragments, no relays.
pub open spec fn initial_progress() -> DownloadProgressView {
    DownloadProgressView {
        percentage: "0"@,
        speed: Seq::empty(),
        eta: Seq::empty(),
        current_fragment: None,
        total_fragments: None,
        relay_attempts: 0,
    }
}

impl Default for DownloadProgress {
    fn default() -> (r: Self)
        ensures
            r@ == initial_progress(),
    {
        DownloadProgress {
            percentage: String::from_str("0"),
            speed: String::new(),
            eta: String::new(),
            current_fragment: None,
            total_fragments: None,
            relay_attempts: 0,
        }
    }
}

impl Clone for DownloadProgress {
    fn clone(&self) -> (r: Self)
        ensures
            r@ == self@,
    {
        DownloadProgress {
            percentage: self.percentage.clone(),
            speed: self.speed.clone(),
            eta: self.eta.clone(),
            current_fragment: self.current_fragment,
            total_fragments: self.total_fragments,
            relay_attempts: self.relay_attempts,
        }
    }
}

/// A fragment number as `str::parse::<u32>` reads it.
pub open spec fn fragment_number(s: Seq<char>) -> Option<u32> {
    match text::parse_unsigned(s, u32::MAX as int) {
        Some(n) => Some(n as u32),
        None => None,
    }
}

/// The percentage text reads as a number (`f64` parsing accepts it): it
/// holds only ASCII digits and the point.
pub open spec fn readable_percentage(s: Seq<char>) -> bool {
    forall|i: int| 0 <= i < s.len() ==> (text::is_ascii_digit(#[trigger] s[i]) || s[i] == '.')
}

/// The progress a yt-dlp output line reports, read from its leftmost
/// progress match (see `progress_line`); none where the line has no match
/// or its percentage uses digits other than ASCII ones.
pub open spec fn progress_of_line(s: Seq<char>) -> Option<DownloadProgressView> {
    match progress_line::first_progress(s, 0) {
        None => None,
        Some(((b, d), (s1, s2, e1, e2, frag))) => {
            let pct = s.subrange(b, d);
            if !readable_percentage(pct) {
                None
            } else {
                Some(DownloadProgressView {
                    percentage: pct,
                    speed: s.subrange(s1, s2),
                    eta: s.subrange(e1, e2),
                    current_fragment: match frag {
                        Some((c1, c2, _, _)) => fragment_number(s.subrange(c1, c2)),
                        None => None,
                    },
                    total_fragments: match frag {
                        Some((_, _, t1, t2)) => fragment_number(s.subrange(t1, t2)),
                        None => None,
                    },
                    relay_attempts: 0,
                })
            }
        },
    }
}

pub open spec fn opt_progress_view(p: Option<DownloadProgress>) -> Option<DownloadProgressView> {
    match p {
        Some(x) => Some(x@),
        None => None,
    }
}

fn fragment_number_exec(v: &Vec<char>, from: usize, to: usize) -> (r: Option<u32>)
    requires
        from <= to <= v.len(),
    ensures
        r == fragment_number(v@.subrange(from as int, to as int)),
{
    match text::parse_unsigned_range(v, from, to, u32::MAX as u64) {
        Some(n) => Some(n as u32),
        None => None,
    }
}

fn readable_percentage_exec(v: &Vec<char>, b: usize, d: usize) -> (r: bool)
    requires
        b <= d <= v.len(),
    ensures
        r == readable_percentage(v@.subrange(b as int, d as int)),
{
    let mut k = b;
    while k < d
        invariant
            b <= k <= d <= v.len(),
            readable_percentage(v@.subrange(b as int, k as int)),
        decreases d - k,
    {
        let c = v[k];
        if !(('0' <= c && c <= '9') || c == '.') {
            assert(v@.subrange(b as int, d as int)[k - b] == c);
            return false;
        }
        assert forall|j: int| 0 <= j < k + 1 - b implies (text::is_ascii_digit(#[trigger] v@.subrange(b as int, k + 1)[j])
            || v@.subrange(b as int, k + 1)[j] == '.') by {
            if j < k - b {
                assert(v@.subrange(b as int, k + 1)[j] == v@.subrange(b as int, k as int)[j]);
            }
        }
        k = k + 1;
    }
    true
}

/// Reads a yt-dlp progress line such as
/// `[download]  45.3% of ~128.50MiB at 5.20MiB/s ETA 00:15 frag 92/203`.
pub fn parse_progress_line(line: &str) -> (r: Option<DownloadProgress>)
    ensures
        opt_progress_view(r) == progress_of_line(line@),
{
    let v = str_to_chars(line);
    let ((b, d), (s1, s2, e1, e2, frag)) = match progress_line::find_progress(&v) {
        Some(m) => m,
        None => return None,
    };
    if !readable_percentage_exec(&v, b, d) {
        return None;
    }
    let (current_fragment, total_fragments) = match frag {
        Some((c1, c2, t1, t2)) => {
            (fragment_number_exec(&v, c1, c2), fragment_number_exec(&v, t1, t2))
        },
        None => (None, None),
    };
    Some(DownloadProgress {
        percentage: chars_to_string(&copy_range(&v, b, d)),
        speed: chars_to_string(&copy_range(&v, s1, s2)),
        eta: chars_to_string(&copy_range(&v, e1, e2)),
        current_fragment,
        total_fragments,
        relay_attempts: 0,
    })
}

// ---------------------------------------------------------------------
//  Output lines
// ---------------------------------------------------------------------

pub open spec fn forbidden_line(line: Seq<char>) -> bool {
    text::contains(line, "HTTP Error 403"@) || text::contains(line, "403 Forbidden"@)
        || text::contains(line, "HTTP error 403"@)
}

/// Whether a yt-dlp output line reports an HTTP 403 (an expired token).
pub fn is_403_line(line: &str) -> (r: bool)
    ensures
        r == forbidden_line(line@),
{
    str_contains(line, "HTTP Error 403") || str_contains(line, "403 Forbidden") || str_contains(line, "HTTP error 403")
}

pub open spec fn merging_line(line: Seq<char>) -> bool {
    text::contains(line, "[Merger]"@) || text::contains(line, "[Fixup"@)
        || (text::contains(line, "[ffmpeg]"@) && (text::contains(line, "Merging"@) || text::contains(line, "Fixing"@)))
        || text::contains(line, "Merging formats into"@)
}

/// Whether a yt-dlp output line reports the merge or fix-up stage.
pub fn is_merging_line(line: &str) -> (r: bool)
    ensures
        r == merging_line(line@),
{
    str_contains(line, "[Merger]") || str_contains(line, "[Fixup")
        || (str_contains(line, "[ffmpeg]") && (str_contains(line, "Merging") || str_contains(line, "Fixing")))
        || str_contains(line, "Merging formats into")
}

/// What one output line asks of the monitor.
pub struct OutputLineEvent {
    /// Progress to record and report.
    pub progress: Option<DownloadProgress>,
    /// The line reports a 403: a relay is needed once yt-dlp has exited.
    pub relay_needed: bool,
    /// The line reports merging (and no 403).
    pub merging: bool,
}

/// Reads one output line: its progress, whether it calls for a relay, and
/// otherwise whether it reports merging.
pub fn classify_output_line(line: &str) -> (r: OutputLineEvent)
    ensures
        opt_progress_view(r.progress) == progress_of_line(line@),
        r.relay_needed == forbidden_line(line@),
        r.merging == (!forbidden_line(line@) && merging_line(line@)),
{
    let progress = parse_progress_line(line);
    let relay_needed = is_403_line(line);
    let merging = !relay_needed && is_merging_line(line);
    OutputLineEvent { progress, relay_needed, merging }
}

/// A download is complete when yt-dlp exits successfully.
pub fn is_download_complete(status_success: bool, _progress: &DownloadProgress) -> (r: bool)
    ensures
        r == status_success,
{
    status_success
}

/// What the monitor does when yt-dlp exits.
pub struct ExitOutcome {
    /// Report completion (and the Completed state).
    pub completed: bool,
    /// Ask for a relay, after the exit has been reported.
    pub relay_needed: bool,
}

/// A 403 seen during the run outranks the exit status: yt-dlp can exit with
/// status 0 after giving up on expired fragments, so such an exit is no
/// completion and asks for a relay instead.
pub fn exit_outcome(requires_relay: bool, status_success: bool, progress: &DownloadProgress) -> (r: ExitOutcome)
    ensures
        r.completed == (!requires_relay && status_success),
        r.relay_needed == requires_relay,
{
    let completed = !requires_relay && is_download_complete(status_success, progress);
    ExitOutcome { completed, relay_needed: requires_relay }
}

// ---------------------------------------------------------------------
//  The yt-dlp command line
// ---------------------------------------------------------------------

/// Everything yt-dlp is started with for one task.
pub struct DownloadConfig {
    pub task_id: String,
    pub page_url: String,
    pub m3u8_url: String,
    pub save_directory: String,
    pub filename: String,
    pub thread_count: u8,
}

pub struct DownloadConfigView {
    pub task_id: Seq<char>,
    pub page_url: Seq<char>,
    pub m3u8_url: Seq<char>,
    pub save_directory: Seq<char>,
    pub filename: Seq<char>,
    pub thread_count: u8,
}

impl View for DownloadConfig {
    type V = DownloadConfigView;

    open spec fn view(&self) -> DownloadConfigView {
        DownloadConfigView {
            task_id: self.task_id@,
            page_url: self.page_url@,
            m3u8_url: self.m3u8_url@,
            save_directory: self.save_directory@,
            filename: self.filename@,
            thread_count: self.thread_count,
        }
    }
}

impl Clone for DownloadConfig {
    fn clone(&self) -> (r: Self)
        ensures
            r@ == self@,
    {
        DownloadConfig {
            task_id: self.task_id.clone(),
            page_url: self.page_url.clone(),
            m3u8_url: self.m3u8_url.clone(),
            save_directory: self.save_directory.clone(),
            filename: self.filename.clone(),
            thread_count: self.thread_count,
        }
    }
}

/// Why a download could not be set up.
#[derive(Clone, Copy, PartialEq, Eq, Debug)]
pub enum EngineError {
    /// The file name is blank or holds a `/`.
    InvalidFilename,
    /// The page URL gives no origin for the request headers.
    Url(UrlError),
}

/// A string of Unicode white space only (what `trim().is_empty()` tests).
pub open spec fn blank(s: Seq<char>) -> bool {
    forall|i: int| 0 <= i < s.len() ==> text::is_space(#[trigger] s[i])
}

/// `dir` joined with a file name that holds no `/` (`Path::join`): a
/// separator goes between them unless `dir` is empty or already ends in one.
pub open spec fn joined_path(dir: Seq<char>, name: Seq<char>) -> Seq<char> {
    if dir.len() == 0 {
        name
    } else if dir.last() == '/' {
        dir + name
    } else {
        dir + seq!['/'] + name
    }
}

pub open spec fn output_path_outcome(dir: Seq<char>, name: Seq<char>) -> Result<Seq<char>, EngineError> {
    if blank(name) || text::contains(name, "/"@) {
        Err(EngineError::InvalidFilename)
    } else {
        Ok(joined_path(dir, name))
    }
}

pub fn blank_exec(v: &Vec<char>) -> (r: bool)
    ensures
        r == blank(v@),
{
    let mut i: usize = 0;
    while i < v.len()
        invariant
            i <= v.len(),
            forall|j: int| 0 <= j < i ==> text::is_space(#[trigger] v@[j]),
        decreases v.len() - i,
    {
        if !text::space_char(v[i]) {
            return false;
        }
        i = i + 1;
    }
    true
}

/// The file yt-dlp writes: the save directory joined with the file name,
/// which must be a plain, non-blank name.
pub fn output_path(save_directory: &str, filename: &str) -> (r: Result<String, EngineError>)
    ensures
        urls::string_result_view(r) == output_path_outcome(save_directory@, filename@),
{
    let name = str_to_chars(filename);
    if blank_exec(&name) || str_contains(filename, "/") {
        return Err(EngineError::InvalidFilename);
    }
    let mut path = str_to_chars(save_directory);
    if path.len() > 0 && path[path.len() - 1] != '/' {
        path.push('/');
        text::append_chars(&mut path, &name);
        assert(path@ =~= save_directory@ + seq!['/'] + filename@);
    } else {
        text::append_chars(&mut path, &name);
        assert(path@ =~= save_directory@ + filename@);
    }
    Ok(chars_to_string(&path))
}

pub open spec fn max1(n: u8) -> u8 {
    if n < 1 { 1 } else { n }
}

/// The arguments yt-dlp is started with: progress on new lines, mp4
/// output, `thread_count` (at least 1) parallel fragments, the output
/// file, the page origin as `Referer` and `Origin`, the Safari user agent,
/// and the media URL last.
pub open spec fn yt_dlp_args(c: DownloadConfigView, out: Seq<char>, origin: Seq<char>) -> Seq<Seq<char>> {
    seq![
        "--newline"@, "--merge-output-format"@, "mp4"@, "-N"@,
        text::decimal(max1(c.thread_count) as nat),
        "-o"@, out,
        "--add-header"@, "Referer: "@ + origin,
        "--add-header"@, "Origin: "@ + origin,
        "--add-header"@, "User-Agent: "@ + SAFARI_USER_AGENT@,
        c.m3u8_url
    ]
}

pub open spec fn yt_dlp_args_outcome(c: DownloadConfigView) -> Result<Seq<Seq<char>>, EngineError> {
    match output_path_outcome(c.save_directory, c.filename) {
        Err(e) => Err(e),
        Ok(out) => match urls::origin_outcome(urls::url_parse(c.page_url)) {
            Err(e) => Err(EngineError::Url(e)),
            Ok(origin) => Ok(yt_dlp_args(c, out, origin)),
        },
    }
}

pub open spec fn strings_view(v: Vec<String>) -> Seq<Seq<char>> {
    v@.map_values(|s: String| s@)
}

pub open spec fn args_result_view(r: Result<Vec<String>, EngineError>) -> Result<Seq<Seq<char>>, EngineError> {
    match r {
        Ok(v) => Ok(strings_view(v)),
        Err(e) => Err(e),
    }
}

fn prefixed(prefix: &str, rest: &str) -> (r: String)
    ensures
        r@ == prefix@ + rest@,
{
    String::from_str(prefix).concat(rest)
}

/// Builds the yt-dlp command line for a download.
pub fn build_yt_dlp_args(config: &DownloadConfig) -> (r: Result<Vec<String>, EngineError>)
    ensures
        args_result_view(r) == yt_dlp_args_outcome(config@),
{
    let out = match output_path(config.save_directory.as_str(), config.filename.as_str()) {
        Ok(p) => p,
        Err(e) => return Err(e),
    };
    let origin = match origin_from_url(config.page_url.as_str()) {
        Ok(o) => o,
        Err(e) => return Err(EngineError::Url(e)),
    };
    let threads: u8 = if config.thread_count < 1 { 1 } else { config.thread_count };
    let mut args: Vec<String> = Vec::new();
    args.push(String::from_str("--newline"));
    args.push(String::from_str("--merge-output-format"));
    args.push(String::from_str("mp4"));
    args.push(String::from_str("-N"));
    args.push(text::decimal_string(threads as u128));
    args.push(String::from_str("-o"));
    args.push(out);
    args.push(String::from_str("--add-header"));
    args.push(prefixed("Referer: ", origin.as_str()));
    args.push(String::from_str("--add-header"));
    args.push(prefixed("Origin: ", origin.as_str()));
    args.push(String::from_str("--add-header"));
    args.push(prefixed("User-Agent: ", SAFARI_USER_AGENT));
    args.push(config.m3u8_url.clone());
    assert(strings_view(args) =~= yt_dlp_args(config@, out@, origin@));
    Ok(args)
}

/// Whether `name`, a file in a download's save directory, is one of the
/// partial files yt-dlp keeps for the output file `filename` while it runs:
/// `<filename>.part`, `<filename>.ytdl`, or a fragment
/// `<filename>.part-Frag<n>`. Cancelling a download removes these.
pub open spec fn partial_file_of(filename: Seq<char>, name: Seq<char>) -> bool {
    name == filename + ".part"@ || name == filename + ".ytdl"@
        || (name.len() > filename.len() + ".part-Frag"@.len() && text::occurs_at(name, 0, filename + ".part-Frag"@))
}

pub fn is_partial_file_of(filename: &str, name: &str) -> (r: bool)
    ensures
        r == partial_file_of(filename@, name@),
{
    let part = String::from_str(filename).concat(".part");
    let ytdl = String::from_str(filename).concat(".ytdl");
    let frag = str_to_chars(String::from_str(filename).concat(".part-Frag").as_str());
    let n = str_to_chars(name);
    let owned = String::from_str(name);
    owned == part || owned == ytdl || (n.len() > frag.len() && text::occurs_at_exec(&n, 0, &frag))
}

/// The parallel fragment count every download is started with.
pub const DEFAULT_THREAD_COUNT: u8 = 20;

// ---------------------------------------------------------------------
//  Event payloads
// ---------------------------------------------------------------------

/// `progress-updated`: the latest progress of a task.
pub struct ProgressPayload {
    pub task_id: String,
    pub progress: DownloadProgress,
}

/// `relay-needed`: the task hit a 403 and its yt-dlp has exited.
pub struct RelayNeededPayload {
    pub task_id: String,
}

/// `download-completed`.
pub struct CompletionPayload {
    pub task_id: String,
}

/// `download-process-exited`: whether the run completed, and the exit code.
pub struct ProcessExitedPayload {
    pub task_id: String,
    pub success: bool,
    pub code: Option<i32>,
}

/// `state-changed`: a task's new state by name, with an optional error
/// message and relay phase.
pub struct StateChangedPayload {
    pub task_id: String,
    pub state: String,
    pub error_message: Option<String>,
    pub relay_phase: Option<String>,
}

// ---------------------------------------------------------------------
//  The registry of running downloads
// ---------------------------------------------------------------------

/// A started yt-dlp process and what it was started with.
pub struct RunningDownload {
    pub pid: u32,
    pub config: DownloadConfig,
}

/// The running yt-dlp processes, one per task id.
pub struct DownloadProcessRegistry {
    processes: Vec<RunningDownload>,
}

pub open spec fn process_entry(p: RunningDownload) -> (Seq<char>, (u32, DownloadConfigView)) {
    (p.config.task_id@, (p.pid, p.config@))
}

/// Why a registry lookup failed.
#[derive(Clone, Copy, PartialEq, Eq, Debug)]
pub enum RegistryError {
    /// No process is registered for the task.
    NotFound,
}

pub open spec fn config_result_view(r: Result<DownloadConfig, RegistryError>) -> Result<DownloadConfigView, RegistryError> {
    match r {
        Ok(c) => Ok(c@),
        Err(e) => Err(e),
    }
}

impl DownloadProcessRegistry {
    pub closed spec fn entries(&self) -> Seq<(Seq<char>, (u32, DownloadConfigView))> {
        self.processes@.map_values(|p: RunningDownload| process_entry(p))
    }

    #[verifier::type_invariant]
    closed spec fn one_process_per_task(&self) -> bool {
        keyed::distinct_keys(self.entries())
    }

    /// Task id to process id and configuration.
    pub closed spec fn view(&self) -> Map<Seq<char>, (u32, DownloadConfigView)> {
        keyed::to_map(self.entries())
    }

    pub fn new() -> (r: Self)
        ensures
            r.view() == Map::<Seq<char>, (u32, DownloadConfigView)>::empty(),
    {
        let r = DownloadProcessRegistry { processes: Vec::new() };
        assert(r.view() =~= Map::<Seq<char>, (u32, DownloadConfigView)>::empty());
        r
    }

    fn index_of(&self, task_id: &str) -> (r: Option<usize>)
        ensures
            match r {
                Some(i) => i < self.entries().len() && self.entries()[i as int].0 == task_id@,
                None => !keyed::has_key(self.entries(), task_id@),
            },
    {
        let key = String::from_str(task_id);
        let mut i: usize = 0;
        while i < self.processes.len()
            invariant
                i <= self.processes.len(),
                key@ == task_id@,
                self.entries() == self.processes@.map_values(|p: RunningDownload| process_entry(p)),
                forall|j: int| 0 <= j < i ==> self.entries()[j].0 != task_id@,
            decreases self.processes.len() - i,
        {
            if self.processes[i].config.task_id == key {
                return Some(i);
            }
            i = i + 1;
        }
        None
    }

    /// Registers a started download, replacing any earlier one of its task.
    pub fn insert(&mut self, running: RunningDownload)
        ensures
            final(self).view() == old(self).view().insert(running.config.task_id@, (running.pid, running.config@)),
    {
        proof { use_type_invariant(&*self); }
        let ghost before = self.entries();
        let ghost entry = process_entry(running);
        match self.index_of(running.config.task_id.as_str()) {
            Some(i) => {
                let mut processes: Vec<RunningDownload> = Vec::new();
                std::mem::swap(&mut processes, &mut self.processes);
                processes.set(i, running);
                proof {
                    assert(processes@.map_values(|p: RunningDownload| process_entry(p)) =~= before.update(i as int, (before[i as int].0, entry.1)));
                    keyed::lemma_to_map_update(before, i as int, entry.1);
                }
                self.processes = processes;
            },
            None => {
                let mut processes: Vec<RunningDownload> = Vec::new();
                std::mem::swap(&mut processes, &mut self.processes);
                processes.push(running);
                proof {
                    assert(processes@.map_values(|p: RunningDownload| process_entry(p)) =~= before.push(entry));
                    keyed::lemma_to_map_push(before, entry.0, entry.1);
                }
                self.processes = processes;
            },
        }
    }

    /// The configuration a task's download was started with.
    pub fn get_config(&self, task_id: &str) -> (r: Result<DownloadConfig, RegistryError>)
        ensures
            config_result_view(r) == (if self.view().contains_key(task_id@) {
                Ok(self.view()[task_id@].1)
            } else {
                Err(RegistryError::NotFound)
            }),
    {
        proof {
            use_type_invariant(self);
            keyed::lemma_to_map_all(self.entries());
        }
        match self.index_of(task_id) {
            Some(i) => Ok(self.processes[i].config.clone()),
            None => Err(RegistryError::NotFound),
        }
    }

    /// The process id of a task's download.
    pub fn pid_of(&self, task_id: &str) -> (r: Result<u32, RegistryError>)
        ensures
            r == (if self.view().contains_key(task_id@) {
                Ok::<u32, RegistryError>(self.view()[task_id@].0)
            } else {
                Err(RegistryError::NotFound)
            }),
    {
        proof {
            use_type_invariant(self);
            keyed::lemma_to_map_all(self.entries());
        }
        match self.index_of(task_id) {
            Some(i) => Ok(self.processes[i].pid),
            None => Err(RegistryError::NotFound),
        }
    }

    /// Forgets a task's download; reports whether one was registered.
    pub fn remove(&mut self, task_id: &str) -> (r: bool)
        ensures
            r == old(self).view().contains_key(task_id@),
            final(self).view() == old(self).view().remove(task_id@),
    {
        proof {
            use_type_invariant(&*self);
            keyed::lemma_to_map_all(self.entries());
        }
        let ghost before = self.entries();
        match self.index_of(task_id) {
            Some(i) => {
                let mut processes: Vec<RunningDownload> = Vec::new();
                std::mem::swap(&mut processes, &mut self.processes);
                let _ = processes.remove(i);
                proof {
                    assert(processes@.map_values(|p: RunningDownload| process_entry(p)) =~= before.remove(i as int));
                    keyed::lemma_to_map_remove(before, i as int);
                }
                self.processes = processes;
                true
            },
            None => {
                assert(old(self).view().remove(task_id@) =~= old(self).view());
                false
            },
        }
    }
}

} // verus!
