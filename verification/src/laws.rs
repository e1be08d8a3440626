//! Properties that hold across the library's operations, stated over the
//! spec functions and views that the operations' contracts use.

use vstd::prelude::*;
use crate::auto_relay;
use crate::auto_relay::MAX_RELAY_ATTEMPTS;
use crate::cdn_adapter;
use crate::commands;
use crate::download_engine;
use crate::download_engine::DownloadConfigView;
use crate::cdn_adapter::{graft, res_marker, resolution_path, marker_ending_at};
use crate::extraction;
use crate::extraction::M3u8OptionView;
use crate::page_scan;
use crate::progress_line;
use crate::task_management;
use crate::task_management::{valid_transition, DownloadTaskView, TaskState};
use crate::text;

verus! {

// ---------------------------------------------------------------------
//  The task state machine
// ---------------------------------------------------------------------

/// A completed or cancelled task never moves again.
pub proof fn law_finished_tasks_stay_finished(next: TaskState)
    ensures
        !valid_transition(TaskState::Completed, next),
        !valid_transition(TaskState::Cancelled, next),
{
}

/// The command table of the task state machine: for each state, which of
/// pause (to Paused), resume (to Downloading), cancel (to Cancelled), a
/// 403 (to Relaying) and completion (to Completed) it accepts. A Relaying
/// task goes back to Downloading when its relay restarts the download,
/// which is the one move the table does not list.
pub proof fn law_command_table()
    ensures
        // Pending: only cancel.
        !valid_transition(TaskState::Pending, TaskState::Paused),
        !valid_transition(TaskState::Pending, TaskState::Downloading),
        valid_transition(TaskState::Pending, TaskState::Cancelled),
        !valid_transition(TaskState::Pending, TaskState::Relaying),
        !valid_transition(TaskState::Pending, TaskState::Completed),
        // Downloading: pause, cancel, 403, completion.
        valid_transition(TaskState::Downloading, TaskState::Paused),
        valid_transition(TaskState::Downloading, TaskState::Cancelled),
        valid_transition(TaskState::Downloading, TaskState::Relaying),
        valid_transition(TaskState::Downloading, TaskState::Completed),
        // Paused: resume and cancel.
        valid_transition(TaskState::Paused, TaskState::Downloading),
        valid_transition(TaskState::Paused, TaskState::Cancelled),
        !valid_transition(TaskState::Paused, TaskState::Relaying),
        !valid_transition(TaskState::Paused, TaskState::Completed),
        // Relaying: cancel, and back to Downloading once relayed.
        !valid_transition(TaskState::Relaying, TaskState::Paused),
        valid_transition(TaskState::Relaying, TaskState::Cancelled),
        !valid_transition(TaskState::Relaying, TaskState::Completed),
        valid_transition(TaskState::Relaying, TaskState::Downloading),
        // Failed: nothing.
        !valid_transition(TaskState::Failed, TaskState::Paused),
        !valid_transition(TaskState::Failed, TaskState::Downloading),
        !valid_transition(TaskState::Failed, TaskState::Cancelled),
        !valid_transition(TaskState::Failed, TaskState::Relaying),
        !valid_transition(TaskState::Failed, TaskState::Completed),
{
}

/// Every state's event name reads back as that state, so the names the
/// engine emits are understood by the listener.
pub proof fn law_state_names_round_trip(s: TaskState)
    ensures
        task_management::state_of_name(task_management::state_name(s)) == Some(s),
{
    reveal_strlit("Pending");
    reveal_strlit("Extracting");
    reveal_strlit("Selecting");
    reveal_strlit("Downloading");
    reveal_strlit("Merging");
    reveal_strlit("Relaying");
    reveal_strlit("Paused");
    reveal_strlit("Completed");
    reveal_strlit("Cancelled");
    reveal_strlit("Failed");
    // Names of one length differ in their first two letters.
    assert("Pending"@ != "Merging"@) by { assert("Pending"@[0] != "Merging"@[0]); }
    assert("Selecting"@ != "Completed"@) by { assert("Selecting"@[0] != "Completed"@[0]); }
    assert("Selecting"@ != "Cancelled"@) by { assert("Selecting"@[0] != "Cancelled"@[0]); }
    assert("Completed"@ != "Cancelled"@) by { assert("Completed"@[1] != "Cancelled"@[1]); }
    assert("Paused"@ != "Failed"@) by { assert("Paused"@[0] != "Failed"@[0]); }
    assert("Pending"@.len() == 7 && "Extracting"@.len() == 10 && "Selecting"@.len() == 9
        && "Downloading"@.len() == 11 && "Merging"@.len() == 7 && "Relaying"@.len() == 8
        && "Paused"@.len() == 6 && "Completed"@.len() == 9 && "Cancelled"@.len() == 9
        && "Failed"@.len() == 6);
}

/// A created task starts Pending, with no playlist chosen, no progress and
/// a file name without `/`.
pub proof fn law_new_tasks_start_pending(
    page_url: Seq<char>,
    dir_input: Option<Seq<char>>,
    name_input: Option<Seq<char>>,
    default_dir: Seq<char>,
    dir_exists: bool,
    id: Seq<char>,
)
    ensures
        task_management::creation_outcome(page_url, dir_input, name_input, default_dir, dir_exists, id) matches Ok(t)
            ==> t.state == TaskState::Pending && t.m3u8_url is None && t.progress.relay_attempts == 0
                && !text::contains(t.filename, "/"@) && t.id == id,
{
}

/// Changing one task leaves every other task as it was (what each store
/// update's contract gives: the store after it is the store before with one
/// entry replaced).
pub proof fn law_tasks_change_independently(
    before: Map<Seq<char>, DownloadTaskView>,
    id: Seq<char>,
    updated: DownloadTaskView,
    other: Seq<char>,
)
    requires
        other != id,
    ensures
        before.insert(id, updated).contains_key(other) == before.contains_key(other),
        before.contains_key(other) ==> before.insert(id, updated)[other] == before[other],
        before.insert(id, updated)[id] == updated,
{
}

/// Each task's running download is kept apart: registering one reads back
/// as registered and leaves the entry of every other task as it was, and a
/// removed task has no entry.
pub proof fn law_downloads_registered_independently(
    before: Map<Seq<char>, (u32, DownloadConfigView)>,
    pid: u32,
    config: DownloadConfigView,
    other: Seq<char>,
)
    requires
        other != config.task_id,
    ensures
        before.insert(config.task_id, (pid, config))[config.task_id] == (pid, config),
        before.insert(config.task_id, (pid, config)).contains_key(other) == before.contains_key(other),
        before.contains_key(other) ==> before.insert(config.task_id, (pid, config))[other] == before[other],
        !before.remove(config.task_id).contains_key(config.task_id),
        before.remove(config.task_id).contains_key(other) == before.contains_key(other),
{
}

/// After a restart no task is completed or still running: completed tasks
/// are dropped, and downloads and relays come back paused.
pub proof fn law_restored_tasks_are_idle(tasks: Seq<DownloadTaskView>)
    ensures
        forall|i: int| 0 <= i < task_management::restored_all(tasks).len() ==> {
            let s = (#[trigger] task_management::restored_all(tasks)[i]).state;
            s != TaskState::Completed && s != TaskState::Downloading && s != TaskState::Relaying
        },
        task_management::restored_all(tasks).len() <= tasks.len(),
    decreases tasks.len(),
{
    if tasks.len() > 0 {
        law_restored_tasks_are_idle(tasks.drop_last());
    }
}

// ---------------------------------------------------------------------
//  Relays
// ---------------------------------------------------------------------

/// Relay numbers 1 to 30 may run, and no later one.
pub proof fn law_relay_limit(n: u32)
    requires
        n >= 1,
    ensures
        (n <= MAX_RELAY_ATTEMPTS) == (n <= 30),
{
}

/// A relay that starts leaves its task Relaying with one more relay
/// counted, never more than the limit; a task that has used up its relays
/// is never relayed again.
pub proof fn law_relay_counts(m: Map<Seq<char>, DownloadTaskView>, id: Seq<char>)
    ensures
        auto_relay::relay_start(m, id).0 matches Ok(t) ==> t.state == TaskState::Relaying
            && t.progress.relay_attempts == m[id].progress.relay_attempts + 1
            && t.progress.relay_attempts <= MAX_RELAY_ATTEMPTS
            && auto_relay::relay_start(m, id).1[id] == t,
        m.contains_key(id) && m[id].progress.relay_attempts >= MAX_RELAY_ATTEMPTS
            ==> auto_relay::relay_start(m, id).0 is Err,
{
}

/// A relay restarts yt-dlp exactly as a start or a resume with the same URL
/// would: same task, page, directory, file name and thread count, so the new
/// process writes to the partial file of the old one.
pub proof fn law_restarts_write_the_same_file(t: DownloadTaskView, url: Seq<char>)
    ensures
        auto_relay::relay_config(t, url) == commands::task_config(t, url),
        commands::task_config(t, url).save_directory == t.save_directory,
        commands::task_config(t, url).filename == t.filename,
        download_engine::yt_dlp_args_outcome(auto_relay::relay_config(t, url))
            == download_engine::yt_dlp_args_outcome(commands::task_config(t, url)),
{
}

/// The cache-busted page URL is the page URL with a parameter appended.
pub proof fn law_cache_busting_appends(page_url: Seq<char>, now_millis: u128)
    ensures
        auto_relay::cache_busted(page_url, now_millis).take(page_url.len() as int) == page_url,
        auto_relay::cache_busted(page_url, now_millis).len() > page_url.len(),
{
    let r = auto_relay::cache_busted(page_url, now_millis);
    assert(r.take(page_url.len() as int) =~= page_url);
}

// ---------------------------------------------------------------------
//  Grafting and expiry
// ---------------------------------------------------------------------

/// A refreshed URL that already names a quality is used as it is, whatever
/// the adapter.
pub proof fn law_refreshed_quality_wins(new_url: Seq<char>, old_url: Seq<char>)
    requires
        resolution_path(new_url) is Some,
        resolution_path(old_url) is Some,
    ensures
        cdn_adapter::patched_m3u8_url(new_url, old_url) == new_url,
{
}

proof fn lemma_markers()
    ensures
        forall|i: int| 0 <= i < 3 ==> (#[trigger] res_marker(i)).len() == 6 && res_marker(i)[0] == '/' && res_marker(i)[1] != '/',
        forall|i: int| 3 <= i < 8 ==> (#[trigger] res_marker(i)).len() == 5 && res_marker(i)[0] == '/',
{
    reveal_strlit("/2160p");
    reveal_strlit("/1440p");
    reveal_strlit("/1080p");
    reveal_strlit("/720p");
    reveal_strlit("/540p");
    reveal_strlit("/480p");
    reveal_strlit("/360p");
    reveal_strlit("/240p");
}

proof fn lemma_marker_first(s: Seq<char>, k: int, from: int)
    requires
        0 <= from,
        marker_ending_at(s, k, from) is Some,
    ensures
        from <= marker_ending_at(s, k, from)->0 < 8,
        text::occurs_at(s, k - res_marker(marker_ending_at(s, k, from)->0).len(), res_marker(marker_ending_at(s, k, from)->0)),
        forall|j: int| from <= j < marker_ending_at(s, k, from)->0 ==> !text::occurs_at(s, k - res_marker(j).len(), #[trigger] res_marker(j)),
    decreases 8 - from,
{
    if !text::occurs_at(s, k - res_marker(from).len(), res_marker(from)) {
        lemma_marker_first(s, k, from + 1);
    }
}

proof fn lemma_marker_ending_at_of(s: Seq<char>, k: int, i: int)
    requires
        0 <= i < 8,
        text::occurs_at(s, k - res_marker(i).len(), res_marker(i)),
        forall|j: int| 0 <= j < i ==> !text::occurs_at(s, k - res_marker(j).len(), #[trigger] res_marker(j)),
    ensures
        marker_ending_at(s, k, 0) == Some(i),
{
    lemma_marker_from(s, k, i, 0);
}

proof fn lemma_marker_from(s: Seq<char>, k: int, i: int, from: int)
    requires
        0 <= from <= i < 8,
        text::occurs_at(s, k - res_marker(i).len(), res_marker(i)),
        forall|j: int| from <= j < i ==> !text::occurs_at(s, k - res_marker(j).len(), #[trigger] res_marker(j)),
    ensures
        marker_ending_at(s, k, from) == Some(i),
    decreases i - from,
{
    if from < i {
        assert(!text::occurs_at(s, k - res_marker(from).len(), res_marker(from)));
        lemma_marker_from(s, k, i, from + 1);
    }
}

/// Grafting keeps the quality being downloaded: where the expired URL names
/// a quality and the refreshed one names none, the URL the relay uses names
/// the expired URL's quality path.
pub proof fn law_graft_keeps_quality(new_url: Seq<char>, old_url: Seq<char>)
    requires
        resolution_path(old_url) is Some,
        resolution_path(new_url) is None,
        text::last_index_of(new_url, '/') >= 0,
    ensures
        resolution_path(cdn_adapter::patched_m3u8_url(new_url, old_url)) == resolution_path(old_url),
{
    let path = resolution_path(old_url)->0;
    let k = text::last_index_of(new_url, '/');
    let r = new_url.take(k) + path;
    assert(graft(new_url, old_url) == Some(r));
    assert(cdn_adapter::patched_m3u8_url(new_url, old_url) == r);

    text::lemma_last_index_of(old_url, '/');
    text::lemma_last_index_of(new_url, '/');
    lemma_markers();
    let ko = text::last_index_of(old_url, '/');
    let i = marker_ending_at(old_url, ko, 0)->0;
    lemma_marker_first(old_url, ko, 0);
    let mlen = res_marker(i).len() as int;
    assert(path == old_url.skip(ko - mlen));
    // The last `/` of the grafted URL is the one after the quality marker.
    let kr = k + mlen;
    assert(r[kr] == '/') by {
        assert(r[kr] == path[mlen]);
        assert(path[mlen] == old_url[ko]);
    }
    assert forall|j: int| kr < j < r.len() implies #[trigger] r[j] != '/' by {
        assert(r[j] == path[j - k]);
        assert(path[j - k] == old_url[ko - mlen + j - k]);
    }
    assert(text::last_index_of(r, '/') == kr) by {
        text::lemma_last_index_of(r, '/');
        let lr = text::last_index_of(r, '/');
        if lr < kr {
        } else if lr > kr {
            assert(r[lr] != '/');
        }
    }
    assert(r.skip(kr + 1) =~= old_url.skip(ko + 1)) by {
        assert forall|j: int| 0 <= j < r.skip(kr + 1).len() implies #[trigger] r.skip(kr + 1)[j] == old_url.skip(ko + 1)[j] by {
            assert(r[kr + 1 + j] == path[mlen + 1 + j]);
        }
    }
    // The same quality marker ends there, and no earlier one does.
    assert(r.subrange(kr - mlen, kr) =~= old_url.subrange(ko - mlen, ko)) by {
        assert forall|j: int| 0 <= j < mlen implies #[trigger] r.subrange(kr - mlen, kr)[j] == old_url.subrange(ko - mlen, ko)[j] by {
            assert(r[k + j] == path[j]);
        }
    }
    assert forall|j: int| 0 <= j < i implies !text::occurs_at(r, kr - res_marker(j).len(), #[trigger] res_marker(j)) by {
        let lj = res_marker(j).len() as int;
        if lj <= mlen {
            if text::occurs_at(r, kr - lj, res_marker(j)) {
                assert(r.subrange(kr - lj, kr) =~= old_url.subrange(ko - lj, ko)) by {
                    assert forall|q: int| 0 <= q < lj implies #[trigger] r.subrange(kr - lj, kr)[q] == old_url.subrange(ko - lj, ko)[q] by {
                        assert(r[kr - lj + q] == path[mlen - lj + q]);
                    }
                }
                assert(text::occurs_at(old_url, ko - lj, res_marker(j)));
            }
        } else {
            if text::occurs_at(r, kr - lj, res_marker(j)) {
                assert(r.subrange(kr - lj, kr)[1] == res_marker(j)[1]);
                assert(r[kr - lj + 1] == path[0]);
                assert(path[0] == res_marker(i)[0]);
            }
        }
    }
    lemma_marker_ending_at_of(r, kr, i);
    assert(r.skip(kr - mlen) =~= path) by {
        assert forall|j: int| 0 <= j < path.len() implies #[trigger] r.skip(kr - mlen)[j] == path[j] by {
            assert(r[k + j] == path[j]);
        }
    }
}

/// An Avjoy media URL whose ten-digit path stamp lies before `now` has
/// expired at `now`.
pub proof fn law_avjoy_stamps_expire(url: Seq<char>, stamp: u64, now: u64)
    requires
        cdn_adapter::selected_adapter(url) == cdn_adapter::RegisteredAdapter::Avjoy,
        cdn_adapter::path_stamp_from(url, 0) == Some(stamp),
        stamp < now,
    ensures
        cdn_adapter::url_expired_at(url, now),
{
}

/// An expired URL stays expired: expiry only moves one way in time.
pub proof fn law_expiry_is_monotone(url: Seq<char>, now: u64, later: u64)
    requires
        now <= later,
    ensures
        cdn_adapter::url_expired_at(url, now) ==> cdn_adapter::url_expired_at(url, later),
{
}

/// A URL no specialised adapter claims never expires.
pub proof fn law_generic_urls_never_expire(url: Seq<char>, now: u64)
    requires
        cdn_adapter::selected_adapter(url) == cdn_adapter::RegisteredAdapter::Generic,
    ensures
        !cdn_adapter::url_expired_at(url, now),
{
}

// ---------------------------------------------------------------------
//  Reading output and pages
// ---------------------------------------------------------------------

proof fn lemma_no_progress_without_marker(s: Seq<char>, i: int)
    requires
        0 <= i,
        !text::contains(s, "[download]"@),
    ensures
        progress_line::first_progress(s, i) is None,
    decreases s.len() + 1 - i,
{
    if i <= s.len() {
        assert(!text::occurs_at(s, i, "[download]"@));
        lemma_no_progress_without_marker(s, i + 1);
    }
}

/// A line without `[download]` reports no progress.
pub proof fn law_only_download_lines_report_progress(s: Seq<char>)
    requires
        !text::contains(s, "[download]"@),
    ensures
        crate::download_engine::progress_of_line(s) is None,
{
    lemma_no_progress_without_marker(s, 0);
}

/// No advertisement URL is ever captured or offered from a page's source,
/// and a direct Avjoy main video that is captured is recorded as it is.
pub proof fn law_ads_are_never_offered(candidate: Seq<char>, html: Seq<char>, u: Seq<char>)
    ensures
        extraction::captured_urls(candidate).contains(u) ==> !extraction::ad_url(u),
        Set::new(|x: Seq<char>| page_scan::page_urls(html).contains(x) && !extraction::ad_url(x)).contains(u)
            ==> !extraction::ad_url(u),
        extraction::direct_media_url(candidate) && !extraction::ad_url(candidate)
            ==> extraction::captured_urls(candidate).contains(candidate),
{
}

/// Every quality label is non-empty.
pub proof fn law_labels_are_never_empty(url: Seq<char>)
    ensures
        extraction::resolution_label(url).len() > 0,
{
    reveal_strlit("Unknown resolution");
    reveal_strlit("p");
}

proof fn lemma_first_labelled(opts: Seq<M3u8OptionView>, target: Seq<char>, from: int, k: int)
    requires
        0 <= from <= k < opts.len(),
        opts[k].resolution == target,
    ensures
        extraction::first_labelled(opts, target, from) matches Some(i) && opts[i].resolution == target,
    decreases k - from,
{
    if opts[from].resolution != target {
        lemma_first_labelled(opts, target, from + 1, k);
    }
}

/// A relay keeps the quality it wants whenever the fresh options offer it.
pub proof fn law_wanted_quality_is_kept(opts: Seq<M3u8OptionView>, target: Seq<char>, k: int)
    requires
        0 <= k < opts.len(),
        opts[k].resolution == target,
    ensures
        extraction::chosen_option(opts, target) matches Some(o) && o.resolution == target,
{
    lemma_first_labelled(opts, target, 0, k);
}

/// The capture never waits past its deadline, and never wakes in the past.
pub proof fn law_capture_wait_is_bounded(now: u64, deadline: u64, quiet_until: Option<u64>)
    ensures
        extraction::next_wake(now, deadline, quiet_until) matches Some(w) ==> now < w <= deadline,
{
}

// ---------------------------------------------------------------------
//  The rules, stated from the inputs
// ---------------------------------------------------------------------

/// A loaded task is kept on restore unless it was Completed.
pub open spec fn kept_on_restore() -> spec_fn(DownloadTaskView) -> bool {
    |t: DownloadTaskView| t.state != TaskState::Completed
}

/// A running task comes back paused; every other one as it was.
pub open spec fn as_restored() -> spec_fn(DownloadTaskView) -> DownloadTaskView {
    |t: DownloadTaskView| if t.state == TaskState::Downloading || t.state == TaskState::Relaying {
        DownloadTaskView { state: TaskState::Paused, ..t }
    } else {
        t
    }
}

/// Restoring drops exactly the Completed tasks and keeps the others in
/// their order, each as it was except that a running one is paused; so as
/// many tasks come back as were not Completed.
pub proof fn law_restore_drops_only_completed(tasks: Seq<DownloadTaskView>)
    ensures
        task_management::restored_all(tasks) == tasks.filter(kept_on_restore()).map_values(as_restored()),
        task_management::restored_all(tasks).len() == tasks.filter(kept_on_restore()).len(),
    decreases tasks.len(),
{
    reveal(Seq::filter);
    if tasks.len() > 0 {
        let p = tasks.drop_last();
        law_restore_drops_only_completed(p);
        let f = p.filter(kept_on_restore());
        if kept_on_restore()(tasks.last()) {
            assert(tasks.filter(kept_on_restore()) == f.push(tasks.last()));
            assert(f.push(tasks.last()).map_values(as_restored())
                =~= f.map_values(as_restored()).push(as_restored()(tasks.last())));
        } else {
            assert(tasks.filter(kept_on_restore()) == f);
        }
    }
}

/// The whole task state machine, row by row: the states each state may move
/// to, and no others.
pub proof fn law_state_machine_rows(next: TaskState)
    ensures
        valid_transition(TaskState::Pending, next) <==> (next == TaskState::Extracting
            || next == TaskState::Cancelled || next == TaskState::Failed),
        valid_transition(TaskState::Extracting, next) <==> (next == TaskState::Selecting
            || next == TaskState::Downloading || next == TaskState::Cancelled || next == TaskState::Failed),
        valid_transition(TaskState::Selecting, next) <==> (next == TaskState::Downloading
            || next == TaskState::Cancelled || next == TaskState::Failed),
        valid_transition(TaskState::Downloading, next) <==> (next == TaskState::Completed
            || next == TaskState::Merging || next == TaskState::Relaying || next == TaskState::Paused
            || next == TaskState::Cancelled || next == TaskState::Failed),
        valid_transition(TaskState::Merging, next) <==> (next == TaskState::Completed
            || next == TaskState::Relaying || next == TaskState::Cancelled || next == TaskState::Failed),
        valid_transition(TaskState::Relaying, next) <==> (next == TaskState::Downloading
            || next == TaskState::Cancelled || next == TaskState::Failed),
        valid_transition(TaskState::Paused, next) <==> (next == TaskState::Downloading
            || next == TaskState::Cancelled || next == TaskState::Failed),
        valid_transition(TaskState::Completed, next) <==> false,
        valid_transition(TaskState::Cancelled, next) <==> false,
        valid_transition(TaskState::Failed, next) <==> next == TaskState::Pending,
{
}

/// A task that is merging completes: the merge or fix-up stage ends in
/// Completed when yt-dlp exits successfully.
pub proof fn law_merging_tasks_complete()
    ensures
        valid_transition(TaskState::Merging, TaskState::Completed),
        valid_transition(TaskState::Downloading, TaskState::Merging),
{
}

/// The output lines that report the merge or fix-up stage: any line with
/// `[Merger]`, any with `[Fixup` (such as `[FixupM3u8]`), any with
/// `Merging formats into`, and an `[ffmpeg]` line that merges or fixes;
/// and no other line.
pub proof fn law_merging_lines(line: Seq<char>)
    ensures
        text::contains(line, "[Merger]"@) ==> download_engine::merging_line(line),
        text::contains(line, "[Fixup"@) ==> download_engine::merging_line(line),
        text::contains(line, "Merging formats into"@) ==> download_engine::merging_line(line),
        text::contains(line, "[ffmpeg]"@) && (text::contains(line, "Merging"@) || text::contains(line, "Fixing"@))
            ==> download_engine::merging_line(line),
        download_engine::merging_line(line) ==> (text::contains(line, "[Merger]"@)
            || text::contains(line, "[Fixup"@) || text::contains(line, "Merging formats into"@)
            || (text::contains(line, "[ffmpeg]"@)
                && (text::contains(line, "Merging"@) || text::contains(line, "Fixing"@)))),
{
}

/// The three 403 forms yt-dlp prints each call for a relay, and nothing
/// else does.
pub proof fn law_forbidden_lines(line: Seq<char>)
    ensures
        text::contains(line, "HTTP Error 403"@) ==> download_engine::forbidden_line(line),
        text::contains(line, "403 Forbidden"@) ==> download_engine::forbidden_line(line),
        text::contains(line, "HTTP error 403"@) ==> download_engine::forbidden_line(line),
        download_engine::forbidden_line(line) ==> (text::contains(line, "HTTP Error 403"@)
            || text::contains(line, "403 Forbidden"@) || text::contains(line, "HTTP error 403"@)),
{
}

/// Each blacklisted advertisement CDN is recognised wherever it appears,
/// and a URL naming none of them is not an advertisement.
pub proof fn law_ad_cdn_blacklist(u: Seq<char>)
    ensures
        text::contains(u, "growcdnssedge.com"@) ==> extraction::ad_url(u),
        text::contains(u, "saawsedge.com"@) ==> extraction::ad_url(u),
        text::contains(u, "nexusriftcore4.cyou"@) ==> extraction::ad_url(u),
        !text::contains(u, "growcdnssedge.com"@) && !text::contains(u, "saawsedge.com"@)
            && !text::contains(u, "nexusriftcore4.cyou"@) ==> !extraction::ad_url(u),
{
}

/// Which adapter a URL gets: any URL carrying a BunnyCDN token
/// (`bcdn_token=`) or on a BunnyCDN host (`b-cdn.net`, `avking`) gets the
/// BunnyCDN adapter; otherwise a CloudFront URL with a `Policy=` gets
/// CloudFront, an Avjoy content URL gets Avjoy, and anything else Generic.
pub proof fn law_adapter_dispatch(u: Seq<char>)
    ensures
        text::contains(u, "bcdn_token="@) ==> cdn_adapter::selected_adapter(u) == cdn_adapter::RegisteredAdapter::BunnyCdn,
        text::contains(u, "b-cdn.net"@) ==> cdn_adapter::selected_adapter(u) == cdn_adapter::RegisteredAdapter::BunnyCdn,
        text::contains(u, "avking"@) ==> cdn_adapter::selected_adapter(u) == cdn_adapter::RegisteredAdapter::BunnyCdn,
        cdn_adapter::selected_adapter(u) == cdn_adapter::RegisteredAdapter::BunnyCdn ==> (text::contains(u, "bcdn_token="@)
            || text::contains(u, "b-cdn.net"@) || text::contains(u, "avking"@)),
        !text::contains(u, "bcdn_token="@) && !text::contains(u, "b-cdn.net"@) && !text::contains(u, "avking"@)
            && text::contains(u, "cloudfront.net"@) && text::contains(u, "Policy="@)
            ==> cdn_adapter::selected_adapter(u) == cdn_adapter::RegisteredAdapter::CloudFront,
        cdn_adapter::selected_adapter(u) == cdn_adapter::RegisteredAdapter::Avjoy
            ==> text::contains(u, "://media-cdn"@) && text::contains(u, ".avjoy.me"@),
{
}

/// A BunnyCDN-token URL expires by its first `expires=` stamp, read up to
/// the next `&`, `/` or space: it has expired at every time after it.
pub proof fn law_bunny_tokens_expire(u: Seq<char>, stamp: u64, now: u64)
    requires
        text::contains(u, "bcdn_token="@),
        cdn_adapter::expiry_stamp(u, false) == Some(stamp),
        stamp < now,
    ensures
        cdn_adapter::url_expired_at(u, now),
{
    law_adapter_dispatch(u);
}

} // verus!
