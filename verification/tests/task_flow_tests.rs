use javrate_downloader::auto_relay::{
    begin_relay, cache_busted_url, relay_download_config, relay_phase_message, relay_status_payload,
    relay_target_url, state_changed_payload, RelayError,
};
use javrate_downloader::commands::{
    cancel_needs_signal, download_config_for, finish_start, prepare_start, resume_config_from_task,
    CreateTaskRequest, ResumeError,
};
use javrate_downloader::download_engine::{is_partial_file_of, DownloadProgress};
use javrate_downloader::extraction::M3u8Option;
use javrate_downloader::task_management::{
    derive_filename, is_valid_transition, resolve_save_directory, restore_loaded_tasks,
    validate_filename, CreateTaskInput, DownloadTask, TaskError, TaskState, TaskStore,
};
use javrate_downloader::urls::UrlError;

fn input(page_url: &str, dir: Option<&str>, name: Option<&str>) -> CreateTaskInput {
    CreateTaskInput {
        page_url: page_url.to_string(),
        save_directory: dir.map(|d| d.to_string()),
        filename: name.map(|n| n.to_string()),
    }
}

fn task_in(id: &str, state: TaskState) -> DownloadTask {
    DownloadTask {
        id: id.into(),
        page_url: format!("https://example.com/watch/{id}"),
        m3u8_url: None,
        selected_resolution: None,
        save_directory: "/tmp".into(),
        filename: format!("{id}.mp4"),
        state,
        progress: DownloadProgress::default(),
        error_message: None,
        relay_phase: None,
    }
}

/// A store holding one task `id`, moved through the state machine to Downloading.
fn downloading_store(id: &str) -> TaskStore {
    let mut store = TaskStore::new();
    store
        .create_task(input("https://example.com/watch/one", Some("/tmp"), Some("one.mp4")), "/tmp", true, id.into())
        .unwrap();
    store.update_state(id, TaskState::Extracting).unwrap();
    store.update_state(id, TaskState::Downloading).unwrap();
    store
}

#[test]
fn new_task_starts_pending_with_given_id() {
    let mut store = TaskStore::new();
    let t = store
        .create_task(input("https://example.com/videos/abc-123.html", None, None), "/downloads", true, "id-1".into())
        .unwrap();
    assert_eq!(t.id, "id-1");
    assert_eq!(t.state, TaskState::Pending);
    assert_eq!(t.save_directory, "/downloads");
    assert_eq!(t.filename, "abc-123.mp4");
    assert!(t.m3u8_url.is_none());
    assert_eq!(t.progress.relay_attempts, 0);
    assert_eq!(store.get("id-1").unwrap().filename, "abc-123.mp4");
}

#[test]
fn blank_filename_falls_back_to_the_derived_one() {
    let mut store = TaskStore::new();
    let t = store
        .create_task(input("https://example.com/watch/clip", Some("/tmp"), Some("   ")), "/d", true, "x".into())
        .unwrap();
    assert_eq!(t.filename, "clip.mp4");
    assert_eq!(t.save_directory, "/tmp");
}

#[test]
fn create_task_reports_each_error() {
    let mut store = TaskStore::new();
    assert_eq!(
        store.create_task(input("not a url", None, None), "/d", true, "a".into()).err(),
        Some(TaskError::InvalidUrl(UrlError::InvalidUrl))
    );
    assert_eq!(
        store.create_task(input("ftp://example.com/file", None, None), "/d", true, "a".into()).err(),
        Some(TaskError::InvalidUrl(UrlError::NotHttp))
    );
    assert_eq!(
        store.create_task(input("https://example.com/a", Some("/nope"), None), "/d", false, "a".into()).err(),
        Some(TaskError::MissingDirectory)
    );
    assert_eq!(
        store.create_task(input("https://example.com/a", None, Some("a/b.mp4")), "/d", true, "a".into()).err(),
        Some(TaskError::InvalidFilename)
    );
    assert!(store.list().is_empty());
}

#[test]
fn derived_filenames() {
    assert_eq!(derive_filename("https://example.com/videos/abc-123.html"), "abc-123.mp4");
    assert_eq!(derive_filename("https://example.com/a/b.html.html"), "b.mp4");
    assert_eq!(derive_filename("https://example.com/"), "video.mp4");
    assert_eq!(derive_filename("not a url"), "video.mp4");
}

#[test]
fn filenames_with_separators_are_refused() {
    assert_eq!(validate_filename("ok.mp4"), Ok(()));
    assert_eq!(validate_filename("a/b.mp4"), Err(TaskError::InvalidFilename));
    assert_eq!(validate_filename("a\0b.mp4"), Err(TaskError::InvalidFilename));
}

#[test]
fn default_directory_is_used_when_none_is_given() {
    assert_eq!(resolve_save_directory(&None, "/home/u/Downloads"), "/home/u/Downloads");
    assert_eq!(resolve_save_directory(&Some("/tmp/x".into()), "/home/u/Downloads"), "/tmp/x");
}

#[test]
fn finished_tasks_stay_finished() {
    let mut store = downloading_store("t");
    store.update_state("t", TaskState::Completed).unwrap();
    assert_eq!(
        store.update_state("t", TaskState::Paused).err(),
        Some(TaskError::InvalidTransition(TaskState::Completed, TaskState::Paused))
    );
    assert_eq!(store.get("t").unwrap().state, TaskState::Completed);
    for next in [TaskState::Pending, TaskState::Downloading, TaskState::Relaying, TaskState::Failed] {
        assert!(!is_valid_transition(&TaskState::Completed, &next));
        assert!(!is_valid_transition(&TaskState::Cancelled, &next));
    }
}

#[test]
fn command_table_of_the_state_machine() {
    assert!(is_valid_transition(&TaskState::Pending, &TaskState::Cancelled));
    assert!(!is_valid_transition(&TaskState::Pending, &TaskState::Paused));
    assert!(!is_valid_transition(&TaskState::Pending, &TaskState::Downloading));
    assert!(is_valid_transition(&TaskState::Paused, &TaskState::Downloading));
    assert!(!is_valid_transition(&TaskState::Paused, &TaskState::Relaying));
    assert!(is_valid_transition(&TaskState::Relaying, &TaskState::Downloading));
    assert!(!is_valid_transition(&TaskState::Failed, &TaskState::Paused));
    assert!(!is_valid_transition(&TaskState::Failed, &TaskState::Cancelled));
    assert!(!is_valid_transition(&TaskState::Failed, &TaskState::Downloading));
    assert!(!is_valid_transition(&TaskState::Failed, &TaskState::Relaying));
    assert!(!is_valid_transition(&TaskState::Failed, &TaskState::Completed));
}

#[test]
fn moving_to_the_current_state_changes_nothing() {
    let mut store = downloading_store("t");
    let t = store.update_state("t", TaskState::Downloading).unwrap();
    assert_eq!(t.state, TaskState::Downloading);
}

#[test]
fn unknown_tasks_are_not_found() {
    let mut store = TaskStore::new();
    assert_eq!(store.get("x").err(), Some(TaskError::NotFound));
    assert_eq!(store.update_state("x", TaskState::Paused).err(), Some(TaskError::NotFound));
    assert_eq!(store.update_progress("x", DownloadProgress::default()).err(), Some(TaskError::NotFound));
    assert_eq!(store.set_download_selection("x", "u".into(), "720p".into()).err(), Some(TaskError::NotFound));
    assert!(!store.delete_task("x"));
}

#[test]
fn list_is_ordered_by_id_and_delete_removes_one() {
    let mut store = TaskStore::new();
    for id in ["b", "c", "a"] {
        store
            .create_task(input("https://example.com/watch/v", Some("/tmp"), None), "/tmp", true, id.into())
            .unwrap();
    }
    let ids: Vec<String> = store.list().into_iter().map(|t| t.id).collect();
    assert_eq!(ids, vec!["a", "b", "c"]);
    assert!(store.delete_task("b"));
    let ids: Vec<String> = store.list().into_iter().map(|t| t.id).collect();
    assert_eq!(ids, vec!["a", "c"]);
    store.clear();
    assert!(store.list().is_empty());
}

#[test]
fn progress_of_one_task_leaves_the_other() {
    let mut store = TaskStore::new();
    for id in ["one", "two"] {
        store
            .create_task(input("https://example.com/watch/v", Some("/tmp"), None), "/tmp", true, id.into())
            .unwrap();
    }
    let mut p = DownloadProgress::default();
    p.percentage = "12.5".into();
    store.update_progress("one", p).unwrap();
    assert_eq!(store.get("one").unwrap().progress.percentage, "12.5");
    assert_eq!(store.get("two").unwrap().progress.percentage, "0");
}

#[test]
fn restored_tasks_are_idle() {
    let restored = restore_loaded_tasks(vec![
        task_in("a", TaskState::Completed),
        task_in("b", TaskState::Relaying),
        task_in("c", TaskState::Failed),
        task_in("d", TaskState::Downloading),
    ]);
    let got: Vec<(String, TaskState)> = restored.into_iter().map(|t| (t.id, t.state)).collect();
    assert_eq!(
        got,
        vec![
            ("b".to_string(), TaskState::Paused),
            ("c".to_string(), TaskState::Failed),
            ("d".to_string(), TaskState::Paused),
        ]
    );
}

#[test]
fn state_names_round_trip() {
    for s in [
        TaskState::Pending,
        TaskState::Extracting,
        TaskState::Selecting,
        TaskState::Downloading,
        TaskState::Merging,
        TaskState::Relaying,
        TaskState::Paused,
        TaskState::Completed,
        TaskState::Cancelled,
        TaskState::Failed,
    ] {
        assert_eq!(TaskState::from_event_state(s.event_name()), Some(s));
    }
    assert_eq!(TaskState::Relaying.event_name(), "Relaying");
    assert_eq!(TaskState::from_event_state("relaying"), None);
}

#[test]
fn relay_moves_a_download_to_relaying_and_counts_it() {
    let mut store = downloading_store("t");
    let t = begin_relay(&mut store, "t").unwrap();
    assert_eq!(t.state, TaskState::Relaying);
    assert_eq!(t.progress.relay_attempts, 1);
    let t = begin_relay(&mut store, "t").unwrap();
    assert_eq!(t.progress.relay_attempts, 2);
    assert_eq!(store.get("t").unwrap().progress.relay_attempts, 2);
}

#[test]
fn relay_limit_marks_the_task_failed() {
    let mut store = downloading_store("t");
    let mut p = DownloadProgress::default();
    p.relay_attempts = 30;
    store.update_progress("t", p).unwrap();
    assert_eq!(begin_relay(&mut store, "t").err(), Some(RelayError::RetryLimitExceeded));
    assert_eq!(store.get("t").unwrap().state, TaskState::Failed);

    let mut store = downloading_store("u");
    let mut p = DownloadProgress::default();
    p.relay_attempts = 29;
    store.update_progress("u", p).unwrap();
    assert_eq!(begin_relay(&mut store, "u").unwrap().progress.relay_attempts, 30);
}

#[test]
fn relay_is_refused_for_unknown_and_idle_tasks() {
    let mut store = TaskStore::new();
    assert_eq!(begin_relay(&mut store, "x").err(), Some(RelayError::Task(TaskError::NotFound)));
    store
        .create_task(input("https://example.com/watch/v", Some("/tmp"), None), "/tmp", true, "p".into())
        .unwrap();
    assert_eq!(
        begin_relay(&mut store, "p").err(),
        Some(RelayError::Task(TaskError::InvalidTransition(TaskState::Pending, TaskState::Relaying)))
    );
    assert_eq!(store.get("p").unwrap().state, TaskState::Pending);
}

#[test]
fn cache_busting_appends_a_time_parameter() {
    assert_eq!(cache_busted_url("https://a.com/watch/1", 1234), "https://a.com/watch/1?_t=1234");
    assert_eq!(cache_busted_url("https://a.com/watch?id=1", 0), "https://a.com/watch?id=1&_t=0");
}

fn opt(url: &str, resolution: &str) -> M3u8Option {
    M3u8Option { url: url.into(), resolution: resolution.into() }
}

#[test]
fn relay_keeps_the_wanted_quality() {
    let options = vec![
        opt("https://cdn.example.com/v/720p/index.m3u8?t=a", "720p"),
        opt("https://cdn.example.com/v/1080p/index.m3u8?t=b", "1080p"),
    ];
    let url = relay_target_url(&options, &Some("1080p".into()), &Some("https://cdn.example.com/v/1080p/index.m3u8?t=old".into()));
    assert_eq!(url, Ok("https://cdn.example.com/v/1080p/index.m3u8?t=b".to_string()));
    let url = relay_target_url(&options, &None, &None);
    assert_eq!(url, Ok("https://cdn.example.com/v/720p/index.m3u8?t=a".to_string()));
}

#[test]
fn relay_grafts_the_old_quality_onto_a_master_playlist() {
    let options = vec![opt("https://cdn.example.com/x/playlist.m3u8?t=new", "playlist.m3u8")];
    let url = relay_target_url(
        &options,
        &Some("720p".into()),
        &Some("https://cdn.example.com/x/720p/video.m3u8".into()),
    );
    assert_eq!(url, Ok("https://cdn.example.com/x/720p/video.m3u8".to_string()));
}

#[test]
fn relay_without_fresh_options_fails() {
    assert_eq!(relay_target_url(&[], &Some("720p".into()), &None), Err(RelayError::NoRefreshedUrl));
}

#[test]
fn relay_messages_and_payloads() {
    assert_eq!(relay_phase_message(3, "Restarting download"), "Relay attempt 3/30: Restarting download...");
    let p = relay_status_payload("t1", 1, "Re-extracting m3u8 URL");
    assert_eq!(p.task_id, "t1");
    assert_eq!(p.attempt, 1);
    assert_eq!(p.phase, "Relay attempt 1/30: Re-extracting m3u8 URL...");
    let s = state_changed_payload("t1", TaskState::Failed, Some("relay retry limit exceeded"));
    assert_eq!(s.state, "Failed");
    assert_eq!(s.error_message.as_deref(), Some("relay retry limit exceeded"));
    assert!(s.relay_phase.is_none());
}

#[test]
fn relay_restarts_the_same_file() {
    let t = task_in("t", TaskState::Relaying);
    let c = relay_download_config(&t, "https://cdn.example.com/new.m3u8".into());
    assert_eq!(c.task_id, "t");
    assert_eq!(c.m3u8_url, "https://cdn.example.com/new.m3u8");
    assert_eq!(c.save_directory, "/tmp");
    assert_eq!(c.filename, "t.mp4");
    assert_eq!(c.thread_count, 20);
    let d = download_config_for(&t, "https://cdn.example.com/new.m3u8");
    assert_eq!(
        (c.task_id, c.page_url, c.m3u8_url, c.save_directory, c.filename, c.thread_count),
        (d.task_id, d.page_url, d.m3u8_url, d.save_directory, d.filename, d.thread_count)
    );
}

#[test]
fn starting_a_task_moves_it_through_extracting_to_downloading() {
    let mut store = TaskStore::new();
    store
        .create_task(input("https://example.com/watch/one", Some("/tmp"), Some("one.mp4")), "/tmp", true, "s".into())
        .unwrap();
    let config = prepare_start(&mut store, "s", "https://cdn.example.com/720p/a.m3u8").unwrap();
    assert_eq!(config.m3u8_url, "https://cdn.example.com/720p/a.m3u8");
    assert_eq!(config.filename, "one.mp4");
    assert_eq!(store.get("s").unwrap().state, TaskState::Extracting);
    let t = finish_start(&mut store, "s", "https://cdn.example.com/720p/a.m3u8".into(), "720p".into()).unwrap();
    assert_eq!(t.state, TaskState::Downloading);
    assert_eq!(t.selected_resolution.as_deref(), Some("720p"));
    assert_eq!(prepare_start(&mut store, "zz", "u").err(), Some(TaskError::NotFound));
}

#[test]
fn finishing_a_start_that_the_state_machine_refuses() {
    let mut store = TaskStore::new();
    store
        .create_task(input("https://example.com/watch/one", Some("/tmp"), None), "/tmp", true, "s".into())
        .unwrap();
    assert_eq!(
        finish_start(&mut store, "s", "u".into(), "720p".into()).err(),
        Some(TaskError::InvalidTransition(TaskState::Pending, TaskState::Downloading))
    );
    let t = store.get("s").unwrap();
    assert_eq!(t.state, TaskState::Pending);
    assert_eq!(t.m3u8_url.as_deref(), Some("u"));
}

#[test]
fn resuming_needs_a_chosen_url() {
    let t = task_in("r", TaskState::Paused);
    assert_eq!(resume_config_from_task(&t).err(), Some(ResumeError::NoSelectedUrl));
    let mut t = t;
    t.m3u8_url = Some("https://cdn.example.com/a.m3u8".into());
    let c = resume_config_from_task(&t).unwrap();
    assert_eq!(c.m3u8_url, "https://cdn.example.com/a.m3u8");
    let d = download_config_for(&t, "https://cdn.example.com/a.m3u8");
    assert_eq!(d.filename, c.filename);
}

#[test]
fn only_running_tasks_are_signalled_on_cancel() {
    assert!(cancel_needs_signal(TaskState::Downloading));
    assert!(cancel_needs_signal(TaskState::Relaying));
    assert!(!cancel_needs_signal(TaskState::Paused));
    assert!(!cancel_needs_signal(TaskState::Pending));
}

#[test]
fn create_request_becomes_task_input() {
    let req = CreateTaskRequest {
        page_url: "https://example.com/a".into(),
        save_directory: Some("/tmp".into()),
        filename: None,
    };
    let i = req.into_input();
    assert_eq!(i.page_url, "https://example.com/a");
    assert_eq!(i.save_directory.as_deref(), Some("/tmp"));
    assert!(i.filename.is_none());
}

#[test]
fn new_tasks_get_distinct_uuid_ids() {
    let mut store = TaskStore::new();
    let a = store
        .create_new_task(input("https://example.com/watch/a", Some("/tmp"), None), "/tmp", true)
        .unwrap();
    let b = store
        .create_new_task(input("https://example.com/watch/b", Some("/tmp"), None), "/tmp", true)
        .unwrap();
    assert_eq!(a.id.len(), 36);
    assert_eq!(&a.id[8..9], "-");
    assert_eq!(&a.id[23..24], "-");
    assert_ne!(a.id, b.id);
    assert_eq!(store.list().len(), 2);
    assert_eq!(
        store.create_new_task(input("https://example.com/watch/c", None, None), "/tmp", false).err(),
        Some(TaskError::MissingDirectory)
    );
    assert_eq!(store.list().len(), 2);
}

#[test]
fn cache_busting_with_the_clock() {
    let url = javrate_downloader::auto_relay::cache_busted_url_now("https://a.com/watch/1");
    let stamp = url.strip_prefix("https://a.com/watch/1?_t=").unwrap();
    assert!(stamp.parse::<u128>().unwrap() > 1_600_000_000_000);
}

#[test]
fn failed_tasks_are_not_resumed_or_relayed() {
    let mut store = downloading_store("f");
    store.update_state("f", TaskState::Failed).unwrap();
    assert_eq!(
        store.update_state("f", TaskState::Downloading).err(),
        Some(TaskError::InvalidTransition(TaskState::Failed, TaskState::Downloading))
    );
    assert_eq!(
        begin_relay(&mut store, "f").err(),
        Some(RelayError::Task(TaskError::InvalidTransition(TaskState::Failed, TaskState::Relaying)))
    );
    assert_eq!(store.get("f").unwrap().state, TaskState::Failed);
    assert!(is_valid_transition(&TaskState::Failed, &TaskState::Pending));
}

#[test]
fn stored_tasks_are_found_under_their_id() {
    let store = downloading_store("k");
    assert_eq!(store.get("k").unwrap().id, "k");
}

#[test]
fn saved_tasks_come_back_on_restore() {
    let mut store = TaskStore::new();
    store.restore(vec![
        task_in("a", TaskState::Completed),
        task_in("b", TaskState::Relaying),
        task_in("c", TaskState::Failed),
    ]);
    let got: Vec<(String, TaskState)> = store.list().into_iter().map(|t| (t.id, t.state)).collect();
    assert_eq!(got, vec![("b".to_string(), TaskState::Paused), ("c".to_string(), TaskState::Failed)]);
}

#[test]
fn one_relay_runs_per_task() {
    let mut guard = javrate_downloader::auto_relay::RelayGuard::new();
    assert!(guard.try_begin("t"));
    assert!(!guard.try_begin("t"));
    assert!(guard.try_begin("u"));
    guard.finish("t");
    assert!(guard.try_begin("t"));
    guard.finish("zz");
    assert!(!guard.try_begin("u"));
}

#[test]
fn partial_files_of_a_cancelled_download() {
    assert!(is_partial_file_of("one.mp4", "one.mp4.part"));
    assert!(is_partial_file_of("one.mp4", "one.mp4.ytdl"));
    assert!(is_partial_file_of("one.mp4", "one.mp4.part-Frag12"));
    assert!(!is_partial_file_of("one.mp4", "one.mp4.part-Frag"));
    assert!(!is_partial_file_of("one.mp4", "one.mp4"));
    assert!(!is_partial_file_of("one.mp4", "two.mp4.part"));
}
