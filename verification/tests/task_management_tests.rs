use javrate_downloader::download_engine::DownloadProgress;
use javrate_downloader::task_management::{
    is_valid_transition, resolve_save_directory, restore_loaded_tasks, CreateTaskInput, DownloadTask,
    TaskState, TaskStore,
};
use std::path::Path;
use tempfile::tempdir;

fn default_dir() -> String {
    dirs::download_dir()
        .unwrap_or_else(|| ".".into())
        .to_string_lossy()
        .to_string()
}

fn create(store: &mut TaskStore, input: CreateTaskInput) -> Result<DownloadTask, javrate_downloader::task_management::TaskError> {
    let default = default_dir();
    let dir = resolve_save_directory(&input.save_directory, &default);
    let exists = Path::new(&dir).is_dir();
    store.create_new_task(input, &default, exists)
}

#[test]
fn validates_state_matrix() {
    assert!(is_valid_transition(&TaskState::Downloading, &TaskState::Paused));
    assert!(is_valid_transition(&TaskState::Merging, &TaskState::Relaying));
    assert!(!is_valid_transition(&TaskState::Completed, &TaskState::Paused));
}

#[test]
fn restores_active_downloads_as_paused() {
    let dir = tempdir().unwrap();
    let task = DownloadTask {
        id: "a".into(),
        page_url: "https://example.com/watch/1".into(),
        m3u8_url: None,
        selected_resolution: None,
        save_directory: dir.path().to_string_lossy().to_string(),
        filename: "one.mp4".into(),
        state: TaskState::Downloading,
        progress: DownloadProgress::default(),
        error_message: None,
        relay_phase: None,
    };
    let restored = restore_loaded_tasks(vec![task]);
    assert_eq!(restored[0].state, TaskState::Paused);
}

#[test]
fn creates_task_with_custom_save_path_and_filename() {
    let dir = tempdir().unwrap();
    let mut store = TaskStore::new();
    let task = create(
        &mut store,
        CreateTaskInput {
            page_url: "https://example.com/watch/one".into(),
            save_directory: Some(dir.path().to_string_lossy().to_string()),
            filename: Some("custom-name.mp4".into()),
        },
    )
    .unwrap();

    assert_eq!(task.state, TaskState::Pending);
    assert_eq!(Path::new(&task.save_directory), dir.path());
    assert_eq!(task.filename, "custom-name.mp4");
    assert_eq!(store.list().len(), 1);
}

#[test]
fn rejects_invalid_url_and_missing_directory() {
    let mut store = TaskStore::new();
    assert!(create(
        &mut store,
        CreateTaskInput {
            page_url: "not a url".into(),
            save_directory: None,
            filename: None,
        }
    )
    .is_err());

    assert!(create(
        &mut store,
        CreateTaskInput {
            page_url: "https://example.com/watch/one".into(),
            save_directory: Some("/path/that/does/not/exist".into()),
            filename: Some("one.mp4".into()),
        }
    )
    .is_err());
}

#[test]
fn multiple_tasks_update_independently() {
    let dir = tempdir().unwrap();
    let mut store = TaskStore::new();
    let first = create(
        &mut store,
        CreateTaskInput {
            page_url: "https://example.com/watch/one".into(),
            save_directory: Some(dir.path().to_string_lossy().to_string()),
            filename: Some("one.mp4".into()),
        },
    )
    .unwrap();
    let second = create(
        &mut store,
        CreateTaskInput {
            page_url: "https://example.com/watch/two".into(),
            save_directory: Some(dir.path().to_string_lossy().to_string()),
            filename: Some("two.mp4".into()),
        },
    )
    .unwrap();

    store.update_state(&first.id, TaskState::Extracting).unwrap();
    assert_eq!(store.get(&first.id).unwrap().state, TaskState::Extracting);
    assert_eq!(store.get(&second.id).unwrap().state, TaskState::Pending);
}
