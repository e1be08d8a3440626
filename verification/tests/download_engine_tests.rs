use javrate_downloader::download_engine::{
    build_yt_dlp_args, is_403_line, is_download_complete, parse_progress_line, DownloadConfig,
    DownloadProcessRegistry, DownloadProgress, RunningDownload,
};

#[test]
fn parses_standard_progress_lines() {
    let progress = parse_progress_line(
        "[download]  45.3% of ~128.50MiB at 5.20MiB/s ETA 00:15 frag 92/203",
    )
    .unwrap();
    assert_eq!(progress.percentage.parse::<f64>().unwrap(), 45.3);
    assert_eq!(progress.speed, "5.20MiB/s");
    assert_eq!(progress.eta, "00:15");
    assert_eq!(progress.current_fragment, Some(92));
    assert_eq!(progress.total_fragments, Some(203));

    let progress2 = parse_progress_line(
        "[download]  17.3% of ~   3.26GiB at   10.86MiB/s ETA 04:12 (frag 310/1789)",
    )
    .unwrap();
    assert_eq!(progress2.percentage.parse::<f64>().unwrap(), 17.3);
    assert_eq!(progress2.speed, "10.86MiB/s");
    assert_eq!(progress2.eta, "04:12");
    assert_eq!(progress2.current_fragment, Some(310));
    assert_eq!(progress2.total_fragments, Some(1789));
}

#[test]
fn ignores_non_progress_lines() {
    assert!(parse_progress_line("[info] downloading webpage").is_none());
}

#[test]
fn detects_403_variants() {
    assert!(is_403_line("HTTP Error 403: Forbidden"));
    assert!(is_403_line("403 Forbidden"));
    assert!(is_403_line("HTTP error 403"));
}

#[test]
fn builds_yt_dlp_args_with_headers_and_output_path() {
    let config = DownloadConfig {
        task_id: "task-1".into(),
        page_url: "https://example.com/watch/one".into(),
        m3u8_url: "https://cdn.example.com/video/720p/index.m3u8?token=abc".into(),
        save_directory: "/tmp/downloads".into(),
        filename: "one.mp4".into(),
        thread_count: 20,
    };

    let args = build_yt_dlp_args(&config).unwrap();
    assert_eq!(args[0], "--newline");
    assert_eq!(args[1], "--merge-output-format");
    assert_eq!(args[2], "mp4");
    assert_eq!(args[3], "-N");
    assert_eq!(args[4], "20");
    assert!(args.contains(&"/tmp/downloads/one.mp4".to_string()));
    assert!(args.contains(&"Referer: https://example.com".to_string()));
    assert!(args.contains(&"Origin: https://example.com".to_string()));
    assert!(args.contains(&config.m3u8_url));
}

#[test]
fn detects_completion_only_after_successful_exit() {
    assert!(is_download_complete(
        true,
        &DownloadProgress {
            percentage: "50.0".to_string(),
            ..DownloadProgress::default()
        }
    ));
    assert!(!is_download_complete(
        false,
        &DownloadProgress {
            percentage: "100.0".to_string(),
            ..DownloadProgress::default()
        }
    ));
}

#[test]
fn registry_keeps_multiple_task_configs_independently() {
    let mut registry = DownloadProcessRegistry::new();

    registry.insert(RunningDownload {
        pid: u32::MAX - 1,
        config: DownloadConfig {
            task_id: "task-a".into(),
            page_url: "https://example.com/a".into(),
            m3u8_url: "https://cdn.example.com/a.m3u8".into(),
            save_directory: "/tmp/a".into(),
            filename: "a.mp4".into(),
            thread_count: 20,
        },
    });
    registry.insert(RunningDownload {
        pid: u32::MAX,
        config: DownloadConfig {
            task_id: "task-b".into(),
            page_url: "https://example.com/b".into(),
            m3u8_url: "https://cdn.example.com/b.m3u8".into(),
            save_directory: "/tmp/b".into(),
            filename: "b.mp4".into(),
            thread_count: 20,
        },
    });

    assert_eq!(registry.get_config("task-a").unwrap().filename, "a.mp4");
    assert_eq!(registry.get_config("task-b").unwrap().filename, "b.mp4");
}
