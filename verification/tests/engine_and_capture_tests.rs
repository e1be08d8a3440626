use javrate_downloader::cdn_adapter::{
    all_js_extraction_snippets, graft_resolution_path, is_url_expired, is_url_expired_at, patch_m3u8_url,
    select_adapter, CdnAdapter, CloudFrontAdapter, RegisteredAdapter, BUNNY_JS_SNIPPET,
};
use javrate_downloader::download_engine::{
    build_yt_dlp_args, classify_output_line, exit_outcome, is_merging_line, output_path, parse_progress_line,
    DownloadConfig, DownloadProcessRegistry, DownloadProgress, EngineError, RegistryError, RunningDownload,
};
use javrate_downloader::extraction::{
    choose_resolution, closest_resolution, dynamic_capture_script, dynamic_extraction, extract_m3u8_urls_from_html,
    navigation_decision, next_capture_wake, options_from_html, options_from_urls_at, parse_resolution_label,
    quiet_period_end, static_extraction, CaptureSet, ExtractionError, ExtractionStrategy, M3u8Option,
    NavigationDecision, SAFARI_USER_AGENT, UNKNOWN_RESOLUTION,
};
use javrate_downloader::urls::{origin_from_url, validate_http_url, UrlError};

fn config(page_url: &str, dir: &str, filename: &str, threads: u8) -> DownloadConfig {
    DownloadConfig {
        task_id: "t".into(),
        page_url: page_url.into(),
        m3u8_url: "https://cdn.example.com/v/720p/index.m3u8".into(),
        save_directory: dir.into(),
        filename: filename.into(),
        thread_count: threads,
    }
}

#[test]
fn yt_dlp_gets_the_full_command_line() {
    let args = build_yt_dlp_args(&config("https://example.com:8443/watch/one?x=1", "/tmp/d", "one.mp4", 20)).unwrap();
    let expected: Vec<String> = vec![
        "--newline".into(),
        "--merge-output-format".into(),
        "mp4".into(),
        "-N".into(),
        "20".into(),
        "-o".into(),
        "/tmp/d/one.mp4".into(),
        "--add-header".into(),
        "Referer: https://example.com:8443".into(),
        "--add-header".into(),
        "Origin: https://example.com:8443".into(),
        "--add-header".into(),
        format!("User-Agent: {}", SAFARI_USER_AGENT),
        "https://cdn.example.com/v/720p/index.m3u8".into(),
    ];
    assert_eq!(args, expected);
}

#[test]
fn thread_count_is_at_least_one() {
    let args = build_yt_dlp_args(&config("https://example.com/a", "/tmp", "a.mp4", 0)).unwrap();
    assert_eq!(args[4], "1");
}

#[test]
fn yt_dlp_setup_errors() {
    assert_eq!(
        build_yt_dlp_args(&config("https://example.com/a", "/tmp", "  ", 20)).err(),
        Some(EngineError::InvalidFilename)
    );
    assert_eq!(
        build_yt_dlp_args(&config("nope", "/tmp", "a.mp4", 20)).err(),
        Some(EngineError::Url(UrlError::InvalidUrl))
    );
    assert_eq!(
        build_yt_dlp_args(&config("file:///tmp/page.html", "/tmp", "a.mp4", 20)).err(),
        Some(EngineError::Url(UrlError::NoHttpOrigin))
    );
}

#[test]
fn output_path_joins_like_path_join() {
    assert_eq!(output_path("/tmp/downloads", "one.mp4"), Ok("/tmp/downloads/one.mp4".to_string()));
    assert_eq!(output_path("/tmp/downloads/", "one.mp4"), Ok("/tmp/downloads/one.mp4".to_string()));
    assert_eq!(output_path("", "one.mp4"), Ok("one.mp4".to_string()));
    assert_eq!(output_path("/tmp", "a/b.mp4"), Err(EngineError::InvalidFilename));
    assert_eq!(output_path("/tmp", "\u{3000}\t"), Err(EngineError::InvalidFilename));
}

#[test]
fn origins_and_schemes() {
    assert_eq!(origin_from_url("https://example.com/watch/one"), Ok("https://example.com".to_string()));
    assert_eq!(origin_from_url("not a url"), Err(UrlError::InvalidUrl));
    assert_eq!(origin_from_url("file:///tmp/x"), Err(UrlError::NoHttpOrigin));
    assert_eq!(validate_http_url("http://example.com"), Ok(()));
    assert_eq!(validate_http_url("ftp://example.com/x"), Err(UrlError::NotHttp));
}

#[test]
fn progress_without_fragments() {
    let p = parse_progress_line("[download] 100% of 10.00MiB at 2.00MiB/s ETA 00:00").unwrap();
    assert_eq!(p.percentage, "100");
    assert_eq!(p.speed, "2.00MiB/s");
    assert_eq!(p.eta, "00:00");
    assert_eq!(p.current_fragment, None);
    assert_eq!(p.total_fragments, None);
    assert_eq!(p.relay_attempts, 0);
}

#[test]
fn progress_needs_the_download_marker() {
    assert!(parse_progress_line("45.3% of 10MiB at 1MiB/s ETA 00:01").is_none());
}

#[test]
fn progress_with_non_ascii_digits_is_not_read() {
    assert!(parse_progress_line("[download] \u{0664}\u{0665}% of 10MiB at 1MiB/s ETA 00:01").is_none());
}

#[test]
fn oversized_fragment_numbers_are_dropped() {
    let p = parse_progress_line("[download]  5.0% of 1GiB at 1MiB/s ETA 10:00 (frag 99999999999/5)").unwrap();
    assert_eq!(p.current_fragment, None);
    assert_eq!(p.total_fragments, Some(5));
}

#[test]
fn output_lines_are_classified() {
    let e = classify_output_line("[Merger] Merging formats into \"one.mp4\"");
    assert!(e.merging && !e.relay_needed && e.progress.is_none());
    let e = classify_output_line("ERROR: HTTP Error 403: Forbidden [Merger]");
    assert!(e.relay_needed && !e.merging);
    let e = classify_output_line("[download]  50.0% of 1GiB at 1MiB/s ETA 01:00");
    assert_eq!(e.progress.unwrap().percentage, "50.0");
    assert!(is_merging_line("[ffmpeg] Fixing MPEG-TS in MP4 container"));
    assert!(!is_merging_line("[ffmpeg] Destination: x.mp4"));
}

#[test]
fn a_403_outranks_a_clean_exit() {
    let p = DownloadProgress::default();
    let o = exit_outcome(true, true, &p);
    assert!(!o.completed && o.relay_needed);
    let o = exit_outcome(false, true, &p);
    assert!(o.completed && !o.relay_needed);
    let o = exit_outcome(false, false, &p);
    assert!(!o.completed && !o.relay_needed);
}

#[test]
fn registry_replaces_and_removes() {
    let mut registry = DownloadProcessRegistry::new();
    registry.insert(RunningDownload { pid: 7, config: config("https://example.com/a", "/tmp", "a.mp4", 20) });
    assert_eq!(registry.pid_of("t"), Ok(7));
    registry.insert(RunningDownload { pid: 9, config: config("https://example.com/a", "/tmp", "b.mp4", 20) });
    assert_eq!(registry.pid_of("t"), Ok(9));
    assert_eq!(registry.get_config("t").unwrap().filename, "b.mp4");
    assert!(registry.remove("t"));
    assert!(!registry.remove("t"));
    assert_eq!(registry.pid_of("t"), Err(RegistryError::NotFound));
    assert!(matches!(registry.get_config("t"), Err(RegistryError::NotFound)));
}

#[test]
fn page_urls_are_trimmed_decoded_sorted_and_distinct() {
    let html = r#"
        a: "https://b.example.com/v.m3u8?x=1&amp;y=2," b: https://a.example.com/v.m3u8.
        again: "https://b.example.com/v.m3u8?x=1&amp;y=2,"
    "#;
    let urls = extract_m3u8_urls_from_html(html);
    assert_eq!(
        urls,
        vec!["https://a.example.com/v.m3u8".to_string(), "https://b.example.com/v.m3u8?x=1&y=2".to_string()]
    );
}

#[test]
fn options_from_html_are_labelled() {
    let opts = options_from_html(r#"<a href="https://cdn.example.com/v/480P/index.m3u8">x</a>"#);
    assert_eq!(opts.len(), 1);
    assert_eq!(opts[0].resolution, "480p");
}

#[test]
fn labels_fall_back_to_the_last_segment() {
    assert_eq!(parse_resolution_label("https://cdn.example.com/VIDEO/720P/a.m3u8"), "720p");
    assert_eq!(parse_resolution_label("https://cdn.example.com/v/1720p/a.m3u8"), "a.m3u8");
    assert_eq!(parse_resolution_label("https://cdn.example.com/v/\u{0663}720p/a.m3u8"), "a.m3u8");
    assert_eq!(parse_resolution_label("https://cdn.example.com/video/"), UNKNOWN_RESOLUTION);
    assert_eq!(parse_resolution_label("no url here"), UNKNOWN_RESOLUTION);
    assert!(!parse_resolution_label("https://example.com").is_empty());
}

fn opt(url: &str, resolution: &str) -> M3u8Option {
    M3u8Option { url: url.into(), resolution: resolution.into() }
}

#[test]
fn nearest_quality_and_ties() {
    let options = vec![opt("u720", "720p"), opt("u1080", "1080p"), opt("ux", "playlist.m3u8")];
    assert_eq!(closest_resolution(&options, "1000p").unwrap().url, "u1080");
    assert_eq!(closest_resolution(&options, "900p").unwrap().url, "u720");
    assert!(closest_resolution(&options, "best").is_none());
    assert_eq!(choose_resolution(&options, "playlist.m3u8").unwrap().url, "ux");
    assert_eq!(choose_resolution(&options, "2160p").unwrap().url, "u1080");
}

#[test]
fn expired_options_are_left_out() {
    let urls = vec![
        "https://cdn.avking.xyz/bcdn_token=abc&expires=1000/720p/v.m3u8".to_string(),
        "https://example.com/1080p/v.m3u8".to_string(),
    ];
    let opts = options_from_urls_at(&urls, 2000);
    assert_eq!(opts.len(), 1);
    assert_eq!(opts[0].url, "https://example.com/1080p/v.m3u8");
    assert_eq!(opts[0].resolution, "1080p");
    assert_eq!(options_from_urls_at(&urls, 999).len(), 2);
}

#[test]
fn expiry_is_monotone_and_by_adapter() {
    let url = "https://cdn.avking.xyz/bcdn_token=abc&expires=1000/v.m3u8";
    assert!(!is_url_expired_at(url, 1000));
    assert!(is_url_expired_at(url, 1001));
    assert!(is_url_expired_at(url, u64::MAX));
    assert!(is_url_expired_at("https://x.b-cdn.net/a?expires=+1000&b=1", 2000));
    // CloudFront reads the stamp up to the next `&` only.
    assert!(!is_url_expired_at("https://d1.cloudfront.net/v.m3u8?Policy=a&expires=1000/x", 5000));
    assert!(is_url_expired_at("https://d1.cloudfront.net/v.m3u8?Policy=a&expires=1000", 5000));
    assert!(!CloudFrontAdapter.is_expired_at("https://d1.cloudfront.net/v.m3u8?Policy=a", 5000));
    // The generic adapter never expires anything.
    assert!(!is_url_expired_at("https://example.com/v.m3u8?expires=1", u64::MAX));
    assert!(!is_url_expired("https://example.com/v.m3u8?expires=1"));
    assert!(is_url_expired("https://cdn.avking.xyz/bcdn_token=abc&expires=1/v.m3u8"));
}

#[test]
fn refreshed_url_with_a_quality_is_used_as_is() {
    let old = "https://x.b-cdn.net/abc/720p/video.m3u8";
    let new = "https://x.b-cdn.net/abc/1080p/video.m3u8";
    assert_eq!(patch_m3u8_url(new, old), new);
}

#[test]
fn generic_graft_keeps_the_quality() {
    let old = "https://cdn.example.com/abc/720p/video.m3u8";
    let new = "https://cdn.example.com/new/playlist.m3u8";
    assert_eq!(select_adapter(old), RegisteredAdapter::Generic);
    assert_eq!(patch_m3u8_url(new, old), "https://cdn.example.com/new/720p/video.m3u8");
    assert_eq!(graft_resolution_path(new, "https://cdn.example.com/abc/video.m3u8"), None);
    assert_eq!(graft_resolution_path("no-slash", old), None);
    // Nothing to graft: the refreshed URL is used.
    assert_eq!(patch_m3u8_url(new, "https://cdn.example.com/abc/video.m3u8"), new);
}

#[test]
fn cloudfront_swaps_its_signature_parameters() {
    let old = "https://d1.cloudfront.net/v/old.m3u8?Policy=OLDP&Signature=OLDS&Key-Pair-Id=K1";
    let new = "https://d1.cloudfront.net/v/new.m3u8?Policy=NEWP&Signature=NEWS&Key-Pair-Id=K2";
    assert_eq!(
        patch_m3u8_url(new, old),
        "https://d1.cloudfront.net/v/old.m3u8?Policy=NEWP&Signature=NEWS&Key-Pair-Id=K2"
    );
}

#[test]
fn bunny_token_replacement_expands_group_references() {
    let old = "https://x.b-cdn.net/bcdn_token=OLD&expires=1000/stream.m3u8";
    let new = "https://x.b-cdn.net/bcdn_token=N${0}W&expires=2000/stream.m3u8";
    assert_eq!(
        patch_m3u8_url(new, old),
        "https://x.b-cdn.net/bcdn_token=Nbcdn_token=OLDW&expires=2000/stream.m3u8"
    );
    let new = "https://x.b-cdn.net/bcdn_token=A$1aB$$&expires=2000/stream.m3u8";
    assert_eq!(patch_m3u8_url(new, old), "https://x.b-cdn.net/bcdn_token=A$&expires=2000/stream.m3u8");
}

#[test]
fn bunny_without_credentials_in_the_new_url_keeps_the_new_url() {
    let old = "https://x.b-cdn.net/bcdn_token=OLD&expires=1000/stream.m3u8";
    let new = "https://x.b-cdn.net/plain/stream.m3u8";
    assert_eq!(patch_m3u8_url(new, old), new);
}

#[test]
fn only_bunny_contributes_a_snippet() {
    assert_eq!(all_js_extraction_snippets(), BUNNY_JS_SNIPPET);
    let script = dynamic_capture_script();
    assert!(script.contains(BUNNY_JS_SNIPPET));
    assert!(!script.contains("CDN_EXTRACTION_SNIPPETS_PLACEHOLDER"));
}

#[test]
fn capture_set_records_new_urls_once() {
    let mut set = CaptureSet::new();
    assert!(set.record_m3u8_candidate("https://cdn.example.com/b.m3u8"));
    assert!(!set.record_m3u8_candidate("https://cdn.example.com/b.m3u8"));
    assert!(!set.record_m3u8_candidate("https://cdn.example.com/page.html"));
    assert!(set.record_m3u8_candidate("see https://cdn.example.com/a.m3u8?t=1 and https://cdn.example.com/b.m3u8"));
    assert!(set.contains("https://cdn.example.com/a.m3u8?t=1"));
    assert_eq!(
        set.urls(),
        vec!["https://cdn.example.com/a.m3u8?t=1".to_string(), "https://cdn.example.com/b.m3u8".to_string()]
    );
}

#[test]
fn capture_wait_is_bounded() {
    assert_eq!(next_capture_wake(10, 100, None), Some(100));
    assert_eq!(next_capture_wake(10, 100, Some(50)), Some(50));
    assert_eq!(next_capture_wake(10, 100, Some(500)), Some(100));
    assert_eq!(next_capture_wake(60, 100, Some(50)), None);
    assert_eq!(next_capture_wake(100, 100, None), None);
    assert_eq!(quiet_period_end(1000), 6000);
    assert_eq!(quiet_period_end(u64::MAX - 1), u64::MAX);
}

#[test]
fn navigation_decisions() {
    assert_eq!(navigation_decision("http", Some("m3u8-capture.internal")), NavigationDecision::Capture);
    assert_eq!(navigation_decision("https", Some("example.com")), NavigationDecision::Allow);
    assert_eq!(navigation_decision("https", None), NavigationDecision::Allow);
    assert_eq!(navigation_decision("about", None), NavigationDecision::Block);
    assert_eq!(navigation_decision("ftp", Some("m3u8-capture.internal")), NavigationDecision::Block);
}

#[test]
fn extraction_outcomes() {
    assert!(static_extraction(vec![]).is_none());
    let r = static_extraction(vec![opt("u", "720p")]).unwrap();
    assert_eq!(r.strategy, ExtractionStrategy::Static);
    assert!(matches!(dynamic_extraction(vec![]), Err(ExtractionError::NoneFound)));
    let r = dynamic_extraction(vec![opt("u", "720p")]).unwrap();
    assert_eq!(r.strategy, ExtractionStrategy::Dynamic);
    assert_eq!(r.options[0].url, "u");
}

#[test]
fn progress_line_edge_cases() {
    let p = parse_progress_line("[download]  10.5% of 100MiB at 1MiB/s ETA 00:10 frag 5/").unwrap();
    assert_eq!(p.eta, "00:10");
    assert_eq!(p.current_fragment, None);
    assert!(parse_progress_line("[download] 5.% of 1MiB at 1MiB/s ETA 00:01").is_none());
    let p = parse_progress_line("[download]  1.0% of 10MiB (at most) at 2MiB/s ETA 00:05").unwrap();
    assert_eq!(p.speed, "2MiB/s");
    assert_eq!(p.eta, "00:05");
    let p = parse_progress_line("[download] x [download]  2.0% of 1MiB at 1MiB/s ETA 00:01").unwrap();
    assert_eq!(p.percentage, "2.0");
    let p = parse_progress_line("[download] 3% at 1MiB/s ETA 00:02 (frag 1/2").unwrap();
    assert_eq!((p.current_fragment, p.total_fragments), (Some(1), Some(2)));
}
