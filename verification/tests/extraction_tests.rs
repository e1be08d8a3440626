use javrate_downloader::extraction::{
    choose_resolution, dynamic_capture_script, extract_m3u8_urls_from_html, parse_resolution_label,
    CaptureSet, M3u8Option, DYNAMIC_CAPTURE_HOST,
};

#[test]
fn extracts_distinct_m3u8_urls() {
    let html = r#"
            <script>
            const a = "https://cdn.example.com/video/720p/index.m3u8?token=abc";
            const b = "https://cdn.example.com/video/1080p/index.m3u8?token=def";
            </script>
        "#;
    let urls = extract_m3u8_urls_from_html(html);
    assert_eq!(urls.len(), 2);
    assert!(urls.contains(&"https://cdn.example.com/video/720p/index.m3u8?token=abc".to_string()));
    assert!(urls.contains(&"https://cdn.example.com/video/1080p/index.m3u8?token=def".to_string()));
}

#[test]
fn parses_resolution_labels_from_paths() {
    assert_eq!(
        parse_resolution_label("https://cdn.example.com/video/720p/index.m3u8?token=abc"),
        "720p"
    );
    assert_eq!(
        parse_resolution_label("https://cdn.example.com/video/1080p/index.m3u8?token=def"),
        "1080p"
    );
    assert_eq!(
        parse_resolution_label("https://cdn.example.com/video/stream.m3u8?token=ghi"),
        "stream.m3u8"
    );
}

#[test]
fn dynamic_capture_script_hooks_common_js_request_sources() {
    let script = dynamic_capture_script();
    assert!(script.contains("window.fetch"));
    assert!(script.contains("XMLHttpRequest.prototype.open"));
    assert!(script.contains("performance.getEntriesByType"));
    assert!(script.contains(DYNAMIC_CAPTURE_HOST));
}

#[test]
fn records_m3u8_candidates_from_resource_urls() {
    let mut found = CaptureSet::new();
    let inserted = found.record_m3u8_candidate("https://cdn.example.com/video/720p/index.m3u8?token=abc");

    assert!(inserted);
    assert!(found.contains("https://cdn.example.com/video/720p/index.m3u8?token=abc"));
}

#[test]
fn chooses_matching_resolution_for_token_refresh() {
    let options = vec![
        M3u8Option {
            url: "https://cdn.example.com/video/720p/index.m3u8?token=fresh-a".into(),
            resolution: "720p".into(),
        },
        M3u8Option {
            url: "https://cdn.example.com/video/1080p/index.m3u8?token=fresh-b".into(),
            resolution: "1080p".into(),
        },
    ];

    let selected = choose_resolution(&options, "1080p").unwrap();
    assert_eq!(
        selected.url,
        "https://cdn.example.com/video/1080p/index.m3u8?token=fresh-b"
    );
}
