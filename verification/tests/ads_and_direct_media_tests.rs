use javrate_downloader::cdn_adapter::{
    is_url_expired, is_url_expired_at, patch_m3u8_url, select_adapter, AvjoyAdapter, CdnAdapter, RegisteredAdapter,
};
use javrate_downloader::extraction::{
    candidate_urls, dynamic_extraction, is_ad_url, is_direct_media_url, media_first_options, options_from_html,
    options_from_urls, options_from_urls_at, CaptureSet, M3u8Option,
};

const AVJOY_STAMPED: &str = "https://media-cdn3.avjoy.me/videos/1000000000/75842_1080p.mp4";
const AVJOY_MAIN: &str = "https://media-cdn3.avjoy.me/v/75842_1080p.mp4";
const AD_STREAM: &str = "https://media-hls.growcdnssedge.com/ad/240p.m3u8";

#[test]
fn avjoy_urls_select_the_avjoy_adapter() {
    assert_eq!(select_adapter(AVJOY_STAMPED), RegisteredAdapter::Avjoy);
    assert_eq!(select_adapter("https://avjoy.me/video/123"), RegisteredAdapter::Generic);
    assert_eq!(AvjoyAdapter.name(), "Avjoy");
    assert!(AvjoyAdapter.matches(AVJOY_MAIN));
    assert!(!AvjoyAdapter.matches("https://example.com/v.mp4"));
}

#[test]
fn avjoy_expiry_reads_the_time_segment() {
    assert_eq!(AvjoyAdapter.expiry(AVJOY_STAMPED), Some(1_000_000_000));
    assert_eq!(AvjoyAdapter.expiry(AVJOY_MAIN), None);
    assert_eq!(AvjoyAdapter.expiry("https://media-cdn1.avjoy.me/a/123456789/b/1778925984/c.mp4"), Some(1_778_925_984));
    assert!(!is_url_expired_at(AVJOY_STAMPED, 1_000_000_000));
    assert!(is_url_expired_at(AVJOY_STAMPED, 1_000_000_001));
    assert!(is_url_expired(AVJOY_STAMPED));
    assert!(!is_url_expired("https://media-cdn3.avjoy.me/videos/9999999999/75842_1080p.mp4"));
    assert!(!is_url_expired(AVJOY_MAIN));
}

#[test]
fn avjoy_refresh_uses_the_new_url() {
    let old = "https://media-cdn3.avjoy.me/videos/1000000000/75842_1080p.mp4";
    let new = "https://media-cdn3.avjoy.me/videos/2000000000/75842_1080p.mp4";
    assert_eq!(patch_m3u8_url(new, old), new);
}

#[test]
fn ad_and_direct_media_urls() {
    assert!(is_ad_url(AD_STREAM));
    assert!(is_ad_url("https://x.saawsedge.com/p.m3u8"));
    assert!(!is_ad_url(AVJOY_MAIN));
    assert!(is_direct_media_url(AVJOY_MAIN));
    assert!(!is_direct_media_url("https://example.com/v.mp4"));
    assert!(!is_direct_media_url("media-cdn3.avjoy.me/v/a.mp4"));
}

#[test]
fn page_source_ads_are_not_offered() {
    let html = format!(r#"<script>a="{AD_STREAM}"; b="https://cdn.example.com/v/720p/index.m3u8";</script>"#);
    let opts = options_from_html(&html);
    assert_eq!(opts.len(), 1);
    assert_eq!(opts[0].url, "https://cdn.example.com/v/720p/index.m3u8");
}

#[test]
fn capture_keeps_the_main_video_and_drops_the_ad() {
    let mut set = CaptureSet::new();
    assert!(!set.record_m3u8_candidate(AD_STREAM));
    assert!(set.record_m3u8_candidate(AVJOY_MAIN));
    assert!(!set.record_m3u8_candidate(AVJOY_MAIN));
    assert!(!set.contains(AD_STREAM));
    let r = dynamic_extraction(options_from_urls(&set.urls())).unwrap();
    assert_eq!(r.options.len(), 1);
    assert_eq!(r.options[0].url, AVJOY_MAIN);
    assert_eq!(r.options[0].resolution, "1080p");
    assert_eq!(candidate_urls(AD_STREAM), Vec::<String>::new());
    assert_eq!(candidate_urls(AVJOY_MAIN), vec![AVJOY_MAIN.to_string()]);
}

#[test]
fn direct_videos_come_first() {
    let urls = vec!["https://cdn.example.com/v/720p/index.m3u8".to_string(), AVJOY_MAIN.to_string()];
    let opts = options_from_urls_at(&urls, 0);
    assert_eq!(opts[0].url, "https://cdn.example.com/v/720p/index.m3u8");
    let opts = media_first_options(opts);
    let got: Vec<String> = opts.into_iter().map(|o| o.url).collect();
    assert_eq!(got, vec![AVJOY_MAIN.to_string(), "https://cdn.example.com/v/720p/index.m3u8".to_string()]);
    let opts = options_from_urls(&urls);
    assert_eq!(opts[0].resolution, "1080p");
    let kept = media_first_options(vec![M3u8Option { url: "u".into(), resolution: "r".into() }]);
    assert_eq!(kept.len(), 1);
}
