use javrate_downloader::auto_relay::{relay_attempt_allowed, MAX_RELAY_ATTEMPTS};
use javrate_downloader::cdn_adapter::{
    is_url_expired, patch_m3u8_url, select_adapter, BunnyCdnAdapter, CdnAdapter, CloudFrontAdapter,
    GenericAdapter,
};

#[test]
fn allows_attempt_fifty_as_last_attempt() {
    assert_eq!(MAX_RELAY_ATTEMPTS, 30);
    assert!(relay_attempt_allowed(1));
    assert!(relay_attempt_allowed(25));
    assert!(relay_attempt_allowed(30));
    assert!(!relay_attempt_allowed(31));
}

#[test]
fn test_patch_m3u8_url() {
    let old_url = "https://videocdn.avking.xyz/bcdn_token=OLD_TOKEN&expires=1000&token_path=%2Fabc%2F/abc/720p/video.m3u8";
    let new_url = "https://videocdn.avking.xyz/bcdn_token=NEW_TOKEN&expires=2000&token_path=%2Fabc%2F/abc/playlist.m3u8";
    let patched = patch_m3u8_url(new_url, old_url);
    assert_eq!(patched, "https://videocdn.avking.xyz/bcdn_token=NEW_TOKEN&expires=2000&token_path=%2Fabc%2F/abc/720p/video.m3u8");
}

#[test]
fn bunny_cdn_matches() {
    assert!(BunnyCdnAdapter.matches("https://videocdn.avking.xyz/bcdn_token=abc&expires=999/video.m3u8"));
    assert!(BunnyCdnAdapter.matches("https://vz-a59c6881-d86.b-cdn.net/abc/playlist.m3u8"));
    assert!(!BunnyCdnAdapter.matches("https://example.com/video.m3u8"));
}

#[test]
fn bunny_cdn_patches_resolution() {
    let old = "https://videocdn.avking.xyz/bcdn_token=OLD&expires=1000&token_path=%2Fabc%2F/abc/720p/video.m3u8";
    let new = "https://videocdn.avking.xyz/bcdn_token=NEW&expires=2000&token_path=%2Fabc%2F/abc/playlist.m3u8";
    let patched = patch_m3u8_url(new, old);
    assert_eq!(patched, "https://videocdn.avking.xyz/bcdn_token=NEW&expires=2000&token_path=%2Fabc%2F/abc/720p/video.m3u8");
}

#[test]
fn bunny_cdn_patches_token_only() {
    let old = "https://videocdn.avking.xyz/bcdn_token=OLD&expires=1000/stream.m3u8";
    let new = "https://videocdn.avking.xyz/bcdn_token=NEW&expires=2000/stream.m3u8";
    let patched = patch_m3u8_url(new, old);
    assert_eq!(patched, "https://videocdn.avking.xyz/bcdn_token=NEW&expires=2000/stream.m3u8");
}

#[test]
fn cloudfront_matches() {
    assert!(CloudFrontAdapter.matches("https://d1234.cloudfront.net/video.m3u8?Policy=abc&Signature=xyz&Key-Pair-Id=K1"));
    assert!(!CloudFrontAdapter.matches("https://example.com/video.m3u8"));
}

#[test]
fn generic_always_matches() {
    assert!(GenericAdapter.matches("https://anything.com/anything.m3u8"));
}

#[test]
fn selects_correct_adapter() {
    assert_eq!(select_adapter("https://x.b-cdn.net/v.m3u8").name(), "BunnyCDN");
    assert_eq!(select_adapter("https://d1.cloudfront.net/v.m3u8?Policy=a").name(), "CloudFront");
    assert_eq!(select_adapter("https://example.com/v.m3u8").name(), "Generic");
}

#[test]
fn expired_url_detected() {
    assert!(is_url_expired("https://cdn.avking.xyz/bcdn_token=abc&expires=1000000000/v.m3u8"));
    assert!(!is_url_expired("https://cdn.avking.xyz/bcdn_token=abc&expires=9999999999/v.m3u8"));
    assert!(!is_url_expired("https://example.com/video.m3u8"));
}

#[test]
fn new_url_with_resolution_not_grafted() {
    let old = "https://cdn.example.com/abc/720p/video.m3u8";
    let new = "https://cdn.example.com/abc/1080p/video.m3u8";
    let patched = patch_m3u8_url(new, old);
    assert_eq!(patched, "https://cdn.example.com/abc/1080p/video.m3u8");
}
