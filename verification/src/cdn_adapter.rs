//! CDN adapters: how the relay grafts fresh signing parameters onto an
//! expired media URL while keeping its quality path, and how a URL's
//! expiry stamp is read. Each CDN platform implements `CdnAdapter`;
//! `select_adapter` picks the first registered adapter that matches, and
//! `GenericAdapter`, which matches everything, comes last.

use vstd::prelude::*;
use crate::clock;
use crate::params;
use crate::params::{find_param, replace_first_param_exec, RunClass};
use crate::text;
use crate::text::{chars_to_string, copy_range, str_to_chars};

verus! {

// ---------------------------------------------------------------------
//  Quality paths: `/<res>p/<name>.m3u8` at the end of a URL
// ---------------------------------------------------------------------

/// The quality markers, in the order they are tried.
pub open spec fn res_marker(i: int) -> Seq<char> {
    if i == 0 { "/2160p"@ }
    else if i == 1 { "/1440p"@ }
    else if i == 2 { "/1080p"@ }
    else if i == 3 { "/720p"@ }
    else if i == 4 { "/540p"@ }
    else if i == 5 { "/480p"@ }
    else if i == 6 { "/360p"@ }
    else { "/240p"@ }
}

/// The first quality marker, from the `i`-th on, that ends right at `k`.
pub open spec fn marker_ending_at(url: Seq<char>, k: int, i: int) -> Option<int>
    decreases 8 - i,
{
    if i < 0 || i >= 8 {
        None
    } else if text::occurs_at(url, k - res_marker(i).len(), res_marker(i)) {
        Some(i)
    } else {
        marker_ending_at(url, k, i + 1)
    }
}

/// The quality path of `url`: the suffix `/<res>p/<name>.m3u8`, where
/// `<res>` is one of 2160, 1440, 1080, 720, 540, 480, 360, 240 and `<name>`
/// is a non-empty last path segment.
pub open spec fn resolution_path(url: Seq<char>) -> Option<Seq<char>> {
    let k = text::last_index_of(url, '/');
    if k < 0 {
        None
    } else {
        let tail = url.skip(k + 1);
        if tail.len() > ".m3u8"@.len() && text::ends_with(tail, ".m3u8"@) {
            match marker_ending_at(url, k, 0) {
                Some(i) => Some(url.skip(k - res_marker(i).len())),
                None => None,
            }
        } else {
            None
        }
    }
}

fn marker_chars(i: usize) -> (r: Vec<char>)
    ensures
        r@ == res_marker(i as int),
{
    if i == 0 { str_to_chars("/2160p") }
    else if i == 1 { str_to_chars("/1440p") }
    else if i == 2 { str_to_chars("/1080p") }
    else if i == 3 { str_to_chars("/720p") }
    else if i == 4 { str_to_chars("/540p") }
    else if i == 5 { str_to_chars("/480p") }
    else if i == 6 { str_to_chars("/360p") }
    else { str_to_chars("/240p") }
}

/// Where the quality path of `url` starts.
fn resolution_path_start(url: &Vec<char>) -> (r: Option<usize>)
    ensures
        match resolution_path(url@) {
            Some(p) => r matches Some(s) && s <= url.len() && url@.skip(s as int) == p,
            None => r is None,
        },
{
    proof { text::lemma_last_index_of(url@, '/'); }
    let k = match text::last_index_of_exec(url, '/') {
        Some(k) => k,
        None => return None,
    };
    let ext = str_to_chars(".m3u8");
    let ghost tail = url@.skip(k + 1);
    let tail_len = url.len() - (k + 1);
    if !(tail_len > ext.len()) {
        return None;
    }
    if !text::occurs_at_exec(url, url.len() - ext.len(), &ext) {
        assert(tail.subrange(tail.len() - ext@.len(), tail.len() as int) =~= url@.subrange(url.len() - ext@.len(), url.len() as int));
        return None;
    }
    assert(tail.subrange(tail.len() - ext@.len(), tail.len() as int) =~= url@.subrange(url.len() - ext@.len(), url.len() as int));
    let mut i: usize = 0;
    while i < 8
        invariant
            i <= 8,
            k < url.len(),
            k as int == text::last_index_of(url@, '/'),
            tail == url@.skip(k + 1),
            tail.len() > ".m3u8"@.len() && text::ends_with(tail, ".m3u8"@),
            marker_ending_at(url@, k as int, 0) == marker_ending_at(url@, k as int, i as int),
        decreases 8 - i,
    {
        let m = marker_chars(i);
        if m.len() <= k && text::occurs_at_exec(url, k - m.len(), &m) {
            return Some(k - m.len());
        }
        i = i + 1;
    }
    None
}

/// Grafts the quality path of `old_url` onto `new_url`.
pub open spec fn graft(new_url: Seq<char>, old_url: Seq<char>) -> Option<Seq<char>> {
    match resolution_path(old_url) {
        None => None,
        Some(path) => if resolution_path(new_url) is Some {
            Some(new_url)
        } else if text::last_index_of(new_url, '/') >= 0 {
            Some(new_url.take(text::last_index_of(new_url, '/')) + path)
        } else {
            None
        },
    }
}

fn graft_chars(new_url: &Vec<char>, old_url: &Vec<char>) -> (r: Option<Vec<char>>)
    ensures
        match graft(new_url@, old_url@) {
            Some(g) => r matches Some(v) && v@ == g,
            None => r is None,
        },
{
    let start = match resolution_path_start(old_url) {
        Some(s) => s,
        None => return None,
    };
    if resolution_path_start(new_url).is_some() {
        return Some(copy_range(new_url, 0, new_url.len()));
    }
    proof { text::lemma_last_index_of(new_url@, '/'); }
    match text::last_index_of_exec(new_url, '/') {
        Some(idx) => {
            let mut patched = copy_range(new_url, 0, idx);
            let path = copy_range(old_url, start, old_url.len());
            text::append_chars(&mut patched, &path);
            assert(path@ =~= old_url@.skip(start as int));
            Some(patched)
        },
        None => None,
    }
}

/// Replaces the last path segment of `new_url` with the quality path of
/// `old_url`, so that a refreshed URL keeps the quality being downloaded.
/// `new_url` itself where it already has a quality path; `None` where
/// `old_url` has none, or `new_url` has no `/`.
pub fn graft_resolution_path(new_url: &str, old_url: &str) -> (r: Option<String>)
    ensures
        text::opt_view(r) == graft(new_url@, old_url@),
{
    let nv = str_to_chars(new_url);
    let ov = str_to_chars(old_url);
    match graft_chars(&nv, &ov) {
        Some(g) => Some(chars_to_string(&g)),
        None => None,
    }
}

// ---------------------------------------------------------------------
//  Expiry stamps
// ---------------------------------------------------------------------

/// The characters that end an `expires=` value: `&`, and unless
/// `only_ampersand`, also `/` and a space.
pub open spec fn ends_stamp(c: char, only_ampersand: bool) -> bool {
    c == '&' || (!only_ampersand && (c == '/' || c == ' '))
}

pub open spec fn stamp_end(s: Seq<char>, from: int, only_ampersand: bool) -> int
    decreases s.len() - from,
{
    if from < 0 || from >= s.len() || ends_stamp(s[from], only_ampersand) {
        from
    } else {
        stamp_end(s, from + 1, only_ampersand)
    }
}

/// The Unix time in the first `expires=` parameter of `url`, where its
/// value reads as a `u64`.
pub open spec fn expiry_stamp(url: Seq<char>, only_ampersand: bool) -> Option<u64> {
    match text::index_of_from(url, "expires="@, 0) {
        Some(i) => {
            let start = i + "expires="@.len();
            match text::parse_unsigned(url.subrange(start, stamp_end(url, start, only_ampersand)), u64::MAX as int) {
                Some(n) => Some(n as u64),
                None => None,
            }
        },
        None => None,
    }
}

proof fn lemma_stamp_end(s: Seq<char>, from: int, only_ampersand: bool)
    requires
        0 <= from <= s.len(),
    ensures
        from <= stamp_end(s, from, only_ampersand) <= s.len(),
    decreases s.len() - from,
{
    if from < s.len() && !ends_stamp(s[from], only_ampersand) {
        lemma_stamp_end(s, from + 1, only_ampersand);
    }
}

fn expiry_stamp_exec(url: &str, only_ampersand: bool) -> (r: Option<u64>)
    ensures
        r == expiry_stamp(url@, only_ampersand),
{
    let v = str_to_chars(url);
    let key = str_to_chars("expires=");
    let i = match text::index_of_from_exec(&v, &key, 0) {
        Some(i) => i,
        None => return None,
    };
    let start = i + key.len();
    let mut end = start;
    while end < v.len() && !(v[end] == '&' || (!only_ampersand && (v[end] == '/' || v[end] == ' ')))
        invariant
            start <= end <= v.len(),
            stamp_end(v@, start as int, only_ampersand) == stamp_end(v@, end as int, only_ampersand),
        decreases v.len() - end,
    {
        end = end + 1;
    }
    proof {
        text::lemma_index_of_from(v@, key@, 0);
    }
    assert(start as int == i + "expires="@.len());
    assert(end as int == stamp_end(url@, start as int, only_ampersand));
    text::parse_unsigned_range(&v, start, end, u64::MAX)
}

// ---------------------------------------------------------------------
//  The adapter trait
// ---------------------------------------------------------------------

/// A URL with expiry stamp `stamp` has expired at Unix time `now`.
pub open spec fn expired_by(stamp: Option<u64>, now: u64) -> bool {
    match stamp {
        Some(n) => n < now,
        None => false,
    }
}

/// A CDN platform's token grafting logic.
pub trait CdnAdapter {
    spec fn spec_name(&self) -> Seq<char>;

    spec fn spec_matches(&self, url: Seq<char>) -> bool;

    spec fn spec_patch_url(&self, new_url: Seq<char>, old_url: Seq<char>) -> Option<Seq<char>>;

    spec fn spec_js_snippet(&self) -> Option<Seq<char>>;

    /// The expiry stamp the adapter reads in `url`, if any.
    spec fn spec_expiry(&self, url: Seq<char>) -> Option<u64>;

    /// The adapter's name, for the log.
    fn name(&self) -> (r: &'static str)
        ensures
            r@ == self.spec_name(),
    ;

    /// Whether the adapter applies to `url`.
    fn matches(&self, url: &str) -> (r: bool)
        ensures
            r == self.spec_matches(url@),
    ;

    /// Grafts the credentials of `new_url` onto `old_url`, keeping its
    /// quality path; `None` where the adapter has nothing to graft.
    fn patch_url(&self, new_url: &str, old_url: &str) -> (r: Option<String>)
        ensures
            text::opt_view(r) == self.spec_patch_url(new_url@, old_url@),
    ;

    /// JavaScript run in the hidden WebView to synthesise tokenised URLs
    /// from the page source; it calls `report(url)` for each.
    fn js_extraction_snippet(&self) -> (r: Option<&'static str>)
        ensures
            text::opt_str_view(r) == self.spec_js_snippet(),
    ;

    /// The expiry stamp in `url`, as the adapter reads it.
    fn expiry(&self, url: &str) -> (r: Option<u64>)
        ensures
            r == self.spec_expiry(url@),
    ;

    /// Whether `url` has expired at Unix time `now`.
    fn is_expired_at(&self, url: &str, now: u64) -> (r: bool)
        ensures
            r == expired_by(self.spec_expiry(url@), now),
    {
        match self.expiry(url) {
            Some(n) => n < now,
            None => false,
        }
    }

    /// Whether `url` has expired by the system clock: the answer of
    /// `is_expired_at` for the time read.
    fn is_expired(&self, url: &str) -> (r: bool)
        ensures
            exists|now: u64| #[trigger] expired_by(self.spec_expiry(url@), now) == r,
    {
        let now = clock::unix_now_secs();
        let r = self.is_expired_at(url, now);
        assert(expired_by(self.spec_expiry(url@), now) == r);
        r
    }
}

// ---------------------------------------------------------------------
//  BunnyCDN
// ---------------------------------------------------------------------

/// Page-side JavaScript that rebuilds a BunnyCDN tokenised playlist URL
/// from the `bcdn_token`/`expires`/`token_path` parameters in the HTML.
pub const BUNNY_JS_SNIPPET: &'static str = r#"
          const tokenMatch = html.match(/bcdn_token=[a-zA-Z0-9\-_]+&expires=\d+&token_path=(%2F[^&"'\s\\]+%2F)/);
          if (tokenMatch) {
              const fullTokenStr = tokenMatch[0];
              const uuidPath = decodeURIComponent(tokenMatch[1]);
              // 嘗試從已知的 CDN 域名拼出完整網址
              const cdnHosts = html.match(/https?:\/\/[a-zA-Z0-9._-]*(?:b-cdn\.net|avking\.[a-z]+)/gi);
              const host = cdnHosts && cdnHosts[0] ? cdnHosts[0] : "https://videocdn.avking.xyz";
              const syntheticUrl = host + "/" + fullTokenStr + uuidPath + "playlist.m3u8";
              report(syntheticUrl);
          }
        "#;

/// BunnyCDN anti-leech adapter (videocdn.avking.xyz, *.b-cdn.net nodes).
pub struct BunnyCdnAdapter;

pub open spec fn bunny_matches(url: Seq<char>) -> bool {
    text::contains(url, "bcdn_token="@) || text::contains(url, "b-cdn.net"@) || text::contains(url, "avking"@)
}

/// The quality path graft, or else the first `bcdn_token=` and
/// `expires=` values of `new_url` written over those of `old_url`.
pub open spec fn bunny_patch(new_url: Seq<char>, old_url: Seq<char>) -> Option<Seq<char>> {
    match graft(new_url, old_url) {
        Some(g) => Some(g),
        None => {
            let token = params::param_text(new_url, "bcdn_token="@, RunClass::NotAmpersand);
            let expires = params::param_text(new_url, "expires="@, RunClass::Decimal);
            let p1 = match token {
                Some(t) => params::replace_first_param(old_url, "bcdn_token="@, RunClass::NotAmpersand, t),
                None => old_url,
            };
            let p2 = match expires {
                Some(e) => params::replace_first_param(p1, "expires="@, RunClass::Decimal, e),
                None => p1,
            };
            if token is None && expires is None {
                None
            } else {
                Some(p2)
            }
        },
    }
}

/// Writes the first value of parameter `lit` in `new_url` over the first
/// one in `patched`; reports whether `new_url` had one.
fn graft_param(new_url: &Vec<char>, patched: &mut Vec<char>, lit: &str, k: RunClass) -> (found: bool)
    ensures
        match params::param_text(new_url@, lit@, k) {
            Some(t) => found && final(patched)@ == params::replace_first_param(old(patched)@, lit@, k, t),
            None => !found && final(patched)@ == old(patched)@,
        },
{
    let lv = str_to_chars(lit);
    match find_param(new_url, &lv, k) {
        Some((a, b)) => {
            let t = copy_range(new_url, a, b);
            let next = replace_first_param_exec(patched, &lv, k, &t);
            *patched = next;
            true
        },
        None => false,
    }
}

impl CdnAdapter for BunnyCdnAdapter {
    open spec fn spec_name(&self) -> Seq<char> {
        "BunnyCDN"@
    }

    open spec fn spec_matches(&self, url: Seq<char>) -> bool {
        bunny_matches(url)
    }

    open spec fn spec_patch_url(&self, new_url: Seq<char>, old_url: Seq<char>) -> Option<Seq<char>> {
        bunny_patch(new_url, old_url)
    }

    open spec fn spec_js_snippet(&self) -> Option<Seq<char>> {
        Some(BUNNY_JS_SNIPPET@)
    }

    open spec fn spec_expiry(&self, url: Seq<char>) -> Option<u64> {
        expiry_stamp(url, false)
    }

    fn name(&self) -> (r: &'static str) {
        "BunnyCDN"
    }

    fn matches(&self, url: &str) -> (r: bool) {
        text::str_contains(url, "bcdn_token=") || text::str_contains(url, "b-cdn.net")
            || text::str_contains(url, "avking")
    }

    fn patch_url(&self, new_url: &str, old_url: &str) -> (r: Option<String>) {
        let nv = str_to_chars(new_url);
        let ov = str_to_chars(old_url);
        match graft_chars(&nv, &ov) {
            Some(g) => return Some(chars_to_string(&g)),
            None => {},
        }
        let mut patched = copy_range(&ov, 0, ov.len());
        assert(patched@ =~= old_url@);
        let changed_token = graft_param(&nv, &mut patched, "bcdn_token=", RunClass::NotAmpersand);
        let changed_expires = graft_param(&nv, &mut patched, "expires=", RunClass::Decimal);
        if changed_token || changed_expires {
            Some(chars_to_string(&patched))
        } else {
            None
        }
    }

    fn js_extraction_snippet(&self) -> (r: Option<&'static str>) {
        Some(BUNNY_JS_SNIPPET)
    }

    fn expiry(&self, url: &str) -> (r: Option<u64>) {
        expiry_stamp_exec(url, false)
    }
}

// ---------------------------------------------------------------------
//  CloudFront signed URLs
// ---------------------------------------------------------------------

/// AWS CloudFront signed URL adapter (*.cloudfront.net with `Policy`,
/// `Signature` and `Key-Pair-Id` parameters).
pub struct CloudFrontAdapter;

pub open spec fn cloudfront_matches(url: Seq<char>) -> bool {
    text::contains(url, "cloudfront.net"@) && text::contains(url, "Policy="@)
}

/// The quality path graft, or else the first `Policy=`, `Signature=` and
/// `Key-Pair-Id=` values of `new_url` written over those of `old_url`.
pub open spec fn cloudfront_patch(new_url: Seq<char>, old_url: Seq<char>) -> Option<Seq<char>> {
    match graft(new_url, old_url) {
        Some(g) => Some(g),
        None => {
            let policy = params::param_text(new_url, "Policy="@, RunClass::NotAmpersand);
            let sig = params::param_text(new_url, "Signature="@, RunClass::NotAmpersand);
            let key = params::param_text(new_url, "Key-Pair-Id="@, RunClass::NotAmpersand);
            let p1 = match policy {
                Some(t) => params::replace_first_param(old_url, "Policy="@, RunClass::NotAmpersand, t),
                None => old_url,
            };
            let p2 = match sig {
                Some(t) => params::replace_first_param(p1, "Signature="@, RunClass::NotAmpersand, t),
                None => p1,
            };
            let p3 = match key {
                Some(t) => params::replace_first_param(p2, "Key-Pair-Id="@, RunClass::NotAmpersand, t),
                None => p2,
            };
            if policy is None && sig is None && key is None {
                None
            } else {
                Some(p3)
            }
        },
    }
}

impl CdnAdapter for CloudFrontAdapter {
    open spec fn spec_name(&self) -> Seq<char> {
        "CloudFront"@
    }

    open spec fn spec_matches(&self, url: Seq<char>) -> bool {
        cloudfront_matches(url)
    }

    open spec fn spec_patch_url(&self, new_url: Seq<char>, old_url: Seq<char>) -> Option<Seq<char>> {
        cloudfront_patch(new_url, old_url)
    }

    open spec fn spec_js_snippet(&self) -> Option<Seq<char>> {
        None
    }

    open spec fn spec_expiry(&self, url: Seq<char>) -> Option<u64> {
        expiry_stamp(url, true)
    }

    fn name(&self) -> (r: &'static str) {
        "CloudFront"
    }

    fn matches(&self, url: &str) -> (r: bool) {
        text::str_contains(url, "cloudfront.net") && text::str_contains(url, "Policy=")
    }

    fn patch_url(&self, new_url: &str, old_url: &str) -> (r: Option<String>) {
        let nv = str_to_chars(new_url);
        let ov = str_to_chars(old_url);
        match graft_chars(&nv, &ov) {
            Some(g) => return Some(chars_to_string(&g)),
            None => {},
        }
        let mut patched = copy_range(&ov, 0, ov.len());
        assert(patched@ =~= old_url@);
        let c1 = graft_param(&nv, &mut patched, "Policy=", RunClass::NotAmpersand);
        let c2 = graft_param(&nv, &mut patched, "Signature=", RunClass::NotAmpersand);
        let c3 = graft_param(&nv, &mut patched, "Key-Pair-Id=", RunClass::NotAmpersand);
        if c1 || c2 || c3 {
            Some(chars_to_string(&patched))
        } else {
            None
        }
    }

    fn js_extraction_snippet(&self) -> (r: Option<&'static str>) {
        None
    }

    fn expiry(&self, url: &str) -> (r: Option<u64>) {
        expiry_stamp_exec(url, true)
    }
}

// ---------------------------------------------------------------------
//  Avjoy
// ---------------------------------------------------------------------

/// Whether a path segment of exactly ten ASCII digits (a Unix time in
/// seconds) stands between the `/` at `i` and the `/` at `i + 11`.
pub open spec fn stamp_segment_at(s: Seq<char>, i: int) -> bool {
    0 <= i && i + 11 < s.len() && s[i] == '/' && s[i + 11] == '/'
        && text::all_ascii_digits(s.subrange(i + 1, i + 11))
}

/// The Unix time in the first ten-digit path segment at or after `i`.
pub open spec fn path_stamp_from(s: Seq<char>, i: int) -> Option<u64>
    decreases s.len() - i,
{
    if i < 0 || i + 11 >= s.len() {
        None
    } else if stamp_segment_at(s, i) {
        match text::parse_unsigned(s.subrange(i + 1, i + 11), u64::MAX as int) {
            Some(n) => Some(n as u64),
            None => None,
        }
    } else {
        path_stamp_from(s, i + 1)
    }
}

fn stamp_segment_at_exec(v: &Vec<char>, i: usize) -> (r: bool)
    ensures
        r == stamp_segment_at(v@, i as int),
{
    if !(i < v.len() && v.len() - i > 11) {
        return false;
    }
    if v[i] != '/' || v[i + 11] != '/' {
        return false;
    }
    let mut k = i + 1;
    while k < i + 11
        invariant
            i + 1 <= k <= i + 11,
            i + 11 < v.len(),
            forall|j: int| i + 1 <= j < k ==> text::is_ascii_digit(#[trigger] v@[j]),
        decreases i + 11 - k,
    {
        if !('0' <= v[k] && v[k] <= '9') {
            assert(v@.subrange(i + 1, i + 11)[k - (i + 1)] == v@[k as int]);
            return false;
        }
        k = k + 1;
    }
    assert forall|j: int| 0 <= j < 10 implies text::is_ascii_digit(#[trigger] v@.subrange(i + 1, i + 11)[j]) by {
        assert(v@.subrange(i + 1, i + 11)[j] == v@[i + 1 + j]);
    }
    true
}

fn path_stamp_exec(url: &str) -> (r: Option<u64>)
    ensures
        r == path_stamp_from(url@, 0),
{
    let v = str_to_chars(url);
    let mut i: usize = 0;
    while i < v.len() && v.len() - i > 11
        invariant
            v@ == url@,
            path_stamp_from(v@, 0) == path_stamp_from(v@, i as int),
        decreases v.len() - i,
    {
        if stamp_segment_at_exec(&v, i) {
            return text::parse_unsigned_range(&v, i + 1, i + 11, u64::MAX);
        }
        i = i + 1;
    }
    None
}

/// Avjoy's content CDN (`media-cdn*.avjoy.me`): the main video is a plain
/// MP4 whose path holds its expiry as a ten-digit Unix time segment (such
/// as `/1778925984/`); a refresh re-extracts the URL from the page, so only
/// the quality path is grafted.
pub struct AvjoyAdapter;

impl CdnAdapter for AvjoyAdapter {
    open spec fn spec_name(&self) -> Seq<char> {
        "Avjoy"@
    }

    open spec fn spec_matches(&self, url: Seq<char>) -> bool {
        text::contains(url, "://media-cdn"@) && text::contains(url, ".avjoy.me"@)
    }

    open spec fn spec_patch_url(&self, new_url: Seq<char>, old_url: Seq<char>) -> Option<Seq<char>> {
        graft(new_url, old_url)
    }

    open spec fn spec_js_snippet(&self) -> Option<Seq<char>> {
        None
    }

    open spec fn spec_expiry(&self, url: Seq<char>) -> Option<u64> {
        path_stamp_from(url, 0)
    }

    fn name(&self) -> (r: &'static str) {
        "Avjoy"
    }

    fn matches(&self, url: &str) -> (r: bool) {
        text::str_contains(url, "://media-cdn") && text::str_contains(url, ".avjoy.me")
    }

    fn patch_url(&self, new_url: &str, old_url: &str) -> (r: Option<String>) {
        graft_resolution_path(new_url, old_url)
    }

    fn js_extraction_snippet(&self) -> (r: Option<&'static str>) {
        None
    }

    fn expiry(&self, url: &str) -> (r: Option<u64>) {
        path_stamp_exec(url)
    }
}

// ---------------------------------------------------------------------
//  Generic fallback
// ---------------------------------------------------------------------

/// Fallback adapter: matches every URL, only grafts the quality path, and
/// never reads an expiry.
pub struct GenericAdapter;

impl CdnAdapter for GenericAdapter {
    open spec fn spec_name(&self) -> Seq<char> {
        "Generic"@
    }

    open spec fn spec_matches(&self, url: Seq<char>) -> bool {
        true
    }

    open spec fn spec_patch_url(&self, new_url: Seq<char>, old_url: Seq<char>) -> Option<Seq<char>> {
        graft(new_url, old_url)
    }

    open spec fn spec_js_snippet(&self) -> Option<Seq<char>> {
        None
    }

    open spec fn spec_expiry(&self, url: Seq<char>) -> Option<u64> {
        None
    }

    fn name(&self) -> (r: &'static str) {
        "Generic"
    }

    fn matches(&self, _url: &str) -> (r: bool) {
        true
    }

    fn patch_url(&self, new_url: &str, old_url: &str) -> (r: Option<String>) {
        graft_resolution_path(new_url, old_url)
    }

    fn js_extraction_snippet(&self) -> (r: Option<&'static str>) {
        None
    }

    fn expiry(&self, _url: &str) -> (r: Option<u64>) {
        None
    }
}

// ---------------------------------------------------------------------
//  The registry and its dispatcher
// ---------------------------------------------------------------------

/// The registered adapters. `select_adapter` tries them in the order of
/// `registry()`; `Generic` matches every URL and stays last.
#[derive(Clone, Copy, PartialEq, Eq, Debug)]
pub enum RegisteredAdapter {
    BunnyCdn,
    CloudFront,
    Avjoy,
    Generic,
}

pub open spec fn registry() -> Seq<RegisteredAdapter> {
    seq![RegisteredAdapter::BunnyCdn, RegisteredAdapter::CloudFront, RegisteredAdapter::Avjoy, RegisteredAdapter::Generic]
}

/// The first registered adapter that matches `url`.
pub open spec fn selected_adapter(url: Seq<char>) -> RegisteredAdapter {
    if bunny_matches(url) {
        RegisteredAdapter::BunnyCdn
    } else if cloudfront_matches(url) {
        RegisteredAdapter::CloudFront
    } else if AvjoyAdapter.spec_matches(url) {
        RegisteredAdapter::Avjoy
    } else {
        RegisteredAdapter::Generic
    }
}

impl CdnAdapter for RegisteredAdapter {
    open spec fn spec_name(&self) -> Seq<char> {
        match self {
            RegisteredAdapter::BunnyCdn => BunnyCdnAdapter.spec_name(),
            RegisteredAdapter::CloudFront => CloudFrontAdapter.spec_name(),
            RegisteredAdapter::Avjoy => AvjoyAdapter.spec_name(),
            RegisteredAdapter::Generic => GenericAdapter.spec_name(),
        }
    }

    open spec fn spec_matches(&self, url: Seq<char>) -> bool {
        match self {
            RegisteredAdapter::BunnyCdn => BunnyCdnAdapter.spec_matches(url),
            RegisteredAdapter::CloudFront => CloudFrontAdapter.spec_matches(url),
            RegisteredAdapter::Avjoy => AvjoyAdapter.spec_matches(url),
            RegisteredAdapter::Generic => GenericAdapter.spec_matches(url),
        }
    }

    open spec fn spec_patch_url(&self, new_url: Seq<char>, old_url: Seq<char>) -> Option<Seq<char>> {
        match self {
            RegisteredAdapter::BunnyCdn => BunnyCdnAdapter.spec_patch_url(new_url, old_url),
            RegisteredAdapter::CloudFront => CloudFrontAdapter.spec_patch_url(new_url, old_url),
            RegisteredAdapter::Avjoy => AvjoyAdapter.spec_patch_url(new_url, old_url),
            RegisteredAdapter::Generic => GenericAdapter.spec_patch_url(new_url, old_url),
        }
    }

    open spec fn spec_js_snippet(&self) -> Option<Seq<char>> {
        match self {
            RegisteredAdapter::BunnyCdn => BunnyCdnAdapter.spec_js_snippet(),
            RegisteredAdapter::CloudFront => CloudFrontAdapter.spec_js_snippet(),
            RegisteredAdapter::Avjoy => AvjoyAdapter.spec_js_snippet(),
            RegisteredAdapter::Generic => GenericAdapter.spec_js_snippet(),
        }
    }

    open spec fn spec_expiry(&self, url: Seq<char>) -> Option<u64> {
        match self {
            RegisteredAdapter::BunnyCdn => BunnyCdnAdapter.spec_expiry(url),
            RegisteredAdapter::CloudFront => CloudFrontAdapter.spec_expiry(url),
            RegisteredAdapter::Avjoy => AvjoyAdapter.spec_expiry(url),
            RegisteredAdapter::Generic => GenericAdapter.spec_expiry(url),
        }
    }

    fn name(&self) -> (r: &'static str) {
        match self {
            RegisteredAdapter::BunnyCdn => BunnyCdnAdapter.name(),
            RegisteredAdapter::CloudFront => CloudFrontAdapter.name(),
            RegisteredAdapter::Avjoy => AvjoyAdapter.name(),
            RegisteredAdapter::Generic => GenericAdapter.name(),
        }
    }

    fn matches(&self, url: &str) -> (r: bool) {
        match self {
            RegisteredAdapter::BunnyCdn => BunnyCdnAdapter.matches(url),
            RegisteredAdapter::CloudFront => CloudFrontAdapter.matches(url),
            RegisteredAdapter::Avjoy => AvjoyAdapter.matches(url),
            RegisteredAdapter::Generic => GenericAdapter.matches(url),
        }
    }

    fn patch_url(&self, new_url: &str, old_url: &str) -> (r: Option<String>) {
        match self {
            RegisteredAdapter::BunnyCdn => BunnyCdnAdapter.patch_url(new_url, old_url),
            RegisteredAdapter::CloudFront => CloudFrontAdapter.patch_url(new_url, old_url),
            RegisteredAdapter::Avjoy => AvjoyAdapter.patch_url(new_url, old_url),
            RegisteredAdapter::Generic => GenericAdapter.patch_url(new_url, old_url),
        }
    }

    fn js_extraction_snippet(&self) -> (r: Option<&'static str>) {
        match self {
            RegisteredAdapter::BunnyCdn => BunnyCdnAdapter.js_extraction_snippet(),
            RegisteredAdapter::CloudFront => CloudFrontAdapter.js_extraction_snippet(),
            RegisteredAdapter::Avjoy => AvjoyAdapter.js_extraction_snippet(),
            RegisteredAdapter::Generic => GenericAdapter.js_extraction_snippet(),
        }
    }

    fn expiry(&self, url: &str) -> (r: Option<u64>) {
        match self {
            RegisteredAdapter::BunnyCdn => BunnyCdnAdapter.expiry(url),
            RegisteredAdapter::CloudFront => CloudFrontAdapter.expiry(url),
            RegisteredAdapter::Avjoy => AvjoyAdapter.expiry(url),
            RegisteredAdapter::Generic => GenericAdapter.expiry(url),
        }
    }
}

/// Picks the first registered adapter that matches `url`.
pub fn select_adapter(url: &str) -> (r: RegisteredAdapter)
    ensures
        r == selected_adapter(url@),
{
    if BunnyCdnAdapter.matches(url) {
        RegisteredAdapter::BunnyCdn
    } else if CloudFrontAdapter.matches(url) {
        RegisteredAdapter::CloudFront
    } else if AvjoyAdapter.matches(url) {
        RegisteredAdapter::Avjoy
    } else {
        RegisteredAdapter::Generic
    }
}

/// What `patch_m3u8_url` gives: the adapter of `old_url` grafts the
/// credentials of `new_url` onto it, and where it has nothing to graft the
/// new URL is used as it is.
pub open spec fn patched_m3u8_url(new_url: Seq<char>, old_url: Seq<char>) -> Seq<char> {
    match selected_adapter(old_url).spec_patch_url(new_url, old_url) {
        Some(p) => p,
        None => new_url,
    }
}

/// Grafts the credentials of `new_url` onto `old_url` (the single entry
/// point the relay uses).
pub fn patch_m3u8_url(new_url: &str, old_url: &str) -> (r: String)
    ensures
        r@ == patched_m3u8_url(new_url@, old_url@),
{
    let adapter = select_adapter(old_url);
    match adapter.patch_url(new_url, old_url) {
        Some(p) => p,
        None => String::from_str(new_url),
    }
}

/// Whether `url` has expired at Unix time `now`, by the adapter it selects.
pub open spec fn url_expired_at(url: Seq<char>, now: u64) -> bool {
    expired_by(selected_adapter(url).spec_expiry(url), now)
}

pub fn is_url_expired_at(url: &str, now: u64) -> (r: bool)
    ensures
        r == url_expired_at(url@, now),
{
    let adapter = select_adapter(url);
    adapter.is_expired_at(url, now)
}

/// Whether `url` has expired by the system clock: the answer of
/// `is_url_expired_at` for the time read.
pub fn is_url_expired(url: &str) -> (r: bool)
    ensures
        exists|now: u64| #[trigger] url_expired_at(url@, now) == r,
{
    let adapter = select_adapter(url);
    let r = adapter.is_expired(url);
    proof {
        let now = choose|now: u64| #[trigger] expired_by(adapter.spec_expiry(url@), now) == r;
        assert(url_expired_at(url@, now) == r);
    }
    r
}

/// The snippets of `adapters` that have one, in order.
pub open spec fn snippets_of(adapters: Seq<RegisteredAdapter>) -> Seq<Seq<char>>
    decreases adapters.len(),
{
    if adapters.len() == 0 {
        seq![]
    } else {
        let rest = snippets_of(adapters.drop_last());
        match adapters.last().spec_js_snippet() {
            Some(js) => rest.push(js),
            None => rest,
        }
    }
}

/// `parts` joined with a newline between each two.
pub open spec fn join_lines(parts: Seq<Seq<char>>) -> Seq<char>
    decreases parts.len(),
{
    if parts.len() == 0 {
        seq![]
    } else if parts.len() == 1 {
        parts[0]
    } else {
        join_lines(parts.drop_last()) + seq!['\n'] + parts.last()
    }
}

/// All adapters' JavaScript extraction snippets, joined by newlines.
pub fn all_js_extraction_snippets() -> (r: String)
    ensures
        r@ == join_lines(snippets_of(registry())),
{
    let mut adapters: Vec<RegisteredAdapter> = Vec::new();
    adapters.push(RegisteredAdapter::BunnyCdn);
    adapters.push(RegisteredAdapter::CloudFront);
    adapters.push(RegisteredAdapter::Avjoy);
    adapters.push(RegisteredAdapter::Generic);
    assert(adapters@ =~= registry());
    let mut out: Vec<char> = Vec::new();
    let mut count: usize = 0;
    let mut i: usize = 0;
    while i < adapters.len()
        invariant
            i <= adapters.len(),
            adapters@ == registry(),
            count as int == snippets_of(adapters@.take(i as int)).len(),
            count <= i,
            out@ == join_lines(snippets_of(adapters@.take(i as int))),
        decreases adapters.len() - i,
    {
        assert(adapters@.take(i + 1).drop_last() =~= adapters@.take(i as int));
        match adapters[i].js_extraction_snippet() {
            Some(js) => {
                if count > 0 {
                    out.push('\n');
                }
                let jv = str_to_chars(js);
                text::append_chars(&mut out, &jv);
                count = count + 1;
                proof {
                    let prev = snippets_of(adapters@.take(i as int));
                    assert(prev.push(js@).drop_last() =~= prev);
                    if prev.len() == 0 {
                        assert(out@ =~= join_lines(prev.push(js@)));
                    } else {
                        assert(out@ =~= join_lines(prev.push(js@)));
                    }
                }
            },
            None => {},
        }
        i = i + 1;
    }
    assert(adapters@.take(4) =~= adapters@);
    chars_to_string(&out)
}

} // verus!
