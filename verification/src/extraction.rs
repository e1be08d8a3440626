//! Finding the media playlists of a video page: reading them out of the
//! page source, labelling each with its quality, dropping expired ones,
//! choosing the one that matches a wanted quality, and the decisions of the
//! hidden-WebView capture (the script it runs, what it records, when it
//! stops waiting, which navigations it allows).

use vstd::prelude::*;
use crate::cdn_adapter;
use crate::clock;
use crate::cdn_adapter::{all_js_extraction_snippets, AvjoyAdapter, CdnAdapter};
use crate::order;
use crate::page_scan;
use crate::text;
use crate::text::{chars_to_string, str_to_chars};
use crate::urls;
use crate::urls::{parse_url, ParsedUrl};

verus! {

pub const SAFARI_USER_AGENT: &'static str = "Mozilla/5.0 (Macintosh; Intel Mac OS X 14_6) AppleWebKit/605.1.15 (KHTML, like Gecko) Version/17.5 Safari/605.1.15";

pub const UNKNOWN_RESOLUTION: &'static str = "Unknown resolution";

/// The host the capture script navigates to in order to hand a found URL
/// back (`http://m3u8-capture.internal/?url=...`).
pub const DYNAMIC_CAPTURE_HOST: &'static str = "m3u8-capture.internal";

/// How the playlists of a page were found.
#[derive(Clone, Copy, PartialEq, Eq, Debug)]
pub enum ExtractionStrategy {
    Static,
    Dynamic,
}

/// A playlist URL and its quality label.
pub struct M3u8Option {
    pub url: String,
    pub resolution: String,
}

pub struct M3u8OptionView {
    pub url: Seq<char>,
    pub resolution: Seq<char>,
}

impl View for M3u8Option {
    type V = M3u8OptionView;

    open spec fn view(&self) -> M3u8OptionView {
        M3u8OptionView { url: self.url@, resolution: self.resolution@ }
    }
}

impl Clone for M3u8Option {
    fn clone(&self) -> (r: Self)
        ensures
            r@ == self@,
    {
        M3u8Option { url: self.url.clone(), resolution: self.resolution.clone() }
    }
}

pub struct ExtractionResult {
    pub strategy: ExtractionStrategy,
    pub options: Vec<M3u8Option>,
}

pub open spec fn options_view(v: Seq<M3u8Option>) -> Seq<M3u8OptionView> {
    v.map_values(|o: M3u8Option| o@)
}

pub open spec fn opt_option_view(o: Option<M3u8Option>) -> Option<M3u8OptionView> {
    match o {
        Some(x) => Some(x@),
        None => None,
    }
}

// ---------------------------------------------------------------------
//  Playlist URLs in page source
// ---------------------------------------------------------------------

/// The distinct playlist URLs in `html`, sorted (see `page_scan`).
pub fn extract_m3u8_urls_from_html(html: &str) -> (r: Vec<String>)
    ensures
        order::strictly_sorted(order::string_views(r@)),
        order::string_views(r@).to_set() == page_scan::page_urls(html@).to_set(),
{
    page_scan::scan_page_urls(html)
}

// ---------------------------------------------------------------------
//  Advertisements and direct media
// ---------------------------------------------------------------------

/// A URL of a known advertisement CDN; such URLs are never offered.
pub open spec fn ad_url(u: Seq<char>) -> bool {
    text::contains(u, "growcdnssedge.com"@) || text::contains(u, "saawsedge.com"@)
        || text::contains(u, "nexusriftcore4.cyou"@)
}

pub fn is_ad_url(url: &str) -> (r: bool)
    ensures
        r == ad_url(url@),
{
    text::str_contains(url, "growcdnssedge.com") || text::str_contains(url, "saawsedge.com")
        || text::str_contains(url, "nexusriftcore4.cyou")
}

/// A captured URL that is itself a main video served as a plain file: an
/// `http(s)` URL of Avjoy's content CDN naming an `.mp4`.
pub open spec fn direct_media_url(u: Seq<char>) -> bool {
    page_scan::scheme_end(u, 0) is Some && AvjoyAdapter.spec_matches(u) && text::contains(u, ".mp4"@)
}

pub fn is_direct_media_url(url: &str) -> (r: bool)
    ensures
        r == direct_media_url(url@),
{
    let v = str_to_chars(url);
    let https = str_to_chars("https://");
    let http = str_to_chars("http://");
    let web = text::occurs_at_exec(&v, 0, &https) || text::occurs_at_exec(&v, 0, &http);
    web && AvjoyAdapter.matches(url) && text::str_contains(url, ".mp4")
}

/// The URLs a captured request URL or text yields: the playlist URLs in it,
/// and the text itself where it is a direct main-video URL; advertisement
/// URLs left out.
pub open spec fn captured_urls(c: Seq<char>) -> Set<Seq<char>> {
    Set::new(|u: Seq<char>| (page_scan::page_urls(c).contains(u) || (direct_media_url(c) && u == c)) && !ad_url(u))
}

proof fn lemma_push_to_set(s: Seq<Seq<char>>, y: Seq<char>)
    ensures
        s.push(y).to_set() == s.to_set().insert(y),
{
    let t = s.push(y);
    assert forall|x: Seq<char>| t.contains(x) implies s.to_set().insert(y).contains(x) by {
        let k = choose|k: int| 0 <= k < t.len() && t[k] == x;
        if k < s.len() {
            assert(s[k] == x);
        }
    }
    assert forall|x: Seq<char>| s.to_set().insert(y).contains(x) implies t.contains(x) by {
        if x == y {
            assert(t[s.len() as int] == x);
        } else {
            let k = choose|k: int| 0 <= k < s.len() && s[k] == x;
            assert(t[k] == x);
        }
    }
    assert(t.to_set() =~= s.to_set().insert(y));
}

/// `s` without its advertisement URLs, in order.
pub open spec fn unblocked(s: Seq<Seq<char>>) -> Seq<Seq<char>>
    decreases s.len(),
{
    if s.len() == 0 {
        seq![]
    } else if ad_url(s.last()) {
        unblocked(s.drop_last())
    } else {
        unblocked(s.drop_last()).push(s.last())
    }
}

proof fn lemma_unblocked(s: Seq<Seq<char>>)
    ensures
        forall|u: Seq<char>| #[trigger] unblocked(s).contains(u) <==> (s.contains(u) && !ad_url(u)),
        order::strictly_sorted(s) ==> order::strictly_sorted(unblocked(s)),
    decreases s.len(),
{
    if s.len() == 0 {
        assert forall|u: Seq<char>| #[trigger] unblocked(s).contains(u) <==> (s.contains(u) && !ad_url(u)) by {
            if s.contains(u) {
                let k = choose|k: int| 0 <= k < s.len() && s[k] == u;
            }
        }
    } else {
        let p = s.drop_last();
        let l = s.last();
        lemma_unblocked(p);
        let q = unblocked(p);
        assert(unblocked(s) == if ad_url(l) { q } else { q.push(l) });
        assert forall|u: Seq<char>| s.contains(u) <==> (p.contains(u) || u == l) by {
            if s.contains(u) {
                let k = choose|k: int| 0 <= k < s.len() && s[k] == u;
                if k < p.len() {
                    assert(p[k] == u);
                }
            }
            if p.contains(u) {
                let k = choose|k: int| 0 <= k < p.len() && p[k] == u;
                assert(s[k] == u);
            }
            if u == l {
                assert(s[s.len() - 1] == u);
            }
        }
        if !ad_url(l) {
            assert forall|u: Seq<char>| q.push(l).contains(u) <==> (q.contains(u) || u == l) by {
                if q.push(l).contains(u) {
                    let k = choose|k: int| 0 <= k < q.push(l).len() && q.push(l)[k] == u;
                    if k < q.len() {
                        assert(q[k] == u);
                    }
                }
                if q.contains(u) {
                    let k = choose|k: int| 0 <= k < q.len() && q[k] == u;
                    assert(q.push(l)[k] == u);
                }
                if u == l {
                    assert(q.push(l)[q.len() as int] == u);
                }
            }
            if order::strictly_sorted(s) {
                assert(order::strictly_sorted(p)) by {
                    assert forall|i: int, j: int| 0 <= i < j < p.len() implies order::seq_lt(#[trigger] p[i], #[trigger] p[j]) by {
                        assert(p[i] == s[i] && p[j] == s[j]);
                    }
                }
                assert forall|i: int, j: int| 0 <= i < j < q.push(l).len()
                    implies order::seq_lt(#[trigger] q.push(l)[i], #[trigger] q.push(l)[j]) by {
                    if j < q.len() {
                        assert(q.push(l)[i] == q[i] && q.push(l)[j] == q[j]);
                    } else {
                        assert(q.contains(q[i]));
                        let k = choose|k: int| 0 <= k < p.len() && p[k] == q[i];
                        assert(s[k] == q[i]);
                        assert(s[s.len() - 1] == l);
                        assert(order::seq_lt(s[k], s[s.len() - 1]));
                    }
                }
            }
        } else {
            if order::strictly_sorted(s) {
                assert(order::strictly_sorted(p)) by {
                    assert forall|i: int, j: int| 0 <= i < j < p.len() implies order::seq_lt(#[trigger] p[i], #[trigger] p[j]) by {
                        assert(p[i] == s[i] && p[j] == s[j]);
                    }
                }
            }
        }
        assert forall|u: Seq<char>| #[trigger] unblocked(s).contains(u) <==> (s.contains(u) && !ad_url(u)) by {
            assert(q.contains(u) <==> (p.contains(u) && !ad_url(u)));
            assert(s.contains(u) <==> (p.contains(u) || u == l));
            if !ad_url(l) {
                assert(q.push(l).contains(u) <==> (q.contains(u) || u == l));
            }
        }
    }
}

/// The URLs to record for a captured request URL or text.
pub fn candidate_urls(candidate: &str) -> (r: Vec<String>)
    ensures
        order::string_views(r@).to_set() == captured_urls(candidate@),
{
    let found = extract_m3u8_urls_from_html(candidate);
    let mut out: Vec<String> = Vec::new();
    let mut i: usize = 0;
    while i < found.len()
        invariant
            i <= found.len(),
            order::string_views(out@).to_set()
                == Set::new(|u: Seq<char>| order::string_views(found@.take(i as int)).contains(u) && !ad_url(u)),
        decreases found.len() - i,
    {
        let ghost before = order::string_views(out@);
        let ghost taken = order::string_views(found@.take(i as int));
        let ghost y = found@[i as int]@;
        assert(order::string_views(found@.take(i + 1)) =~= taken.push(y));
        proof { lemma_push_to_set(taken, y); }
        if !is_ad_url(found[i].as_str()) {
            out.push(found[i].clone());
            assert(order::string_views(out@) =~= before.push(y));
            proof { lemma_push_to_set(before, y); }
        }
        assert forall|u: Seq<char>| #[trigger] order::string_views(out@).to_set().contains(u)
            <==> (order::string_views(found@.take(i + 1)).contains(u) && !ad_url(u)) by {
            assert(taken.push(y).to_set().contains(u) == taken.push(y).contains(u));
            assert(taken.to_set().contains(u) == taken.contains(u));
        }
        assert(order::string_views(out@).to_set()
            =~= Set::new(|u: Seq<char>| order::string_views(found@.take(i + 1)).contains(u) && !ad_url(u)));
        i = i + 1;
    }
    assert(found@.take(found.len() as int) =~= found@);
    assert(forall|u: Seq<char>| order::string_views(found@).contains(u) == order::string_views(found@).to_set().contains(u));
    assert(forall|u: Seq<char>| page_scan::page_urls(candidate@).contains(u) == page_scan::page_urls(candidate@).to_set().contains(u));
    let ghost before = order::string_views(out@);
    if is_direct_media_url(candidate) && !is_ad_url(candidate) {
        out.push(String::from_str(candidate));
        assert(order::string_views(out@) =~= before.push(candidate@));
        proof { lemma_push_to_set(before, candidate@); }
    }
    assert(order::string_views(out@).to_set() =~= captured_urls(candidate@));
    out
}

// ---------------------------------------------------------------------
//  Quality labels
// ---------------------------------------------------------------------

/// The qualities a label can name, in the order they are tried.
pub open spec fn res_digits(i: int) -> Seq<char> {
    if i == 0 { "2160"@ }
    else if i == 1 { "1440"@ }
    else if i == 2 { "1080"@ }
    else if i == 3 { "720"@ }
    else if i == 4 { "540"@ }
    else if i == 5 { "480"@ }
    else if i == 6 { "360"@ }
    else { "240"@ }
}

/// Quality `i` followed by `p` or `P` starts at `j`, with no decimal digit
/// right before or right after.
pub open spec fn quality_at(s: Seq<char>, j: int, i: int) -> bool {
    let k = j + res_digits(i).len();
    &&& (j == 0 || (0 < j <= s.len() && !text::is_decimal(s[j - 1])))
    &&& text::occurs_at(s, j, res_digits(i))
    &&& k < s.len()
    &&& (s[k] == 'p' || s[k] == 'P')
    &&& (k + 1 == s.len() || !text::is_decimal(s[k + 1]))
}

/// The first quality, from the `i`-th on, named at `j`.
pub open spec fn quality_named_at(s: Seq<char>, j: int, i: int) -> Option<int>
    decreases 8 - i,
{
    if i < 0 || i >= 8 {
        None
    } else if quality_at(s, j, i) {
        Some(i)
    } else {
        quality_named_at(s, j, i + 1)
    }
}

/// The quality named leftmost in `s`, at or after `j`.
pub open spec fn first_quality(s: Seq<char>, j: int) -> Option<int>
    decreases s.len() + 1 - j,
{
    if j < 0 || j > s.len() {
        None
    } else {
        match quality_named_at(s, j, 0) {
            Some(i) => Some(i),
            None => first_quality(s, j + 1),
        }
    }
}

/// The label of a URL's last path segment, where it is non-empty.
pub open spec fn segment_label(parsed: Option<urls::ParsedUrlView>) -> Seq<char> {
    match parsed {
        Some(u) => match u.last_segment {
            Some(seg) => if seg.len() > 0 { seg } else { UNKNOWN_RESOLUTION@ },
            None => UNKNOWN_RESOLUTION@,
        },
        None => UNKNOWN_RESOLUTION@,
    }
}

/// The quality label of a URL: the leftmost quality it names, lower-cased
/// (`720p`); else the last segment of its path; else "Unknown resolution".
pub open spec fn resolution_label(url: Seq<char>) -> Seq<char> {
    match first_quality(url, 0) {
        Some(i) => res_digits(i) + "p"@,
        None => segment_label(urls::url_parse(url)),
    }
}

fn res_digits_chars(i: usize) -> (r: Vec<char>)
    ensures
        r@ == res_digits(i as int),
{
    if i == 0 { str_to_chars("2160") }
    else if i == 1 { str_to_chars("1440") }
    else if i == 2 { str_to_chars("1080") }
    else if i == 3 { str_to_chars("720") }
    else if i == 4 { str_to_chars("540") }
    else if i == 5 { str_to_chars("480") }
    else if i == 6 { str_to_chars("360") }
    else { str_to_chars("240") }
}

fn quality_at_exec(v: &Vec<char>, j: usize, i: usize) -> (r: bool)
    ensures
        r == quality_at(v@, j as int, i as int),
{
    if !(j == 0 || (j <= v.len() && !text::decimal_char(v[j - 1]))) {
        return false;
    }
    let d = res_digits_chars(i);
    if !text::occurs_at_exec(v, j, &d) {
        return false;
    }
    let k = j + d.len();
    k < v.len() && (v[k] == 'p' || v[k] == 'P') && (k + 1 == v.len() || !text::decimal_char(v[k + 1]))
}

/// The quality named leftmost in the text of `url`.
fn quality_in_text(v: &Vec<char>) -> (r: Option<usize>)
    ensures
        match first_quality(v@, 0) {
            Some(i) => r matches Some(x) && x as int == i,
            None => r is None,
        },
{
    let mut j: usize = 0;
    loop
        invariant
            j <= v.len(),
            first_quality(v@, 0) == first_quality(v@, j as int),
        decreases v.len() - j,
    {
        let mut i: usize = 0;
        while i < 8
            invariant
                i <= 8,
                j <= v.len(),
                first_quality(v@, 0) == first_quality(v@, j as int),
                quality_named_at(v@, j as int, 0) == quality_named_at(v@, j as int, i as int),
            decreases 8 - i,
        {
            if quality_at_exec(v, j, i) {
                return Some(i);
            }
            i = i + 1;
        }
        if j >= v.len() {
            assert(first_quality(v@, j + 1) is None);
            return None;
        }
        j = j + 1;
    }
}

/// The label of a parsed URL's last path segment (the fallback when the
/// URL names no quality).
pub fn label_from_parsed(parsed: Option<ParsedUrl>) -> (r: String)
    ensures
        r@ == segment_label(urls::parsed_view(parsed)),
{
    match parsed {
        Some(u) => match u.last_segment {
            Some(seg) => if seg.as_str().is_empty() { String::from_str(UNKNOWN_RESOLUTION) } else { seg },
            None => String::from_str(UNKNOWN_RESOLUTION),
        },
        None => String::from_str(UNKNOWN_RESOLUTION),
    }
}

/// The quality label of a playlist URL, e.g. `720p`.
pub fn parse_resolution_label(url: &str) -> (r: String)
    ensures
        r@ == resolution_label(url@),
{
    let v = str_to_chars(url);
    match quality_in_text(&v) {
        Some(i) => {
            let mut label = res_digits_chars(i);
            label.push('p');
            proof { reveal_strlit("p"); }
            assert(label@ =~= res_digits(i as int) + "p"@);
            chars_to_string(&label)
        },
        None => label_from_parsed(parse_url(url)),
    }
}

// ---------------------------------------------------------------------
//  Choosing a quality
// ---------------------------------------------------------------------

/// The number a quality label names (`1080p` -> 1080): the label without
/// its trailing `p`s, read as an `i32`.
pub open spec fn label_number(label: Seq<char>) -> Option<int> {
    text::parse_signed(text::trim_suffix_all(label, "p"@), i32::MIN as int, i32::MAX as int)
}

pub open spec fn distance(a: int, b: int) -> int {
    if a >= b { a - b } else { b - a }
}

/// Among the first `n` options, the first of those nearest to `target`.
pub open spec fn nearest_among(opts: Seq<M3u8OptionView>, target: int, n: int) -> Option<int>
    decreases n,
{
    if n <= 0 || n > opts.len() {
        None
    } else {
        let best = nearest_among(opts, target, n - 1);
        match label_number(opts[n - 1].resolution) {
            None => best,
            Some(v) => match best {
                None => Some(n - 1),
                Some(b) => if distance(v, target) < distance(label_number(opts[b].resolution)->0, target) {
                    Some(n - 1)
                } else {
                    best
                },
            },
        }
    }
}

/// The option whose quality is nearest to `target` (the first such);
/// none where `target` or no option reads as a number.
pub open spec fn closest_option(opts: Seq<M3u8OptionView>, target: Seq<char>) -> Option<M3u8OptionView> {
    match label_number(target) {
        None => None,
        Some(t) => match nearest_among(opts, t, opts.len() as int) {
            Some(i) => Some(opts[i]),
            None => None,
        },
    }
}

/// The first option whose label is exactly `target`.
pub open spec fn first_labelled(opts: Seq<M3u8OptionView>, target: Seq<char>, from: int) -> Option<int>
    decreases opts.len() - from,
{
    if from < 0 || from >= opts.len() {
        None
    } else if opts[from].resolution == target {
        Some(from)
    } else {
        first_labelled(opts, target, from + 1)
    }
}

/// The option labelled `target`, or else the nearest quality.
pub open spec fn chosen_option(opts: Seq<M3u8OptionView>, target: Seq<char>) -> Option<M3u8OptionView> {
    match first_labelled(opts, target, 0) {
        Some(i) => Some(opts[i]),
        None => closest_option(opts, target),
    }
}

fn label_number_exec(label: &String) -> (r: Option<i64>)
    ensures
        match label_number(label@) {
            Some(n) => r == Some(n as i64) && i32::MIN <= n <= i32::MAX,
            None => r is None,
        },
{
    let v = str_to_chars(label.as_str());
    let p = str_to_chars("p");
    let body = text::trim_suffix_all_exec(&v, &p);
    let ghost b = body@;
    if body.len() > 0 && body[0] == '-' {
        if body.len() == 1 || body[1] == '+' {
            assert(b.len() == 1 || b.drop_first()[0] == '+');
            return None;
        }
        match text::parse_unsigned_range(&body, 1, body.len(), 2147483648u64) {
            Some(n) => {
                assert(b.subrange(1, b.len() as int) =~= b.drop_first());
                Some(-(n as i64))
            },
            None => {
                assert(b.subrange(1, b.len() as int) =~= b.drop_first());
                None
            },
        }
    } else {
        assert(b.subrange(0, b.len() as int) =~= b);
        match text::parse_unsigned_range(&body, 0, body.len(), 2147483647u64) {
            Some(n) => Some(n as i64),
            None => None,
        }
    }
}

/// The option whose quality is nearest to `target`.
pub fn closest_resolution(options: &[M3u8Option], target: &str) -> (r: Option<M3u8Option>)
    ensures
        opt_option_view(r) == closest_option(options_view(options@), target@),
{
    let t = match label_number_exec(&String::from_str(target)) {
        Some(t) => t,
        None => return None,
    };
    let ghost opts = options_view(options@);
    let mut best: Option<usize> = None;
    let mut best_distance: i64 = 0;
    let mut i: usize = 0;
    while i < options.len()
        invariant
            i <= options.len(),
            opts == options_view(options@),
            label_number(target@) == Some(t as int),
            i32::MIN <= t <= i32::MAX,
            best is Some <==> nearest_among(opts, t as int, i as int) is Some,
            best matches Some(b) ==> b < i && nearest_among(opts, t as int, i as int) == Some(b as int)
                && label_number(opts[b as int].resolution) is Some
                && best_distance as int == distance(label_number(opts[b as int].resolution)->0, t as int),
        decreases options.len() - i,
    {
        assert(opts[i as int] == options@[i as int]@);
        match label_number_exec(&options[i].resolution) {
            Some(v) => {
                let d = if v >= t { v - t } else { t - v };
                match best {
                    None => {
                        best = Some(i);
                        best_distance = d;
                    },
                    Some(_) => {
                        if d < best_distance {
                            best = Some(i);
                            best_distance = d;
                        }
                    },
                }
            },
            None => {},
        }
        i = i + 1;
    }
    match best {
        Some(b) => Some(options[b].clone()),
        None => None,
    }
}

/// The option labelled `target`, or else the one of nearest quality; the
/// relay uses it to keep the quality a task was started with.
pub fn choose_resolution(options: &[M3u8Option], target: &str) -> (r: Option<M3u8Option>)
    ensures
        opt_option_view(r) == chosen_option(options_view(options@), target@),
{
    let wanted = String::from_str(target);
    let mut i: usize = 0;
    while i < options.len()
        invariant
            i <= options.len(),
            wanted@ == target@,
            first_labelled(options_view(options@), target@, 0) == first_labelled(options_view(options@), target@, i as int),
        decreases options.len() - i,
    {
        if options[i].resolution == wanted {
            return Some(options[i].clone());
        }
        i = i + 1;
    }
    closest_resolution(options, target)
}

// ---------------------------------------------------------------------
//  Options from found URLs
// ---------------------------------------------------------------------

pub open spec fn labelled(url: Seq<char>) -> M3u8OptionView {
    M3u8OptionView { url, resolution: resolution_label(url) }
}

pub open spec fn option_urls(opts: Seq<M3u8OptionView>) -> Seq<Seq<char>> {
    opts.map_values(|o: M3u8OptionView| o.url)
}

/// Every option carries the label of its URL.
pub open spec fn all_labelled(opts: Seq<M3u8OptionView>) -> bool {
    forall|i: int| 0 <= i < opts.len() ==> (#[trigger] opts[i]).resolution == resolution_label(opts[i].url)
}

/// The options the static extraction offers for a page's source: each
/// playlist URL in it that no advertisement CDN serves, once, in sorted
/// order, with its label.
pub fn options_from_html(html: &str) -> (r: Vec<M3u8Option>)
    ensures
        order::strictly_sorted(option_urls(options_view(r@))),
        option_urls(options_view(r@)).to_set()
            == Set::new(|u: Seq<char>| page_scan::page_urls(html@).contains(u) && !ad_url(u)),
        all_labelled(options_view(r@)),
{
    let found = extract_m3u8_urls_from_html(html);
    let mut out: Vec<M3u8Option> = Vec::new();
    let mut i: usize = 0;
    while i < found.len()
        invariant
            i <= found.len(),
            option_urls(options_view(out@)) == unblocked(order::string_views(found@.take(i as int))),
            all_labelled(options_view(out@)),
        decreases found.len() - i,
    {
        let ghost taken = order::string_views(found@.take(i as int));
        assert(order::string_views(found@.take(i + 1)) =~= taken.push(found@[i as int]@));
        assert(order::string_views(found@.take(i + 1)).drop_last() =~= taken);
        if !is_ad_url(found[i].as_str()) {
            let url = found[i].clone();
            let resolution = parse_resolution_label(url.as_str());
            let ghost before = options_view(out@);
            out.push(M3u8Option { url, resolution });
            assert(options_view(out@) =~= before.push(M3u8OptionView { url: found@[i as int]@, resolution: resolution@ }));
            assert(option_urls(options_view(out@)) =~= option_urls(before).push(found@[i as int]@));
        }
        i = i + 1;
    }
    assert(found@.take(found.len() as int) =~= found@);
    proof {
        lemma_unblocked(order::string_views(found@));
        assert forall|u: Seq<char>| #[trigger] option_urls(options_view(out@)).to_set().contains(u)
            <==> (page_scan::page_urls(html@).contains(u) && !ad_url(u)) by {
            assert(option_urls(options_view(out@)).to_set().contains(u) == option_urls(options_view(out@)).contains(u));
            assert(order::string_views(found@).to_set().contains(u) == order::string_views(found@).contains(u));
            assert(page_scan::page_urls(html@).to_set().contains(u) == page_scan::page_urls(html@).contains(u));
        }
        assert(option_urls(options_view(out@)).to_set()
            =~= Set::new(|u: Seq<char>| page_scan::page_urls(html@).contains(u) && !ad_url(u)));
    }
    out
}

// ---------------------------------------------------------------------
//  Dropping expired URLs
// ---------------------------------------------------------------------

/// The URLs not expired at `now`, each with its label, in their order.
pub open spec fn live_options(urls: Seq<Seq<char>>, now: u64) -> Seq<M3u8OptionView>
    decreases urls.len(),
{
    if urls.len() == 0 {
        seq![]
    } else {
        let rest = live_options(urls.drop_last(), now);
        if cdn_adapter::url_expired_at(urls.last(), now) {
            rest
        } else {
            rest.push(labelled(urls.last()))
        }
    }
}

/// The options for found URLs at Unix time `now`: expired URLs are left
/// out, the others labelled.
pub fn options_from_urls_at(urls: &Vec<String>, now: u64) -> (r: Vec<M3u8Option>)
    ensures
        options_view(r@) == live_options(order::string_views(urls@), now),
{
    let mut out: Vec<M3u8Option> = Vec::new();
    let mut i: usize = 0;
    while i < urls.len()
        invariant
            i <= urls.len(),
            options_view(out@) == live_options(order::string_views(urls@.take(i as int)), now),
        decreases urls.len() - i,
    {
        let ghost before = options_view(out@);
        assert(order::string_views(urls@.take(i + 1)).drop_last() =~= order::string_views(urls@.take(i as int)));
        assert(order::string_views(urls@.take(i + 1)).last() == urls@[i as int]@);
        if !cdn_adapter::is_url_expired_at(urls[i].as_str(), now) {
            let url = urls[i].clone();
            let resolution = parse_resolution_label(url.as_str());
            out.push(M3u8Option { url, resolution });
            assert(options_view(out@) =~= before.push(labelled(urls@[i as int]@)));
        }
        i = i + 1;
    }
    assert(urls@.take(urls.len() as int) =~= urls@);
    out
}

/// The options of `opts` whose URL is (`media`) or is not a direct main
/// video, in their order.
pub open spec fn media_part(opts: Seq<M3u8OptionView>, media: bool) -> Seq<M3u8OptionView>
    decreases opts.len(),
{
    if opts.len() == 0 {
        seq![]
    } else if direct_media_url(opts.last().url) == media {
        media_part(opts.drop_last(), media).push(opts.last())
    } else {
        media_part(opts.drop_last(), media)
    }
}

/// Direct main videos first, then the playlists, each group in its order.
pub open spec fn media_first(opts: Seq<M3u8OptionView>) -> Seq<M3u8OptionView> {
    media_part(opts, true) + media_part(opts, false)
}

fn media_part_exec(opts: &Vec<M3u8Option>, media: bool) -> (r: Vec<M3u8Option>)
    ensures
        options_view(r@) == media_part(options_view(opts@), media),
{
    let mut out: Vec<M3u8Option> = Vec::new();
    let mut i: usize = 0;
    while i < opts.len()
        invariant
            i <= opts.len(),
            options_view(out@) == media_part(options_view(opts@).take(i as int), media),
        decreases opts.len() - i,
    {
        let ghost before = options_view(out@);
        assert(options_view(opts@).take(i + 1).drop_last() =~= options_view(opts@).take(i as int));
        assert(options_view(opts@).take(i + 1).last() == opts@[i as int]@);
        if is_direct_media_url(opts[i].url.as_str()) == media {
            out.push(opts[i].clone());
            assert(options_view(out@) =~= before.push(opts@[i as int]@));
        }
        i = i + 1;
    }
    assert(options_view(opts@).take(opts.len() as int) =~= options_view(opts@));
    out
}

/// Puts the direct main videos before the playlists, keeping each group's
/// order.
pub fn media_first_options(opts: Vec<M3u8Option>) -> (r: Vec<M3u8Option>)
    ensures
        options_view(r@) == media_first(options_view(opts@)),
{
    let mut first = media_part_exec(&opts, true);
    let mut rest = media_part_exec(&opts, false);
    let ghost a = options_view(first@);
    let ghost b = options_view(rest@);
    first.append(&mut rest);
    assert(options_view(first@) =~= a + b);
    first
}

/// The options for found URLs by the system clock: the URLs not expired at
/// the time read, each with its label, direct main videos first.
pub fn options_from_urls(urls: &Vec<String>) -> (r: Vec<M3u8Option>)
    ensures
        exists|now: u64| options_view(r@) == #[trigger] media_first(live_options(order::string_views(urls@), now)),
{
    let now = clock::unix_now_secs();
    let live = options_from_urls_at(urls, now);
    let r = media_first_options(live);
    assert(options_view(r@) == media_first(live_options(order::string_views(urls@), now)));
    r
}

// ---------------------------------------------------------------------
//  The capture script
// ---------------------------------------------------------------------

/// Where the adapters' extraction snippets go in the capture script.
pub const SNIPPETS_PLACEHOLDER: &'static str = "CDN_EXTRACTION_SNIPPETS_PLACEHOLDER";

/// The script installed in the hidden WebView: it hooks `fetch`,
/// `XMLHttpRequest.open`, resource timing entries and media elements,
/// scans the page and its iframes (running the adapters' snippets), starts
/// muted playback, and hands every `.m3u8` URL it sees back by navigating
/// to the capture host.
pub const CAPTURE_SCRIPT_TEMPLATE: &'static str = r#"
(() => {
  if (window.__JAVRATE_M3U8_CAPTURE_INSTALLED__) return;
  window.__JAVRATE_M3U8_CAPTURE_INSTALLED__ = true;
  const seen = new Set();
  const pattern = /\.m3u8(?:[?#][^\s"'<>\\]*)?/i;
  const mediaPattern = /^https?:\/\/media-cdn[^\/]*\.avjoy\.me\/.*\.mp4/i;
  const AD_CDNS = ["growcdnssedge.com", "saawsedge.com", "nexusriftcore4.cyou"];
  const report = (value) => {
    try {
      if (!value) return;
      const absoluteUrl = new URL(String(value), document.baseURI).href;
      if (AD_CDNS.some((ad) => absoluteUrl.includes(ad))) return;
      if (!(pattern.test(absoluteUrl) || mediaPattern.test(absoluteUrl)) || seen.has(absoluteUrl)) return;
      seen.add(absoluteUrl);
      window.location.href = "http://m3u8-capture.internal/?url=" + encodeURIComponent(absoluteUrl);
    } catch (_) {}
  };
  const originalFetch = window.fetch;
  if (typeof originalFetch === "function") {
    window.fetch = function(input, init) {
      report(typeof input === "string" ? input : input && input.url);
      return originalFetch.apply(this, arguments).then((response) => {
        report(response && response.url);
        return response;
      });
    };
  }
  const originalOpen = XMLHttpRequest.prototype.open;
  XMLHttpRequest.prototype.open = function(method, url) {
    report(url);
    return originalOpen.apply(this, arguments);
  };
  const scanResources = () => {
    try {
      const scanWindow = (win) => {
        try {
          win.performance.getEntriesByType("resource").forEach((entry) => report(entry.name));
          win.document.querySelectorAll("a, video, source").forEach((node) => report(node.href || node.src));
          
          const html = win.document.documentElement.outerHTML;
          
          // 動態注入所有已註冊 CDN 適配器的 JS 擷取邏輯
          CDN_EXTRACTION_SNIPPETS_PLACEHOLDER

          const matches = html.match(/https?:\/\/[^\s"'<>\\]+?\.m3u8(?:[^\s"'<>\\]*)?/gi);
          if (matches) {
            matches.forEach(m => {
                report(m);
                // 嘗試解析母清單找出子清單
                if (!seen.has(m + "_parsed")) {
                    seen.add(m + "_parsed");
                    fetch(m).then(res => res.text()).then(text => {
                        const lines = text.split('\n');
                        lines.forEach(line => {
                            line = line.trim();
                            if (line && !line.startsWith('#') && line.includes('.m3u8')) {
                                try {
                                    const base = new URL(m);
                                    const subUrl = new URL(line, m);
                                    subUrl.search = base.search; // 保留原始的 token 等 query 參數
                                    report(subUrl.href);
                                } catch(e) {}
                            }
                        });
                    }).catch(() => {});
                }
            });
          }

          // Playback is started through the media API only: clicking the
          // page's play buttons opens pop-under advertisements.
          win.document.querySelectorAll("video").forEach((v) => {
            v.muted = true;
            const _ = v.play();
            report(v.currentSrc);
          });

          Array.from(win.document.querySelectorAll("iframe")).forEach(f => {
            if (f.contentWindow) scanWindow(f.contentWindow);
          });
        } catch (e) {} // 跨域 iframe 會在此拋出錯誤
      };
      scanWindow(window);
    } catch (_) {}
  };
  setInterval(scanResources, 250);
  document.addEventListener("DOMContentLoaded", () => {
      // 強制重載 iframe 以破壞快取
      document.querySelectorAll("iframe").forEach(iframe => {
          try {
              let src = iframe.src;
              if (src && !src.includes("_t=")) {
                  let buster = "_t=" + Date.now();
                  iframe.src = src.includes("?") ? src + "&" + buster : src + "?" + buster;
              }
          } catch(e) {}
      });
      scanResources();
  });
  scanResources();
})();
"#;

pub open spec fn capture_script() -> Seq<char> {
    text::replace_all(
        CAPTURE_SCRIPT_TEMPLATE@,
        SNIPPETS_PLACEHOLDER@,
        cdn_adapter::join_lines(cdn_adapter::snippets_of(cdn_adapter::registry())),
    )
}

/// The capture script with every adapter's snippet in place.
pub fn dynamic_capture_script() -> (r: String)
    ensures
        r@ == capture_script(),
{
    let snippets = all_js_extraction_snippets();
    let template = str_to_chars(CAPTURE_SCRIPT_TEMPLATE);
    let placeholder = str_to_chars(SNIPPETS_PLACEHOLDER);
    let body = str_to_chars(snippets.as_str());
    proof { reveal_strlit("CDN_EXTRACTION_SNIPPETS_PLACEHOLDER"); }
    let out = text::replace_all_exec(&template, &placeholder, &body);
    chars_to_string(&out)
}

// ---------------------------------------------------------------------
//  What the capture records
// ---------------------------------------------------------------------

/// The distinct playlist URLs captured so far, kept sorted.
pub struct CaptureSet {
    urls: Vec<String>,
}

impl CaptureSet {
    #[verifier::type_invariant]
    closed spec fn sorted(&self) -> bool {
        order::strictly_sorted(order::string_views(self.urls@))
    }

    pub closed spec fn view(&self) -> Set<Seq<char>> {
        order::string_views(self.urls@).to_set()
    }

    pub fn new() -> (r: Self)
        ensures
            r.view() == Set::<Seq<char>>::empty(),
    {
        let r = CaptureSet { urls: Vec::new() };
        assert(r.view() =~= Set::<Seq<char>>::empty());
        r
    }

    /// Records the URLs a captured request URL or text yields (its playlist
    /// URLs, or itself where it is a direct main video; never an
    /// advertisement); reports whether any of them is new.
    pub fn record_m3u8_candidate(&mut self, candidate: &str) -> (inserted: bool)
        ensures
            final(self).view() == old(self).view() + captured_urls(candidate@),
            inserted == !captured_urls(candidate@).subset_of(old(self).view()),
    {
        proof { use_type_invariant(&*self); }
        let found = candidate_urls(candidate);
        let ghost found_set = order::string_views(found@).to_set();
        let mut urls: Vec<String> = Vec::new();
        std::mem::swap(&mut urls, &mut self.urls);
        let ghost start = order::string_views(urls@).to_set();
        let mut inserted = false;
        let mut i: usize = 0;
        while i < found.len()
            invariant
                i <= found.len(),
                order::strictly_sorted(order::string_views(urls@)),
                order::string_views(urls@).to_set() == start + order::string_views(found@.take(i as int)).to_set(),
                inserted == !order::string_views(found@.take(i as int)).to_set().subset_of(start),
            decreases found.len() - i,
        {
            let ghost prev = order::string_views(urls@).to_set();
            let ghost taken = order::string_views(found@.take(i as int));
            assert(order::string_views(found@.take(i + 1)) =~= taken.push(found@[i as int]@));
            assert(taken.push(found@[i as int]@).to_set() =~= taken.to_set().insert(found@[i as int]@)) by {
                let t = taken.push(found@[i as int]@);
                assert forall|y: Seq<char>| t.contains(y) implies taken.to_set().insert(found@[i as int]@).contains(y) by {
                    let k = choose|k: int| 0 <= k < t.len() && t[k] == y;
                    if k < taken.len() {
                        assert(taken[k] == y);
                    }
                }
                assert forall|y: Seq<char>| taken.to_set().insert(found@[i as int]@).contains(y) implies t.contains(y) by {
                    if y == found@[i as int]@ {
                        assert(t[taken.len() as int] == y);
                    } else {
                        let k = choose|k: int| 0 <= k < taken.len() && taken[k] == y;
                        assert(t[k] == y);
                    }
                }
            }
            let x = found[i].clone();
            let added = order::sorted_insert(&mut urls, x);
            inserted = inserted || added;
            assert(order::string_views(urls@).to_set() =~= start + order::string_views(found@.take(i + 1)).to_set());
            proof {
                let y = found@[i as int]@;
                if added {
                    assert(!prev.contains(y));
                    assert(!start.contains(y));
                }
                if !added {
                    assert(prev.contains(y));
                    if !start.contains(y) {
                        assert(taken.to_set().contains(y));
                    }
                }
            }
            i = i + 1;
        }
        self.urls = urls;
        assert(found@.take(found.len() as int) =~= found@);
        inserted
    }

    /// Whether `url` was captured.
    pub fn contains(&self, url: &str) -> (r: bool)
        ensures
            r == self.view().contains(url@),
    {
        let key = String::from_str(url);
        let mut i: usize = 0;
        while i < self.urls.len()
            invariant
                i <= self.urls.len(),
                key@ == url@,
                forall|j: int| 0 <= j < i ==> order::string_views(self.urls@)[j] != url@,
            decreases self.urls.len() - i,
        {
            if self.urls[i] == key {
                assert(order::string_views(self.urls@)[i as int] == url@);
                return true;
            }
            i = i + 1;
        }
        false
    }

    /// The captured URLs, sorted.
    pub fn urls(&self) -> (r: Vec<String>)
        ensures
            order::strictly_sorted(order::string_views(r@)),
            order::string_views(r@).to_set() == self.view(),
    {
        proof { use_type_invariant(self); }
        let mut out: Vec<String> = Vec::new();
        let mut i: usize = 0;
        while i < self.urls.len()
            invariant
                i <= self.urls.len(),
                out@ == self.urls@.take(i as int),
            decreases self.urls.len() - i,
        {
            out.push(self.urls[i].clone());
            assert(out@ =~= self.urls@.take(i + 1));
            i = i + 1;
        }
        assert(out@ =~= self.urls@);
        out
    }
}

// ---------------------------------------------------------------------
//  Waiting for the capture
// ---------------------------------------------------------------------

/// How long the capture waits at most, from its start.
pub const CAPTURE_DEADLINE_MS: u64 = 45000;

/// How long the capture goes on after the last newly captured URL.
pub const CAPTURE_QUIET_MS: u64 = 5000;

/// When the capture, at time `now`, should next wake: `None` once the
/// deadline or the quiet period after the last capture has passed, else
/// the earlier of the two.
pub open spec fn next_wake(now: u64, deadline: u64, quiet_until: Option<u64>) -> Option<u64> {
    if now >= deadline {
        None
    } else {
        match quiet_until {
            Some(q) => if now >= q { None } else if q < deadline { Some(q) } else { Some(deadline) },
            None => Some(deadline),
        }
    }
}

pub fn next_capture_wake(now: u64, deadline: u64, quiet_until: Option<u64>) -> (r: Option<u64>)
    ensures
        r == next_wake(now, deadline, quiet_until),
{
    if now >= deadline {
        return None;
    }
    match quiet_until {
        Some(q) => if now >= q { None } else if q < deadline { Some(q) } else { Some(deadline) },
        None => Some(deadline),
    }
}

/// The end of the quiet period that a new capture at `now` starts.
pub fn quiet_period_end(now: u64) -> (r: u64)
    ensures
        r == (if now + CAPTURE_QUIET_MS <= u64::MAX { (now + CAPTURE_QUIET_MS) as u64 } else { u64::MAX }),
{
    now.saturating_add(CAPTURE_QUIET_MS)
}

// ---------------------------------------------------------------------
//  Navigation inside the hidden WebView
// ---------------------------------------------------------------------

/// What the hidden WebView does with a navigation.
#[derive(Clone, Copy, PartialEq, Eq, Debug)]
pub enum NavigationDecision {
    /// A hand-back to the capture host: record its `url` parameter and
    /// cancel the navigation.
    Capture,
    /// An ordinary web navigation: allow it.
    Allow,
    /// Anything else: cancel it.
    Block,
}

pub open spec fn navigation_of(scheme: Seq<char>, host: Option<Seq<char>>) -> NavigationDecision {
    let web = scheme == "http"@ || scheme == "https"@;
    if web && host == Some(DYNAMIC_CAPTURE_HOST@) {
        NavigationDecision::Capture
    } else if web {
        NavigationDecision::Allow
    } else {
        NavigationDecision::Block
    }
}

pub fn navigation_decision(scheme: &str, host: Option<&str>) -> (r: NavigationDecision)
    ensures
        r == navigation_of(scheme@, text::opt_str_view(host)),
{
    let s = String::from_str(scheme);
    let web = s == String::from_str("http") || s == String::from_str("https");
    let capture = match host {
        Some(h) => String::from_str(h) == String::from_str(DYNAMIC_CAPTURE_HOST),
        None => false,
    };
    if web && capture {
        NavigationDecision::Capture
    } else if web {
        NavigationDecision::Allow
    } else {
        NavigationDecision::Block
    }
}

// ---------------------------------------------------------------------
//  The extraction outcome
// ---------------------------------------------------------------------

/// Why no playlist was found.
#[derive(Clone, Copy, PartialEq, Eq, Debug)]
pub enum ExtractionError {
    /// Neither the page source nor the hidden WebView gave a playlist URL;
    /// one has to be given by hand.
    NoneFound,
}

/// The static extraction settles the matter when it found something.
pub fn static_extraction(options: Vec<M3u8Option>) -> (r: Option<ExtractionResult>)
    ensures
        match r {
            Some(x) => options@.len() > 0 && x.strategy == ExtractionStrategy::Static && x.options@ == options@,
            None => options@.len() == 0,
        },
{
    if options.len() > 0 {
        Some(ExtractionResult { strategy: ExtractionStrategy::Static, options })
    } else {
        None
    }
}

/// After the dynamic extraction: its options, or an error where it found none.
pub fn dynamic_extraction(options: Vec<M3u8Option>) -> (r: Result<ExtractionResult, ExtractionError>)
    ensures
        match r {
            Ok(x) => options@.len() > 0 && x.strategy == ExtractionStrategy::Dynamic && x.options@ == options@,
            Err(e) => options@.len() == 0 && e == ExtractionError::NoneFound,
        },
{
    if options.len() > 0 {
        Ok(ExtractionResult { strategy: ExtractionStrategy::Dynamic, options })
    } else {
        Err(ExtractionError::NoneFound)
    }
}

} // verus!
