//! Finding media playlist URLs in page source: `http://` or `https://`,
//! the shortest run of URL characters that reaches `.m3u8`, and an
//! optional `?query` of URL characters; matches are taken leftmost first
//! and without overlap, then stripped of trailing `.`, `,` and `;` and of
//! HTML-escaped ampersands.

use vstd::prelude::*;
use crate::order;
use crate::text;
use crate::text::{class_end_exec, str_to_chars, Class};

verus! {

/// Where the authority part begins after a scheme at `i`.
pub open spec fn scheme_end(s: Seq<char>, i: int) -> Option<int> {
    if text::occurs_at(s, i, "https://"@) {
        Some(i + "https://"@.len())
    } else if text::occurs_at(s, i, "http://"@) {
        Some(i + "http://"@.len())
    } else {
        None
    }
}

/// The first `.m3u8` at or after `j` that is reached from `bs` through URL
/// characters only, with at least one of them.
pub open spec fn m3u8_from(s: Seq<char>, bs: int, j: int) -> Option<int>
    decreases s.len() + 1 - j,
{
    if bs < 0 || j < bs + 1 || j > s.len() || !text::in_class(Class::UrlChar, s[j - 1]) {
        None
    } else if text::occurs_at(s, j, ".m3u8"@) {
        Some(j)
    } else {
        m3u8_from(s, bs, j + 1)
    }
}

/// The end of a playlist URL that starts at `i`.
pub open spec fn url_match_end(s: Seq<char>, i: int) -> Option<int> {
    match scheme_end(s, i) {
        None => None,
        Some(bs) => match m3u8_from(s, bs, bs + 1) {
            None => None,
            Some(p) => {
                let q = p + ".m3u8"@.len();
                if q < s.len() && s[q] == '?' {
                    Some(text::class_end(s, q + 1, Class::UrlChar))
                } else {
                    Some(q)
                }
            },
        },
    }
}

/// The leftmost playlist URL at or after `from`.
pub open spec fn first_url_match(s: Seq<char>, from: int) -> Option<(int, int)>
    decreases s.len() + 1 - from,
{
    if from < 0 || from > s.len() {
        None
    } else {
        match url_match_end(s, from) {
            Some(e) => Some((from, e)),
            None => first_url_match(s, from + 1),
        }
    }
}

/// The playlist URLs from `from` on, in order, without overlap.
pub open spec fn url_matches(s: Seq<char>, from: int) -> Seq<Seq<char>>
    decreases s.len() + 1 - from,
{
    match first_url_match(s, from) {
        None => seq![],
        Some((a, e)) => if from < e <= s.len() && 0 <= a <= e {
            seq![s.subrange(a, e)] + url_matches(s, e)
        } else {
            seq![]
        },
    }
}

/// A found URL as it is reported: trailing `.`, `,`, `;` removed, then
/// every `&amp;` turned into `&`.
pub open spec fn normalize_url(m: Seq<char>) -> Seq<char> {
    text::replace_all(text::trim_trailing_punct(m), "&amp;"@, "&"@)
}

pub open spec fn page_urls_from(s: Seq<char>, from: int) -> Seq<Seq<char>> {
    url_matches(s, from).map_values(|m: Seq<char>| normalize_url(m))
}

/// All playlist URLs a page's source holds, as reported.
pub open spec fn page_urls(s: Seq<char>) -> Seq<Seq<char>> {
    page_urls_from(s, 0)
}

fn scheme_end_exec(v: &Vec<char>, i: usize, https: &Vec<char>, http: &Vec<char>) -> (r: Option<usize>)
    requires
        https@ == "https://"@,
        http@ == "http://"@,
    ensures
        match scheme_end(v@, i as int) {
            Some(bs) => r matches Some(x) && x as int == bs && x <= v.len(),
            None => r is None,
        },
{
    if text::occurs_at_exec(v, i, https) {
        Some(i + https.len())
    } else if text::occurs_at_exec(v, i, http) {
        Some(i + http.len())
    } else {
        None
    }
}

fn m3u8_from_exec(v: &Vec<char>, bs: usize, ext: &Vec<char>) -> (r: Option<usize>)
    requires
        ext@ == ".m3u8"@,
        bs <= v.len(),
    ensures
        match m3u8_from(v@, bs as int, bs + 1) {
            Some(p) => r matches Some(x) && x as int == p && x + ext.len() <= v.len(),
            None => r is None,
        },
{
    if bs >= v.len() {
        return None;
    }
    let mut j = bs + 1;
    loop
        invariant
            bs < j <= v.len(),
            ext@ == ".m3u8"@,
            m3u8_from(v@, bs as int, bs + 1) == m3u8_from(v@, bs as int, j as int),
        decreases v.len() - j,
    {
        if !text::in_class_exec(Class::UrlChar, v[j - 1]) {
            return None;
        }
        if text::occurs_at_exec(v, j, ext) {
            return Some(j);
        }
        if j >= v.len() {
            assert(m3u8_from(v@, bs as int, j + 1) is None);
            return None;
        }
        j = j + 1;
    }
}

fn url_match_end_exec(v: &Vec<char>, i: usize, https: &Vec<char>, http: &Vec<char>, ext: &Vec<char>) -> (r: Option<usize>)
    requires
        https@ == "https://"@,
        http@ == "http://"@,
        ext@ == ".m3u8"@,
    ensures
        match url_match_end(v@, i as int) {
            Some(e) => r matches Some(x) && x as int == e && x <= v.len(),
            None => r is None,
        },
{
    let bs = match scheme_end_exec(v, i, https, http) {
        Some(bs) => bs,
        None => return None,
    };
    let p = match m3u8_from_exec(v, bs, ext) {
        Some(p) => p,
        None => return None,
    };
    let q = p + ext.len();
    if q < v.len() && v[q] == '?' {
        Some(class_end_exec(v, q + 1, Class::UrlChar))
    } else {
        Some(q)
    }
}

proof fn lemma_url_match_end_bounds(s: Seq<char>, i: int)
    requires
        0 <= i,
        url_match_end(s, i) is Some,
    ensures
        i < url_match_end(s, i)->0 <= s.len(),
{
    let bs = scheme_end(s, i)->0;
    let p = m3u8_from(s, bs, bs + 1)->0;
    lemma_m3u8_from(s, bs, bs + 1);
    let q = p + ".m3u8"@.len();
    if q < s.len() && s[q] == '?' {
        text::lemma_class_end(s, q + 1, Class::UrlChar);
    }
}

proof fn lemma_m3u8_from(s: Seq<char>, bs: int, j: int)
    requires
        m3u8_from(s, bs, j) is Some,
    ensures
        j <= m3u8_from(s, bs, j)->0,
        bs < m3u8_from(s, bs, j)->0,
        m3u8_from(s, bs, j)->0 + ".m3u8"@.len() <= s.len(),
    decreases s.len() + 1 - j,
{
    if !text::occurs_at(s, j, ".m3u8"@) {
        lemma_m3u8_from(s, bs, j + 1);
    }
}

proof fn lemma_first_url_match(s: Seq<char>, from: int)
    requires
        0 <= from,
    ensures
        match first_url_match(s, from) {
            Some((a, e)) => from <= a < e <= s.len(),
            None => true,
        },
    decreases s.len() + 1 - from,
{
    if from <= s.len() {
        if url_match_end(s, from) is Some {
            lemma_url_match_end_bounds(s, from);
        } else {
            lemma_first_url_match(s, from + 1);
        }
    }
}

/// The leftmost playlist URL at or after `from`.
fn first_url_match_exec(v: &Vec<char>, from: usize, https: &Vec<char>, http: &Vec<char>, ext: &Vec<char>)
    -> (r: Option<(usize, usize)>)
    requires
        https@ == "https://"@,
        http@ == "http://"@,
        ext@ == ".m3u8"@,
        from <= v.len(),
    ensures
        match first_url_match(v@, from as int) {
            Some((a, e)) => r matches Some((x, y)) && x as int == a && y as int == e && from <= x < y <= v.len(),
            None => r is None,
        },
{
    proof { lemma_first_url_match(v@, from as int); }
    let mut i = from;
    loop
        invariant
            from <= i <= v.len(),
            https@ == "https://"@,
            http@ == "http://"@,
            ext@ == ".m3u8"@,
            first_url_match(v@, from as int) == first_url_match(v@, i as int),
        decreases v.len() - i,
    {
        match url_match_end_exec(v, i, https, http, ext) {
            Some(e) => {
                proof { lemma_url_match_end_bounds(v@, i as int); }
                return Some((i, e));
            },
            None => {},
        }
        if i >= v.len() {
            assert(first_url_match(v@, i + 1) is None);
            return None;
        }
        i = i + 1;
    }
}

/// A found URL as it is reported.
pub fn normalize_url_exec(m: &Vec<char>) -> (r: Vec<char>)
    ensures
        r@ == normalize_url(m@),
{
    let trimmed = text::trim_trailing_punct_exec(m);
    let amp = str_to_chars("&amp;");
    let plain = str_to_chars("&");
    proof { reveal_strlit("&amp;"); }
    text::replace_all_exec(&trimmed, &amp, &plain)
}

/// The distinct playlist URLs in a page's source, sorted.
pub fn scan_page_urls(html: &str) -> (r: Vec<String>)
    ensures
        order::strictly_sorted(order::string_views(r@)),
        order::string_views(r@).to_set() == page_urls(html@).to_set(),
{
    let v = str_to_chars(html);
    let https = str_to_chars("https://");
    let http = str_to_chars("http://");
    let ext = str_to_chars(".m3u8");
    let mut out: Vec<String> = Vec::new();
    let mut pos: usize = 0;
    assert(order::string_views(out@).to_set() + page_urls_from(v@, 0).to_set() =~= page_urls(html@).to_set());
    loop
        invariant
            pos <= v.len(),
            v@ == html@,
            https@ == "https://"@,
            http@ == "http://"@,
            ext@ == ".m3u8"@,
            order::strictly_sorted(order::string_views(out@)),
            order::string_views(out@).to_set() + page_urls_from(v@, pos as int).to_set() == page_urls(html@).to_set(),
        decreases v.len() - pos,
    {
        match first_url_match_exec(&v, pos, &https, &http, &ext) {
            None => {
                assert(page_urls_from(v@, pos as int) =~= Seq::<Seq<char>>::empty());
                assert(order::string_views(out@).to_set() + Seq::<Seq<char>>::empty().to_set() =~= order::string_views(out@).to_set());
                return out;
            },
            Some((a, e)) => {
                let m = text::copy_range(&v, a, e);
                let n = normalize_url_exec(&m);
                let ghost before = order::string_views(out@).to_set();
                let ghost rest_before = page_urls_from(v@, pos as int);
                let ghost rest_after = page_urls_from(v@, e as int);
                proof {
                    assert(url_matches(v@, pos as int) =~= seq![m@] + url_matches(v@, e as int));
                    assert(rest_before =~= seq![n@] + rest_after);
                    assert(rest_before.to_set() =~= rest_after.to_set().insert(n@)) by {
                        assert forall|y: Seq<char>| rest_before.contains(y) implies rest_after.to_set().insert(n@).contains(y) by {
                            let k = choose|k: int| 0 <= k < rest_before.len() && rest_before[k] == y;
                            if k > 0 {
                                assert(rest_after[k - 1] == y);
                            }
                        }
                        assert forall|y: Seq<char>| rest_after.to_set().insert(n@).contains(y) implies rest_before.contains(y) by {
                            if y == n@ {
                                assert(rest_before[0] == y);
                            } else {
                                let k = choose|k: int| 0 <= k < rest_after.len() && rest_after[k] == y;
                                assert(rest_before[k + 1] == y);
                            }
                        }
                    }
                }
                let s = text::chars_to_string(&n);
                order::sorted_insert(&mut out, s);
                assert(order::string_views(out@).to_set() + rest_after.to_set() =~= page_urls(html@).to_set());
                pos = e;
            },
        }
    }
}

} // verus!
