//! The grammar of a yt-dlp progress line:
//!
//! `[download]` spaces percentage `%` … `at` spaces speed spaces `ETA`
//! spaces eta, optionally followed by spaces, an optional `(`, `frag`,
//! spaces and `current/total`.
//!
//! Positions found here are indices into the line's characters. The
//! percentage is digits with an optional `.digits` part; speed and eta are
//! runs of non-space characters; the text between `%` and `at` is the
//! shortest that lets the rest match and holds no newline; the line is
//! searched for the leftmost `[download]` from which all of this matches.

use vstd::prelude::*;
use crate::text;
use crate::text::{class_end_exec, str_to_chars, Class};

verus! {

pub open spec fn pos2(r: Option<(usize, usize)>) -> Option<(int, int)> {
    match r {
        Some((a, b)) => Some((a as int, b as int)),
        None => None,
    }
}

pub open spec fn pos4(r: Option<(usize, usize, usize, usize)>) -> Option<(int, int, int, int)> {
    match r {
        Some((a, b, c, d)) => Some((a as int, b as int, c as int, d as int)),
        None => None,
    }
}

/// Speed span, eta span and fragment spans of a tail match.
pub type TailSpan = (int, int, int, int, Option<(int, int, int, int)>);

pub type TailPos = (usize, usize, usize, usize, Option<(usize, usize, usize, usize)>);

/// Every span of a tail lies within a line of length `n`.
pub open spec fn tail_in_bounds(t: TailPos, n: int) -> bool {
    &&& t.0 <= t.1 <= n
    &&& t.2 <= t.3 <= n
    &&& match t.4 {
        Some((a, b, c, d)) => a <= b <= n && c <= d <= n,
        None => true,
    }
}

pub open spec fn tail_view(r: Option<TailPos>) -> Option<TailSpan> {
    match r {
        Some((a, b, c, d, f)) => Some((a as int, b as int, c as int, d as int, pos4(f))),
        None => None,
    }
}

/// The percentage after a `[download]` at `i`: the span of its text, whose
/// end holds the `%`.
pub open spec fn pct_span(s: Seq<char>, i: int) -> Option<(int, int)> {
    if !text::occurs_at(s, i, "[download]"@) {
        None
    } else {
        let a = i + "[download]"@.len();
        let b = text::class_end(s, a, Class::Space);
        let c = text::class_end(s, b, Class::Decimal);
        if b == a || c == b {
            None
        } else {
            let d = if c + 1 < s.len() && s[c] == '.' && text::is_decimal(s[c + 1]) {
                text::class_end(s, c + 1, Class::Decimal)
            } else {
                c
            };
            if d < s.len() && s[d] == '%' {
                Some((b, d))
            } else {
                None
            }
        }
    }
}

/// The `frag current/total` group at `r`: spans of both numbers.
pub open spec fn frag_span(s: Seq<char>, r: int) -> Option<(int, int, int, int)> {
    let g1 = text::class_end(s, r, Class::Space);
    if g1 == r {
        None
    } else {
        let g2 = if g1 < s.len() && s[g1] == '(' { g1 + 1 } else { g1 };
        if !text::occurs_at(s, g2, "frag"@) {
            None
        } else {
            let g3 = g2 + "frag"@.len();
            let g4 = text::class_end(s, g3, Class::Space);
            let g5 = text::class_end(s, g4, Class::Decimal);
            if g4 == g3 || g5 == g4 || !(g5 < s.len() && s[g5] == '/') {
                None
            } else {
                let g6 = text::class_end(s, g5 + 1, Class::Decimal);
                if g6 == g5 + 1 {
                    None
                } else {
                    Some((g4, g5, g5 + 1, g6))
                }
            }
        }
    }
}

/// `at` speed `ETA` eta, and the optional fragment group, from `p`.
pub open spec fn tail_span(s: Seq<char>, p: int) -> Option<TailSpan> {
    if !text::occurs_at(s, p, "at"@) {
        None
    } else {
        let q = p + "at"@.len();
        let r1 = text::class_end(s, q, Class::Space);
        let r2 = text::class_end(s, r1, Class::NonSpace);
        let r3 = text::class_end(s, r2, Class::Space);
        if r1 == q || r2 == r1 || r3 == r2 || !text::occurs_at(s, r3, "ETA"@) {
            None
        } else {
            let r4 = r3 + "ETA"@.len();
            let r5 = text::class_end(s, r4, Class::Space);
            let r6 = text::class_end(s, r5, Class::NonSpace);
            if r5 == r4 || r6 == r5 {
                None
            } else {
                Some((r1, r2, r5, r6, frag_span(s, r6)))
            }
        }
    }
}

/// The first tail at or after `p` reached without crossing a newline.
pub open spec fn lazy_tail(s: Seq<char>, p: int) -> Option<TailSpan>
    decreases s.len() + 1 - p,
{
    if p < 0 || p > s.len() {
        None
    } else {
        match tail_span(s, p) {
            Some(t) => Some(t),
            None => if p < s.len() && s[p] != '\n' {
                lazy_tail(s, p + 1)
            } else {
                None
            },
        }
    }
}

/// A full progress match starting at `i`: percentage span and tail.
pub open spec fn progress_at(s: Seq<char>, i: int) -> Option<((int, int), TailSpan)> {
    match pct_span(s, i) {
        Some((b, d)) => match lazy_tail(s, d + 1) {
            Some(t) => Some(((b, d), t)),
            None => None,
        },
        None => None,
    }
}

/// The leftmost progress match at or after `i`.
pub open spec fn first_progress(s: Seq<char>, i: int) -> Option<((int, int), TailSpan)>
    decreases s.len() + 1 - i,
{
    if i < 0 || i > s.len() {
        None
    } else {
        match progress_at(s, i) {
            Some(m) => Some(m),
            None => first_progress(s, i + 1),
        }
    }
}

// ---------------------------------------------------------------------
//  Matching
// ---------------------------------------------------------------------

fn pct_span_exec(v: &Vec<char>, i: usize, lit: &Vec<char>) -> (r: Option<(usize, usize)>)
    requires
        lit@ == "[download]"@,
    ensures
        pos2(r) == pct_span(v@, i as int),
        match r {
            Some((b, d)) => b <= d < v.len(),
            None => true,
        },
{
    if !text::occurs_at_exec(v, i, lit) {
        return None;
    }
    let a = i + lit.len();
    let b = class_end_exec(v, a, Class::Space);
    let c = class_end_exec(v, b, Class::Decimal);
    if b == a || c == b {
        return None;
    }
    let d = if c < v.len() && c + 1 < v.len() && v[c] == '.' && text::decimal_char(v[c + 1]) {
        class_end_exec(v, c + 1, Class::Decimal)
    } else {
        c
    };
    if d < v.len() && v[d] == '%' {
        Some((b, d))
    } else {
        None
    }
}

fn frag_span_exec(v: &Vec<char>, r: usize) -> (res: Option<(usize, usize, usize, usize)>)
    requires
        r <= v.len(),
    ensures
        pos4(res) == frag_span(v@, r as int),
        match res {
            Some((a, b, c, d)) => a <= b <= v.len() && c <= d <= v.len(),
            None => true,
        },
{
    let g1 = class_end_exec(v, r, Class::Space);
    if g1 == r {
        return None;
    }
    let g2 = if g1 < v.len() && v[g1] == '(' { g1 + 1 } else { g1 };
    let frag = str_to_chars("frag");
    if !text::occurs_at_exec(v, g2, &frag) {
        return None;
    }
    let g3 = g2 + frag.len();
    let g4 = class_end_exec(v, g3, Class::Space);
    let g5 = class_end_exec(v, g4, Class::Decimal);
    if g4 == g3 || g5 == g4 || !(g5 < v.len() && v[g5] == '/') {
        return None;
    }
    let g6 = class_end_exec(v, g5 + 1, Class::Decimal);
    if g6 == g5 + 1 {
        None
    } else {
        Some((g4, g5, g5 + 1, g6))
    }
}

fn tail_span_exec(v: &Vec<char>, p: usize, at: &Vec<char>, eta: &Vec<char>) -> (r: Option<TailPos>)
    requires
        at@ == "at"@,
        eta@ == "ETA"@,
    ensures
        tail_view(r) == tail_span(v@, p as int),
        match r {
            Some(t) => tail_in_bounds(t, v.len() as int),
            None => true,
        },
{
    if !text::occurs_at_exec(v, p, at) {
        return None;
    }
    let q = p + at.len();
    let r1 = class_end_exec(v, q, Class::Space);
    let r2 = class_end_exec(v, r1, Class::NonSpace);
    let r3 = class_end_exec(v, r2, Class::Space);
    if r1 == q || r2 == r1 || r3 == r2 || !text::occurs_at_exec(v, r3, eta) {
        return None;
    }
    let r4 = r3 + eta.len();
    let r5 = class_end_exec(v, r4, Class::Space);
    let r6 = class_end_exec(v, r5, Class::NonSpace);
    if r5 == r4 || r6 == r5 {
        return None;
    }
    let f = frag_span_exec(v, r6);
    Some((r1, r2, r5, r6, f))
}

/// The shortest text between `%` and the tail.
fn lazy_tail_exec(v: &Vec<char>, from: usize, at: &Vec<char>, eta: &Vec<char>) -> (r: Option<TailPos>)
    requires
        from <= v.len(),
        at@ == "at"@,
        eta@ == "ETA"@,
    ensures
        tail_view(r) == lazy_tail(v@, from as int),
        match r {
            Some(t) => tail_in_bounds(t, v.len() as int),
            None => true,
        },
{
    let mut p = from;
    loop
        invariant
            from <= p <= v.len(),
            at@ == "at"@,
            eta@ == "ETA"@,
            lazy_tail(v@, from as int) == lazy_tail(v@, p as int),
        decreases v.len() - p,
    {
        match tail_span_exec(v, p, at, eta) {
            Some(t) => return Some(t),
            None => {
                if p < v.len() && v[p] != '\n' {
                    p = p + 1;
                } else {
                    return None;
                }
            },
        }
    }
}

/// The leftmost progress match in the line.
pub fn find_progress(v: &Vec<char>) -> (r: Option<((usize, usize), TailPos)>)
    ensures
        match (r, first_progress(v@, 0)) {
            (Some((pct, t)), Some((spct, st))) => pos2(Some(pct)) == Some(spct) && tail_view(Some(t)) == Some(st)
                && pct.0 <= pct.1 <= v.len() && tail_in_bounds(t, v.len() as int),
            (None, None) => true,
            _ => false,
        },
{
    let lit = str_to_chars("[download]");
    let at = str_to_chars("at");
    let eta = str_to_chars("ETA");
    let mut i: usize = 0;
    loop
        invariant
            i <= v.len(),
            lit@ == "[download]"@,
            at@ == "at"@,
            eta@ == "ETA"@,
            first_progress(v@, 0) == first_progress(v@, i as int),
        decreases v.len() - i,
    {
        match pct_span_exec(v, i, &lit) {
            Some((b, d)) => {
                let found = lazy_tail_exec(v, d + 1, &at, &eta);
                match found {
                    Some(t) => {
                        assert(first_progress(v@, i as int) == Some(((b as int, d as int), tail_view(Some(t))->0)));
                        return Some(((b, d), t));
                    },
                    None => {},
                }
            },
            None => {},
        }
        if i >= v.len() {
            assert(first_progress(v@, i + 1) is None);
            return None;
        }
        i = i + 1;
    }
}

} // verus!
