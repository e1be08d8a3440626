//! The grammar of signed-URL parameters that the CDN adapters rewrite: a
//! literal name such as `bcdn_token=` followed by a non-empty run of
//! characters of one class, matched leftmost and greedily, and replaced the
//! way a `$`-expanding replacement template is applied to the first match.

use vstd::prelude::*;
use crate::text;

verus! {

/// The characters a parameter value may hold.
#[derive(Clone, Copy, PartialEq, Eq, Debug)]
pub enum RunClass {
    /// Anything but `&` (`[^&]`).
    NotAmpersand,
    /// Unicode decimal digits (`\d`).
    Decimal,
}

pub open spec fn in_run_class(k: RunClass, c: char) -> bool {
    match k {
        RunClass::NotAmpersand => c != '&',
        RunClass::Decimal => text::is_decimal(c),
    }
}

fn in_run_class_exec(k: RunClass, c: char) -> (r: bool)
    ensures
        r == in_run_class(k, c),
{
    match k {
        RunClass::NotAmpersand => c != '&',
        RunClass::Decimal => text::decimal_char(c),
    }
}

/// End of the run of `k`-characters that starts at `from`.
pub open spec fn run_end(s: Seq<char>, from: int, k: RunClass) -> int
    decreases s.len() - from,
{
    if from < 0 || from >= s.len() || !in_run_class(k, s[from]) {
        from
    } else {
        run_end(s, from + 1, k)
    }
}

/// A parameter `lit` with a non-empty value starts at `i`.
pub open spec fn param_at(s: Seq<char>, i: int, lit: Seq<char>, k: RunClass) -> bool {
    text::occurs_at(s, i, lit) && i + lit.len() < s.len() && in_run_class(k, s[i + lit.len()])
}

/// The leftmost parameter at or after `from`.
pub open spec fn first_param_from(s: Seq<char>, lit: Seq<char>, k: RunClass, from: int) -> Option<int>
    decreases s.len() + 1 - from,
{
    if from < 0 || from > s.len() {
        None
    } else if param_at(s, from, lit, k) {
        Some(from)
    } else {
        first_param_from(s, lit, k, from + 1)
    }
}

/// The text of the leftmost parameter (name and value), if any.
pub open spec fn param_text(s: Seq<char>, lit: Seq<char>, k: RunClass) -> Option<Seq<char>> {
    match first_param_from(s, lit, k, 0) {
        Some(i) => Some(s.subrange(i, run_end(s, i + lit.len(), k))),
        None => None,
    }
}

pub proof fn lemma_run_end(s: Seq<char>, from: int, k: RunClass)
    requires
        0 <= from <= s.len(),
    ensures
        from <= run_end(s, from, k) <= s.len(),
        forall|j: int| from <= j < run_end(s, from, k) ==> in_run_class(k, #[trigger] s[j]),
        run_end(s, from, k) < s.len() ==> !in_run_class(k, s[run_end(s, from, k)]),
    decreases s.len() - from,
{
    if from < s.len() && in_run_class(k, s[from]) {
        lemma_run_end(s, from + 1, k);
    }
}

pub proof fn lemma_first_param_from(s: Seq<char>, lit: Seq<char>, k: RunClass, from: int)
    requires
        0 <= from,
    ensures
        match first_param_from(s, lit, k, from) {
            Some(i) => from <= i && param_at(s, i, lit, k) && forall|j: int| from <= j < i ==> !param_at(s, j, lit, k),
            None => forall|j: int| from <= j ==> !param_at(s, j, lit, k),
        },
    decreases s.len() + 1 - from,
{
    if from <= s.len() && !param_at(s, from, lit, k) {
        lemma_first_param_from(s, lit, k, from + 1);
    }
}

pub fn run_end_exec(v: &Vec<char>, from: usize, k: RunClass) -> (r: usize)
    requires
        from <= v.len(),
    ensures
        r as int == run_end(v@, from as int, k),
{
    let mut i = from;
    while i < v.len() && in_run_class_exec(k, v[i])
        invariant
            from <= i <= v.len(),
            run_end(v@, from as int, k) == run_end(v@, i as int, k),
        decreases v.len() - i,
    {
        i = i + 1;
    }
    i
}

/// Finds the leftmost parameter `lit` with a non-empty value; returns the
/// span of name and value.
pub fn find_param(v: &Vec<char>, lit: &Vec<char>, k: RunClass) -> (r: Option<(usize, usize)>)
    ensures
        match first_param_from(v@, lit@, k, 0) {
            Some(i) => r matches Some((a, b)) && a as int == i && b as int == run_end(v@, i + lit@.len(), k),
            None => r is None,
        },
        match r {
            Some((a, b)) => a + lit@.len() < b <= v.len() && b as int == run_end(v@, a + lit@.len(), k),
            None => true,
        },
{
    let mut i: usize = 0;
    loop
        invariant
            i <= v.len(),
            first_param_from(v@, lit@, k, 0) == first_param_from(v@, lit@, k, i as int),
        decreases v.len() - i,
    {
        if text::occurs_at_exec(v, i, lit) && i + lit.len() < v.len() && in_run_class_exec(k, v[i + lit.len()]) {
            let e = run_end_exec(v, i + lit.len(), k);
            proof {
                lemma_run_end(v@, i + lit@.len(), k);
                lemma_first_param_from(v@, lit@, k, 0);
            }
            return Some((i, e));
        }
        if i >= v.len() {
            assert(first_param_from(v@, lit@, k, i + 1) is None);
            return None;
        }
        i = i + 1;
    }
}

// ---------------------------------------------------------------------
//  Replacement templates
// ---------------------------------------------------------------------

pub open spec fn is_cap_letter(c: char) -> bool {
    ('0' <= c && c <= '9') || ('a' <= c && c <= 'z') || ('A' <= c && c <= 'Z') || c == '_'
}

pub open spec fn cap_letters_end(s: Seq<char>, i: int) -> int
    decreases s.len() - i,
{
    if i < 0 || i >= s.len() || !is_cap_letter(s[i]) {
        i
    } else {
        cap_letters_end(s, i + 1)
    }
}

/// First `c` at or after `from`.
pub open spec fn char_index_from(s: Seq<char>, c: char, from: int) -> Option<int>
    decreases s.len() - from,
{
    if from < 0 || from >= s.len() {
        None
    } else if s[from] == c {
        Some(from)
    } else {
        char_index_from(s, c, from + 1)
    }
}

/// The group reference that starts at the `$` at `i`: where its name
/// starts and ends, and where the reference ends. `${name}` takes any text
/// up to the first `}`; `$name` takes the longest run of `[0-9A-Za-z_]`.
pub open spec fn group_ref_at(rep: Seq<char>, i: int) -> Option<(int, int, int)> {
    if i + 1 >= rep.len() {
        None
    } else if rep[i + 1] == '{' {
        match char_index_from(rep, '}', i + 2) {
            Some(j) => Some((i + 2, j, j + 1)),
            None => None,
        }
    } else {
        let e = cap_letters_end(rep, i + 1);
        if e == i + 1 {
            None
        } else {
            Some((i + 1, e, e))
        }
    }
}

/// A reference names the whole match (group 0) when its name reads as the
/// number 0; the patterns here have no other groups, so every other
/// reference expands to nothing.
pub open spec fn names_whole_match(name: Seq<char>) -> bool {
    text::parse_unsigned(name, 0) is Some
}

/// The expansion of `rep[i..]` for a match whose text is `whole`: `$$` is a
/// literal `$`, a group reference becomes the text of its group, and a `$`
/// that starts no reference stays as it is.
pub open spec fn expand_from(rep: Seq<char>, i: int, whole: Seq<char>) -> Seq<char>
    decreases rep.len() - i,
{
    if i < 0 || i >= rep.len() {
        seq![]
    } else if rep[i] != '$' {
        seq![rep[i]] + expand_from(rep, i + 1, whole)
    } else if i + 1 < rep.len() && rep[i + 1] == '$' {
        seq!['$'] + expand_from(rep, i + 2, whole)
    } else {
        match group_ref_at(rep, i) {
            None => seq!['$'] + expand_from(rep, i + 1, whole),
            Some((ns, ne, end)) => if i < end <= rep.len() {
                (if names_whole_match(rep.subrange(ns, ne)) { whole } else { seq![] })
                    + expand_from(rep, end, whole)
            } else {
                seq![]
            },
        }
    }
}

pub open spec fn expand_replacement(rep: Seq<char>, whole: Seq<char>) -> Seq<char> {
    expand_from(rep, 0, whole)
}

/// `hay` with its leftmost parameter `lit` replaced by the template `rep`;
/// `hay` itself where it holds no such parameter.
pub open spec fn replace_first_param(hay: Seq<char>, lit: Seq<char>, k: RunClass, rep: Seq<char>) -> Seq<char> {
    match first_param_from(hay, lit, k, 0) {
        Some(i) => {
            let e = run_end(hay, i + lit.len(), k);
            hay.take(i) + expand_replacement(rep, hay.subrange(i, e)) + hay.skip(e)
        },
        None => hay,
    }
}

proof fn lemma_cap_letters_end(s: Seq<char>, i: int)
    requires
        0 <= i <= s.len(),
    ensures
        i <= cap_letters_end(s, i) <= s.len(),
    decreases s.len() - i,
{
    if i < s.len() && is_cap_letter(s[i]) {
        lemma_cap_letters_end(s, i + 1);
    }
}

proof fn lemma_char_index_from(s: Seq<char>, c: char, from: int)
    requires
        0 <= from,
    ensures
        match char_index_from(s, c, from) {
            Some(j) => from <= j < s.len() && s[j] == c,
            None => true,
        },
    decreases s.len() - from,
{
    if from < s.len() && s[from] != c {
        lemma_char_index_from(s, c, from + 1);
    }
}

fn cap_letters_end_exec(v: &Vec<char>, from: usize) -> (r: usize)
    requires
        from <= v.len(),
    ensures
        r as int == cap_letters_end(v@, from as int),
{
    let mut i = from;
    while i < v.len()
        invariant
            from <= i <= v.len(),
            cap_letters_end(v@, from as int) == cap_letters_end(v@, i as int),
        decreases v.len() - i,
    {
        let c = v[i];
        if !(('0' <= c && c <= '9') || ('a' <= c && c <= 'z') || ('A' <= c && c <= 'Z') || c == '_') {
            return i;
        }
        i = i + 1;
    }
    i
}

fn char_index_from_exec(v: &Vec<char>, c: char, from: usize) -> (r: Option<usize>)
    ensures
        match char_index_from(v@, c, from as int) {
            Some(j) => r == Some(j as usize),
            None => r is None,
        },
{
    let mut i = from;
    while i < v.len()
        invariant
            from <= i,
            char_index_from(v@, c, from as int) == char_index_from(v@, c, i as int),
        decreases v.len() - i,
    {
        if v[i] == c {
            return Some(i);
        }
        i = i + 1;
    }
    None
}

/// Expands the replacement template `rep` for a match whose text is `whole`.
pub fn expand_replacement_exec(rep: &Vec<char>, whole: &Vec<char>) -> (r: Vec<char>)
    ensures
        r@ == expand_replacement(rep@, whole@),
{
    let mut out: Vec<char> = Vec::new();
    let mut i: usize = 0;
    while i < rep.len()
        invariant
            i <= rep.len(),
            out@ + expand_from(rep@, i as int, whole@) == expand_replacement(rep@, whole@),
        decreases rep.len() - i,
    {
        let ghost before = out@;
        if rep[i] != '$' {
            out.push(rep[i]);
            assert(out@ + expand_from(rep@, i + 1, whole@) =~= before + expand_from(rep@, i as int, whole@));
            i = i + 1;
        } else if i + 1 < rep.len() && rep[i + 1] == '$' {
            out.push('$');
            assert(out@ + expand_from(rep@, i + 2, whole@) =~= before + expand_from(rep@, i as int, whole@));
            i = i + 2;
        } else {
            // Locate the group reference, as `group_ref_at` describes it.
            let mut found: Option<(usize, usize, usize)> = None;
            if i + 1 < rep.len() {
                if rep[i + 1] == '{' {
                    proof { lemma_char_index_from(rep@, '}', i + 2); }
                    match char_index_from_exec(rep, '}', i + 2) {
                        Some(j) => { found = Some((i + 2, j, j + 1)); },
                        None => {},
                    }
                } else {
                    proof { lemma_cap_letters_end(rep@, i + 1); }
                    let e = cap_letters_end_exec(rep, i + 1);
                    if e != i + 1 {
                        found = Some((i + 1, e, e));
                    }
                }
            }
            assert(match group_ref_at(rep@, i as int) {
                Some((a, b, c)) => found == Some((a as usize, b as usize, c as usize)),
                None => found is None,
            });
            match found {
                None => {
                    out.push('$');
                    assert(out@ + expand_from(rep@, i + 1, whole@) =~= before + expand_from(rep@, i as int, whole@));
                    i = i + 1;
                },
                Some((ns, ne, end)) => {
                    if text::parse_unsigned_range(rep, ns, ne, 0).is_some() {
                        text::append_chars(&mut out, whole);
                    }
                    assert(out@ + expand_from(rep@, end as int, whole@) =~= before + expand_from(rep@, i as int, whole@));
                    i = end;
                },
            }
        }
    }
    assert(out@ =~= expand_replacement(rep@, whole@));
    out
}

/// Replaces the leftmost parameter `lit` of `hay` by the template `rep`.
pub fn replace_first_param_exec(hay: &Vec<char>, lit: &Vec<char>, k: RunClass, rep: &Vec<char>) -> (r: Vec<char>)
    ensures
        r@ == replace_first_param(hay@, lit@, k, rep@),
{
    match find_param(hay, lit, k) {
        None => text::copy_range(hay, 0, hay.len()),
        Some((i, e)) => {
            proof {
                lemma_first_param_from(hay@, lit@, k, 0);
                lemma_run_end(hay@, i + lit@.len(), k);
            }
            let mut out = text::copy_range(hay, 0, i);
            let whole = text::copy_range(hay, i, e);
            let expanded = expand_replacement_exec(rep, &whole);
            text::append_chars(&mut out, &expanded);
            let tail = text::copy_range(hay, e, hay.len());
            text::append_chars(&mut out, &tail);
            out
        },
    }
}

} // verus!
