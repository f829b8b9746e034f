//! SQL `LIKE` patterns over crate names.
//!
//! `%` matches any run of characters (also none), `_` matches exactly one
//! character, and a backslash makes the character after it literal. A
//! backslash that ends the pattern stands for itself.
use vstd::prelude::*;

verus! {

/// Whether `name[j..]` matches `pattern[i..]`.
pub open spec fn like_from(pattern: Seq<char>, name: Seq<char>, i: int, j: int) -> bool
    decreases pattern.len() - i + name.len() - j,
{
    if i < 0 || j < 0 || i > pattern.len() || j > name.len() {
        false
    } else if i == pattern.len() {
        j == name.len()
    } else if pattern[i] == '%' {
        like_from(pattern, name, i + 1, j) || (j < name.len() && like_from(
            pattern,
            name,
            i,
            j + 1,
        ))
    } else if pattern[i] == '_' {
        j < name.len() && like_from(pattern, name, i + 1, j + 1)
    } else if pattern[i] == '\\' && i + 1 < pattern.len() {
        j < name.len() && name[j] == pattern[i + 1] && like_from(pattern, name, i + 2, j + 1)
    } else {
        j < name.len() && name[j] == pattern[i] && like_from(pattern, name, i + 1, j + 1)
    }
}

/// Whether the whole of `name` matches the whole of `pattern`.
pub open spec fn like(pattern: Seq<char>, name: Seq<char>) -> bool {
    like_from(pattern, name, 0, 0)
}

/// The characters of `s`, one per element.
pub fn chars_of(s: &str) -> (r: Vec<char>)
    ensures
        r@ == s@,
{
    let n = s.unicode_len();
    let mut r: Vec<char> = Vec::new();
    let mut k: usize = 0;
    while k < n
        invariant
            n == s@.len(),
            k <= n,
            r@ == s@.subrange(0, k as int),
        decreases n - k,
    {
        r.push(s.get_char(k));
        k = k + 1;
    }
    assert(r@ =~= s@);
    r
}

/// Whether `row`, with `end` for the position past the last character, is row
/// `i` of the match table: entry `j` says whether `name[j..]` matches
/// `pattern[i..]`.
pub open spec fn is_row(
    pattern: Seq<char>,
    name: Seq<char>,
    i: int,
    row: Seq<bool>,
    end: bool,
) -> bool {
    &&& row.len() == name.len()
    &&& end == like_from(pattern, name, i, name.len() as int)
    &&& forall|j: int| 0 <= j < name.len() ==> #[trigger] row[j] == like_from(pattern, name, i, j)
}

fn entry(row: &Vec<bool>, end: bool, j: usize) -> (r: bool)
    requires
        j <= row@.len(),
    ensures
        r == if j == row@.len() {
            end
        } else {
            row@[j as int]
        },
{
    if j == row.len() {
        end
    } else {
        row[j]
    }
}

/// Row `i` of the match table, from rows `i + 1` and `i + 2` where those
/// exist.
fn like_row(
    pattern: &Vec<char>,
    name: &Vec<char>,
    i: usize,
    next1: &Vec<bool>,
    end1: bool,
    next2: &Vec<bool>,
    end2: bool,
) -> (r: (Vec<bool>, bool))
    requires
        i <= pattern@.len(),
        i + 1 <= pattern@.len() ==> is_row(pattern@, name@, i + 1, next1@, end1),
        i + 2 <= pattern@.len() ==> is_row(pattern@, name@, i + 2, next2@, end2),
    ensures
        is_row(pattern@, name@, i as int, r.0@, r.1),
{
    let plen = pattern.len();
    let nlen = name.len();
    let end = if i == plen {
        true
    } else if pattern[i] == '%' {
        end1
    } else {
        false
    };
    let mut row: Vec<bool> = vec![false; nlen];
    let mut j: usize = nlen;
    while j > 0
        invariant
            0 <= j <= nlen,
            i <= plen,
            plen == pattern@.len(),
            nlen == name@.len(),
            row@.len() == nlen,
            end == like_from(pattern@, name@, i as int, nlen as int),
            i + 1 <= plen ==> is_row(pattern@, name@, i + 1, next1@, end1),
            i + 2 <= plen ==> is_row(pattern@, name@, i + 2, next2@, end2),
            forall|m: int| j <= m < nlen ==> #[trigger] row@[m] == like_from(pattern@, name@, i as int, m),
        decreases j,
    {
        j = j - 1;
        let v = if i == plen {
            false
        } else if pattern[i] == '%' {
            next1[j] || entry(&row, end, j + 1)
        } else if pattern[i] == '_' {
            entry(next1, end1, j + 1)
        } else if pattern[i] == '\\' && i + 1 < plen {
            name[j] == pattern[i + 1] && entry(next2, end2, j + 1)
        } else {
            name[j] == pattern[i] && entry(next1, end1, j + 1)
        };
        row.set(j, v);
    }
    (row, end)
}

/// Whether `name` matches the `LIKE` pattern `pattern`.
pub fn like_matches(pattern: &str, name: &str) -> (r: bool)
    ensures
        r == like(pattern@, name@),
{
    let p = chars_of(pattern);
    let n = chars_of(name);
    let plen = p.len();
    let empty: Vec<bool> = Vec::new();
    let (mut next1, mut end1) = like_row(&p, &n, plen, &empty, false, &empty, false);
    let mut next2: Vec<bool> = Vec::new();
    let mut end2 = false;
    let mut i: usize = plen;
    while i > 0
        invariant
            0 <= i <= plen,
            plen == p@.len(),
            p@ == pattern@,
            n@ == name@,
            i <= plen ==> is_row(p@, n@, i as int, next1@, end1),
            i + 1 <= plen ==> is_row(p@, n@, i + 1, next2@, end2),
        decreases i,
    {
        i = i - 1;
        let (row, end) = like_row(&p, &n, i, &next1, end1, &next2, end2);
        next2 = next1;
        end2 = end1;
        next1 = row;
        end1 = end;
    }
    entry(&next1, end1, 0)
}

} // verus!
