//! Verified text utilities over `&str` / `String`, whose views are `Seq<char>`.
//!
//! Everything here is ordinary verified code; no outside crate is involved.
//! Case-insensitive comparison works in `u32` space so that no `char` value
//! ever has to be constructed.

use vstd::prelude::*;

verus! {

/// The lower-case image of a character, as a code point: ASCII letters are
/// folded, every other character is left alone.
pub open spec fn lower_code(c: char) -> int {
    if 'A' <= c && c <= 'Z' {
        c as int + 32
    } else {
        c as int
    }
}

/// Two character sequences are equal up to ASCII case.
pub open spec fn eq_ignore_case(a: Seq<char>, b: Seq<char>) -> bool {
    a.len() == b.len() && forall|i: int| 0 <= i < a.len() ==> lower_code(a[i]) == lower_code(b[i])
}

/// ASCII whitespace, the characters `str::trim` removes from ASCII text.
pub open spec fn is_ascii_space(c: char) -> bool {
    c == ' ' || c == '\t' || c == '\r' || c == '\n' || c == '\u{b}' || c == '\u{c}'
}

/// Index of the first non-whitespace character, or `s.len()` if none.
pub open spec fn trim_start_idx(s: Seq<char>) -> int
    decreases s.len(),
{
    if s.len() == 0 {
        0
    } else if is_ascii_space(s[0]) {
        1 + trim_start_idx(s.skip(1))
    } else {
        0
    }
}

/// One past the index of the last non-whitespace character, or 0 if none.
pub open spec fn trim_end_idx(s: Seq<char>) -> int
    decreases s.len(),
{
    if s.len() == 0 {
        0
    } else if is_ascii_space(s[s.len() - 1]) {
        trim_end_idx(s.drop_last())
    } else {
        s.len() as int
    }
}

/// `s` with ASCII whitespace removed from both ends.
pub open spec fn trim_spec(s: Seq<char>) -> Seq<char> {
    let a = trim_start_idx(s);
    let b = trim_end_idx(s);
    if a <= b {
        s.subrange(a, b)
    } else {
        Seq::empty()
    }
}

pub open spec fn starts_with_spec(s: Seq<char>, p: Seq<char>) -> bool {
    p.len() <= s.len() && s.subrange(0, p.len() as int) == p
}

/// Some byte sequence of `s` beginning at `i` matches `p`.
pub open spec fn matches_at(s: Seq<char>, p: Seq<char>, i: int) -> bool {
    0 <= i && i + p.len() <= s.len() && s.subrange(i, i + p.len()) == p
}

/// `p` occurs somewhere in `s` as a contiguous subsequence.
pub open spec fn contains_sub_spec(s: Seq<char>, p: Seq<char>) -> bool {
    exists|i: int| matches_at(s, p, i)
}

fn exec_is_ascii_space(c: char) -> (r: bool)
    ensures
        r == is_ascii_space(c),
{
    c == ' ' || c == '\t' || c == '\r' || c == '\n' || c == '\u{b}' || c == '\u{c}'
}

/// Whether `s` starts with `p`, by character comparison.
pub fn str_starts_with(s: &str, p: &str) -> (r: bool)
    ensures
        r == starts_with_spec(s@, p@),
{
    let sl = s.unicode_len();
    let pl = p.unicode_len();
    if pl > sl {
        assert(!starts_with_spec(s@, p@));
        return false;
    }
    let mut i: usize = 0;
    while i < pl
        invariant
            i <= pl,
            pl <= sl,
            pl == p@.len(),
            sl == s@.len(),
            forall|j: int| 0 <= j < i ==> s@[j] == p@[j],
        decreases pl - i,
    {
        if s.get_char(i) != p.get_char(i) {
            assert(s@.subrange(0, pl as int)[i as int] != p@[i as int]);
            return false;
        }
        i += 1;
    }
    assert(s@.subrange(0, pl as int) =~= p@);
    true
}

/// Whether the views of `a` and `b` are equal, by character comparison.
pub fn str_eq(a: &str, b: &str) -> (r: bool)
    ensures
        r == (a@ == b@),
{
    let al = a.unicode_len();
    let bl = b.unicode_len();
    if al != bl {
        return false;
    }
    let mut i: usize = 0;
    while i < al
        invariant
            i <= al,
            al == a@.len(),
            bl == b@.len(),
            al == bl,
            forall|j: int| 0 <= j < i ==> a@[j] == b@[j],
        decreases al - i,
    {
        if a.get_char(i) != b.get_char(i) {
            return false;
        }
        i += 1;
    }
    assert(a@ =~= b@);
    true
}

/// Whether `a` and `b` are equal up to ASCII case.
pub fn str_eq_ignore_case(a: &str, b: &str) -> (r: bool)
    ensures
        r == eq_ignore_case(a@, b@),
{
    let al = a.unicode_len();
    let bl = b.unicode_len();
    if al != bl {
        return false;
    }
    let mut i: usize = 0;
    while i < al
        invariant
            i <= al,
            al == a@.len(),
            bl == b@.len(),
            al == bl,
            forall|j: int| 0 <= j < i ==> lower_code(a@[j]) == lower_code(b@[j]),
        decreases al - i,
    {
        let ca = a.get_char(i);
        let cb = b.get_char(i);
        let la: u32 = if 'A' <= ca && ca <= 'Z' {
            ca as u32 + 32
        } else {
            ca as u32
        };
        let lb: u32 = if 'A' <= cb && cb <= 'Z' {
            cb as u32 + 32
        } else {
            cb as u32
        };
        if la != lb {
            return false;
        }
        i += 1;
    }
    true
}

/// Whether `p` occurs in `s` as a contiguous substring.
pub fn str_contains(s: &str, p: &str) -> (r: bool)
    ensures
        r == contains_sub_spec(s@, p@),
{
    let sl = s.unicode_len();
    let pl = p.unicode_len();
    if pl > sl {
        assert(forall|i: int| !matches_at(s@, p@, i));
        return false;
    }
    if pl == 0 {
        assert(s@.subrange(0, 0) =~= p@);
        assert(matches_at(s@, p@, 0));
        return true;
    }
    let mut start: usize = 0;
    while start <= sl - pl
        invariant
            1 <= pl <= sl,
            sl == s@.len(),
            pl == p@.len(),
            start <= sl - pl + 1,
            forall|i: int| 0 <= i < start ==> !matches_at(s@, p@, i),
        decreases sl - pl + 1 - start,
    {
        let mut j: usize = 0;
        let mut hit = true;
        while hit && j < pl
            invariant
                j <= pl,
                pl <= sl,
                sl == s@.len(),
                pl == p@.len(),
                start + pl <= sl,
                hit ==> forall|k: int| 0 <= k < j ==> s@[start + k] == p@[k],
                !hit ==> !matches_at(s@, p@, start as int),
            decreases pl - j + (if hit { 1int } else { 0int }),
        {
            if s.get_char(start + j) != p.get_char(j) {
                assert(s@.subrange(start as int, start + pl as int)[j as int] != p@[j as int]);
                hit = false;
            } else {
                j += 1;
            }
        }
        if hit {
            assert(s@.subrange(start as int, start + pl as int) =~= p@);
            assert(matches_at(s@, p@, start as int));
            return true;
        }
        start += 1;
    }
    assert(forall|i: int| matches_at(s@, p@, i) ==> 0 <= i <= sl - pl);
    false
}

/// `s` with ASCII whitespace trimmed from both ends, as a fresh `String`.
pub fn str_trim(s: &str) -> (r: String)
    ensures
        r@ == trim_spec(s@),
{
    let sl = s.unicode_len();
    proof {
        assert(s@.skip(0) =~= s@);
    }
    let mut a: usize = 0;
    while a < sl && exec_is_ascii_space(s.get_char(a))
        invariant
            a <= sl,
            sl == s@.len(),
            trim_start_idx(s@) == a + trim_start_idx(s@.skip(a as int)),
            forall|j: int| 0 <= j < a ==> is_ascii_space(s@[j]),
        decreases sl - a,
    {
        proof {
            assert(s@.skip(a as int).len() > 0);
            assert(s@.skip(a as int)[0] == s@[a as int]);
            assert(s@.skip(a as int).skip(1) =~= s@.skip(a + 1));
        }
        a += 1;
    }
    proof {
        if a < sl {
            assert(s@.skip(a as int)[0] == s@[a as int]);
        }
        assert(trim_start_idx(s@.skip(a as int)) == 0);
        assert(trim_start_idx(s@) == a);
    }
    let mut b: usize = sl;
    proof {
        assert(s@.take(sl as int) =~= s@);
    }
    while b > a && exec_is_ascii_space(s.get_char(b - 1))
        invariant
            a <= b <= sl,
            sl == s@.len(),
            trim_start_idx(s@) == a,
            forall|j: int| 0 <= j < a ==> is_ascii_space(s@[j]),
            trim_end_idx(s@) == trim_end_idx(s@.take(b as int)),
        decreases b,
    {
        proof {
            let t = s@.take(b as int);
            assert(t.len() == b);
            assert(t[b - 1] == s@[b - 1]);
            assert(t.drop_last() =~= s@.take(b - 1));
        }
        b -= 1;
    }
    proof {
        let t = s@.take(b as int);
        if b > a {
            assert(t[b - 1] == s@[b - 1]);
            assert(trim_end_idx(t) == b);
        } else {
            // everything up to b is whitespace, so trim_end_idx counts down to 0
            lemma_trim_end_all_space(t);
            assert(trim_end_idx(t) == 0);
        }
        assert(trim_end_idx(s@) == trim_end_idx(t));
        if b == a {
            lemma_trim_idx_order(s@);
        }
    }
    let r = s.substring_char(a, b);
    proof {
        assert(r@ =~= trim_spec(s@));
    }
    r.to_owned()
}

proof fn lemma_trim_end_all_space(s: Seq<char>)
    requires
        forall|j: int| 0 <= j < s.len() ==> is_ascii_space(s[j]),
    ensures
        trim_end_idx(s) == 0,
    decreases s.len(),
{
    if s.len() > 0 {
        lemma_trim_end_all_space(s.drop_last());
    }
}

/// The start index never passes the end index.
proof fn lemma_trim_idx_order(s: Seq<char>)
    ensures
        trim_start_idx(s) <= s.len(),
        0 <= trim_end_idx(s) <= s.len(),
    decreases s.len(),
{
    if s.len() > 0 {
        lemma_trim_idx_order(s.skip(1));
        lemma_trim_idx_order(s.drop_last());
    }
}

/// Index of the first occurrence of `p` in `s`, or -1 when there is none.
pub open spec fn first_match_idx(s: Seq<char>, p: Seq<char>) -> int
    decreases s.len(),
{
    if p.len() > s.len() {
        -1
    } else if p.len() == 0 {
        0
    } else if s.subrange(0, p.len() as int) == p {
        0
    } else if first_match_idx(s.skip(1), p) == -1 {
        -1
    } else {
        1 + first_match_idx(s.skip(1), p)
    }
}

proof fn lemma_first_match_at(s: Seq<char>, p: Seq<char>, i: int)
    requires
        0 <= i,
        i + p.len() <= s.len(),
        s.subrange(i, i + p.len()) == p,
        forall|j: int| 0 <= j < i ==> !matches_at(s, p, j),
    ensures
        first_match_idx(s, p) == i,
    decreases s.len(),
{
    if i == 0 {
        assert(s.subrange(0, p.len() as int) == p);
    } else {
        assert(p.len() >= 1) by {
            if p.len() == 0 {
                assert(s.subrange(0, 0) =~= p);
                assert(matches_at(s, p, 0));
            }
        }
        assert(s.subrange(0, p.len() as int) != p) by {
            assert(!matches_at(s, p, 0));
        }
        assert(s.len() >= 1);
        assert(s.skip(1).subrange(i - 1, i - 1 + p.len()) =~= s.subrange(i, i + p.len()));
        assert forall|j: int| 0 <= j < i - 1 implies !matches_at(s.skip(1), p, j) by {
            assert(s.skip(1).subrange(j, j + p.len()) =~= s.subrange(j + 1, j + 1 + p.len()));
            assert(!matches_at(s, p, j + 1));
        }
        lemma_first_match_at(s.skip(1), p, i - 1);
    }
}

proof fn lemma_first_match_none(s: Seq<char>, p: Seq<char>)
    requires
        forall|j: int| !matches_at(s, p, j),
    ensures
        first_match_idx(s, p) == -1,
    decreases s.len(),
{
    if p.len() <= s.len() {
        assert(s.subrange(0, p.len() as int) != p) by {
            assert(!matches_at(s, p, 0));
        }
        assert(p.len() >= 1) by {
            if p.len() == 0 {
                assert(s.subrange(0, 0) =~= p);
            }
        }
        assert forall|j: int| !matches_at(s.skip(1), p, j) by {
            if 0 <= j && j + p.len() <= s.skip(1).len() {
                assert(s.skip(1).subrange(j, j + p.len()) =~= s.subrange(j + 1, j + 1 + p.len()));
                assert(!matches_at(s, p, j + 1));
            }
        }
        lemma_first_match_none(s.skip(1), p);
    }
}

/// The first index where `p` occurs in `s`, by character comparison.
pub fn str_find(s: &str, p: &str) -> (r: Option<usize>)
    ensures
        match r {
            Some(i) => first_match_idx(s@, p@) == i && matches_at(s@, p@, i as int),
            None => first_match_idx(s@, p@) == -1,
        },
{
    let sl = s.unicode_len();
    let pl = p.unicode_len();
    if pl > sl {
        proof {
            assert(forall|j: int| !matches_at(s@, p@, j));
            lemma_first_match_none(s@, p@);
        }
        return None;
    }
    if pl == 0 {
        proof {
            assert(s@.subrange(0, 0) =~= p@);
            lemma_first_match_at(s@, p@, 0);
        }
        return Some(0);
    }
    let mut start: usize = 0;
    while start <= sl - pl
        invariant
            1 <= pl <= sl,
            sl == s@.len(),
            pl == p@.len(),
            start <= sl - pl + 1,
            forall|i: int| 0 <= i < start ==> !matches_at(s@, p@, i),
        decreases sl - pl + 1 - start,
    {
        let mut j: usize = 0;
        let mut hit = true;
        while hit && j < pl
            invariant
                j <= pl,
                pl <= sl,
                sl == s@.len(),
                pl == p@.len(),
                start + pl <= sl,
                hit ==> forall|k: int| 0 <= k < j ==> s@[start + k] == p@[k],
                !hit ==> !matches_at(s@, p@, start as int),
            decreases pl - j + (if hit { 1int } else { 0int }),
        {
            if s.get_char(start + j) != p.get_char(j) {
                assert(s@.subrange(start as int, start + pl as int)[j as int] != p@[j as int]);
                hit = false;
            } else {
                j += 1;
            }
        }
        if hit {
            proof {
                assert(s@.subrange(start as int, start + pl as int) =~= p@);
                lemma_first_match_at(s@, p@, start as int);
            }
            return Some(start);
        }
        start += 1;
    }
    proof {
        assert(forall|j: int| !matches_at(s@, p@, j));
        lemma_first_match_none(s@, p@);
    }
    None
}

/// `s` with every occurrence of `from` replaced by `to`, scanning left to
/// right; `from` must not be empty.
pub open spec fn replace_all_spec(s: Seq<char>, from: Seq<char>, to: Seq<char>) -> Seq<char>
    decreases s.len(),
{
    if from.len() == 0 {
        s
    } else {
        let i = first_match_idx(s, from);
        if i == -1 {
            s
        } else if 0 <= i && i + from.len() <= s.len() {
            s.take(i) + to + replace_all_spec(s.skip(i + from.len()), from, to)
        } else {
            s
        }
    }
}

proof fn lemma_first_match_bounds(s: Seq<char>, p: Seq<char>)
    ensures
        first_match_idx(s, p) == -1 || (0 <= first_match_idx(s, p) && first_match_idx(s, p)
            + p.len() <= s.len()),
    decreases s.len(),
{
    if p.len() <= s.len() && s.subrange(0, p.len() as int) != p {
        assert(p.len() >= 1) by {
            if p.len() == 0 {
                assert(s.subrange(0, 0) =~= p);
            }
        }
        lemma_first_match_bounds(s.skip(1), p);
    }
}

/// Every occurrence of `from` replaced by `to`.
pub fn str_replace(s: &str, from: &str, to: &str) -> (r: String)
    requires
        from@.len() > 0,
    ensures
        r@ == replace_all_spec(s@, from@, to@),
    decreases s@.len(),
{
    match str_find(s, from) {
        None => s.to_owned(),
        Some(i) => {
            proof {
                lemma_first_match_bounds(s@, from@);
            }
            let sl = s.unicode_len();
            let fl = from.unicode_len();
            let mut out = s.substring_char(0, i).to_owned();
            out.append(to);
            let rest = s.substring_char(i + fl, sl);
            let tail = str_replace(rest, from, to);
            out.append(tail.as_str());
            proof {
                assert(out@ =~= replace_all_spec(s@, from@, to@));
            }
            out
        },
    }
}

/// `s` without its trailing `/` characters.
pub open spec fn trim_end_slashes_spec(s: Seq<char>) -> Seq<char>
    decreases s.len(),
{
    if s.len() > 0 && s.last() == '/' {
        trim_end_slashes_spec(s.drop_last())
    } else {
        s
    }
}

pub fn str_trim_end_slashes(s: &str) -> (r: String)
    ensures
        r@ == trim_end_slashes_spec(s@),
{
    let sl = s.unicode_len();
    let mut b: usize = sl;
    proof {
        assert(s@.take(sl as int) =~= s@);
    }
    while b > 0 && s.get_char(b - 1) == '/'
        invariant
            b <= sl,
            sl == s@.len(),
            trim_end_slashes_spec(s@) == trim_end_slashes_spec(s@.take(b as int)),
        decreases b,
    {
        proof {
            let t = s@.take(b as int);
            assert(t.last() == s@[b - 1]);
            assert(t.drop_last() =~= s@.take(b - 1));
        }
        b -= 1;
    }
    proof {
        let t = s@.take(b as int);
        if b > 0 {
            assert(t.last() == s@[b - 1]);
        }
    }
    s.substring_char(0, b).to_owned()
}

/// Whether byte sequence `s` starts with `p`.
pub open spec fn bytes_starts_with_spec(s: Seq<u8>, p: Seq<u8>) -> bool {
    p.len() <= s.len() && s.subrange(0, p.len() as int) == p
}

pub fn bytes_starts_with(s: &[u8], p: &[u8]) -> (r: bool)
    ensures
        r == bytes_starts_with_spec(s@, p@),
{
    if p.len() > s.len() {
        return false;
    }
    let mut i: usize = 0;
    while i < p.len()
        invariant
            i <= p@.len(),
            p@.len() <= s@.len(),
            forall|j: int| 0 <= j < i ==> s@[j] == p@[j],
        decreases p@.len() - i,
    {
        if s[i] != p[i] {
            assert(s@.subrange(0, p@.len() as int)[i as int] != p@[i as int]);
            return false;
        }
        i += 1;
    }
    assert(s@.subrange(0, p@.len() as int) =~= p@);
    true
}

pub fn bytes_eq(a: &[u8], b: &[u8]) -> (r: bool)
    ensures
        r == (a@ == b@),
{
    if a.len() != b.len() {
        return false;
    }
    let mut i: usize = 0;
    while i < a.len()
        invariant
            i <= a@.len(),
            a@.len() == b@.len(),
            forall|j: int| 0 <= j < i ==> a@[j] == b@[j],
        decreases a@.len() - i,
    {
        if a[i] != b[i] {
            return false;
        }
        i += 1;
    }
    assert(a@ =~= b@);
    true
}

/// The bytes of `v` from `from` on, as a fresh vector.
pub fn bytes_suffix(v: &[u8], from: usize) -> (r: Vec<u8>)
    requires
        from <= v@.len(),
    ensures
        r@ == v@.skip(from as int),
{
    let mut out: Vec<u8> = Vec::new();
    let mut i: usize = from;
    while i < v.len()
        invariant
            from <= i <= v@.len(),
            out@.len() == i - from,
            forall|j: int| 0 <= j < out@.len() ==> out@[j] == v@[from + j],
        decreases v@.len() - i,
    {
        out.push(v[i]);
        i += 1;
    }
    assert(out@ =~= v@.skip(from as int));
    out
}

} // verus!
