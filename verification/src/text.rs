//! Character-level text utilities: ASCII case folding, case-insensitive
//! substring search, and whitespace tests. All positions are character
//! offsets, never byte offsets.
use vstd::prelude::*;

verus! {

/// ASCII lower-casing of a single character; other characters are untouched.
pub open spec fn lower_char(c: char) -> char {
    if 'A' <= c && c <= 'Z' {
        (((c as u8) + 32) as char)
    } else {
        c
    }
}

pub open spec fn lower_seq(s: Seq<char>) -> Seq<char> {
    s.map_values(|c: char| lower_char(c))
}

/// The blank characters recognized when a query is tested for emptiness and
/// when whitespace is skipped after a JSON key.
pub open spec fn is_space_char(c: char) -> bool {
    c == ' ' || c == '\t' || c == '\n' || c == '\r'
}

/// `pat` occurs in `hay` starting at character offset `i`.
pub open spec fn match_at(hay: Seq<char>, pat: Seq<char>, i: int) -> bool {
    &&& 0 <= i
    &&& i + pat.len() <= hay.len()
    &&& hay.subrange(i, i + pat.len() as int) == pat
}

/// `pat` occurs in `hay` at offset `i` up to ASCII case.
pub open spec fn ci_match_at(hay: Seq<char>, pat: Seq<char>, i: int) -> bool {
    match_at(lower_seq(hay), lower_seq(pat), i)
}

/// `hay` contains `pat` up to ASCII case.
pub open spec fn ci_contains(hay: Seq<char>, pat: Seq<char>) -> bool {
    exists|i: int| ci_match_at(hay, pat, i)
}

/// All offsets `i < n` at which `pat` occurs in `hay` up to ASCII case,
/// in increasing order.
pub open spec fn ci_positions_below(hay: Seq<char>, pat: Seq<char>, n: int) -> Seq<int>
    decreases n,
{
    if n <= 0 {
        Seq::empty()
    } else {
        ci_positions_below(hay, pat, n - 1)
            + if ci_match_at(hay, pat, n - 1) {
                seq![n - 1]
            } else {
                Seq::empty()
            }
    }
}

/// All offsets at which `pat` occurs in `hay` up to ASCII case.
pub open spec fn ci_positions(hay: Seq<char>, pat: Seq<char>) -> Seq<int> {
    ci_positions_below(hay, pat, hay.len() - pat.len() + 1)
}

/// The first offset `j >= from` with `s[j] == c`, if any.
pub open spec fn find_char_from(s: Seq<char>, from: int, c: char) -> Option<int>
    decreases s.len() - from,
{
    if from < 0 || from >= s.len() {
        None
    } else if s[from] == c {
        Some(from)
    } else {
        find_char_from(s, from + 1, c)
    }
}

/// The first offset `j >= from` at which `pat` occurs in `hay`
/// (case-sensitive), if any.
pub open spec fn find_seq_from(hay: Seq<char>, pat: Seq<char>, from: int) -> Option<int>
    decreases hay.len() - from,
{
    if from < 0 || from + pat.len() > hay.len() {
        None
    } else if match_at(hay, pat, from) {
        Some(from)
    } else if from >= hay.len() {
        None
    } else {
        find_seq_from(hay, pat, from + 1)
    }
}

/// The first offset `j >= from` holding a non-blank character; the length of
/// `s` when everything from `from` on is blank.
pub open spec fn skip_spaces(s: Seq<char>, from: int) -> int
    decreases s.len() - from,
{
    if from < 0 || from >= s.len() {
        s.len() as int
    } else if is_space_char(s[from]) {
        skip_spaces(s, from + 1)
    } else {
        from
    }
}

pub fn exec_lower_char(c: char) -> (r: char)
    ensures
        r == lower_char(c),
{
    if 'A' <= c && c <= 'Z' {
        ((c as u8) + 32) as char
    } else {
        c
    }
}

pub fn exec_is_space(c: char) -> (r: bool)
    ensures
        r == is_space_char(c),
{
    c == ' ' || c == '\t' || c == '\n' || c == '\r'
}

/// Every character is blank (so the empty sequence is blank).
pub open spec fn is_blank_seq(s: Seq<char>) -> bool {
    forall|i: int| 0 <= i < s.len() ==> is_space_char(s[i])
}

/// Every character of `s` is blank (so an empty string is blank).
pub fn is_blank(s: &str) -> (r: bool)
    ensures
        r == is_blank_seq(s@),
{
    let n = s.unicode_len();
    let mut k: usize = 0;
    while k < n
        invariant
            n == s@.len(),
            0 <= k <= n,
            forall|i: int| 0 <= i < k ==> is_space_char(s@[i]),
        decreases n - k,
    {
        if !exec_is_space(s.get_char(k)) {
            return false;
        }
        k += 1;
    }
    true
}

/// `pat` occurs at offset `i` of `hay`, up to ASCII case.
pub fn ci_match_at_exec(hay: &str, pat: &str, i: usize) -> (r: bool)
    requires
        i + pat@.len() <= hay@.len(),
        hay@.len() <= usize::MAX,
    ensures
        r == ci_match_at(hay@, pat@, i as int),
{
    let m = pat.unicode_len();
    let mut j: usize = 0;
    while j < m
        invariant
            m == pat@.len(),
            i + m <= hay@.len(),
            hay@.len() <= usize::MAX,
            0 <= j <= m,
            forall|k: int|
                0 <= k < j ==> lower_seq(hay@)[i + k] == lower_seq(pat@)[k],
        decreases m - j,
    {
        let hc = exec_lower_char(hay.get_char(i + j));
        let pc = exec_lower_char(pat.get_char(j));
        if hc != pc {
            assert(lower_seq(hay@)[i + j] != lower_seq(pat@)[j as int]);
            assert(!ci_match_at(hay@, pat@, i as int)) by {
                if ci_match_at(hay@, pat@, i as int) {
                    assert(lower_seq(hay@).subrange(
                        i as int,
                        i + pat@.len() as int,
                    )[j as int] == lower_seq(pat@)[j as int]);
                }
            }
            return false;
        }
        j += 1;
    }
    assert(lower_seq(hay@).subrange(i as int, i + pat@.len() as int) =~= lower_seq(pat@));
    true
}

/// All offsets at which `pat` occurs in `hay`, up to ASCII case, ascending.
pub fn ci_find_all(hay: &str, pat: &str) -> (r: Vec<usize>)
    ensures
        r@.map_values(|u: usize| u as int) == ci_positions(hay@, pat@),
        forall|k: int| 0 <= k < r@.len() ==> r@[k] + pat@.len() <= hay@.len(),
{
    let n = hay.unicode_len();
    let m = pat.unicode_len();
    let mut r: Vec<usize> = Vec::new();
    if m > n {
        assert(ci_positions(hay@, pat@) =~= Seq::<int>::empty()) by {
            assert(hay@.len() - pat@.len() + 1 <= 0);
        }
        assert(r@.map_values(|u: usize| u as int) =~= Seq::<int>::empty());
        return r;
    }
    if m == 0 {
        let mut i: usize = 0;
        while i < n
            invariant
                n == hay@.len(),
                m == pat@.len(),
                m == 0,
                0 <= i <= n,
                r@.map_values(|u: usize| u as int) == ci_positions_below(hay@, pat@, i as int),
                forall|k: int| 0 <= k < r@.len() ==> r@[k] + pat@.len() <= hay@.len(),
            decreases n - i,
        {
            proof {
                lemma_empty_ci_match(hay@, pat@, i as int);
            }
            r.push(i);
            assert(r@.map_values(|u: usize| u as int) =~= ci_positions_below(
                hay@,
                pat@,
                i + 1 as int,
            ));
            i += 1;
        }
        proof {
            lemma_empty_ci_match(hay@, pat@, n as int);
        }
        r.push(n);
        assert(r@.map_values(|u: usize| u as int) =~= ci_positions_below(
            hay@,
            pat@,
            n + 1 as int,
        ));
        return r;
    }
    let last = n - m;
    let mut i: usize = 0;
    while i <= last
        invariant
            n == hay@.len(),
            m == pat@.len(),
            1 <= m <= n,
            last == n - m,
            0 <= i <= last + 1,
            r@.map_values(|u: usize| u as int) == ci_positions_below(hay@, pat@, i as int),
            forall|k: int| 0 <= k < r@.len() ==> r@[k] + pat@.len() <= hay@.len(),
        decreases n - i,
    {
        if ci_match_at_exec(hay, pat, i) {
            r.push(i);
        }
        assert(r@.map_values(|u: usize| u as int) =~= ci_positions_below(
            hay@,
            pat@,
            i + 1 as int,
        )) by {
            assert(ci_positions_below(hay@, pat@, i + 1 as int) == ci_positions_below(
                hay@,
                pat@,
                i as int,
            )
                + if ci_match_at(hay@, pat@, i as int) {
                    seq![i as int]
                } else {
                    Seq::<int>::empty()
                });
        }
        i += 1;
    }
    assert(i as int == hay@.len() - pat@.len() + 1);
    r
}

/// The empty pattern occurs at every offset `0 <= i <= hay.len()`.
proof fn lemma_empty_ci_match(hay: Seq<char>, pat: Seq<char>, i: int)
    requires
        pat.len() == 0,
        0 <= i <= hay.len(),
    ensures
        ci_match_at(hay, pat, i),
{
    assert(lower_seq(hay).len() == hay.len());
    assert(lower_seq(pat).len() == 0);
    assert(lower_seq(hay).subrange(i, i) =~= lower_seq(pat));
}

/// `hay` contains `pat` up to ASCII case.
pub fn ci_contains_exec(hay: &str, pat: &str) -> (r: bool)
    ensures
        r == ci_contains(hay@, pat@),
{
    let n = hay.unicode_len();
    let m = pat.unicode_len();
    if m > n {
        assert(!ci_contains(hay@, pat@)) by {
            assert(forall|i: int| !ci_match_at(hay@, pat@, i)) by {
                assert(lower_seq(hay@).len() == hay@.len());
                assert(lower_seq(pat@).len() == pat@.len());
            }
        }
        return false;
    }
    if m == 0 {
        proof {
            lemma_empty_ci_match(hay@, pat@, 0);
        }
        return true;
    }
    let last = n - m;
    let mut i: usize = 0;
    while i <= last
        invariant
            n == hay@.len(),
            m == pat@.len(),
            1 <= m <= n,
            last == n - m,
            0 <= i <= last + 1,
            forall|k: int| 0 <= k < i ==> !ci_match_at(hay@, pat@, k),
        decreases n - i,
    {
        if ci_match_at_exec(hay, pat, i) {
            return true;
        }
        i += 1;
    }
    assert(!ci_contains(hay@, pat@)) by {
        assert forall|k: int| !ci_match_at(hay@, pat@, k) by {
            if k < 0 || k > last {
                assert(lower_seq(hay@).len() == hay@.len());
                assert(lower_seq(pat@).len() == pat@.len());
            }
        }
    }
    false
}

/// The first case-sensitive occurrence of `pat` in `hay` at or after `from`.
pub fn find_seq_from_exec(hay: &str, pat: &str, from: usize) -> (r: Option<usize>)
    ensures
        match r {
            Some(p) => find_seq_from(hay@, pat@, from as int) == Some(p as int) && from <= p
                && p + pat@.len() <= hay@.len(),
            None => find_seq_from(hay@, pat@, from as int) is None,
        },
{
    let n = hay.unicode_len();
    let m = pat.unicode_len();
    if m > n || from > n - m {
        proof {
            lemma_find_seq_none(hay@, pat@, from as int);
        }
        return None;
    }
    if m == 0 {
        assert(hay@.subrange(from as int, from as int) =~= pat@);
        assert(match_at(hay@, pat@, from as int));
        return Some(from);
    }
    let last = n - m;
    let mut i: usize = from;
    while i <= last
        invariant
            n == hay@.len(),
            m == pat@.len(),
            1 <= m <= n,
            last == n - m,
            from <= i <= last + 1,
            find_seq_from(hay@, pat@, from as int) == find_seq_from(hay@, pat@, i as int),
        decreases n - i,
    {
        let mut j: usize = 0;
        let mut ok = true;
        while j < m
            invariant
                n == hay@.len(),
                m == pat@.len(),
                i + m <= n,
                0 <= j <= m,
                ok <==> (forall|k: int| 0 <= k < j ==> hay@[i + k] == pat@[k]),
            decreases m - j,
        {
            if hay.get_char(i + j) != pat.get_char(j) {
                ok = false;
                assert(hay@[i + j] != pat@[j as int]);
                j = m;
            } else {
                j += 1;
            }
        }
        if ok {
            assert(hay@.subrange(i as int, i + pat@.len() as int) =~= pat@);
            assert(match_at(hay@, pat@, i as int));
            return Some(i);
        }
        assert(!match_at(hay@, pat@, i as int)) by {
            let k = choose|k: int| 0 <= k < m && hay@[i + k] != pat@[k];
            if match_at(hay@, pat@, i as int) {
                assert(hay@.subrange(i as int, i + pat@.len() as int)[k] == pat@[k]);
            }
        }
        i += 1;
    }
    proof {
        lemma_find_seq_none(hay@, pat@, i as int);
    }
    None
}

/// Past the last possible start, a search finds nothing.
proof fn lemma_find_seq_none(hay: Seq<char>, pat: Seq<char>, from: int)
    requires
        from + pat.len() > hay.len() || from < 0,
    ensures
        from >= 0 ==> find_seq_from(hay, pat, from) is None,
    decreases hay.len() - from,
{
    if from >= 0 && from < hay.len() && from + pat.len() <= hay.len() {
    } else {
    }
}

/// Skip blanks from `from`; result is the offset of the first non-blank
/// character, or the length of `s`.
pub fn skip_spaces_exec(s: &str, from: usize) -> (r: usize)
    requires
        from <= s@.len(),
    ensures
        r == skip_spaces(s@, from as int),
        from <= r <= s@.len(),
        r < s@.len() ==> !is_space_char(s@[r as int]),
{
    let n = s.unicode_len();
    let mut i: usize = from;
    while i < n
        invariant
            n == s@.len(),
            from <= i <= n,
            skip_spaces(s@, from as int) == skip_spaces(s@, i as int),
        decreases n - i,
    {
        if !exec_is_space(s.get_char(i)) {
            return i;
        }
        i += 1;
    }
    i
}


/// What a successful search means: the position is in range, at or after
/// `from`, and the pattern fits inside the text there.
pub proof fn lemma_find_seq_from_some(hay: Seq<char>, pat: Seq<char>, from: int)
    ensures
        match find_seq_from(hay, pat, from) {
            Option::Some(p) => from <= p && p + pat.len() <= hay.len() && match_at(hay, pat, p),
            Option::None => true,
        },
    decreases hay.len() - from,
{
    if from < 0 || from + pat.len() > hay.len() {
    } else if match_at(hay, pat, from) {
    } else if from >= hay.len() {
    } else {
        lemma_find_seq_from_some(hay, pat, from + 1);
    }
}
} // verus!
