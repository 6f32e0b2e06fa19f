use vstd::prelude::*;

verus! {

/// Unicode `White_Space`, the set that `char::is_whitespace` and
/// `str::trim` use.
pub open spec fn is_ws(c: char) -> bool {
    let u = c as u32;
    ||| 0x09 <= u <= 0x0d
    ||| u == 0x20
    ||| u == 0x85
    ||| u == 0xa0
    ||| u == 0x1680
    ||| 0x2000 <= u <= 0x200a
    ||| u == 0x2028
    ||| u == 0x2029
    ||| u == 0x202f
    ||| u == 0x205f
    ||| u == 0x3000
}

/// The first index in `[i, to)` whose character is not white space, or `to`.
pub open spec fn skip_ws(s: Seq<char>, i: int, to: int) -> int
    decreases to - i,
{
    if i >= to || !is_ws(s[i]) {
        i
    } else {
        skip_ws(s, i + 1, to)
    }
}

/// The end of `[from, j)` once trailing white space is removed.
pub open spec fn back_ws(s: Seq<char>, from: int, j: int) -> int
    decreases j - from,
{
    if j <= from || !is_ws(s[j - 1]) {
        j
    } else {
        back_ws(s, from, j - 1)
    }
}

/// The bounds of `s[from..to]` without leading and trailing white space.
pub open spec fn trimmed(s: Seq<char>, from: int, to: int) -> (int, int) {
    let a = skip_ws(s, from, to);
    (a, back_ws(s, a, to))
}

/// The end of the run of non-white-space characters that starts at `i`.
pub open spec fn token_end(s: Seq<char>, i: int, to: int) -> int
    decreases to - i,
{
    if i >= to || is_ws(s[i]) {
        i
    } else {
        token_end(s, i + 1, to)
    }
}

/// The first index in `[i, to)` that holds `c`, or `to`.
pub open spec fn find_char(s: Seq<char>, i: int, to: int, c: char) -> int
    decreases to - i,
{
    if i >= to || s[i] == c {
        i
    } else {
        find_char(s, i + 1, to, c)
    }
}

pub proof fn lemma_skip_ws_bounds(s: Seq<char>, i: int, to: int)
    requires
        i <= to,
    ensures
        i <= skip_ws(s, i, to) <= to,
        skip_ws(s, i, to) < to ==> !is_ws(s[skip_ws(s, i, to)]),
    decreases to - i,
{
    if i < to && is_ws(s[i]) {
        lemma_skip_ws_bounds(s, i + 1, to);
    }
}

pub proof fn lemma_back_ws_bounds(s: Seq<char>, from: int, j: int)
    requires
        from <= j,
    ensures
        from <= back_ws(s, from, j) <= j,
    decreases j - from,
{
    if j > from && is_ws(s[j - 1]) {
        lemma_back_ws_bounds(s, from, j - 1);
    }
}

pub proof fn lemma_token_end_bounds(s: Seq<char>, i: int, to: int)
    requires
        i <= to,
    ensures
        i <= token_end(s, i, to) <= to,
    decreases to - i,
{
    if i < to && !is_ws(s[i]) {
        lemma_token_end_bounds(s, i + 1, to);
    }
}

pub proof fn lemma_find_char_bounds(s: Seq<char>, i: int, to: int, c: char)
    requires
        i <= to,
    ensures
        i <= find_char(s, i, to, c) <= to,
        find_char(s, i, to, c) < to ==> s[find_char(s, i, to, c)] == c,
    decreases to - i,
{
    if i < to && s[i] != c {
        lemma_find_char_bounds(s, i + 1, to, c);
    }
}

pub proof fn lemma_trimmed_bounds(s: Seq<char>, from: int, to: int)
    requires
        from <= to,
    ensures
        from <= trimmed(s, from, to).0 <= trimmed(s, from, to).1 <= to,
{
    lemma_skip_ws_bounds(s, from, to);
    lemma_back_ws_bounds(s, skip_ws(s, from, to), to);
}

pub fn is_whitespace_char(c: char) -> (r: bool)
    ensures
        r == is_ws(c),
{
    let u = c as u32;
    (0x09 <= u && u <= 0x0d) || u == 0x20 || u == 0x85 || u == 0xa0 || u == 0x1680 || (0x2000
        <= u && u <= 0x200a) || u == 0x2028 || u == 0x2029 || u == 0x202f || u == 0x205f || u
        == 0x3000
}

pub fn skip_ws_in(s: &[char], i: usize, to: usize) -> (r: usize)
    requires
        i <= to <= s@.len(),
    ensures
        r == skip_ws(s@, i as int, to as int),
        i <= r <= to,
{
    let mut k = i;
    while k < to && is_whitespace_char(s[k])
        invariant
            i <= k <= to <= s@.len(),
            skip_ws(s@, k as int, to as int) == skip_ws(s@, i as int, to as int),
        decreases to - k,
    {
        k = k + 1;
    }
    k
}

pub fn back_ws_in(s: &[char], from: usize, j: usize) -> (r: usize)
    requires
        from <= j <= s@.len(),
    ensures
        r == back_ws(s@, from as int, j as int),
        from <= r <= j,
{
    let mut k = j;
    while k > from && is_whitespace_char(s[k - 1])
        invariant
            from <= k <= j <= s@.len(),
            back_ws(s@, from as int, k as int) == back_ws(s@, from as int, j as int),
        decreases k - from,
    {
        k = k - 1;
    }
    k
}

pub fn trim_range(s: &[char], from: usize, to: usize) -> (r: (usize, usize))
    requires
        from <= to <= s@.len(),
    ensures
        r.0 as int == trimmed(s@, from as int, to as int).0,
        r.1 as int == trimmed(s@, from as int, to as int).1,
        from <= r.0 <= r.1 <= to,
{
    let a = skip_ws_in(s, from, to);
    let b = back_ws_in(s, a, to);
    (a, b)
}

pub fn token_end_in(s: &[char], i: usize, to: usize) -> (r: usize)
    requires
        i <= to <= s@.len(),
    ensures
        r == token_end(s@, i as int, to as int),
        i <= r <= to,
{
    let mut k = i;
    while k < to && !is_whitespace_char(s[k])
        invariant
            i <= k <= to <= s@.len(),
            token_end(s@, k as int, to as int) == token_end(s@, i as int, to as int),
        decreases to - k,
    {
        k = k + 1;
    }
    k
}

pub fn find_char_in(s: &[char], i: usize, to: usize, c: char) -> (r: usize)
    requires
        i <= to <= s@.len(),
    ensures
        r == find_char(s@, i as int, to as int, c),
        i <= r <= to,
{
    let mut k = i;
    while k < to && s[k] != c
        invariant
            i <= k <= to <= s@.len(),
            find_char(s@, k as int, to as int, c) == find_char(s@, i as int, to as int, c),
        decreases to - k,
    {
        k = k + 1;
    }
    k
}

/// Whether `s[from..to]` spells `lit`.
pub fn range_equals(s: &[char], from: usize, to: usize, lit: &[char]) -> (r: bool)
    requires
        from <= to <= s@.len(),
    ensures
        r == (s@.subrange(from as int, to as int) == lit@),
{
    if to - from != lit.len() {
        assert(s@.subrange(from as int, to as int).len() != lit@.len());
        return false;
    }
    let mut k: usize = 0;
    while k < lit.len()
        invariant
            to - from == lit@.len(),
            from <= to <= s@.len(),
            k <= lit@.len(),
            forall|j: int| 0 <= j < k ==> s@[from + j] == lit@[j],
        decreases lit@.len() - k,
    {
        if s[from + k] != lit[k] {
            assert(s@.subrange(from as int, to as int)[k as int] != lit@[k as int]);
            return false;
        }
        k = k + 1;
    }
    assert(s@.subrange(from as int, to as int) =~= lit@);
    true
}

} // verus!
