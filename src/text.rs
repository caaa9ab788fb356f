use vstd::prelude::*;

verus! {

/// `p` occurs in `s` at position `i`.
pub open spec fn starts_at(s: Seq<char>, i: int, p: Seq<char>) -> bool {
    0 <= i && i + p.len() <= s.len() && s.subrange(i, i + p.len()) == p
}

/// The first position in `[i, e)` that does not hold `c`, or `e`.
pub open spec fn skip_fwd(s: Seq<char>, i: int, e: int, c: char) -> int
    decreases e - i,
{
    if 0 <= i < e && i < s.len() && s[i] == c {
        skip_fwd(s, i + 1, e, c)
    } else {
        i
    }
}

/// The end of `s.subrange(lo, e)` once every trailing `c` is dropped.
pub open spec fn skip_back(s: Seq<char>, lo: int, e: int, c: char) -> int
    decreases e - lo,
{
    if lo < e && 0 < e <= s.len() && s[e - 1] == c {
        skip_back(s, lo, e - 1, c)
    } else {
        e
    }
}

/// A space or a tab.
pub open spec fn is_blank(c: char) -> bool {
    c == ' ' || c == '\t'
}

/// The first position from `i` on that is not a space or a tab.
pub open spec fn skip_blanks(s: Seq<char>, i: int) -> int
    decreases s.len() - i,
{
    if 0 <= i < s.len() && is_blank(s[i]) {
        skip_blanks(s, i + 1)
    } else {
        i
    }
}

/// The position of the first line feed from `i` on, or `s.len()`.
pub open spec fn line_end(s: Seq<char>, i: int) -> int
    decreases s.len() - i,
{
    if 0 <= i < s.len() && s[i] != '\n' {
        line_end(s, i + 1)
    } else {
        i
    }
}

/// `skip_fwd` stops at the first position of `[i, e)` that does not hold `c`.
pub proof fn lemma_skip_fwd_to(s: Seq<char>, i: int, j: int, e: int, c: char)
    requires
        0 <= i <= j <= e <= s.len(),
        forall|k: int| i <= k < j ==> s[k] == c,
        j < e ==> s[j] != c,
    ensures
        skip_fwd(s, i, e, c) == j,
    decreases j - i,
{
    if i < j {
        lemma_skip_fwd_to(s, i + 1, j, e, c);
    }
}

/// `skip_back` stops after the last position of `[lo, e)` that does not hold `c`.
pub proof fn lemma_skip_back_to(s: Seq<char>, lo: int, j: int, e: int, c: char)
    requires
        0 <= lo <= j <= e <= s.len(),
        forall|k: int| j <= k < e ==> s[k] == c,
        lo < j ==> s[j - 1] != c,
    ensures
        skip_back(s, lo, e, c) == j,
    decreases e - j,
{
    if j < e {
        lemma_skip_back_to(s, lo, j, e - 1, c);
    }
}

/// The characters of `s`, in order.
pub fn chars_of(s: &str) -> (r: Vec<char>)
    ensures
        r@ == s@,
{
    let mut r: Vec<char> = Vec::new();
    for c in it: s.chars()
        invariant
            r@ == it.seq().take(it.index() as int),
    {
        r.push(c);
    }
    r
}

/// Whether `p` occurs in `s` at position `i`.
pub fn has_at(s: &Vec<char>, i: usize, p: &Vec<char>) -> (r: bool)
    ensures
        r == starts_at(s@, i as int, p@),
        r ==> i + p.len() <= s.len(),
{
    if i > s.len() || p.len() > s.len() - i {
        return false;
    }
    let mut k: usize = 0;
    while k < p.len()
        invariant
            i + p.len() <= s.len(),
            k <= p.len(),
            forall|j: int| 0 <= j < k ==> s@[i + j] == p@[j],
        decreases p.len() - k,
    {
        if s[i + k] != p[k] {
            assert(s@.subrange(i as int, i + p.len())[k as int] != p@[k as int]);
            return false;
        }
        k = k + 1;
    }
    assert(s@.subrange(i as int, i + p.len()) =~= p@);
    true
}

/// Computes `skip_fwd`.
pub fn skip_fwd_exec(s: &Vec<char>, i: usize, e: usize, c: char) -> (r: usize)
    requires
        i <= e <= s.len(),
    ensures
        r == skip_fwd(s@, i as int, e as int, c),
        i <= r <= e,
{
    let mut k: usize = i;
    while k < e && s[k] == c
        invariant
            i <= k <= e <= s.len(),
            skip_fwd(s@, i as int, e as int, c) == skip_fwd(s@, k as int, e as int, c),
        decreases e - k,
    {
        k = k + 1;
    }
    k
}

/// Computes `skip_back`.
pub fn skip_back_exec(s: &Vec<char>, lo: usize, e: usize, c: char) -> (r: usize)
    requires
        lo <= e <= s.len(),
    ensures
        r == skip_back(s@, lo as int, e as int, c),
        lo <= r <= e,
{
    let mut k: usize = e;
    while lo < k && s[k - 1] == c
        invariant
            lo <= k <= e <= s.len(),
            skip_back(s@, lo as int, e as int, c) == skip_back(s@, lo as int, k as int, c),
        decreases k - lo,
    {
        k = k - 1;
    }
    k
}

/// Computes `skip_blanks`.
pub fn skip_blanks_exec(s: &Vec<char>, i: usize) -> (r: usize)
    requires
        i <= s.len(),
    ensures
        r == skip_blanks(s@, i as int),
        i <= r <= s.len(),
{
    let mut k: usize = i;
    while k < s.len() && (s[k] == ' ' || s[k] == '\t')
        invariant
            i <= k <= s.len(),
            skip_blanks(s@, i as int) == skip_blanks(s@, k as int),
        decreases s.len() - k,
    {
        k = k + 1;
    }
    k
}

/// Computes `line_end`.
pub fn line_end_exec(s: &Vec<char>, i: usize) -> (r: usize)
    requires
        i <= s.len(),
    ensures
        r == line_end(s@, i as int),
        i <= r <= s.len(),
{
    let mut k: usize = i;
    while k < s.len() && s[k] != '\n'
        invariant
            i <= k <= s.len(),
            line_end(s@, i as int) == line_end(s@, k as int),
        decreases s.len() - k,
    {
        k = k + 1;
    }
    k
}

} // verus!
