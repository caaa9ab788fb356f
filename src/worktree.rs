use vstd::prelude::*;

use crate::error::Error;
use crate::text::{
    chars_of, has_at, is_blank, lemma_skip_back_to, lemma_skip_fwd_to, line_end, line_end_exec, skip_back, skip_back_exec, skip_blanks,
    skip_blanks_exec, skip_fwd, skip_fwd_exec, starts_at,
};

verus! {

/// One entry of the machine-readable worktree listing.
#[derive(Debug, PartialEq, Clone)]
pub struct Worktree {
    pub worktree: String,
    pub bare: bool,
    pub head: Option<String>,
    pub branch: Option<String>,
}

/// What a `Worktree` holds, as character sequences.
pub struct WorktreeModel {
    pub worktree: Seq<char>,
    pub bare: bool,
    pub head: Option<Seq<char>>,
    pub branch: Option<Seq<char>>,
}

/// The characters of an optional string.
pub open spec fn opt_view(o: Option<String>) -> Option<Seq<char>> {
    match o {
        Some(s) => Some(s@),
        None => None,
    }
}

impl View for Worktree {
    type V = WorktreeModel;

    open spec fn view(&self) -> WorktreeModel {
        WorktreeModel {
            worktree: self.worktree@,
            bare: self.bare,
            head: opt_view(self.head),
            branch: opt_view(self.branch),
        }
    }
}

impl WorktreeModel {
    /// A bare entry has neither a commit nor a branch; any other has both.
    pub open spec fn wf(self) -> bool {
        &&& self.bare <==> self.head is None
        &&& self.bare <==> self.branch is None
    }
}

/// The value of a line that starts at `a`: it runs to the next line feed, with
/// the double quotes at both of its ends dropped. Gives the value's bounds and
/// the start of the next line; none where no line feed ends the line.
pub open spec fn value_span(s: Seq<char>, a: int) -> Option<(int, int, int)> {
    let e = line_end(s, a);
    if e < s.len() {
        let lo = skip_fwd(s, a, e, '"');
        Some((lo, skip_back(s, lo, e, '"'), e + 1))
    } else {
        None
    }
}

/// A `key value` line at `i`: the key, then spaces or tabs, then the value.
pub open spec fn field_span(s: Seq<char>, i: int, key: Seq<char>) -> Option<(int, int, int)> {
    if starts_at(s, i, key) {
        value_span(s, skip_blanks(s, i + key.len()))
    } else {
        None
    }
}

/// A `branch refs/heads/<name>` line at `i`; the value is `<name>`.
pub open spec fn branch_span(s: Seq<char>, i: int) -> Option<(int, int, int)> {
    if starts_at(s, i, "branch"@) {
        let a = skip_blanks(s, i + "branch"@.len());
        if starts_at(s, a, "refs/heads/"@) {
            value_span(s, a + "refs/heads/"@.len())
        } else {
            None
        }
    } else {
        None
    }
}

/// The `HEAD` and `branch` lines at `i`, in either order: commit, branch and
/// the position after both.
pub open spec fn checked_out(s: Seq<char>, i: int) -> Option<(Seq<char>, Seq<char>, int)> {
    match field_span(s, i, "HEAD"@) {
        Some((hl, hh, j)) => match branch_span(s, j) {
            Some((bl, bh, k)) => Some((s.subrange(hl, hh), s.subrange(bl, bh), k)),
            None => None,
        },
        None => match branch_span(s, i) {
            Some((bl, bh, j)) => match field_span(s, j, "HEAD"@) {
                Some((hl, hh, k)) => Some((s.subrange(hl, hh), s.subrange(bl, bh), k)),
                None => None,
            },
            None => None,
        },
    }
}

/// One stanza at the start of `s`: a `worktree` line, then either a `bare`
/// line or the `HEAD` and `branch` lines. Gives the record and the position
/// after it; what follows is left alone.
pub open spec fn stanza(s: Seq<char>) -> Option<(WorktreeModel, int)> {
    match field_span(s, 0, "worktree"@) {
        None => None,
        Some((wl, wh, i)) => {
            let w = s.subrange(wl, wh);
            if starts_at(s, i, "bare\n"@) {
                Some((WorktreeModel { worktree: w, bare: true, head: None, branch: None }, i + 5))
            } else {
                match checked_out(s, i) {
                    Some((h, b, j)) => Some(
                        (WorktreeModel { worktree: w, bare: false, head: Some(h), branch: Some(b) }, j),
                    ),
                    None => None,
                }
            }
        },
    }
}

/// A span of positions, as integers.
pub open spec fn span_of(r: Option<(usize, usize, usize)>) -> Option<(int, int, int)> {
    match r {
        Some((a, b, c)) => Some((a as int, b as int, c as int)),
        None => None,
    }
}

/// What a span in bounds of `s` looks like.
pub open spec fn span_ok(r: Option<(usize, usize, usize)>, len: int) -> bool {
    match r {
        Some((lo, hi, n)) => lo <= hi < n <= len,
        None => true,
    }
}

fn value_at(s: &Vec<char>, a: usize) -> (r: Option<(usize, usize, usize)>)
    requires
        a <= s.len(),
    ensures
        span_of(r) == value_span(s@, a as int),
        span_ok(r, s.len() as int),
{
    let e = line_end_exec(s, a);
    if e < s.len() {
        let lo = skip_fwd_exec(s, a, e, '"');
        let hi = skip_back_exec(s, lo, e, '"');
        Some((lo, hi, e + 1))
    } else {
        None
    }
}

fn field_at(s: &Vec<char>, i: usize, key: &Vec<char>) -> (r: Option<(usize, usize, usize)>)
    ensures
        span_of(r) == field_span(s@, i as int, key@),
        span_ok(r, s.len() as int),
{
    if has_at(s, i, key) {
        let a = skip_blanks_exec(s, i + key.len());
        value_at(s, a)
    } else {
        None
    }
}

fn branch_at(s: &Vec<char>, i: usize) -> (r: Option<(usize, usize, usize)>)
    ensures
        span_of(r) == branch_span(s@, i as int),
        span_ok(r, s.len() as int),
{
    let key = chars_of("branch");
    let prefix = chars_of("refs/heads/");
    if has_at(s, i, &key) {
        let a = skip_blanks_exec(s, i + key.len());
        if has_at(s, a, &prefix) {
            value_at(s, a + prefix.len())
        } else {
            None
        }
    } else {
        None
    }
}

fn checked_out_at(s: &Vec<char>, i: usize) -> (r: Option<(usize, usize, usize, usize, usize)>)
    ensures
        match r {
            Some((hl, hh, bl, bh, k)) => {
                &&& checked_out(s@, i as int) == Some(
                    (s@.subrange(hl as int, hh as int), s@.subrange(bl as int, bh as int), k as int),
                )
                &&& hl <= hh <= s.len()
                &&& bl <= bh <= s.len()
                &&& k <= s.len()
            },
            None => checked_out(s@, i as int) is None,
        },
{
    let head = chars_of("HEAD");
    match field_at(s, i, &head) {
        Some((hl, hh, j)) => match branch_at(s, j) {
            Some((bl, bh, k)) => Some((hl, hh, bl, bh, k)),
            None => None,
        },
        None => match branch_at(s, i) {
            Some((bl, bh, j)) => match field_at(s, j, &head) {
                Some((hl, hh, k)) => Some((hl, hh, bl, bh, k)),
                None => None,
            },
            None => None,
        },
    }
}

/// What is left after a field, and the field's value.
pub open spec fn field_result(s: Seq<char>, sp: Option<(int, int, int)>) -> Option<(Seq<char>, Seq<char>)> {
    match sp {
        Some((lo, hi, n)) => Some((s.subrange(n, s.len() as int), s.subrange(lo, hi))),
        None => None,
    }
}

/// What a field reader returns, as character sequences.
pub open spec fn pair_view(r: Option<(&str, String)>) -> Option<(Seq<char>, Seq<char>)> {
    match r {
        Some((rest, v)) => Some((rest@, v@)),
        None => None,
    }
}

/// What is left after a stanza, and its record.
pub open spec fn stanza_result(s: Seq<char>) -> Option<(Seq<char>, WorktreeModel)> {
    match stanza(s) {
        Some((m, n)) => Some((s.subrange(n, s.len() as int), m)),
        None => None,
    }
}

impl Worktree {
    /// Reads a `<field> <value>` line at the start of `input`.
    pub fn parse_field<'a>(input: &'a str, field: &str) -> (r: Option<(&'a str, String)>)
        ensures
            pair_view(r) == field_result(input@, field_span(input@, 0, field@)),
    {
        let s = chars_of(input);
        let key = chars_of(field);
        match field_at(&s, 0, &key) {
            Some((lo, hi, n)) => {
                let value = String::from_str(input.substring_char(lo, hi));
                Some((input.substring_char(n, s.len()), value))
            },
            None => None,
        }
    }

    /// Reads the `worktree <path>` line at the start of `input`.
    pub fn parse_worktree<'a>(input: &'a str) -> (r: Option<(&'a str, String)>)
        ensures
            pair_view(r) == field_result(input@, field_span(input@, 0, "worktree"@)),
    {
        Self::parse_field(input, "worktree")
    }

    /// Reads the `HEAD <commit>` line at the start of `input`.
    pub fn parse_head<'a>(input: &'a str) -> (r: Option<(&'a str, String)>)
        ensures
            pair_view(r) == field_result(input@, field_span(input@, 0, "HEAD"@)),
    {
        Self::parse_field(input, "HEAD")
    }

    /// Reads the `branch refs/heads/<name>` line at the start of `input`;
    /// the value is `<name>`.
    pub fn parse_branch<'a>(input: &'a str) -> (r: Option<(&'a str, String)>)
        ensures
            pair_view(r) == field_result(input@, branch_span(input@, 0)),
    {
        let s = chars_of(input);
        match branch_at(&s, 0) {
            Some((lo, hi, n)) => {
                let value = String::from_str(input.substring_char(lo, hi));
                Some((input.substring_char(n, s.len()), value))
            },
            None => None,
        }
    }

    /// Reads one stanza at the start of `input`.
    pub fn parse<'a>(input: &'a str) -> (r: Option<(&'a str, Worktree)>)
        ensures
            match r {
                Some((rest, w)) => {
                    &&& stanza_result(input@) == Some((rest@, w@))
                    &&& stanza_record(input@) == if rest@.len() == 0 {
                        Some(w@)
                    } else {
                        None
                    }
                },
                None => stanza_result(input@) is None,
            },
    {
        let s = chars_of(input);
        let key = chars_of("worktree");
        let bare = chars_of("bare\n");
        match field_at(&s, 0, &key) {
            None => None,
            Some((wl, wh, i)) => {
                let worktree = String::from_str(input.substring_char(wl, wh));
                if has_at(&s, i, &bare) {
                    proof {
                        reveal_strlit("bare\n");
                    }
                    let w = Worktree { worktree, bare: true, head: None, branch: None };
                    Some((input.substring_char(i + bare.len(), s.len()), w))
                } else {
                    match checked_out_at(&s, i) {
                        Some((hl, hh, bl, bh, k)) => {
                            let head = String::from_str(input.substring_char(hl, hh));
                            let branch = String::from_str(input.substring_char(bl, bh));
                            let w = Worktree {
                                worktree,
                                bare: false,
                                head: Some(head),
                                branch: Some(branch),
                            };
                            Some((input.substring_char(k, s.len()), w))
                        },
                        None => None,
                    }
                }
            },
        }
    }
}

/// The record of `s` when `s` is exactly one stanza, with nothing after it.
pub open spec fn stanza_record(s: Seq<char>) -> Option<WorktreeModel> {
    match stanza(s) {
        Some((m, n)) => if n == s.len() {
            Some(m)
        } else {
            None
        },
        None => None,
    }
}

/// `s` cut at each blank line (two line feeds in a row), left to right.
pub open spec fn split_blank(s: Seq<char>) -> Seq<Seq<char>>
    decreases s.len(),
{
    if s.len() == 0 {
        seq![Seq::empty()]
    } else if s.len() >= 2 && s[0] == '\n' && s[1] == '\n' {
        seq![Seq::empty()] + split_blank(s.subrange(2, s.len() as int))
    } else {
        let r = split_blank(s.drop_first());
        r.update(0, seq![s[0]] + r[0])
    }
}

/// `r` with `cur` put in front of its first piece.
pub open spec fn glue(cur: Seq<char>, r: Seq<Seq<char>>) -> Seq<Seq<char>> {
    r.update(0, cur + r[0])
}

/// The records of the pieces, each read as a stanza that a line feed ends;
/// or the first piece that is no stanza.
pub open spec fn parse_stanzas(ps: Seq<Seq<char>>) -> Result<Seq<WorktreeModel>, Seq<char>>
    decreases ps.len(),
{
    if ps.len() == 0 {
        Ok(Seq::empty())
    } else {
        match parse_stanzas(ps.drop_last()) {
            Err(e) => Err(e),
            Ok(rs) => match stanza_record(ps.last() + seq!['\n']) {
                Some(m) => Ok(rs.push(m)),
                None => Err(ps.last()),
            },
        }
    }
}

/// The records of a whole listing: line feeds at both ends are dropped, the
/// rest is cut at blank lines, and each piece must be a stanza. Nothing left
/// gives no records. An error holds the first piece that is no stanza.
pub open spec fn parse_listing(s: Seq<char>) -> Result<Seq<WorktreeModel>, Seq<char>> {
    let lo = skip_fwd(s, 0, s.len() as int, '\n');
    let hi = skip_back(s, lo, s.len() as int, '\n');
    if lo == hi {
        Ok(Seq::empty())
    } else {
        parse_stanzas(split_blank(s.subrange(lo, hi)))
    }
}

/// The records of a list of entries.
pub open spec fn models(v: Seq<Worktree>) -> Seq<WorktreeModel> {
    v.map_values(|w: Worktree| w@)
}

/// The error that reports `piece` as no stanza.
pub open spec fn is_parse_error(e: Error, piece: Seq<char>) -> bool {
    match e {
        Error::Parse(m) => m@ == "invalid worktree entry: "@ + piece,
        _ => false,
    }
}

proof fn lemma_split_nonempty(s: Seq<char>)
    ensures
        split_blank(s).len() >= 1,
    decreases s.len(),
{
    if s.len() == 0 {
    } else if s.len() >= 2 && s[0] == '\n' && s[1] == '\n' {
        lemma_split_nonempty(s.subrange(2, s.len() as int));
    } else {
        lemma_split_nonempty(s.drop_first());
    }
}

proof fn lemma_glue_step(cur: Seq<char>, rest: Seq<char>)
    requires
        rest.len() >= 1,
        !(rest.len() >= 2 && rest[0] == '\n' && rest[1] == '\n'),
    ensures
        glue(cur, split_blank(rest)) == glue(cur.push(rest[0]), split_blank(rest.drop_first())),
{
    lemma_split_nonempty(rest.drop_first());
    let r = split_blank(rest.drop_first());
    assert(cur + (seq![rest[0]] + r[0]) =~= cur.push(rest[0]) + r[0]);
    assert(glue(cur, split_blank(rest)) =~= glue(cur.push(rest[0]), r));
}

proof fn lemma_glue_cut(cur: Seq<char>, rest: Seq<char>)
    requires
        rest.len() >= 2,
        rest[0] == '\n',
        rest[1] == '\n',
    ensures
        glue(cur, split_blank(rest)) == seq![cur] + glue(
            Seq::empty(),
            split_blank(rest.subrange(2, rest.len() as int)),
        ),
{
    let r = split_blank(rest.subrange(2, rest.len() as int));
    lemma_split_nonempty(rest.subrange(2, rest.len() as int));
    assert(Seq::<char>::empty() + r[0] =~= r[0]);
    assert(cur + Seq::<char>::empty() =~= cur);
    assert(glue(cur, split_blank(rest)) =~= seq![cur] + glue(Seq::empty(), r));
}

proof fn lemma_err_prefix(a: Seq<Seq<char>>, b: Seq<Seq<char>>)
    requires
        parse_stanzas(a) is Err,
    ensures
        parse_stanzas(a + b) == parse_stanzas(a),
    decreases b.len(),
{
    if b.len() == 0 {
        assert(a + b =~= a);
    } else {
        lemma_err_prefix(a, b.drop_last());
        assert((a + b).drop_last() =~= a + b.drop_last());
    }
}

impl Worktree {
    /// Reads the stanza `input.subrange(a, b)`, with a line feed added.
    fn parse_piece(input: &str, a: usize, b: usize) -> (r: Result<Worktree, Error>)
        requires
            a <= b <= input@.len(),
        ensures
            match r {
                Ok(w) => stanza_record(input@.subrange(a as int, b as int) + seq!['\n']) == Some(w@),
                Err(e) => {
                    &&& stanza_record(input@.subrange(a as int, b as int) + seq!['\n']) is None
                    &&& is_parse_error(e, input@.subrange(a as int, b as int))
                },
            },
    {
        let piece = input.substring_char(a, b);
        let mut text = String::from_str(piece);
        text.append("\n");
        proof {
            reveal_strlit("\n");
        }
        assert(text@ =~= piece@ + seq!['\n']);
        let parsed = Self::parse(text.as_str());
        match parsed {
            Some((rest, w)) if rest.is_empty() => Ok(w),
            _ => {
                let mut msg = String::from_str("invalid worktree entry: ");
                msg.append(piece);
                Err(Error::Parse(msg))
            },
        }
    }

    /// Reads a whole worktree listing into its records, in listing order.
    #[verifier::rlimit(50)]
    pub fn from_string(input: &str) -> (r: Result<Vec<Worktree>, Error>)
        ensures
            match r {
                Ok(v) => parse_listing(input@) == Ok::<Seq<WorktreeModel>, Seq<char>>(models(v@)),
                Err(e) => match parse_listing(input@) {
                    Err(piece) => is_parse_error(e, piece),
                    Ok(_) => false,
                },
            },
    {
        let s = chars_of(input);
        let n = s.len();
        let lo = skip_fwd_exec(&s, 0, n, '\n');
        let hi = skip_back_exec(&s, lo, n, '\n');
        let mut out: Vec<Worktree> = Vec::new();
        if lo == hi {
            assert(models(out@) =~= Seq::empty());
            return Ok(out);
        }
        let ghost t = s@.subrange(lo as int, hi as int);
        let ghost mut done: Seq<Seq<char>> = Seq::empty();
        let mut start: usize = lo;
        let mut i: usize = lo;
        proof {
            lemma_split_nonempty(t);
            assert(s@.subrange(lo as int, lo as int) =~= Seq::<char>::empty());
            assert(glue(Seq::empty(), split_blank(t)) =~= split_blank(t));
            assert(done + split_blank(t) =~= split_blank(t));
            assert(models(out@) =~= Seq::empty());
        }
        while i < hi
            invariant
                lo <= start <= i <= hi <= n,
                n == s.len(),
                lo == skip_fwd(s@, 0, n as int, '\n'),
                hi == skip_back(s@, lo as int, n as int, '\n'),
                lo != hi,
                s@ == input@,
                t == s@.subrange(lo as int, hi as int),
                split_blank(t) == done + glue(
                    s@.subrange(start as int, i as int),
                    split_blank(s@.subrange(i as int, hi as int)),
                ),
                parse_stanzas(done) == Ok::<Seq<WorktreeModel>, Seq<char>>(models(out@)),
            decreases hi - i,
        {
            let ghost cur = s@.subrange(start as int, i as int);
            let ghost rest = s@.subrange(i as int, hi as int);
            if i + 1 < hi && s[i] == '\n' && s[i + 1] == '\n' {
                proof {
                    lemma_glue_cut(cur, rest);
                    assert(rest.subrange(2, rest.len() as int) =~= s@.subrange(i + 2, hi as int));
                    assert(s@.subrange(i + 2, i + 2) =~= Seq::<char>::empty());
                }
                let ghost next = done.push(cur);
                assert(next.drop_last() =~= done);
                match Self::parse_piece(input, start, i) {
                    Ok(w) => {
                        let ghost before = out@;
                        out.push(w);
                        proof {
                            assert(out@.drop_last() =~= before);
                            assert(models(out@) =~= models(before).push(w@));
                        }
                    },
                    Err(e) => {
                        proof {
                            assert(next.last() == cur);
                            assert(parse_stanzas(next) == Err::<Seq<WorktreeModel>, Seq<char>>(cur));
                            lemma_err_prefix(next, split_blank(t).subrange(next.len() as int, split_blank(t).len() as int));
                            assert(next + split_blank(t).subrange(next.len() as int, split_blank(t).len() as int) =~= split_blank(t));
                            assert(parse_stanzas(split_blank(t)) == Err::<Seq<WorktreeModel>, Seq<char>>(cur));
                            assert(parse_listing(input@) == parse_stanzas(split_blank(t)));
                        }
                        return Err(e);
                    },
                }
                proof {
                    done = next;
                    assert(split_blank(t) =~= done + glue(
                        s@.subrange(i + 2, i + 2),
                        split_blank(s@.subrange(i + 2, hi as int)),
                    ));
                }
                i = i + 2;
                start = i;
            } else {
                proof {
                    lemma_glue_step(cur, rest);
                    assert(cur.push(rest[0]) =~= s@.subrange(start as int, i + 1));
                    assert(rest.drop_first() =~= s@.subrange(i + 1, hi as int));
                }
                i = i + 1;
            }
        }
        let ghost cur = s@.subrange(start as int, hi as int);
        proof {
            assert(s@.subrange(hi as int, hi as int) =~= Seq::<char>::empty());
            assert(glue(cur, split_blank(Seq::empty())) =~= seq![cur]);
            assert(done.push(cur).drop_last() =~= done);
            assert(split_blank(t) =~= done.push(cur));
        }
        match Self::parse_piece(input, start, hi) {
            Ok(w) => {
                let ghost before = out@;
                out.push(w);
                proof {
                    assert(out@.drop_last() =~= before);
                    assert(models(out@) =~= models(before).push(w@));
                }
                Ok(out)
            },
            Err(e) => Err(e),
        }
    }
}

/// A value that a line carries unchanged: no line feed in it, no space, tab
/// or double quote at its start and no double quote at its end.
pub open spec fn plain(v: Seq<char>) -> bool {
    &&& forall|k: int| 0 <= k < v.len() ==> v[k] != '\n'
    &&& v.len() > 0 ==> !is_blank(v[0]) && v[0] != '"' && v.last() != '"'
}

proof fn lemma_line_end(s: Seq<char>, i: int, j: int)
    requires
        0 <= i <= j < s.len(),
        forall|k: int| i <= k < j ==> s[k] != '\n',
        s[j] == '\n',
    ensures
        line_end(s, i) == j,
    decreases j - i,
{
    if i < j {
        lemma_line_end(s, i + 1, j);
    }
}

/// The value `v` of a line at `a`, that a line feed ends.
proof fn lemma_value(s: Seq<char>, a: int, v: Seq<char>)
    requires
        0 <= a,
        a + v.len() < s.len(),
        s.subrange(a, a + v.len()) == v,
        s[a + v.len()] == '\n',
        plain(v),
    ensures
        value_span(s, a) == Some((a, a + v.len(), a + v.len() + 1)),
{
    assert forall|k: int| a <= k < a + v.len() implies s[k] != '\n' by {
        assert(s[k] == s.subrange(a, a + v.len())[k - a]);
    }
    lemma_line_end(s, a, a + v.len());
    if v.len() > 0 {
        assert(s[a] == v[0]);
        assert(s[a + v.len() - 1] == v.last());
    }
}

/// A line `key v` at `i`, with one space between key and value.
proof fn lemma_field(s: Seq<char>, i: int, key: Seq<char>, v: Seq<char>)
    requires
        0 <= i,
        i + key.len() + v.len() + 2 <= s.len(),
        s.subrange(i, i + key.len() + v.len() + 2) == key + seq![' '] + v + seq!['\n'],
        plain(v),
    ensures
        field_span(s, i, key) == Some(
            (i + key.len() + 1, i + key.len() + 1 + v.len(), i + key.len() + v.len() + 2),
        ),
{
    let line = key + seq![' '] + v + seq!['\n'];
    let a = i + key.len() + 1;
    assert(s.subrange(i, i + key.len()) =~= key) by {
        assert forall|k: int| 0 <= k < key.len() implies s.subrange(i, i + key.len())[k] == key[k] by {
            assert(s[i + k] == line[k]);
        }
    }
    assert(s[a - 1] == line[key.len() as int]);
    assert(s[a + v.len()] == line[key.len() + 1 + v.len() as int]);
    assert(s.subrange(a, a + v.len()) =~= v) by {
        assert forall|k: int| 0 <= k < v.len() implies s.subrange(a, a + v.len())[k] == v[k] by {
            assert(s[a + k] == line[key.len() + 1 + k]);
        }
    }
    if v.len() > 0 {
        assert(s[a] == line[key.len() + 1 as int]);
    } else {
        assert(s[a] == line[key.len() + 1 as int]);
    }
    assert(skip_blanks(s, a) == a);
    assert(skip_blanks(s, a - 1) == a);
    lemma_value(s, a, v);
}

/// A line `branch refs/heads/v` at `i`.
proof fn lemma_branch(s: Seq<char>, i: int, v: Seq<char>)
    requires
        0 <= i,
        i + v.len() + 19 <= s.len(),
        s.subrange(i, i + v.len() + 19) == "branch"@ + seq![' '] + ("refs/heads/"@ + v) + seq!['\n'],
        plain(v),
    ensures
        branch_span(s, i) == Some((i + 18, i + 18 + v.len(), i + v.len() + 19)),
{
    reveal_strlit("branch");
    reveal_strlit("refs/heads/");
    let w = "refs/heads/"@ + v;
    let line = "branch"@ + seq![' '] + w + seq!['\n'];
    assert(s.subrange(i, i + 6) =~= "branch"@) by {
        assert forall|k: int| 0 <= k < 6 implies s.subrange(i, i + 6)[k] == "branch"@[k] by {
            assert(s[i + k] == line[k]);
        }
    }
    assert(s[i + 6] == line[6]);
    assert(s[i + 7] == line[7]);
    assert(skip_blanks(s, i + 7) == i + 7);
    assert(skip_blanks(s, i + 6) == i + 7);
    assert(s.subrange(i + 7, i + 18) =~= "refs/heads/"@) by {
        assert forall|k: int| 0 <= k < 11 implies s.subrange(i + 7, i + 18)[k] == "refs/heads/"@[k] by {
            assert(s[i + 7 + k] == line[7 + k]);
        }
    }
    assert(s.subrange(i + 18, i + 18 + v.len()) =~= v) by {
        assert forall|k: int| 0 <= k < v.len() implies s.subrange(i + 18, i + 18 + v.len())[k] == v[k] by {
            assert(s[i + 18 + k] == line[18 + k]);
        }
    }
    assert(s[i + 18 + v.len()] == line[18 + v.len() as int]);
    lemma_value(s, i + 18, v);
}

/// A bare stanza `worktree P`, `bare` reads as the bare record of `P`, and
/// nothing of it is left over.
pub proof fn lemma_bare_stanza(p: Seq<char>)
    requires
        plain(p),
    ensures
        stanza_result("worktree "@ + p + "\nbare\n"@) == Some(
            (
                Seq::<char>::empty(),
                WorktreeModel { worktree: p, bare: true, head: None, branch: None },
            ),
        ),
        stanza_record("worktree "@ + p + "\nbare\n"@) == Some(
            WorktreeModel { worktree: p, bare: true, head: None, branch: None },
        ),
{
    reveal_strlit("worktree ");
    reveal_strlit("worktree");
    reveal_strlit("\nbare\n");
    reveal_strlit("bare\n");
    let s = "worktree "@ + p + "\nbare\n"@;
    let n = p.len() as int;
    assert(s.subrange(0, 8 + n + 2) =~= "worktree"@ + seq![' '] + p + seq!['\n']);
    lemma_field(s, 0, "worktree"@, p);
    assert(s.subrange(n + 10, n + 15) =~= "bare\n"@);
    assert(s.subrange(9, 9 + n) =~= p);
    assert(s.subrange(n + 15, s.len() as int) =~= Seq::<char>::empty());
}

/// A checked-out stanza `worktree P`, `HEAD H`, `branch refs/heads/B` reads
/// as the record of `P`, `H` and `B`, and nothing of it is left over.
pub proof fn lemma_head_then_branch(p: Seq<char>, h: Seq<char>, b: Seq<char>)
    requires
        plain(p),
        plain(h),
        plain(b),
    ensures
        stanza_result("worktree "@ + p + "\nHEAD "@ + h + "\nbranch refs/heads/"@ + b + "\n"@) == Some(
            (
                Seq::<char>::empty(),
                WorktreeModel { worktree: p, bare: false, head: Some(h), branch: Some(b) },
            ),
        ),
        stanza_record("worktree "@ + p + "\nHEAD "@ + h + "\nbranch refs/heads/"@ + b + "\n"@) == Some(
            WorktreeModel { worktree: p, bare: false, head: Some(h), branch: Some(b) },
        ),
{
    reveal_strlit("worktree ");
    reveal_strlit("worktree");
    reveal_strlit("\nHEAD ");
    reveal_strlit("HEAD");
    reveal_strlit("\nbranch refs/heads/");
    reveal_strlit("branch");
    reveal_strlit("refs/heads/");
    reveal_strlit("\n");
    reveal_strlit("bare\n");
    let s = "worktree "@ + p + "\nHEAD "@ + h + "\nbranch refs/heads/"@ + b + "\n"@;
    let np = p.len() as int;
    let nh = h.len() as int;
    let nb = b.len() as int;
    let i = np + 10;
    let j = i + nh + 6;
    assert(s.subrange(0, np + 10) =~= "worktree"@ + seq![' '] + p + seq!['\n']);
    lemma_field(s, 0, "worktree"@, p);
    assert(s[i] == 'H');
    assert(!starts_at(s, i, "bare\n"@)) by {
        assert(s.subrange(i, i + 5)[0] == 'H');
    }
    assert(s.subrange(i, j) =~= "HEAD"@ + seq![' '] + h + seq!['\n']);
    lemma_field(s, i, "HEAD"@, h);
    assert(s.subrange(j, j + nb + 19) =~= "branch"@ + seq![' '] + ("refs/heads/"@ + b) + seq!['\n']);
    lemma_branch(s, j, b);
    assert(s.subrange(9, 9 + np) =~= p);
    assert(s.subrange(i + 5, i + 5 + nh) =~= h);
    assert(s.subrange(j + 18, j + 18 + nb) =~= b);
    assert(s.subrange(j + nb + 19, s.len() as int) =~= Seq::<char>::empty());
}

/// A checked-out stanza `worktree P`, `branch refs/heads/B`, `HEAD H` reads
/// as the record of `P`, `H` and `B`, and nothing of it is left over.
pub proof fn lemma_branch_then_head(p: Seq<char>, h: Seq<char>, b: Seq<char>)
    requires
        plain(p),
        plain(h),
        plain(b),
    ensures
        stanza_result("worktree "@ + p + "\nbranch refs/heads/"@ + b + "\nHEAD "@ + h + "\n"@) == Some(
            (
                Seq::<char>::empty(),
                WorktreeModel { worktree: p, bare: false, head: Some(h), branch: Some(b) },
            ),
        ),
        stanza_record("worktree "@ + p + "\nbranch refs/heads/"@ + b + "\nHEAD "@ + h + "\n"@) == Some(
            WorktreeModel { worktree: p, bare: false, head: Some(h), branch: Some(b) },
        ),
{
    reveal_strlit("worktree ");
    reveal_strlit("worktree");
    reveal_strlit("\nHEAD ");
    reveal_strlit("HEAD");
    reveal_strlit("\nbranch refs/heads/");
    reveal_strlit("branch");
    reveal_strlit("refs/heads/");
    reveal_strlit("\n");
    reveal_strlit("bare\n");
    let s = "worktree "@ + p + "\nbranch refs/heads/"@ + b + "\nHEAD "@ + h + "\n"@;
    let np = p.len() as int;
    let nh = h.len() as int;
    let nb = b.len() as int;
    let i = np + 10;
    let j = i + nb + 19;
    assert(s.subrange(0, np + 10) =~= "worktree"@ + seq![' '] + p + seq!['\n']);
    lemma_field(s, 0, "worktree"@, p);
    assert(!starts_at(s, i, "bare\n"@)) by {
        assert(s.subrange(i, i + 5)[1] == 'r');
    }
    assert(field_span(s, i, "HEAD"@) is None) by {
        assert(s.subrange(i, i + 4)[0] == 'b');
    }
    assert(s.subrange(i, j) =~= "branch"@ + seq![' '] + ("refs/heads/"@ + b) + seq!['\n']);
    lemma_branch(s, i, b);
    assert(s.subrange(j, j + nh + 6) =~= "HEAD"@ + seq![' '] + h + seq!['\n']);
    lemma_field(s, j, "HEAD"@, h);
    assert(s.subrange(9, 9 + np) =~= p);
    assert(s.subrange(j + 5, j + 5 + nh) =~= h);
    assert(s.subrange(i + 18, i + 18 + nb) =~= b);
    assert(s.subrange(j + nh + 6, s.len() as int) =~= Seq::<char>::empty());
}

/// A record that a stanza can carry: its values are plain and it is bare
/// exactly when it has neither commit nor branch.
pub open spec fn valid(m: WorktreeModel) -> bool {
    &&& m.wf()
    &&& plain(m.worktree)
    &&& m.head matches Some(h) ==> plain(h)
    &&& m.branch matches Some(b) ==> plain(b)
}

/// The stanza of a record, without its final line feed; a checked-out one
/// gives its `HEAD` line first when `head_first`, else its `branch` line.
pub open spec fn render(m: WorktreeModel, head_first: bool) -> Seq<char> {
    if m.bare {
        "worktree "@ + m.worktree + "\nbare"@
    } else if head_first {
        "worktree "@ + m.worktree + "\nHEAD "@ + m.head->0 + "\nbranch refs/heads/"@ + m.branch->0
    } else {
        "worktree "@ + m.worktree + "\nbranch refs/heads/"@ + m.branch->0 + "\nHEAD "@ + m.head->0
    }
}

/// The stanzas of `ms`, each in the field order that `hf` gives it, a blank
/// line between each two.
pub open spec fn join_stanzas(ms: Seq<WorktreeModel>, hf: Seq<bool>) -> Seq<char>
    decreases ms.len(),
{
    if ms.len() <= 1 {
        if ms.len() == 0 {
            Seq::empty()
        } else {
            render(ms[0], hf[0])
        }
    } else {
        render(ms[0], hf[0]) + "\n\n"@ + join_stanzas(ms.drop_first(), hf.drop_first())
    }
}

/// The stanzas of `ms`, one piece each.
pub open spec fn rendered(ms: Seq<WorktreeModel>, hf: Seq<bool>) -> Seq<Seq<char>> {
    Seq::new(ms.len(), |i: int| render(ms[i], hf[i]))
}

/// `n` line feeds.
pub open spec fn line_feeds(n: nat) -> Seq<char> {
    Seq::new(n, |i: int| '\n')
}

/// No two line feeds in a row, and none at the end.
pub open spec fn no_blank(x: Seq<char>) -> bool {
    forall|i: int| 0 <= i < x.len() && #[trigger] x[i] == '\n' ==> i + 1 < x.len() && x[i + 1] != '\n'
}

proof fn lemma_split_one(x: Seq<char>, y: Seq<char>)
    requires
        no_blank(x),
    ensures
        split_blank(x + "\n\n"@ + y) == seq![x] + split_blank(y),
        split_blank(x) == seq![x],
    decreases x.len(),
{
    reveal_strlit("\n\n");
    let z = x + "\n\n"@ + y;
    if x.len() == 0 {
        assert(z.subrange(2, z.len() as int) =~= y);
        assert(x =~= Seq::<char>::empty());
    } else {
        let t = x.drop_first();
        assert(no_blank(t)) by {
            assert forall|i: int| 0 <= i < t.len() && #[trigger] t[i] == '\n' implies i + 1 < t.len() && t[i + 1] != '\n' by {
                assert(x[i + 1] == t[i]);
            }
        }
        lemma_split_one(t, y);
        lemma_split_nonempty(y);
        assert(z.drop_first() =~= t + "\n\n"@ + y);
        if x.len() >= 2 {
            assert(!(x[0] == '\n' && x[1] == '\n'));
        } else {
            assert(x[0] != '\n');
        }
        assert(z[0] == x[0]);
        assert(x.len() >= 2 ==> z[1] == x[1]);
        assert(seq![x[0]] + t =~= x);
        assert(split_blank(z) =~= seq![x] + split_blank(y));
        assert(split_blank(x) =~= seq![x]) by {
            assert(split_blank(t) == seq![t]);
            if x.len() >= 2 {
                assert(!(x[0] == '\n' && x[1] == '\n'));
            }
        }
    }
}

proof fn lemma_no_blank_join(a: Seq<char>, b: Seq<char>)
    requires
        forall|k: int| 0 <= k < a.len() ==> a[k] != '\n',
        no_blank(b),
        b.len() > 0,
        b[0] != '\n',
    ensures
        no_blank(a + seq!['\n'] + b),
{
    let z = a + seq!['\n'] + b;
    assert forall|i: int| 0 <= i < z.len() && #[trigger] z[i] == '\n' implies i + 1 < z.len() && z[i + 1] != '\n' by {
        if i < a.len() {
            assert(z[i] == a[i]);
        } else if i == a.len() {
            assert(z[i + 1] == b[0]);
        } else {
            assert(z[i] == b[i - a.len() - 1]);
            if i + 1 < z.len() {
                assert(z[i + 1] == b[i - a.len()]);
            }
        }
    }
}

proof fn lemma_plain_line(a: Seq<char>, v: Seq<char>)
    requires
        forall|k: int| 0 <= k < a.len() ==> a[k] != '\n',
        plain(v),
    ensures
        forall|k: int| 0 <= k < (a + v).len() ==> (a + v)[k] != '\n',
{
    assert forall|k: int| 0 <= k < (a + v).len() implies (a + v)[k] != '\n' by {
        if k >= a.len() {
            assert((a + v)[k] == v[k - a.len()]);
        } else {
            assert((a + v)[k] == a[k]);
        }
    }
}

proof fn lemma_render_bare(m: WorktreeModel, hf: bool)
    requires
        valid(m),
        m.bare,
    ensures
        no_blank(render(m, hf)),
        render(m, hf).len() > 0,
        render(m, hf).last() != '\n',
        render(m, hf)[0] == 'w',
        stanza_record(render(m, hf) + seq!['\n']) == Some(m),
{
    reveal_strlit("worktree ");
    reveal_strlit("\nbare");
    reveal_strlit("\nbare\n");
    reveal_strlit("bare");
    let a = "worktree "@ + m.worktree;
    let r = render(m, hf);
    lemma_plain_line("worktree "@, m.worktree);
    assert(no_blank("bare"@));
    lemma_no_blank_join(a, "bare"@);
    assert(r =~= a + seq!['\n'] + "bare"@);
    assert(r + seq!['\n'] =~= "worktree "@ + m.worktree + "\nbare\n"@);
    lemma_bare_stanza(m.worktree);
    assert(r[0] == a[0]);
}

proof fn lemma_render_checked_out(m: WorktreeModel, hf: bool)
    requires
        valid(m),
        !m.bare,
    ensures
        no_blank(render(m, hf)),
        render(m, hf).len() > 0,
        render(m, hf).last() != '\n',
        render(m, hf)[0] == 'w',
        stanza_record(render(m, hf) + seq!['\n']) == Some(m),
{
    reveal_strlit("worktree ");
    reveal_strlit("\nHEAD ");
    reveal_strlit("HEAD ");
    reveal_strlit("\nbranch refs/heads/");
    reveal_strlit("branch refs/heads/");
    reveal_strlit("\n");
    let h = m.head->0;
    let b = m.branch->0;
    let a = "worktree "@ + m.worktree;
    let c = "HEAD "@ + h;
    let d = "branch refs/heads/"@ + b;
    let r = render(m, hf);
    lemma_plain_line("worktree "@, m.worktree);
    lemma_plain_line("HEAD "@, h);
    lemma_plain_line("branch refs/heads/"@, b);
    assert(no_blank(c));
    assert(no_blank(d));
    assert(m == WorktreeModel { worktree: m.worktree, bare: false, head: Some(h), branch: Some(b) });
    if hf {
        lemma_no_blank_join(c, d);
        let e = c + seq!['\n'] + d;
        assert(e[0] == 'H');
        lemma_no_blank_join(a, e);
        assert(r =~= a + seq!['\n'] + e);
        assert(r.last() == d.last());
        if b.len() > 0 {
            assert(d.last() == b.last());
        }
        assert(r + seq!['\n'] =~= "worktree "@ + m.worktree + "\nHEAD "@ + h
            + "\nbranch refs/heads/"@ + b + "\n"@);
        lemma_head_then_branch(m.worktree, h, b);
    } else {
        lemma_no_blank_join(d, c);
        let e = d + seq!['\n'] + c;
        assert(e[0] == 'b');
        lemma_no_blank_join(a, e);
        assert(r =~= a + seq!['\n'] + e);
        assert(r.last() == c.last());
        if h.len() > 0 {
            assert(c.last() == h.last());
        }
        assert(r + seq!['\n'] =~= "worktree "@ + m.worktree + "\nbranch refs/heads/"@ + b
            + "\nHEAD "@ + h + "\n"@);
        lemma_branch_then_head(m.worktree, h, b);
    }
    assert(r[0] == a[0]);
}

proof fn lemma_render(m: WorktreeModel, hf: bool)
    requires
        valid(m),
    ensures
        no_blank(render(m, hf)),
        render(m, hf).len() > 0,
        render(m, hf).last() != '\n',
        render(m, hf)[0] == 'w',
        stanza_record(render(m, hf) + seq!['\n']) == Some(m),
{
    if m.bare {
        lemma_render_bare(m, hf);
    } else {
        lemma_render_checked_out(m, hf);
    }
}

proof fn lemma_parse_rendered(ms: Seq<WorktreeModel>, hf: Seq<bool>)
    requires
        hf.len() == ms.len(),
        forall|i: int| 0 <= i < ms.len() ==> valid(#[trigger] ms[i]),
    ensures
        parse_stanzas(rendered(ms, hf)) == Ok::<Seq<WorktreeModel>, Seq<char>>(ms),
    decreases ms.len(),
{
    let ps = rendered(ms, hf);
    if ms.len() == 0 {
        assert(ms =~= Seq::<WorktreeModel>::empty());
    } else {
        let n = ms.len() - 1;
        let init = ms.drop_last();
        assert forall|i: int| 0 <= i < init.len() implies valid(#[trigger] init[i]) by {
            assert(init[i] == ms[i]);
        }
        lemma_parse_rendered(init, hf.drop_last());
        assert(ps.drop_last() =~= rendered(init, hf.drop_last()));
        lemma_render(ms[n], hf[n]);
        assert(ps.last() == render(ms[n], hf[n]));
        assert(init.push(ms.last()) =~= ms);
    }
}

proof fn lemma_join(ms: Seq<WorktreeModel>, hf: Seq<bool>)
    requires
        ms.len() >= 1,
        hf.len() == ms.len(),
        forall|i: int| 0 <= i < ms.len() ==> valid(#[trigger] ms[i]),
    ensures
        split_blank(join_stanzas(ms, hf)) == rendered(ms, hf),
        join_stanzas(ms, hf).len() > 0,
        join_stanzas(ms, hf)[0] == 'w',
        join_stanzas(ms, hf).last() != '\n',
    decreases ms.len(),
{
    reveal_strlit("\n\n");
    lemma_render(ms[0], hf[0]);
    let ps = rendered(ms, hf);
    if ms.len() == 1 {
        lemma_split_one(render(ms[0], hf[0]), Seq::empty());
        assert(ps =~= seq![render(ms[0], hf[0])]);
    } else {
        let rest = ms.drop_first();
        let hr = hf.drop_first();
        assert forall|i: int| 0 <= i < rest.len() implies valid(#[trigger] rest[i]) by {
            assert(rest[i] == ms[i + 1]);
        }
        lemma_join(rest, hr);
        lemma_split_one(render(ms[0], hf[0]), join_stanzas(rest, hr));
        assert(ps =~= seq![render(ms[0], hf[0])] + rendered(rest, hr));
        let j = join_stanzas(ms, hf);
        assert(j[0] == render(ms[0], hf[0])[0]);
        assert(j.last() == join_stanzas(rest, hr).last());
    }
}

/// A listing of valid records, one stanza each with its `HEAD` and `branch`
/// lines in either order (`head_first`), a blank line between each two and
/// any number of line feeds before and after, reads back as exactly those
/// records, in their order.
pub proof fn lemma_listing_round_trip(
    ms: Seq<WorktreeModel>,
    head_first: Seq<bool>,
    before: nat,
    after: nat,
)
    requires
        ms.len() >= 1,
        head_first.len() == ms.len(),
        forall|i: int| 0 <= i < ms.len() ==> valid(#[trigger] ms[i]),
    ensures
        parse_listing(line_feeds(before) + join_stanzas(ms, head_first) + line_feeds(after + 1))
            == Ok::<Seq<WorktreeModel>, Seq<char>>(ms),
{
    let j = join_stanzas(ms, head_first);
    let s = line_feeds(before) + j + line_feeds(after + 1);
    lemma_join(ms, head_first);
    lemma_parse_rendered(ms, head_first);
    let lo = before as int;
    let hi = (before + j.len()) as int;
    assert(s[lo] == j[0]);
    lemma_skip_fwd_to(s, 0, lo, s.len() as int, '\n');
    assert(s[hi - 1] == j.last());
    assert forall|k: int| hi <= k < s.len() implies s[k] == '\n' by {
        assert(s[k] == line_feeds(after + 1)[k - hi]);
    }
    lemma_skip_back_to(s, lo, hi, s.len() as int, '\n');
    assert(s.subrange(lo, hi) =~= j);
}

} // verus!
