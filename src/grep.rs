//! Searching the lines of a text for a query, with or without regard to
//! case.

use vstd::prelude::*;
use vstd::string::StrSliceExecFns;
use crate::text::chars_of;

verus! {

/// The lines of `s` after the partial line `cur`. A line ends at a line
/// feed, which is dropped together with a carriage return just before it;
/// a last line without a line feed is kept as it is, and an empty text
/// after the last line feed makes no line.
pub open spec fn split_lines(s: Seq<char>, cur: Seq<char>) -> Seq<Seq<char>>
    decreases s.len(),
{
    if s.len() == 0 {
        if cur.len() == 0 {
            seq![]
        } else {
            seq![cur]
        }
    } else if s[0] == '\n' {
        seq![strip_cr(cur)] + split_lines(s.drop_first(), seq![])
    } else {
        split_lines(s.drop_first(), cur.push(s[0]))
    }
}

/// `line` without a carriage return at its end.
pub open spec fn strip_cr(line: Seq<char>) -> Seq<char> {
    if line.len() > 0 && line.last() == '\r' {
        line.drop_last()
    } else {
        line
    }
}

/// The lines of `s`, as `str::lines` yields them.
pub open spec fn lines_of(s: Seq<char>) -> Seq<Seq<char>> {
    split_lines(s, seq![])
}

/// Whether `q` occurs in `t` at position `i`.
pub open spec fn occurs_at(t: Seq<char>, q: Seq<char>, i: int) -> bool {
    0 <= i && i + q.len() <= t.len() && t.subrange(i, i + q.len()) == q
}

/// Whether `q` occurs somewhere in `t`.
pub open spec fn text_contains(t: Seq<char>, q: Seq<char>) -> bool {
    exists|i: int| occurs_at(t, q, i)
}

/// The views of a list of strings.
pub open spec fn views(v: Seq<&str>) -> Seq<Seq<char>> {
    v.map_values(|l: &str| l@)
}

/// Splits `contents` into its lines, without their line endings.
pub fn lines<'a>(contents: &'a str) -> (r: Vec<&'a str>)
    ensures
        views(r@) == lines_of(contents@),
{
    let cs = chars_of(contents);
    let n = cs.len();
    let mut out: Vec<&'a str> = Vec::new();
    let mut start: usize = 0;
    let mut i: usize = 0;
    assert(cs@.subrange(0, n as int) =~= cs@);
    assert(views(out@) + lines_of(cs@) =~= lines_of(cs@));
    assert(cs@.subrange(0, 0) =~= Seq::<char>::empty());
    while i < n
        invariant
            n == cs.len() == contents@.len(),
            cs@ == contents@,
            start <= i <= n,
            views(out@) + split_lines(cs@.subrange(i as int, n as int), cs@.subrange(start as int, i as int))
                == lines_of(contents@),
        decreases n - i,
    {
        let ghost rest = cs@.subrange(i as int, n as int);
        assert(rest.drop_first() =~= cs@.subrange(i + 1, n as int));
        if cs[i] == '\n' {
            let ghost cur = cs@.subrange(start as int, i as int);
            let end = if i > start && cs[i - 1] == '\r' {
                i - 1
            } else {
                i
            };
            let line = contents.substring_char(start, end);
            assert(line@ =~= strip_cr(cur));
            let ghost old_out = views(out@);
            out.push(line);
            assert(views(out@) =~= old_out.push(strip_cr(cur)));
            assert(views(out@) + split_lines(rest.drop_first(), seq![]) =~= old_out + (seq![strip_cr(cur)]
                + split_lines(rest.drop_first(), seq![])));
            start = i + 1;
            assert(cs@.subrange(start as int, i + 1) =~= Seq::<char>::empty());
        } else {
            assert(cs@.subrange(start as int, i + 1) =~= cs@.subrange(start as int, i as int).push(cs[i as int]));
        }
        i += 1;
    }
    let ghost old_out = views(out@);
    assert(cs@.subrange(n as int, n as int) =~= Seq::<char>::empty());
    if start < n {
        let line = contents.substring_char(start, n);
        out.push(line);
        assert(views(out@) =~= old_out + seq![cs@.subrange(start as int, n as int)]);
    } else {
        assert(old_out + Seq::<Seq<char>>::empty() =~= old_out);
    }
    out
}

/// Whether `q` occurs in `t` at position `i`, tested character by character.
fn occurs_at_exec(t: &Vec<char>, q: &Vec<char>, i: usize) -> (r: bool)
    requires
        i + q.len() <= t.len(),
    ensures
        r == occurs_at(t@, q@, i as int),
{
    let mut k: usize = 0;
    while k < q.len()
        invariant
            k <= q.len(),
            i + q.len() <= t.len(),
            forall|j: int| 0 <= j < k ==> t@[i + j] == q@[j],
        decreases q.len() - k,
    {
        if t[i + k] != q[k] {
            assert(t@.subrange(i as int, i + q.len())[k as int] != q@[k as int]);
            return false;
        }
        k += 1;
    }
    assert(t@.subrange(i as int, i + q.len()) =~= q@);
    true
}

/// Whether `query` occurs in `line`.
pub fn line_contains(line: &str, query: &str) -> (r: bool)
    ensures
        r == text_contains(line@, query@),
{
    let t = chars_of(line);
    let q = chars_of(query);
    if q.len() == 0 {
        assert(t@.subrange(0, 0) =~= q@);
        assert(occurs_at(t@, q@, 0));
        return true;
    }
    if q.len() > t.len() {
        return false;
    }
    let mut i: usize = 0;
    while i <= t.len() - q.len()
        invariant
            0 < q.len() <= t.len(),
            i <= t.len() - q.len() + 1,
            t@ == line@,
            q@ == query@,
            forall|j: int| 0 <= j < i ==> !occurs_at(t@, q@, j),
        decreases t.len() - q.len() + 1 - i,
    {
        if occurs_at_exec(&t, &q, i) {
            return true;
        }
        i += 1;
    }
    false
}

/// The lines of `lines` that contain `query`, in order.
pub open spec fn lines_containing(lines: Seq<Seq<char>>, query: Seq<char>) -> Seq<Seq<char>> {
    lines.filter(|l: Seq<char>| text_contains(l, query))
}

/// The lines of `lines` whose lower-case form contains the lower-case form
/// of `query`, in order.
pub open spec fn lines_containing_folded(lines: Seq<Seq<char>>, query: Seq<char>) -> Seq<Seq<char>> {
    lines.filter(|l: Seq<char>| text_contains(lower_of(l), lower_of(query)))
}

/// The lines of `contents` that contain `query`, in order.
pub fn search<'a>(query: &str, contents: &'a str) -> (r: Vec<&'a str>)
    ensures
        views(r@) == lines_containing(lines_of(contents@), query@),
{
    let all = lines(contents);
    let ghost pred = |l: Seq<char>| text_contains(l, query@);
    let mut results: Vec<&'a str> = Vec::new();
    let mut i: usize = 0;
    while i < all.len()
        invariant
            i <= all.len(),
            views(all@) == lines_of(contents@),
            views(results@) == views(all@).take(i as int).filter(pred),
            pred == (|l: Seq<char>| text_contains(l, query@)),
        decreases all.len() - i,
    {
        let line = all[i];
        proof {
            assert(views(all@).take(i + 1) =~= views(all@).take(i as int).push(line@));
            views(all@).take(i as int).lemma_filter_push(line@, pred);
        }
        let found = line_contains(line, query);
        assert(pred(line@) == found);
        if found {
            let ghost before = views(results@);
            results.push(line);
            assert(views(results@) =~= before.push(line@));
        }
        i += 1;
    }
    assert(views(all@).take(all.len() as int) =~= views(all@));
    results
}

/// The lines of `contents` that contain `query`, in order; the lines are
/// walked over a range of indices.
pub fn search_v2<'a>(query: &str, contents: &'a str) -> (r: Vec<&'a str>)
    ensures
        views(r@) == lines_containing(lines_of(contents@), query@),
{
    let all = lines(contents);
    let ghost pred = |l: Seq<char>| text_contains(l, query@);
    let mut results: Vec<&'a str> = Vec::new();
    for i in 0..all.len()
        invariant
            views(all@) == lines_of(contents@),
            views(results@) == views(all@).take(i as int).filter(pred),
            pred == (|l: Seq<char>| text_contains(l, query@)),
    {
        let line = all[i];
        proof {
            assert(views(all@).take(i + 1) =~= views(all@).take(i as int).push(line@));
            views(all@).take(i as int).lemma_filter_push(line@, pred);
        }
        let found = line_contains(line, query);
        assert(pred(line@) == found);
        if found {
            let ghost before = views(results@);
            results.push(line);
            assert(views(results@) =~= before.push(line@));
        }
    }
    assert(views(all@).take(all.len() as int) =~= views(all@));
    results
}

/// The lower-case form of a text, as `str::to_lowercase` gives it.
pub uninterp spec fn lower_of(s: Seq<char>) -> Seq<char>;

/// Relies on `str::to_lowercase`: the lower-case form of `s`, which depends
/// on the characters of `s` alone.
#[verifier::external_body]
fn to_lowercase(s: &str) -> (r: String)
    ensures
        r@ == lower_of(s@),
{
    s.to_lowercase()
}

/// The lines of `contents` that contain `query` when case is ignored: both
/// are compared in lower case.
pub fn search_case_insensitive<'a>(query: &str, contents: &'a str) -> (r: Vec<&'a str>)
    ensures
        views(r@) == lines_containing_folded(lines_of(contents@), query@),
{
    let query = to_lowercase(query);
    let all = lines(contents);
    let ghost pred = |l: Seq<char>| text_contains(lower_of(l), query@);
    let mut results: Vec<&'a str> = Vec::new();
    let mut i: usize = 0;
    while i < all.len()
        invariant
            i <= all.len(),
            views(all@) == lines_of(contents@),
            views(results@) == views(all@).take(i as int).filter(pred),
            pred == (|l: Seq<char>| text_contains(lower_of(l), query@)),
        decreases all.len() - i,
    {
        let line = all[i];
        proof {
            assert(views(all@).take(i + 1) =~= views(all@).take(i as int).push(line@));
            views(all@).take(i as int).lemma_filter_push(line@, pred);
        }
        let lowered = to_lowercase(line);
        let found = line_contains(lowered.as_str(), query.as_str());
        assert(pred(line@) == found);
        if found {
            let ghost before = views(results@);
            results.push(line);
            assert(views(results@) =~= before.push(line@));
        }
        i += 1;
    }
    assert(views(all@).take(all.len() as int) =~= views(all@));
    results
}

/// What to search for, and where.
pub struct Config {
    pub query: String,
    pub file_path: String,
    pub ignore_case: bool,
}

impl Config {
    /// Builds the configuration from the command-line arguments `args`,
    /// the first of which is the program's name and is skipped: the query,
    /// then the file path; further arguments are ignored. `ignore_case`
    /// says whether case is to be ignored.
    pub fn build(args: &[String], ignore_case: bool) -> (r: Result<Config, &'static str>)
        ensures
            args@.len() < 2 ==> r is Err && r->Err_0@ == "Didn't get a query string"@,
            args@.len() == 2 ==> r is Err && r->Err_0@ == "Didn't get a file path"@,
            args@.len() > 2 ==> r is Ok && r->Ok_0.query@ == args@[1]@ && r->Ok_0.file_path@ == args@[2]@
                && r->Ok_0.ignore_case == ignore_case,
    {
        if args.len() < 2 {
            return Err("Didn't get a query string");
        }
        let query = args[1].clone();
        if args.len() < 3 {
            return Err("Didn't get a file path");
        }
        let file_path = args[2].clone();
        Ok(Config { query, file_path, ignore_case })
    }
}

/// The lines of `contents` that match the query of `config`, with or
/// without regard to case as `config` says.
pub fn matching_lines<'a>(config: &Config, contents: &'a str) -> (r: Vec<&'a str>)
    ensures
        views(r@) == if config.ignore_case {
            lines_containing_folded(lines_of(contents@), config.query@)
        } else {
            lines_containing(lines_of(contents@), config.query@)
        },
{
    if config.ignore_case {
        search_case_insensitive(config.query.as_str(), contents)
    } else {
        search(config.query.as_str(), contents)
    }
}

} // verus!
