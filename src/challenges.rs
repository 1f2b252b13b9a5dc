//! Exercises on lists and strings: the median and mode of a list of
//! integers, and a pig-latin transformer.

use vstd::prelude::*;
use vstd::relations::{sorted_by, total_ordering};
use crate::text::{chars_of, is_whitespace, spec_is_whitespace, string_of};

verus! {

/// The words of `s` after the partial word `cur`: maximal runs of
/// characters that are not white space, in order.
pub open spec fn split_words(s: Seq<char>, cur: Seq<char>) -> Seq<Seq<char>>
    decreases s.len(),
{
    if s.len() == 0 {
        if cur.len() == 0 {
            seq![]
        } else {
            seq![cur]
        }
    } else if spec_is_whitespace(s[0]) {
        if cur.len() == 0 {
            split_words(s.drop_first(), cur)
        } else {
            seq![cur] + split_words(s.drop_first(), seq![])
        }
    } else {
        split_words(s.drop_first(), cur.push(s[0]))
    }
}

/// The words of `s`, as `str::split_whitespace` yields them.
pub open spec fn words_of(s: Seq<char>) -> Seq<Seq<char>> {
    split_words(s, seq![])
}

/// Whether `c` is one of the lower-case vowels a, e, i, o, u.
pub open spec fn is_vowel(c: char) -> bool {
    c == 'a' || c == 'e' || c == 'i' || c == 'o' || c == 'u'
}

/// A non-empty word in pig latin: a word that starts with a vowel gets
/// "-hay" appended; otherwise its first letter moves to the end, after a
/// hyphen, followed by "ay".
pub open spec fn pig_word(w: Seq<char>) -> Seq<char> {
    if is_vowel(w[0]) {
        w + seq!['-', 'h', 'a', 'y']
    } else {
        w.drop_first() + seq!['-', w[0], 'a', 'y']
    }
}

/// The words of `ws` joined with single spaces.
pub open spec fn join_words(ws: Seq<Seq<char>>) -> Seq<char>
    decreases ws.len(),
{
    if ws.len() == 0 {
        seq![]
    } else if ws.len() == 1 {
        ws[0]
    } else {
        join_words(ws.drop_last()) + seq![' '] + ws.last()
    }
}

/// The pig-latin form of the text `s`: each word transformed, joined by
/// single spaces.
pub open spec fn pig_latin(s: Seq<char>) -> Seq<char> {
    join_words(words_of(s).map_values(|w: Seq<char>| pig_word(w)))
}

proof fn lemma_words_nonempty(s: Seq<char>, cur: Seq<char>)
    ensures
        forall|i: int|
            0 <= i < split_words(s, cur).len() ==> #[trigger] split_words(s, cur)[i].len() > 0,
    decreases s.len(),
{
    if s.len() == 0 {
        if cur.len() > 0 {
            assert(split_words(s, cur) =~= seq![cur]);
        }
    } else {
        if spec_is_whitespace(s[0]) {
            if cur.len() == 0 {
                lemma_words_nonempty(s.drop_first(), cur);
                assert(split_words(s, cur) == split_words(s.drop_first(), cur));
            } else {
                lemma_words_nonempty(s.drop_first(), seq![]);
                let rest = split_words(s.drop_first(), seq![]);
                assert forall|i: int| 0 <= i < split_words(s, cur).len() implies #[trigger] split_words(s, cur)[i].len() > 0 by {
                    if i > 0 {
                        assert(split_words(s, cur)[i] == rest[i - 1]);
                    }
                }
            }
        } else {
            lemma_words_nonempty(s.drop_first(), cur.push(s[0]));
            assert(split_words(s, cur) == split_words(s.drop_first(), cur.push(s[0])));
        }
    }
}

/// Splits `cs` into its words.
fn split_into_words(cs: &Vec<char>) -> (r: Vec<Vec<char>>)
    ensures
        r@.map_values(|w: Vec<char>| w@) == words_of(cs@),
{
    let mut out: Vec<Vec<char>> = Vec::new();
    let mut cur: Vec<char> = Vec::new();
    let mut i: usize = 0;
    assert(cs@.subrange(0, cs.len() as int) =~= cs@);
    assert(out@.map_values(|w: Vec<char>| w@) + words_of(cs@) =~= words_of(cs@));
    while i < cs.len()
        invariant
            i <= cs.len(),
            out@.map_values(|w: Vec<char>| w@) + split_words(cs@.subrange(i as int, cs.len() as int), cur@)
                == words_of(cs@),
        decreases cs.len() - i,
    {
        let c = cs[i];
        let ghost rest = cs@.subrange(i as int, cs.len() as int);
        assert(rest.drop_first() =~= cs@.subrange(i + 1, cs.len() as int));
        if is_whitespace(c) {
            if cur.len() > 0 {
                let ghost old_out = out@.map_values(|w: Vec<char>| w@);
                let ghost old_cur = cur@;
                out.push(cur);
                cur = Vec::new();
                assert(out@.map_values(|w: Vec<char>| w@) =~= old_out.push(old_cur));
                assert(old_out.push(old_cur) + split_words(rest.drop_first(), seq![]) =~= old_out
                    + (seq![old_cur] + split_words(rest.drop_first(), seq![])));
            }
        } else {
            cur.push(c);
        }
        i += 1;
    }
    let ghost old_out = out@.map_values(|w: Vec<char>| w@);
    assert(cs@.subrange(i as int, cs.len() as int) =~= Seq::<char>::empty());
    if cur.len() > 0 {
        let ghost old_cur = cur@;
        out.push(cur);
        assert(out@.map_values(|w: Vec<char>| w@) =~= old_out + seq![old_cur]);
    } else {
        assert(old_out + Seq::<Seq<char>>::empty() =~= old_out);
    }
    out
}

/// Appends `w[from..]` to `out`.
fn push_from(out: &mut Vec<char>, w: &Vec<char>, from: usize)
    requires
        from <= w.len(),
    ensures
        final(out)@ == old(out)@ + w@.subrange(from as int, w.len() as int),
{
    let mut i: usize = from;
    while i < w.len()
        invariant
            from <= i <= w.len(),
            out@ == old(out)@ + w@.subrange(from as int, i as int),
        decreases w.len() - i,
    {
        out.push(w[i]);
        i += 1;
        assert(out@ =~= old(out)@ + w@.subrange(from as int, i as int));
    }
}

/// Appends the pig-latin form of the non-empty word `w` to `out`.
fn push_pig_word(out: &mut Vec<char>, w: &Vec<char>)
    requires
        w.len() > 0,
    ensures
        final(out)@ == old(out)@ + pig_word(w@),
{
    let first = w[0];
    if first == 'a' || first == 'e' || first == 'i' || first == 'o' || first == 'u' {
        push_from(out, w, 0);
        out.push('-');
        out.push('h');
        out.push('a');
        out.push('y');
        assert(w@.subrange(0, w.len() as int) =~= w@);
        assert(out@ =~= old(out)@ + pig_word(w@));
    } else {
        push_from(out, w, 1);
        out.push('-');
        out.push(first);
        out.push('a');
        out.push('y');
        assert(w@.subrange(1, w.len() as int) =~= w@.drop_first());
        assert(out@ =~= old(out)@ + pig_word(w@));
    }
}

/// Turns each word of `words` into pig latin and joins the results with
/// single spaces.
pub fn challenge_2(words: String) -> (r: String)
    ensures
        r@ == pig_latin(words@),
{
    let cs = chars_of(words.as_str());
    let ws = split_into_words(&cs);
    let ghost pw = words_of(cs@).map_values(|w: Seq<char>| pig_word(w));
    proof {
        lemma_words_nonempty(cs@, seq![]);
    }
    let mut out: Vec<char> = Vec::new();
    let mut k: usize = 0;
    while k < ws.len()
        invariant
            k <= ws.len(),
            ws@.map_values(|w: Vec<char>| w@) == words_of(cs@),
            forall|i: int| 0 <= i < words_of(cs@).len() ==> #[trigger] words_of(cs@)[i].len() > 0,
            pw == words_of(cs@).map_values(|w: Seq<char>| pig_word(w)),
            out@ == join_words(pw.take(k as int)),
        decreases ws.len() - k,
    {
        let ghost before = out@;
        assert(ws@.map_values(|w: Vec<char>| w@)[k as int] == ws[k as int]@);
        if k > 0 {
            out.push(' ');
        }
        push_pig_word(&mut out, &ws[k]);
        assert(pw.take(k + 1).drop_last() =~= pw.take(k as int));
        if k == 0 {
            assert(out@ =~= pw.take(1)[0]);
        } else {
            assert(out@ =~= before + seq![' '] + pw[k as int]);
        }
        k += 1;
    }
    assert(pw.take(ws.len() as int) =~= pw);
    string_of(&out)
}

/// The order in which lists of integers are sorted.
pub open spec fn int_le(a: i32, b: i32) -> bool {
    a <= b
}

/// Twice the median of the sorted list `s`: twice its middle item when
/// its length is odd, else the sum of its two middle items.
pub open spec fn doubled_median_of_sorted(s: Seq<i32>) -> int {
    let m = s.len() / 2;
    if s.len() % 2 == 1 {
        2 * s[m as int]
    } else {
        s[m as int] + s[m - 1]
    }
}

/// Relies on `slice::sort`: the same items, in ascending order.
#[verifier::external_body]
fn sort_ascending(v: &mut Vec<i32>)
    ensures
        final(v)@.to_multiset() == old(v)@.to_multiset(),
        sorted_by(final(v)@, |a: i32, b: i32| int_le(a, b)),
{
    v.sort();
}

/// Twice the median of `vec`, so that the result stays an integer: the
/// median of a list of even length lies halfway between its two middle
/// items.
pub fn doubled_median(vec: Vec<i32>) -> (r: i64)
    requires
        vec.len() > 0,
    ensures
        r == doubled_median_of_sorted(vec@.sort_by(|a: i32, b: i32| int_le(a, b))),
{
    let mut sorted_vec = vec;
    sort_ascending(&mut sorted_vec);
    let ghost leq = |a: i32, b: i32| int_le(a, b);
    proof {
        assert(total_ordering(leq));
        vec@.lemma_sort_by_ensures(leq);
        vstd::seq_lib::lemma_sorted_unique(sorted_vec@, vec@.sort_by(leq), leq);
        broadcast use vstd::seq_lib::group_to_multiset_ensures;

        assert(sorted_vec@.len() == sorted_vec@.to_multiset().len());
    }
    let middle_index = sorted_vec.len() / 2;
    if sorted_vec.len() % 2 == 0 {
        sorted_vec[middle_index] as i64 + sorted_vec[middle_index - 1] as i64
    } else {
        2 * sorted_vec[middle_index] as i64
    }
}

/// How many times `x` occurs in `s`.
pub open spec fn occurrences(s: Seq<i32>, x: i32) -> nat
    decreases s.len(),
{
    if s.len() == 0 {
        0
    } else {
        occurrences(s.drop_last(), x) + if s.last() == x {
            1nat
        } else {
            0nat
        }
    }
}

/// What the mode of `s` may be: `None` when no item occurs more than once
/// (the empty list included), else an item that occurs most often.
pub open spec fn is_mode_of(s: Seq<i32>, r: Option<i32>) -> bool {
    match r {
        None => forall|i: int| 0 <= i < s.len() ==> occurrences(s, #[trigger] s[i]) == 1,
        Some(m) => {
            &&& s.contains(m)
            &&& forall|i: int| 0 <= i < s.len() ==> occurrences(s, #[trigger] s[i]) <= occurrences(s, m)
            &&& occurrences(s, m) > 1
        },
    }
}

proof fn lemma_occurs_at_least_once(s: Seq<i32>, i: int)
    requires
        0 <= i < s.len(),
    ensures
        occurrences(s, s[i]) >= 1,
    decreases s.len(),
{
    if i < s.len() - 1 {
        lemma_occurs_at_least_once(s.drop_last(), i);
    }
}

/// Counts the occurrences of `x` in `v`.
fn count(v: &Vec<i32>, x: i32) -> (r: usize)
    ensures
        r == occurrences(v@, x),
{
    let mut c: usize = 0;
    let mut j: usize = 0;
    while j < v.len()
        invariant
            j <= v.len(),
            c == occurrences(v@.take(j as int), x),
            c <= j,
        decreases v.len() - j,
    {
        assert(v@.take(j + 1).drop_last() =~= v@.take(j as int));
        if v[j] == x {
            c += 1;
        }
        j += 1;
    }
    assert(v@.take(v.len() as int) =~= v@);
    c
}

/// The most frequent number of `vec`; `None` when no number repeats,
/// which includes the empty list.
pub fn calculate_mode(vec: Vec<i32>) -> (r: Option<i32>)
    ensures
        is_mode_of(vec@, r),
{
    let mut mode: i32 = 0;
    let mut max_frequency: usize = 0;
    let mut i: usize = 0;
    while i < vec.len()
        invariant
            i <= vec.len(),
            forall|j: int| 0 <= j < i ==> occurrences(vec@, #[trigger] vec@[j]) <= max_frequency,
            i == 0 ==> max_frequency == 0 && mode == 0,
            i > 0 ==> vec@.contains(mode) && occurrences(vec@, mode) == max_frequency,
        decreases vec.len() - i,
    {
        let c = count(&vec, vec[i]);
        proof {
            lemma_occurs_at_least_once(vec@, i as int);
        }
        if c > max_frequency {
            mode = vec[i];
            max_frequency = c;
            assert(vec@[i as int] == mode);
        }
        i += 1;
    }
    if vec.len() > 0 {
        proof {
            let k = choose|k: int| 0 <= k < vec.len() && vec@[k] == mode;
            lemma_occurs_at_least_once(vec@, k);
        }
    }
    if max_frequency <= 1 {
        proof {
            assert forall|j: int| 0 <= j < vec.len() implies occurrences(vec@, #[trigger] vec@[j]) == 1 by {
                lemma_occurs_at_least_once(vec@, j);
            }
        }
        None
    } else {
        Some(mode)
    }
}

} // verus!
