use vstd::prelude::*;

use itertools::Itertools;
use versions::Versioning;

use crate::text::{chars_of, push_char};

verus! {

broadcast use vstd::seq_lib::group_seq_properties;

/// The pieces of `s` between newline characters, in order; a text without any
/// newline is one piece, and a trailing newline ends with an empty piece.
pub open spec fn lines_of(s: Seq<char>) -> Seq<Seq<char>>
    decreases s.len(),
{
    if s.len() == 0 {
        seq![Seq::empty()]
    } else if s.last() == '\n' {
        lines_of(s.drop_last()).push(Seq::empty())
    } else {
        let p = lines_of(s.drop_last());
        p.update(p.len() - 1, p.last().push(s.last()))
    }
}

/// Whether the three characters of `s` from `i` on are "/go".
pub open spec fn go_at(s: Seq<char>, i: int) -> bool {
    0 <= i && i + 3 <= s.len() && s[i] == '/' && s[i + 1] == 'g' && s[i + 2] == 'o'
}

/// Where the text after the last "/go" that starts before `k + 2` begins, or 0
/// where there is none.
pub open spec fn token_start(s: Seq<char>, k: int) -> int
    decreases k,
{
    if k <= 0 {
        0
    } else if go_at(s, k - 1) {
        k + 2
    } else {
        token_start(s, k - 1)
    }
}

/// The version that a tag listing line names: what follows its last "/go", or
/// the whole line where it holds none.
pub open spec fn tag_version(line: Seq<char>) -> Seq<char> {
    line.subrange(token_start(line, line.len() - 2), line.len() as int)
}

pub open spec fn is_digit(c: char) -> bool {
    '0' <= c <= '9'
}

/// Legacy release tags that are never offered: "1", "1.0", "1.0.N", "1.1",
/// "1.1rcN", "1.1.N", "1?2", "1.2rcN", "1.2.1" and "1?8?5rc5", where N is a
/// decimal digit and ? any character but a newline.
pub open spec fn blocked(t: Seq<char>) -> bool {
    let n = t.len();
    &&& n >= 1
    &&& t[0] == '1'
    &&& {
        ||| n == 1
        ||| (n == 3 && t[1] == '.' && t[2] == '0')
        ||| (n == 5 && t[1] == '.' && t[2] == '0' && t[3] == '.' && is_digit(t[4]))
        ||| (n == 3 && t[1] == '.' && t[2] == '1')
        ||| (n == 6 && t[1] == '.' && t[2] == '1' && t[3] == 'r' && t[4] == 'c' && is_digit(t[5]))
        ||| (n == 5 && t[1] == '.' && t[2] == '1' && t[3] == '.' && is_digit(t[4]))
        ||| (n == 3 && t[1] != '\n' && t[2] == '2')
        ||| (n == 6 && t[1] == '.' && t[2] == '2' && t[3] == 'r' && t[4] == 'c' && is_digit(t[5]))
        ||| (n == 5 && t[1] == '.' && t[2] == '2' && t[3] == '.' && t[4] == '1')
        ||| (n == 8 && t[1] != '\n' && t[2] == '8' && t[3] != '\n' && t[4] == '5' && t[5] == 'r'
            && t[6] == 'c' && t[7] == '5')
    }
}

/// The versions kept from a sequence of tag listing lines, in order: each
/// line's version, where it is neither empty nor blocked.
pub open spec fn kept_versions(lines: Seq<Seq<char>>) -> Seq<Seq<char>>
    decreases lines.len(),
{
    if lines.len() == 0 {
        Seq::empty()
    } else {
        let p = kept_versions(lines.drop_last());
        let t = tag_version(lines.last());
        if t.len() > 0 && !blocked(t) {
            p.push(t)
        } else {
            p
        }
    }
}

/// The elements of `s` at their first occurrence, in order.
pub open spec fn first_occurrences(s: Seq<Seq<char>>) -> Seq<Seq<char>>
    decreases s.len(),
{
    if s.len() == 0 {
        s
    } else {
        let p = first_occurrences(s.drop_last());
        if p.contains(s.last()) {
            p
        } else {
            p.push(s.last())
        }
    }
}

/// The texts that a sequence of strings holds.
pub open spec fn texts(v: Seq<String>) -> Seq<Seq<char>> {
    v.map_values(|s: String| s@)
}

/// Whether the version `a` comes after the version `b`, as
/// `versions::Versioning` orders what it parses from them (a text that does
/// not parse comes before every one that does).
pub uninterp spec fn version_after(a: Seq<char>, b: Seq<char>) -> bool;

/// `s`, already in order, with `x` inserted after the last element that does
/// not come after it.
pub open spec fn insert_by_version(s: Seq<Seq<char>>, x: Seq<char>) -> Seq<Seq<char>>
    decreases s.len(),
{
    if s.len() == 0 {
        seq![x]
    } else if version_after(s.last(), x) {
        insert_by_version(s.drop_last(), x).push(s.last())
    } else {
        s.push(x)
    }
}

/// `s` in version order: a stable insertion of each element in turn.
pub open spec fn version_sorted(s: Seq<Seq<char>>) -> Seq<Seq<char>>
    decreases s.len(),
{
    if s.len() == 0 {
        s
    } else {
        insert_by_version(version_sorted(s.drop_last()), s.last())
    }
}

/// The candidate versions of a tag listing: the kept versions of its lines,
/// each at its first occurrence.
pub open spec fn candidates_of(output: Seq<char>) -> Seq<Seq<char>> {
    first_occurrences(kept_versions(lines_of(output)))
}

/// The catalog that a tag listing gives: its candidates in version order.
pub open spec fn catalog_of(output: Seq<char>) -> Seq<Seq<char>> {
    version_sorted(candidates_of(output))
}

/// Relies on itertools' `Itertools::unique`: it yields each item at its first
/// occurrence, in the order of the input.
#[verifier::external_body]
fn unique_versions(v: Vec<String>) -> (r: Vec<String>)
    ensures
        texts(r@) == first_occurrences(texts(v@)),
{
    v.into_iter().unique().collect()
}

/// Relies on `versions::Versioning::new` and the `Ord` of
/// `Option<Versioning>`: whether `a` parses to a greater version than `b`.
#[verifier::external_body]
fn comes_after(a: &String, b: &String) -> (r: bool)
    ensures
        r == version_after(a@, b@),
{
    Versioning::new(a) > Versioning::new(b)
}

proof fn lemma_insert_by_version(s: Seq<Seq<char>>, x: Seq<char>, j: int)
    requires
        0 <= j <= s.len(),
        forall|k: int| j <= k < s.len() ==> version_after(#[trigger] s[k], x),
        j == 0 || !version_after(s[j - 1], x),
    ensures
        insert_by_version(s, x) == s.insert(j, x),
        insert_by_version(s, x).to_multiset() == s.to_multiset().insert(x),
    decreases s.len(),
{
    broadcast use vstd::multiset::group_multiset_axioms;

    if s.len() == 0 {
        assert(s.insert(j, x) == seq![x]);
        assert(seq![x] == s.push(x));
    } else if version_after(s.last(), x) {
        let d = s.drop_last();
        lemma_insert_by_version(d, x, j);
        assert(s.insert(j, x) == d.insert(j, x).push(s.last()));
        assert(s == d.push(s.last()));
    } else {
        assert(s.insert(j, x) == s.push(x));
    }
}

proof fn lemma_lines_nonempty(s: Seq<char>)
    ensures
        lines_of(s).len() >= 1,
    decreases s.len(),
{
    if s.len() > 0 {
        lemma_lines_nonempty(s.drop_last());
    }
}

/// The lines of `s`, split at each newline.
pub fn split_lines(s: &Vec<char>) -> (r: Vec<Vec<char>>)
    ensures
        r@.len() == lines_of(s@).len(),
        forall|j: int| 0 <= j < r@.len() ==> #[trigger] r@[j]@ == lines_of(s@)[j],
{
    let mut done: Vec<Vec<char>> = Vec::new();
    let mut cur: Vec<char> = Vec::new();
    let mut i: usize = 0;
    proof {
        assert(s@.subrange(0, 0) == Seq::<char>::empty());
    }
    while i < s.len()
        invariant
            i <= s@.len(),
            done@.len() + 1 == lines_of(s@.subrange(0, i as int)).len(),
            forall|j: int|
                0 <= j < done@.len() ==> #[trigger] done@[j]@ == lines_of(
                    s@.subrange(0, i as int),
                )[j],
            cur@ == lines_of(s@.subrange(0, i as int)).last(),
        decreases s@.len() - i,
    {
        let ghost pre = s@.subrange(0, i as int);
        let c = s[i];
        proof {
            assert(s@.subrange(0, i + 1).drop_last() == pre);
            lemma_lines_nonempty(pre);
        }
        if c == '\n' {
            done.push(cur);
            cur = Vec::new();
        } else {
            cur.push(c);
        }
        i = i + 1;
    }
    proof {
        assert(s@.subrange(0, s@.len() as int) == s@);
    }
    done.push(cur);
    done
}

/// Where the version in a tag listing line begins.
fn version_start(line: &Vec<char>) -> (r: usize)
    ensures
        r as int == token_start(line@, line@.len() - 2),
        r <= line@.len(),
{
    let n = line.len();
    let mut k: usize = if n >= 2 { n - 2 } else { 0 };
    while k > 0
        invariant
            k + 2 <= n || k == 0,
            n == line@.len(),
            token_start(line@, n - 2) == token_start(line@, k as int),
        decreases k,
    {
        if line[k - 1] == '/' && line[k] == 'g' && line[k + 1] == 'o' {
            return k + 2;
        }
        k = k - 1;
    }
    0
}

fn digit(c: char) -> (r: bool)
    ensures
        r == is_digit(c),
{
    '0' <= c && c <= '9'
}

/// Whether `t` is one of the blocked legacy release tags.
pub fn is_blocked(t: &Vec<char>) -> (r: bool)
    ensures
        r == blocked(t@),
{
    let n = t.len();
    if n == 0 || t[0] != '1' {
        return false;
    }
    if n == 1 {
        return true;
    }
    if n == 3 {
        return (t[1] == '.' && (t[2] == '0' || t[2] == '1')) || (t[1] != '\n' && t[2] == '2');
    }
    if n == 5 {
        return t[1] == '.' && ((t[2] == '0' && t[3] == '.' && digit(t[4])) || (t[2] == '1'
            && t[3] == '.' && digit(t[4])) || (t[2] == '2' && t[3] == '.' && t[4] == '1'));
    }
    if n == 6 {
        return t[1] == '.' && (t[2] == '1' || t[2] == '2') && t[3] == 'r' && t[4] == 'c' && digit(
            t[5],
        );
    }
    if n == 8 {
        return t[1] != '\n' && t[2] == '8' && t[3] != '\n' && t[4] == '5' && t[5] == 'r' && t[6]
            == 'c' && t[7] == '5';
    }
    false
}

/// The version that the tag listing line `line` names.
pub fn version_of_line(line: &Vec<char>) -> (r: Vec<char>)
    ensures
        r@ == tag_version(line@),
{
    let start = version_start(line);
    let mut out: Vec<char> = Vec::new();
    let mut i: usize = start;
    while i < line.len()
        invariant
            start <= i <= line@.len(),
            out@ == line@.subrange(start as int, i as int),
        decreases line@.len() - i,
    {
        out.push(line[i]);
        i = i + 1;
    }
    out
}

/// The string that holds the characters `cs`.
pub fn string_of(cs: &Vec<char>) -> (r: String)
    ensures
        r@ == cs@,
{
    let mut out = String::new();
    let mut i: usize = 0;
    while i < cs.len()
        invariant
            i <= cs@.len(),
            out@ == cs@.subrange(0, i as int),
        decreases cs@.len() - i,
    {
        push_char(&mut out, cs[i]);
        proof {
            assert(cs@.subrange(0, i + 1) == cs@.subrange(0, i as int).push(cs@[i as int]));
        }
        i = i + 1;
    }
    proof {
        assert(cs@.subrange(0, cs@.len() as int) == cs@);
    }
    out
}

/// `v` in version order, oldest first, as `versions::Versioning` compares
/// versions: a stable insertion sort, so equal versions keep their order.
pub fn sort_versions(v: Vec<String>) -> (r: Vec<String>)
    ensures
        texts(r@) == version_sorted(texts(v@)),
        texts(r@).to_multiset() == texts(v@).to_multiset(),
{
    let mut out: Vec<String> = Vec::new();
    let mut i: usize = 0;
    while i < v.len()
        invariant
            i <= v@.len(),
            texts(out@) == version_sorted(texts(v@.subrange(0, i as int))),
            texts(out@).to_multiset() == texts(v@.subrange(0, i as int)).to_multiset(),
        decreases v@.len() - i,
    {
        let x = v[i].clone();
        let mut j: usize = out.len();
        while j > 0 && comes_after(&out[j - 1], &x)
            invariant
                j <= out@.len(),
                forall|k: int|
                    j <= k < out@.len() ==> version_after(#[trigger] texts(out@)[k], x@),
            decreases j,
        {
            j = j - 1;
        }
        let ghost before = texts(out@);
        proof {
            lemma_insert_by_version(before, x@, j as int);
            let pre = texts(v@.subrange(0, i as int));
            let post = texts(v@.subrange(0, i + 1));
            assert(post.drop_last() == pre);
            assert(post == pre.push(x@));
            vstd::seq_lib::to_multiset_build(pre, x@);
        }
        out.insert(j, x);
        assert(texts(out@) == before.insert(j as int, x@));
        i = i + 1;
    }
    assert(v@.subrange(0, v@.len() as int) == v@);
    out
}

/// The candidate versions of the tag listing `output`, before ordering: the
/// version of each line that is neither empty nor blocked, once each, in the
/// order of first occurrence.
pub fn remote_candidates(output: &str) -> (r: Vec<String>)
    ensures
        texts(r@) == candidates_of(output@),
{
    let cs = chars_of(output);
    let lines = split_lines(&cs);
    let ghost ls = lines_of(output@);
    let mut kept: Vec<String> = Vec::new();
    let mut i: usize = 0;
    while i < lines.len()
        invariant
            i <= lines@.len(),
            lines@.len() == ls.len(),
            forall|j: int| 0 <= j < lines@.len() ==> #[trigger] lines@[j]@ == ls[j],
            texts(kept@) == kept_versions(ls.subrange(0, i as int)),
        decreases lines@.len() - i,
    {
        proof {
            assert(ls.subrange(0, i + 1).drop_last() == ls.subrange(0, i as int));
        }
        let t = version_of_line(&lines[i]);
        if t.len() > 0 && !is_blocked(&t) {
            let st = string_of(&t);
            kept.push(st);
            proof {
                assert(texts(kept@) == texts(kept@.drop_last()).push(st@));
            }
        }
        i = i + 1;
    }
    proof {
        assert(ls.subrange(0, ls.len() as int) == ls);
    }
    unique_versions(kept)
}

proof fn lemma_first_occurrences(s: Seq<Seq<char>>)
    ensures
        first_occurrences(s).no_duplicates(),
        forall|t: Seq<char>| first_occurrences(s).contains(t) <==> s.contains(t),
    decreases s.len(),
{
    if s.len() > 0 {
        lemma_first_occurrences(s.drop_last());
        assert(s == s.drop_last().push(s.last()));
    }
}

proof fn lemma_kept_versions(ls: Seq<Seq<char>>)
    ensures
        forall|i: int|
            0 <= i < kept_versions(ls).len() ==> (#[trigger] kept_versions(ls)[i]).len() > 0
                && !blocked(kept_versions(ls)[i]),
    decreases ls.len(),
{
    if ls.len() > 0 {
        let p = kept_versions(ls.drop_last());
        lemma_kept_versions(ls.drop_last());
        let x = tag_version(ls.last());
        if x.len() > 0 && !blocked(x) {
            assert(kept_versions(ls) == p.push(x));
            assert forall|i: int| 0 <= i < kept_versions(ls).len() implies (
            #[trigger] kept_versions(ls)[i]).len() > 0 && !blocked(kept_versions(ls)[i]) by {
                if i < p.len() {
                    assert(kept_versions(ls)[i] == p[i]);
                }
            }
        }
    }
}

/// The versions that the tag listing `output` offers, oldest first: the
/// candidates of `remote_candidates`, in version order. None is empty or
/// blocked, none comes twice, and each version that a line names and that
/// is neither empty nor blocked is there.
pub fn remote_versions(output: &str) -> (r: Vec<String>)
    ensures
        texts(r@) == catalog_of(output@),
        forall|i: int|
            0 <= i < r@.len() ==> r@[i]@.len() > 0 && !blocked(#[trigger] r@[i]@),
        texts(r@).no_duplicates(),
        forall|t: Seq<char>|
            texts(r@).contains(t) <==> kept_versions(lines_of(output@)).contains(t),
{
    let c = remote_candidates(output);
    let r = sort_versions(c);
    proof {
        let k = kept_versions(lines_of(output@));
        let cs = texts(c@);
        let rs = texts(r@);
        lemma_first_occurrences(k);
        lemma_kept_versions(lines_of(output@));
        cs.lemma_multiset_has_no_duplicates();
        rs.lemma_multiset_has_no_duplicates_conv();
        cs.to_multiset_ensures();
        rs.to_multiset_ensures();
        assert forall|t: Seq<char>| rs.contains(t) <==> k.contains(t) by {
            assert(rs.contains(t) <==> rs.to_multiset().count(t) > 0);
            assert(cs.contains(t) <==> cs.to_multiset().count(t) > 0);
        }
        assert forall|i: int| 0 <= i < r@.len() implies r@[i]@.len() > 0 && !blocked(
            #[trigger] r@[i]@,
        ) by {
            assert(rs[i] == r@[i]@);
            assert(rs.contains(rs[i]));
            let j = choose|j: int| 0 <= j < k.len() && k[j] == rs[i];
            assert(kept_versions(lines_of(output@))[j].len() > 0);
        }
    }
    r
}

} // verus!
