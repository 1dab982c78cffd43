use vstd::prelude::*;
use vstd::string::*;

use crate::catalog::{lines_of, split_lines, string_of, texts};
use crate::text::chars_of;

verus! {

/// Whether `c` is white space in Unicode's sense (the White_Space property).
pub open spec fn white(c: char) -> bool {
    ||| c == ' '
    ||| ('\u{9}' <= c <= '\u{d}')
    ||| c == '\u{85}'
    ||| c == '\u{a0}'
    ||| c == '\u{1680}'
    ||| ('\u{2000}' <= c <= '\u{200a}')
    ||| c == '\u{2028}'
    ||| c == '\u{2029}'
    ||| c == '\u{202f}'
    ||| c == '\u{205f}'
    ||| c == '\u{3000}'
}

/// The index of the first '#' in `s` at or after `i`, or the length of `s`.
pub open spec fn comment_start(s: Seq<char>, i: int) -> int
    decreases s.len() - i,
{
    if i >= s.len() {
        s.len() as int
    } else if s[i] == '#' {
        i
    } else {
        comment_start(s, i + 1)
    }
}

/// The index of the first character of `s` at or after `i` that is not white
/// space, or the length of `s`.
pub open spec fn skip_white(s: Seq<char>, i: int) -> int
    decreases s.len() - i,
{
    if i >= s.len() {
        s.len() as int
    } else if white(s[i]) {
        skip_white(s, i + 1)
    } else {
        i
    }
}

/// The index just after the last character of `s` before `j` that is not
/// white space, or 0.
pub open spec fn skip_white_back(s: Seq<char>, j: int) -> int
    decreases j,
{
    if j <= 0 {
        0
    } else if white(s[j - 1]) {
        skip_white_back(s, j - 1)
    } else {
        j
    }
}

/// `s` without white space at either end.
pub open spec fn trimmed(s: Seq<char>) -> Seq<char> {
    let a = skip_white(s, 0);
    let b = skip_white_back(s, s.len() as int);
    if a < b {
        s.subrange(a, b)
    } else {
        Seq::empty()
    }
}

/// The package that a line of the default package list names, if any: the
/// line up to its first '#', without surrounding white space; `@latest` is
/// appended where no revision is given.
pub open spec fn package_of(line: Seq<char>) -> Option<Seq<char>> {
    let p = trimmed(line.subrange(0, comment_start(line, 0)));
    if p.len() == 0 {
        None
    } else if p.contains('@') {
        Some(p)
    } else {
        Some(p + "@latest"@)
    }
}

/// The packages that a sequence of lines names, in order.
pub open spec fn packages_of_lines(lines: Seq<Seq<char>>) -> Seq<Seq<char>>
    decreases lines.len(),
{
    if lines.len() == 0 {
        Seq::empty()
    } else {
        let p = packages_of_lines(lines.drop_last());
        match package_of(lines.last()) {
            Some(q) => p.push(q),
            None => p,
        }
    }
}

/// The packages that the default package list `body` names.
pub open spec fn default_packages_of(body: Seq<char>) -> Seq<Seq<char>> {
    packages_of_lines(lines_of(body))
}

fn is_white(c: char) -> (r: bool)
    ensures
        r == white(c),
{
    c == ' ' || ('\u{9}' <= c && c <= '\u{d}') || c == '\u{85}' || c == '\u{a0}' || c
        == '\u{1680}' || ('\u{2000}' <= c && c <= '\u{200a}') || c == '\u{2028}' || c
        == '\u{2029}' || c == '\u{202f}' || c == '\u{205f}' || c == '\u{3000}'
}

proof fn lemma_skip_white_bound(s: Seq<char>, i: int)
    requires
        0 <= i <= s.len(),
    ensures
        i <= skip_white(s, i) <= s.len(),
    decreases s.len() - i,
{
    if i < s.len() && white(s[i]) {
        lemma_skip_white_bound(s, i + 1);
    }
}

proof fn lemma_skip_white_back_bound(s: Seq<char>, j: int)
    requires
        0 <= j <= s.len(),
    ensures
        0 <= skip_white_back(s, j) <= j,
    decreases j,
{
    if j > 0 && white(s[j - 1]) {
        lemma_skip_white_back_bound(s, j - 1);
    }
}

/// The package that the line `line` of a default package list names, if any.
pub fn package_of_line(line: &Vec<char>) -> (r: Option<String>)
    ensures
        r matches Some(p) ==> package_of(line@) == Some(p@),
        r is None ==> package_of(line@) is None,
{
    let n = line.len();
    let mut e: usize = 0;
    while e < n && line[e] != '#'
        invariant
            e <= n,
            n == line@.len(),
            comment_start(line@, 0) == comment_start(line@, e as int),
        decreases n - e,
    {
        e = e + 1;
    }
    let ghost c = line@.subrange(0, e as int);
    let mut a: usize = 0;
    while a < e && is_white(line[a])
        invariant
            a <= e <= n,
            n == line@.len(),
            c == line@.subrange(0, e as int),
            skip_white(c, 0) == skip_white(c, a as int),
        decreases e - a,
    {
        a = a + 1;
    }
    let mut b: usize = e;
    while b > 0 && is_white(line[b - 1])
        invariant
            b <= e <= n,
            n == line@.len(),
            c == line@.subrange(0, e as int),
            skip_white_back(c, e as int) == skip_white_back(c, b as int),
        decreases b,
    {
        b = b - 1;
    }
    if a >= b {
        return None;
    }
    let mut p: Vec<char> = Vec::new();
    let mut has_at = false;
    let mut i: usize = a;
    while i < b
        invariant
            a <= i <= b <= e <= n,
            n == line@.len(),
            p@ == line@.subrange(a as int, i as int),
            has_at == p@.contains('@'),
        decreases b - i,
    {
        let ghost old_p = p@;
        let x = line[i];
        if x == '@' {
            has_at = true;
        }
        p.push(x);
        proof {
            assert(p@ == old_p.push(x));
            if x == '@' {
                assert(p@[p@.len() - 1] == '@');
            } else if has_at {
                let j = choose|j: int| 0 <= j < old_p.len() && old_p[j] == '@';
                assert(p@[j] == '@');
            } else {
                assert forall|j: int| 0 <= j < p@.len() implies p@[j] != '@' by {
                    if j < old_p.len() {
                        assert(p@[j] == old_p[j]);
                    }
                }
            }
        }
        i = i + 1;
    }
    proof {
        assert(trimmed(c) == p@);
    }
    if !has_at {
        let tail = "@latest";
        let mut i: usize = 0;
        let ghost before = p@;
        proof {
            reveal_strlit("@latest");
        }
        let m = tail.unicode_len();
        while i < m
            invariant
                i <= m,
                m == tail@.len(),
                p@ == before + tail@.subrange(0, i as int),
            decreases m - i,
        {
            p.push(tail.get_char(i));
            proof {
                assert(tail@.subrange(0, i + 1) == tail@.subrange(0, i as int).push(tail@[i as int]));
            }
            i = i + 1;
        }
        assert(tail@.subrange(0, m as int) == tail@);
    }
    Some(string_of(&p))
}

/// The packages that the default package list `body` names, in order, each
/// pinned to a revision.
pub fn default_packages(body: &str) -> (r: Vec<String>)
    ensures
        texts(r@) == default_packages_of(body@),
{
    let cs = chars_of(body);
    let lines = split_lines(&cs);
    let ghost ls = lines_of(body@);
    let mut out: Vec<String> = Vec::new();
    let mut i: usize = 0;
    while i < lines.len()
        invariant
            i <= lines@.len(),
            lines@.len() == ls.len(),
            forall|j: int| 0 <= j < lines@.len() ==> #[trigger] lines@[j]@ == ls[j],
            texts(out@) == packages_of_lines(ls.subrange(0, i as int)),
        decreases lines@.len() - i,
    {
        proof {
            assert(ls.subrange(0, i + 1).drop_last() == ls.subrange(0, i as int));
        }
        match package_of_line(&lines[i]) {
            Some(p) => {
                out.push(p);
                proof {
                    assert(texts(out@) == texts(out@.drop_last()).push(p@));
                }
            },
            None => {},
        }
        i = i + 1;
    }
    proof {
        assert(ls.subrange(0, ls.len() as int) == ls);
    }
    out
}

proof fn lemma_all_white(s: Seq<char>, i: int)
    requires
        0 <= i <= s.len(),
        forall|j: int| i <= j < s.len() ==> white(#[trigger] s[j]),
    ensures
        skip_white(s, i) == s.len(),
    decreases s.len() - i,
{
    if i < s.len() {
        lemma_all_white(s, i + 1);
    }
}

/// A line that starts with '#', or holds only white space, names no package.
pub proof fn lemma_comment_or_blank_line_skipped(line: Seq<char>)
    requires
        (line.len() > 0 && line[0] == '#') || forall|j: int|
            0 <= j < line.len() ==> white(#[trigger] line[j]),
    ensures
        package_of(line) is None,
{
    if line.len() > 0 && line[0] == '#' {
        assert(line.subrange(0, 0) == Seq::<char>::empty());
    } else {
        let e = comment_start(line, 0);
        lemma_comment_start_bound(line, 0);
        let c = line.subrange(0, e);
        lemma_all_white(c, 0);
        lemma_skip_white_back_bound(c, c.len() as int);
    }
}

proof fn lemma_comment_start_bound(s: Seq<char>, i: int)
    requires
        0 <= i <= s.len(),
    ensures
        i <= comment_start(s, i) <= s.len(),
    decreases s.len() - i,
{
    if i < s.len() && s[i] != '#' {
        lemma_comment_start_bound(s, i + 1);
    }
}

/// A named package without a revision is pinned to `@latest`; one with a
/// revision is kept as it is.
pub proof fn lemma_package_revision(line: Seq<char>)
    requires
        trimmed(line.subrange(0, comment_start(line, 0))).len() > 0,
    ensures
        ({
            let p = trimmed(line.subrange(0, comment_start(line, 0)));
            &&& p.contains('@') ==> package_of(line) == Some(p)
            &&& !p.contains('@') ==> package_of(line) == Some(p + "@latest"@)
        }),
{
}

} // verus!
