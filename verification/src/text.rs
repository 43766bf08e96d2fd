//! Searching, trimming and splitting text, by character position.

use vstd::prelude::*;
use vstd::string::*;

verus! {

/// The number of characters of `s` that stand before its first `c`; the length of
/// `s` where it holds no `c`.
pub open spec fn find(s: Seq<char>, c: char) -> nat
    decreases s.len(),
{
    if s.len() == 0 || s[0] == c {
        0
    } else {
        1 + find(s.drop_first(), c)
    }
}

/// `find` is the one position that is preceded by no `c` and holds one, or is the end.
pub proof fn lemma_find(s: Seq<char>, c: char)
    ensures
        find(s, c) <= s.len(),
        forall|j: int| 0 <= j < find(s, c) ==> s[j] != c,
        find(s, c) < s.len() ==> s[find(s, c) as int] == c,
    decreases s.len(),
{
    if s.len() > 0 && s[0] != c {
        let t = s.drop_first();
        lemma_find(t, c);
        assert forall|j: int| 0 <= j < find(s, c) implies s[j] != c by {
            if j > 0 {
                assert(s[j] == t[j - 1]);
            }
        }
    }
}

/// A position that is preceded by no `c`, and holds one or is the end, is `find`.
pub proof fn lemma_find_is(s: Seq<char>, c: char, i: int)
    requires
        0 <= i <= s.len(),
        forall|j: int| 0 <= j < i ==> s[j] != c,
        i < s.len() ==> s[i] == c,
    ensures
        find(s, c) == i,
{
    lemma_find(s, c);
    let f = find(s, c) as int;
    if f < i {
        assert(s[f] != c);
    } else if i < f {
        assert(s[i] != c);
    }
}

/// The position of the first `c` in `s`, or the length of `s`.
pub fn find_char(s: &str, c: char) -> (i: usize)
    ensures
        i == find(s@, c),
{
    let n: usize = s.unicode_len();
    let mut i: usize = 0;
    while i < n && s.get_char(i) != c
        invariant
            n == s@.len(),
            i <= n,
            forall|j: int| 0 <= j < i ==> s@[j] != c,
        decreases n - i,
    {
        i += 1;
    }
    proof {
        lemma_find_is(s@, c, i as int);
    }
    i
}

/// Whether `c` is blank inside a line: a space, a tab or a carriage return.
pub open spec fn is_blank(c: char) -> bool {
    c == ' ' || c == '\t' || c == '\r'
}

/// `s` without the blank characters at its start.
pub open spec fn trim_start(s: Seq<char>) -> Seq<char>
    decreases s.len(),
{
    if s.len() > 0 && is_blank(s[0]) {
        trim_start(s.drop_first())
    } else {
        s
    }
}

/// `s` without the blank characters at its end.
pub open spec fn trim_end(s: Seq<char>) -> Seq<char>
    decreases s.len(),
{
    if s.len() > 0 && is_blank(s.last()) {
        trim_end(s.drop_last())
    } else {
        s
    }
}

/// `s` without the blank characters at either end.
pub open spec fn trim(s: Seq<char>) -> Seq<char> {
    trim_end(trim_start(s))
}

/// The lines of `s`: the pieces between its line feeds. A text without a line
/// feed is one line, and a text that ends in a line feed ends in an empty line.
pub open spec fn lines(s: Seq<char>) -> Seq<Seq<char>>
    decreases s.len(),
{
    let n = find(s, '\n') as int;
    if n >= s.len() {
        seq![s]
    } else {
        seq![s.subrange(0, n)] + lines(s.subrange(n + 1, s.len() as int))
    }
}

/// A text without a line feed is a single line.
pub proof fn lemma_single_line(s: Seq<char>)
    requires
        !s.contains('\n'),
    ensures
        lines(s) == seq![s],
{
    lemma_find(s, '\n');
    if find(s, '\n') < s.len() {
        assert(s.contains(s[find(s, '\n') as int]));
    }
}

/// The first line of a text ends at its first line feed, and the lines of what
/// follows the line feed follow it.
pub proof fn lemma_first_line(head: Seq<char>, rest: Seq<char>)
    requires
        !head.contains('\n'),
    ensures
        lines(head + seq!['\n'] + rest) == seq![head] + lines(rest),
{
    let s = head + seq!['\n'] + rest;
    let n = head.len() as int;
    assert forall|j: int| 0 <= j < n implies s[j] != '\n' by {
        assert(s[j] == head[j]);
        assert(head.contains(head[j]));
    }
    assert(s[n] == '\n');
    lemma_find_is(s, '\n', n);
    assert(s.subrange(0, n) =~= head);
    assert(s.subrange(n + 1, s.len() as int) =~= rest);
}

/// Whether `c` is blank.
pub fn blank(c: char) -> (b: bool)
    ensures
        b == is_blank(c),
{
    c == ' ' || c == '\t' || c == '\r'
}

/// `s` without the blank characters at either end.
pub fn trimmed(s: &str) -> (t: &str)
    ensures
        t@ == trim(s@),
{
    let n: usize = s.unicode_len();
    let mut from: usize = 0;
    assert(s@.subrange(0, n as int) =~= s@);
    while from < n && blank(s.get_char(from))
        invariant
            n == s@.len(),
            from <= n,
            trim_start(s@) == trim_start(s@.subrange(from as int, n as int)),
        decreases n - from,
    {
        proof {
            let rest = s@.subrange(from as int, n as int);
            assert(rest.drop_first() =~= s@.subrange(from + 1, n as int));
        }
        from += 1;
    }
    let mut to: usize = n;
    while to > from && blank(s.get_char(to - 1))
        invariant
            n == s@.len(),
            from <= to <= n,
            trim(s@) == trim_end(s@.subrange(from as int, to as int)),
        decreases to - from,
    {
        proof {
            let rest = s@.subrange(from as int, to as int);
            assert(rest.drop_last() =~= s@.subrange(from as int, to - 1));
        }
        to -= 1;
    }
    s.substring_char(from, to)
}

/// The lines of `s`, in order.
pub fn split_lines(s: &str) -> (out: Vec<String>)
    ensures
        out@.map_values(|line: String| line@) == lines(s@),
{
    let n: usize = s.unicode_len();
    let mut out: Vec<String> = Vec::new();
    let mut from: usize = 0;
    let mut done: bool = false;
    assert(s@.subrange(0, n as int) =~= s@);
    while !done
        invariant
            n == s@.len(),
            from <= n,
            !done ==> lines(s@) == out@.map_values(|line: String| line@) + lines(
                s@.subrange(from as int, n as int),
            ),
            done ==> lines(s@) == out@.map_values(|line: String| line@),
        decreases n - from + (if done { 0int } else { 1int }),
    {
        let rest: &str = s.substring_char(from, n);
        let len: usize = find_char(rest, '\n');
        proof {
            lemma_find(rest@, '\n');
        }
        let line: String = rest.substring_char(0, len).to_owned();
        let ghost before = out@.map_values(|line: String| line@);
        out.push(line);
        assert(out@.map_values(|line: String| line@) =~= before + seq![rest@.subrange(0, len as int)]);
        if len >= n - from {
            done = true;
            assert(rest@.subrange(0, len as int) =~= rest@);
        } else {
            assert(rest@.subrange(len + 1, rest@.len() as int) =~= s@.subrange(
                from + len + 1,
                n as int,
            ));
            from = from + len + 1;
        }
    }
    out
}

} // verus!
