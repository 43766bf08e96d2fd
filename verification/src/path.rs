//! Paths as text: components separated by `/`.

use crate::text::{find, find_char, lemma_find_is};
use vstd::prelude::*;
use vstd::string::*;

verus! {

/// Where the last component of `s` starts: the length of the longest prefix of
/// `s` that is empty or ends in `/`.
pub open spec fn component_start(s: Seq<char>) -> nat
    decreases s.len(),
{
    if s.len() == 0 || s.last() == '/' {
        s.len()
    } else {
        component_start(s.drop_last())
    }
}

/// Whether `s` ends in a component that is a single dot.
pub open spec fn ends_in_dot_component(s: Seq<char>) -> bool {
    s.len() > 0 && s.last() == '.' && (s.len() == 1 || s[s.len() - 2] == '/')
}

/// The file name of the path `s`: its last component, trailing slashes and
/// trailing `.` components set aside. A path without components has none, and
/// neither has one that ends in `..`.
pub open spec fn file_name(s: Seq<char>) -> Option<Seq<char>>
    decreases s.len(),
{
    if s.len() == 0 {
        None
    } else if s.last() == '/' || ends_in_dot_component(s) {
        file_name(s.drop_last())
    } else {
        let name = s.subrange(component_start(s) as int, s.len() as int);
        if name == seq!['.', '.'] {
            None
        } else {
            Some(name)
        }
    }
}

/// Whether `name` can stand as the last component of a path and be found again:
/// it is not empty, holds no `/`, and is neither `.` nor `..`.
pub open spec fn is_plain_name(name: Seq<char>) -> bool {
    &&& name.len() > 0
    &&& !name.contains('/')
    &&& name != seq!['.']
    &&& name != seq!['.', '.']
}

/// `part` appended to the path `base`, with one `/` between them unless `base` is
/// empty or already ends in one.
pub open spec fn joined(base: Seq<char>, part: Seq<char>) -> Seq<char> {
    if base.len() == 0 || base.last() == '/' {
        base + part
    } else {
        base + seq!['/'] + part
    }
}

/// Whether `c` may stand in the scheme of a URL: an ASCII letter or digit, `+`,
/// `-` or `.`.
pub open spec fn is_scheme_char(c: char) -> bool {
    ||| 'a' <= c <= 'z'
    ||| 'A' <= c <= 'Z'
    ||| '0' <= c <= '9'
    ||| c == '+'
    ||| c == '-'
    ||| c == '.'
}

/// Whether `link` begins with the scheme of a URL: one or more scheme characters
/// and a colon.
pub open spec fn has_scheme(link: Seq<char>) -> bool {
    let colon = find(link, ':') as int;
    &&& 0 < colon < link.len()
    &&& forall|i: int| 0 <= i < colon ==> is_scheme_char(#[trigger] link[i])
}

/// Whether `link` points away from the site: it begins with a scheme, as
/// `https://example.com/pic.png` does, or with two slashes.
pub open spec fn is_remote(link: Seq<char>) -> bool {
    has_scheme(link) || (link.len() >= 2 && link[0] == '/' && link[1] == '/')
}

/// The last component starts inside the text, and no `/` follows its start.
pub proof fn lemma_component_start(s: Seq<char>)
    ensures
        component_start(s) <= s.len(),
        component_start(s) > 0 ==> s[component_start(s) - 1] == '/',
        forall|j: int| component_start(s) <= j < s.len() ==> s[j] != '/',
    decreases s.len(),
{
    if s.len() > 0 && s.last() != '/' {
        let t = s.drop_last();
        lemma_component_start(t);
        assert forall|j: int| component_start(s) <= j < s.len() implies s[j] != '/' by {
            if j < t.len() {
                assert(s[j] == t[j]);
            }
        }
    }
}

/// A position that is the start of the text or follows a `/`, with no `/` after
/// it, is where the last component starts.
pub proof fn lemma_component_start_is(s: Seq<char>, i: int)
    requires
        0 <= i <= s.len(),
        i > 0 ==> s[i - 1] == '/',
        forall|j: int| i <= j < s.len() ==> s[j] != '/',
    ensures
        component_start(s) == i,
{
    lemma_component_start(s);
    let c = component_start(s) as int;
    if c < i {
        assert(s[i - 1] != '/');
    } else if i < c {
        assert(s[c - 1] != '/');
    }
}

/// A plain name that follows a directory prefix is the file name of the whole:
/// the prefix is dropped, whatever it holds.
pub proof fn lemma_file_name_after_prefix(prefix: Seq<char>, name: Seq<char>)
    requires
        prefix.len() == 0 || prefix.last() == '/',
        is_plain_name(name),
    ensures
        file_name(prefix + name) == Some(name),
{
    let s = prefix + name;
    let p = prefix.len() as int;
    assert forall|j: int| p <= j < s.len() implies s[j] != '/' by {
        assert(s[j] == name[j - p]);
        assert(name.contains(name[j - p]));
    }
    assert(s.last() == name.last());
    if ends_in_dot_component(s) {
        if name.len() >= 2 {
            assert(s[s.len() - 2] == name[name.len() - 2]);
        } else {
            assert(name =~= seq!['.']);
        }
    }
    if p > 0 {
        assert(s[p - 1] == prefix.last());
    }
    lemma_component_start_is(s, p);
    assert(s.subrange(p, s.len() as int) =~= name);
}

/// The file name of a plain name joined to any directory is that name.
pub proof fn lemma_file_name_of_joined(dir: Seq<char>, name: Seq<char>)
    requires
        is_plain_name(name),
    ensures
        file_name(joined(dir, name)) == Some(name),
{
    if dir.len() == 0 || dir.last() == '/' {
        lemma_file_name_after_prefix(dir, name);
    } else {
        lemma_file_name_after_prefix(dir + seq!['/'], name);
    }
}

/// A link that begins with `https://` or `http://` points away from the site.
pub proof fn lemma_web_links_are_remote(rest: Seq<char>)
    ensures
        is_remote("https://"@ + rest),
        is_remote("http://"@ + rest),
{
    reveal_strlit("https://");
    reveal_strlit("http://");
    let secure = "https://"@ + rest;
    lemma_find_is(secure, ':', 5);
    assert(has_scheme(secure));
    let plain = "http://"@ + rest;
    lemma_find_is(plain, ':', 4);
    assert(has_scheme(plain));
}

/// The file name of a path, where it has one.
pub fn basename(path: &str) -> (name: Option<String>)
    ensures
        match name {
            Some(n) => file_name(path@) == Some(n@),
            None => file_name(path@) is None,
        },
{
    let n: usize = path.unicode_len();
    let mut end: usize = n;
    assert(path@.subrange(0, n as int) =~= path@);
    loop
        invariant
            n == path@.len(),
            end <= n,
            file_name(path@) == file_name(path@.subrange(0, end as int)),
        ensures
            0 < end,
            path@[end - 1] != '/',
            !ends_in_dot_component(path@.subrange(0, end as int)),
        decreases end,
    {
        if end == 0 {
            return None;
        }
        let last: char = path.get_char(end - 1);
        let ghost head = path@.subrange(0, end as int);
        assert(head.drop_last() =~= path@.subrange(0, end - 1));
        assert(head.last() == last);
        if last == '/' {
            end -= 1;
        } else if last == '.' && (end == 1 || path.get_char(end - 2) == '/') {
            assert(ends_in_dot_component(head));
            end -= 1;
        } else {
            assert(!ends_in_dot_component(head));
            break ;
        }
    }
    let ghost head = path@.subrange(0, end as int);
    assert(head.last() == path@[end - 1]);
    let mut start: usize = end;
    while start > 0 && path.get_char(start - 1) != '/'
        invariant
            n == path@.len(),
            0 < end <= n,
            start <= end,
            head == path@.subrange(0, end as int),
            forall|j: int| start <= j < end ==> head[j] != '/',
        decreases start,
    {
        start -= 1;
    }
    proof {
        lemma_component_start_is(head, start as int);
        assert(head.subrange(start as int, end as int) =~= path@.subrange(
            start as int,
            end as int,
        ));
    }
    let name: &str = path.substring_char(start, end);
    let dots: bool = end - start == 2 && name.get_char(0) == '.' && name.get_char(1) == '.';
    if dots {
        assert(name@ =~= seq!['.', '.']);
        None
    } else {
        assert(name@ != seq!['.', '.']) by {
            if name@ == seq!['.', '.'] {
                assert(seq!['.', '.'].len() == 2);
                assert(seq!['.', '.'][0] == '.');
                assert(seq!['.', '.'][1] == '.');
            }
        }
        Some(name.to_owned())
    }
}

/// Whether `c` may stand in the scheme of a URL.
pub fn scheme_char(c: char) -> (b: bool)
    ensures
        b == is_scheme_char(c),
{
    ('a' <= c && c <= 'z') || ('A' <= c && c <= 'Z') || ('0' <= c && c <= '9') || c == '+' || c
        == '-' || c == '.'
}

/// Whether `link` points away from the site.
pub fn remote(link: &str) -> (b: bool)
    ensures
        b == is_remote(link@),
{
    let n: usize = link.unicode_len();
    if n >= 2 && link.get_char(0) == '/' && link.get_char(1) == '/' {
        return true;
    }
    let colon: usize = find_char(link, ':');
    if colon == 0 || colon >= n {
        return false;
    }
    let mut i: usize = 0;
    while i < colon
        invariant
            n == link@.len(),
            i <= colon < n,
            colon == find(link@, ':'),
            !(link@[0] == '/' && link@[1] == '/'),
            forall|j: int| 0 <= j < i ==> is_scheme_char(#[trigger] link@[j]),
        decreases colon - i,
    {
        if !scheme_char(link.get_char(i)) {
            return false;
        }
        i += 1;
    }
    true
}

/// `part` appended to the path `base`.
pub fn join_path(base: &str, part: &str) -> (path: String)
    ensures
        path@ == joined(base@, part@),
{
    let n: usize = base.unicode_len();
    let mut path: String = base.to_owned();
    if n > 0 && base.get_char(n - 1) != '/' {
        proof {
            reveal_strlit("/");
        }
        path.append("/");
        assert(path@ =~= base@ + seq!['/']);
    }
    path.append(part);
    path
}

} // verus!
