//! The key/value syntax of a front-matter block: one `key = "value"` to a line.
//!
//! A line with an equals sign and a key before it is a field. The key is what
//! stands before the first equals sign, the value what stands after it, both
//! without the blanks around them, and the value without the double quotes that
//! enclose it. Every other line, the fences among them, is passed over. Where a
//! key occurs twice, the later line counts.

use crate::front_matter::FieldMap;
use crate::text::{
    find, find_char, is_blank, lemma_find, lemma_find_is, lines, split_lines, trim, trim_end,
    trim_start, trimmed,
};
use vstd::prelude::*;
use vstd::string::*;

verus! {

/// `v` without the pair of double quotes that encloses it, if one does.
pub open spec fn unquoted(v: Seq<char>) -> Seq<char> {
    if v.len() >= 2 && v[0] == '"' && v.last() == '"' {
        v.subrange(1, v.len() - 1)
    } else {
        v
    }
}

/// The field that `line` holds, as key and value, if it holds one.
pub open spec fn line_field(line: Seq<char>) -> Option<(Seq<char>, Seq<char>)> {
    let eq = find(line, '=') as int;
    if eq >= line.len() {
        None
    } else {
        let key = trim(line.subrange(0, eq));
        if key.len() == 0 {
            None
        } else {
            Some((key, unquoted(trim(line.subrange(eq + 1, line.len() as int)))))
        }
    }
}

/// The fields that a list of lines holds, a later line overriding an earlier one.
pub open spec fn fields_of(lines: Seq<Seq<char>>) -> Map<Seq<char>, Seq<char>>
    decreases lines.len(),
{
    if lines.len() == 0 {
        Map::empty()
    } else {
        let before = fields_of(lines.drop_last());
        match line_field(lines.last()) {
            Some((key, value)) => before.insert(key, value),
            None => before,
        }
    }
}

/// The fields of a front-matter block.
pub open spec fn block_fields(text: Seq<char>) -> Map<Seq<char>, Seq<char>> {
    fields_of(lines(text))
}

/// Whether `key` can be written before an equals sign and read back: it is not
/// empty, neither begins nor ends with a blank, and holds no equals sign.
pub open spec fn is_plain_key(key: Seq<char>) -> bool {
    &&& key.len() > 0
    &&& !is_blank(key[0])
    &&& !is_blank(key.last())
    &&& !key.contains('=')
}

/// The line that assigns `value` to `key`: `key = "value"`.
pub open spec fn assignment(key: Seq<char>, value: Seq<char>) -> Seq<char> {
    key + seq![' ', '=', ' ', '"'] + value + seq!['"']
}

/// An assignment reads back as its key and its value, whatever the value holds.
pub proof fn lemma_assignment_reads_back(key: Seq<char>, value: Seq<char>)
    requires
        is_plain_key(key),
    ensures
        line_field(assignment(key, value)) == Some((key, value)),
{
    let line = assignment(key, value);
    let k = key.len() as int;
    assert forall|j: int| 0 <= j < k + 1 implies line[j] != '=' by {
        if j < k {
            assert(line[j] == key[j]);
            assert(key.contains(key[j]));
        }
    }
    assert(line[k + 1] == '=');
    lemma_find_is(line, '=', k + 1);
    let left = line.subrange(0, k + 1);
    assert(left =~= key.push(' '));
    assert(left[0] == key[0]);
    assert(trim_start(left) == left);
    assert(left.drop_last() =~= key);
    assert(trim_end(key) == key);
    assert(trim(left) == key);
    let right = line.subrange(k + 2, line.len() as int);
    let quoted = seq!['"'] + value + seq!['"'];
    assert(right =~= seq![' '] + quoted);
    assert(right.drop_first() =~= quoted);
    assert(quoted[0] == '"');
    assert(quoted.last() == '"');
    assert(trim_start(quoted) == quoted);
    assert(trim_start(right) == quoted);
    assert(trim_end(quoted) == quoted);
    assert(quoted.subrange(1, quoted.len() - 1) =~= value);
}

/// A line without an equals sign holds no field.
pub proof fn lemma_line_without_equals(line: Seq<char>)
    requires
        !line.contains('='),
    ensures
        line_field(line) is None,
{
    lemma_find(line, '=');
    if find(line, '=') < line.len() {
        assert(line.contains(line[find(line, '=') as int]));
    }
}

/// The fields of a list of lines and one more: the last line overrides.
pub proof fn lemma_fields_of_push(before: Seq<Seq<char>>, line: Seq<char>)
    ensures
        fields_of(before.push(line)) == match line_field(line) {
            Some((key, value)) => fields_of(before).insert(key, value),
            None => fields_of(before),
        },
{
    assert(before.push(line).drop_last() =~= before);
}

/// `v` without the pair of double quotes that encloses it.
pub fn unquote(v: &str) -> (u: &str)
    ensures
        u@ == unquoted(v@),
{
    let n: usize = v.unicode_len();
    if n >= 2 && v.get_char(0) == '"' && v.get_char(n - 1) == '"' {
        v.substring_char(1, n - 1)
    } else {
        v
    }
}

/// The field that `line` holds, if it holds one.
pub fn parse_line(line: &str) -> (field: Option<(String, String)>)
    ensures
        match field {
            Some((key, value)) => line_field(line@) == Some((key@, value@)),
            None => line_field(line@) is None,
        },
{
    let n: usize = line.unicode_len();
    let eq: usize = find_char(line, '=');
    if eq >= n {
        return None;
    }
    let key: &str = trimmed(line.substring_char(0, eq));
    if key.unicode_len() == 0 {
        return None;
    }
    let value: &str = unquote(trimmed(line.substring_char(eq + 1, n)));
    Some((key.to_owned(), value.to_owned()))
}

/// The fields of a front-matter block.
pub fn parse_fields(text: &str) -> (fields: FieldMap)
    ensures
        fields@ == block_fields(text@),
        fields@.dom().finite(),
{
    let all: Vec<String> = split_lines(text);
    let ghost ls = lines(text@);
    let mut fields: FieldMap = FieldMap::new();
    let mut i: usize = 0;
    assert(ls.take(0) =~= Seq::<Seq<char>>::empty());
    while i < all.len()
        invariant
            i <= all.len(),
            all@.map_values(|line: String| line@) == ls,
            fields@ == fields_of(ls.take(i as int)),
            fields@.dom().finite(),
        decreases all.len() - i,
    {
        assert(ls[i as int] == all@[i as int]@);
        assert(ls.take(i + 1).drop_last() =~= ls.take(i as int));
        assert(ls.take(i + 1).last() == ls[i as int]);
        match parse_line(all[i].as_str()) {
            Some((key, value)) => {
                fields.insert(key, value);
            },
            None => {},
        }
        i += 1;
    }
    assert(ls.take(i as int) =~= ls);
    fields
}

} // verus!
