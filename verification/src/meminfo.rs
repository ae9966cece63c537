//! The memory-information table: lines of the form `Key:   value unit`.
//!
//! Two keys are consulted, the total and the available memory. For each,
//! the line that counts is the last one that begins with the key, and the
//! value is the second field of that line.

use crate::chars::{cut, slice_of, text_of, to_chars};
use crate::fields::{field, find_field};
use vstd::prelude::*;
use vstd::slice::slice_subrange;

verus! {

/// The key that begins the line of the total memory.
pub open spec fn total_key() -> Seq<char> {
    "MemTotal:"@
}

/// The key that begins the line of the available memory.
pub open spec fn available_key() -> Seq<char> {
    "MemAvailable:"@
}

/// The first position at or after `i` that holds a line feed, or the
/// length of `s` where none follows.
pub open spec fn line_end(s: Seq<char>, i: int) -> int
    decreases s.len() - i,
{
    if 0 <= i < s.len() && s[i] != '\n' {
        line_end(s, i + 1)
    } else {
        i
    }
}

/// Where the content of a line ends that begins at `i` and whose line feed,
/// if it has one, stands at `e`: a carriage return just before the line
/// feed belongs to the line ending.
pub open spec fn content_end(s: Seq<char>, i: int, e: int) -> int {
    if i < e < s.len() && s[e - 1] == '\r' {
        e - 1
    } else {
        e
    }
}

/// The lines of `s` from position `i` on. A line ends at a line feed or at
/// the end of the text; the line ending is not part of the line, and
/// nothing follows a final line ending.
pub open spec fn lines_from(s: Seq<char>, i: int) -> Seq<Seq<char>>
    decreases s.len() + 1 - i,
{
    if 0 <= i < s.len() {
        let e = line_end(s, i);
        proof {
            lemma_line_end(s, i);
        }
        seq![s.subrange(i, content_end(s, i, e))] + lines_from(s, e + 1)
    } else {
        Seq::empty()
    }
}

/// The lines of `s`.
pub open spec fn lines(s: Seq<char>) -> Seq<Seq<char>> {
    lines_from(s, 0)
}

/// The last of `ls` that begins with `key`.
pub open spec fn last_with_key(ls: Seq<Seq<char>>, key: Seq<char>) -> Option<Seq<char>>
    decreases ls.len(),
{
    if ls.len() == 0 {
        None
    } else if key.is_prefix_of(ls.last()) {
        Some(ls.last())
    } else {
        last_with_key(ls.drop_last(), key)
    }
}

/// The value that `ls` give for `key`: the second field of the last line
/// that begins with `key`. There is none where no line begins with `key`,
/// and none where that last line has a single field.
pub open spec fn value_in(ls: Seq<Seq<char>>, key: Seq<char>) -> Option<Seq<char>> {
    match last_with_key(ls, key) {
        Some(l) => field(l, 1),
        None => None,
    }
}

/// The value that the table `s` gives for `key`.
pub open spec fn keyed_value(s: Seq<char>, key: Seq<char>) -> Option<Seq<char>> {
    value_in(lines(s), key)
}

/// `line_end` stops inside the text, on a line feed or at the end, and
/// passes no line feed.
pub proof fn lemma_line_end(s: Seq<char>, i: int)
    requires
        0 <= i <= s.len(),
    ensures
        i <= line_end(s, i) <= s.len(),
        line_end(s, i) < s.len() ==> s[line_end(s, i)] == '\n',
        forall|k: int| i <= k < line_end(s, i) ==> #[trigger] s[k] != '\n',
    decreases s.len() - i,
{
    if i < s.len() && s[i] != '\n' {
        lemma_line_end(s, i + 1);
    }
}

/// A line that does not begin with `key` leaves the value for `key` as
/// the lines before it gave it; one that does decides it alone.
pub proof fn lemma_value_in_push(ls: Seq<Seq<char>>, l: Seq<char>, key: Seq<char>)
    ensures
        value_in(ls.push(l), key) == if key.is_prefix_of(l) {
            field(l, 1)
        } else {
            value_in(ls, key)
        },
{
    assert(ls.push(l).last() == l);
    assert(ls.push(l).drop_last() =~= ls);
}

/// The line that `last_with_key` picks begins with `key`, and no line after
/// it does; it picks none exactly where no line begins with `key`.
pub proof fn lemma_last_with_key(ls: Seq<Seq<char>>, key: Seq<char>)
    ensures
        match last_with_key(ls, key) {
            Some(l) => exists|i: int|
                0 <= i < ls.len() && #[trigger] ls[i] == l && key.is_prefix_of(l) && forall|j: int|
                    i < j < ls.len() ==> !key.is_prefix_of(#[trigger] ls[j]),
            None => forall|j: int| 0 <= j < ls.len() ==> !key.is_prefix_of(#[trigger] ls[j]),
        },
    decreases ls.len(),
{
    if ls.len() > 0 {
        let n = ls.len() - 1;
        if key.is_prefix_of(ls.last()) {
            assert(ls[n] == ls.last());
        } else {
            let front = ls.drop_last();
            lemma_last_with_key(front, key);
            match last_with_key(front, key) {
                Some(l) => {
                    let i = choose|i: int|
                        0 <= i < front.len() && #[trigger] front[i] == l && key.is_prefix_of(l)
                            && forall|j: int|
                            i < j < front.len() ==> !key.is_prefix_of(#[trigger] front[j]);
                    assert(ls[i] == l);
                    assert forall|j: int| i < j < ls.len() implies !key.is_prefix_of(
                        #[trigger] ls[j],
                    ) by {
                        if j < n {
                            assert(front[j] == ls[j]);
                        }
                    }
                },
                None => {
                    assert forall|j: int| 0 <= j < ls.len() implies !key.is_prefix_of(
                        #[trigger] ls[j],
                    ) by {
                        if j < n {
                            assert(front[j] == ls[j]);
                        }
                    }
                },
            }
        }
    }
}

/// A table in which no line begins with `key` gives no value for `key`.
pub proof fn lemma_no_key_no_value(s: Seq<char>, key: Seq<char>)
    requires
        forall|j: int| 0 <= j < lines(s).len() ==> !key.is_prefix_of(#[trigger] lines(s)[j]),
    ensures
        keyed_value(s, key) is None,
{
    lemma_last_with_key(lines(s), key);
}

/// An empty table has no lines, and so gives no value for any key.
pub proof fn lemma_empty_table(key: Seq<char>)
    ensures
        lines(Seq::<char>::empty()).len() == 0,
        keyed_value(Seq::<char>::empty(), key) is None,
{
}

/// No line holds a line feed.
pub proof fn lemma_lines_hold_no_line_feed(s: Seq<char>, i: int)
    requires
        0 <= i <= s.len(),
    ensures
        forall|j: int, k: int|
            0 <= j < lines_from(s, i).len() && 0 <= k < lines_from(s, i)[j].len() ==> (
            #[trigger] lines_from(s, i)[j][k]) != '\n',
    decreases s.len() - i,
{
    if i < s.len() {
        lemma_line_end(s, i);
        let e = line_end(s, i);
        let head = s.subrange(i, content_end(s, i, e));
        let rest = lines_from(s, e + 1);
        if e < s.len() {
            lemma_lines_hold_no_line_feed(s, e + 1);
        }
        assert forall|j: int, k: int|
            0 <= j < lines_from(s, i).len() && 0 <= k < lines_from(s, i)[j].len() implies (
        #[trigger] lines_from(s, i)[j][k]) != '\n' by {
            if j == 0 {
                assert(lines_from(s, i)[0] == head);
                assert(head[k] == s[i + k]);
            } else {
                assert(lines_from(s, i)[j] == rest[j - 1]);
            }
        }
    }
}

/// Passes over the characters of a line from `from` on.
fn pass_line(text: &[char], from: usize) -> (at: usize)
    requires
        from <= text@.len(),
    ensures
        at == line_end(text@, from as int),
        from <= at <= text@.len(),
{
    let mut at: usize = from;
    while at < text.len() && text[at] != '\n'
        invariant
            from <= at <= text@.len(),
            line_end(text@, from as int) == line_end(text@, at as int),
        decreases text@.len() - at,
    {
        at = at + 1;
    }
    at
}

/// Tells whether `line` begins with `key`.
pub fn begins_with(line: &[char], key: &[char]) -> (r: bool)
    ensures
        r == key@.is_prefix_of(line@),
{
    if key.len() > line.len() {
        return false;
    }
    let mut i: usize = 0;
    while i < key.len()
        invariant
            i <= key@.len() <= line@.len(),
            forall|j: int| 0 <= j < i ==> key@[j] == line@[j],
        decreases key@.len() - i,
    {
        if key[i] != line[i] {
            assert(line@.subrange(0, key@.len() as int)[i as int] != key@[i as int]);
            return false;
        }
        i = i + 1;
    }
    assert(key@ =~= line@.subrange(0, key@.len() as int));
    true
}

/// Finds the value that the table `text` gives for `key`: the positions
/// at which it begins and ends.
pub fn find_keyed_value(text: &[char], key: &[char]) -> (found: Option<(usize, usize)>)
    ensures
        slice_of(text@, found) == keyed_value(text@, key@),
        found matches Some((a, b)) ==> a < b <= text@.len(),
{
    let mut start: usize = 0;
    let mut found: Option<(usize, usize)> = None;
    let ghost mut done: Seq<Seq<char>> = Seq::empty();
    while start < text.len()
        invariant
            start <= text@.len(),
            lines(text@) =~= done + lines_from(text@, start as int),
            slice_of(text@, found) == value_in(done, key@),
            found matches Some((a, b)) ==> a < b <= text@.len(),
        decreases text@.len() - start,
    {
        let e: usize = pass_line(text, start);
        let c: usize = if start < e && e < text.len() && text[e - 1] == '\r' {
            e - 1
        } else {
            e
        };
        let line = slice_subrange(text, start, c);
        proof {
            lemma_value_in_push(done, line@, key@);
        }
        if begins_with(line, key) {
            found = match find_field(line, 1) {
                Some((a, b)) => {
                    assert(line@.subrange(a as int, b as int) =~= text@.subrange(
                        start + a,
                        start + b,
                    ));
                    Some((start + a, start + b))
                },
                None => None,
            };
        }
        proof {
            let rest = lines_from(text@, e + 1);
            assert(lines_from(text@, start as int) == seq![line@] + rest);
            assert(e == text@.len() ==> rest =~= lines_from(text@, e as int));
            assert(done.push(line@) + rest =~= done + (seq![line@] + rest));
            done = done.push(line@);
        }
        start = if e < text.len() {
            e + 1
        } else {
            e
        };
    }
    assert(done + lines_from(text@, start as int) =~= done);
    found
}

/// The two values that the agent takes from the memory-information table.
#[derive(Clone, Debug, PartialEq, Eq)]
pub struct MemoryFields {
    /// The value of the total memory, as the table writes it.
    pub total: Option<String>,
    /// The value of the available memory, as the table writes it.
    pub available: Option<String>,
}

/// Takes the values of the total and of the available memory out of the
/// table `text`. Each is `None` where the table gives none.
pub fn memory_fields(text: &str) -> (m: MemoryFields)
    ensures
        text_of(m.total) == keyed_value(text@, total_key()),
        text_of(m.available) == keyed_value(text@, available_key()),
{
    let table = to_chars(text);
    let total_key = to_chars("MemTotal:");
    let available_key = to_chars("MemAvailable:");
    let total = find_keyed_value(table.as_slice(), total_key.as_slice());
    let available = find_keyed_value(table.as_slice(), available_key.as_slice());
    MemoryFields { total: cut(text, total), available: cut(text, available) }
}

} // verus!
