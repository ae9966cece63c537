//! Whitespace-separated fields of a line of text.
//!
//! A field is a maximal run of characters that are not whitespace. Fields
//! are numbered from zero in the order in which they stand in the line.

use crate::chars::{is_space, is_whitespace, slice_of};
use vstd::prelude::*;

verus! {

/// The first position at or after `i` that holds no whitespace character,
/// or the length of `s` where only whitespace follows.
pub open spec fn skip_spaces(s: Seq<char>, i: int) -> int
    decreases s.len() - i,
{
    if 0 <= i < s.len() && is_space(s[i]) {
        skip_spaces(s, i + 1)
    } else {
        i
    }
}

/// The first position at or after `i` that holds a whitespace character,
/// or the length of `s` where none follows.
pub open spec fn skip_word(s: Seq<char>, i: int) -> int
    decreases s.len() - i,
{
    if 0 <= i < s.len() && !is_space(s[i]) {
        skip_word(s, i + 1)
    } else {
        i
    }
}

/// Where field `n` of `s` begins and ends, counting the fields from
/// position `i` on; `None` where fewer than `n + 1` fields follow `i`.
pub open spec fn field_bounds(s: Seq<char>, i: int, n: nat) -> Option<(int, int)>
    decreases n,
{
    let a = skip_spaces(s, i);
    if a >= s.len() {
        None
    } else if n == 0 {
        Some((a, skip_word(s, a)))
    } else {
        field_bounds(s, skip_word(s, a), (n - 1) as nat)
    }
}

/// Field `n` of `s`, or `None` where `s` has fewer than `n + 1` fields.
pub open spec fn field(s: Seq<char>, n: nat) -> Option<Seq<char>> {
    match field_bounds(s, 0, n) {
        Some((a, b)) => Some(s.subrange(a, b)),
        None => None,
    }
}

/// `skip_spaces` stops inside the line, on a character that is no
/// whitespace or at the end, and everything it passed is whitespace.
pub proof fn lemma_skip_spaces(s: Seq<char>, i: int)
    requires
        0 <= i <= s.len(),
    ensures
        i <= skip_spaces(s, i) <= s.len(),
        skip_spaces(s, i) < s.len() ==> !is_space(s[skip_spaces(s, i)]),
        forall|k: int| i <= k < skip_spaces(s, i) ==> is_space(#[trigger] s[k]),
    decreases s.len() - i,
{
    if i < s.len() && is_space(s[i]) {
        lemma_skip_spaces(s, i + 1);
    }
}

/// `skip_word` stops inside the line, on a whitespace character or at the
/// end, and nothing it passed is whitespace.
pub proof fn lemma_skip_word(s: Seq<char>, i: int)
    requires
        0 <= i <= s.len(),
    ensures
        i <= skip_word(s, i) <= s.len(),
        skip_word(s, i) < s.len() ==> is_space(s[skip_word(s, i)]),
        forall|k: int| i <= k < skip_word(s, i) ==> !is_space(#[trigger] s[k]),
    decreases s.len() - i,
{
    if i < s.len() && !is_space(s[i]) {
        lemma_skip_word(s, i + 1);
    }
}

/// Whether position `i` of `s` cuts no word in two: it is an end of the
/// line, or whitespace stands on one side of it.
pub open spec fn between_words(s: Seq<char>, i: int) -> bool {
    ||| i == 0
    ||| i == s.len()
    ||| 0 < i < s.len() && (is_space(s[i - 1]) || is_space(s[i]))
}

/// The bounds of a field mark a maximal run of characters that are no
/// whitespace: the run is not empty, holds no whitespace, and is hemmed
/// in on each side by whitespace or by an end of the line.
pub proof fn lemma_field_bounds(s: Seq<char>, i: int, n: nat)
    requires
        0 <= i <= s.len(),
        between_words(s, i),
        field_bounds(s, i, n) is Some,
    ensures
        ({
            let (a, b) = field_bounds(s, i, n).unwrap();
            &&& i <= a < b <= s.len()
            &&& forall|k: int| a <= k < b ==> !is_space(#[trigger] s[k])
            &&& a == 0 || is_space(s[a - 1])
            &&& b == s.len() || is_space(s[b])
        }),
    decreases n,
{
    lemma_skip_spaces(s, i);
    let a = skip_spaces(s, i);
    lemma_skip_word(s, a);
    if n > 0 {
        lemma_field_bounds(s, skip_word(s, a), (n - 1) as nat);
    }
}

/// Fields follow one another in the line: a later field begins after the
/// end of an earlier one, with whitespace between the two.
pub proof fn lemma_fields_in_order(s: Seq<char>, n: nat, m: nat)
    requires
        n < m,
        field_bounds(s, 0, m) is Some,
    ensures
        field_bounds(s, 0, n) is Some,
        field_bounds(s, 0, n).unwrap().1 < field_bounds(s, 0, m).unwrap().0,
{
    lemma_later_field(s, 0, n, m);
}

/// The same, counting the fields from a position between words.
proof fn lemma_later_field(s: Seq<char>, i: int, n: nat, m: nat)
    requires
        0 <= i <= s.len(),
        between_words(s, i),
        n < m,
        field_bounds(s, i, m) is Some,
    ensures
        field_bounds(s, i, n) is Some,
        field_bounds(s, i, n).unwrap().1 < field_bounds(s, i, m).unwrap().0,
    decreases n,
{
    lemma_skip_spaces(s, i);
    let a = skip_spaces(s, i);
    lemma_skip_word(s, a);
    let b = skip_word(s, a);
    if n == 0 {
        lemma_field_bounds(s, b, (m - 1) as nat);
        lemma_skip_spaces(s, b);
    } else {
        lemma_later_field(s, b, (n - 1) as nat, (m - 1) as nat);
    }
}

/// A field is never empty and holds no whitespace.
pub proof fn lemma_field_is_word(s: Seq<char>, n: nat)
    requires
        field(s, n) is Some,
    ensures
        field(s, n).unwrap().len() > 0,
        forall|k: int|
            0 <= k < field(s, n).unwrap().len() ==> !is_space(#[trigger] field(s, n).unwrap()[k]),
{
    lemma_field_bounds(s, 0, n);
}

/// A line has a first field exactly when some character of it is no
/// whitespace: an empty or blank line has none.
pub proof fn lemma_first_field_exists(s: Seq<char>)
    ensures
        field(s, 0) is Some <==> exists|k: int| 0 <= k < s.len() && !is_space(#[trigger] s[k]),
{
    lemma_skip_spaces(s, 0);
    let a = skip_spaces(s, 0);
    if a < s.len() {
        assert(!is_space(s[a]));
    }
}

/// Passes over whitespace from `from` on.
fn pass_spaces(line: &[char], from: usize) -> (at: usize)
    requires
        from <= line@.len(),
    ensures
        at == skip_spaces(line@, from as int),
        from <= at <= line@.len(),
{
    let mut at: usize = from;
    while at < line.len() && is_whitespace(line[at])
        invariant
            from <= at <= line@.len(),
            skip_spaces(line@, from as int) == skip_spaces(line@, at as int),
        decreases line@.len() - at,
    {
        at = at + 1;
    }
    at
}

/// Passes over characters that are no whitespace from `from` on.
fn pass_word(line: &[char], from: usize) -> (at: usize)
    requires
        from <= line@.len(),
    ensures
        at == skip_word(line@, from as int),
        from <= at <= line@.len(),
{
    let mut at: usize = from;
    while at < line.len() && !is_whitespace(line[at])
        invariant
            from <= at <= line@.len(),
            skip_word(line@, from as int) == skip_word(line@, at as int),
        decreases line@.len() - at,
    {
        at = at + 1;
    }
    at
}

/// Finds field `n` of `line`: the positions at which it begins and ends.
pub fn find_field(line: &[char], n: usize) -> (found: Option<(usize, usize)>)
    ensures
        slice_of(line@, found) == field(line@, n as nat),
        match found {
            Some((a, b)) => field_bounds(line@, 0, n as nat) == Some((a as int, b as int)) && a < b
                <= line@.len(),
            None => field_bounds(line@, 0, n as nat) is None,
        },
{
    let mut at: usize = 0;
    let mut k: usize = 0;
    loop
        invariant
            at <= line@.len(),
            k <= n,
            field_bounds(line@, 0, n as nat) == field_bounds(line@, at as int, (n - k) as nat),
        decreases n - k,
    {
        let a: usize = pass_spaces(line, at);
        if a >= line.len() {
            return None;
        }
        let b: usize = pass_word(line, a);
        if k == n {
            proof {
                lemma_skip_spaces(line@, at as int);
                lemma_skip_word(line@, a + 1);
            }
            return Some((a, b));
        }
        at = b;
        k = k + 1;
    }
}

} // verus!
