//! The load-average line: fields separated by whitespace, of which the
//! first is the load average over the last minute.

use crate::chars::{cut, is_space, text_of, to_chars};
use crate::fields::{field, find_field, lemma_field_is_word, lemma_first_field_exists};
use vstd::prelude::*;

verus! {

/// The load average over the last minute as the line `s` writes it: its
/// first field.
pub open spec fn one_minute_load(s: Seq<char>) -> Option<Seq<char>> {
    field(s, 0)
}

/// A line that is empty, or holds whitespace only, gives no load average.
pub proof fn lemma_blank_line_gives_no_load(s: Seq<char>)
    requires
        forall|k: int| 0 <= k < s.len() ==> is_space(#[trigger] s[k]),
    ensures
        one_minute_load(s) is None,
{
    lemma_first_field_exists(s);
}

/// The load average that a line gives holds no whitespace and is not
/// empty: it is a single word, the first of the line.
pub proof fn lemma_load_is_first_word(s: Seq<char>)
    requires
        one_minute_load(s) is Some,
    ensures
        one_minute_load(s).unwrap().len() > 0,
        forall|k: int|
            0 <= k < one_minute_load(s).unwrap().len() ==> !is_space(
                #[trigger] one_minute_load(s).unwrap()[k],
            ),
{
    lemma_field_is_word(s, 0);
}

/// Takes the load average over the last minute out of the line `text`, as
/// the line writes it. It is `None` where the line is empty or blank.
pub fn load_field(text: &str) -> (load: Option<String>)
    ensures
        text_of(load) == one_minute_load(text@),
{
    let line = to_chars(text);
    let found = find_field(line.as_slice(), 0);
    cut(text, found)
}

} // verus!
