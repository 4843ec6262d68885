//! The credential that a trigger carries in its payload.
//!
//! A payload is a URL-encoded body or a query string: fields separated by `&`,
//! each a name, an equals sign and a value. The credential is the value of the
//! first `token` field.

use vstd::prelude::*;
use vstd::std_specs::iter::IteratorSpec;
use vstd::string::StrSliceExecFns;
use vstd::string::StringExecFns;

verus! {

broadcast use vstd::string::group_string_axioms;

/// The credential field up to its value: the field's name and the equals sign.
pub const FIELD_OPENING: &'static str = "token=";

/// The character that ends a field's value, where the payload does not end
/// there.
pub const FIELD_SEPARATOR: char = '&';

/// Whether `part` stands in `whole` at the offset `at`.
pub open spec fn stands_at(part: Seq<char>, whole: Seq<char>, at: int) -> bool {
    0 <= at && at + part.len() <= whole.len() && whole.subrange(at, at + part.len()) == part
}

/// Whether `part` occurs somewhere in `whole`.
pub open spec fn occurs(part: Seq<char>, whole: Seq<char>) -> bool {
    exists|at: int| stands_at(part, whole, at)
}

/// Whether the first occurrence of `part` in `whole` is the one at `at`.
pub open spec fn first_at(part: Seq<char>, whole: Seq<char>, at: int) -> bool {
    stands_at(part, whole, at) && forall|i: int| 0 <= i < at ==> !stands_at(part, whole, i)
}

/// The offset of the first occurrence of `part` in `whole`, if there is one.
pub open spec fn first_occurrence(part: Seq<char>, whole: Seq<char>) -> Option<int> {
    if occurs(part, whole) {
        Some(choose|at: int| first_at(part, whole, at))
    } else {
        None
    }
}

/// Where the value that starts at `from` ends: at the next separator, or at the
/// end of the text where no separator follows.
pub open spec fn value_end(text: Seq<char>, from: int) -> int
    decreases text.len() - from,
{
    if from < 0 || from >= text.len() {
        text.len() as int
    } else if text[from] == FIELD_SEPARATOR {
        from
    } else {
        value_end(text, from + 1)
    }
}

/// The credential of a payload: the value that follows the first occurrence of
/// `token=`, running to the next `&` or to the end of the payload. A payload
/// in which `token=` does not occur has no credential.
pub open spec fn credential(payload: Seq<char>) -> Option<Seq<char>> {
    match first_occurrence(FIELD_OPENING@, payload) {
        Some(at) => {
            let from = at + FIELD_OPENING@.len();
            Some(payload.subrange(from, value_end(payload, from)))
        },
        None => None,
    }
}

/// There is one first occurrence at most, and it is the one that
/// `first_occurrence` gives.
pub proof fn lemma_first_occurrence(part: Seq<char>, whole: Seq<char>, at: int)
    requires
        first_at(part, whole, at),
    ensures
        first_occurrence(part, whole) == Some(at),
{
    let chosen = choose|at: int| first_at(part, whole, at);
    assert(first_at(part, whole, chosen));
    if chosen < at {
        assert(!stands_at(part, whole, chosen));
    } else if at < chosen {
        assert(!stands_at(part, whole, at));
    }
}

/// A value ends at or after its start and within the text; it holds no
/// separator; and it ends at a separator unless it ends the text.
pub proof fn lemma_value_end(text: Seq<char>, from: int)
    requires
        0 <= from <= text.len(),
    ensures
        from <= value_end(text, from) <= text.len(),
        forall|i: int| from <= i < value_end(text, from) ==> text[i] != FIELD_SEPARATOR,
        value_end(text, from) < text.len() ==> text[value_end(text, from)] == FIELD_SEPARATOR,
    decreases text.len() - from,
{
    if from < text.len() && text[from] != FIELD_SEPARATOR {
        lemma_value_end(text, from + 1);
    }
}

/// A stretch without a separator, followed by a separator or by the end of the
/// text, is the value that starts there.
pub proof fn lemma_value_ends_at(text: Seq<char>, from: int, end: int)
    requires
        0 <= from <= end <= text.len(),
        forall|i: int| from <= i < end ==> text[i] != FIELD_SEPARATOR,
        end < text.len() ==> text[end] == FIELD_SEPARATOR,
    ensures
        value_end(text, from) == end,
    decreases end - from,
{
    if from < end {
        lemma_value_ends_at(text, from + 1, end);
    }
}

/// The characters of a text, one by one.
pub fn chars_of(text: &str) -> (chars: Vec<char>)
    ensures
        chars@ == text@,
{
    let mut chars: Vec<char> = Vec::new();
    let mut rest = text.chars();
    loop
        invariant
            chars@ + rest.remaining() == text@,
            rest.decrease() is Some,
        decreases rest.decrease()->0,
    {
        match rest.next() {
            Some(c) => chars.push(c),
            None => return chars,
        }
    }
}

/// Whether `part` stands in `whole` at the offset `at`.
fn found_at(part: &Vec<char>, whole: &Vec<char>, at: usize) -> (yes: bool)
    requires
        at + part.len() <= whole.len(),
    ensures
        yes == stands_at(part@, whole@, at as int),
{
    let mut k: usize = 0;
    while k < part.len()
        invariant
            k <= part.len(),
            at + part.len() <= whole.len(),
            forall|j: int| 0 <= j < k ==> whole@[at + j] == part@[j],
        decreases part.len() - k,
    {
        if whole[at + k] != part[k] {
            return false;
        }
        k += 1;
    }
    assert(whole@.subrange(at as int, at + part.len()) =~= part@);
    true
}

/// The offset of the first occurrence of `part` in `whole`, if there is one.
pub fn find(whole: &Vec<char>, part: &Vec<char>) -> (at: Option<usize>)
    ensures
        first_occurrence(part@, whole@) == match at {
            Some(offset) => Some(offset as int),
            None => None::<int>,
        },
        at matches Some(offset) ==> offset + part.len() <= whole.len(),
{
    if part.len() > whole.len() {
        return None;
    }
    let last = whole.len() - part.len();
    let mut at: usize = 0;
    while at < last
        invariant
            at <= last,
            last == whole.len() - part.len(),
            forall|i: int| 0 <= i < at ==> !stands_at(part@, whole@, i),
        decreases last - at,
    {
        if found_at(part, whole, at) {
            proof {
                lemma_first_occurrence(part@, whole@, at as int);
            }
            return Some(at);
        }
        at += 1;
    }
    if found_at(part, whole, last) {
        proof {
            lemma_first_occurrence(part@, whole@, last as int);
        }
        Some(last)
    } else {
        None
    }
}

/// Where the value that starts at `from` ends.
pub fn end_of_value(text: &Vec<char>, from: usize) -> (end: usize)
    requires
        from <= text.len(),
    ensures
        end == value_end(text@, from as int),
        from <= end <= text.len(),
{
    let mut end = from;
    while end < text.len() && text[end] != FIELD_SEPARATOR
        invariant
            from <= end <= text.len(),
            forall|i: int| from <= i < end ==> text@[i] != FIELD_SEPARATOR,
        decreases text.len() - end,
    {
        end += 1;
    }
    proof {
        lemma_value_ends_at(text@, from as int, end as int);
    }
    end
}

/// Extracts the credential from a payload, be it a URL-encoded body or a query
/// string.
pub fn extract_token(payload: &str) -> (token: Option<String>)
    ensures
        token.deep_view() == credential(payload@),
{
    let text = chars_of(payload);
    let opening = chars_of(FIELD_OPENING);
    match find(&text, &opening) {
        Some(at) => {
            let from = at + opening.len();
            let end = end_of_value(&text, from);
            Some(String::from_str(payload.substring_char(from, end)))
        },
        None => None,
    }
}

/// A payload that holds the field `token=` with a value, closed by a separator
/// or by the end of the payload, and no `token=` before it, has that value for
/// its credential.
pub proof fn lemma_field_gives_credential(
    before: Seq<char>,
    token: Seq<char>,
    after: Seq<char>,
)
    requires
        forall|i: int|
            0 <= i < before.len() ==> !stands_at(
                FIELD_OPENING@,
                before + FIELD_OPENING@ + token + after,
                i,
            ),
        !token.contains(FIELD_SEPARATOR),
        after.len() == 0 || after[0] == FIELD_SEPARATOR,
    ensures
        credential(before + FIELD_OPENING@ + token + after) == Some(token),
{
    let payload = before + FIELD_OPENING@ + token + after;
    let at = before.len() as int;
    let from = at + FIELD_OPENING@.len();
    let end = from + token.len();
    assert(payload.subrange(at, from) =~= FIELD_OPENING@);
    lemma_first_occurrence(FIELD_OPENING@, payload, at);
    assert forall|i: int| from <= i < end implies payload[i] != FIELD_SEPARATOR by {
        assert(payload[i] == token[i - from]);
    }
    lemma_value_ends_at(payload, from, end);
}

/// A payload in which `token=` does not occur has no credential; and a
/// credential, where there is one, holds no separator.
pub proof fn lemma_credential_needs_field(payload: Seq<char>)
    ensures
        !occurs(FIELD_OPENING@, payload) ==> credential(payload) is None,
        credential(payload) matches Some(token) ==> occurs(FIELD_OPENING@, payload)
            && !token.contains(FIELD_SEPARATOR),
{
    if let Some(at) = first_occurrence(FIELD_OPENING@, payload) {
        let chosen = choose|at: int| stands_at(FIELD_OPENING@, payload, at);
        assert(first_at(FIELD_OPENING@, payload, at)) by {
            lemma_first_exists(FIELD_OPENING@, payload, chosen);
        }
        lemma_value_end(payload, at + FIELD_OPENING@.len());
    }
}

/// Where a part occurs, it has a first occurrence.
pub proof fn lemma_first_exists(part: Seq<char>, whole: Seq<char>, at: int)
    requires
        stands_at(part, whole, at),
    ensures
        exists|first: int| first_at(part, whole, first),
    decreases at,
{
    if exists|i: int| 0 <= i < at && stands_at(part, whole, i) {
        let earlier = choose|i: int| 0 <= i < at && stands_at(part, whole, i);
        lemma_first_exists(part, whole, earlier);
    } else {
        assert(first_at(part, whole, at));
    }
}

} // verus!
