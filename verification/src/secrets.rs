//! The shared secrets that a trigger's credential is held against.

use vstd::prelude::*;
use vstd::string::StrSliceExecFns;
use vstd::string::StringExecFns;

verus! {

/// The character that separates the tokens of a configured list.
pub const TOKEN_SEPARATOR: char = ':';

/// The pieces of `text` between the occurrences of `separator`, in order.
///
/// There is always one piece more than there are separators: the empty text
/// has the one piece `""`, and a separator at either end leaves an empty piece
/// there.
pub open spec fn split(text: Seq<char>, separator: char) -> Seq<Seq<char>>
    decreases text.len(),
{
    if text.len() == 0 {
        seq![Seq::<char>::empty()]
    } else if text.last() == separator {
        split(text.drop_last(), separator).push(Seq::<char>::empty())
    } else {
        let before = split(text.drop_last(), separator);
        before.drop_last().push(before.last().push(text.last()))
    }
}

/// The pieces put together again, with `separator` between neighbours.
pub open spec fn join(pieces: Seq<Seq<char>>, separator: char) -> Seq<char>
    decreases pieces.len(),
{
    if pieces.len() == 0 {
        Seq::<char>::empty()
    } else if pieces.len() == 1 {
        pieces[0]
    } else {
        join(pieces.drop_last(), separator).push(separator) + pieces.last()
    }
}

/// Splitting loses nothing and invents nothing: there is at least one piece,
/// no piece holds the separator, and the pieces joined by the separator are
/// the text again.
pub proof fn lemma_split_join(text: Seq<char>, separator: char)
    ensures
        split(text, separator).len() >= 1,
        forall|i: int|
            0 <= i < split(text, separator).len() ==> !(#[trigger] split(
                text,
                separator,
            )[i]).contains(separator),
        join(split(text, separator), separator) == text,
    decreases text.len(),
{
    if text.len() > 0 {
        let shorter = text.drop_last();
        let before = split(shorter, separator);
        lemma_split_join(shorter, separator);
        if text.last() == separator {
            let pieces = before.push(Seq::<char>::empty());
            assert(pieces.drop_last() == before);
        } else {
            let grown = before.last().push(text.last());
            let pieces = before.drop_last().push(grown);
            assert forall|i: int| 0 <= i < pieces.len() implies !(#[trigger] pieces[i]).contains(
                separator,
            ) by {
                if i == pieces.len() - 1 {
                    assert forall|k: int| 0 <= k < grown.len() implies grown[k] != separator by {}
                }
            }
            if before.len() > 1 {
                assert(pieces.drop_last() == before.drop_last());
            }
            assert(shorter.push(text.last()) == text);
        }
    }
}

/// The tokens that count as valid credentials.
///
/// The set is fixed when it is made: no method changes it, so any number of
/// triggers may read it at once.
#[derive(Debug)]
pub struct SharedSecretSet {
    tokens: Vec<String>,
}

impl View for SharedSecretSet {
    type V = Set<Seq<char>>;

    /// The tokens as a mathematical set of texts.
    closed spec fn view(&self) -> Set<Seq<char>> {
        self.tokens.deep_view().to_set()
    }
}

impl SharedSecretSet {
    /// The set that holds exactly the given tokens.
    pub fn new(tokens: Vec<String>) -> (set: SharedSecretSet)
        ensures
            set@ == tokens.deep_view().to_set(),
    {
        SharedSecretSet { tokens }
    }

    /// The set configured by a list of tokens separated by `:`.
    pub fn from_list(list: &str) -> (set: SharedSecretSet)
        ensures
            set@ == split(list@, TOKEN_SEPARATOR).to_set(),
    {
        SharedSecretSet { tokens: split_tokens(list) }
    }

    /// Whether `candidate` is one of the tokens.
    pub fn contains(&self, candidate: &str) -> (found: bool)
        ensures
            found == self@.contains(candidate@),
    {
        let wanted = String::from_str(candidate);
        let mut i: usize = 0;
        while i < self.tokens.len()
            invariant
                i <= self.tokens.len(),
                wanted@ == candidate@,
                forall|j: int| 0 <= j < i ==> self.tokens[j]@ != candidate@,
            decreases self.tokens.len() - i,
        {
            if self.tokens[i] == wanted {
                assert(self.tokens.deep_view()[i as int] == candidate@);
                return true;
            }
            i += 1;
        }
        false
    }

    /// Whether a credential is accepted: one must be present, and it must be one
    /// of the tokens. A missing credential is a plain "no".
    pub fn admits(&self, credential: &Option<String>) -> (ok: bool)
        ensures
            ok == admitted(self@, credential.deep_view()),
    {
        match credential {
            Some(token) => self.contains(token.as_str()),
            None => false,
        }
    }
}

/// Whether a set of tokens accepts a credential that may be missing.
pub open spec fn admitted(tokens: Set<Seq<char>>, credential: Option<Seq<char>>) -> bool {
    match credential {
        Some(token) => tokens.contains(token),
        None => false,
    }
}

/// Why a configuration of the tokens cannot be served.
#[derive(Clone, Copy, Debug, PartialEq, Eq, Structural)]
pub enum ConfigurationFault {
    /// No list of tokens was configured.
    MissingTokenList,
    /// The list holds an empty token: an empty value is no secret.
    EmptyToken,
}

/// Whether one of the pieces is empty.
pub open spec fn has_empty(pieces: Seq<Seq<char>>) -> bool {
    exists|i: int| 0 <= i < pieces.len() && (#[trigger] pieces[i]).len() == 0
}

/// What a configured list of tokens stands for: its pieces, where the list is
/// there and none of its pieces is empty, and else the fault that keeps the
/// relay from starting.
pub open spec fn configuration(list: Option<Seq<char>>) -> Result<
    Seq<Seq<char>>,
    ConfigurationFault,
> {
    match list {
        None => Err(ConfigurationFault::MissingTokenList),
        Some(text) => if has_empty(split(text, TOKEN_SEPARATOR)) {
            Err(ConfigurationFault::EmptyToken)
        } else {
            Ok(split(text, TOKEN_SEPARATOR))
        },
    }
}

/// Reads the configured list of tokens at start. A list that is missing, or
/// that holds an empty token, is a fault: the relay does not start with it.
pub fn configured_tokens(list: Option<&str>) -> (tokens: Result<Vec<String>, ConfigurationFault>)
    ensures
        configuration(
            match list {
                Some(text) => Some(text@),
                None => None,
            },
        ) == match tokens {
            Ok(pieces) => Ok::<Seq<Seq<char>>, ConfigurationFault>(pieces.deep_view()),
            Err(fault) => Err(fault),
        },
{
    match list {
        None => Err(ConfigurationFault::MissingTokenList),
        Some(text) => {
            let pieces = split_tokens(text);
            let mut i: usize = 0;
            while i < pieces.len()
                invariant
                    i <= pieces.len(),
                    list == Some(text),
                    pieces.deep_view() == split(text@, TOKEN_SEPARATOR),
                    forall|j: int| 0 <= j < i ==> (#[trigger] pieces.deep_view()[j]).len() > 0,
                decreases pieces.len() - i,
            {
                if pieces[i].as_str().is_empty() {
                    assert(split(text@, TOKEN_SEPARATOR)[i as int].len() == 0);
                    return Err(ConfigurationFault::EmptyToken);
                }
                i += 1;
            }
            Ok(pieces)
        },
    }
}

/// The tokens of a list separated by `:`, in the order of the list.
pub fn split_tokens(list: &str) -> (tokens: Vec<String>)
    ensures
        tokens.deep_view() == split(list@, TOKEN_SEPARATOR),
{
    let n = list.unicode_len();
    let mut tokens: Vec<String> = Vec::new();
    let mut start: usize = 0;
    let mut i: usize = 0;
    assert(list@.subrange(0, 0) == Seq::<char>::empty());
    while i < n
        invariant
            n == list@.len(),
            start <= i <= n,
            tokens.deep_view().push(list@.subrange(start as int, i as int)) == split(
                list@.take(i as int),
                TOKEN_SEPARATOR,
            ),
        decreases n - i,
    {
        let c = list.get_char(i);
        assert(list@.take(i + 1).drop_last() == list@.take(i as int));
        if c == TOKEN_SEPARATOR {
            tokens.push(String::from_str(list.substring_char(start, i)));
            start = i + 1;
            assert(list@.subrange(start as int, i + 1) == Seq::<char>::empty());
        } else {
            assert(list@.subrange(start as int, i as int).push(c) == list@.subrange(
                start as int,
                i + 1,
            ));
        }
        i += 1;
    }
    tokens.push(String::from_str(list.substring_char(start, n)));
    assert(list@.take(n as int) == list@);
    tokens
}

} // verus!
