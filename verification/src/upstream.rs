//! The one outbound call to the source of generated text, and what comes back.

use vstd::prelude::*;
use vstd::utf8::*;

verus! {

/// The body bytes are not UTF-8 text.
#[derive(Clone, Copy, Debug, PartialEq, Eq, Structural)]
pub struct DecodeAnomaly;

/// The upstream call did not complete: the connection was refused or reset, or
/// the name did not resolve.
#[derive(Clone, Copy, Debug, PartialEq, Eq, Structural)]
pub struct TransportFailure;

/// What one upstream call gave.
#[derive(Debug, PartialEq, Eq)]
pub enum UpstreamResult {
    /// The text of the body.
    Inspiration(String),
    /// No body: the call failed in transport.
    TransportFailure,
}

/// An upstream result as plain values.
pub enum UpstreamView {
    Inspiration(Seq<char>),
    TransportFailure,
}

impl View for UpstreamResult {
    type V = UpstreamView;

    open spec fn view(&self) -> UpstreamView {
        match self {
            UpstreamResult::Inspiration(text) => UpstreamView::Inspiration(text@),
            UpstreamResult::TransportFailure => UpstreamView::TransportFailure,
        }
    }
}

/// The error with which `String::from_utf8` hands back bytes that are no text.
#[verifier::external_type_specification]
#[verifier::external_body]
pub struct ExFromUtf8Error(std::string::FromUtf8Error);

/// Turns bytes into a `String` with `String::from_utf8`.
///
/// Trusted: the call succeeds exactly on valid UTF-8, and the string then has
/// the given bytes as its encoding.
#[verifier::external_body]
fn string_from_utf8(bytes: Vec<u8>) -> (text: Result<String, std::string::FromUtf8Error>)
    ensures
        text is Ok <==> valid_utf8(bytes@),
        text matches Ok(s) ==> encode_utf8(s@) == bytes@,
{
    String::from_utf8(bytes)
}

/// The text that a body's bytes stand for; none where they are not UTF-8.
pub open spec fn decoded(bytes: Seq<u8>) -> Option<Seq<char>> {
    if valid_utf8(bytes) {
        Some(decode_utf8(bytes))
    } else {
        None
    }
}

/// The text that a body is taken to hold: what its bytes stand for, and the
/// empty text where they stand for none.
pub open spec fn materialized(bytes: Seq<u8>) -> Seq<char> {
    match decoded(bytes) {
        Some(text) => text,
        None => Seq::<char>::empty(),
    }
}

/// Decodes a body's bytes as UTF-8 text.
pub fn decode(bytes: Vec<u8>) -> (text: Result<String, DecodeAnomaly>)
    ensures
        match text {
            Ok(s) => decoded(bytes@) == Some(s@),
            Err(_) => decoded(bytes@) is None,
        },
{
    match string_from_utf8(bytes) {
        Ok(s) => {
            proof {
                encode_utf8_decode_utf8(s@);
            }
            Ok(s)
        },
        Err(_) => Err(DecodeAnomaly),
    }
}

/// Joins the chunks of a body in the order of their arrival.
pub fn join_chunks(chunks: &Vec<Vec<u8>>) -> (bytes: Vec<u8>)
    ensures
        bytes@ == chunks.deep_view().flatten(),
{
    let mut bytes: Vec<u8> = Vec::new();
    let mut i: usize = 0;
    while i < chunks.len()
        invariant
            i <= chunks.len(),
            bytes@ == chunks.deep_view().take(i as int).flatten(),
        decreases chunks.len() - i,
    {
        proof {
            let seen = chunks.deep_view().take(i as int);
            assert(chunks[i as int].deep_view() == chunks[i as int]@);
            assert(chunks.deep_view().take(i + 1) == seen.push(chunks[i as int]@));
            seen.lemma_flatten_push(chunks[i as int]@);
        }
        bytes.extend_from_slice(chunks[i].as_slice());
        i += 1;
    }
    proof {
        assert(chunks.deep_view().take(chunks.len() as int) == chunks.deep_view());
    }
    bytes
}

/// Materialises a body that arrived in chunks: the chunks are joined in order
/// and read as text. Bytes that are no text give the empty text, not a failure.
pub fn unchunk(chunks: &Vec<Vec<u8>>) -> (text: String)
    ensures
        text@ == materialized(chunks.deep_view().flatten()),
{
    match decode(join_chunks(chunks)) {
        Ok(text) => text,
        Err(_) => String::new(),
    }
}

/// The client of the source of generated text: it knows the one address that
/// every call goes to.
#[derive(Debug)]
pub struct Muse {
    uri: String,
}

impl View for Muse {
    type V = Seq<char>;

    /// The address that every call goes to.
    closed spec fn view(&self) -> Seq<char> {
        self.uri@
    }
}

impl Muse {
    /// A client that calls `uri`.
    pub fn new(uri: String) -> (muse: Muse)
        ensures
            muse@ == uri@,
    {
        Muse { uri }
    }

    /// The address that every call goes to.
    pub fn uri(&self) -> (uri: &str)
        ensures
            uri@ == self@,
    {
        self.uri.as_str()
    }

    /// Turns what one GET of the address gave into its result: the body's text
    /// where chunks arrived, a transport failure where the call failed. Only a
    /// failed call gives a failure; a body that is no text gives the empty text.
    pub fn inspire(&self, fetched: Result<Vec<Vec<u8>>, TransportFailure>) -> (result:
        UpstreamResult)
        ensures
            result@ == match fetched {
                Ok(chunks) => UpstreamView::Inspiration(materialized(chunks.deep_view().flatten())),
                Err(_) => UpstreamView::TransportFailure,
            },
    {
        match fetched {
            Ok(chunks) => UpstreamResult::Inspiration(unchunk(&chunks)),
            Err(_) => UpstreamResult::TransportFailure,
        }
    }
}

} // verus!
