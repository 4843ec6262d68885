//! The JSON envelope in which a slash command's reply travels.

use vstd::prelude::*;
use vstd::string::StringExecFns;

verus! {

/// The error with which `serde_json` gives up on a value.
#[verifier::external_type_specification]
#[verifier::external_body]
pub struct ExJsonError(serde_json::Error);

/// The tag that every envelope carries: the reply is shown to the caller alone.
pub const RESPONSE_TYPE: &'static str = "ephemeral";

/// An envelope up to its tag.
pub const ENVELOPE_OPENING: &'static str = "{\"response_type\":\"";

/// An envelope between its tag and its text.
pub const ENVELOPE_MIDDLE: &'static str = "\",\"text\":";

/// An envelope after its text.
pub const ENVELOPE_CLOSING: &'static str = "}";

/// The digits of an escaped control character.
pub const HEX_DIGITS: &'static str = "0123456789abcdef";

/// Whether a character stands for itself inside a JSON string: every character
/// but the quote, the backslash and the control characters below the space.
pub open spec fn plain(c: char) -> bool {
    c != '"' && c != '\\' && (c as u32) >= 0x20
}

/// How `serde_json` writes a character inside a JSON string: the quote and the
/// backslash behind a backslash; backspace, tab, line feed, form feed and
/// carriage return as `\b`, `\t`, `\n`, `\f`, `\r`; every other control
/// character below the space as `\u00` and its two hexadecimal digits in lower
/// case; and every other character as itself.
pub open spec fn escaped(c: char) -> Seq<char> {
    if c == '"' {
        seq!['\\', '"']
    } else if c == '\\' {
        seq!['\\', '\\']
    } else if c == '\u{8}' {
        seq!['\\', 'b']
    } else if c == '\t' {
        seq!['\\', 't']
    } else if c == '\n' {
        seq!['\\', 'n']
    } else if c == '\u{c}' {
        seq!['\\', 'f']
    } else if c == '\r' {
        seq!['\\', 'r']
    } else if (c as u32) < 0x20 {
        seq![
            '\\',
            'u',
            '0',
            '0',
            HEX_DIGITS@[(c as u32) as int / 16],
            HEX_DIGITS@[(c as u32) as int % 16],
        ]
    } else {
        seq![c]
    }
}

/// A text as a JSON string, as `serde_json` writes it: a quote, the characters
/// of the text, each as `escaped` gives it, and a quote.
pub open spec fn json_text(text: Seq<char>) -> Seq<char> {
    seq!['"'] + text.map_values(|c: char| escaped(c)).flatten() + seq!['"']
}

/// Writes a text as a JSON string with `serde_json::to_string`.
///
/// Trusted: for a text the call has no error, and what it writes is
/// `json_text` of the text.
#[verifier::external_body]
fn to_json_text(text: &str) -> (json: Result<String, serde_json::Error>)
    ensures
        json is Ok,
        json matches Ok(written) ==> written@ == json_text(text@),
{
    serde_json::to_string(text)
}

/// The envelope around a text that is already a JSON string: an object with the
/// tag first and the text second.
pub open spec fn sealed(tag: Seq<char>, quoted: Seq<char>) -> Seq<char> {
    ENVELOPE_OPENING@ + tag + ENVELOPE_MIDDLE@ + quoted + ENVELOPE_CLOSING@
}

/// The envelope of a text.
pub open spec fn envelope(text: Seq<char>) -> Seq<char> {
    sealed(RESPONSE_TYPE@, json_text(text))
}

/// Puts the envelope around a text that is already a JSON string.
pub fn seal(tag: &str, quoted: &str) -> (body: String)
    ensures
        body@ == sealed(tag@, quoted@),
{
    let mut body = String::from_str(ENVELOPE_OPENING);
    body.append(tag);
    body.append(ENVELOPE_MIDDLE);
    body.append(quoted);
    body.append(ENVELOPE_CLOSING);
    body
}

/// A text of plain characters is written between two quotes as it stands.
pub proof fn lemma_plain_text_is_quoted(text: Seq<char>)
    requires
        forall|i: int| 0 <= i < text.len() ==> plain(#[trigger] text[i]),
    ensures
        text.map_values(|c: char| escaped(c)).flatten() == text,
        json_text(text) == seq!['"'] + text + seq!['"'],
    decreases text.len(),
{
    if text.len() > 0 {
        let shorter = text.drop_last();
        lemma_plain_text_is_quoted(shorter);
        let written = text.map_values(|c: char| escaped(c));
        let before = shorter.map_values(|c: char| escaped(c));
        assert(written =~= before.push(seq![text.last()]));
        before.lemma_flatten_push(seq![text.last()]);
    }
}

/// A reply to a slash command.
#[derive(Debug)]
pub struct Message {
    response_type: &'static str,
    text: String,
}

/// A message as plain values.
pub struct MessageView {
    pub response_type: Seq<char>,
    pub text: Seq<char>,
}

impl View for Message {
    type V = MessageView;

    closed spec fn view(&self) -> MessageView {
        MessageView { response_type: self.response_type@, text: self.text@ }
    }
}

impl Message {
    /// A message with the given text and the tag of all replies.
    pub fn new(message: String) -> (made: Message)
        ensures
            made@ == (MessageView { response_type: RESPONSE_TYPE@, text: message@ }),
    {
        Message { response_type: RESPONSE_TYPE, text: message }
    }

    /// The message's tag.
    pub fn response_type(&self) -> (tag: &'static str)
        ensures
            tag@ == self@.response_type,
    {
        self.response_type
    }

    /// The message's text.
    pub fn text(&self) -> (text: &str)
        ensures
            text@ == self@.text,
    {
        self.text.as_str()
    }

    /// The message as the body of a reply: its envelope.
    pub fn to_json(&self) -> (body: String)
        ensures
            body@ == sealed(self@.response_type, json_text(self@.text)),
    {
        match to_json_text(self.text.as_str()) {
            Ok(json) => seal(self.response_type, json.as_str()),
            Err(_) => String::new(),
        }
    }
}

} // verus!
