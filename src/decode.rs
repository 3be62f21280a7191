//! Decoding of streamed events into text fragments, and the stop-word filter.

use vstd::prelude::*;
use vstd::string::StringExecFns;
use crate::json::{Json, field, string_of, parsed_json, parse_json, get_field, as_text};

verus! {

/// One item of the event stream.
pub enum StreamEvent {
    /// The payload of a `data:` frame.
    Token(String),
    /// A comment line, which carries a payload of the same shape.
    Comment(String),
    /// The stream stopped: `summary` is the short rendering of the cause,
    /// `detail` the long one.
    StreamError { summary: String, detail: String },
}

/// What to do with one item of the stream.
pub enum StreamStep {
    /// Write this fragment to the output and flush it.
    Write(String),
    /// The fragment is a stop word: write nothing.
    Suppress,
    /// The stream ended cleanly: stop without a word.
    Close,
    /// The stream failed: report these two lines and stop.
    Report(String, String),
}

/// The text of one choice: its `text` member where that is a string.
pub open spec fn choice_text(c: Json) -> Seq<char> {
    match field(c, "text"@) {
        Some(t) => match string_of(t) {
            Some(s) => s,
            None => Seq::empty(),
        },
        None => Seq::empty(),
    }
}

/// The texts of the choices, one after the other.
pub open spec fn choices_text(cs: Seq<Json>) -> Seq<char>
    decreases cs.len(),
{
    if cs.len() == 0 {
        Seq::empty()
    } else {
        choices_text(cs.drop_last()) + choice_text(cs.last())
    }
}

/// The fragment that an event payload carries: the texts of its `choices`
/// array, or nothing where it has no such array.
pub open spec fn payload_text(j: Json) -> Seq<char> {
    match field(j, "choices"@) {
        Some(Json::Array(cs)) => choices_text(cs@),
        _ => Seq::empty(),
    }
}

/// The fragment of a payload text; a text that is not JSON gives nothing.
pub open spec fn fragment_of(data: Seq<char>) -> Seq<char> {
    match parsed_json(data) {
        Some(j) => payload_text(j),
        None => Seq::empty(),
    }
}

/// Whether `t` is exactly one of the stop words.
pub open spec fn is_stop_word(stops: Seq<String>, t: Seq<char>) -> bool {
    exists|i: int| 0 <= i < stops.len() && #[trigger] stops[i]@ == t
}

/// The short rendering that a clean end of stream has.
pub open spec fn is_clean_end(summary: Seq<char>) -> bool {
    summary == "eof"@
}

/// The text that an item of the stream puts on the output: its fragment,
/// unless that is exactly a stop word; nothing for an error.
pub open spec fn written(event: StreamEvent, stops: Seq<String>) -> Option<Seq<char>> {
    match event {
        StreamEvent::Token(data) | StreamEvent::Comment(data) => {
            if is_stop_word(stops, fragment_of(data@)) {
                None
            } else {
                Some(fragment_of(data@))
            }
        },
        StreamEvent::StreamError { .. } => None,
    }
}

/// Stop words match whole fragments only: a fragment equal to a stop word is
/// never written, and one that is a strict part of a stop word, and equal to
/// none, is written as it is.
pub proof fn law_stop_words_match_exactly(stops: Seq<String>, data: String, k: int)
    requires
        0 <= k < stops.len(),
    ensures
        fragment_of(data@) == stops[k]@ ==> written(StreamEvent::Token(data), stops) is None,
        (exists|a: Seq<char>, b: Seq<char>| stops[k]@ == a + fragment_of(data@) + b)
            && fragment_of(data@) != stops[k]@
            && (forall|i: int| 0 <= i < stops.len() ==> (#[trigger] stops[i])@ != fragment_of(data@))
            ==> written(StreamEvent::Token(data), stops) == Some(fragment_of(data@)),
{
}

/// A payload that is not JSON decodes to the empty fragment.
pub proof fn law_malformed_payload_is_empty(data: Seq<char>)
    requires
        parsed_json(data) is None,
    ensures
        fragment_of(data) == Seq::<char>::empty(),
{
}

/// The fragment carried by an already parsed payload.
pub fn payload_fragment(j: &Json) -> (r: String)
    ensures
        r@ == payload_text(*j),
{
    let mut text = String::new();
    match get_field(j, "choices") {
        Some(Json::Array(cs)) => {
            let mut i: usize = 0;
            while i < cs.len()
                invariant
                    0 <= i <= cs@.len(),
                    text@ == choices_text(cs@.subrange(0, i as int)),
                decreases cs.len() - i,
            {
                proof {
                    assert(cs@.subrange(0, i + 1).drop_last() =~= cs@.subrange(0, i as int));
                }
                match get_field(&cs[i], "text") {
                    Some(t) => match as_text(t) {
                        Some(s) => text.append(s.as_str()),
                        None => {},
                    },
                    None => {},
                }
                i = i + 1;
            }
            assert(cs@.subrange(0, cs@.len() as int) =~= cs@);
        },
        _ => {},
    }
    text
}

/// The fragment of an event payload, or `None` where the payload is not JSON.
pub fn extract_text(data: &str) -> (r: Option<String>)
    ensures
        r is Some <==> parsed_json(data@) is Some,
        r is Some ==> r->0@ == fragment_of(data@),
{
    match parse_json(data) {
        Some(j) => Some(payload_fragment(&j)),
        None => None,
    }
}

/// The fragment of an event payload; a payload that is not JSON gives the
/// empty fragment.
pub fn decode_payload(data: &str) -> (r: String)
    ensures
        r@ == fragment_of(data@),
{
    match extract_text(data) {
        Some(t) => t,
        None => String::new(),
    }
}

/// Whether `token` is exactly one of `stops`.
pub fn is_stop(token: &String, stops: &Vec<String>) -> (r: bool)
    ensures
        r == is_stop_word(stops@, token@),
{
    let mut i: usize = 0;
    while i < stops.len()
        invariant
            0 <= i <= stops@.len(),
            forall|k: int| 0 <= k < i ==> stops@[k]@ != token@,
        decreases stops.len() - i,
    {
        if stops[i] == *token {
            return true;
        }
        i = i + 1;
    }
    false
}

/// Whether a stream error is the clean end of the stream.
pub fn clean_end(summary: &str) -> (r: bool)
    ensures
        r == is_clean_end(summary@),
{
    crate::json::str_equal(summary, "eof")
}

/// What to do with one fragment: write it, or suppress it where it is
/// exactly a stop word.
pub fn filter_fragment(fragment: String, stops: &Vec<String>) -> (r: StreamStep)
    ensures
        is_stop_word(stops@, fragment@) ==> r is Suppress,
        !is_stop_word(stops@, fragment@) ==> r == StreamStep::Write(fragment),
{
    if is_stop(&fragment, stops) {
        StreamStep::Suppress
    } else {
        StreamStep::Write(fragment)
    }
}

/// What to do with one item of the stream, given the model's stop words.
pub fn handle_event(event: StreamEvent, stops: &Vec<String>) -> (r: StreamStep)
    ensures
        match r {
            StreamStep::Write(t) => written(event, stops@) == Some(t@),
            _ => written(event, stops@) is None,
        },
        match event {
            StreamEvent::Token(data) | StreamEvent::Comment(data) => {
                if is_stop_word(stops@, fragment_of(data@)) {
                    r is Suppress
                } else {
                    r matches StreamStep::Write(t) && t@ == fragment_of(data@)
                }
            },
            StreamEvent::StreamError { summary, detail } => {
                if is_clean_end(summary@) {
                    r is Close
                } else {
                    r matches StreamStep::Report(a, b) && a@ == summary@
                        && b@ == "error streaming events: "@ + detail@
                }
            },
        },
{
    match event {
        StreamEvent::Token(data) => filter_fragment(decode_payload(data.as_str()), stops),
        StreamEvent::Comment(data) => filter_fragment(decode_payload(data.as_str()), stops),
        StreamEvent::StreamError { summary, detail } => {
            if clean_end(summary.as_str()) {
                StreamStep::Close
            } else {
                let mut line = String::from_str("error streaming events: ");
                line.append(detail.as_str());
                StreamStep::Report(summary, line)
            }
        },
    }
}

} // verus!
