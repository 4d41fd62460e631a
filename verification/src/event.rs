//! The view event and its wire format.

use vstd::prelude::*;
use crate::json::{json_object_text, json_text_members, member, object_text, parse, text, text_members};

verus! {

/// Name of the one member a view event carries on the wire.
pub open spec fn field_name() -> Seq<char> {
    "video_path"@
}

/// What the JSON codec prints for the object whose one member is
/// `video_path` with the string `path`.
pub open spec fn view_event_text(path: Seq<char>) -> Option<Seq<u8>> {
    json_object_text(field_name(), path)
}

/// What every body begins with: `{"video_path":"`.
pub open spec fn frame_open() -> Seq<u8> {
    seq![
        0x7bu8, 0x22u8, 0x76u8, 0x69u8, 0x64u8, 0x65u8, 0x6fu8, 0x5fu8, 0x70u8, 0x61u8, 0x74u8,
        0x68u8, 0x22u8, 0x3au8, 0x22u8,
    ]
}

/// What every body ends with: `"}`.
pub open spec fn frame_close() -> Seq<u8> {
    seq![0x22u8, 0x7du8]
}

/// Whether the bytes are in the frame of a body: their first fifteen are
/// `{"video_path":"` and their last two are `"}`.  Nothing comes before the
/// opening brace or after the closing one.  What lies between the two ends
/// is not looked at: bytes with further members between them are in the
/// frame too.
pub open spec fn framed(bytes: Seq<u8>) -> bool {
    &&& bytes.len() >= frame_open().len() + frame_close().len()
    &&& bytes.subrange(0, frame_open().len() as int) == frame_open()
    &&& bytes.subrange(bytes.len() - frame_close().len(), bytes.len() as int) == frame_close()
}

/// Whether the bytes will do as the body of a view event for `path`: they
/// are in the frame, and they decode to that path.
pub open spec fn sound_body(bytes: Seq<u8>, path: Seq<char>) -> bool {
    &&& framed(bytes)
    &&& decoded_body(json_text_members(bytes)) == (DecodedView::Event { video_path: path })
}

/// The body of a view event for `path`: what the JSON codec prints, where
/// that will do; no body otherwise.
pub open spec fn view_event_body(path: Seq<char>) -> Option<Seq<u8>> {
    match view_event_text(path) {
        Some(bytes) => if sound_body(bytes, path) {
            Some(bytes)
        } else {
            None
        },
        None => None,
    }
}

/// Whether the bytes are in the frame of a body.
pub fn has_frame(bytes: &[u8]) -> (ok: bool)
    ensures
        ok == framed(bytes@),
{
    let n = bytes.len();
    if n < 17 {
        return false;
    }
    let opens = bytes[0] == 0x7b && bytes[1] == 0x22 && bytes[2] == 0x76 && bytes[3] == 0x69
        && bytes[4] == 0x64 && bytes[5] == 0x65 && bytes[6] == 0x6f && bytes[7] == 0x5f
        && bytes[8] == 0x70 && bytes[9] == 0x61 && bytes[10] == 0x74 && bytes[11] == 0x68
        && bytes[12] == 0x22 && bytes[13] == 0x3a && bytes[14] == 0x22;
    let closes = bytes[n - 2] == 0x22 && bytes[n - 1] == 0x7d;
    proof {
        if opens {
            assert(bytes@.subrange(0, 15) =~= frame_open());
        }
        if closes {
            assert(bytes@.subrange(n - 2, n as int) =~= frame_close());
        }
    }
    opens && closes
}

/// A view event as the publisher produces it: the path of the video that was
/// played, never empty.
#[derive(Debug, PartialEq, Eq)]
pub struct ViewEvent {
    video_path: String,
}

impl View for ViewEvent {
    type V = Seq<char>;

    closed spec fn view(&self) -> Seq<char> {
        self.video_path@
    }
}

impl ViewEvent {
    #[verifier::type_invariant]
    spec fn well_formed(self) -> bool {
        self.video_path@.len() > 0
    }

    /// The event for `video_path`; none for an empty path.
    pub fn new(video_path: String) -> (made: Option<ViewEvent>)
        ensures
            match made {
                Some(event) => event@ == video_path@ && video_path@.len() > 0,
                None => video_path@.len() == 0,
            },
    {
        if video_path.as_str().is_empty() {
            None
        } else {
            Some(ViewEvent { video_path })
        }
    }

    /// The path of the video that was played.
    pub fn video_path(&self) -> (path: &str)
        ensures
            path@ == self@,
            path@.len() > 0,
    {
        proof {
            use_type_invariant(self);
        }
        self.video_path.as_str()
    }

    /// The body to publish for this event: what the JSON codec prints for
    /// it, checked to be in the frame and to decode to this very event; none
    /// where the codec fails or prints anything else.
    pub fn encode(&self) -> (body: Option<Vec<u8>>)
        ensures
            match body {
                Some(bytes) => view_event_body(self@) == Some(bytes@) && sound_body(
                    bytes@,
                    self@,
                ),
                None => view_event_body(self@) is None,
            },
    {
        match object_text("video_path", self.video_path.as_str()) {
            Ok(bytes) => if has_frame(bytes.as_slice()) && self.is_read_from(bytes.as_slice()) {
                Some(bytes)
            } else {
                None
            },
            Err(_) => None,
        }
    }

    /// Whether a body decodes to this event.
    pub fn is_read_from(&self, body: &[u8]) -> (same: bool)
        ensures
            same == (decoded_body(json_text_members(body@)) == (DecodedView::Event {
                video_path: self@,
            })),
    {
        match decode(body) {
            Decoded::Event { video_path } => video_path == self.video_path,
            Decoded::MissingField => false,
            Decoded::Malformed => false,
        }
    }
}

/// What a delivery body turned out to be.
#[derive(Debug, PartialEq, Eq)]
pub enum Decoded {
    Event { video_path: String },
    MissingField,
    Malformed,
}

/// `Decoded`, with its texts as sequences.
pub enum DecodedView {
    Event { video_path: Seq<char> },
    MissingField,
    Malformed,
}

impl View for Decoded {
    type V = DecodedView;

    open spec fn view(&self) -> DecodedView {
        match self {
            Decoded::Event { video_path } => DecodedView::Event { video_path: video_path@ },
            Decoded::MissingField => DecodedView::MissingField,
            Decoded::Malformed => DecodedView::Malformed,
        }
    }
}

/// How a body reads, given what the JSON codec made of it: malformed where it
/// did not parse, an event where the parsed value has a string member
/// `video_path`, and missing the field otherwise.  Other members are ignored.
pub open spec fn decoded_body(members: Option<Map<Seq<char>, Seq<char>>>) -> DecodedView {
    match members {
        None => DecodedView::Malformed,
        Some(m) => if m.contains_key(field_name()) {
            DecodedView::Event { video_path: m[field_name()] }
        } else {
            DecodedView::MissingField
        },
    }
}

/// The members a parse outcome stands for.
pub open spec fn parsed_members(parsed: Result<serde_json::Value, serde_json::Error>) -> Option<
    Map<Seq<char>, Seq<char>>,
> {
    match parsed {
        Ok(value) => Some(text_members(value)),
        Err(_) => None,
    }
}

/// Reads the event out of a parse outcome.
pub fn interpret(parsed: &Result<serde_json::Value, serde_json::Error>) -> (decoded: Decoded)
    ensures
        decoded@ == decoded_body(parsed_members(*parsed)),
{
    match parsed {
        Err(_) => Decoded::Malformed,
        Ok(value) => match member(value, "video_path") {
            None => Decoded::MissingField,
            Some(inner) => match text(inner) {
                None => Decoded::MissingField,
                Some(path) => Decoded::Event { video_path: path.to_owned() },
            },
        },
    }
}

/// Decodes a delivery body.
pub fn decode(body: &[u8]) -> (decoded: Decoded)
    ensures
        decoded@ == decoded_body(json_text_members(body@)),
{
    let parsed = parse(body);
    interpret(&parsed)
}

/// Every body is what the JSON codec prints for the event, is in the frame,
/// and decodes to the path it was made for.
pub proof fn lemma_bodies_are_sound(path: Seq<char>)
    ensures
        view_event_body(path) matches Some(bytes) ==> {
            &&& view_event_text(path) == Some(bytes)
            &&& framed(bytes)
            &&& bytes.len() >= 17
            &&& bytes[0] == 0x7b
            &&& bytes.last() == 0x7d
            &&& decoded_body(json_text_members(bytes)) == (DecodedView::Event { video_path: path })
        },
{
}

/// Only the member `video_path` counts: two parsed values that agree on it
/// read the same, whatever else they hold.
pub proof fn lemma_other_members_are_ignored(
    one: Map<Seq<char>, Seq<char>>,
    other: Map<Seq<char>, Seq<char>>,
)
    requires
        one.contains_key(field_name()) == other.contains_key(field_name()),
        one.contains_key(field_name()) ==> one[field_name()] == other[field_name()],
    ensures
        decoded_body(Some(one)) == decoded_body(Some(other)),
{
}

/// A body yields an event exactly when it parses and the parsed value has a
/// string member `video_path`; the event then carries that string.
pub proof fn lemma_event_needs_the_field(bytes: Seq<u8>)
    ensures
        decoded_body(json_text_members(bytes)) is Event <==> (json_text_members(bytes) is Some
            && json_text_members(bytes)->0.contains_key(field_name())),
        decoded_body(json_text_members(bytes)) is Malformed <==> json_text_members(bytes) is None,
        decoded_body(json_text_members(bytes)) matches DecodedView::Event { video_path }
            ==> video_path == json_text_members(bytes)->0[field_name()],
{
}

} // verus!
