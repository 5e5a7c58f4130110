//! Messages in memory, and the second phase of decoding: from a header and
//! the payload bytes to a signed message.

use crate::error::ChatError;
use crate::imaging::image_loads;
use crate::text::is_utf8;
use crate::wire::{Flag, Headers};
use vstd::prelude::*;
use vstd::slice::slice_to_vec;
use vstd::string::*;
use vstd::utf8::*;

verus! {

/// A payload together with the name of its author.
#[derive(Clone, PartialEq, Eq, Debug)]
pub struct SignedData {
    pub author: String,
    pub message: Vec<u8>,
}

/// What a `SignedData` holds.
pub struct SignedDataView {
    pub author: Seq<char>,
    pub message: Seq<u8>,
}

impl View for SignedData {
    type V = SignedDataView;

    open spec fn view(&self) -> SignedDataView {
        SignedDataView { author: self.author@, message: self.message@ }
    }
}

/// Everything that travels through the client's channel.
#[derive(Clone, PartialEq, Eq, Debug)]
pub enum Message {
    Text(SignedData),
    Image(SignedData),
    Quit,
}

/// What a `Message` holds.
pub enum MessageView {
    Text(SignedDataView),
    Image(SignedDataView),
    Quit,
}

impl View for Message {
    type V = MessageView;

    open spec fn view(&self) -> MessageView {
        match self {
            Message::Text(d) => MessageView::Text(d@),
            Message::Image(d) => MessageView::Image(d@),
            Message::Quit => MessageView::Quit,
        }
    }
}

/// The author name under which a client's own messages travel through its
/// channel.
pub open spec fn own_author() -> Seq<char> {
    seq!['s', 'e', 'l', 'f']
}

/// The author name of a client's own messages.
pub fn self_author() -> (name: String)
    ensures
        name@ == own_author(),
{
    proof {
        reveal_strlit("self");
    }
    let name = String::from_str("self");
    assert(name@ =~= own_author());
    name
}

/// The author name that a signature spells: its characters where it is
/// UTF-8, and the empty name where it is not.
pub open spec fn author_name_of(signature: Seq<u8>) -> Seq<char> {
    if valid_utf8(signature) {
        decode_utf8(signature)
    } else {
        Seq::empty()
    }
}

/// What the payload of a frame decodes to, given the header's flag byte and
/// signature and the image codec's verdict on the payload.
pub open spec fn decoded(
    flags: u8,
    signature: Seq<u8>,
    payload: Seq<u8>,
    image_ok: bool,
) -> Result<SignedDataView, ChatError> {
    let data = SignedDataView { author: author_name_of(signature), message: payload };
    match Flag::of_byte(flags) {
        None => Err(ChatError::MalformedHeader),
        Some(Flag::Text) => if valid_utf8(payload) {
            Ok(data)
        } else {
            Err(ChatError::InvalidEncoding)
        },
        Some(Flag::Image) => if image_ok {
            Ok(data)
        } else {
            Err(ChatError::InvalidImageData)
        },
    }
}

/// Whether a result of decoding holds what `expected` says.
pub open spec fn agrees(
    r: Result<SignedData, ChatError>,
    expected: Result<SignedDataView, ChatError>,
) -> bool {
    match expected {
        Ok(v) => r is Ok && r->Ok_0@ == v,
        Err(e) => r is Err && r->Err_0 == e,
    }
}

/// The message that a frame of kind `flag` carries.
pub open spec fn message_of(flag: Flag, data: SignedDataView) -> MessageView {
    match flag {
        Flag::Text => MessageView::Text(data),
        Flag::Image => MessageView::Image(data),
    }
}

/// The message that a frame delivers, given its header's flag byte and
/// signature, its payload and the image codec's verdict on the payload.
pub open spec fn delivered(
    flags: u8,
    signature: Seq<u8>,
    payload: Seq<u8>,
    image_ok: bool,
) -> Result<MessageView, ChatError> {
    match decoded(flags, signature, payload, image_ok) {
        Ok(data) => Ok(message_of(Flag::of_byte(flags)->Some_0, data)),
        Err(e) => Err(e),
    }
}

/// Whether a decoded message holds what `expected` says.
pub open spec fn delivers(
    r: Result<Message, ChatError>,
    expected: Result<MessageView, ChatError>,
) -> bool {
    match expected {
        Ok(v) => r is Ok && r->Ok_0@ == v,
        Err(e) => r is Err && r->Err_0 == e,
    }
}

/// Reads an author signature as a name.
pub fn author_name(signature: &[u8]) -> (name: String)
    ensures
        name@ == author_name_of(signature@),
{
    match core::str::from_utf8(signature) {
        Ok(s) => {
            proof {
                encode_utf8_decode_utf8(s@);
            }
            String::from_str(s)
        },
        Err(_) => String::new(),
    }
}

/// Decodes the payload of a frame whose header is `headers`, with the image
/// codec's verdict on the payload handed in.
///
/// A flag that names no kind of frame gives `MalformedHeader`; a text
/// payload must be UTF-8, else `InvalidEncoding`; an image payload must have
/// been accepted by the codec, else `InvalidImageData`.
pub fn decode_payload_with(
    headers: &Headers,
    payload: &[u8],
    image_ok: bool,
) -> (r: Result<SignedData, ChatError>)
    ensures
        agrees(r, decoded(headers.flags, headers.author@, payload@, image_ok)),
{
    match headers.flag() {
        None => Err(ChatError::MalformedHeader),
        Some(Flag::Text) => {
            if is_utf8(payload) {
                Ok(
                    SignedData {
                        author: author_name(headers.author.as_slice()),
                        message: slice_to_vec(payload),
                    },
                )
            } else {
                Err(ChatError::InvalidEncoding)
            }
        },
        Some(Flag::Image) => {
            if image_ok {
                Ok(
                    SignedData {
                        author: author_name(headers.author.as_slice()),
                        message: slice_to_vec(payload),
                    },
                )
            } else {
                Err(ChatError::InvalidImageData)
            }
        },
    }
}

/// Decodes the payload of a frame whose header is `headers`. An image
/// payload is handed to the image codec, whose verdict decides between the
/// message and `InvalidImageData`; for every other frame the result is that
/// of `decode_payload_with`, whatever the verdict.
pub fn decode_payload(headers: &Headers, payload: &[u8]) -> (r: Result<SignedData, ChatError>)
    ensures
        agrees(r, decoded(headers.flags, headers.author@, payload@, true)) || agrees(
            r,
            decoded(headers.flags, headers.author@, payload@, false),
        ),
        Flag::of_byte(headers.flags) != Some(Flag::Image) ==> agrees(
            r,
            decoded(headers.flags, headers.author@, payload@, false),
        ),
{
    let image_ok = match headers.flag() {
        Some(Flag::Image) => image_loads(payload),
        _ => false,
    };
    decode_payload_with(headers, payload, image_ok)
}

/// Wraps decoded data as the message that its frame's header announces.
pub fn deliver_with(
    headers: &Headers,
    payload: &[u8],
    image_ok: bool,
) -> (r: Result<Message, ChatError>)
    ensures
        delivers(r, delivered(headers.flags, headers.author@, payload@, image_ok)),
{
    match decode_payload_with(headers, payload, image_ok) {
        Ok(data) => match headers.flag() {
            Some(Flag::Image) => Ok(Message::Image(data)),
            _ => Ok(Message::Text(data)),
        },
        Err(e) => Err(e),
    }
}

} // verus!
