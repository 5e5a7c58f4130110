//! The frame header: one flag byte, a four-byte author signature and the
//! payload length as four little-endian bytes.

use crate::error::ChatError;
use vstd::prelude::*;

verus! {

/// Width of the flag field.
pub const FLAGS_LEN: usize = 1;

/// Width of the author signature field.
pub const AUTHOR_SIGNATURE_LEN: usize = 4;

/// Width of the payload length field.
pub const CONTENT_LENGTH_LEN: usize = 4;

/// Width of the whole header.
pub const HEADER_LEN: usize = 9;

/// Flag byte of a text frame.
pub const TEXT_FLAG: u8 = 1;

/// Flag byte of an image frame.
pub const IMAGE_FLAG: u8 = 2;

/// The longest payload whose length the header can carry.
pub const MAX_PAYLOAD_LEN: usize = 0xffff_ffff;

/// Byte that pads a short author signature.
pub const SIGNATURE_PAD: u8 = 32;

/// The kind of a frame, which says how its payload is read.
#[derive(Clone, Copy, PartialEq, Eq, Debug, Structural)]
pub enum Flag {
    /// The payload is UTF-8 text.
    Text,
    /// The payload is an encoded image.
    Image,
}

impl Flag {
    /// The byte that stands for this kind on the wire.
    pub open spec fn byte(self) -> u8 {
        match self {
            Flag::Text => TEXT_FLAG,
            Flag::Image => IMAGE_FLAG,
        }
    }

    /// The kind that a flag byte names, if it names one.
    pub open spec fn of_byte(b: u8) -> Option<Flag> {
        if b == TEXT_FLAG {
            Some(Flag::Text)
        } else if b == IMAGE_FLAG {
            Some(Flag::Image)
        } else {
            None
        }
    }

    pub fn to_byte(self) -> (b: u8)
        ensures
            b == self.byte(),
    {
        match self {
            Flag::Text => TEXT_FLAG,
            Flag::Image => IMAGE_FLAG,
        }
    }

    pub fn from_byte(b: u8) -> (r: Option<Flag>)
        ensures
            r == Flag::of_byte(b),
    {
        if b == TEXT_FLAG {
            Some(Flag::Text)
        } else if b == IMAGE_FLAG {
            Some(Flag::Image)
        } else {
            None
        }
    }
}

/// The header of a frame, split into its three fields as they came off the
/// wire.
#[derive(Clone, Copy, PartialEq, Eq, Debug)]
pub struct Headers {
    /// The flag byte, which may name no known kind.
    pub flags: u8,
    /// The author signature.
    pub author: [u8; 4],
    /// The payload length, least significant byte first.
    pub length: [u8; 4],
}

/// The four bytes of the length field for a payload of `n` bytes.
pub open spec fn length_field(n: nat) -> Seq<u8> {
    seq![
        (n % 256) as u8,
        (n / 256 % 256) as u8,
        (n / 65536 % 256) as u8,
        (n / 16777216 % 256) as u8,
    ]
}

/// The number that four bytes of a length field stand for.
pub open spec fn length_value(field: Seq<u8>) -> nat {
    (field[0] + 256 * field[1] + 65536 * field[2] + 16777216 * field[3]) as nat
}

/// An author signature cut or padded to the width of its field.
pub open spec fn fit_signature(signature: Seq<u8>) -> Seq<u8> {
    Seq::new(
        AUTHOR_SIGNATURE_LEN as nat,
        |i: int| if i < signature.len() { signature[i] } else { SIGNATURE_PAD },
    )
}

/// The header of a frame of kind `flag` from `signature` with `len` payload
/// bytes.
pub open spec fn header_bytes(flag: Flag, signature: Seq<u8>, len: nat) -> Seq<u8> {
    seq![flag.byte()] + fit_signature(signature) + length_field(len)
}

/// A whole frame: the header, then the payload.
pub open spec fn frame_bytes(flag: Flag, signature: Seq<u8>, payload: Seq<u8>) -> Seq<u8> {
    header_bytes(flag, signature, payload.len()) + payload
}

impl Headers {
    /// The nine bytes that this header occupies on the wire.
    pub open spec fn wire(&self) -> Seq<u8> {
        seq![self.flags] + self.author@ + self.length@
    }

    /// Splits a full header into its fields.
    pub fn from_bytes(bytes: [u8; HEADER_LEN]) -> (h: Headers)
        ensures
            h.wire() == bytes@,
    {
        let h = Headers {
            flags: bytes[0],
            author: [bytes[1], bytes[2], bytes[3], bytes[4]],
            length: [bytes[5], bytes[6], bytes[7], bytes[8]],
        };
        assert(h.wire() =~= bytes@);
        h
    }

    /// The kind of frame that the flag byte names, if it names one.
    pub fn flag(&self) -> (r: Option<Flag>)
        ensures
            r == Flag::of_byte(self.flags),
    {
        Flag::from_byte(self.flags)
    }

    /// The number of payload bytes that follow the header.
    pub fn payload_length(&self) -> (n: usize)
        ensures
            n == length_value(self.length@),
            n <= MAX_PAYLOAD_LEN,
    {
        let b0 = self.length[0] as usize;
        let b1 = self.length[1] as usize;
        let b2 = self.length[2] as usize;
        let b3 = self.length[3] as usize;
        b0 + 256 * b1 + 65536 * b2 + 16777216 * b3
    }
}

/// Frames `payload` as a message of kind `flag` from `author_signature`,
/// which is cut or padded with spaces to four bytes.
pub fn encode(flag: Flag, author_signature: &[u8], payload: &[u8]) -> (frame: Vec<u8>)
    requires
        payload@.len() <= MAX_PAYLOAD_LEN,
    ensures
        frame@ == frame_bytes(flag, author_signature@, payload@),
{
    let mut frame: Vec<u8> = Vec::new();
    frame.push(flag.to_byte());
    let mut i: usize = 0;
    while i < AUTHOR_SIGNATURE_LEN
        invariant
            i <= AUTHOR_SIGNATURE_LEN,
            frame@ == seq![flag.byte()] + fit_signature(author_signature@).take(i as int),
        decreases AUTHOR_SIGNATURE_LEN - i,
    {
        let b = if i < author_signature.len() {
            author_signature[i]
        } else {
            SIGNATURE_PAD
        };
        frame.push(b);
        i += 1;
        assert(frame@ =~= seq![flag.byte()] + fit_signature(author_signature@).take(i as int));
    }
    let n = payload.len();
    frame.push((n % 256) as u8);
    frame.push((n / 256 % 256) as u8);
    frame.push((n / 65536 % 256) as u8);
    frame.push((n / 16777216 % 256) as u8);
    assert(frame@ =~= header_bytes(flag, author_signature@, payload@.len()));
    frame.extend_from_slice(payload);
    frame
}

/// Reads the header at the start of `bytes`.
///
/// Fails with `MalformedHeader` exactly when fewer than nine bytes are
/// there; nothing else about the bytes is judged.
pub fn decode_header(bytes: &[u8]) -> (r: Result<Headers, ChatError>)
    ensures
        bytes@.len() < HEADER_LEN ==> r == Err::<Headers, ChatError>(ChatError::MalformedHeader),
        bytes@.len() >= HEADER_LEN ==> r is Ok && r->Ok_0.wire() == bytes@.take(HEADER_LEN as int),
{
    if bytes.len() < HEADER_LEN {
        return Err(ChatError::MalformedHeader);
    }
    let h = Headers::from_bytes(
        [
            bytes[0],
            bytes[1],
            bytes[2],
            bytes[3],
            bytes[4],
            bytes[5],
            bytes[6],
            bytes[7],
            bytes[8],
        ],
    );
    assert(h.wire() =~= bytes@.take(HEADER_LEN as int));
    Ok(h)
}

/// The length field holds the length it was made from.
pub proof fn lemma_length_round_trip(n: nat)
    requires
        n <= MAX_PAYLOAD_LEN,
    ensures
        length_field(n).len() == CONTENT_LENGTH_LEN,
        length_value(length_field(n)) == n,
{
}

} // verus!
