//! The client's network engine: what to do with the bytes that a peek
//! showed, with each read of a payload, and with each message taken off the
//! channel.

use crate::error::{reaction_to, ChatError, Role};
use crate::imaging::image_loads;
use crate::message::{
    deliver_with, delivered, delivers, message_of, own_author, self_author, Message, MessageView,
    SignedDataView,
};
use crate::read::{ReadOutcome, ReadOutcomeView};
use crate::signature::{author_signature, signature_of};
use crate::text::{display_line, shown_line};
use crate::wire::{
    decode_header, encode, frame_bytes, lemma_length_round_trip, length_field, length_value, Flag,
    Headers, AUTHOR_SIGNATURE_LEN, HEADER_LEN, MAX_PAYLOAD_LEN,
};
use vstd::prelude::*;
use vstd::slice::{slice_subrange, slice_to_vec};
use vstd::string::*;
use vstd::utf8::*;

verus! {

/// The most that the engine asks of one read.
pub const READ_CHUNK: usize = 128;

/// What the engine does after a peek at the stream.
#[derive(Clone, Copy, PartialEq, Eq, Debug)]
pub enum PeekStep {
    /// No full header has arrived: nothing is taken off the stream.
    Wait,
    /// A full header is there: it is taken off the stream, and its payload
    /// is read next.
    Begin(Headers),
}

impl PeekStep {
    /// The number of bytes that this step takes off the stream.
    pub open spec fn consumes(&self) -> nat {
        match self {
            PeekStep::Wait => 0,
            PeekStep::Begin(_) => HEADER_LEN as nat,
        }
    }

    /// The number of bytes to take off the stream.
    pub fn consume_len(&self) -> (n: usize)
        ensures
            n == self.consumes(),
    {
        match self {
            PeekStep::Wait => 0,
            PeekStep::Begin(_) => HEADER_LEN,
        }
    }
}

/// Decides on the bytes that a peek at the stream showed. Until a full
/// header is there the stream is left as it is; then the header, and no
/// more, is taken off it.
pub fn on_peek(peeked: &[u8]) -> (step: PeekStep)
    ensures
        step.consumes() == 0 <==> peeked@.len() < HEADER_LEN,
        peeked@.len() < HEADER_LEN ==> step is Wait,
        peeked@.len() >= HEADER_LEN ==> step is Begin && step->Begin_0.wire() == peeked@.take(
            HEADER_LEN as int,
        ),
{
    match decode_header(peeked) {
        Ok(headers) => PeekStep::Begin(headers),
        Err(_) => PeekStep::Wait,
    }
}

/// The payload of one frame while it is being read off the stream.
pub struct PayloadReader {
    headers: Headers,
    expected: usize,
    collected: Vec<u8>,
    stopped: bool,
}

/// What a `PayloadReader` holds.
pub struct PayloadReaderView {
    /// The header that announced the payload.
    pub headers: Headers,
    /// The number of payload bytes to read: the length that the header
    /// gives, or none where its flag names no kind of frame.
    pub expected: nat,
    /// The payload bytes read so far.
    pub collected: Seq<u8>,
    /// Whether the stream has said that no more is to be had for now.
    pub stopped: bool,
}

impl PayloadReaderView {
    /// The number of payload bytes still to be read.
    pub open spec fn remaining(self) -> nat {
        (self.expected - self.collected.len()) as nat
    }

    /// Whether another read is due.
    pub open spec fn wants_more(self) -> bool {
        !self.stopped && self.collected.len() < self.expected
    }

    /// The reader after one read came back with `outcome`. Bytes beyond the
    /// announced length are not taken; an empty read, a read that would
    /// block and a failed read end the reading; an interrupted read changes
    /// nothing, and neither does any read after the reading has ended.
    pub open spec fn after_read(self, outcome: ReadOutcomeView) -> PayloadReaderView {
        if self.stopped {
            self
        } else {
            match outcome {
                ReadOutcomeView::Data(bytes) => if bytes.len() == 0 {
                    PayloadReaderView { stopped: true, ..self }
                } else if bytes.len() <= self.remaining() {
                    PayloadReaderView { collected: self.collected + bytes, ..self }
                } else {
                    PayloadReaderView {
                        collected: self.collected + bytes.take(self.remaining() as int),
                        ..self
                    }
                },
                ReadOutcomeView::Interrupted => self,
                ReadOutcomeView::WouldBlock => PayloadReaderView { stopped: true, ..self },
                ReadOutcomeView::Failed => PayloadReaderView { stopped: true, ..self },
            }
        }
    }
}

/// The number of payload bytes that the engine reads after `headers`.
pub open spec fn expected_payload(headers: Headers) -> nat {
    if Flag::of_byte(headers.flags) is Some {
        length_value(headers.length@)
    } else {
        0
    }
}

impl View for PayloadReader {
    type V = PayloadReaderView;

    closed spec fn view(&self) -> PayloadReaderView {
        PayloadReaderView {
            headers: self.headers,
            expected: self.expected as nat,
            collected: self.collected@,
            stopped: self.stopped,
        }
    }
}

impl PayloadReader {
    #[verifier::type_invariant]
    spec fn within_expected(self) -> bool {
        self.collected@.len() <= self.expected
    }

    /// Starts reading the payload that `headers` announces.
    pub fn new(headers: Headers) -> (reader: PayloadReader)
        ensures
            reader@ == (PayloadReaderView {
                headers,
                expected: expected_payload(headers),
                collected: Seq::empty(),
                stopped: false,
            }),
    {
        let expected = match headers.flag() {
            Some(_) => headers.payload_length(),
            None => 0,
        };
        PayloadReader { headers, expected, collected: Vec::new(), stopped: false }
    }

    /// Whether another read is due: the payload is not complete and the
    /// stream has not said that no more is to be had.
    pub fn wants_more(&self) -> (more: bool)
        ensures
            more == self@.wants_more(),
    {
        !self.stopped && self.collected.len() < self.expected
    }

    /// The number of bytes to ask of the next read into a buffer of
    /// `buffer_len` bytes: never more than the payload still lacks, so that
    /// the frame behind it stays on the stream.
    pub fn next_read_len(&self, buffer_len: usize) -> (n: usize)
        ensures
            n == if self@.remaining() <= buffer_len {
                self@.remaining()
            } else {
                buffer_len as nat
            },
    {
        proof {
            use_type_invariant(self);
        }
        let remaining = self.expected - self.collected.len();
        if remaining <= buffer_len {
            remaining
        } else {
            buffer_len
        }
    }

    /// Takes in the outcome of one read, and says whether another is due.
    pub fn on_read(&mut self, outcome: ReadOutcome) -> (more: bool)
        ensures
            final(self)@ == old(self)@.after_read(outcome@),
            more == final(self)@.wants_more(),
    {
        proof {
            use_type_invariant(&*self);
        }
        if self.stopped {
            return false;
        }
        match outcome {
            ReadOutcome::Data(bytes) => {
                if bytes.len() == 0 {
                    self.stopped = true;
                } else {
                    let remaining = self.expected - self.collected.len();
                    let take = if bytes.len() <= remaining {
                        bytes.len()
                    } else {
                        remaining
                    };
                    let mut collected = Vec::new();
                    std::mem::swap(&mut collected, &mut self.collected);
                    collected.extend_from_slice(slice_subrange(bytes.as_slice(), 0, take));
                    self.collected = collected;
                    proof {
                        assert(bytes@.subrange(0, take as int) =~= bytes@.take(take as int));
                        assert(bytes@.len() <= remaining ==> bytes@.take(take as int) =~= bytes@);
                        assert(self@.collected =~= old(self)@.after_read(outcome@).collected);
                    }
                }
            },
            ReadOutcome::Interrupted => {},
            ReadOutcome::WouldBlock => {
                self.stopped = true;
            },
            ReadOutcome::Failed => {
                self.stopped = true;
            },
        }
        !self.stopped && self.collected.len() < self.expected
    }

    /// Ends the reading and decodes what was read, with the image codec's
    /// verdict on it handed in.
    pub fn finish_with(self, image_ok: bool) -> (r: Result<Message, ChatError>)
        ensures
            delivers(
                r,
                delivered(self@.headers.flags, self@.headers.author@, self@.collected, image_ok),
            ),
    {
        deliver_with(&self.headers, self.collected.as_slice(), image_ok)
    }

    /// Ends the reading and decodes what was read. What was read for an
    /// image frame is handed to the image codec, whose verdict decides
    /// between the message and `InvalidImageData`; for every other frame the
    /// result is that of `finish_with`, whatever the verdict.
    pub fn finish(self) -> (r: Result<Message, ChatError>)
        ensures
            delivers(
                r,
                delivered(self@.headers.flags, self@.headers.author@, self@.collected, true),
            ) || delivers(
                r,
                delivered(self@.headers.flags, self@.headers.author@, self@.collected, false),
            ),
            Flag::of_byte(self@.headers.flags) != Some(Flag::Image) ==> delivers(
                r,
                delivered(self@.headers.flags, self@.headers.author@, self@.collected, false),
            ),
    {
        let image_ok = match self.headers.flag() {
            Some(Flag::Image) => image_loads(self.collected.as_slice()),
            _ => false,
        };
        deliver_with(&self.headers, self.collected.as_slice(), image_ok)
    }
}

/// The number of bytes that the engine takes off a stream that holds
/// `stream` and no more, for the frame at its start: nothing until the header
/// is whole, then the header and as much of the announced payload as is
/// there.
pub open spec fn taken(stream: Seq<u8>) -> nat {
    if stream.len() < HEADER_LEN {
        0
    } else {
        let announced = if Flag::of_byte(stream[0]) is Some {
            length_value(stream.subrange(5, 9))
        } else {
            0
        };
        if HEADER_LEN + announced <= stream.len() {
            (HEADER_LEN + announced) as nat
        } else {
            stream.len()
        }
    }
}

/// What the engine makes of the frame at the start of a stream that holds
/// `stream` and no more, given the image codec's verdict on its payload:
/// nothing until the header is whole, then what the payload decodes to.
pub open spec fn intake(stream: Seq<u8>, image_ok: bool) -> Option<Result<MessageView, ChatError>> {
    if stream.len() < HEADER_LEN {
        None
    } else {
        Some(
            delivered(
                stream[0],
                stream.subrange(1, 5),
                stream.subrange(HEADER_LEN as int, taken(stream) as int),
                image_ok,
            ),
        )
    }
}

/// What one turn of the engine's inbound half came to.
#[derive(Clone, PartialEq, Eq, Debug)]
pub struct Intake {
    /// The number of bytes taken off the stream.
    pub taken: usize,
    /// The message or the failure of the frame that was taken, or nothing
    /// where no full header was there.
    pub outcome: Option<Result<Message, ChatError>>,
}

impl Intake {
    /// Whether this turn came to what `expected` says.
    pub open spec fn matches_outcome(
        self,
        expected: Option<Result<MessageView, ChatError>>,
    ) -> bool {
        match expected {
            None => self.outcome is None,
            Some(e) => self.outcome is Some && delivers(self.outcome->Some_0, e),
        }
    }
}

/// Reads the payload that follows a header off an in-memory stream, in
/// reads of at most `READ_CHUNK` bytes, until the payload is whole or the
/// stream has no more.
fn read_payload(stream: &[u8], headers: Headers) -> (r: (PayloadReader, usize))
    requires
        stream@.len() >= HEADER_LEN,
        headers.wire() == stream@.take(HEADER_LEN as int),
    ensures
        r.0@.headers == headers,
        headers.flags == stream@[0],
        headers.author@ == stream@.subrange(1, 5),
        r.0@.collected == stream@.subrange(HEADER_LEN as int, taken(stream@) as int),
        r.1 == taken(stream@),
        !r.0@.wants_more(),
{
    proof {
        let head = stream@.take(HEADER_LEN as int);
        assert(headers.flags == headers.wire()[0]);
        assert(headers.author@ =~= headers.wire().subrange(1, 5));
        assert(headers.length@ =~= headers.wire().subrange(5, 9));
        assert(head.subrange(1, 5) =~= stream@.subrange(1, 5));
        assert(head.subrange(5, 9) =~= stream@.subrange(5, 9));
    }
    let mut reader = PayloadReader::new(headers);
    let mut pos: usize = HEADER_LEN;
    assert(stream@.subrange(HEADER_LEN as int, pos as int) =~= Seq::<u8>::empty());
    while reader.wants_more()
        invariant
            HEADER_LEN <= pos <= stream@.len(),
            reader@.headers == headers,
            reader@.expected == expected_payload(headers),
            reader@.collected == stream@.subrange(HEADER_LEN as int, pos as int),
            reader@.collected.len() <= reader@.expected,
            reader@.stopped ==> pos == stream@.len(),
        decreases
            stream@.len() - pos + if reader@.stopped {
                0int
            } else {
                1int
            },
    {
        let available = stream.len() - pos;
        if available == 0 {
            let _ = reader.on_read(ReadOutcome::WouldBlock);
        } else {
            let want = reader.next_read_len(READ_CHUNK);
            let n = if want <= available {
                want
            } else {
                available
            };
            let chunk = slice_to_vec(slice_subrange(stream, pos, pos + n));
            let _ = reader.on_read(ReadOutcome::Data(chunk));
            assert(reader@.collected =~= stream@.subrange(HEADER_LEN as int, pos + n));
            pos = pos + n;
        }
    }
    (reader, pos)
}

/// Runs the inbound half of one turn of the engine on an in-memory stream
/// that holds `stream` and no more, with the image codec's verdict on the
/// payload handed in: the peek, the reads of the payload and the decoding.
pub fn receive_with(stream: &[u8], image_ok: bool) -> (r: Intake)
    ensures
        r.taken == taken(stream@),
        r.matches_outcome(intake(stream@, image_ok)),
{
    match on_peek(stream) {
        PeekStep::Wait => Intake { taken: 0, outcome: None },
        PeekStep::Begin(headers) => {
            let (reader, taken) = read_payload(stream, headers);
            Intake { taken, outcome: Some(reader.finish_with(image_ok)) }
        },
    }
}

/// Runs the inbound half of one turn of the engine on an in-memory stream
/// that holds `stream` and no more. The payload of an image frame is handed
/// to the image codec, whose verdict decides between the message and
/// `InvalidImageData`; for every other stream the result is that of
/// `receive_with`, whatever the verdict.
pub fn receive(stream: &[u8]) -> (r: Intake)
    ensures
        r.taken == taken(stream@),
        r.matches_outcome(intake(stream@, true)) || r.matches_outcome(intake(stream@, false)),
        stream@.len() < HEADER_LEN || Flag::of_byte(stream@[0]) != Some(Flag::Image)
            ==> r.matches_outcome(intake(stream@, false)),
{
    match on_peek(stream) {
        PeekStep::Wait => Intake { taken: 0, outcome: None },
        PeekStep::Begin(headers) => {
            let (reader, taken) = read_payload(stream, headers);
            Intake { taken, outcome: Some(reader.finish()) }
        },
    }
}

/// A frame ends where its header says: whatever follows a whole frame on the
/// stream, the engine takes the frame and no more, and makes of it what it
/// would make of the frame alone.
pub proof fn lemma_frame_boundary(
    flag: Flag,
    signature: Seq<u8>,
    payload: Seq<u8>,
    rest: Seq<u8>,
    image_ok: bool,
)
    requires
        payload.len() <= MAX_PAYLOAD_LEN,
    ensures
        ({
            let frame = frame_bytes(flag, signature, payload);
            let stream = frame + rest;
            &&& taken(stream) == frame.len()
            &&& stream.skip(taken(stream) as int) == rest
            &&& intake(stream, image_ok) == Some(
                delivered(flag.byte(), crate::wire::fit_signature(signature), payload, image_ok),
            )
        }),
{
    let frame = frame_bytes(flag, signature, payload);
    let stream = frame + rest;
    lemma_length_round_trip(payload.len());
    assert(stream[0] == flag.byte());
    assert(stream.subrange(1, 5) =~= crate::wire::fit_signature(signature));
    assert(stream.subrange(5, 9) =~= length_field(payload.len()));
    assert(frame.len() == HEADER_LEN + payload.len());
    assert(stream.subrange(HEADER_LEN as int, frame.len() as int) =~= payload);
    assert(stream.skip(frame.len() as int) =~= rest);
}

/// Round trip: a frame made by `encode` from an author whose name fills the
/// signature field, and from a payload that is valid for its kind, is taken
/// whole and decodes to that author and that payload, under that kind.
pub proof fn lemma_round_trip(flag: Flag, data: SignedDataView, image_ok: bool)
    requires
        encode_utf8(data.author).len() == AUTHOR_SIGNATURE_LEN,
        data.message.len() <= MAX_PAYLOAD_LEN,
        flag == Flag::Text ==> valid_utf8(data.message),
        flag == Flag::Image ==> image_ok,
    ensures
        ({
            let frame = frame_bytes(flag, encode_utf8(data.author), data.message);
            &&& taken(frame) == frame.len()
            &&& intake(frame, image_ok) == Some(
                Ok::<MessageView, ChatError>(message_of(flag, data)),
            )
        }),
{
    let signature = encode_utf8(data.author);
    let frame = frame_bytes(flag, signature, data.message);
    lemma_frame_boundary(flag, signature, data.message, Seq::empty(), image_ok);
    assert(frame + Seq::<u8>::empty() =~= frame);
    assert(crate::wire::fit_signature(signature) =~= signature);
    encode_utf8_valid_utf8(data.author);
    encode_utf8_decode_utf8(data.author);
}

/// Header framing: until a full header is on the stream the engine takes
/// nothing off it and decodes nothing.
pub proof fn lemma_partial_header_waits(stream: Seq<u8>, image_ok: bool)
    requires
        stream.len() < HEADER_LEN,
    ensures
        taken(stream) == 0,
        stream.skip(taken(stream) as int) == stream,
        intake(stream, image_ok) is None,
{
    assert(stream.skip(0) =~= stream);
}

/// Malformed payload isolation: a text frame whose payload is not UTF-8 is
/// refused as `InvalidEncoding`, which the client answers by dropping the
/// one message and running on; and the engine has taken that frame and no
/// more, so that the stream behind it is read as if the frame had never
/// been.
pub proof fn lemma_malformed_text_is_isolated(
    signature: Seq<u8>,
    payload: Seq<u8>,
    rest: Seq<u8>,
    image_ok: bool,
)
    requires
        !valid_utf8(payload),
        payload.len() <= MAX_PAYLOAD_LEN,
    ensures
        ({
            let stream = frame_bytes(Flag::Text, signature, payload) + rest;
            &&& intake(stream, image_ok) == Some(
                Err::<MessageView, ChatError>(ChatError::InvalidEncoding),
            )
            &&& reaction_to(Role::Client, ChatError::InvalidEncoding).keeps_running()
            &&& stream.skip(taken(stream) as int) == rest
        }),
{
    lemma_frame_boundary(Flag::Text, signature, payload, rest, image_ok);
}

/// What the engine does with one message taken off its channel.
#[derive(Clone, PartialEq, Eq, Debug)]
pub enum Dispatch {
    /// Print the line.
    Show { line: String },
    /// Print the line, then write the frame to the socket.
    ShowAndSend { line: String, frame: Vec<u8> },
    /// Write the frame to the socket.
    Send { frame: Vec<u8> },
    /// Report that `author` sent an image, and whether the codec took it.
    ImageReceived { author: String, valid: bool },
    /// Log the failure and drop the message.
    Dropped { error: ChatError },
    /// Leave the loop.
    Quit,
}

/// What a `Dispatch` holds.
pub enum DispatchView {
    Show { line: Seq<char> },
    ShowAndSend { line: Seq<char>, frame: Seq<u8> },
    Send { frame: Seq<u8> },
    ImageReceived { author: Seq<char>, valid: bool },
    Dropped { error: ChatError },
    Quit,
}

impl View for Dispatch {
    type V = DispatchView;

    open spec fn view(&self) -> DispatchView {
        match self {
            Dispatch::Show { line } => DispatchView::Show { line: line@ },
            Dispatch::ShowAndSend { line, frame } => DispatchView::ShowAndSend {
                line: line@,
                frame: frame@,
            },
            Dispatch::Send { frame } => DispatchView::Send { frame: frame@ },
            Dispatch::ImageReceived { author, valid } => DispatchView::ImageReceived {
                author: author@,
                valid: *valid,
            },
            Dispatch::Dropped { error } => DispatchView::Dropped { error: *error },
            Dispatch::Quit => DispatchView::Quit,
        }
    }
}

/// What the engine of the client on `local_port` does with `message`, given
/// the image codec's verdict on its payload.
///
/// A text is shown as a line, and the client's own text is also framed under
/// its signature and sent. The client's own image is framed and sent; an
/// image of another author is reported with the verdict. A text that is not
/// UTF-8, and a payload of the client's own that is too long to frame, are
/// dropped.
pub open spec fn dispatched(message: MessageView, local_port: u16, image_ok: bool) -> DispatchView {
    match message {
        MessageView::Text(data) => if !valid_utf8(data.message) {
            DispatchView::Dropped { error: ChatError::InvalidEncoding }
        } else if data.author != own_author() {
            DispatchView::Show { line: shown_line(data.author, decode_utf8(data.message)) }
        } else if data.message.len() <= MAX_PAYLOAD_LEN {
            DispatchView::ShowAndSend {
                line: shown_line(data.author, decode_utf8(data.message)),
                frame: frame_bytes(Flag::Text, signature_of(local_port), data.message),
            }
        } else {
            DispatchView::Dropped { error: ChatError::PayloadTooLarge }
        },
        MessageView::Image(data) => if data.author != own_author() {
            DispatchView::ImageReceived { author: data.author, valid: image_ok }
        } else if data.message.len() <= MAX_PAYLOAD_LEN {
            DispatchView::Send {
                frame: frame_bytes(Flag::Image, signature_of(local_port), data.message),
            }
        } else {
            DispatchView::Dropped { error: ChatError::PayloadTooLarge }
        },
        MessageView::Quit => DispatchView::Quit,
    }
}

/// Whether the image codec is asked about `message`: only about an image of
/// another author.
pub open spec fn asks_codec(message: MessageView) -> bool {
    message matches MessageView::Image(data) && data.author != own_author()
}

/// Decides what to do with `message`, with the image codec's verdict on its
/// payload handed in.
pub fn dispatch_with(message: Message, local_port: u16, image_ok: bool) -> (r: Dispatch)
    ensures
        r@ == dispatched(message@, local_port, image_ok),
{
    let own = self_author();
    match message {
        Message::Text(data) => {
            match core::str::from_utf8(data.message.as_slice()) {
                Err(_) => Dispatch::Dropped { error: ChatError::InvalidEncoding },
                Ok(text) => {
                    proof {
                        encode_utf8_decode_utf8(text@);
                    }
                    let line = display_line(data.author.as_str(), text);
                    if data.author != own {
                        Dispatch::Show { line }
                    } else if data.message.len() <= MAX_PAYLOAD_LEN {
                        let signature = author_signature(local_port);
                        let frame = encode(
                            Flag::Text,
                            signature.as_slice(),
                            data.message.as_slice(),
                        );
                        Dispatch::ShowAndSend { line, frame }
                    } else {
                        Dispatch::Dropped { error: ChatError::PayloadTooLarge }
                    }
                },
            }
        },
        Message::Image(data) => {
            if data.author != own {
                Dispatch::ImageReceived { author: data.author, valid: image_ok }
            } else if data.message.len() <= MAX_PAYLOAD_LEN {
                let signature = author_signature(local_port);
                let frame = encode(Flag::Image, signature.as_slice(), data.message.as_slice());
                Dispatch::Send { frame }
            } else {
                Dispatch::Dropped { error: ChatError::PayloadTooLarge }
            }
        },
        Message::Quit => Dispatch::Quit,
    }
}

/// Decides what to do with `message`. The payload of an image of another
/// author is handed to the image codec, whose verdict is reported; for every
/// other message the result is that of `dispatch_with`, whatever the
/// verdict.
pub fn dispatch(message: Message, local_port: u16) -> (r: Dispatch)
    ensures
        r@ == dispatched(message@, local_port, true) || r@ == dispatched(
            message@,
            local_port,
            false,
        ),
        !asks_codec(message@) ==> r@ == dispatched(message@, local_port, false),
{
    let own = self_author();
    let image_ok = match &message {
        Message::Image(data) => data.author != own && image_loads(data.message.as_slice()),
        _ => false,
    };
    dispatch_with(message, local_port, image_ok)
}

} // verus!
