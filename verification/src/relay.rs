//! The way of one text from the console of one client to the console of
//! another, through every step that the library decides.

use crate::error::ChatError;
use crate::input::{begins_with, classified, image_marker, own_text_of, quit_word, LineStepView};
use crate::message::{own_author, MessageView, SignedDataView};
use crate::network::{dispatched, intake, lemma_round_trip, taken, DispatchView};
use crate::signature::{
    lemma_signature_is_text, lemma_signature_shape, signature_name, signature_of,
};
use crate::text::shown_line;
use crate::wire::{frame_bytes, Flag, MAX_PAYLOAD_LEN};
use vstd::prelude::*;
use vstd::utf8::*;

verus! {

/// A console line that is neither the quit word nor an image request is
/// emitted as the client's own text; the engine shows it and frames it under
/// the signature of its local port; a client that receives the frame, as the
/// server relays it, takes it whole, decodes the same text under the name
/// that the signature spells, and shows it under that name.
pub proof fn lemma_console_line_reaches_peers(
    line: Seq<char>,
    sender_port: u16,
    receiver_port: u16,
    image_ok: bool,
)
    requires
        line != quit_word(),
        !begins_with(line, image_marker()),
        encode_utf8(line).len() <= MAX_PAYLOAD_LEN,
    ensures
        ({
            let payload = encode_utf8(line);
            let frame = frame_bytes(Flag::Text, signature_of(sender_port), payload);
            let remote = MessageView::Text(
                SignedDataView { author: signature_name(sender_port), message: payload },
            );
            &&& classified(line) == LineStepView::Emit(own_text_of(line))
            &&& dispatched(own_text_of(line), sender_port, image_ok)
                == (DispatchView::ShowAndSend { line: shown_line(own_author(), line), frame })
            &&& taken(frame) == frame.len()
            &&& intake(frame, image_ok) == Some(Ok::<MessageView, ChatError>(remote))
            &&& dispatched(remote, receiver_port, image_ok) == (DispatchView::Show {
                line: shown_line(signature_name(sender_port), line),
            })
        }),
{
    let payload = encode_utf8(line);
    let name = signature_name(sender_port);
    encode_utf8_valid_utf8(line);
    encode_utf8_decode_utf8(line);
    lemma_signature_shape(sender_port);
    lemma_signature_is_text(sender_port);
    lemma_round_trip(Flag::Text, SignedDataView { author: name, message: payload }, image_ok);
    assert(name != own_author()) by {
        assert(name[0] == signature_of(sender_port)[0] as char);
        assert(own_author()[0] == 's');
    }
}

} // verus!
