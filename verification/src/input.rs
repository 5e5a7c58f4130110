//! The client's input engine: what one console line asks for.

use crate::message::{
    own_author, self_author, Message, MessageView, SignedData, SignedDataView,
};
use crate::text::{trim_end, trimmed_end};
use vstd::prelude::*;
use vstd::string::*;
use vstd::utf8::*;

verus! {

/// The line that ends the session.
pub open spec fn quit_word() -> Seq<char> {
    seq!['q', 'u', 'i', 't']
}

/// The marker that opens a request to send an image. The path of the image
/// file follows it, up to the white space that ends the line.
pub open spec fn image_marker() -> Seq<char> {
    seq!['\\', 'i', 'm', 'a', 'g', 'e', ':', ' ']
}

/// Whether `line` begins with `prefix`.
pub open spec fn begins_with(line: Seq<char>, prefix: Seq<char>) -> bool {
    prefix.len() <= line.len() && line.take(prefix.len() as int) == prefix
}

/// What the input engine does with one console line.
#[derive(Clone, PartialEq, Eq, Debug)]
pub enum LineStep {
    /// Emit `Message::Quit` and stop reading the console.
    Quit,
    /// Read the image file at `path` and emit its bytes as the client's own
    /// image.
    LoadImage { path: String },
    /// Emit the message.
    Emit(Message),
}

/// What a `LineStep` holds.
pub enum LineStepView {
    Quit,
    LoadImage { path: Seq<char> },
    Emit(MessageView),
}

impl View for LineStep {
    type V = LineStepView;

    open spec fn view(&self) -> LineStepView {
        match self {
            LineStep::Quit => LineStepView::Quit,
            LineStep::LoadImage { path } => LineStepView::LoadImage { path: path@ },
            LineStep::Emit(message) => LineStepView::Emit(message@),
        }
    }
}

/// The client's own text message made of `line`.
pub open spec fn own_text_of(line: Seq<char>) -> MessageView {
    MessageView::Text(SignedDataView { author: own_author(), message: encode_utf8(line) })
}

/// The client's own image message made of `bytes`.
pub open spec fn own_image_of(bytes: Seq<u8>) -> MessageView {
    MessageView::Image(SignedDataView { author: own_author(), message: bytes })
}

/// What `line` asks for: the exact quit word ends the session, a line that
/// begins with the image marker names an image file, and every other line is
/// sent as text, whole.
pub open spec fn classified(line: Seq<char>) -> LineStepView {
    if line == quit_word() {
        LineStepView::Quit
    } else if begins_with(line, image_marker()) {
        LineStepView::LoadImage { path: trimmed_end(line.skip(image_marker().len() as int)) }
    } else {
        LineStepView::Emit(own_text_of(line))
    }
}

/// Tests whether `line` begins with `prefix`.
pub fn starts_with(line: &str, prefix: &str) -> (b: bool)
    ensures
        b == begins_with(line@, prefix@),
{
    let n = prefix.unicode_len();
    if line.unicode_len() < n {
        return false;
    }
    let mut i: usize = 0;
    while i < n
        invariant
            i <= n,
            n == prefix@.len(),
            n <= line@.len(),
            line@.take(i as int) == prefix@.take(i as int),
        decreases n - i,
    {
        if line.get_char(i) != prefix.get_char(i) {
            assert(line@.take(n as int)[i as int] != prefix@[i as int]);
            return false;
        }
        i += 1;
        assert(line@.take(i as int) =~= line@.take(i - 1).push(line@[i - 1]));
        assert(prefix@.take(i as int) =~= prefix@.take(i - 1).push(prefix@[i - 1]));
    }
    assert(prefix@.take(n as int) =~= prefix@);
    true
}

/// Makes the client's own text message of a console line.
pub fn own_text(line: &str) -> (message: Message)
    ensures
        message@ == own_text_of(line@),
{
    Message::Text(SignedData { author: self_author(), message: line.as_bytes_vec() })
}

/// Makes the client's own image message of the bytes of an image file.
pub fn own_image(bytes: Vec<u8>) -> (message: Message)
    ensures
        message@ == own_image_of(bytes@),
{
    Message::Image(SignedData { author: self_author(), message: bytes })
}

/// Decides what one console line asks for.
pub fn classify_line(line: &str) -> (step: LineStep)
    ensures
        step@ == classified(line@),
{
    proof {
        reveal_strlit("quit");
        reveal_strlit("\\image: ");
        assert("quit"@ =~= quit_word());
        assert("\\image: "@ =~= image_marker());
    }
    let n = line.unicode_len();
    assert(quit_word().len() == 4 && image_marker().len() == 8);
    assert(n == 4 ==> line@.take(4) =~= line@);
    if n == 4 && starts_with(line, "quit") {
        LineStep::Quit
    } else if starts_with(line, "\\image: ") {
        let path = trim_end(line.substring_char(8, n));
        assert(line@.subrange(8, n as int) =~= line@.skip(8));
        LineStep::LoadImage { path: String::from_str(path) }
    } else {
        LineStep::Emit(own_text(line))
    }
}

} // verus!
