use chatter::broadcast::{process, ServerEvent};
use chatter::error::ChatError;
use chatter::input::{classify_line, own_image, own_text, starts_with, LineStep};
use chatter::message::{self_author, Message, SignedData};
use chatter::network::{
    dispatch, dispatch_with, on_peek, receive, receive_with, Dispatch, Intake, PayloadReader,
    PeekStep, READ_CHUNK,
};
use chatter::read::ReadOutcome;
use chatter::registry::{PeerAddr, Registry};
use chatter::wire::{encode, Flag, Headers, HEADER_LEN, IMAGE_FLAG, TEXT_FLAG};

fn signed(author: &str, message: &[u8]) -> SignedData {
    SignedData { author: author.to_string(), message: message.to_vec() }
}

fn png_bytes() -> Vec<u8> {
    let image = image::DynamicImage::ImageRgb8(image::RgbImage::new(4, 4));
    let mut bytes = Vec::new();
    image
        .write_to(&mut std::io::Cursor::new(&mut bytes), image::ImageFormat::Png)
        .unwrap();
    bytes
}

fn header(flags: u8, author: &[u8; 4], len: u32) -> Headers {
    Headers { flags, author: *author, length: len.to_le_bytes() }
}

#[test]
fn partial_header_is_left_on_the_stream() {
    for n in 0..HEADER_LEN {
        let peeked = vec![1u8; n];
        let step = on_peek(&peeked);
        assert_eq!(step, PeekStep::Wait);
        assert_eq!(step.consume_len(), 0);
    }
}

#[test]
fn full_header_is_taken() {
    let step = on_peek(&[1, b'4', b'3', b'2', b'1', 5, 0, 0, 0]);
    assert_eq!(step, PeekStep::Begin(header(1, b"4321", 5)));
    assert_eq!(step.consume_len(), 9);
}

#[test]
fn peek_looks_at_no_more_than_the_header() {
    let frame = encode(Flag::Image, b"77", b"payload");
    let step = on_peek(&frame);
    assert_eq!(step, PeekStep::Begin(header(2, b"77  ", 7)));
    assert_eq!(step.consume_len(), HEADER_LEN);
}

#[test]
fn garbage_header_is_taken_too() {
    let step = on_peek(&[0x7f; 9]);
    assert_eq!(step.consume_len(), 9);
    assert!(matches!(step, PeekStep::Begin(h) if h.flag().is_none()));
}

#[test]
fn reader_asks_for_the_announced_payload() {
    let reader = PayloadReader::new(header(TEXT_FLAG, b"4321", 300));
    assert!(reader.wants_more());
    assert_eq!(reader.next_read_len(128), 128);
    assert_eq!(reader.next_read_len(1000), 300);
    assert_eq!(reader.next_read_len(300), 300);
    assert_eq!(reader.next_read_len(0), 0);
}

#[test]
fn reader_of_an_empty_payload_reads_nothing() {
    let reader = PayloadReader::new(header(TEXT_FLAG, b"4321", 0));
    assert!(!reader.wants_more());
    assert_eq!(reader.next_read_len(128), 0);
    assert_eq!(reader.finish(), Ok(Message::Text(signed("4321", b""))));
}

#[test]
fn reader_of_an_unknown_flag_reads_nothing() {
    let reader = PayloadReader::new(header(0x40, b"4321", 12));
    assert!(!reader.wants_more());
    assert_eq!(reader.next_read_len(128), 0);
    assert_eq!(reader.finish(), Err(ChatError::MalformedHeader));
}

#[test]
fn payload_may_span_several_reads() {
    let mut reader = PayloadReader::new(header(TEXT_FLAG, b"4321", 9));
    assert!(reader.on_read(ReadOutcome::Data(b"hi ".to_vec())));
    assert_eq!(reader.next_read_len(128), 6);
    assert!(reader.on_read(ReadOutcome::Interrupted));
    assert_eq!(reader.next_read_len(128), 6);
    assert!(reader.on_read(ReadOutcome::Data(b"the".to_vec())));
    assert!(!reader.on_read(ReadOutcome::Data(b"re\n".to_vec())));
    assert!(!reader.wants_more());
    assert_eq!(reader.finish(), Ok(Message::Text(signed("4321", b"hi there\n"))));
}

#[test]
fn reader_takes_no_more_than_announced() {
    let mut reader = PayloadReader::new(header(TEXT_FLAG, b"4321", 4));
    assert!(!reader.on_read(ReadOutcome::Data(b"abcdefgh".to_vec())));
    assert_eq!(reader.next_read_len(128), 0);
    assert_eq!(reader.finish(), Ok(Message::Text(signed("4321", b"abcd"))));
}

#[test]
fn would_block_ends_the_reading() {
    let mut reader = PayloadReader::new(header(TEXT_FLAG, b"4321", 10));
    assert!(reader.on_read(ReadOutcome::Data(b"abc".to_vec())));
    assert!(!reader.on_read(ReadOutcome::WouldBlock));
    assert!(!reader.wants_more());
    assert_eq!(reader.finish(), Ok(Message::Text(signed("4321", b"abc"))));
}

#[test]
fn end_of_data_ends_the_reading() {
    let mut reader = PayloadReader::new(header(TEXT_FLAG, b"4321", 10));
    assert!(reader.on_read(ReadOutcome::Data(b"ab".to_vec())));
    assert!(!reader.on_read(ReadOutcome::Data(vec![])));
    assert_eq!(reader.finish(), Ok(Message::Text(signed("4321", b"ab"))));
}

#[test]
fn failed_read_ends_the_reading() {
    let mut reader = PayloadReader::new(header(IMAGE_FLAG, b"4321", 10));
    assert!(!reader.on_read(ReadOutcome::Failed));
    assert_eq!(reader.finish_with(true), Ok(Message::Image(signed("4321", b""))));
}

#[test]
fn stopped_reader_stays_stopped() {
    let mut reader = PayloadReader::new(header(TEXT_FLAG, b"4321", 10));
    assert!(!reader.on_read(ReadOutcome::WouldBlock));
    assert!(!reader.on_read(ReadOutcome::Data(b"late".to_vec())));
    assert!(!reader.on_read(ReadOutcome::Interrupted));
    assert_eq!(reader.next_read_len(128), 10);
    assert_eq!(reader.finish(), Ok(Message::Text(signed("4321", b""))));
}

#[test]
fn finish_refuses_text_that_is_not_utf8() {
    let mut reader = PayloadReader::new(header(TEXT_FLAG, b"4321", 2));
    reader.on_read(ReadOutcome::Data(vec![0xc3, 0x28]));
    assert_eq!(reader.finish(), Err(ChatError::InvalidEncoding));
}

#[test]
fn finish_asks_the_codec_about_an_image() {
    let png = png_bytes();
    let mut reader = PayloadReader::new(header(IMAGE_FLAG, b"8080", png.len() as u32));
    reader.on_read(ReadOutcome::Data(png.clone()));
    assert_eq!(reader.finish(), Ok(Message::Image(signed("8080", &png))));
    let mut reader = PayloadReader::new(header(IMAGE_FLAG, b"8080", 7));
    reader.on_read(ReadOutcome::Data(b"not png".to_vec()));
    assert_eq!(reader.finish(), Err(ChatError::InvalidImageData));
}

#[test]
fn receive_waits_for_a_full_header() {
    let frame = encode(Flag::Text, b"4321", b"hi");
    for n in 0..HEADER_LEN {
        assert_eq!(receive(&frame[..n]), Intake { taken: 0, outcome: None });
    }
}

#[test]
fn receive_round_trips_text() {
    let frame = encode(Flag::Text, b"4321", "grüß dich\n".as_bytes());
    assert_eq!(
        receive(&frame),
        Intake {
            taken: frame.len(),
            outcome: Some(Ok(Message::Text(signed("4321", "grüß dich\n".as_bytes())))),
        }
    );
}

#[test]
fn receive_round_trips_an_image() {
    let png = png_bytes();
    let frame = encode(Flag::Image, b"8080", &png);
    assert_eq!(
        receive(&frame),
        Intake { taken: frame.len(), outcome: Some(Ok(Message::Image(signed("8080", &png)))) }
    );
}

#[test]
fn receive_round_trips_a_long_payload() {
    let payload = "0123456789".repeat(100).into_bytes();
    assert!(payload.len() > 7 * READ_CHUNK);
    let frame = encode(Flag::Text, b"1   ", &payload);
    assert_eq!(
        receive(&frame),
        Intake { taken: frame.len(), outcome: Some(Ok(Message::Text(signed("1   ", &payload)))) }
    );
}

#[test]
fn receive_stops_at_the_end_of_the_frame() {
    let first = encode(Flag::Text, b"4321", b"one");
    let second = encode(Flag::Text, b"8080", b"two");
    let stream = [first.clone(), second.clone()].concat();
    let got = receive(&stream);
    assert_eq!(got.taken, first.len());
    assert_eq!(got.outcome, Some(Ok(Message::Text(signed("4321", b"one")))));
    let got = receive(&stream[got.taken..]);
    assert_eq!(got.taken, second.len());
    assert_eq!(got.outcome, Some(Ok(Message::Text(signed("8080", b"two")))));
}

#[test]
fn receive_decodes_what_is_there_of_a_partial_payload() {
    let frame = encode(Flag::Text, b"4321", b"hi there\n");
    let got = receive(&frame[..HEADER_LEN + 2]);
    assert_eq!(got.taken, HEADER_LEN + 2);
    assert_eq!(got.outcome, Some(Ok(Message::Text(signed("4321", b"hi")))));
}

#[test]
fn receive_drops_a_header_with_an_unknown_flag() {
    let mut stream = vec![0x55, b'a', b'b', b'c', b'd', 3, 0, 0, 0];
    stream.extend_from_slice(b"xyz");
    let got = receive(&stream);
    assert_eq!(got.taken, HEADER_LEN);
    assert_eq!(got.outcome, Some(Err(ChatError::MalformedHeader)));
}

#[test]
fn malformed_text_does_not_hurt_the_next_frame() {
    let bad = encode(Flag::Text, b"4321", &[b'a', 0xff, b'b']);
    let good = encode(Flag::Text, b"4321", b"fine\n");
    let stream = [bad.clone(), good.clone()].concat();
    let got = receive(&stream);
    assert_eq!(got.taken, bad.len());
    assert_eq!(got.outcome, Some(Err(ChatError::InvalidEncoding)));
    let got = receive(&stream[got.taken..]);
    assert_eq!(got.taken, good.len());
    assert_eq!(got.outcome, Some(Ok(Message::Text(signed("4321", b"fine\n")))));
}

#[test]
fn receive_with_goes_by_the_verdict() {
    let frame = encode(Flag::Image, b"8080", b"whatever");
    assert_eq!(
        receive_with(&frame, true).outcome,
        Some(Ok(Message::Image(signed("8080", b"whatever"))))
    );
    assert_eq!(receive_with(&frame, false).outcome, Some(Err(ChatError::InvalidImageData)));
    assert_eq!(receive(&frame).outcome, Some(Err(ChatError::InvalidImageData)));
}

#[test]
fn self_author_is_self() {
    assert_eq!(self_author(), "self");
}

#[test]
fn remote_text_is_shown() {
    assert_eq!(
        dispatch(Message::Text(signed("4321", b"hi there\n")), 54321),
        Dispatch::Show { line: "4321: hi there".to_string() }
    );
}

#[test]
fn own_text_is_shown_and_sent() {
    assert_eq!(
        dispatch(Message::Text(signed("self", b"hi there\n")), 54321),
        Dispatch::ShowAndSend {
            line: "self: hi there".to_string(),
            frame: encode(Flag::Text, b"4321", b"hi there\n"),
        }
    );
}

#[test]
fn own_text_carries_the_padded_signature() {
    assert_eq!(
        dispatch(Message::Text(signed("self", b"x")), 20007),
        Dispatch::ShowAndSend {
            line: "self: x".to_string(),
            frame: vec![1, b'7', b' ', b' ', b' ', 1, 0, 0, 0, b'x'],
        }
    );
}

#[test]
fn text_that_is_not_utf8_is_dropped() {
    assert_eq!(
        dispatch(Message::Text(signed("4321", &[0xff])), 1),
        Dispatch::Dropped { error: ChatError::InvalidEncoding }
    );
    assert_eq!(
        dispatch(Message::Text(signed("self", &[0xff])), 1),
        Dispatch::Dropped { error: ChatError::InvalidEncoding }
    );
}

#[test]
fn own_image_is_sent_unseen() {
    assert_eq!(
        dispatch(Message::Image(signed("self", b"not even an image")), 6969),
        Dispatch::Send { frame: encode(Flag::Image, b"6969", b"not even an image") }
    );
}

#[test]
fn remote_image_is_reported_with_the_verdict() {
    let png = png_bytes();
    assert_eq!(
        dispatch(Message::Image(signed("8080", &png)), 1),
        Dispatch::ImageReceived { author: "8080".to_string(), valid: true }
    );
    assert_eq!(
        dispatch(Message::Image(signed("8080", b"junk")), 1),
        Dispatch::ImageReceived { author: "8080".to_string(), valid: false }
    );
    assert_eq!(
        dispatch_with(Message::Image(signed("8080", b"junk")), 1, true),
        Dispatch::ImageReceived { author: "8080".to_string(), valid: true }
    );
    assert_eq!(
        dispatch_with(Message::Image(signed("8080", &png)), 1, false),
        Dispatch::ImageReceived { author: "8080".to_string(), valid: false }
    );
}

#[test]
fn quit_leaves_the_loop() {
    assert_eq!(dispatch(Message::Quit, 1), Dispatch::Quit);
    assert_eq!(dispatch_with(Message::Quit, 1, true), Dispatch::Quit);
}

#[test]
fn starts_with_compares_characters() {
    assert!(starts_with("quit", "quit"));
    assert!(starts_with("quitter", "quit"));
    assert!(!starts_with("qui", "quit"));
    assert!(!starts_with("Quit", "quit"));
    assert!(starts_with("anything", ""));
    assert!(starts_with("", ""));
    assert!(starts_with("žluťoučký", "žlu"));
    assert!(!starts_with("zluťoučký", "žlu"));
}

#[test]
fn exact_quit_ends_the_session() {
    assert_eq!(classify_line("quit"), LineStep::Quit);
}

#[test]
fn near_quit_is_text() {
    for line in ["quit\n", " quit", "quit ", "Quit", "qui", "quitt", ""] {
        let text = Message::Text(signed("self", line.as_bytes()));
        assert_eq!(classify_line(line), LineStep::Emit(text));
    }
}

#[test]
fn image_marker_names_a_file() {
    assert_eq!(
        classify_line("\\image: /tmp/cat.png\n"),
        LineStep::LoadImage { path: "/tmp/cat.png".to_string() }
    );
    assert_eq!(
        classify_line("\\image:  my cat.png \r\n"),
        LineStep::LoadImage { path: " my cat.png".to_string() }
    );
    assert_eq!(classify_line("\\image: "), LineStep::LoadImage { path: String::new() });
    assert_eq!(
        classify_line("\\image: žluť.png"),
        LineStep::LoadImage { path: "žluť.png".to_string() }
    );
}

#[test]
fn marker_must_open_the_line_whole() {
    for line in ["\\image:/tmp/cat.png", " \\image: x", "\\Image: x", "image: x", "\\image:"] {
        let text = Message::Text(signed("self", line.as_bytes()));
        assert_eq!(classify_line(line), LineStep::Emit(text));
    }
}

#[test]
fn other_lines_are_sent_whole() {
    assert_eq!(
        classify_line("hi there\n"),
        LineStep::Emit(Message::Text(signed("self", b"hi there\n")))
    );
    assert_eq!(own_text("héllo"), Message::Text(signed("self", "héllo".as_bytes())));
    assert_eq!(own_image(vec![1, 2, 3]), Message::Image(signed("self", &[1, 2, 3])));
}

#[test]
fn console_line_reaches_the_other_client() {
    let sender_port = 54321;
    let step = classify_line("hi there\n");
    let LineStep::Emit(message) = step else { panic!("the line is text") };
    assert_eq!(message, Message::Text(signed("self", b"hi there\n")));
    let Dispatch::ShowAndSend { line, frame } = dispatch(message, sender_port) else {
        panic!("own text is shown and sent")
    };
    assert_eq!(line, "self: hi there");
    assert_eq!(&frame[..HEADER_LEN], &[TEXT_FLAG, b'4', b'3', b'2', b'1', 9, 0, 0, 0]);
    assert_eq!(&frame[HEADER_LEN..], b"hi there\n");

    let sender = PeerAddr::V4 { ip: 0x7f00_0001, port: sender_port };
    let other = PeerAddr::V4 { ip: 0x7f00_0001, port: 40000 };
    let mut registry = Registry::new();
    registry.connect(sender, ());
    registry.connect(other, ());
    let round = process(&mut registry, ServerEvent::NewMessage(sender, frame.clone())).unwrap();
    assert_eq!(round.next_recipient(), Some(other));
    let relayed = round.bytes().to_vec();
    assert_eq!(relayed, frame);

    let got = receive(&relayed);
    assert_eq!(got.taken, relayed.len());
    let Some(Ok(message)) = got.outcome else { panic!("the frame decodes") };
    assert_eq!(message, Message::Text(signed("4321", b"hi there\n")));
    assert_eq!(dispatch(message, 40000), Dispatch::Show { line: "4321: hi there".to_string() });
}
