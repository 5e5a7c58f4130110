use chatter::error::ChatError;
use chatter::message::{
    author_name, decode_payload, decode_payload_with, deliver_with, Message, SignedData,
};
use chatter::signature::author_signature;
use chatter::text::{display_line, is_utf8, is_white_space, trim_end};
use chatter::wire::{
    decode_header, encode, Flag, Headers, AUTHOR_SIGNATURE_LEN, CONTENT_LENGTH_LEN, FLAGS_LEN,
    HEADER_LEN, IMAGE_FLAG, MAX_PAYLOAD_LEN, TEXT_FLAG,
};

fn png_bytes() -> Vec<u8> {
    let image = image::DynamicImage::ImageRgb8(image::RgbImage::new(2, 3));
    let mut bytes = Vec::new();
    image
        .write_to(&mut std::io::Cursor::new(&mut bytes), image::ImageFormat::Png)
        .unwrap();
    bytes
}

#[test]
fn header_fields_add_up() {
    assert_eq!(FLAGS_LEN + AUTHOR_SIGNATURE_LEN + CONTENT_LENGTH_LEN, HEADER_LEN);
    assert_eq!(HEADER_LEN, 9);
    assert_eq!(TEXT_FLAG, 1);
    assert_eq!(IMAGE_FLAG, 2);
    assert_eq!(MAX_PAYLOAD_LEN, 4_294_967_295);
}

#[test]
fn flag_bytes() {
    assert_eq!(Flag::Text.to_byte(), 1);
    assert_eq!(Flag::Image.to_byte(), 2);
    assert_eq!(Flag::from_byte(1), Some(Flag::Text));
    assert_eq!(Flag::from_byte(2), Some(Flag::Image));
    assert_eq!(Flag::from_byte(0), None);
    assert_eq!(Flag::from_byte(3), None);
    assert_eq!(Flag::from_byte(255), None);
}

#[test]
fn from_bytes_splits_the_fields() {
    let h = Headers::from_bytes([2, 10, 11, 12, 13, 20, 21, 22, 23]);
    assert_eq!(h.flags, 2);
    assert_eq!(h.author, [10, 11, 12, 13]);
    assert_eq!(h.length, [20, 21, 22, 23]);
    assert_eq!(h.flag(), Some(Flag::Image));
}

#[test]
fn payload_length_is_little_endian() {
    let h = Headers::from_bytes([1, 0, 0, 0, 0, 0x78, 0x56, 0x34, 0x12]);
    assert_eq!(h.payload_length(), 0x1234_5678);
    let h = Headers::from_bytes([1, 0, 0, 0, 0, 1, 0, 0, 0]);
    assert_eq!(h.payload_length(), 1);
    let h = Headers::from_bytes([1, 0, 0, 0, 0, 0, 1, 0, 0]);
    assert_eq!(h.payload_length(), 256);
    let h = Headers::from_bytes([1, 0, 0, 0, 0, 255, 255, 255, 255]);
    assert_eq!(h.payload_length(), MAX_PAYLOAD_LEN);
    let h = Headers::from_bytes([1, 0, 0, 0, 0, 0, 0, 0, 0]);
    assert_eq!(h.payload_length(), 0);
}

#[test]
fn encode_lays_out_header_then_payload() {
    let frame = encode(Flag::Text, b"4321", b"hi there\n");
    assert_eq!(
        frame,
        vec![
            1, b'4', b'3', b'2', b'1', 9, 0, 0, 0, b'h', b'i', b' ', b't', b'h', b'e', b'r', b'e',
            b'\n'
        ]
    );
}

#[test]
fn encode_writes_the_length_in_four_bytes() {
    let payload = vec![7u8; 0x0102_03];
    let frame = encode(Flag::Image, b"0007", &payload);
    assert_eq!(frame.len(), 9 + 0x0102_03);
    assert_eq!(&frame[..9], &[2, b'0', b'0', b'0', b'7', 0x03, 0x02, 0x01, 0x00]);
    assert_eq!(&frame[9..], &payload[..]);
}

#[test]
fn encode_pads_a_short_signature_with_spaces() {
    let frame = encode(Flag::Text, b"5", b"");
    assert_eq!(frame, vec![1, b'5', b' ', b' ', b' ', 0, 0, 0, 0]);
    let frame = encode(Flag::Text, b"", b"x");
    assert_eq!(frame, vec![1, b' ', b' ', b' ', b' ', 1, 0, 0, 0, b'x']);
}

#[test]
fn encode_cuts_a_long_signature() {
    let frame = encode(Flag::Image, b"123456", b"ab");
    assert_eq!(frame, vec![2, b'1', b'2', b'3', b'4', 2, 0, 0, 0, b'a', b'b']);
}

#[test]
fn decode_header_needs_nine_bytes() {
    for n in 0..9 {
        let bytes = vec![1u8; n];
        assert_eq!(decode_header(&bytes), Err(ChatError::MalformedHeader));
    }
    let h = decode_header(&[1, b'a', b'b', b'c', b'd', 4, 0, 0, 0]).unwrap();
    assert_eq!(h, Headers { flags: 1, author: *b"abcd", length: [4, 0, 0, 0] });
}

#[test]
fn decode_header_reads_only_the_first_nine_bytes() {
    let frame = encode(Flag::Text, b"4321", b"hello");
    let h = decode_header(&frame).unwrap();
    assert_eq!(h.flag(), Some(Flag::Text));
    assert_eq!(h.author, *b"4321");
    assert_eq!(h.payload_length(), 5);
}

#[test]
fn decode_header_keeps_an_unknown_flag() {
    let h = decode_header(&[9, b'a', b'b', b'c', b'd', 0, 0, 0, 0]).unwrap();
    assert_eq!(h.flags, 9);
    assert_eq!(h.flag(), None);
}

#[test]
fn author_name_reads_utf8_and_gives_up_on_the_rest() {
    assert_eq!(author_name(b"4321"), "4321");
    assert_eq!(author_name(b"5   "), "5   ");
    assert_eq!(author_name(&[0xff, b'a', b'b', b'c']), "");
    assert_eq!(author_name("é12".as_bytes()), "é12");
}

#[test]
fn text_payload_round_trips() {
    let frame = encode(Flag::Text, b"4321", "héllo\n".as_bytes());
    let h = decode_header(&frame).unwrap();
    let data = decode_payload(&h, &frame[HEADER_LEN..]).unwrap();
    assert_eq!(
        data,
        SignedData { author: "4321".to_string(), message: "héllo\n".as_bytes().to_vec() }
    );
}

#[test]
fn text_payload_must_be_utf8() {
    let h = Headers { flags: TEXT_FLAG, author: *b"4321", length: [2, 0, 0, 0] };
    assert_eq!(decode_payload(&h, &[0xc3, 0x28]), Err(ChatError::InvalidEncoding));
    assert_eq!(decode_payload_with(&h, &[0xff], true), Err(ChatError::InvalidEncoding));
    assert_eq!(decode_payload_with(&h, &[0xff], false), Err(ChatError::InvalidEncoding));
}

#[test]
fn empty_text_payload_is_fine() {
    let h = Headers { flags: TEXT_FLAG, author: *b"1   ", length: [0, 0, 0, 0] };
    assert_eq!(
        decode_payload(&h, &[]),
        Ok(SignedData { author: "1   ".to_string(), message: vec![] })
    );
}

#[test]
fn image_payload_goes_by_the_verdict() {
    let h = Headers { flags: IMAGE_FLAG, author: *b"8080", length: [3, 0, 0, 0] };
    assert_eq!(
        decode_payload_with(&h, &[1, 2, 3], true),
        Ok(SignedData { author: "8080".to_string(), message: vec![1, 2, 3] })
    );
    assert_eq!(decode_payload_with(&h, &[1, 2, 3], false), Err(ChatError::InvalidImageData));
}

#[test]
fn image_payload_is_judged_by_the_codec() {
    let png = png_bytes();
    let frame = encode(Flag::Image, b"8080", &png);
    let h = decode_header(&frame).unwrap();
    assert_eq!(h.payload_length(), png.len());
    assert_eq!(
        decode_payload(&h, &frame[HEADER_LEN..]),
        Ok(SignedData { author: "8080".to_string(), message: png.clone() })
    );
    assert_eq!(decode_payload(&h, b"this is no image"), Err(ChatError::InvalidImageData));
    assert_eq!(decode_payload(&h, &png[..png.len() / 2]), Err(ChatError::InvalidImageData));
    assert_eq!(decode_payload(&h, &[]), Err(ChatError::InvalidImageData));
}

#[test]
fn image_bytes_are_not_asked_to_be_text() {
    let h = Headers { flags: IMAGE_FLAG, author: *b"8080", length: [2, 0, 0, 0] };
    assert_eq!(
        decode_payload_with(&h, &[0xff, 0xfe], true),
        Ok(SignedData { author: "8080".to_string(), message: vec![0xff, 0xfe] })
    );
}

#[test]
fn unknown_flag_is_a_malformed_header() {
    let h = Headers { flags: 0, author: *b"4321", length: [0, 0, 0, 0] };
    assert_eq!(decode_payload(&h, b"hi"), Err(ChatError::MalformedHeader));
    assert_eq!(decode_payload_with(&h, b"hi", true), Err(ChatError::MalformedHeader));
    let h = Headers { flags: 3, author: *b"4321", length: [0, 0, 0, 0] };
    assert_eq!(deliver_with(&h, b"hi", true), Err(ChatError::MalformedHeader));
}

#[test]
fn deliver_wraps_by_kind() {
    let text = Headers { flags: TEXT_FLAG, author: *b"4321", length: [2, 0, 0, 0] };
    assert_eq!(
        deliver_with(&text, b"hi", false),
        Ok(Message::Text(SignedData { author: "4321".to_string(), message: b"hi".to_vec() }))
    );
    let image = Headers { flags: IMAGE_FLAG, author: *b"4321", length: [2, 0, 0, 0] };
    assert_eq!(
        deliver_with(&image, b"hi", true),
        Ok(Message::Image(SignedData { author: "4321".to_string(), message: b"hi".to_vec() }))
    );
    assert_eq!(deliver_with(&image, b"hi", false), Err(ChatError::InvalidImageData));
}

#[test]
fn invalid_signature_decodes_to_an_empty_author() {
    let h = Headers { flags: TEXT_FLAG, author: [0xff, 0xff, 0xff, 0xff], length: [2, 0, 0, 0] };
    assert_eq!(
        decode_payload(&h, b"hi"),
        Ok(SignedData { author: String::new(), message: b"hi".to_vec() })
    );
}

#[test]
fn signature_is_the_port_modulo_ten_thousand() {
    assert_eq!(&author_signature(54321), b"4321");
    assert_eq!(&author_signature(6969), b"6969");
    assert_eq!(&author_signature(9999), b"9999");
    assert_eq!(&author_signature(10000), b"0   ");
    assert_eq!(&author_signature(0), b"0   ");
    assert_eq!(&author_signature(7), b"7   ");
    assert_eq!(&author_signature(10042), b"42  ");
    assert_eq!(&author_signature(20315), b"315 ");
    assert_eq!(&author_signature(1000), b"1000");
    assert_eq!(&author_signature(65535), b"5535");
    assert_eq!(&author_signature(60001), b"1   ");
}

#[test]
fn signature_matches_the_decimal_rendering() {
    for port in 0..=u16::MAX {
        let expected = format!("{:<4}", port % 10000);
        assert_eq!(&author_signature(port)[..], expected.as_bytes());
    }
}

#[test]
fn utf8_check() {
    assert!(is_utf8(b""));
    assert!(is_utf8(b"plain"));
    assert!(is_utf8("žluťoučký kůň 🐎".as_bytes()));
    assert!(!is_utf8(&[0x80]));
    assert!(!is_utf8(&[0xc0, 0x80]));
    assert!(!is_utf8(&[0xed, 0xa0, 0x80]));
    assert!(!is_utf8(&[0xf4, 0x90, 0x80, 0x80]));
    assert!(!is_utf8(&[b'a', 0xe2, 0x82]));
}

#[test]
fn white_space_is_what_std_says() {
    for u in 0..=0x11_0000u32 {
        if let Some(c) = char::from_u32(u) {
            assert_eq!(is_white_space(c), c.is_whitespace());
        }
    }
}

#[test]
fn trim_end_cuts_only_the_end() {
    assert_eq!(trim_end("hi there\n"), "hi there");
    assert_eq!(trim_end("  hi  \t\r\n "), "  hi");
    assert_eq!(trim_end(""), "");
    assert_eq!(trim_end(" \n\t"), "");
    assert_eq!(trim_end("no space"), "no space");
    assert_eq!(trim_end("wide\u{3000}\u{a0}\u{2028}"), "wide");
    assert_eq!(trim_end("é \u{200b}"), "é \u{200b}");
    for s in ["a\n", "\u{85}", "x\u{1680}y ", "tab\t", "žluť  "] {
        assert_eq!(trim_end(s), s.trim_end());
    }
}

#[test]
fn display_line_joins_author_and_trimmed_text() {
    assert_eq!(display_line("4321", "hi there\n"), "4321: hi there");
    assert_eq!(display_line("self", "x"), "self: x");
    assert_eq!(display_line("", "\n"), ": ");
    assert_eq!(display_line("5   ", " two  words \r\n"), "5   :  two  words");
}
