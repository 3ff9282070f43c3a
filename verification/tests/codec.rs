use unirun::codec::{
    decode, decode_document, decode_text, encode, encode_document, encode_text, fits_buffer,
    DecodeError,
};
use unirun::constants::SOCKET_BUFFER_SIZE;
use unirun::json::{Json, Member};
use unirun::package::{Command, Hit, Package, Payload, Uuid};
use unirun::socket::{bytes_to_string, create_buffer};

fn package(id: &str, payload: Payload) -> Package {
    Package::with_id(Uuid::from(id), payload)
}

fn firefox() -> Hit {
    Hit {
        id: Uuid::from("h1"),
        title: "Firefox".to_string(),
        description: Some("Web Browser".to_string()),
        icon: Some("firefox".to_string()),
        use_pango: false,
    }
}

fn bare() -> Hit {
    Hit {
        id: Uuid::from("h2"),
        title: "Files".to_string(),
        description: None,
        icon: None,
        use_pango: true,
    }
}

fn every_kind() -> Vec<Package> {
    vec![
        package("n1", Payload::Command(Command::Quit)),
        package("n2", Payload::Command(Command::Abort)),
        package("n3", Payload::Command(Command::GetData("fire".to_string()))),
        package("n4", Payload::Command(Command::GetData(String::new()))),
        package("n5", Payload::Command(Command::Activate(Uuid::from("h1")))),
        package("n6", Payload::Result((Uuid::from("n3"), Ok(())))),
        package("n7", Payload::Result((Uuid::from("n5"), Err("no such application".to_string())))),
        package("n8", Payload::Hit(firefox())),
        package("n9", Payload::Hit(bare())),
    ]
}

#[test]
fn commands_are_written_as_their_names() {
    assert_eq!(
        encode_text(&package("n1", Payload::Command(Command::Quit))),
        r#"{"id":"n1","command":"quit"}"#
    );
    assert_eq!(
        encode_text(&package("n2", Payload::Command(Command::Abort))),
        r#"{"id":"n2","command":"abort"}"#
    );
}

#[test]
fn commands_with_an_argument_are_written_as_objects() {
    assert_eq!(
        encode_text(&package("n3", Payload::Command(Command::GetData("fire".to_string())))),
        r#"{"id":"n3","command":{"get_data":"fire"}}"#
    );
    assert_eq!(
        encode_text(&package("n4", Payload::Command(Command::GetData(String::new())))),
        r#"{"id":"n4","command":{"get_data":""}}"#
    );
    assert_eq!(
        encode_text(&package("n5", Payload::Command(Command::Activate(Uuid::from("h1"))))),
        r#"{"id":"n5","command":{"activate":"h1"}}"#
    );
}

#[test]
fn results_are_written_as_pairs() {
    assert_eq!(
        encode_text(&package("n6", Payload::Result((Uuid::from("n3"), Ok(()))))),
        r#"{"id":"n6","result":["n3",{"Ok":null}]}"#
    );
    assert_eq!(
        encode_text(&package("n7", Payload::Result((Uuid::from("n5"), Err("gone".to_string()))))),
        r#"{"id":"n7","result":["n5",{"Err":"gone"}]}"#
    );
}

#[test]
fn hits_are_written_with_all_their_fields() {
    assert_eq!(
        encode_text(&package("n8", Payload::Hit(firefox()))),
        r#"{"id":"n8","hit":{"id":"h1","title":"Firefox","description":"Web Browser","icon":"firefox","use_pango":false}}"#
    );
    assert_eq!(
        encode_text(&package("n9", Payload::Hit(bare()))),
        r#"{"id":"n9","hit":{"id":"h2","title":"Files","description":null,"icon":null,"use_pango":true}}"#
    );
}

#[test]
fn text_is_escaped_by_the_json_writer() {
    let text = encode_text(&package(
        "p",
        Payload::Command(Command::GetData("a \"quoted\"\nline \\ \u{e9}".to_string())),
    ));
    assert_eq!(text, "{\"id\":\"p\",\"command\":{\"get_data\":\"a \\\"quoted\\\"\\nline \\\\ \u{e9}\"}}");
}

#[test]
fn every_kind_of_package_survives_the_text() {
    for original in every_kind() {
        let text = encode_text(&original);
        assert_eq!(decode_text(&text), Ok(original));
    }
}

#[test]
fn every_kind_of_package_survives_the_document() {
    for original in every_kind() {
        let document = encode_document(&original);
        assert_eq!(decode_document(&document), Ok(original));
    }
}

#[test]
fn every_kind_of_package_survives_the_wire() {
    for original in every_kind() {
        let buffer = encode(&original);
        assert_eq!(buffer.len(), SOCKET_BUFFER_SIZE);
        assert_eq!(decode(&buffer), Ok(original));
    }
}

#[test]
fn odd_text_survives_the_wire() {
    let original = package(
        "p",
        Payload::Hit(Hit {
            id: Uuid::from("h"),
            title: " tabs\tand \"quotes\" and \u{1F600} and \u{0} ".to_string(),
            description: Some(String::new()),
            icon: None,
            use_pango: true,
        }),
    );
    assert_eq!(decode(&encode(&original)), Ok(original));
}

#[test]
fn the_buffer_holds_the_text_and_then_zeros() {
    let original = package("n1", Payload::Command(Command::Quit));
    let text = encode_text(&original);
    let buffer = encode(&original);
    assert_eq!(&buffer[..text.len()], text.as_bytes());
    assert!(buffer[text.len()..].iter().all(|byte| *byte == 0));
}

#[test]
fn fresh_packages_survive_the_wire() {
    let original = Package::new(Payload::Command(Command::GetData("firefox".to_string())));
    let read = decode(&encode(&original)).unwrap();
    assert_eq!(read.get_id(), original.get_id());
    assert_eq!(read, original);
}

#[test]
fn a_package_that_is_too_long_is_cut_off_and_cannot_be_read() {
    let long = package("p", Payload::Command(Command::GetData("x".repeat(5000))));
    assert!(!fits_buffer(&long));
    assert_eq!(decode(&encode(&long)), Err(DecodeError::Syntax));
    let short = package("p", Payload::Command(Command::GetData("x".repeat(100))));
    assert!(fits_buffer(&short));
}

#[test]
fn members_may_come_in_any_order() {
    assert_eq!(
        decode_text(r#"{"command":"quit","id":"n1"}"#),
        Ok(package("n1", Payload::Command(Command::Quit)))
    );
    assert_eq!(
        decode_text(
            r#"{"hit":{"use_pango":true,"title":"Files","id":"h2"},"id":"n9"}"#
        ),
        Ok(package("n9", Payload::Hit(bare())))
    );
}

#[test]
fn unknown_members_are_skipped() {
    assert_eq!(
        decode_text(r#"{"id":"n1","version":3,"extra":[1.5,{"a":null}],"command":"abort"}"#),
        Ok(package("n1", Payload::Command(Command::Abort)))
    );
}

#[test]
fn blank_space_around_the_text_is_allowed() {
    assert_eq!(
        decode_text("  {\n \"id\" : \"n1\" ,\n \"command\" : \"quit\" }\n"),
        Ok(package("n1", Payload::Command(Command::Quit)))
    );
}

#[test]
fn the_first_payload_member_counts() {
    assert_eq!(
        decode_text(r#"{"id":"n1","command":"quit","hit":17}"#),
        Ok(package("n1", Payload::Command(Command::Quit)))
    );
}

#[test]
fn commands_without_argument_may_come_as_objects() {
    assert_eq!(
        decode_text(r#"{"id":"n1","command":{"quit":null}}"#),
        Ok(package("n1", Payload::Command(Command::Quit)))
    );
    assert_eq!(
        decode_text(r#"{"id":"n1","command":{"abort":{}}}"#),
        Ok(package("n1", Payload::Command(Command::Abort)))
    );
}

#[test]
fn hits_may_come_as_arrays() {
    assert_eq!(
        decode_text(r#"{"id":"n8","hit":["h1","Firefox","Web Browser","firefox",false]}"#),
        Ok(package("n8", Payload::Hit(firefox())))
    );
    assert_eq!(
        decode_text(r#"{"id":"n8","hit":["h1","Firefox","Web Browser","firefox"]}"#),
        Err(DecodeError::Payload)
    );
}

#[test]
fn text_that_is_no_json_is_a_syntax_error() {
    assert_eq!(decode_text(""), Err(DecodeError::Syntax));
    assert_eq!(decode_text("quit"), Err(DecodeError::Syntax));
    assert_eq!(decode_text(r#"{"id":"n1","command":"qu"#), Err(DecodeError::Syntax));
    assert_eq!(decode_text(r#"{"id":"n1","command":"quit"} trailing"#), Err(DecodeError::Syntax));
}

#[test]
fn documents_without_an_id_are_envelope_errors() {
    assert_eq!(decode_text(r#"{"command":"quit"}"#), Err(DecodeError::Envelope));
    assert_eq!(decode_text(r#"{"id":7,"command":"quit"}"#), Err(DecodeError::Envelope));
    assert_eq!(decode_text(r#"["n1","quit"]"#), Err(DecodeError::Envelope));
    assert_eq!(decode_text("null"), Err(DecodeError::Envelope));
}

#[test]
fn documents_without_a_known_payload_are_unknown_tags() {
    assert_eq!(decode_text(r#"{"id":"n1"}"#), Err(DecodeError::UnknownTag));
    assert_eq!(decode_text(r#"{"id":"n1","match":{}}"#), Err(DecodeError::UnknownTag));
    assert_eq!(decode_text(r#"{"id":"n1","command":"reboot"}"#), Err(DecodeError::UnknownTag));
    assert_eq!(
        decode_text(r#"{"id":"n1","command":{"reboot":"now"}}"#),
        Err(DecodeError::UnknownTag)
    );
}

#[test]
fn payloads_of_the_wrong_shape_are_payload_errors() {
    assert_eq!(decode_text(r#"{"id":"n1","command":"get_data"}"#), Err(DecodeError::Payload));
    assert_eq!(decode_text(r#"{"id":"n1","command":{"get_data":7}}"#), Err(DecodeError::Payload));
    assert_eq!(decode_text(r#"{"id":"n1","command":{"quit":"now"}}"#), Err(DecodeError::Payload));
    assert_eq!(
        decode_text(r#"{"id":"n1","command":{"quit":null,"abort":null}}"#),
        Err(DecodeError::Payload)
    );
    assert_eq!(decode_text(r#"{"id":"n1","command":7}"#), Err(DecodeError::Payload));
    assert_eq!(decode_text(r#"{"id":"n1","result":["n0"]}"#), Err(DecodeError::Payload));
    assert_eq!(decode_text(r#"{"id":"n1","result":["n0","Ok"]}"#), Err(DecodeError::Payload));
    assert_eq!(decode_text(r#"{"id":"n1","result":["n0",{"Ok":1}]}"#), Err(DecodeError::Payload));
    assert_eq!(decode_text(r#"{"id":"n1","result":["n0",{"Err":null}]}"#), Err(DecodeError::Payload));
    assert_eq!(decode_text(r#"{"id":"n1","hit":{"id":"h"}}"#), Err(DecodeError::Payload));
    assert_eq!(
        decode_text(r#"{"id":"n1","hit":{"id":"h","title":"T","icon":4,"use_pango":true}}"#),
        Err(DecodeError::Payload)
    );
    assert_eq!(
        decode_text(r#"{"id":"n1","hit":{"id":"h","title":"T","use_pango":"yes"}}"#),
        Err(DecodeError::Payload)
    );
}

#[test]
fn every_error_has_its_sentence() {
    assert_eq!(DecodeError::Syntax.message(), "the text is no JSON document");
    assert_eq!(DecodeError::Envelope.message(), "the document is no object with an id");
    assert_eq!(DecodeError::UnknownTag.message(), "the document names no known payload");
    assert_eq!(DecodeError::Payload.message(), "the payload has the wrong shape");
}

#[test]
fn documents_can_be_built_by_hand() {
    let document = Json::object(vec![
        Member { key: "id".to_string(), value: Json::text("n1") },
        Member { key: "command".to_string(), value: Json::text("quit") },
    ]);
    assert_eq!(decode_document(&document), Ok(package("n1", Payload::Command(Command::Quit))));
    let number = Json::object(vec![
        Member { key: "id".to_string(), value: Json::Number("1".to_string()) },
    ]);
    assert_eq!(decode_document(&number), Err(DecodeError::Envelope));
}

#[test]
fn create_buffer_pads_with_zeros() {
    let buffer = create_buffer(b"abc");
    assert_eq!(buffer.len(), 4096);
    assert_eq!(&buffer[..3], b"abc");
    assert!(buffer[3..].iter().all(|byte| *byte == 0));
    let empty = create_buffer(b"");
    assert!(empty.iter().all(|byte| *byte == 0));
}

#[test]
fn create_buffer_cuts_off_what_does_not_fit() {
    let value: Vec<u8> = (0..5000u32).map(|i| (i % 251) as u8 + 1).collect();
    let buffer = create_buffer(&value);
    assert_eq!(&buffer[..], &value[..4096]);
    let exact: Vec<u8> = vec![7; 4096];
    assert_eq!(&create_buffer(&exact)[..], &exact[..]);
}

#[test]
fn bytes_to_string_strips_zeros_and_blank_space() {
    assert_eq!(bytes_to_string(b"abc\0\0\0"), "abc");
    assert_eq!(bytes_to_string(b"  abc \n\0\0"), "abc");
    assert_eq!(bytes_to_string(b"\t a b \r\n"), "a b");
    assert_eq!(bytes_to_string(b"ab\0 \0"), "ab\0");
    assert_eq!(bytes_to_string(b"\0\0"), "");
    assert_eq!(bytes_to_string(b""), "");
    assert_eq!(bytes_to_string("\u{2003}caf\u{e9}\u{a0}\0".as_bytes()), "caf\u{e9}");
}

#[test]
fn white_space_is_what_the_standard_library_takes_for_it() {
    let mut codes: Vec<u32> = (0..=0xFFFF).collect();
    codes.extend([0x10000, 0x1F600, 0xE0020, 0x10FFFF]);
    for c in codes.into_iter().filter_map(char::from_u32) {
        for text in [format!("{c}x{c}"), format!("{c}{c}"), format!("x{c}y"), format!("{c}x{c}\0\0")] {
            let expected = text.trim_end_matches('\0').trim();
            assert_eq!(bytes_to_string(text.as_bytes()), expected, "for {:?}", text);
        }
    }
}

#[test]
fn only_the_zeros_at_the_end_are_cut() {
    assert_eq!(bytes_to_string(b"\0a\0b\0\0"), "\0a\0b");
    assert_eq!(bytes_to_string(b"a\0 "), "a\0");
    assert_eq!(bytes_to_string(b" \0"), "");
    assert_eq!(bytes_to_string(b" \0 \0"), "\0");
    assert_eq!(bytes_to_string("\u{3000}\u{e9}\u{2028}\0".as_bytes()), "\u{e9}");
}

#[test]
fn bytes_to_string_repairs_what_is_no_utf8() {
    assert_eq!(bytes_to_string(b"a\xffb\0"), "a\u{fffd}b");
}

#[test]
fn what_goes_into_a_buffer_comes_out() {
    let text = r#"{"id":"n1","command":"quit"}"#;
    assert_eq!(bytes_to_string(&create_buffer(text.as_bytes())), text);
}

fn awkward_texts() -> Vec<String> {
    let mut texts: Vec<String> = [
        "",
        " ",
        "  leading and trailing  ",
        "\"",
        "\\",
        "\\\"",
        "a\nb\r\nc\td",
        "\u{0}",
        "\u{1}\u{1f}\u{7f}",
        "nul at the end\u{0}",
        "caf\u{e9} \u{4e2d}\u{6587} \u{1F600}",
        "\u{2028}\u{2029}\u{a0}\u{3000}",
        "null",
        "{}",
        "[1,2]",
        "{\"id\":\"x\",\"command\":\"quit\"}",
        "</script>",
        "\u{fffd}",
    ]
    .iter()
    .map(|text| text.to_string())
    .collect();
    texts.push("x".repeat(1000));
    texts.push("\u{1F600}".repeat(200));
    texts
}

fn packages_around(text: &str) -> Vec<Package> {
    let plain = |title: &str, description: Option<&str>, icon: Option<&str>| Hit {
        id: Uuid::from(text),
        title: title.to_string(),
        description: description.map(str::to_string),
        icon: icon.map(str::to_string),
        use_pango: text.len() % 2 == 0,
    };
    vec![
        package(text, Payload::Command(Command::Quit)),
        package("q", Payload::Command(Command::GetData(text.to_string()))),
        package("a", Payload::Command(Command::Activate(Uuid::from(text)))),
        package("r", Payload::Result((Uuid::from(text), Ok(())))),
        package("e", Payload::Result((Uuid::from("q"), Err(text.to_string())))),
        package("h", Payload::Hit(plain(text, None, None))),
        package("i", Payload::Hit(plain("t", Some(text), Some(text)))),
    ]
}

#[test]
fn awkward_text_survives_the_wire_in_every_place() {
    for text in awkward_texts() {
        for original in packages_around(&text) {
            assert!(fits_buffer(&original));
            assert_eq!(decode_text(&encode_text(&original)).as_ref(), Ok(&original));
            assert_eq!(decode_document(&encode_document(&original)).as_ref(), Ok(&original));
            assert_eq!(decode(&encode(&original)), Ok(original));
        }
    }
}

#[test]
fn the_text_of_a_package_is_an_object_without_blank_ends() {
    for text in awkward_texts() {
        for original in packages_around(&text) {
            let written = encode_text(&original);
            assert!(written.starts_with("{\"id\":"));
            assert!(written.ends_with('}'));
            assert_eq!(bytes_to_string(written.as_bytes()), written);
        }
    }
}

#[test]
fn a_package_fits_up_to_the_size_of_the_buffer() {
    // {"id":"","command":{"get_data":""}} takes 35 bytes.
    let largest = package("", Payload::Command(Command::GetData("x".repeat(4096 - 35))));
    assert_eq!(encode_text(&largest).len(), 4096);
    assert!(fits_buffer(&largest));
    assert_eq!(decode(&encode(&largest)), Ok(largest));
    let too_large = package("", Payload::Command(Command::GetData("x".repeat(4096 - 34))));
    assert!(!fits_buffer(&too_large));
    assert_eq!(decode(&encode(&too_large)), Err(DecodeError::Syntax));
}
