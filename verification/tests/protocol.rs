use microbit_music_tui::serial::protocol::{Command, Response};
use microbit_music_tui::serial::wire::{frame_chunk, line_bytes};

#[test]
fn encodes_commands() {
    assert_eq!(Command::Handshake.encode(), "H\n");
    assert_eq!(Command::Stop.encode(), "S\n");
    assert_eq!(Command::BeginStream { rate: 7812 }.encode(), "W 7812\n");
    assert_eq!(Command::Chunk { len: 512 }.encode(), "C 512\n");
    assert_eq!(Command::EndStream.encode(), "Z\n");
}

#[test]
fn parses_responses() {
    assert_eq!(Response::parse("R"), Response::Ready);
    assert_eq!(Response::parse("R\r\n"), Response::Ready);
    assert_eq!(Response::parse("D"), Response::Done);
    assert_eq!(Response::parse("K"), Response::Credit);
    assert_eq!(Response::parse("P"), Response::Pause);
    assert_eq!(Response::parse("F"), Response::Forward);
    assert_eq!(Response::parse("B"), Response::Back);
    assert_eq!(Response::parse("N"), Response::Next);
    assert_eq!(
        Response::parse("E bad note"),
        Response::Error("bad note".into())
    );
    assert_eq!(Response::parse("???"), Response::Unknown("???".into()));
}

#[test]
fn encodes_zero_and_large_numbers() {
    assert_eq!(Command::BeginStream { rate: 0 }.encode(), "W 0\n");
    assert_eq!(Command::Chunk { len: u32::MAX }.encode(), "C 4294967295\n");
    assert_eq!(Command::BeginStream { rate: 10 }.encode(), "W 10\n");
}

#[test]
fn parse_trims_whitespace_around_line_and_argument() {
    assert_eq!(Response::parse("  K \t\r\n"), Response::Credit);
    assert_eq!(
        Response::parse(" E   out of  memory \n"),
        Response::Error("out of  memory".into())
    );
    assert_eq!(Response::parse("E"), Response::Error(String::new()));
    assert_eq!(Response::parse("\u{3000}N\u{3000}"), Response::Next);
}

#[test]
fn parse_keeps_unknown_lines_trimmed() {
    assert_eq!(Response::parse("  RR  \n"), Response::Unknown("RR".into()));
    assert_eq!(Response::parse("r"), Response::Unknown("r".into()));
    assert_eq!(Response::parse("\r\n"), Response::Unknown(String::new()));
    assert_eq!(Response::parse("X y z"), Response::Unknown("X y z".into()));
    assert_eq!(Response::parse("Ready"), Response::Unknown("Ready".into()));
}

#[test]
fn parse_takes_opcode_before_first_space() {
    assert_eq!(Response::parse("R extra"), Response::Ready);
    assert_eq!(Response::parse("D 1 2"), Response::Done);
}

#[test]
fn trailing_newline_is_optional() {
    for line in ["R", "E low battery", "what", "B"] {
        assert_eq!(Response::parse(&format!("{line}\n")), Response::parse(line));
        assert_eq!(Response::parse(&format!("{line}\r\n")), Response::parse(line));
    }
}

#[test]
fn line_bytes_are_the_encoded_line() {
    assert_eq!(line_bytes(&Command::BeginStream { rate: 7812 }), b"W 7812\n".to_vec());
    assert_eq!(line_bytes(&Command::Handshake), b"H\n".to_vec());
}

#[test]
fn chunk_frame_is_header_then_payload() {
    let data = [10u8, 200, 0, 67, 10];
    let mut expected = b"C 5\n".to_vec();
    expected.extend_from_slice(&data);
    assert_eq!(frame_chunk(&data), expected);
    assert_eq!(frame_chunk(&[]), b"C 0\n".to_vec());
}
