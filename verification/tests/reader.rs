use microbit_music_tui::serial::protocol::Response;
use microbit_music_tui::serial::reader::LineReader;

#[test]
fn complete_lines_become_responses() {
    let mut r = LineReader::new();
    let out = r.feed(b"R\nK\r\nE oops\n");
    assert_eq!(out, vec![Response::Ready, Response::Credit, Response::Error("oops".into())]);
    assert!(r.pending.is_empty());
}

#[test]
fn partial_line_is_kept_for_the_next_read() {
    let mut r = LineReader::new();
    assert!(r.feed(b"E half").is_empty());
    assert_eq!(r.pending, b"E half".to_vec());
    let out = r.feed(b" done\nN");
    assert_eq!(out, vec![Response::Error("half done".into())]);
    assert_eq!(r.pending, b"N".to_vec());
    assert_eq!(r.feed(b"\n"), vec![Response::Next]);
}

#[test]
fn reading_in_pieces_equals_reading_at_once() {
    let whole = b"R\nP\nE x y\nzz\nF";
    let mut one = LineReader::new();
    let all = one.feed(whole);
    for split in 0..whole.len() {
        let mut two = LineReader::new();
        let mut got = two.feed(&whole[..split]);
        got.extend(two.feed(&whole[split..]));
        assert_eq!(got, all);
        assert_eq!(two.pending, one.pending);
    }
}

#[test]
fn invalid_utf8_is_replaced() {
    let mut r = LineReader::new();
    let out = r.feed(&[0xC3, 0x28, b'\n']);
    assert_eq!(out, vec![Response::Unknown("\u{FFFD}(".into())]);
}
