use room_monitoring::nvs::decode_input_line;
use room_monitoring::serial::LineAssembler;

#[test]
fn line_ends_at_carriage_return_or_line_feed() {
    let mut line = LineAssembler::new();
    let mut out = None;
    for &c in b"my-ssid\rrest" {
        if let Some(l) = line.feed(c) {
            out = Some(l);
            break;
        }
    }
    assert_eq!(out, Some(b"my-ssid".to_vec()));
    assert_eq!(line.feed(b'x'), None);
    assert_eq!(line.feed(b'\n'), Some(b"x".to_vec()));
    assert_eq!(line.feed(b'\n'), Some(Vec::new()));
}

#[test]
fn typed_line_decodes_as_utf8() {
    assert_eq!(decode_input_line(b"pass word"), "pass word");
    assert_eq!(decode_input_line("温度".as_bytes()), "温度");
    assert_eq!(decode_input_line(&[b'a', 0xFF, b'b']), "a\u{FFFD}b");
}
