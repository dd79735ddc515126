use winshell::input::{encode_key, paste};

#[test]
fn keyboard_protocol() {
    assert_eq!(
        encode_key("up", false, false, false, true).unwrap(),
        b"\x1bOA"
    );
    assert_eq!(
        encode_key("left", true, false, false, false).unwrap(),
        b"\x1b[1;5D"
    );
    assert_eq!(encode_key("c", true, false, false, false).unwrap(), [3]);
    assert_eq!(
        encode_key("f12", false, false, false, false).unwrap(),
        b"\x1b[24~"
    );
    assert!(encode_key("a", false, false, false, false).is_none());
}

#[test]
fn paste_cannot_escape_brackets() {
    assert_eq!(
        paste("a\r\nb\x1b[201~c", true),
        b"\x1b[200~a\nb[201~c\x1b[201~"
    );
}

#[test]
fn cursor_keys_follow_cursor_mode_and_modifiers() {
    assert_eq!(encode_key("up", false, false, false, false).unwrap(), b"\x1b[A");
    assert_eq!(encode_key("home", false, false, true, false).unwrap(), b"\x1b[1;2H");
    assert_eq!(encode_key("end", true, true, true, true).unwrap(), b"\x1b[1;8F");
}

#[test]
fn editing_and_function_keys() {
    assert_eq!(encode_key("delete", false, false, false, false).unwrap(), b"\x1b[3~");
    assert_eq!(encode_key("pagedown", true, false, false, false).unwrap(), b"\x1b[6;5~");
    assert_eq!(encode_key("f1", false, false, false, false).unwrap(), b"\x1bOP");
    assert_eq!(encode_key("f4", false, true, false, false).unwrap(), b"\x1b[1;3S");
    assert_eq!(encode_key("f10", false, false, true, false).unwrap(), b"\x1b[21;2~");
}

#[test]
fn plain_keys_control_and_alt() {
    assert_eq!(encode_key("enter", false, false, false, false).unwrap(), b"\r");
    assert_eq!(encode_key("backspace", false, false, false, false).unwrap(), [127]);
    assert_eq!(encode_key("backspace", true, false, false, false).unwrap(), [8]);
    assert_eq!(encode_key("tab", false, false, true, false).unwrap(), b"\x1b[Z");
    assert_eq!(encode_key("tab", true, false, false, false).unwrap(), b"\t");
    assert_eq!(encode_key("escape", false, true, false, false).unwrap(), [27, 27]);
    assert_eq!(encode_key("space", true, false, false, false).unwrap(), [0]);
    assert_eq!(encode_key("[", true, false, false, false).unwrap(), [27]);
    assert_eq!(encode_key("?", true, false, false, false).unwrap(), [127]);
    assert_eq!(encode_key("Z", true, false, false, false).unwrap(), [26]);
    assert_eq!(encode_key("x", true, true, false, false).unwrap(), [27, 24]);
    assert_eq!(encode_key("x", false, true, false, false).unwrap(), b"\x1bx");
    assert!(encode_key("é", false, true, false, false).is_none());
    assert!(encode_key("f13", true, false, false, false).is_none());
}

#[test]
fn paste_normalizes_line_ends() {
    assert_eq!(paste("a\r\nb\rc\nd", false), b"a\rb\rc\rd");
    assert_eq!(paste("a\r\x1b\nb", true), b"\x1b[200~a\nb\x1b[201~");
    assert_eq!(paste("中文", false), "中文".as_bytes());
    assert_eq!(paste("", true), b"\x1b[200~\x1b[201~");
}

#[test]
fn plain_text_is_pasted_unchanged() {
    let text = "echo 'hello'\nls -la";
    let framed = [b"\x1b[200~".as_slice(), text.as_bytes(), b"\x1b[201~"].concat();
    assert_eq!(paste(text, true), framed);
}

#[test]
fn unbracketed_paste_is_settled() {
    let once = paste("a\r\nb\nc\rd\x1be", false);
    assert_eq!(once, b"a\rb\rc\rde");
    let again = paste(std::str::from_utf8(&once).unwrap(), false);
    assert_eq!(once, again);
    assert!(!once.contains(&27) && !once.contains(&10));
    let bracketed = paste("x\r\ny", true);
    assert_eq!(bracketed, b"\x1b[200~x\ny\x1b[201~");
}
