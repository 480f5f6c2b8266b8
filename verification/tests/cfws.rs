use media_type::parse::cfws::{_parse_fws_modern, parse_opt_crlf_seq, parse_opt_ws_seq};

#[test]
fn crlf_space() {
    let text = "\r\n ";
    assert_eq!(_parse_fws_modern(text, 0), Ok(3));
}

#[test]
fn crlf_tab() {
    let text = "\r\n\t";
    assert_eq!(_parse_fws_modern(text, 0), Ok(3));
}

#[test]
fn ws_then_crlf() {
    let text = "  \r\n ";
    assert_eq!(_parse_fws_modern(text, 0), Ok(5));
}

#[test]
fn ws_then_crlf_then_ws() {
    let text = "  \r\n   abcde";
    assert_eq!(_parse_fws_modern(text, 0), Ok(7));
}

#[test]
fn wsonly() {
    let text = "     ";
    assert_eq!(_parse_fws_modern(text, 0), Ok(5));
}

#[test]
fn no_fws() {
    let text = "";
    assert_eq!(_parse_fws_modern(text, 0), Ok(0));
}

#[test]
fn non_crlf() {
    let text = "abc";
    assert_eq!(parse_opt_crlf_seq(text, 0), Ok(0));
}

#[test]
fn crnl_space() {
    let text = "\r\n ";
    assert_eq!(parse_opt_crlf_seq(text, 0), Ok(3));
}

#[test]
fn crnl_tab() {
    let text = "\r\n\t";
    assert_eq!(parse_opt_crlf_seq(text, 0), Ok(3));
}

#[test]
fn no_ws() {
    let text = "";
    assert_eq!(parse_opt_ws_seq(text, 0), 0)
}

#[test]
fn spaces() {
    let text = "   ";
    assert_eq!(parse_opt_ws_seq(text, 0), 3)
}

#[test]
fn spaces_then_more() {
    let text = "   abc";
    assert_eq!(parse_opt_ws_seq(text, 0), 3)
}

#[test]
fn mixed_spaces() {
    let text = " \t\t \t";
    assert_eq!(parse_opt_ws_seq(text, 0), 5)
}

#[test]
fn start_offset() {
    let text = "a \t\t \t";
    assert_eq!(parse_opt_ws_seq(text, 2), text.len())
}
