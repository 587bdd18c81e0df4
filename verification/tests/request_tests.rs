use isla_client::request::{parse_hex, parse_request, trim, Request};

#[test]
fn parses_version() {
    assert!(matches!(parse_request(b"version"), Request::Version));
}

#[test]
fn parses_version_with_surrounding_whitespace() {
    assert!(matches!(parse_request(b"  version\r\n"), Request::Version));
}

#[test]
fn parses_stop() {
    assert!(matches!(parse_request(b"stop"), Request::Stop));
    assert!(matches!(parse_request(b"\tstop "), Request::Stop));
}

#[test]
fn parses_execute_with_argument() {
    match parse_request(b"execute 10cf3") {
        Request::Execute(arg) => assert_eq!(arg, b"10cf3".to_vec()),
        _ => panic!("expected an execute request"),
    }
}

#[test]
fn parses_execute_asm_keeping_argument_spaces() {
    match parse_request(b"execute_asm mov x0, x1") {
        Request::ExecuteAsm(arg) => assert_eq!(arg, b"mov x0, x1".to_vec()),
        _ => panic!("expected an execute_asm request"),
    }
}

#[test]
fn rejects_unknown_token() {
    assert!(matches!(parse_request(b"frobnicate"), Request::Invalid));
}

#[test]
fn rejects_bare_execute() {
    assert!(matches!(parse_request(b"execute"), Request::Invalid));
}

#[test]
fn rejects_version_with_argument() {
    assert!(matches!(parse_request(b"version now"), Request::Invalid));
}

#[test]
fn rejects_empty_message() {
    assert!(matches!(parse_request(b""), Request::Invalid));
    assert!(matches!(parse_request(b"   \t "), Request::Invalid));
}

#[test]
fn trims_ascii_whitespace_only_at_the_edges() {
    assert_eq!(trim(b" \t a b \n "), b"a b".to_vec());
    assert_eq!(trim(b"x"), b"x".to_vec());
    assert_eq!(trim(b""), Vec::<u8>::new());
}

#[test]
fn parses_hex_opcodes() {
    assert_eq!(parse_hex(b"0"), Some(0));
    assert_eq!(parse_hex(b"10cf3"), Some(0x10cf3));
    assert_eq!(parse_hex(b"DEADbeef"), Some(0xdead_beef));
    assert_eq!(parse_hex(b"ffffffff"), Some(u32::MAX));
    assert_eq!(parse_hex(b"00000000ff"), Some(0xff));
}

#[test]
fn rejects_bad_hex_opcodes() {
    assert_eq!(parse_hex(b""), None);
    assert_eq!(parse_hex(b"xyz"), None);
    assert_eq!(parse_hex(b"12 34"), None);
    assert_eq!(parse_hex(b"100000000"), None);
    assert_eq!(parse_hex(b"-1"), None);
}
