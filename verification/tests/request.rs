use file_server::request::{decode_request, get_path, request_line, REQUEST_BUFFER_SIZE};

#[test]
fn path_is_the_second_word() {
    assert_eq!(get_path("GET /index.html HTTP/1.1\r\nHost: localhost\r\n\r\n"), Some("/index.html"));
}

#[test]
fn path_of_the_root() {
    assert_eq!(get_path("GET / HTTP/1.1\r\n\r\n"), Some("/"));
}

#[test]
fn path_may_end_the_request() {
    assert_eq!(get_path("GET /a/b"), Some("/a/b"));
}

#[test]
fn any_white_space_separates_words() {
    assert_eq!(get_path("  GET\t\t/x\r\nHTTP/1.1"), Some("/x"));
    assert_eq!(get_path("GET\r/one\r/two"), Some("/one"));
    assert_eq!(get_path("GET\u{00A0}/nbsp\u{3000}rest"), Some("/nbsp"));
}

#[test]
fn nothing_behind_the_request_line_is_looked_at() {
    assert_eq!(get_path("GET\n/one\n/two"), None);
    assert_eq!(get_path("GET\r\nHost: localhost\r\n\r\n"), None);
    assert_eq!(get_path("\r\nGET / HTTP/1.1\r\n"), None);
    assert_eq!(get_path("GET /a\r\n/b /c\r\n"), Some("/a"));
}

#[test]
fn one_word_has_no_path() {
    assert_eq!(get_path("GET"), None);
    assert_eq!(get_path("GET   \r\n"), None);
    assert_eq!(get_path("   GET"), None);
}

#[test]
fn empty_and_blank_requests_have_no_path() {
    assert_eq!(get_path(""), None);
    assert_eq!(get_path(" \t\r\n"), None);
}

#[test]
fn zero_bytes_are_no_white_space() {
    assert_eq!(get_path("GET /a\0\0\0"), Some("/a\0\0\0"));
    assert_eq!(get_path("\0\0\0"), None);
}

#[test]
fn path_outside_ascii_is_kept_whole() {
    assert_eq!(get_path("GET /caf\u{e9}/\u{1F600}.png HTTP/1.1"), Some("/caf\u{e9}/\u{1F600}.png"));
}

#[test]
fn path_agrees_with_splitting_the_first_line_on_white_space() {
    let samples = [
        "GET /a HTTP/1.1",
        " POST   /b/c\tHTTP/1.0\r\n",
        "x",
        "",
        "a b",
        "a\u{2003}b\u{2028}c",
        "\u{FEFF}GET /bom",
        "GET /tr\u{e4}ger ok",
        "GET\r\n/late HTTP/1.1",
        "GET /early\nrest of it",
    ];
    for s in samples {
        let line = s.lines().next().unwrap_or("");
        assert_eq!(get_path(s), line.split_whitespace().nth(1), "for {:?}", s);
    }
}

#[test]
fn first_line_stops_at_the_line_end() {
    assert_eq!(request_line("GET / HTTP/1.1\r\nHost: x\r\n\r\n"), "GET / HTTP/1.1");
    assert_eq!(request_line("GET / HTTP/1.1\nHost: x\n"), "GET / HTTP/1.1");
}

#[test]
fn first_line_of_a_request_without_newline_is_the_request() {
    assert_eq!(request_line("GET /"), "GET /");
    assert_eq!(request_line("GET /\r"), "GET /\r");
    assert_eq!(request_line(""), "");
}

#[test]
fn first_line_may_be_empty() {
    assert_eq!(request_line("\r\nGET /"), "");
    assert_eq!(request_line("\nGET /"), "");
}

#[test]
fn first_line_loses_one_carriage_return_only() {
    assert_eq!(request_line("a\r\r\nb"), "a\r");
    assert_eq!(request_line("a\rb\nc"), "a\rb");
}

#[test]
fn first_line_agrees_with_lines() {
    let samples = ["", "a", "a\n", "a\r\n", "\n", "\r\n", "\r", "a\rb", "a\r\r\n", "é\r\nb\r\n", "a\nb"];
    for s in samples {
        assert_eq!(request_line(s), s.lines().next().unwrap_or(""), "for {:?}", s);
    }
}

#[test]
fn request_buffer_holds_1024_bytes() {
    assert_eq!(REQUEST_BUFFER_SIZE, 1024);
}

#[test]
fn valid_bytes_decode_to_their_text() {
    assert_eq!(decode_request(b"GET / HTTP/1.1\r\n\r\n"), "GET / HTTP/1.1\r\n\r\n");
    assert_eq!(decode_request("GET /caf\u{e9} HTTP/1.1".as_bytes()), "GET /caf\u{e9} HTTP/1.1");
    assert_eq!(decode_request(b""), "");
}

#[test]
fn invalid_bytes_are_replaced_not_refused() {
    assert_eq!(decode_request(b"GET /\xff\xfe HTTP/1.1"), "GET /\u{FFFD}\u{FFFD} HTTP/1.1");
    assert_eq!(decode_request(b"\xc3"), "\u{FFFD}");
    assert_eq!(decode_request(b"a\xe2\x82z"), "a\u{FFFD}z");
}

#[test]
fn nothing_is_read_beyond_the_buffer() {
    let long = vec![b'a'; 5000];
    assert_eq!(decode_request(&long), "a".repeat(1024));
    let exact = vec![b'b'; 1024];
    assert_eq!(decode_request(&exact), "b".repeat(1024));
    let under = vec![b'c'; 1023];
    assert_eq!(decode_request(&under), "c".repeat(1023));
}

#[test]
fn character_cut_by_the_buffer_is_replaced() {
    let mut bytes = vec![b'a'; 1023];
    bytes.extend_from_slice("\u{e9}".as_bytes());
    bytes.extend_from_slice(b" tail");
    assert_eq!(decode_request(&bytes), format!("{}\u{FFFD}", "a".repeat(1023)));
}

#[test]
fn decoding_agrees_with_lossy_conversion() {
    let samples: Vec<Vec<u8>> = vec![
        b"plain".to_vec(),
        vec![0, 0, 0],
        vec![0xf0, 0x9f, 0x98, 0x80],
        vec![0xf0, 0x9f, 0x98],
        vec![0xed, 0xa0, 0x80],
        vec![0x80, 0x80, b'x', 0xc0, 0xaf],
    ];
    for bytes in samples {
        assert_eq!(decode_request(&bytes), String::from_utf8_lossy(&bytes));
    }
}

#[test]
fn path_of_a_decoded_request() {
    let text = decode_request(b"GET /a\xffb HTTP/1.1\r\n");
    assert_eq!(get_path(&text), Some("/a\u{FFFD}b"));
}
