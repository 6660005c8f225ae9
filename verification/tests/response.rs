use file_server::response::{
    Headers, Response, STATUS_BAD_REQUEST, STATUS_INTERNAL_ERROR, STATUS_NOT_FOUND, STATUS_OK,
};

fn headers(content_type: &str, content_length: usize) -> Headers {
    Headers { content_type: content_type.to_string(), content_length }
}

fn find(hay: &[u8], needle: &[u8]) -> Option<usize> {
    (0..hay.len()).find(|&i| hay[i..].starts_with(needle))
}

fn declared_length(wire: &[u8]) -> usize {
    let end = find(wire, b"\r\n\r\n").unwrap();
    let head = std::str::from_utf8(&wire[..end + 2]).unwrap();
    let at = head.find("\r\nContent-Length: ").unwrap() + "\r\nContent-Length: ".len();
    let stop = at + head[at..].find("\r\n").unwrap();
    head[at..stop].parse().unwrap()
}

fn body_of(wire: &[u8]) -> &[u8] {
    &wire[find(wire, b"\r\n\r\n").unwrap() + 4..]
}

#[test]
fn status_lines_are_the_known_ones() {
    assert_eq!(STATUS_OK, "200 OK");
    assert_eq!(STATUS_BAD_REQUEST, "400 Bad Request");
    assert_eq!(STATUS_NOT_FOUND, "404 Not Found");
    assert_eq!(STATUS_INTERNAL_ERROR, "500 Internal server error");
}

#[test]
fn header_block_has_two_lines_and_a_blank_one() {
    assert_eq!(
        headers("text/plain", 12).to_bytes(),
        b"Content-Type: text/plain\r\nContent-Length: 12\r\n\r\n".to_vec()
    );
}

#[test]
fn length_is_written_in_decimal() {
    assert_eq!(headers("a/b", 0).to_bytes(), b"Content-Type: a/b\r\nContent-Length: 0\r\n\r\n".to_vec());
    assert_eq!(headers("a/b", 9).to_bytes(), b"Content-Type: a/b\r\nContent-Length: 9\r\n\r\n".to_vec());
    assert_eq!(headers("a/b", 10).to_bytes(), b"Content-Type: a/b\r\nContent-Length: 10\r\n\r\n".to_vec());
    assert_eq!(
        headers("a/b", 1234567890).to_bytes(),
        b"Content-Type: a/b\r\nContent-Length: 1234567890\r\n\r\n".to_vec()
    );
    assert_eq!(
        headers("a/b", usize::MAX).to_bytes(),
        format!("Content-Type: a/b\r\nContent-Length: {}\r\n\r\n", usize::MAX).into_bytes()
    );
}

#[test]
fn new_keeps_its_parts() {
    let h = headers("text/plain", 2);
    let r = Response::new(STATUS_OK, "hi".to_string(), &h);
    assert_eq!(r.statuscode, "200 OK");
    assert_eq!(r.message, "hi");
    assert_eq!(*r.headers, h);
}

#[test]
fn response_is_status_line_headers_and_body() {
    let h = headers("text/plain", 5);
    let r = Response::new(STATUS_OK, "hello".to_string(), &h);
    assert_eq!(
        r.as_bytes(),
        b"HTTP/1.1 200 OK\r\nContent-Type: text/plain\r\nContent-Length: 5\r\n\r\nhello".to_vec()
    );
}

#[test]
fn response_with_an_empty_body() {
    let h = headers("text/plain", 0);
    let r = Response::new(STATUS_NOT_FOUND, String::new(), &h);
    assert_eq!(
        r.as_bytes(),
        b"HTTP/1.1 404 Not Found\r\nContent-Type: text/plain\r\nContent-Length: 0\r\n\r\n".to_vec()
    );
}

#[test]
fn body_is_written_as_utf8() {
    let body = "h\u{e9}llo \u{1F600}";
    let h = headers("text/plain", body.len());
    let r = Response::new(STATUS_OK, body.to_string(), &h);
    let wire = r.as_bytes();
    assert_eq!(body_of(&wire), body.as_bytes());
    assert_eq!(declared_length(&wire), 11);
}

#[test]
fn declared_length_reads_back_as_the_length_of_the_body() {
    let bodies = ["", "a", "line\r\n\r\nwith blank lines\r\n", "\u{e9}\u{e9}\u{e9}", "Content-Length: 99\r\n"];
    let statuses = [STATUS_OK, STATUS_BAD_REQUEST, STATUS_NOT_FOUND, STATUS_INTERNAL_ERROR];
    for body in bodies {
        for status in statuses {
            let h = headers("application/json", body.len());
            let wire = Response::new(status, body.to_string(), &h).as_bytes();
            assert_eq!(declared_length(&wire), body_of(&wire).len());
            assert_eq!(body_of(&wire), body.as_bytes());
            assert!(wire.starts_with(format!("HTTP/1.1 {}\r\n", status).as_bytes()));
        }
    }
}

#[test]
fn serializing_twice_gives_the_same_bytes() {
    let h = headers("image/png", 3);
    let r = Response::new(STATUS_OK, "abc".to_string(), &h);
    assert_eq!(r.as_bytes(), r.as_bytes());
}
