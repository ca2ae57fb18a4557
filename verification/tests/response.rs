use http_server::error::ParseError;
use http_server::response::{HttpResponse, ResponseBody, StatusCode};

fn body(content_type: &str, content: &[u8]) -> ResponseBody {
    ResponseBody { content_type: content_type.to_string(), content: content.to_vec() }
}

fn announced_length(wire: &[u8]) -> usize {
    let end = wire.windows(4).position(|w| w == b"\r\n\r\n").unwrap();
    let head = std::str::from_utf8(&wire[..end]).unwrap();
    let line = head.split("\r\n").find(|l| l.starts_with("Content-Length: ")).unwrap();
    line["Content-Length: ".len()..].parse().unwrap()
}

#[test]
fn status_code_has_its_three_digits() {
    assert_eq!(StatusCode::OK.to_string(), "200");
    assert_eq!(StatusCode::Created.to_string(), "201");
    assert_eq!(StatusCode::NotFound.to_string(), "404");
}

#[test]
fn status_code_from_its_digits() {
    assert_eq!(StatusCode::try_from("200"), Ok(StatusCode::OK));
    assert_eq!(StatusCode::try_from("201"), Ok(StatusCode::Created));
    assert_eq!(StatusCode::try_from("404"), Ok(StatusCode::NotFound));
}

#[test]
fn status_code_from_other_text_is_invalid() {
    for text in ["", "500", "20", "2000", " 200", "200 ", "OK", "40\u{664}"] {
        assert_eq!(StatusCode::try_from(text), Err(ParseError::InvalidStatusCode));
    }
}

#[test]
fn status_code_digits_round_trip() {
    for status in [StatusCode::OK, StatusCode::Created, StatusCode::NotFound] {
        assert_eq!(StatusCode::try_from(status.to_string().as_str()), Ok(status));
    }
}

#[test]
fn body_from_text_is_plain_text() {
    assert_eq!(ResponseBody::try_from("abc"), Ok(body("text/plain", b"abc")));
    assert_eq!(ResponseBody::try_from(""), Ok(body("text/plain", b"")));
    assert_eq!(ResponseBody::try_from("\u{e9}"), Ok(body("text/plain", &[0xc3, 0xa9])));
}

#[test]
fn body_from_bytes_is_plain_text() {
    assert_eq!(ResponseBody::from_bytes(vec![0, 255, 7]), body("text/plain", &[0, 255, 7]));
}

#[test]
fn with_content_type_changes_the_type_only() {
    let changed = ResponseBody::from_bytes(vec![1, 2, 3]).with_content_type("application/octet-stream");
    assert_eq!(changed, body("application/octet-stream", &[1, 2, 3]));
    assert_eq!(changed.with_content_type(""), body("", &[1, 2, 3]));
}

#[test]
fn body_head_names_type_and_length() {
    assert_eq!(
        body("text/plain", b"abc").head(),
        "Content-Type: text/plain\r\nContent-Length: 3\r\n\r\n"
    );
    assert_eq!(body("", b"").head(), "Content-Type: \r\nContent-Length: 0\r\n\r\n");
}

#[test]
fn body_on_the_wire() {
    assert_eq!(
        body("text/plain", b"abc").to_bytes(),
        b"Content-Type: text/plain\r\nContent-Length: 3\r\n\r\nabc"
    );
    assert_eq!(
        body("application/octet-stream", &[0, 159, 146, 150]).to_bytes(),
        b"Content-Type: application/octet-stream\r\nContent-Length: 4\r\n\r\n\x00\x9f\x92\x96"
    );
}

#[test]
fn response_without_body_on_the_wire() {
    assert_eq!(HttpResponse::new(StatusCode::OK, None).to_bytes(), b"HTTP/1.1 200 OK\r\n\r\n");
    assert_eq!(HttpResponse::new(StatusCode::Created, None).to_bytes(), b"HTTP/1.1 201 OK\r\n\r\n");
    assert_eq!(HttpResponse::new(StatusCode::NotFound, None).to_bytes(), b"HTTP/1.1 404 OK\r\n\r\n");
}

#[test]
fn response_with_body_on_the_wire() {
    let response = HttpResponse::new(StatusCode::OK, Some(body("text/plain", b"abc")));
    assert_eq!(
        response.to_bytes(),
        b"HTTP/1.1 200 OK\r\nContent-Type: text/plain\r\nContent-Length: 3\r\n\r\nabc"
    );
}

#[test]
fn response_with_empty_body_still_has_its_headers() {
    let response = HttpResponse::new(StatusCode::OK, Some(body("text/plain", b"")));
    assert_eq!(
        response.to_bytes(),
        b"HTTP/1.1 200 OK\r\nContent-Type: text/plain\r\nContent-Length: 0\r\n\r\n"
    );
}

#[test]
fn response_reason_is_ok_whatever_the_status() {
    let response = HttpResponse::new(StatusCode::NotFound, Some(body("text/plain", b"gone")));
    assert_eq!(
        response.to_bytes(),
        b"HTTP/1.1 404 OK\r\nContent-Type: text/plain\r\nContent-Length: 4\r\n\r\ngone"
    );
}

#[test]
fn response_is_status_line_and_body() {
    for status in [StatusCode::OK, StatusCode::Created, StatusCode::NotFound] {
        let b = body("a/b", &[1, 2, 3, 4, 5]);
        let mut expected = format!("HTTP/1.1 {} OK\r\n", status.to_string()).into_bytes();
        expected.extend_from_slice(&b.to_bytes());
        assert_eq!(HttpResponse::new(status, Some(b)).to_bytes(), expected);
    }
}

#[test]
fn content_length_counts_bytes_not_characters() {
    let b = ResponseBody::try_from("gr\u{fc}\u{df}e \u{4e2d}\u{6587} \u{1f600}").unwrap();
    assert_eq!(b.content.len(), 19);
    assert_eq!(
        HttpResponse::new(StatusCode::OK, Some(b)).to_bytes(),
        "HTTP/1.1 200 OK\r\nContent-Type: text/plain\r\nContent-Length: 19\r\n\r\ngr\u{fc}\u{df}e \u{4e2d}\u{6587} \u{1f600}"
            .as_bytes()
    );
}

#[test]
fn content_length_is_written_in_decimal() {
    for (length, digits) in [
        (0usize, "0"),
        (1, "1"),
        (9, "9"),
        (10, "10"),
        (11, "11"),
        (99, "99"),
        (100, "100"),
        (101, "101"),
        (1024, "1024"),
        (9999, "9999"),
        (10000, "10000"),
        (123456, "123456"),
    ] {
        let head = body("t", &vec![b'x'; length]).head();
        assert_eq!(head, format!("Content-Type: t\r\nContent-Length: {}\r\n\r\n", digits));
    }
}

#[test]
fn content_length_round_trip_of_text() {
    for text in ["", "a", "abc", "gr\u{fc}\u{df}e", "\u{1f600}\u{1f600}", "line\r\nline\r\n\r\n"] {
        let b = ResponseBody::try_from(text).unwrap();
        let wire = HttpResponse::new(StatusCode::OK, Some(b)).to_bytes();
        assert_eq!(announced_length(&wire), text.len());
        assert!(wire.ends_with(text.as_bytes()));
    }
}

#[test]
fn content_length_round_trip_of_binary_content() {
    let all: Vec<u8> = (0..=255u8).collect();
    for content in [vec![], vec![0], vec![255, 254], vec![13, 10, 13, 10], all.clone(), all.repeat(40)] {
        let b = ResponseBody::from_bytes(content.clone()).with_content_type("application/octet-stream");
        let wire = HttpResponse::new(StatusCode::OK, Some(b)).to_bytes();
        assert_eq!(announced_length(&wire), content.len());
        assert_eq!(wire[wire.len() - content.len()..], content[..]);
    }
}

#[test]
fn content_length_round_trip_of_every_small_length() {
    for length in 0..1200usize {
        let b = ResponseBody::from_bytes(vec![0xa5; length]);
        let wire = HttpResponse::new(StatusCode::Created, Some(b)).to_bytes();
        assert_eq!(announced_length(&wire), length);
    }
}

#[test]
fn new_keeps_status_and_body() {
    let response = HttpResponse::new(StatusCode::Created, Some(body("t", b"c")));
    assert_eq!(response.status, StatusCode::Created);
    assert_eq!(response.body, Some(body("t", b"c")));
    let response = HttpResponse::new(StatusCode::NotFound, None);
    assert_eq!(response.status, StatusCode::NotFound);
    assert_eq!(response.body, None);
}

#[test]
fn response_defaults() {
    assert_eq!(StatusCode::default(), StatusCode::OK);
    assert_eq!(ResponseBody::default(), body("text/plain", b""));
    assert_eq!(HttpResponse::default(), HttpResponse::new(StatusCode::OK, None));
}
