use http_server::connection::{respond, step, Action, Event, Outcome, Stage};
use http_server::error::ParseError;
use http_server::http::Command;
use http_server::request::HttpRequest;
use http_server::response::{HttpResponse, ResponseBody, StatusCode};
use std::collections::HashMap;

type Files = HashMap<String, Vec<u8>>;

/// Runs one connection over files held in memory. Gives what was written to
/// the socket and how the connection ended.
fn serve(input: &[u8], files: &mut Files) -> (Option<Vec<u8>>, Outcome) {
    let mut written: Option<Vec<u8>> = None;
    let mut stage = Stage::Reading;
    let mut event = Event::Read(input.to_vec());
    for _ in 0..16 {
        let (next, action) = step(stage, event);
        stage = next;
        event = match action {
            Action::Proceed => Event::Proceed,
            Action::ReadFile(name) => match files.get(&name) {
                Some(content) => Event::FileContent(content.clone()),
                None => Event::Failed,
            },
            Action::WriteFile(name, content) => {
                if name.is_empty() {
                    Event::Failed
                } else {
                    files.insert(name, content);
                    Event::FileSaved
                }
            }
            Action::Write(bytes) => {
                assert!(written.is_none());
                written = Some(bytes);
                Event::Written
            }
            Action::Close(outcome) => {
                assert_eq!(stage, Stage::Closed);
                return (written, outcome);
            }
        };
    }
    panic!("the connection did not end");
}

fn request(text: &str) -> HttpRequest {
    HttpRequest::try_from(text.to_string()).unwrap()
}

fn plain(content: &[u8]) -> HttpResponse {
    HttpResponse::new(StatusCode::OK, Some(ResponseBody::from_bytes(content.to_vec())))
}

fn bare(status: StatusCode) -> HttpResponse {
    HttpResponse::new(status, None)
}

#[test]
fn echo_is_answered_with_the_text() {
    let (written, outcome) = serve(b"GET /echo/abc HTTP/1.1\r\nHost: x\r\n\r\n", &mut Files::new());
    assert_eq!(
        written.unwrap(),
        b"HTTP/1.1 200 OK\r\nContent-Type: text/plain\r\nContent-Length: 3\r\n\r\nabc"
    );
    assert_eq!(outcome, Outcome::Served);
}

#[test]
fn user_agent_is_answered_with_the_header() {
    let (written, outcome) = serve(
        b"GET /user-agent HTTP/1.1\r\nUser-Agent: testclient/1.0\r\n\r\n",
        &mut Files::new(),
    );
    assert_eq!(
        written.unwrap(),
        b"HTTP/1.1 200 OK\r\nContent-Type: text/plain\r\nContent-Length: 14\r\n\r\ntestclient/1.0"
    );
    assert_eq!(outcome, Outcome::Served);
}

#[test]
fn missing_file_is_answered_with_not_found() {
    let mut files = Files::new();
    files.insert("other.txt".to_string(), b"x".to_vec());
    let (written, outcome) = serve(b"GET /files/missing.txt HTTP/1.1\r\n\r\n", &mut files);
    assert_eq!(written.unwrap(), b"HTTP/1.1 404 OK\r\n\r\n");
    assert_eq!(outcome, Outcome::Served);
}

#[test]
fn posted_file_is_stored_and_answered_with_created() {
    let mut files = Files::new();
    let (written, outcome) =
        serve(b"POST /files/new.txt HTTP/1.1\r\nContent-Length: 5\r\n\r\nhello", &mut files);
    assert_eq!(written.unwrap(), b"HTTP/1.1 201 OK\r\n\r\n");
    assert_eq!(outcome, Outcome::Served);
    assert_eq!(files.len(), 1);
    assert_eq!(files["new.txt"], b"hello");
}

#[test]
fn header_without_separator_gets_no_response() {
    let mut files = Files::new();
    let (written, outcome) = serve(b"GET /echo/abc HTTP/1.1\r\nHost x\r\n\r\n", &mut files);
    assert_eq!(written, None);
    assert_eq!(outcome, Outcome::Rejected(ParseError::InvalidHeader));
    assert!(files.is_empty());
}

#[test]
fn index_is_answered_without_body() {
    for path in ["/", "/index", "/index/", "index"] {
        let input = format!("GET {} HTTP/1.1\r\n\r\n", path);
        let (written, outcome) = serve(input.as_bytes(), &mut Files::new());
        assert_eq!(written.unwrap(), b"HTTP/1.1 200 OK\r\n\r\n");
        assert_eq!(outcome, Outcome::Served);
    }
}

#[test]
fn existing_file_is_sent_as_octet_stream() {
    let mut files = Files::new();
    files.insert("data.bin".to_string(), vec![0, 255, 13, 10, 128]);
    let (written, outcome) = serve(b"GET /files/data.bin HTTP/1.1\r\n\r\n", &mut files);
    assert_eq!(
        written.unwrap(),
        b"HTTP/1.1 200 OK\r\nContent-Type: application/octet-stream\r\nContent-Length: 5\r\n\r\n\x00\xff\r\n\x80"
    );
    assert_eq!(outcome, Outcome::Served);
}

#[test]
fn saved_file_is_read_back() {
    let mut files = Files::new();
    let (written, _) = serve(b"POST /files/a HTTP/1.1\r\n\r\ngr\xc3\xbc\xc3\x9fe", &mut files);
    assert_eq!(written.unwrap(), b"HTTP/1.1 201 OK\r\n\r\n");
    let (written, _) = serve(b"GET /files/a HTTP/1.1\r\n\r\n", &mut files);
    assert_eq!(
        written.unwrap(),
        b"HTTP/1.1 200 OK\r\nContent-Type: application/octet-stream\r\nContent-Length: 7\r\n\r\ngr\xc3\xbc\xc3\x9fe"
    );
}

#[test]
fn save_truncates_an_existing_file() {
    let mut files = Files::new();
    files.insert("a".to_string(), b"a long old content".to_vec());
    serve(b"POST /files/a HTTP/1.1\r\n\r\nnew", &mut files);
    assert_eq!(files["a"], b"new");
}

#[test]
fn failed_save_is_answered_with_not_found() {
    let mut files = Files::new();
    let (written, outcome) = serve(b"POST /files// HTTP/1.1\r\n\r\nbody", &mut files);
    assert_eq!(written.unwrap(), b"HTTP/1.1 404 OK\r\n\r\n");
    assert_eq!(outcome, Outcome::Served);
    assert!(files.is_empty());
}

#[test]
fn unknown_path_is_answered_with_not_found() {
    for input in ["GET /nope HTTP/1.1\r\n\r\n", "POST /echo/a HTTP/1.1\r\n\r\n", "GET /files HTTP/1.1\r\n\r\n"]
    {
        let (written, outcome) = serve(input.as_bytes(), &mut Files::new());
        assert_eq!(written.unwrap(), b"HTTP/1.1 404 OK\r\n\r\n");
        assert_eq!(outcome, Outcome::Served);
    }
}

#[test]
fn user_agent_without_the_header_is_answered_with_not_found() {
    let (written, outcome) =
        serve(b"GET /user-agent HTTP/1.1\r\nuser-agent: lower\r\n\r\n", &mut Files::new());
    assert_eq!(written.unwrap(), b"HTTP/1.1 404 OK\r\n\r\n");
    assert_eq!(outcome, Outcome::Served);
}

#[test]
fn user_agent_takes_the_first_of_two_headers() {
    let (written, _) = serve(
        b"GET /user-agent HTTP/1.1\r\nUser-Agent: one\r\nUser-Agent: second\r\n\r\n",
        &mut Files::new(),
    );
    assert_eq!(
        written.unwrap(),
        b"HTTP/1.1 200 OK\r\nContent-Type: text/plain\r\nContent-Length: 3\r\n\r\none"
    );
}

#[test]
fn echo_counts_the_bytes_of_the_text() {
    let (written, _) = serve("GET /echo/gr\u{fc}\u{df}e HTTP/1.1\r\n\r\n".as_bytes(), &mut Files::new());
    assert_eq!(
        written.unwrap(),
        "HTTP/1.1 200 OK\r\nContent-Type: text/plain\r\nContent-Length: 7\r\n\r\ngr\u{fc}\u{df}e".as_bytes()
    );
}

#[test]
fn peer_that_closed_gets_nothing() {
    let (written, outcome) = serve(b"", &mut Files::new());
    assert_eq!(written, None);
    assert_eq!(outcome, Outcome::PeerClosed);
}

#[test]
fn request_that_does_not_parse_gets_nothing() {
    for (input, error) in [
        (&b"GET /\r\n\r\n"[..], ParseError::InvalidRequestLine),
        (&b"PUT / HTTP/1.1\r\n\r\n"[..], ParseError::UnknownMethod),
        (&b"GET / HTTP/1.1\r\nbroken\r\n\r\n"[..], ParseError::InvalidHeader),
        (&b"GET /echo/\xff HTTP/1.1\r\n\r\n"[..], ParseError::InvalidUtf8),
        (&b"\r\n"[..], ParseError::InvalidRequestLine),
    ] {
        let (written, outcome) = serve(input, &mut Files::new());
        assert_eq!(written, None);
        assert_eq!(outcome, Outcome::Rejected(error));
    }
}

#[test]
fn connection_ends_within_five_steps() {
    for input in [
        &b""[..],
        &b"broken"[..],
        &b"GET / HTTP/1.1\r\n\r\n"[..],
        &b"GET /files/a HTTP/1.1\r\n\r\n"[..],
        &b"POST /files/a HTTP/1.1\r\n\r\nbody"[..],
    ] {
        let mut stage = Stage::Reading;
        let mut event = Event::Read(input.to_vec());
        let mut steps = 0;
        while stage != Stage::Closed {
            let (next, action) = step(stage, event);
            steps += 1;
            stage = next;
            event = match action {
                Action::Proceed => Event::Proceed,
                Action::ReadFile(_) => Event::Failed,
                Action::WriteFile(_, _) => Event::FileSaved,
                Action::Write(_) => Event::Written,
                Action::Close(_) => Event::Failed,
            };
        }
        assert!(steps <= 5);
    }
}

#[test]
fn step_from_reading() {
    assert_eq!(
        step(Stage::Reading, Event::Read(b"x".to_vec())),
        (Stage::Parsing(b"x".to_vec()), Action::Proceed)
    );
    assert_eq!(
        step(Stage::Reading, Event::Read(vec![])),
        (Stage::Closed, Action::Close(Outcome::PeerClosed))
    );
    for event in [Event::Failed, Event::Proceed, Event::Written, Event::FileSaved, Event::FileContent(vec![1])]
    {
        assert_eq!(step(Stage::Reading, event), (Stage::Closed, Action::Close(Outcome::Failed)));
    }
}

#[test]
fn step_from_parsing() {
    let input = b"GET /index HTTP/1.1\r\nA: b\r\n\r\n".to_vec();
    assert_eq!(
        step(Stage::Parsing(input.clone()), Event::Proceed),
        (Stage::Routing(request("GET /index HTTP/1.1\r\nA: b\r\n\r\n")), Action::Proceed)
    );
    assert_eq!(
        step(Stage::Parsing(b"nothing".to_vec()), Event::Proceed),
        (Stage::Closed, Action::Close(Outcome::Rejected(ParseError::InvalidRequestLine)))
    );
    assert_eq!(
        step(Stage::Parsing(input), Event::Failed),
        (Stage::Closed, Action::Close(Outcome::Failed))
    );
}

#[test]
fn step_from_routing() {
    let r = request("GET /files/a.txt HTTP/1.1\r\n\r\n");
    assert_eq!(
        step(Stage::Routing(r.clone()), Event::Proceed),
        (
            Stage::Executing(r.clone(), Command::GetFile("a.txt".to_string())),
            Action::ReadFile("a.txt".to_string())
        )
    );
    let r = request("POST /files/a.txt HTTP/1.1\r\n\r\n\u{e9}t\u{e9}");
    assert_eq!(
        step(Stage::Routing(r.clone()), Event::Proceed),
        (
            Stage::Executing(r.clone(), Command::SaveFile("a.txt".to_string())),
            Action::WriteFile("a.txt".to_string(), "\u{e9}t\u{e9}".as_bytes().to_vec())
        )
    );
    let r = request("GET /echo/x HTTP/1.1\r\n\r\n");
    assert_eq!(
        step(Stage::Routing(r.clone()), Event::Proceed),
        (Stage::Executing(r.clone(), Command::Echo("x".to_string())), Action::Proceed)
    );
    assert_eq!(
        step(Stage::Routing(r), Event::Written),
        (Stage::Closed, Action::Close(Outcome::Failed))
    );
}

#[test]
fn step_from_executing_always_writes() {
    let r = request("GET /files/a HTTP/1.1\r\n\r\n");
    for event in [Event::Failed, Event::Proceed, Event::Written, Event::FileSaved, Event::Read(vec![1])] {
        assert_eq!(
            step(Stage::Executing(r.clone(), Command::GetFile("a".to_string())), event),
            (Stage::Responding, Action::Write(b"HTTP/1.1 404 OK\r\n\r\n".to_vec()))
        );
    }
    assert_eq!(
        step(Stage::Executing(r.clone(), Command::Index), Event::Failed),
        (Stage::Responding, Action::Write(b"HTTP/1.1 200 OK\r\n\r\n".to_vec()))
    );
}

#[test]
fn step_from_responding_and_closed() {
    assert_eq!(step(Stage::Responding, Event::Written), (Stage::Closed, Action::Close(Outcome::Served)));
    assert_eq!(step(Stage::Responding, Event::Failed), (Stage::Closed, Action::Close(Outcome::Failed)));
    assert_eq!(step(Stage::Responding, Event::Proceed), (Stage::Closed, Action::Close(Outcome::Failed)));
    for event in [Event::Proceed, Event::Written, Event::Failed, Event::Read(vec![1])] {
        assert_eq!(step(Stage::Closed, event), (Stage::Closed, Action::Close(Outcome::Failed)));
    }
}

#[test]
fn respond_to_each_command() {
    let r = request("GET / HTTP/1.1\r\nUser-Agent: agent\r\n\r\n");
    assert_eq!(respond(&r, &Command::Index, Event::Proceed), bare(StatusCode::OK));
    assert_eq!(respond(&r, &Command::Echo("hi".to_string()), Event::Proceed), plain(b"hi"));
    assert_eq!(respond(&r, &Command::Echo(String::new()), Event::Proceed), plain(b""));
    assert_eq!(respond(&r, &Command::UserAgent, Event::Proceed), plain(b"agent"));
    assert_eq!(respond(&r, &Command::Error, Event::Proceed), bare(StatusCode::NotFound));
    assert_eq!(
        respond(&r, &Command::SaveFile("f".to_string()), Event::FileSaved),
        bare(StatusCode::Created)
    );
    assert_eq!(
        respond(&r, &Command::SaveFile("f".to_string()), Event::Failed),
        bare(StatusCode::NotFound)
    );
    assert_eq!(
        respond(&r, &Command::GetFile("f".to_string()), Event::FileContent(vec![1, 2])),
        HttpResponse::new(
            StatusCode::OK,
            Some(ResponseBody {
                content_type: "application/octet-stream".to_string(),
                content: vec![1, 2]
            })
        )
    );
    assert_eq!(
        respond(&r, &Command::GetFile("f".to_string()), Event::Failed),
        bare(StatusCode::NotFound)
    );
}

#[test]
fn respond_to_error_is_not_found_whatever_happened() {
    let r = request("POST /x HTTP/1.1\r\n\r\nbody");
    for event in [
        Event::Proceed,
        Event::Failed,
        Event::FileSaved,
        Event::Written,
        Event::FileContent(vec![1]),
        Event::Read(vec![2]),
    ] {
        let response = respond(&r, &Command::Error, event);
        assert_eq!(response, bare(StatusCode::NotFound));
        assert_eq!(response.to_bytes(), b"HTTP/1.1 404 OK\r\n\r\n");
    }
}

#[test]
fn respond_to_user_agent_without_the_header() {
    let r = request("GET /user-agent HTTP/1.1\r\nHost: x\r\n\r\n");
    assert_eq!(respond(&r, &Command::UserAgent, Event::Proceed), bare(StatusCode::NotFound));
}
