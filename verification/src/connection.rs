//! One connection, from the bytes of its one read to the bytes of its one
//! response, as a machine of six stages.
//!
//! The machine does no reading and no writing. Each step takes the stage that
//! the connection is in and what happened outside, and gives the next stage and
//! what is to be done outside next. Whoever holds the socket and the files
//! does that, and comes back with what happened.

use crate::error::ParseError;
use crate::http::{in_table, path_handler, route, segments, Command, CommandView};
use crate::request::{header_value, request_in, HttpRequest, RequestView};
use crate::response::{
    response_bytes, BodyView, HttpResponse, ResponseBody, ResponseView, StatusCode,
};
use vstd::prelude::*;
use vstd::utf8::encode_utf8;

verus! {

/// How a connection ended.
#[derive(Debug, Clone, Copy, PartialEq, Eq, Structural)]
pub enum Outcome {
    /// The peer closed before it sent anything. Nothing was written.
    PeerClosed,
    /// The response was written.
    Served,
    /// The request did not parse. Nothing was written.
    Rejected(ParseError),
    /// Reading or writing the socket failed, or an event came that the stage
    /// does not wait for.
    Failed,
}

/// Where a connection stands.
#[derive(Debug, PartialEq, Eq)]
pub enum Stage {
    /// Waiting for the bytes of the one read.
    Reading,
    /// The bytes are here and are to be parsed.
    Parsing(Vec<u8>),
    /// The request is parsed and is to be routed.
    Routing(HttpRequest),
    /// The command is known; where it needs a file, the file is being read or
    /// written.
    Executing(HttpRequest, Command),
    /// The response is being written.
    Responding,
    /// Nothing more happens.
    Closed,
}

/// What happened outside since the last step.
#[derive(Debug, PartialEq, Eq)]
pub enum Event {
    /// Nothing had to be done.
    Proceed,
    /// The read gave these bytes; none, where the peer had closed.
    Read(Vec<u8>),
    /// The file was read and holds these bytes.
    FileContent(Vec<u8>),
    /// The file was written.
    FileSaved,
    /// The response was written.
    Written,
    /// What was to be done failed.
    Failed,
}

/// What is to be done outside before the next step.
#[derive(Debug, PartialEq, Eq)]
pub enum Action {
    /// Nothing: take the next step with `Event::Proceed`.
    Proceed,
    /// Read the file of this name under the storage root.
    ReadFile(String),
    /// Write these bytes to the file of this name under the storage root,
    /// creating or truncating it.
    WriteFile(String, Vec<u8>),
    /// Write these bytes to the socket.
    Write(Vec<u8>),
    /// Drop the connection.
    Close(Outcome),
}

/// What a `Stage` holds.
pub enum StageView {
    Reading,
    Parsing(Seq<u8>),
    Routing(RequestView),
    Executing(RequestView, CommandView),
    Responding,
    Closed,
}

/// What an `Event` holds.
pub enum EventView {
    Proceed,
    Read(Seq<u8>),
    FileContent(Seq<u8>),
    FileSaved,
    Written,
    Failed,
}

/// What an `Action` holds.
pub enum ActionView {
    Proceed,
    ReadFile(Seq<char>),
    WriteFile(Seq<char>, Seq<u8>),
    Write(Seq<u8>),
    Close(Outcome),
}

impl View for Stage {
    type V = StageView;

    open spec fn view(&self) -> StageView {
        match self {
            Stage::Reading => StageView::Reading,
            Stage::Parsing(buffer) => StageView::Parsing(buffer@),
            Stage::Routing(request) => StageView::Routing(request@),
            Stage::Executing(request, command) => StageView::Executing(request@, command@),
            Stage::Responding => StageView::Responding,
            Stage::Closed => StageView::Closed,
        }
    }
}

impl View for Event {
    type V = EventView;

    open spec fn view(&self) -> EventView {
        match self {
            Event::Proceed => EventView::Proceed,
            Event::Read(bytes) => EventView::Read(bytes@),
            Event::FileContent(bytes) => EventView::FileContent(bytes@),
            Event::FileSaved => EventView::FileSaved,
            Event::Written => EventView::Written,
            Event::Failed => EventView::Failed,
        }
    }
}

impl View for Action {
    type V = ActionView;

    open spec fn view(&self) -> ActionView {
        match self {
            Action::Proceed => ActionView::Proceed,
            Action::ReadFile(name) => ActionView::ReadFile(name@),
            Action::WriteFile(name, bytes) => ActionView::WriteFile(name@, bytes@),
            Action::Write(bytes) => ActionView::Write(bytes@),
            Action::Close(outcome) => ActionView::Close(*outcome),
        }
    }
}

/// A response of a status alone.
pub open spec fn bare(status: StatusCode) -> ResponseView {
    ResponseView { status, body: None }
}

/// A response of status 200 with a body.
pub open spec fn with_body(content_type: Seq<char>, content: Seq<u8>) -> ResponseView {
    ResponseView { status: StatusCode::OK, body: Some(BodyView { content_type, content }) }
}

/// The response to a request, given its command and what came of the file
/// that the command needed.
///
/// `UserAgent` on a request without a `User-Agent` header gets 404 and no
/// body. A file command gets its file's outcome from the event: anything but
/// the success that it waits for counts as a failure, and gets 404.
pub open spec fn response_to(request: RequestView, command: CommandView, event: EventView)
    -> ResponseView {
    match command {
        CommandView::Index => bare(StatusCode::OK),
        CommandView::Echo(value) => with_body("text/plain"@, encode_utf8(value)),
        CommandView::UserAgent => match header_value(request.headers, "User-Agent"@) {
            Some(value) => with_body("text/plain"@, encode_utf8(value)),
            None => bare(StatusCode::NotFound),
        },
        CommandView::GetFile(_) => match event {
            EventView::FileContent(content) => with_body("application/octet-stream"@, content),
            _ => bare(StatusCode::NotFound),
        },
        CommandView::SaveFile(_) => match event {
            EventView::FileSaved => bare(StatusCode::Created),
            _ => bare(StatusCode::NotFound),
        },
        CommandView::Error => bare(StatusCode::NotFound),
    }
}

/// What a command asks of the outside before it can be answered: a file read,
/// a file write of the request's body, or nothing.
pub open spec fn demand(request: RequestView, command: CommandView) -> ActionView {
    match command {
        CommandView::GetFile(name) => ActionView::ReadFile(name),
        CommandView::SaveFile(name) => ActionView::WriteFile(name, encode_utf8(request.body)),
        _ => ActionView::Proceed,
    }
}

/// The end of a connection: no stage follows, and the connection is dropped.
pub open spec fn closed(outcome: Outcome) -> (StageView, ActionView) {
    (StageView::Closed, ActionView::Close(outcome))
}

/// One step of the machine.
///
/// `Reading` waits for the read: no bytes end the connection in silence, any
/// bytes go on to `Parsing`. `Parsing` ends the connection without a response
/// where the bytes hold no request. `Routing` finds the command and asks for
/// the file that it needs. `Executing` takes what came of that and has the
/// response written, whatever came. `Responding` waits for the write. An event
/// that a stage does not wait for ends the connection.
pub open spec fn next(stage: StageView, event: EventView) -> (StageView, ActionView) {
    match stage {
        StageView::Reading => match event {
            EventView::Read(bytes) => if bytes.len() == 0 {
                closed(Outcome::PeerClosed)
            } else {
                (StageView::Parsing(bytes), ActionView::Proceed)
            },
            _ => closed(Outcome::Failed),
        },
        StageView::Parsing(bytes) => match event {
            EventView::Proceed => match request_in(bytes) {
                Ok(request) => (StageView::Routing(request), ActionView::Proceed),
                Err(e) => closed(Outcome::Rejected(e)),
            },
            _ => closed(Outcome::Failed),
        },
        StageView::Routing(request) => match event {
            EventView::Proceed => {
                let command = route(request.header_line.method, request.header_line.path);
                (StageView::Executing(request, command), demand(request, command))
            },
            _ => closed(Outcome::Failed),
        },
        StageView::Executing(request, command) => (
            StageView::Responding,
            ActionView::Write(response_bytes(response_to(request, command, event))),
        ),
        StageView::Responding => match event {
            EventView::Written => closed(Outcome::Served),
            _ => closed(Outcome::Failed),
        },
        StageView::Closed => closed(Outcome::Failed),
    }
}

/// The response to a request, given its command and what came of the file
/// that the command needed.
pub fn respond(request: &HttpRequest, command: &Command, event: Event) -> (response: HttpResponse)
    ensures
        response@ == response_to(request@, command@, event@),
{
    match command {
        Command::Index => HttpResponse::new(StatusCode::OK, None),
        Command::Echo(value) => HttpResponse::new(
            StatusCode::OK,
            Some(ResponseBody::from_bytes(value.as_str().as_bytes_vec())),
        ),
        Command::UserAgent => match request.get_header("User-Agent") {
            Some(value) => HttpResponse::new(
                StatusCode::OK,
                Some(ResponseBody::from_bytes(value.as_str().as_bytes_vec())),
            ),
            None => HttpResponse::new(StatusCode::NotFound, None),
        },
        Command::GetFile(_) => match event {
            Event::FileContent(content) => HttpResponse::new(
                StatusCode::OK,
                Some(
                    ResponseBody::from_bytes(content).with_content_type("application/octet-stream"),
                ),
            ),
            _ => HttpResponse::new(StatusCode::NotFound, None),
        },
        Command::SaveFile(_) => match event {
            Event::FileSaved => HttpResponse::new(StatusCode::Created, None),
            _ => HttpResponse::new(StatusCode::NotFound, None),
        },
        Command::Error => HttpResponse::new(StatusCode::NotFound, None),
    }
}

/// One step of the machine: the stage that follows `stage` on `event`, and
/// what is to be done outside before the step after it.
pub fn step(stage: Stage, event: Event) -> (r: (Stage, Action))
    ensures
        (r.0@, r.1@) == next(stage@, event@),
{
    match stage {
        Stage::Reading => match event {
            Event::Read(bytes) => if bytes.len() == 0 {
                (Stage::Closed, Action::Close(Outcome::PeerClosed))
            } else {
                (Stage::Parsing(bytes), Action::Proceed)
            },
            _ => (Stage::Closed, Action::Close(Outcome::Failed)),
        },
        Stage::Parsing(bytes) => match event {
            Event::Proceed => match HttpRequest::from_bytes(bytes.as_slice()) {
                Ok(request) => (Stage::Routing(request), Action::Proceed),
                Err(e) => (Stage::Closed, Action::Close(Outcome::Rejected(e))),
            },
            _ => (Stage::Closed, Action::Close(Outcome::Failed)),
        },
        Stage::Routing(request) => match event {
            Event::Proceed => {
                let command = path_handler(
                    &request.header_line.method,
                    request.header_line.path.as_str(),
                );
                let action = match &command {
                    Command::GetFile(name) => Action::ReadFile(name.clone()),
                    Command::SaveFile(name) => Action::WriteFile(
                        name.clone(),
                        request.body.as_str().as_bytes_vec(),
                    ),
                    _ => Action::Proceed,
                };
                (Stage::Executing(request, command), action)
            },
            _ => (Stage::Closed, Action::Close(Outcome::Failed)),
        },
        Stage::Executing(request, command) => {
            let response = respond(&request, &command, event);
            (Stage::Responding, Action::Write(response.to_bytes()))
        },
        Stage::Responding => match event {
            Event::Written => (Stage::Closed, Action::Close(Outcome::Served)),
            _ => (Stage::Closed, Action::Close(Outcome::Failed)),
        },
        Stage::Closed => (Stage::Closed, Action::Close(Outcome::Failed)),
    }
}

/// `Error` is answered with status 404 and no body, whatever the request and
/// whatever happened outside. On the wire that is `HTTP/1.1 404 OK`, its line
/// end, and an empty line.
pub proof fn lemma_error_is_not_found(request: RequestView, event: EventView)
    ensures
        response_to(request, CommandView::Error, event) == bare(StatusCode::NotFound),
        response_bytes(bare(StatusCode::NotFound)) == encode_utf8("HTTP/1.1 404 OK\r\n\r\n"@),
{
    reveal_strlit("HTTP/1.1 ");
    reveal_strlit("404");
    reveal_strlit(" OK\r\n");
    reveal_strlit("\r\n");
    reveal_strlit("HTTP/1.1 404 OK\r\n\r\n");
    assert("HTTP/1.1 "@ + "404"@ + " OK\r\n"@ + "\r\n"@ == "HTTP/1.1 404 OK\r\n\r\n"@);
}

/// A request whose method and path no row of the routing table takes is
/// routed to `Error` without asking anything of the outside, and then answered
/// with status 404 and no body, whatever event comes.
pub proof fn lemma_unrouted_is_not_found(request: RequestView, event: EventView)
    requires
        !in_table(request.header_line.method, segments(request.header_line.path)),
    ensures
        next(StageView::Routing(request), EventView::Proceed) == (
            StageView::Executing(request, CommandView::Error),
            ActionView::Proceed,
        ),
        next(StageView::Executing(request, CommandView::Error), event) == (
            StageView::Responding,
            ActionView::Write(encode_utf8("HTTP/1.1 404 OK\r\n\r\n"@)),
        ),
{
    lemma_error_is_not_found(request, event);
}

/// Bytes that hold no request get no response: the connection is closed at
/// once, with the reason.
pub proof fn lemma_rejected_is_silent(buffer: Seq<u8>)
    requires
        request_in(buffer) is Err,
    ensures
        next(StageView::Parsing(buffer), EventView::Proceed) == closed(
            Outcome::Rejected(request_in(buffer)->Err_0),
        ),
{
}

/// The place of a stage in the order in which a connection goes through them.
pub open spec fn position(stage: StageView) -> nat {
    match stage {
        StageView::Reading => 0,
        StageView::Parsing(_) => 1,
        StageView::Routing(_) => 2,
        StageView::Executing(_, _) => 3,
        StageView::Responding => 4,
        StageView::Closed => 5,
    }
}

/// Every step moves a connection forward, and `Closed` is where it stays: no
/// stage is entered twice, and five steps end any connection.
pub proof fn lemma_steps_move_forward(stage: StageView, event: EventView)
    ensures
        stage is Closed ==> next(stage, event).0 is Closed,
        !(stage is Closed) ==> position(next(stage, event).0) > position(stage),
{
}

/// A failure outside closes the connection at once, with nothing written,
/// from every stage but `Executing`, where a file that could not be read or
/// written is answered with status 404.
pub proof fn lemma_failure_closes(stage: StageView)
    ensures
        !(stage is Executing) ==> next(stage, EventView::Failed) == closed(Outcome::Failed),
        stage is Executing && (stage->Executing_1 is GetFile || stage->Executing_1 is SaveFile)
            ==> next(stage, EventView::Failed) == (
            StageView::Responding,
            ActionView::Write(response_bytes(bare(StatusCode::NotFound))),
        ),
{
}

/// Bytes are written to the socket in one stage only, `Executing`, and that
/// stage is left for `Responding`: a connection gets one response at most.
pub proof fn lemma_one_response(stage: StageView, event: EventView)
    ensures
        next(stage, event).1 is Write <==> stage is Executing,
        stage is Executing ==> next(stage, event).0 is Responding,
{
}

} // verus!
