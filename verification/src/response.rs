//! Responses: the status, the optional body, and the bytes that go on the wire.

use crate::error::ParseError;
use crate::request::{
    header_count, header_of, header_value, headers_of, lemma_lines_concat, lines_of, HeaderView,
};
use crate::text::{
    find, lemma_find_is, lemma_first_occurrence_exists, occurs_at, spells, to_chars,
};
use vstd::prelude::*;
use vstd::std_specs::convert::TryFromSpecImpl;
use vstd::utf8::{decode_utf8, encode_utf8, encode_utf8_decode_utf8};

verus! {

/// The status of a response.
#[derive(Debug, Clone, Copy, PartialEq, Eq, Structural)]
pub enum StatusCode {
    OK,
    Created,
    NotFound,
}

/// The body of a response: its bytes, and the content type they are sent under.
#[derive(Debug, PartialEq, Eq)]
pub struct ResponseBody {
    pub content_type: String,
    pub content: Vec<u8>,
}

/// A response: a status and, where there is one, a body.
#[derive(Debug, PartialEq, Eq)]
pub struct HttpResponse {
    pub status: StatusCode,
    pub body: Option<ResponseBody>,
}

/// What a `ResponseBody` holds.
pub struct BodyView {
    pub content_type: Seq<char>,
    pub content: Seq<u8>,
}

/// What an `HttpResponse` holds.
pub struct ResponseView {
    pub status: StatusCode,
    pub body: Option<BodyView>,
}

impl View for ResponseBody {
    type V = BodyView;

    open spec fn view(&self) -> BodyView {
        BodyView { content_type: self.content_type@, content: self.content@ }
    }
}

impl View for HttpResponse {
    type V = ResponseView;

    open spec fn view(&self) -> ResponseView {
        ResponseView {
            status: self.status,
            body: match self.body {
                Some(body) => Some(body@),
                None => None,
            },
        }
    }
}

/// The three digits of a status.
pub open spec fn status_digits(status: StatusCode) -> Seq<char> {
    match status {
        StatusCode::OK => "200"@,
        StatusCode::Created => "201"@,
        StatusCode::NotFound => "404"@,
    }
}

/// The status that three digits name.
pub open spec fn status_of(digits: Seq<char>) -> Result<StatusCode, ParseError> {
    if digits == "200"@ {
        Ok(StatusCode::OK)
    } else if digits == "201"@ {
        Ok(StatusCode::Created)
    } else if digits == "404"@ {
        Ok(StatusCode::NotFound)
    } else {
        Err(ParseError::InvalidStatusCode)
    }
}

/// The character of a digit below ten.
pub open spec fn digit(d: nat) -> char {
    if d == 0 {
        '0'
    } else if d == 1 {
        '1'
    } else if d == 2 {
        '2'
    } else if d == 3 {
        '3'
    } else if d == 4 {
        '4'
    } else if d == 5 {
        '5'
    } else if d == 6 {
        '6'
    } else if d == 7 {
        '7'
    } else if d == 8 {
        '8'
    } else {
        '9'
    }
}

/// A number in decimal digits, without leading zeros.
pub open spec fn decimal(n: nat) -> Seq<char>
    decreases n,
{
    if n < 10 {
        seq![digit(n)]
    } else {
        decimal(n / 10).push(digit(n % 10))
    }
}

/// The status line, with its line end. The reason phrase is `OK` whatever the
/// status.
pub open spec fn status_line(status: StatusCode) -> Seq<char> {
    "HTTP/1.1 "@ + status_digits(status) + " OK\r\n"@
}

/// The `Content-Length` line of a body of `n` bytes, without its line end.
pub open spec fn content_length_line(n: nat) -> Seq<char> {
    "Content-Length: "@ + decimal(n)
}

/// The two header lines of a body and the empty line that ends them.
pub open spec fn body_head(body: BodyView) -> Seq<char> {
    "Content-Type: "@ + body.content_type + "\r\n"@ + content_length_line(body.content.len())
        + "\r\n\r\n"@
}

/// A body on the wire: its header lines in UTF-8, the empty line, and its
/// content byte for byte.
pub open spec fn body_bytes(body: BodyView) -> Seq<u8> {
    encode_utf8(body_head(body)) + body.content
}

/// All that stands before the content of a response: the status line, the
/// header lines of the body where there is one, and the empty line.
pub open spec fn response_head(response: ResponseView) -> Seq<char> {
    match response.body {
        Some(body) => status_line(response.status) + body_head(body),
        None => status_line(response.status) + "\r\n"@,
    }
}

/// A response on the wire.
pub open spec fn response_bytes(response: ResponseView) -> Seq<u8> {
    match response.body {
        Some(body) => encode_utf8(response_head(response)) + body.content,
        None => encode_utf8(response_head(response)),
    }
}

/// The character of a digit below ten.
fn digit_char(d: usize) -> (c: char)
    requires
        d < 10,
    ensures
        c == digit(d as nat),
{
    if d == 0 {
        '0'
    } else if d == 1 {
        '1'
    } else if d == 2 {
        '2'
    } else if d == 3 {
        '3'
    } else if d == 4 {
        '4'
    } else if d == 5 {
        '5'
    } else if d == 6 {
        '6'
    } else if d == 7 {
        '7'
    } else if d == 8 {
        '8'
    } else {
        '9'
    }
}

/// Appends the decimal digits of `n` to `out`.
fn push_decimal(out: &mut String, n: usize)
    ensures
        final(out)@ == old(out)@ + decimal(n as nat),
    decreases n,
{
    if n >= 10 {
        push_decimal(out, n / 10);
    }
    out.push(digit_char(n % 10));
}

impl Default for StatusCode {
    /// Status 200.
    fn default() -> (status: Self)
        ensures
            status == StatusCode::OK,
    {
        StatusCode::OK
    }
}

impl Default for ResponseBody {
    /// An empty body of plain text.
    fn default() -> (body: Self)
        ensures
            body@ == (BodyView { content_type: "text/plain"@, content: Seq::empty() }),
    {
        ResponseBody::from_bytes(Vec::new())
    }
}

impl Default for HttpResponse {
    /// Status 200 without a body.
    fn default() -> (response: Self)
        ensures
            response@ == (ResponseView { status: StatusCode::OK, body: None }),
    {
        HttpResponse { status: StatusCode::OK, body: None }
    }
}

impl StatusCode {
    /// The three digits of the status.
    pub fn to_string(&self) -> (digits: String)
        ensures
            digits@ == status_digits(*self),
    {
        match self {
            StatusCode::OK => String::from_str("200"),
            StatusCode::Created => String::from_str("201"),
            StatusCode::NotFound => String::from_str("404"),
        }
    }
}

impl<'a> TryFrom<&'a str> for StatusCode {
    type Error = ParseError;

    /// The status that `value` names.
    fn try_from(value: &'a str) -> (r: Result<Self, Self::Error>)
        ensures
            r == status_of(value@),
    {
        let digits = to_chars(value);
        if spells(digits.as_slice(), "200") {
            Ok(StatusCode::OK)
        } else if spells(digits.as_slice(), "201") {
            Ok(StatusCode::Created)
        } else if spells(digits.as_slice(), "404") {
            Ok(StatusCode::NotFound)
        } else {
            Err(ParseError::InvalidStatusCode)
        }
    }
}

impl<'a> TryFromSpecImpl<&'a str> for StatusCode {
    open spec fn obeys_try_from_spec() -> bool {
        true
    }

    open spec fn try_from_spec(value: &'a str) -> Result<Self, Self::Error> {
        status_of(value@)
    }
}

impl ResponseBody {
    /// A body of the bytes given, as plain text.
    pub fn from_bytes(content: Vec<u8>) -> (body: ResponseBody)
        ensures
            body.content_type@ == "text/plain"@,
            body.content == content,
    {
        ResponseBody { content_type: String::from_str("text/plain"), content }
    }

    /// The same body under another content type.
    pub fn with_content_type(self, content_type: &str) -> (body: ResponseBody)
        ensures
            body.content_type@ == content_type@,
            body.content == self.content,
    {
        let mut body = self;
        body.content_type = String::from_str(content_type);
        body
    }

    /// The header lines of the body and the empty line that ends them.
    pub fn head(&self) -> (head: String)
        ensures
            head@ == body_head(self@),
    {
        let mut head = String::from_str("Content-Type: ");
        head.append(self.content_type.as_str());
        head.append("\r\n");
        head.append("Content-Length: ");
        push_decimal(&mut head, self.content.len());
        head.append("\r\n\r\n");
        head
    }

    /// The body as it goes on the wire.
    pub fn to_bytes(&self) -> (bytes: Vec<u8>)
        ensures
            bytes@ == body_bytes(self@),
    {
        let head = self.head();
        let mut bytes: Vec<u8> = Vec::new();
        bytes.extend_from_slice(head.as_str().as_bytes());
        bytes.extend_from_slice(self.content.as_slice());
        bytes
    }
}

impl<'a> TryFrom<&'a str> for ResponseBody {
    type Error = ParseError;

    /// A plain-text body that holds `value` in UTF-8. This never fails.
    fn try_from(value: &'a str) -> (r: Result<Self, Self::Error>)
        ensures
            r is Ok,
            r->Ok_0@ == (BodyView { content_type: "text/plain"@, content: encode_utf8(value@) }),
    {
        Ok(ResponseBody::from_bytes(value.as_bytes_vec()))
    }
}

/// In ghost code the result of `try_from` is some body of plain text with the
/// UTF-8 of `value` for content. Two strings with one view are not known to be
/// one value, so `try_from` does not promise this very value: what it returns
/// is stated in its own `ensures`, over views.
impl<'a> TryFromSpecImpl<&'a str> for ResponseBody {
    open spec fn obeys_try_from_spec() -> bool {
        false
    }

    open spec fn try_from_spec(value: &'a str) -> Result<Self, Self::Error> {
        Ok(
            choose|r: ResponseBody|
                #[trigger] r.view() == (BodyView {
                    content_type: "text/plain"@,
                    content: encode_utf8(value@),
                }),
        )
    }
}

impl HttpResponse {
    /// A response of the status and the body given.
    pub fn new(status: StatusCode, body: Option<ResponseBody>) -> (response: HttpResponse)
        ensures
            response.status == status,
            response.body == body,
    {
        HttpResponse { status, body }
    }

    /// The response as it goes on the wire: the status line; with a body, its
    /// content type and the number of its bytes; an empty line; the content.
    pub fn to_bytes(&self) -> (bytes: Vec<u8>)
        ensures
            bytes@ == response_bytes(self@),
    {
        let mut head = String::from_str("HTTP/1.1 ");
        head.append(self.status.to_string().as_str());
        head.append(" OK\r\n");
        let mut bytes: Vec<u8> = Vec::new();
        match &self.body {
            Some(body) => {
                head.append(body.head().as_str());
                bytes.extend_from_slice(head.as_str().as_bytes());
                bytes.extend_from_slice(body.content.as_slice());
            },
            None => {
                head.append("\r\n");
                bytes.extend_from_slice(head.as_str().as_bytes());
            },
        }
        bytes
    }
}

/// The UTF-8 of two texts, one after the other, is the UTF-8 of the first and
/// then that of the second.
proof fn lemma_encode_concat(a: Seq<char>, b: Seq<char>)
    ensures
        encode_utf8(a + b) == encode_utf8(a) + encode_utf8(b),
    decreases a.len(),
{
    if a.len() == 0 {
    } else {
        assert((a + b).drop_first() == a.drop_first() + b);
        lemma_encode_concat(a.drop_first(), b);
    }
}

/// A response with a body is, on the wire, its status line and then its body
/// as the body goes on the wire by itself.
pub proof fn lemma_response_is_status_line_and_body(response: ResponseView)
    requires
        response.body is Some,
    ensures
        response_bytes(response) == encode_utf8(status_line(response.status)) + body_bytes(
            response.body->0,
        ),
{
    lemma_encode_concat(status_line(response.status), body_head(response.body->0));
}

/// The digit that a character shows, where it shows one.
pub open spec fn digit_value(c: char) -> Option<nat> {
    if c == '0' {
        Some(0)
    } else if c == '1' {
        Some(1)
    } else if c == '2' {
        Some(2)
    } else if c == '3' {
        Some(3)
    } else if c == '4' {
        Some(4)
    } else if c == '5' {
        Some(5)
    } else if c == '6' {
        Some(6)
    } else if c == '7' {
        Some(7)
    } else if c == '8' {
        Some(8)
    } else if c == '9' {
        Some(9)
    } else {
        None
    }
}

/// The number that decimal digits show. Text that is empty or holds anything
/// but digits shows none.
pub open spec fn number_of(digits: Seq<char>) -> Option<nat>
    decreases digits.len(),
{
    if digits.len() == 0 {
        None
    } else {
        match digit_value(digits.last()) {
            None => None,
            Some(d) => if digits.len() == 1 {
                Some(d)
            } else {
                match number_of(digits.drop_last()) {
                    Some(n) => Some(10 * n + d),
                    None => None,
                }
            },
        }
    }
}

/// The headers that stand in the head of a message: its lines after the
/// first, up to the first empty one, read as a request's headers are.
pub open spec fn headers_in(head: Seq<char>) -> Result<Seq<HeaderView>, ParseError> {
    headers_of(lines_of(head).skip(1))
}

/// The first line of a response, without its line end.
spec fn first_line(status: StatusCode) -> Seq<char> {
    "HTTP/1.1 "@ + status_digits(status) + " OK"@
}

/// The `Content-Type` line of a body, without its line end.
spec fn content_type_line(body: BodyView) -> Seq<char> {
    "Content-Type: "@ + body.content_type
}

/// Decimal digits are digits, and there is at least one.
pub proof fn lemma_decimal_digits(n: nat)
    ensures
        decimal(n).len() >= 1,
        forall|i: int| 0 <= i < decimal(n).len() ==> digit_value(#[trigger] decimal(n)[i]) is Some,
    decreases n,
{
    if n >= 10 {
        lemma_decimal_digits(n / 10);
    }
}

/// Reading the decimal digits of a number gives the number back.
pub proof fn lemma_decimal_round_trip(n: nat)
    ensures
        number_of(decimal(n)) == Some(n),
    decreases n,
{
    if n >= 10 {
        lemma_decimal_round_trip(n / 10);
        assert(decimal(n).drop_last() == decimal(n / 10));
    }
}

/// Text without a carriage return holds no line end.
proof fn lemma_no_line_end(s: Seq<char>)
    requires
        forall|i: int| 0 <= i < s.len() ==> s[i] != '\r',
    ensures
        find(s, "\r\n"@) is None,
{
    reveal_strlit("\r\n");
    assert forall|j: int| 0 <= j && j + "\r\n"@.len() <= s.len() implies !occurs_at(
        s,
        "\r\n"@,
        j,
    ) by {
        if occurs_at(s, "\r\n"@, j) {
            assert(s.subrange(j, j + 2)[0] == s[j]);
        }
    }
}

/// Text without a carriage return, put before text without a line end, makes
/// text without a line end.
proof fn lemma_no_line_end_after(label: Seq<char>, s: Seq<char>)
    requires
        forall|i: int| 0 <= i < label.len() ==> label[i] != '\r',
        find(s, "\r\n"@) is None,
    ensures
        find(label + s, "\r\n"@) is None,
{
    reveal_strlit("\r\n");
    let all = label + s;
    assert forall|j: int| 0 <= j && j + "\r\n"@.len() <= all.len() implies !occurs_at(
        all,
        "\r\n"@,
        j,
    ) by {
        if occurs_at(all, "\r\n"@, j) {
            assert(all.subrange(j, j + 2)[0] == all[j]);
            assert(j >= label.len());
            assert(s.subrange(j - label.len(), j - label.len() + 2) == all.subrange(j, j + 2));
            lemma_first_occurrence_exists(s, "\r\n"@, j - label.len());
        }
    }
}

/// A label without a colon, then `": "` and a value, is the header of that
/// label and that value.
proof fn lemma_labelled_header(label: Seq<char>, value: Seq<char>)
    requires
        forall|i: int| 0 <= i < label.len() ==> label[i] != ':',
    ensures
        header_of(label + ": "@ + value) == Ok::<HeaderView, ParseError>(
            HeaderView { name: label, value },
        ),
{
    reveal_strlit(": ");
    let line = label + ": "@ + value;
    let n = label.len() as int;
    assert(line.subrange(n, n + 2) == ": "@);
    assert forall|j: int| 0 <= j < n implies !occurs_at(line, ": "@, j) by {
        if occurs_at(line, ": "@, j) {
            assert(line.subrange(j, j + 2)[0] == line[j]);
        }
    }
    lemma_find_is(line, ": "@, n);
    assert(line.take(n) == label);
    assert(line.skip(n + 2) == value);
}

/// The head of a response with a body is made of five lines: the first line,
/// the two header lines, and two empty ones.
proof fn lemma_head_lines(response: ResponseView)
    requires
        response.body is Some,
        find(response.body->0.content_type, "\r\n"@) is None,
    ensures
        lines_of(response_head(response)) == seq![
            first_line(response.status),
            content_type_line(response.body->0),
            content_length_line(response.body->0.content.len()),
            Seq::<char>::empty(),
            Seq::<char>::empty(),
        ],
{
    let body = response.body->0;
    let crlf = "\r\n"@;
    let none = Seq::<char>::empty();
    let l0 = first_line(response.status);
    let l1 = content_type_line(body);
    let l2 = content_length_line(body.content.len());
    reveal_strlit("\r\n");
    reveal_strlit("HTTP/1.1 ");
    reveal_strlit("200");
    reveal_strlit("201");
    reveal_strlit("404");
    reveal_strlit(" OK");
    reveal_strlit(" OK\r\n");
    reveal_strlit("Content-Type: ");
    reveal_strlit("Content-Length: ");
    reveal_strlit("\r\n\r\n");
    lemma_decimal_digits(body.content.len());
    let t3 = none + crlf + none;
    let t2 = l2 + crlf + t3;
    let t1 = l1 + crlf + t2;
    assert(response_head(response) == l0 + crlf + t1);
    lemma_no_line_end(l0);
    lemma_no_line_end(decimal(body.content.len()));
    lemma_no_line_end_after("Content-Length: "@, decimal(body.content.len()));
    lemma_no_line_end_after("Content-Type: "@, body.content_type);
    lemma_lines_concat(l0, t1);
    lemma_lines_concat(l1, t2);
    lemma_lines_concat(l2, t3);
    lemma_lines_concat(none, none);
}

/// Two lines that hold headers, followed by an empty line, hold those two
/// headers.
proof fn lemma_two_headers(lines: Seq<Seq<char>>, first: HeaderView, second: HeaderView)
    requires
        lines.len() >= 3,
        lines[0].len() > 0,
        lines[1].len() > 0,
        lines[2].len() == 0,
        header_of(lines[0]) == Ok::<HeaderView, ParseError>(first),
        header_of(lines[1]) == Ok::<HeaderView, ParseError>(second),
    ensures
        headers_of(lines) == Ok::<Seq<HeaderView>, ParseError>(seq![first, second]),
{
    assert(header_count(lines.drop_first().drop_first()) == 0);
    assert(header_count(lines.drop_first()) == 1);
    assert(headers_of(lines)->Ok_0 == seq![first, second]);
}

/// The `Content-Type` line of a body holds the header of that name, with the
/// content type for its value.
proof fn lemma_content_type_header(body: BodyView)
    ensures
        content_type_line(body).len() > 0,
        header_of(content_type_line(body)) == Ok::<HeaderView, ParseError>(
            HeaderView { name: "Content-Type"@, value: body.content_type },
        ),
{
    reveal_strlit("Content-Type: ");
    reveal_strlit("Content-Type");
    reveal_strlit(": ");
    lemma_labelled_header("Content-Type"@, body.content_type);
    assert(content_type_line(body) == "Content-Type"@ + ": "@ + body.content_type);
}

/// The length that a body announces is the length of its content: the
/// `Content-Length` line that a body of `n` bytes is sent with is a header of
/// that name, and its value, read as a decimal number, is `n`. This holds of
/// every content and every content type.
pub proof fn lemma_content_length_line(n: nat)
    ensures
        content_length_line(n).len() > 0,
        header_of(content_length_line(n)) == Ok::<HeaderView, ParseError>(
            HeaderView { name: "Content-Length"@, value: decimal(n) },
        ),
        number_of(decimal(n)) == Some(n),
{
    reveal_strlit("Content-Length: ");
    reveal_strlit("Content-Length");
    reveal_strlit(": ");
    lemma_labelled_header("Content-Length"@, decimal(n));
    assert(content_length_line(n) == "Content-Length"@ + ": "@ + decimal(n));
    lemma_decimal_round_trip(n);
}

/// Among the two headers of a body, `Content-Length` names the second.
proof fn lemma_content_length_value(content_type: Seq<char>, digits: Seq<char>)
    ensures
        header_value(
            seq![
                HeaderView { name: "Content-Type"@, value: content_type },
                HeaderView { name: "Content-Length"@, value: digits },
            ],
            "Content-Length"@,
        ) == Some(digits),
{
    let first = HeaderView { name: "Content-Type"@, value: content_type };
    let second = HeaderView { name: "Content-Length"@, value: digits };
    let headers = seq![first, second];
    reveal_strlit("Content-Type");
    reveal_strlit("Content-Length");
    assert("Content-Type"@.len() != "Content-Length"@.len());
    assert(header_value(headers.drop_first(), "Content-Length"@) == Some(digits));
}

/// The length that a response announces can be read back. A response with a
/// body is, on the wire, its head in UTF-8 and then the content; the head can
/// be read back from its bytes; and the `Content-Length` header that is found
/// in the head, read as a decimal number, is the number of bytes of the
/// content, whatever those bytes are. This is stated of content types that
/// hold no line end: one that does breaks the head into other lines, among
/// which the header may not be found.
pub proof fn lemma_content_length_round_trip(response: ResponseView)
    requires
        response.body is Some,
        find(response.body->0.content_type, "\r\n"@) is None,
    ensures
        response_bytes(response) == encode_utf8(response_head(response))
            + response.body->0.content,
        decode_utf8(encode_utf8(response_head(response))) == response_head(response),
        headers_in(response_head(response)) matches Ok(headers) && header_value(
            headers,
            "Content-Length"@,
        ) matches Some(digits) && number_of(digits) == Some(response.body->0.content.len()),
{
    let body = response.body->0;
    let digits = decimal(body.content.len());
    let rest = lines_of(response_head(response)).skip(1);
    let first = HeaderView { name: "Content-Type"@, value: body.content_type };
    let second = HeaderView { name: "Content-Length"@, value: digits };
    lemma_head_lines(response);
    lemma_content_type_header(body);
    lemma_content_length_line(body.content.len());
    lemma_two_headers(rest, first, second);
    lemma_content_length_value(body.content_type, digits);
    encode_utf8_decode_utf8(response_head(response));
}

} // verus!
