//! Requests: the request line, the headers and the body, and how a buffer of
//! text is parsed into them.

use crate::error::{yields, ParseError};
use crate::text::{
    find, find_first, is_word, lemma_find_is, lemma_first_occurrence_exists,
    lemma_split_at_first, lemma_words_are_words, occurs_at, push_chars, spells, split, split_on,
    split_words, to_chars, to_text, views, words,
};
use vstd::prelude::*;
use vstd::slice::slice_subrange;
use vstd::std_specs::convert::TryFromSpecImpl;
use vstd::utf8::{decode_utf8, encode_utf8_decode_utf8, valid_utf8};

verus! {

/// The method of a request.
#[derive(Debug, Clone, Copy, PartialEq, Eq, Structural)]
pub enum RequestMethod {
    GET,
    POST,
}

/// The first line of a request.
#[derive(Debug, PartialEq, Eq)]
pub struct RequestHeaderLine {
    pub method: RequestMethod,
    pub path: String,
    pub version: String,
}

/// One header of a request.
#[derive(Debug, PartialEq, Eq)]
pub struct HttpHeader {
    pub name: String,
    pub value: String,
}

/// A request: its first line, its headers in the order of arrival, and its body.
#[derive(Debug, PartialEq, Eq)]
pub struct HttpRequest {
    pub header_line: RequestHeaderLine,
    pub headers: Vec<HttpHeader>,
    pub body: String,
}

/// What a `RequestHeaderLine` holds.
pub struct RequestLineView {
    pub method: RequestMethod,
    pub path: Seq<char>,
    pub version: Seq<char>,
}

/// What an `HttpHeader` holds.
pub struct HeaderView {
    pub name: Seq<char>,
    pub value: Seq<char>,
}

/// What an `HttpRequest` holds.
pub struct RequestView {
    pub header_line: RequestLineView,
    pub headers: Seq<HeaderView>,
    pub body: Seq<char>,
}

impl View for RequestHeaderLine {
    type V = RequestLineView;

    open spec fn view(&self) -> RequestLineView {
        RequestLineView { method: self.method, path: self.path@, version: self.version@ }
    }
}

impl View for HttpHeader {
    type V = HeaderView;

    open spec fn view(&self) -> HeaderView {
        HeaderView { name: self.name@, value: self.value@ }
    }
}

impl View for HttpRequest {
    type V = RequestView;

    open spec fn view(&self) -> RequestView {
        RequestView {
            header_line: self.header_line@,
            headers: header_views(self.headers@),
            body: self.body@,
        }
    }
}

/// What each header of `headers` holds, in order.
pub open spec fn header_views(headers: Seq<HttpHeader>) -> Seq<HeaderView> {
    headers.map_values(|h: HttpHeader| h@)
}

/// The method that a token names: `GET` or `POST`, in capitals.
pub open spec fn method_of(token: Seq<char>) -> Result<RequestMethod, ParseError> {
    if token == "GET"@ {
        Ok(RequestMethod::GET)
    } else if token == "POST"@ {
        Ok(RequestMethod::POST)
    } else {
        Err(ParseError::UnknownMethod)
    }
}

/// The request line that a line of text holds: its first three words are the
/// method, the path and the version; further words are passed over. A line of
/// fewer than three words is rejected before its method is looked at.
pub open spec fn request_line_of(line: Seq<char>) -> Result<RequestLineView, ParseError> {
    let tokens = words(line);
    if tokens.len() < 3 {
        Err(ParseError::InvalidRequestLine)
    } else {
        match method_of(tokens[0]) {
            Ok(method) => Ok(RequestLineView { method, path: tokens[1], version: tokens[2] }),
            Err(e) => Err(e),
        }
    }
}

/// The header that a line of text holds: the name is what stands before the
/// first `": "`, the value all that follows it.
pub open spec fn header_of(line: Seq<char>) -> Result<HeaderView, ParseError> {
    match find(line, ": "@) {
        Some(i) => Ok(HeaderView { name: line.take(i), value: line.skip(i + 2) }),
        None => Err(ParseError::InvalidHeader),
    }
}

/// The number of lines before the first empty one; all of them where none is
/// empty.
pub open spec fn header_count(lines: Seq<Seq<char>>) -> nat
    decreases lines.len(),
{
    if lines.len() == 0 || lines[0].len() == 0 {
        0
    } else {
        1 + header_count(lines.drop_first())
    }
}

/// The body that follows the header lines: the lines after the first empty
/// one, put together with nothing between them.
pub open spec fn body_of(lines: Seq<Seq<char>>) -> Seq<char> {
    let n = header_count(lines);
    if n < lines.len() {
        lines.skip(n as int + 1).flatten()
    } else {
        Seq::empty()
    }
}

/// The headers that the lines before the first empty one hold, in order. One
/// line among them that holds no header spoils them all.
pub open spec fn headers_of(lines: Seq<Seq<char>>) -> Result<Seq<HeaderView>, ParseError> {
    let n = header_count(lines);
    if forall|i: int| 0 <= i < n ==> header_of(#[trigger] lines[i]) is Ok {
        Ok(Seq::new(n, |i: int| header_of(lines[i])->Ok_0))
    } else {
        Err(ParseError::InvalidHeader)
    }
}

/// The lines of a text: what stands between its line ends, `"\r\n"`. There is
/// always at least one line.
pub open spec fn lines_of(text: Seq<char>) -> Seq<Seq<char>> {
    split(text, "\r\n"@)
}

/// The request that a text holds. Its first line is the request line; those
/// up to the first empty line are the headers; the rest is the body. A bad
/// request line is reported before a bad header.
pub open spec fn request_of(text: Seq<char>) -> Result<RequestView, ParseError> {
    let rest = lines_of(text).skip(1);
    match request_line_of(lines_of(text)[0]) {
        Err(e) => Err(e),
        Ok(header_line) => match headers_of(rest) {
            Err(e) => Err(e),
            Ok(headers) => Ok(RequestView { header_line, headers, body: body_of(rest) }),
        },
    }
}

/// The request that a buffer of bytes holds: the bytes must be UTF-8, and the
/// text that they spell must parse.
pub open spec fn request_in(buffer: Seq<u8>) -> Result<RequestView, ParseError> {
    if valid_utf8(buffer) {
        request_of(decode_utf8(buffer))
    } else {
        Err(ParseError::InvalidUtf8)
    }
}

/// The value of the first header of `headers` named `name`, letter for letter.
pub open spec fn header_value(headers: Seq<HeaderView>, name: Seq<char>) -> Option<Seq<char>>
    decreases headers.len(),
{
    if headers.len() == 0 {
        None
    } else if headers[0].name == name {
        Some(headers[0].value)
    } else {
        header_value(headers.drop_first(), name)
    }
}

impl Default for RequestMethod {
    /// `GET`.
    fn default() -> (method: Self)
        ensures
            method == RequestMethod::GET,
    {
        RequestMethod::GET
    }
}

impl Default for RequestHeaderLine {
    /// `GET`, with an empty path and an empty version.
    fn default() -> (line: Self)
        ensures
            line@ == (RequestLineView {
                method: RequestMethod::GET,
                path: Seq::empty(),
                version: Seq::empty(),
            }),
    {
        RequestHeaderLine {
            method: RequestMethod::GET,
            path: String::new(),
            version: String::new(),
        }
    }
}

impl Default for HttpHeader {
    /// An empty name with an empty value.
    fn default() -> (header: Self)
        ensures
            header@ == (HeaderView { name: Seq::empty(), value: Seq::empty() }),
    {
        HttpHeader { name: String::new(), value: String::new() }
    }
}

impl Default for HttpRequest {
    /// The default request line, no header and an empty body.
    fn default() -> (request: Self)
        ensures
            request@ == (RequestView {
                header_line: RequestLineView {
                    method: RequestMethod::GET,
                    path: Seq::empty(),
                    version: Seq::empty(),
                },
                headers: Seq::empty(),
                body: Seq::empty(),
            }),
    {
        let request = HttpRequest {
            header_line: RequestHeaderLine::default(),
            headers: Vec::new(),
            body: String::new(),
        };
        proof {
            assert(header_views(request.headers@) == Seq::<HeaderView>::empty());
        }
        request
    }
}

impl Clone for RequestHeaderLine {
    /// A request line that holds the same.
    fn clone(&self) -> (copy: Self)
        ensures
            copy@ == self@,
    {
        RequestHeaderLine {
            method: self.method,
            path: self.path.clone(),
            version: self.version.clone(),
        }
    }
}

impl Clone for HttpHeader {
    /// A header that holds the same.
    fn clone(&self) -> (copy: Self)
        ensures
            copy@ == self@,
    {
        HttpHeader { name: self.name.clone(), value: self.value.clone() }
    }
}

impl Clone for HttpRequest {
    /// A request that holds the same.
    fn clone(&self) -> (copy: Self)
        ensures
            copy@ == self@,
    {
        let mut headers: Vec<HttpHeader> = Vec::new();
        let mut i: usize = 0;
        while i < self.headers.len()
            invariant
                i <= self.headers.len(),
                header_views(headers@) == header_views(self.headers@).take(i as int),
            decreases self.headers.len() - i,
        {
            let ghost before = headers@;
            headers.push(self.headers[i].clone());
            proof {
                assert(header_views(headers@) == header_views(before).push(
                    self.headers@[i as int]@,
                ));
            }
            i += 1;
        }
        proof {
            assert(header_views(self.headers@).take(i as int) == header_views(self.headers@));
        }
        HttpRequest { header_line: self.header_line.clone(), headers, body: self.body.clone() }
    }
}

/// The method that the characters of `token` name.
fn parse_method(token: &[char]) -> (r: Result<RequestMethod, ParseError>)
    ensures
        r == method_of(token@),
{
    if spells(token, "GET") {
        Ok(RequestMethod::GET)
    } else if spells(token, "POST") {
        Ok(RequestMethod::POST)
    } else {
        Err(ParseError::UnknownMethod)
    }
}

/// The request line that the characters of `line` hold.
fn parse_request_line(line: &[char]) -> (r: Result<RequestHeaderLine, ParseError>)
    ensures
        yields(r, request_line_of(line@)),
{
    let tokens = split_words(line);
    if tokens.len() < 3 {
        return Err(ParseError::InvalidRequestLine);
    }
    match parse_method(tokens[0]) {
        Ok(method) => Ok(
            RequestHeaderLine { method, path: to_text(tokens[1]), version: to_text(tokens[2]) },
        ),
        Err(e) => Err(e),
    }
}

/// The header that the characters of `line` hold.
fn parse_header(line: &[char]) -> (r: Result<HttpHeader, ParseError>)
    ensures
        yields(r, header_of(line@)),
{
    let separator = to_chars(": ");
    proof {
        reveal_strlit(": ");
    }
    match find_first(line, separator.as_slice()) {
        Some(i) => {
            let end: usize = line.len();
            Ok(
                HttpHeader {
                    name: to_text(slice_subrange(line, 0, i)),
                    value: to_text(slice_subrange(line, i + 2, end)),
                },
            )
        },
        None => Err(ParseError::InvalidHeader),
    }
}

/// The request that the characters of `text` hold.
fn parse_request(text: &[char]) -> (r: Result<HttpRequest, ParseError>)
    ensures
        yields(r, request_of(text@)),
{
    let terminator = to_chars("\r\n");
    let lines = split_on(text, terminator.as_slice());
    let ghost all = views(lines@);
    let ghost rest = all.skip(1);
    let ghost n = header_count(rest);
    let header_line = match parse_request_line(lines[0]) {
        Ok(line) => line,
        Err(e) => {
            return Err(e);
        },
    };
    let mut headers: Vec<HttpHeader> = Vec::new();
    let mut i: usize = 1;
    proof {
        assert(rest.skip(0) == rest);
    }
    while i < lines.len() && lines[i].len() > 0
        invariant
            1 <= i <= lines.len(),
            all == views(lines@),
            all == lines_of(text@),
            rest == all.skip(1),
            n == header_count(rest),
            n == (i - 1) + header_count(rest.skip(i - 1)),
            request_line_of(all[0]) is Ok,
            header_views(headers@) == Seq::new((i - 1) as nat, |k: int| header_of(rest[k])->Ok_0),
            forall|k: int| 0 <= k < i - 1 ==> header_of(#[trigger] rest[k]) is Ok,
        decreases lines.len() - i,
    {
        proof {
            assert(rest.skip(i - 1).drop_first() == rest.skip(i as int));
        }
        let ghost before = headers@;
        match parse_header(lines[i]) {
            Ok(header) => {
                headers.push(header);
            },
            Err(e) => {
                return Err(e);
            },
        }
        proof {
            assert(header_views(headers@) == header_views(before).push(
                header_of(rest[i - 1])->Ok_0,
            ));
        }
        i += 1;
    }
    let mut body = String::new();
    if i < lines.len() {
        i += 1;
        while i < lines.len()
            invariant
                n + 2 <= i <= lines.len(),
                all == views(lines@),
                rest == all.skip(1),
                body@ == rest.subrange(n as int + 1, i - 1).flatten(),
            decreases lines.len() - i,
        {
            proof {
                broadcast use Seq::lemma_flatten_push;

                assert(rest.subrange(n as int + 1, i as int) == rest.subrange(
                    n as int + 1,
                    i - 1,
                ).push(rest[i - 1]));
            }
            push_chars(&mut body, lines[i]);
            i += 1;
        }
    }
    Ok(HttpRequest::new(header_line, headers, body))
}

impl HttpRequest {
    /// A request of the three parts given.
    pub fn new(
        header_line: RequestHeaderLine,
        headers: Vec<HttpHeader>,
        body: String,
    ) -> (request: Self)
        ensures
            request.header_line == header_line,
            request.headers == headers,
            request.body == body,
    {
        HttpRequest { header_line, headers, body }
    }

    /// The value of the first header named `name`; names are compared letter
    /// for letter.
    pub fn get_header(&self, name: &str) -> (value: Option<String>)
        ensures
            match value {
                Some(v) => header_value(self@.headers, name@) == Some(v@),
                None => header_value(self@.headers, name@) is None,
            },
    {
        let wanted = String::from_str(name);
        let ghost all = self@.headers;
        let mut i: usize = 0;
        proof {
            assert(all.skip(0) == all);
        }
        while i < self.headers.len()
            invariant
                i <= self.headers.len(),
                all == header_views(self.headers@),
                wanted@ == name@,
                header_value(all, name@) == header_value(all.skip(i as int), name@),
            decreases self.headers.len() - i,
        {
            proof {
                assert(all.skip(i as int).drop_first() == all.skip(i + 1));
            }
            if self.headers[i].name == wanted {
                return Some(self.headers[i].value.clone());
            }
            i += 1;
        }
        None
    }

    /// The request that a buffer of bytes holds. The bytes are read as UTF-8
    /// and rejected where they are none.
    pub fn from_bytes(buffer: &[u8]) -> (r: Result<HttpRequest, ParseError>)
        ensures
            yields(r, request_in(buffer@)),
    {
        match core::str::from_utf8(buffer) {
            Ok(value) => {
                proof {
                    encode_utf8_decode_utf8(value@);
                }
                let text = to_chars(value);
                parse_request(text.as_slice())
            },
            Err(_) => Err(ParseError::InvalidUtf8),
        }
    }
}

impl TryFrom<String> for RequestMethod {
    type Error = ParseError;

    /// The method that `value` names.
    fn try_from(value: String) -> (r: Result<Self, Self::Error>)
        ensures
            r == method_of(value@),
    {
        let token = to_chars(value.as_str());
        parse_method(token.as_slice())
    }
}

impl TryFromSpecImpl<String> for RequestMethod {
    open spec fn obeys_try_from_spec() -> bool {
        true
    }

    open spec fn try_from_spec(value: String) -> Result<Self, Self::Error> {
        method_of(value@)
    }
}

impl TryFrom<String> for RequestHeaderLine {
    type Error = ParseError;

    /// The request line that `value` holds.
    fn try_from(value: String) -> (r: Result<Self, Self::Error>)
        ensures
            yields(r, request_line_of(value@)),
    {
        let line = to_chars(value.as_str());
        parse_request_line(line.as_slice())
    }
}

/// In ghost code the result of `try_from` is some request line with the view
/// that `request_line_of` gives. Two strings with one view are not known to be
/// one value, so `try_from` does not promise this very value: what it returns
/// is stated in its own `ensures`, over views.
impl TryFromSpecImpl<String> for RequestHeaderLine {
    open spec fn obeys_try_from_spec() -> bool {
        false
    }

    open spec fn try_from_spec(value: String) -> Result<Self, Self::Error> {
        match request_line_of(value@) {
            Ok(view) => Ok(choose|r: RequestHeaderLine| #[trigger] r.view() == view),
            Err(e) => Err(e),
        }
    }
}

impl TryFrom<String> for HttpHeader {
    type Error = ParseError;

    /// The header that `value` holds.
    fn try_from(value: String) -> (r: Result<Self, Self::Error>)
        ensures
            yields(r, header_of(value@)),
    {
        let line = to_chars(value.as_str());
        parse_header(line.as_slice())
    }
}

/// In ghost code the result of `try_from` is some header with the view that
/// `header_of` gives. Two strings with one view are not known to be one value,
/// so `try_from` does not promise this very value: what it returns is stated in
/// its own `ensures`, over views.
impl TryFromSpecImpl<String> for HttpHeader {
    open spec fn obeys_try_from_spec() -> bool {
        false
    }

    open spec fn try_from_spec(value: String) -> Result<Self, Self::Error> {
        match header_of(value@) {
            Ok(view) => Ok(choose|r: HttpHeader| #[trigger] r.view() == view),
            Err(e) => Err(e),
        }
    }
}

impl TryFrom<String> for HttpRequest {
    type Error = ParseError;

    /// The request that `value` holds.
    fn try_from(value: String) -> (r: Result<Self, Self::Error>)
        ensures
            yields(r, request_of(value@)),
    {
        let text = to_chars(value.as_str());
        parse_request(text.as_slice())
    }
}

/// In ghost code the result of `try_from` is some request with the view that
/// `request_of` gives. Two strings with one view are not known to be one value,
/// so `try_from` does not promise this very value: what it returns is stated in
/// its own `ensures`, over views.
impl TryFromSpecImpl<String> for HttpRequest {
    open spec fn obeys_try_from_spec() -> bool {
        false
    }

    open spec fn try_from_spec(value: String) -> Result<Self, Self::Error> {
        match request_of(value@) {
            Ok(view) => Ok(choose|r: HttpRequest| #[trigger] r.view() == view),
            Err(e) => Err(e),
        }
    }
}

/// The path and the version of a request line that parsed are words: neither
/// is empty, and neither holds white space.
pub proof fn lemma_request_line_words(line: Seq<char>)
    requires
        request_line_of(line) is Ok,
    ensures
        is_word(request_line_of(line)->Ok_0.path),
        is_word(request_line_of(line)->Ok_0.version),
{
    lemma_words_are_words(line, 1);
    lemma_words_are_words(line, 2);
}

/// The lines of a text, a line end and a second text are the lines of the
/// first text and then those of the second.
pub proof fn lemma_lines_concat(first: Seq<char>, second: Seq<char>)
    ensures
        lines_of(first + "\r\n"@ + second) == lines_of(first) + lines_of(second),
    decreases first.len(),
{
    reveal_strlit("\r\n");
    let end = "\r\n"@;
    let all = first + end + second;
    match find(first, end) {
        Some(i) => {
            let tail = first.skip(i + 2);
            assert(all.subrange(i, i + 2) == first.subrange(i, i + 2));
            assert forall|j: int| 0 <= j < i implies !occurs_at(all, end, j) by {
                if occurs_at(all, end, j) {
                    assert(all.subrange(j, j + 2) == first.subrange(j, j + 2));
                    assert(occurs_at(first, end, j));
                }
            }
            lemma_find_is(all, end, i);
            assert(all.take(i) == first.take(i));
            assert(all.skip(i + 2) == tail + end + second);
            lemma_lines_concat(tail, second);
        },
        None => {
            assert forall|j: int| 0 <= j < first.len() implies !occurs_at(all, end, j) by {
                if occurs_at(all, end, j) {
                    if j + 2 <= first.len() {
                        assert(first.subrange(j, j + 2) == all.subrange(j, j + 2));
                        lemma_first_occurrence_exists(first, end, j);
                    } else {
                        assert(all.subrange(j, j + 2)[1] == all[j + 1]);
                    }
                }
            }
            lemma_split_at_first(first, end, second);
        },
    }
}

/// No more lines stand before the first empty one than there are lines.
pub proof fn lemma_header_count_bound(lines: Seq<Seq<char>>)
    ensures
        header_count(lines) <= lines.len(),
    decreases lines.len(),
{
    if lines.len() > 0 && lines[0].len() > 0 {
        lemma_header_count_bound(lines.drop_first());
    }
}

/// An empty line after the last line leaves the number of header lines as it
/// is.
proof fn lemma_header_count_with_empty(lines: Seq<Seq<char>>)
    ensures
        header_count(lines.push(Seq::empty())) == header_count(lines),
    decreases lines.len(),
{
    if lines.len() > 0 && lines[0].len() > 0 {
        lemma_header_count_with_empty(lines.drop_first());
        assert(lines.push(Seq::empty()).drop_first() == lines.drop_first().push(Seq::empty()));
    }
}

/// One line end after a text changes nothing: the text is parsed as it is
/// without it. The empty line that the line end adds ends the headers where
/// nothing had ended them, and adds nothing to a body.
pub proof fn lemma_trailing_line_end(text: Seq<char>)
    ensures
        request_of(text + "\r\n"@) == request_of(text),
{
    let none = Seq::<char>::empty();
    let rest = lines_of(text).skip(1);
    let longer = lines_of(text + "\r\n"@).skip(1);
    let n = header_count(rest);
    lemma_lines_concat(text, none);
    assert(longer == rest.push(none));
    lemma_header_count_with_empty(rest);
    lemma_header_count_bound(rest);
    assert(headers_of(longer) == headers_of(rest)) by {
        assert forall|i: int| 0 <= i < n implies longer[i] == rest[i] by {}
        if headers_of(rest) is Ok {
            assert(headers_of(longer)->Ok_0 == headers_of(rest)->Ok_0);
        }
    }
    assert(body_of(longer) == body_of(rest)) by {
        broadcast use Seq::lemma_flatten_push;

        if n < rest.len() {
            assert(longer.skip(n as int + 1) == rest.skip(n as int + 1).push(none));
        } else {
            assert(longer.skip(n as int + 1) == Seq::<Seq<char>>::empty());
        }
    }
}

} // verus!
