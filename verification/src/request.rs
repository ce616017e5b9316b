//! Reading a request from the bytes that arrived: the request line, the
//! headers and the body that `Content-Length` frames.

use crate::decimal::decimal_usize;
use crate::decimal::parse_decimal;
use crate::error::ServiceError;
use crate::method::method_named;
use crate::method::Method;
use crate::scan::contents;
use crate::scan::find;
use crate::scan::first_occurrence;
use crate::scan::lemma_pieces_rejoin;
use crate::scan::pieces;
use crate::scan::same_bytes;
use crate::scan::split;
use vstd::prelude::*;
use vstd::slice::slice_subrange;
use vstd::slice::slice_to_vec;
use vstd::string::StringSliceAdditionalSpecFns;

verus! {

/// The byte of a carriage return.
pub const CR: u8 = 13;

/// The byte of a line feed.
pub const LF: u8 = 10;

/// The byte of a space.
pub const SPACE: u8 = 32;

/// The byte of a colon.
pub const COLON: u8 = 58;

/// What ends a line of the head.
pub open spec fn line_break() -> Seq<u8> {
    seq![CR, LF]
}

/// What parts the head of a message from what follows it.
pub open spec fn blank_line() -> Seq<u8> {
    seq![CR, LF, CR, LF]
}

/// What parts the tokens of a request line.
pub open spec fn token_separator() -> Seq<u8> {
    seq![SPACE]
}

/// What parts the name of a header from its value.
pub open spec fn field_separator() -> Seq<u8> {
    seq![COLON, SPACE]
}

/// The head of a message: what stands before the first blank line, or all of
/// the message where it has no blank line.
pub open spec fn head_of(message: Seq<u8>) -> Seq<u8> {
    match first_occurrence(message, blank_line()) {
        Some(at) => message.take(at),
        None => message,
    }
}

/// What follows the first blank line of a message; nothing where it has no
/// blank line.
pub open spec fn remainder_of(message: Seq<u8>) -> Seq<u8> {
    match first_occurrence(message, blank_line()) {
        Some(at) => message.skip(at + blank_line().len()),
        None => Seq::empty(),
    }
}

/// The lines of the head of a message: first the start line, then the header
/// lines.
pub open spec fn lines_of(message: Seq<u8>) -> Seq<Seq<u8>> {
    pieces(head_of(message), line_break())
}

/// The name and the value of a header line: what stands before and behind
/// its first `": "`. A line without one is no header.
pub open spec fn field_of(line: Seq<u8>) -> Option<(Seq<u8>, Seq<u8>)> {
    match first_occurrence(line, field_separator()) {
        Some(at) => Some((line.take(at), line.skip(at + field_separator().len()))),
        None => None,
    }
}

/// The first `len` bytes of `remainder`, or all of it where it is shorter.
pub open spec fn framed(remainder: Seq<u8>, len: usize) -> Seq<u8> {
    if len <= remainder.len() {
        remainder.take(len as int)
    } else {
        remainder
    }
}

/// The model of a request line.
pub struct RequestLineView {
    pub method: Method,
    pub path: Seq<u8>,
    pub http_version: Seq<u8>,
}

/// The model of a request: byte strings in place of buffers.
pub struct RequestView {
    pub request_line: RequestLineView,
    pub content_type: Option<Seq<u8>>,
    pub user_agent: Option<Seq<u8>>,
    pub accept: Option<Seq<u8>>,
    pub cache_control: Option<Seq<u8>>,
    pub postman_token: Option<Seq<u8>>,
    pub host: Option<Seq<u8>>,
    pub accept_encoding: Option<Seq<u8>>,
    pub connection: Option<Seq<u8>>,
    pub content_length: Option<usize>,
    pub body: Option<Seq<u8>>,
}

/// The request line that `line` spells: its first three tokens are the
/// method, the path and the protocol version, which is taken as it stands.
/// Tokens are parted by single spaces, so two spaces in a row part an empty
/// token; tokens after the third are ignored.
pub open spec fn request_line_of(line: Seq<u8>) -> Result<RequestLineView, ServiceError> {
    let tokens = pieces(line, token_separator());
    if tokens.len() < 3 {
        Err(ServiceError::MalformedRequestLine)
    } else {
        match method_named(tokens[0]) {
            Some(method) => Ok(RequestLineView { method, path: tokens[1], http_version: tokens[2] }),
            None => Err(ServiceError::MalformedRequestLine),
        }
    }
}

/// A request with the given request line, no header and no body.
pub open spec fn bare(request_line: RequestLineView) -> RequestView {
    RequestView {
        request_line,
        content_type: None,
        user_agent: None,
        accept: None,
        cache_control: None,
        postman_token: None,
        host: None,
        accept_encoding: None,
        connection: None,
        content_length: None,
        body: None,
    }
}

/// The request after one header was read: a known name sets its field, over
/// whatever the field held; an unknown name changes nothing. Names are
/// matched byte for byte. The value of `Content-Length` must be a decimal
/// number that fits `usize`.
pub open spec fn with_property(request: RequestView, property: Seq<u8>, value: Seq<u8>) -> Result<
    RequestView,
    ServiceError,
> {
    if property == "Content-Type".spec_bytes() {
        Ok(RequestView { content_type: Some(value), ..request })
    } else if property == "User-Agent".spec_bytes() {
        Ok(RequestView { user_agent: Some(value), ..request })
    } else if property == "Accept".spec_bytes() {
        Ok(RequestView { accept: Some(value), ..request })
    } else if property == "Cache-Control".spec_bytes() {
        Ok(RequestView { cache_control: Some(value), ..request })
    } else if property == "Postman-Token".spec_bytes() {
        Ok(RequestView { postman_token: Some(value), ..request })
    } else if property == "Host".spec_bytes() {
        Ok(RequestView { host: Some(value), ..request })
    } else if property == "Accept-Encoding".spec_bytes() {
        Ok(RequestView { accept_encoding: Some(value), ..request })
    } else if property == "Connection".spec_bytes() {
        Ok(RequestView { connection: Some(value), ..request })
    } else if property == "Content-Length".spec_bytes() {
        match decimal_usize(value) {
            Some(length) => Ok(RequestView { content_length: Some(length), ..request }),
            None => Err(ServiceError::InvalidContentLength),
        }
    } else {
        Ok(request)
    }
}

/// The request after the header lines were read in order. The first line
/// that is no header, or that holds a bad `Content-Length`, ends the reading
/// with its error.
pub open spec fn with_headers(request: RequestView, lines: Seq<Seq<u8>>) -> Result<
    RequestView,
    ServiceError,
>
    decreases lines.len(),
{
    if lines.len() == 0 {
        Ok(request)
    } else {
        match field_of(lines[0]) {
            Some((property, value)) => match with_property(request, property, value) {
                Ok(next) => with_headers(next, lines.drop_first()),
                Err(error) => Err(error),
            },
            None => Err(ServiceError::MalformedHeader),
        }
    }
}

/// The request as the reading of the header lines leaves it: with every
/// header recorded where all lines are good, else with the headers that
/// stand before the first bad line.
pub open spec fn headers_recorded(request: RequestView, lines: Seq<Seq<u8>>) -> RequestView
    decreases lines.len(),
{
    if lines.len() == 0 {
        request
    } else {
        match field_of(lines[0]) {
            Some((property, value)) => match with_property(request, property, value) {
                Ok(next) => headers_recorded(next, lines.drop_first()),
                Err(_) => request,
            },
            None => request,
        }
    }
}

/// The request with its body: where a `Content-Length` was read, as many
/// bytes of `remainder` as it says, or all of them where there are fewer;
/// no body where none was read, whatever `remainder` holds.
pub open spec fn with_body(request: RequestView, remainder: Seq<u8>) -> RequestView {
    match request.content_length {
        Some(length) => RequestView { body: Some(framed(remainder, length)), ..request },
        None => request,
    }
}

/// The request that the bytes of `buffer` spell, or the first error met in
/// reading them: the request line comes first, then the headers in order.
pub open spec fn parse(buffer: Seq<u8>) -> Result<RequestView, ServiceError> {
    let lines = lines_of(buffer);
    match request_line_of(lines[0]) {
        Ok(request_line) => finished(
            with_headers(bare(request_line), lines.drop_first()),
            remainder_of(buffer),
        ),
        Err(error) => Err(error),
    }
}

/// A request line that stands in where only the headers matter.
pub open spec fn any_request_line() -> RequestLineView {
    RequestLineView { method: Method::GET, path: Seq::empty(), http_version: Seq::empty() }
}

/// The length that the headers of a message declare for its body, whatever
/// its start line is: `None` where no `Content-Length` stands among them.
pub open spec fn declared_length(message: Seq<u8>) -> Result<Option<usize>, ServiceError> {
    match with_headers(bare(any_request_line()), lines_of(message).drop_first()) {
        Ok(request) => Ok(request.content_length),
        Err(error) => Err(error),
    }
}

/// What an optional buffer holds.
pub open spec fn bytes_of(field: Option<Vec<u8>>) -> Option<Seq<u8>> {
    match field {
        Some(bytes) => Some(bytes@),
        None => None,
    }
}

/// What reading the headers makes of a message whose request line was read.
pub open spec fn finished(headers_read: Result<RequestView, ServiceError>, remainder: Seq<u8>) -> Result<
    RequestView,
    ServiceError,
> {
    match headers_read {
        Ok(request) => Ok(with_body(request, remainder)),
        Err(error) => Err(error),
    }
}

/// Whether `outcome` is the request or the error that `expected` says.
pub open spec fn agrees(outcome: Result<Request, ServiceError>, expected: Result<RequestView, ServiceError>) -> bool {
    match expected {
        Ok(view) => outcome is Ok && outcome->Ok_0@ == view,
        Err(error) => outcome is Err && outcome->Err_0 == error,
    }
}

/// The first line of a request.
pub struct RequestLine {
    pub method: Method,
    pub path: Vec<u8>,
    pub http_version: Vec<u8>,
}

impl View for RequestLine {
    type V = RequestLineView;

    open spec fn view(&self) -> RequestLineView {
        RequestLineView { method: self.method, path: self.path@, http_version: self.http_version@ }
    }
}

/// A request: its first line, the headers that the service knows, and the
/// body that `Content-Length` framed.
pub struct Request {
    pub request_line: RequestLine,
    pub content_type: Option<Vec<u8>>,
    pub user_agent: Option<Vec<u8>>,
    pub accept: Option<Vec<u8>>,
    pub cache_control: Option<Vec<u8>>,
    pub postman_token: Option<Vec<u8>>,
    pub host: Option<Vec<u8>>,
    pub accept_encoding: Option<Vec<u8>>,
    pub connection: Option<Vec<u8>>,
    pub content_length: Option<usize>,
    pub body: Option<Vec<u8>>,
}

impl View for Request {
    type V = RequestView;

    open spec fn view(&self) -> RequestView {
        RequestView {
            request_line: self.request_line@,
            content_type: bytes_of(self.content_type),
            user_agent: bytes_of(self.user_agent),
            accept: bytes_of(self.accept),
            cache_control: bytes_of(self.cache_control),
            postman_token: bytes_of(self.postman_token),
            host: bytes_of(self.host),
            accept_encoding: bytes_of(self.accept_encoding),
            connection: bytes_of(self.connection),
            content_length: self.content_length,
            body: bytes_of(self.body),
        }
    }
}

/// Reading headers touches neither the request line nor the body.
pub proof fn lemma_headers_keep_line_and_body(request: RequestView, lines: Seq<Seq<u8>>)
    ensures
        with_headers(request, lines) matches Ok(read) ==> read.request_line == request.request_line
            && read.body == request.body,
    decreases lines.len(),
{
    if lines.len() > 0 {
        match field_of(lines[0]) {
            Some((property, value)) => match with_property(request, property, value) {
                Ok(next) => {
                    lemma_headers_keep_line_and_body(next, lines.drop_first());
                },
                Err(_) => {},
            },
            None => {},
        }
    }
}

/// Headers are read from first to last, so a later line has the last word:
/// reading one more line is recording its header on top of what the lines
/// before it left.
pub proof fn lemma_later_header_overwrites(request: RequestView, lines: Seq<Seq<u8>>, line: Seq<u8>)
    ensures
        with_headers(request, lines.push(line)) == match with_headers(request, lines) {
            Ok(read) => match field_of(line) {
                Some((property, value)) => with_property(read, property, value),
                None => Err(ServiceError::MalformedHeader),
            },
            Err(error) => Err(error),
        },
    decreases lines.len(),
{
    if lines.len() == 0 {
        match field_of(line) {
            Some((property, value)) => {
                match with_property(request, property, value) {
                    Ok(next) => {
                        assert(with_headers(next, lines) == Ok::<RequestView, ServiceError>(next));
                    },
                    Err(_) => {},
                }
            },
            None => {},
        }
    } else {
        assert(lines.push(line).drop_first() =~= lines.drop_first().push(line));
        match field_of(lines[0]) {
            Some((property, value)) => match with_property(request, property, value) {
                Ok(next) => {
                    lemma_later_header_overwrites(next, lines.drop_first(), line);
                },
                Err(_) => {},
            },
            None => {},
        }
    }
}

/// Parts `message` at its first blank line into head and remainder.
pub fn split_message(message: &[u8]) -> (parts: (&[u8], &[u8]))
    ensures
        parts.0@ == head_of(message@),
        parts.1@ == remainder_of(message@),
{
    let blank: [u8; 4] = [CR, LF, CR, LF];
    match find(message, blank.as_slice()) {
        Some(at) => {
            let end = message.len();
            (slice_subrange(message, 0, at), slice_subrange(message, at + 4, end))
        },
        None => (message, slice_subrange(message, message.len(), message.len())),
    }
}

/// Parts a header line at its first `": "` into name and value.
pub fn header_field(line: &[u8]) -> (field: Option<(&[u8], &[u8])>)
    ensures
        match field_of(line@) {
            Some((property, value)) => field matches Some((name, text)) && name@ == property
                && text@ == value,
            None => field is None,
        },
{
    let separator: [u8; 2] = [COLON, SPACE];
    match find(line, separator.as_slice()) {
        Some(at) => {
            let end = line.len();
            Some((slice_subrange(line, 0, at), slice_subrange(line, at + 2, end)))
        },
        None => None,
    }
}

impl RequestLine {
    /// Reads a request line.
    pub fn new(request_line: &[u8]) -> (outcome: Result<RequestLine, ServiceError>)
        ensures
            match request_line_of(request_line@) {
                Ok(view) => outcome is Ok && outcome->Ok_0@ == view,
                Err(error) => outcome is Err && outcome->Err_0 == error,
            },
    {
        let separator: [u8; 1] = [SPACE];
        assert(separator@ =~= token_separator());
        let tokens = split(request_line, separator.as_slice());
        if tokens.len() < 3 {
            return Err(ServiceError::MalformedRequestLine);
        }
        match Method::from_bytes(tokens[0]) {
            Some(method) => Ok(
                RequestLine {
                    method,
                    path: slice_to_vec(tokens[1]),
                    http_version: slice_to_vec(tokens[2]),
                },
            ),
            None => Err(ServiceError::MalformedRequestLine),
        }
    }
}

impl Request {
    /// Reads a request from the bytes that arrived.
    ///
    /// The head ends at the first blank line; its first line is the request
    /// line and every other line is a header. A header line without `": "`
    /// fails the request. The body is present exactly if a `Content-Length`
    /// header was read, and holds as many bytes of what follows the blank
    /// line as the header says, or all of them where there are fewer.
    pub fn new(buffer: &[u8]) -> (outcome: Result<Request, ServiceError>)
        ensures
            agrees(outcome, parse(buffer@)),
            outcome matches Ok(request) ==> {
                &&& request.body is Some <==> request.content_length is Some
                &&& request.content_length matches Some(length) ==> request.body->0@.len() == if length
                    <= remainder_of(buffer@).len() {
                    length as nat
                } else {
                    remainder_of(buffer@).len()
                }
            },
    {
        let (head, remainder) = split_message(buffer);
        let separator: [u8; 2] = [CR, LF];
        let lines = split(head, separator.as_slice());
        proof {
            lemma_pieces_rejoin(head@, line_break());
        }
        let request_line = match RequestLine::new(lines[0]) {
            Ok(request_line) => request_line,
            Err(error) => {
                return Err(error);
            },
        };
        let mut request = Request::bare(request_line);
        let headers = slice_subrange(lines.as_slice(), 1, lines.len());
        assert(contents(headers@) =~= lines_of(buffer@).drop_first());
        proof {
            lemma_headers_keep_line_and_body(request@, contents(headers@));
        }
        match request.read_headers(headers) {
            Ok(()) => {},
            Err(error) => {
                return Err(error);
            },
        }
        match request.content_length {
            Some(length) => {
                let body = if length <= remainder.len() {
                    slice_subrange(remainder, 0, length)
                } else {
                    remainder
                };
                request.body = Some(slice_to_vec(body));
            },
            None => {},
        }
        Ok(request)
    }

    /// A request with the given request line, no header and no body.
    pub fn bare(request_line: RequestLine) -> (request: Request)
        ensures
            request@ == bare(request_line@),
    {
        Request {
            request_line,
            content_type: None,
            user_agent: None,
            accept: None,
            cache_control: None,
            postman_token: None,
            host: None,
            accept_encoding: None,
            connection: None,
            content_length: None,
            body: None,
        }
    }

    /// Records the headers that `lines` hold, in order. Stops at the first
    /// line that is no header or holds a bad `Content-Length`; the headers
    /// before it are then recorded already.
    pub fn read_headers(&mut self, lines: &[&[u8]]) -> (outcome: Result<(), ServiceError>)
        ensures
            final(self)@ == headers_recorded(old(self)@, contents(lines@)),
            match with_headers(old(self)@, contents(lines@)) {
                Ok(view) => outcome is Ok && final(self)@ == view,
                Err(error) => outcome == Err::<(), ServiceError>(error),
            },
    {
        let ghost all = contents(lines@);
        let mut i: usize = 0;
        assert(all.skip(0) =~= all);
        while i < lines.len()
            invariant
                i <= lines.len(),
                all == contents(lines@),
                with_headers(old(self)@, all) == with_headers(self@, all.skip(i as int)),
                headers_recorded(old(self)@, all) == headers_recorded(self@, all.skip(i as int)),
            decreases lines.len() - i,
        {
            let ghost rest = all.skip(i as int);
            assert(rest.drop_first() =~= all.skip(i + 1));
            match header_field(lines[i]) {
                Some((property, value)) => {
                    match self.set_property_by_string(property, value) {
                        Ok(()) => {},
                        Err(error) => {
                            return Err(error);
                        },
                    }
                },
                None => {
                    return Err(ServiceError::MalformedHeader);
                },
            }
            i += 1;
        }
        Ok(())
    }

    /// Records one header: a known name sets its field, an unknown name is
    /// passed over. A `Content-Length` that is no number is an error and
    /// leaves the request as it was.
    pub fn set_property_by_string(&mut self, property: &[u8], value: &[u8]) -> (outcome: Result<
        (),
        ServiceError,
    >)
        ensures
            match with_property(old(self)@, property@, value@) {
                Ok(view) => outcome is Ok && final(self)@ == view,
                Err(error) => outcome == Err::<(), ServiceError>(error) && *final(self) == *old(self),
            },
    {
        if same_bytes(property, "Content-Type".as_bytes()) {
            self.content_type = Some(slice_to_vec(value));
        } else if same_bytes(property, "User-Agent".as_bytes()) {
            self.user_agent = Some(slice_to_vec(value));
        } else if same_bytes(property, "Accept".as_bytes()) {
            self.accept = Some(slice_to_vec(value));
        } else if same_bytes(property, "Cache-Control".as_bytes()) {
            self.cache_control = Some(slice_to_vec(value));
        } else if same_bytes(property, "Postman-Token".as_bytes()) {
            self.postman_token = Some(slice_to_vec(value));
        } else if same_bytes(property, "Host".as_bytes()) {
            self.host = Some(slice_to_vec(value));
        } else if same_bytes(property, "Accept-Encoding".as_bytes()) {
            self.accept_encoding = Some(slice_to_vec(value));
        } else if same_bytes(property, "Connection".as_bytes()) {
            self.connection = Some(slice_to_vec(value));
        } else if same_bytes(property, "Content-Length".as_bytes()) {
            match parse_decimal(value) {
                Some(length) => {
                    self.content_length = Some(length);
                },
                None => {
                    return Err(ServiceError::InvalidContentLength);
                },
            }
        }
        Ok(())
    }
}

/// Reads the length that the headers of `message` declare for its body. The
/// start line is passed over, so this reads a response as well as a request.
pub fn content_length(message: &[u8]) -> (outcome: Result<Option<usize>, ServiceError>)
    ensures
        outcome == declared_length(message@),
{
    let (head, _) = split_message(message);
    let separator: [u8; 2] = [CR, LF];
    let lines = split(head, separator.as_slice());
    proof {
        lemma_pieces_rejoin(head@, line_break());
    }
    let start = RequestLine { method: Method::GET, path: Vec::new(), http_version: Vec::new() };
    let mut request = Request::bare(start);
    let headers = slice_subrange(lines.as_slice(), 1, lines.len());
    assert(contents(headers@) =~= lines_of(message@).drop_first());
    match request.read_headers(headers) {
        Ok(()) => Ok(request.content_length),
        Err(error) => Err(error),
    }
}

} // verus!
