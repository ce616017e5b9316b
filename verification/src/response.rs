//! Responses and the bytes that go back over the wire.

use crate::decimal::digits_of;
use crate::decimal::write_decimal;
use crate::decimal::lemma_digits_of;
use crate::error::ServiceError;
use crate::request::any_request_line;
use crate::request::bare;
use crate::request::blank_line;
use crate::request::declared_length;
use crate::request::field_of;
use crate::request::field_separator;
use crate::request::framed;
use crate::request::head_of;
use crate::request::line_break;
use crate::request::lines_of;
use crate::request::remainder_of;
use crate::request::with_headers;
use crate::request::with_property;
use crate::request::RequestView;
use crate::request::COLON;
use crate::request::CR;
use crate::request::LF;
use crate::request::SPACE;
use crate::scan::lemma_first_occurrence;
use crate::scan::lemma_no_occurrence;
use crate::scan::occurs_at;
use crate::scan::pieces;
use crate::status::Status;
use vstd::prelude::*;
use vstd::string::StringSliceAdditionalSpecFns;
use vstd::utf8::encode_utf8;
use vstd::utf8::is_ascii_chars;
use vstd::utf8::is_ascii_chars_encode_utf8;

verus! {

/// The model of a response: its status and the bytes of its content. The
/// content length is not part of it, since it is always the number of those
/// bytes.
pub struct ResponseView {
    pub status: Status,
    pub content: Seq<u8>,
}

/// A response: content, the length of the content in bytes, and a status.
pub struct Response {
    content: Vec<u8>,
    length: usize,
    status: Status,
}

/// The bytes of the status line of `status`.
pub open spec fn status_line(status: Status) -> Seq<u8> {
    encode_utf8(status.response_line())
}

/// The bytes that introduce the content length.
pub open spec fn length_label() -> Seq<u8> {
    "Content-Length: ".spec_bytes()
}

/// The head of the reply for `response`: the status line and the one header
/// that a reply carries, the length of the content in bytes.
pub open spec fn formatted_head(response: ResponseView) -> Seq<u8> {
    status_line(response.status) + line_break() + length_label() + digits_of(
        response.content.len(),
    )
}

/// The reply for `response` as it goes over the wire: the head, a blank
/// line, and the content as it is.
pub open spec fn formatted(response: ResponseView) -> Seq<u8> {
    formatted_head(response) + blank_line() + response.content
}

impl View for Response {
    type V = ResponseView;

    closed spec fn view(&self) -> ResponseView {
        ResponseView { status: self.status, content: self.content@ }
    }
}

impl Response {
    #[verifier::type_invariant]
    spec fn length_is_byte_count(&self) -> bool {
        self.length == self.content@.len()
    }

    /// A response with the given content and status; its length is the
    /// number of bytes of the content.
    pub fn new(content: Vec<u8>, status: Status) -> (response: Response)
        ensures
            response@ == (ResponseView { status, content: content@ }),
    {
        let length: usize = content.len();
        Response { content, length, status }
    }

    /// The content.
    pub fn content(&self) -> (content: &[u8])
        ensures
            content@ == self@.content,
    {
        self.content.as_slice()
    }

    /// The length of the content in bytes.
    pub fn length(&self) -> (length: usize)
        ensures
            length == self@.content.len(),
    {
        proof {
            use_type_invariant(self);
        }
        self.length
    }

    /// The status.
    pub fn status(&self) -> (status: Status)
        ensures
            status == self@.status,
    {
        self.status
    }

    /// Writes the reply: the status line, `Content-Length` with the number
    /// of bytes of the content, a blank line, and the content.
    pub fn format(&self) -> (bytes: Vec<u8>)
        ensures
            bytes@ == formatted(self@),
    {
        proof {
            use_type_invariant(self);
        }
        let line = self.status.get_response_line();
        let mut bytes: Vec<u8> = Vec::new();
        bytes.extend_from_slice(line.as_str().as_bytes());
        bytes.push(CR);
        bytes.push(LF);
        bytes.extend_from_slice("Content-Length: ".as_bytes());
        write_decimal(&mut bytes, self.length);
        bytes.push(CR);
        bytes.push(LF);
        bytes.push(CR);
        bytes.push(LF);
        bytes.extend_from_slice(self.content.as_slice());
        assert(bytes@ =~= formatted(self@));
        bytes
    }
}

/// Whether `byte` is a space, a letter, a digit or a mark: what the fixed
/// texts of a reply are written with, and no control character.
pub open spec fn is_visible(byte: u8) -> bool {
    SPACE <= byte < 127
}

/// The status line is written in visible characters.
pub proof fn lemma_status_line_is_visible(status: Status)
    ensures
        forall|i: int| 0 <= i < status_line(status).len() ==> is_visible(#[trigger] status_line(status)[i]),
        status_line(status).len() > 0,
{
    reveal_strlit("HTTP/1.1 200 OK");
    reveal_strlit("HTTP/1.1 400 Bad Request");
    reveal_strlit("HTTP/1.1 404 Not Found");
    let chars = status.response_line();
    assert(is_ascii_chars(chars));
    is_ascii_chars_encode_utf8(chars);
}

/// The label of the content length is the header name `Content-Length`,
/// then a colon and a space, all in visible characters and with no colon
/// inside the name.
pub proof fn lemma_length_label()
    ensures
        length_label().len() == 16,
        length_label().take(14) == "Content-Length".spec_bytes(),
        length_label().skip(14) == field_separator(),
        forall|i: int| 0 <= i < 16 ==> is_visible(#[trigger] length_label()[i]),
        forall|i: int| 0 <= i < 14 ==> #[trigger] length_label()[i] != COLON,
{
    reveal_strlit("Content-Length: ");
    reveal_strlit("Content-Length");
    is_ascii_chars_encode_utf8("Content-Length: "@);
    is_ascii_chars_encode_utf8("Content-Length"@);
    assert(length_label().take(14) =~= "Content-Length".spec_bytes());
    assert(length_label().skip(14) =~= field_separator());
}

/// No other header that a request knows is named like `Content-Length`.
pub proof fn lemma_length_name_is_distinct()
    ensures
        "Content-Length".spec_bytes() != "Content-Type".spec_bytes(),
        "Content-Length".spec_bytes() != "User-Agent".spec_bytes(),
        "Content-Length".spec_bytes() != "Accept".spec_bytes(),
        "Content-Length".spec_bytes() != "Cache-Control".spec_bytes(),
        "Content-Length".spec_bytes() != "Postman-Token".spec_bytes(),
        "Content-Length".spec_bytes() != "Host".spec_bytes(),
        "Content-Length".spec_bytes() != "Accept-Encoding".spec_bytes(),
        "Content-Length".spec_bytes() != "Connection".spec_bytes(),
{
    reveal_strlit("Content-Length");
    reveal_strlit("Content-Type");
    reveal_strlit("User-Agent");
    reveal_strlit("Accept");
    reveal_strlit("Cache-Control");
    reveal_strlit("Postman-Token");
    reveal_strlit("Host");
    reveal_strlit("Accept-Encoding");
    reveal_strlit("Connection");
    is_ascii_chars_encode_utf8("Content-Length"@);
    is_ascii_chars_encode_utf8("Content-Type"@);
    is_ascii_chars_encode_utf8("User-Agent"@);
    is_ascii_chars_encode_utf8("Accept"@);
    is_ascii_chars_encode_utf8("Cache-Control"@);
    is_ascii_chars_encode_utf8("Postman-Token"@);
    is_ascii_chars_encode_utf8("Host"@);
    is_ascii_chars_encode_utf8("Accept-Encoding"@);
    is_ascii_chars_encode_utf8("Connection"@);
}

/// The blank line that ends the head of a reply is the first one in it: the
/// head is what was written before it and the remainder is the content.
pub proof fn lemma_reply_parts(response: ResponseView)
    ensures
        head_of(formatted(response)) == formatted_head(response),
        remainder_of(formatted(response)) == response.content,
{
    let line = status_line(response.status);
    let digits = digits_of(response.content.len());
    let head = formatted_head(response);
    let reply = formatted(response);
    lemma_status_line_is_visible(response.status);
    lemma_length_label();
    lemma_digits_of(response.content.len());
    assert(reply.subrange(head.len() as int, head.len() as int + 4) =~= blank_line());
    assert forall|earlier: int| 0 <= earlier < head.len() implies !occurs_at(
        reply,
        blank_line(),
        earlier,
    ) by {
        if occurs_at(reply, blank_line(), earlier) {
            let found = reply.subrange(earlier, earlier + 4);
            assert(found[0] == CR && found[2] == CR);
            assert(reply[earlier] == CR);
            assert(reply[earlier + 2] == CR);
            if earlier < line.len() {
                assert(reply[earlier] == line[earlier]);
            } else if earlier < line.len() + 2 {
                assert(earlier == line.len());
                assert(reply[earlier + 2] == length_label()[0]);
            } else if earlier < line.len() + 2 + 16 {
                assert(reply[earlier] == length_label()[earlier - line.len() - 2]);
            } else {
                assert(reply[earlier] == digits[earlier - line.len() - 2 - 16]);
            }
        }
    }
    lemma_first_occurrence(reply, blank_line(), head.len() as int);
    assert(reply.take(head.len() as int) =~= head);
    assert(reply.skip(head.len() as int + 4) =~= response.content);
}

/// The head of a reply has two lines: the status line and the header that
/// gives the content length.
pub proof fn lemma_reply_lines(response: ResponseView)
    ensures
        lines_of(formatted(response)) == seq![
            status_line(response.status),
            length_label() + digits_of(response.content.len()),
        ],
{
    let line = status_line(response.status);
    let digits = digits_of(response.content.len());
    let header = length_label() + digits;
    let head = formatted_head(response);
    lemma_reply_parts(response);
    lemma_status_line_is_visible(response.status);
    lemma_length_label();
    lemma_digits_of(response.content.len());
    assert(head.subrange(line.len() as int, line.len() as int + 2) =~= line_break());
    assert forall|earlier: int| 0 <= earlier < line.len() implies !occurs_at(
        head,
        line_break(),
        earlier,
    ) by {
        if occurs_at(head, line_break(), earlier) {
            assert(head.subrange(earlier, earlier + 2)[0] == CR);
            assert(head[earlier] == line[earlier]);
        }
    }
    lemma_first_occurrence(head, line_break(), line.len() as int);
    assert(head.take(line.len() as int) =~= line);
    assert(head.skip(line.len() as int + 2) =~= header);
    assert forall|at: int| !occurs_at(header, line_break(), at) by {
        if occurs_at(header, line_break(), at) {
            assert(header.subrange(at, at + 2)[0] == CR);
            if at < 16 {
                assert(header[at] == length_label()[at]);
            } else {
                assert(header[at] == digits[at - 16]);
            }
        }
    }
    lemma_no_occurrence(header, line_break());
    assert(pieces(header, line_break()) =~= seq![header]);
    assert(pieces(head, line_break()) =~= seq![line] + pieces(header, line_break()));
    assert(lines_of(formatted(response)) =~= seq![line, header]);
}

/// Reading back what `format` wrote: the length that the reply declares is
/// the number of bytes of its content, and the content is what follows the
/// blank line, byte for byte, whatever bytes the content holds.
pub proof fn lemma_format_round_trip(response: ResponseView)
    requires
        response.content.len() <= usize::MAX,
    ensures
        declared_length(formatted(response)) == Ok::<Option<usize>, ServiceError>(
            Some(response.content.len() as usize),
        ),
        remainder_of(formatted(response)) == response.content,
        framed(remainder_of(formatted(response)), response.content.len() as usize)
            == response.content,
{
    let digits = digits_of(response.content.len());
    let header = length_label() + digits;
    lemma_reply_parts(response);
    lemma_reply_lines(response);
    lemma_length_label();
    lemma_length_name_is_distinct();
    lemma_digits_of(response.content.len());
    let lines = lines_of(formatted(response)).drop_first();
    assert(lines =~= seq![header]);
    assert(header.subrange(14, 16) =~= field_separator());
    assert forall|earlier: int| 0 <= earlier < 14 implies !occurs_at(
        header,
        field_separator(),
        earlier,
    ) by {
        if occurs_at(header, field_separator(), earlier) {
            assert(header.subrange(earlier, earlier + 2)[0] == COLON);
            assert(header[earlier] == length_label()[earlier]);
        }
    }
    lemma_first_occurrence(header, field_separator(), 14);
    assert(header.take(14) =~= "Content-Length".spec_bytes());
    assert(header.skip(16) =~= digits);
    assert(field_of(header) == Some(("Content-Length".spec_bytes(), digits)));
    let start = bare(any_request_line());
    let read = RequestView { content_length: Some(response.content.len() as usize), ..start };
    assert(with_property(start, "Content-Length".spec_bytes(), digits) == Ok::<
        RequestView,
        ServiceError,
    >(read));
    assert(lines.drop_first() =~= Seq::<Seq<u8>>::empty());
    assert(with_headers(read, lines.drop_first()) == Ok::<RequestView, ServiceError>(read));
    assert(with_headers(start, lines) == Ok::<RequestView, ServiceError>(read));
    assert(response.content.take(response.content.len() as int) =~= response.content);
}

} // verus!
