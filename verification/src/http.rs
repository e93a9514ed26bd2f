//! The minimal HTTP/1.1 exchange that the demo client has with the
//! management socket: building a request head and reading a response.

use vstd::prelude::*;
use vstd::string::{StringExecFns, StringSliceAdditionalSpecFns};
use vstd::utf8::{decode_utf8, encode_utf8_decode_utf8, valid_utf8};
use crate::text::{
    chars_of, extend_chars, find_seq, find_first, lemma_find_first,
    slice_chars, string_of, concat, decimal, decimal_string,
};

verus! {

/// Declares `core::str::Utf8Error`, the error of `std::str::from_utf8`; it is
/// carried as it is and nothing is read from it.
#[verifier::external_type_specification]
#[verifier::external_body]
pub struct ExUtf8Error(core::str::Utf8Error);

/// Calls `std::str::from_utf8`. Claimed: it succeeds exactly when the bytes
/// are valid UTF-8 (vstd's `valid_utf8`), and the string it returns is
/// encoded by exactly the given bytes. Nothing is claimed of the error value.
#[verifier::external_body]
fn str_from_utf8(bytes: &[u8]) -> (r: Result<&str, core::str::Utf8Error>)
    ensures
        r is Ok <==> valid_utf8(bytes@),
        r matches Ok(s) ==> s.spec_bytes() == bytes@,
{
    core::str::from_utf8(bytes)
}

/// Why a response was not accepted.
#[derive(Debug)]
pub enum HttpResponseError {
    /// The response is not UTF-8.
    InvalidUtf8(core::str::Utf8Error),
    /// No blank line separates the head from the body.
    MissingSeparator,
    /// The status line is not a 2xx status: `"<status line>: <body>"`.
    Status(String),
}

/// The blank line that ends an HTTP head.
pub open spec fn head_end() -> Seq<char> {
    seq!['\r', '\n', '\r', '\n']
}

/// A line without the `'\r'` that ended it, if any.
pub open spec fn strip_cr(line: Seq<char>) -> Seq<char> {
    if line.len() > 0 && line.last() == '\r' {
        line.drop_last()
    } else {
        line
    }
}

/// The first line of `text` as `str::lines` yields it (empty text gives the
/// empty line): up to the first `'\n'`, without a `'\r'` just before it.
pub open spec fn first_line(text: Seq<char>) -> Seq<char> {
    match find_first(text, seq!['\n']) {
        Some(j) => strip_cr(text.take(j)),
        None => text,
    }
}

/// How a decoded response is judged.
pub enum HttpReply {
    /// A 2xx status; the body.
    Body(Seq<char>),
    /// No head/body separator.
    NoSeparator,
    /// Not 2xx; the text `"<status line>: <body>"`.
    Rejected(Seq<char>),
}

/// The status code of a status line: its second space-separated token
/// (`HTTP/1.1 200 OK` has `200`); empty when the line has no space.
pub open spec fn status_code(status: Seq<char>) -> Seq<char> {
    match find_first(status, seq![' ']) {
        None => Seq::empty(),
        Some(i) => {
            let rest = status.skip(i + 1);
            match find_first(rest, seq![' ']) {
                None => rest,
                Some(j) => rest.take(j),
            }
        },
    }
}

/// A decimal digit character.
pub open spec fn is_ascii_digit(c: char) -> bool {
    48 <= (c as u32) <= 57
}

/// A success status: three decimal digits from `200` to `299`.
pub open spec fn is_success_code(code: Seq<char>) -> bool {
    code.len() == 3 && code[0] == '2' && is_ascii_digit(code[1]) && is_ascii_digit(code[2])
}

/// The head ends at the first blank line; the body is returned exactly when
/// the status code of the first line is a 2xx code.
pub open spec fn http_reply(text: Seq<char>) -> HttpReply {
    match find_first(text, head_end()) {
        None => HttpReply::NoSeparator,
        Some(p) => {
            let head = text.take(p);
            let body = text.skip(p + 4);
            let status = first_line(head);
            if is_success_code(status_code(status)) {
                HttpReply::Body(body)
            } else {
                HttpReply::Rejected(status + seq![':', ' '] + body)
            }
        },
    }
}

/// The status code of a status line.
fn status_code_chars(status: &[char]) -> (code: Vec<char>)
    ensures
        code@ == status_code(status@),
{
    let sp: Vec<char> = vec![' '];
    assert(sp@ == seq![' ']);
    match find_seq(status, sp.as_slice()) {
        None => Vec::new(),
        Some(i) => {
            proof {
                lemma_find_first(status@, sp@);
            }
            let n = status.len();
            let rest = slice_chars(status, i + 1, n);
            assert(rest@ =~= status@.skip(i + 1));
            match find_seq(rest.as_slice(), sp.as_slice()) {
                None => rest,
                Some(j) => {
                    proof {
                        lemma_find_first(rest@, sp@);
                    }
                    let code = slice_chars(rest.as_slice(), 0, j);
                    assert(code@ =~= rest@.take(j as int));
                    code
                },
            }
        },
    }
}

/// Whether a status code is a 2xx code.
fn is_success_code_exec(code: &[char]) -> (r: bool)
    ensures
        r == is_success_code(code@),
{
    code.len() == 3 && code[0] == '2' && 48 <= (code[1] as u32) && (code[1] as u32) <= 57 && 48 <= (
    code[2] as u32) && (code[2] as u32) <= 57
}

/// The first line of `text`.
fn first_line_chars(text: &[char]) -> (line: Vec<char>)
    ensures
        line@ == first_line(text@),
{
    let nl: Vec<char> = vec!['\n'];
    assert(nl@ == seq!['\n']);
    match find_seq(text, nl.as_slice()) {
        Some(j) => {
            proof {
                lemma_find_first(text@, nl@);
            }
            let mut line = slice_chars(text, 0, j);
            assert(line@ == text@.take(j as int));
            if line.len() > 0 && line[line.len() - 1] == '\r' {
                let ghost full = line@;
                line.pop();
                assert(line@ == full.drop_last());
            }
            line
        },
        None => {
            let line = slice_chars(text, 0, text.len());
            assert(line@ =~= text@);
            line
        },
    }
}

/// Return the response body for any 2xx HTTP status.
pub fn parse_http_response(response: &[u8]) -> (r: Result<String, HttpResponseError>)
    ensures
        !valid_utf8(response@) <==> r matches Err(HttpResponseError::InvalidUtf8(_)),
        valid_utf8(response@) ==> match http_reply(decode_utf8(response@)) {
            HttpReply::Body(b) => r matches Ok(s) && s@ == b,
            HttpReply::NoSeparator => r matches Err(HttpResponseError::MissingSeparator),
            HttpReply::Rejected(m) => r matches Err(HttpResponseError::Status(t)) && t@ == m,
        },
{
    let text = match str_from_utf8(response) {
        Ok(s) => s,
        Err(e) => return Err(HttpResponseError::InvalidUtf8(e)),
    };
    proof {
        encode_utf8_decode_utf8(text@);
    }
    let chars = chars_of(text);
    assert(chars@ == decode_utf8(response@));
    let sep: Vec<char> = vec!['\r', '\n', '\r', '\n'];
    assert(sep@ == head_end());
    let p = match find_seq(chars.as_slice(), sep.as_slice()) {
        Some(p) => p,
        None => return Err(HttpResponseError::MissingSeparator),
    };
    proof {
        lemma_find_first(chars@, sep@);
    }
    let n = chars.len();
    assert(p + 4 <= n);
    let head = slice_chars(chars.as_slice(), 0, p);
    let body = slice_chars(chars.as_slice(), p + 4, n);
    assert(head@ == chars@.take(p as int));
    assert(body@ == chars@.skip(p + 4));
    let status = first_line_chars(head.as_slice());
    let code = status_code_chars(status.as_slice());
    if !is_success_code_exec(code.as_slice()) {
        let mut msg = status;
        let ghost st = msg@;
        let colon: Vec<char> = vec![':', ' '];
        extend_chars(&mut msg, colon.as_slice());
        extend_chars(&mut msg, body.as_slice());
        assert(msg@ == st + seq![':', ' '] + body@);
        return Err(HttpResponseError::Status(string_of(msg.as_slice())));
    }
    Ok(string_of(body.as_slice()))
}


/// The head of a request with a JSON body of `body_len` bytes, sent with
/// `Connection: close`.
pub open spec fn request_head(request_line: Seq<char>, body_len: nat) -> Seq<char> {
    request_line + "\r\nHost: qmp-uds-mon-manager\r\nContent-Type: application/json\r\nContent-Length: "@
        + decimal(body_len) + "\r\nConnection: close\r\n\r\n"@
}

/// Build the head of a minimal HTTP/1.1 request over the management socket.
pub fn http_request_head(request_line: &str, body_len: usize) -> (r: String)
    ensures
        r@ == request_head(request_line@, body_len as nat),
{
    let mut head = concat(
        request_line,
        "\r\nHost: qmp-uds-mon-manager\r\nContent-Type: application/json\r\nContent-Length: ",
    );
    head.append(decimal_string(body_len).as_str());
    head.append("\r\nConnection: close\r\n\r\n");
    head
}

/// The request line that registers VM `id`.
pub fn register_request_line(id: &str) -> (r: String)
    ensures
        r@ == "PUT /vms/"@ + id@ + " HTTP/1.1"@,
{
    let mut line = concat("PUT /vms/", id);
    line.append(" HTTP/1.1");
    line
}

/// The request line that unregisters VM `id`.
pub fn unregister_request_line(id: &str) -> (r: String)
    ensures
        r@ == "DELETE /vms/"@ + id@ + " HTTP/1.1"@,
{
    let mut line = concat("DELETE /vms/", id);
    line.append(" HTTP/1.1");
    line
}

} // verus!
