//! From the response to a download to lines of text: the status is checked,
//! the body is decompressed, decoded as UTF-8 and cut into lines.
//!
//! The request itself is made by the caller, who hands over the status code
//! and the body as received.

use crate::text::{lines_of, split_lines, texts};
use vstd::prelude::*;
use vstd::string::*;
use vstd::utf8::*;

verus! {

/// The only status under which a body is taken for the file asked for.
pub const HTTP_OK: u16 = 200;

/// The server answered with a status other than [`HTTP_OK`].
#[derive(Debug, Clone, Copy, PartialEq, Eq, Structural)]
pub struct FetchError {
    pub status: u16,
}

/// The body was received but holds no text.
#[derive(Debug, Clone, Copy, PartialEq, Eq, Structural)]
pub enum DecodeError {
    /// The body is no complete, intact gzip member.
    Gzip,
    /// The decompressed bytes are not UTF-8.
    Utf8,
}

/// Why a download gave no lines.
#[derive(Debug, Clone, Copy, PartialEq, Eq, Structural)]
pub enum DownloadError {
    Fetch(FetchError),
    Decode(DecodeError),
}

/// The words that tell a download error.
pub open spec fn message_text(error: DownloadError) -> Seq<char> {
    match error {
        DownloadError::Fetch(_) => "Failed to fetch the index file"@,
        DownloadError::Decode(DecodeError::Gzip) => "Failed to decompress the response body"@,
        DownloadError::Decode(DecodeError::Utf8) => "The decompressed body is not UTF-8 text"@,
    }
}

impl DownloadError {
    /// The words that tell this error.
    pub fn message(&self) -> (r: String)
        ensures
            r@ == message_text(*self),
    {
        let words = match self {
            DownloadError::Fetch(_) => "Failed to fetch the index file",
            DownloadError::Decode(DecodeError::Gzip) => "Failed to decompress the response body",
            DownloadError::Decode(DecodeError::Utf8) => "The decompressed body is not UTF-8 text",
        };
        String::from_str(words)
    }
}

/// What `flate2`'s gzip reader gives for `body`: the decompressed content of
/// the first gzip member, or `None` where reading it fails.
pub uninterp spec fn gzip_decoded(body: Seq<u8>) -> Option<Seq<u8>>;

/// Calls `flate2::read::GzDecoder::new` on the body and reads the decoder to
/// its end with `std::io::Read::read_to_end`. Nothing is proved of this
/// function: the contract only gives its result the name [`gzip_decoded`],
/// with a read error as `None`.
#[verifier::external_body]
fn gunzip(body: &[u8]) -> (r: Option<Vec<u8>>)
    ensures
        match r {
            Some(raw) => gzip_decoded(body@) == Some(raw@),
            None => gzip_decoded(body@) is None,
        },
{
    let mut raw = Vec::new();
    match std::io::Read::read_to_end(&mut flate2::read::GzDecoder::new(body), &mut raw) {
        Ok(_) => Some(raw),
        Err(_) => None,
    }
}

/// Calls `String::from_utf8`. Nothing is proved of this function: the
/// contract restates std's documentation, that the call succeeds exactly on
/// well-formed UTF-8 and then gives the text that the bytes encode.
#[verifier::external_body]
fn utf8_text(raw: Vec<u8>) -> (r: Option<String>)
    ensures
        match r {
            Some(text) => valid_utf8(raw@) && text@ == decode_utf8(raw@),
            None => !valid_utf8(raw@),
        },
{
    match String::from_utf8(raw) {
        Ok(text) => Some(text),
        Err(_) => None,
    }
}

/// The lines that decompressed bytes hold.
pub open spec fn text_lines(raw: Seq<u8>) -> Result<Seq<Seq<char>>, DecodeError> {
    if valid_utf8(raw) {
        Ok(lines_of(decode_utf8(raw)))
    } else {
        Err(DecodeError::Utf8)
    }
}

/// The lines that a compressed body holds.
pub open spec fn body_lines(body: Seq<u8>) -> Result<Seq<Seq<char>>, DecodeError> {
    match gzip_decoded(body) {
        Some(raw) => text_lines(raw),
        None => Err(DecodeError::Gzip),
    }
}

/// The lines that a response gives. Under any status but [`HTTP_OK`] the
/// body plays no part.
pub open spec fn response_lines(status: u16, body: Seq<u8>) -> Result<
    Seq<Seq<char>>,
    DownloadError,
> {
    if status != HTTP_OK {
        Err(DownloadError::Fetch(FetchError { status }))
    } else {
        match body_lines(body) {
            Ok(lines) => Ok(lines),
            Err(e) => Err(DownloadError::Decode(e)),
        }
    }
}

/// A result of lines, seen as the texts of the lines.
pub open spec fn lines_view<E>(r: Result<Vec<String>, E>) -> Result<Seq<Seq<char>>, E> {
    match r {
        Ok(lines) => Ok(texts(lines@)),
        Err(e) => Err(e),
    }
}

/// Accepts the status [`HTTP_OK`] and refuses every other one.
pub fn check_status(status: u16) -> (r: Result<(), FetchError>)
    ensures
        r == if status == HTTP_OK {
            Ok::<(), FetchError>(())
        } else {
            Err(FetchError { status })
        },
{
    if status == HTTP_OK {
        Ok(())
    } else {
        Err(FetchError { status })
    }
}

/// Decodes decompressed bytes as UTF-8 and cuts the text into lines.
pub fn lines_from_utf8(raw: Vec<u8>) -> (r: Result<Vec<String>, DecodeError>)
    ensures
        lines_view(r) == text_lines(raw@),
{
    match utf8_text(raw) {
        Some(text) => Ok(split_lines(text.as_str())),
        None => Err(DecodeError::Utf8),
    }
}

/// Decompresses a gzip body and cuts the text it holds into lines.
pub fn decode_body(body: &[u8]) -> (r: Result<Vec<String>, DecodeError>)
    ensures
        lines_view(r) == body_lines(body@),
{
    match gunzip(body) {
        Some(raw) => lines_from_utf8(raw),
        None => Err(DecodeError::Gzip),
    }
}

/// The lines of the file that a response carries. A response under any
/// status but [`HTTP_OK`] is refused as it is: its body is not decompressed,
/// and the result does not depend on it.
pub fn decode_response(status: u16, body: &[u8]) -> (r: Result<Vec<String>, DownloadError>)
    ensures
        lines_view(r) == response_lines(status, body@),
        status != HTTP_OK ==> r == Err::<Vec<String>, DownloadError>(
            DownloadError::Fetch(FetchError { status }),
        ),
{
    match check_status(status) {
        Err(e) => Err(DownloadError::Fetch(e)),
        Ok(_) => match decode_body(body) {
            Ok(lines) => Ok(lines),
            Err(e) => Err(DownloadError::Decode(e)),
        },
    }
}

} // verus!
