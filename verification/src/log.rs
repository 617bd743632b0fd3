//! How a line gets into the log.

use crate::paths;
use crate::utf16;
use vstd::prelude::*;

verus! {

/// What a log write wants done next.
#[derive(Debug, PartialEq, Eq)]
pub enum Request {
    /// Open the log, or make it.
    Open,
    /// Go to its end.
    SeekEnd,
    /// Write the bytes.
    Write { bytes: Vec<u8> },
    /// Close the log.
    Close,
    /// Nothing: the write is over.
    Done,
}

/// What a request says.
pub enum RequestView {
    Open,
    SeekEnd,
    Write { bytes: Seq<u8> },
    Close,
    Done,
}

impl View for Request {
    type V = RequestView;

    open spec fn view(&self) -> RequestView {
        match self {
            Request::Open => RequestView::Open,
            Request::SeekEnd => RequestView::SeekEnd,
            Request::Write { bytes } => RequestView::Write { bytes: bytes@ },
            Request::Close => RequestView::Close,
            Request::Done => RequestView::Done,
        }
    }
}

/// The first request of a log write: a log without a path takes nothing.
pub open spec fn first_request(log_file: Seq<u16>) -> RequestView {
    if utf16::nul_index(log_file) == 0 {
        RequestView::Done
    } else {
        RequestView::Open
    }
}

/// The request after one was met, or not: only a log that cannot be opened
/// stops the write. What is written is the text in UTF-8.
pub open spec fn next_request(request: RequestView, ok: bool, text: Seq<char>) -> RequestView {
    match request {
        RequestView::Open => if ok {
            RequestView::SeekEnd
        } else {
            RequestView::Done
        },
        RequestView::SeekEnd => RequestView::Write { bytes: vstd::utf8::encode_utf8(text) },
        RequestView::Write { bytes: _ } => RequestView::Close,
        RequestView::Close => RequestView::Done,
        RequestView::Done => RequestView::Done,
    }
}

/// Starts the write of a text to the log.
pub fn begin_write(log_file: &[u16]) -> (r: Request)
    ensures
        r@ == first_request(log_file@),
{
    if paths::holds_path(log_file) {
        Request::Open
    } else {
        Request::Done
    }
}

/// Goes on with the write of the text after a request was met, or not.
pub fn continue_write(request: &Request, ok: bool, text: &str) -> (r: Request)
    ensures
        r@ == next_request(request@, ok, text@),
{
    match request {
        Request::Open => if ok {
            Request::SeekEnd
        } else {
            Request::Done
        },
        Request::SeekEnd => Request::Write { bytes: text.as_bytes_vec() },
        Request::Write { bytes: _ } => Request::Close,
        Request::Close => Request::Done,
        Request::Done => Request::Done,
    }
}

/// A log that was opened gets the bytes of the text at its end and is closed,
/// whether the seek and the write succeed or not; the bytes decode to the text.
pub proof fn law_open_log_is_closed(text: Seq<char>, seek: bool, write: bool, close: bool)
    ensures
        ({
            let opened = next_request(RequestView::Open, true, text);
            let sought = next_request(opened, seek, text);
            let written = next_request(sought, write, text);
            &&& opened == RequestView::SeekEnd
            &&& sought matches RequestView::Write { bytes } && vstd::utf8::decode_utf8(bytes)
                == text
            &&& written == RequestView::Close
            &&& next_request(written, close, text) == RequestView::Done
        }),
{
    vstd::utf8::encode_utf8_decode_utf8(text);
}

/// A write starts with the log being opened exactly where the path of the log does
/// not start with a NUL and is not empty; a log that cannot be opened ends it.
pub proof fn law_log_is_opened(log_file: Seq<u16>, text: Seq<char>)
    ensures
        log_file.len() > 0 && log_file[0] != 0 ==> first_request(log_file) == RequestView::Open,
        log_file.len() == 0 || log_file[0] == 0 ==> first_request(log_file) == RequestView::Done,
        next_request(RequestView::Open, false, text) == RequestView::Done,
        next_request(RequestView::SeekEnd, true, text) == next_request(
            RequestView::SeekEnd,
            false,
            text,
        ),
{
    if log_file.len() > 0 && log_file[0] != 0 {
        lemma_index(log_file.skip(1));
    }
}

proof fn lemma_index(s: Seq<u16>)
    ensures
        utf16::nul_index(s) >= 0,
    decreases s.len(),
{
    if s.len() > 0 {
        lemma_index(s.skip(1));
    }
}

} // verus!
