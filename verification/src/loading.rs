//! How a file gets into memory: which calls it takes, and when it is given up.

use crate::ini_file;
use crate::ini_file::IniFile;
use crate::utf16;
use vstd::prelude::*;

verus! {

/// What the system says of a file whose size it cannot tell.
pub const INVALID_FILE_SIZE: u32 = 0xFFFF_FFFF;

/// What the load wants done next.
#[derive(Clone, Copy, Debug, PartialEq, Eq, Structural)]
pub enum Request {
    /// Open the file.
    Open,
    /// Ask for its size.
    Size,
    /// Read that many bytes.
    Read { size: u32 },
    /// Close the file.
    Close,
    /// Nothing: the load is over.
    Done,
}

/// What came of it.
pub enum Event {
    /// Whether the file was opened.
    Opened { open: bool },
    /// The size of the file.
    Size { size: u32 },
    /// Whether the read succeeded, the buffer, and how many bytes of it were read.
    Read { ok: bool, buffer: Vec<u8>, bytes_read: u32 },
    /// The file was closed.
    Closed,
}

/// A load.
pub struct FileLoad {
    /// The path, with a NUL at its end.
    pub path: Vec<u16>,
    pub request: Request,
    /// What was read, once it was.
    pub contents: Option<Vec<u8>>,
}

/// What an event says.
pub enum EventView {
    Opened { open: bool },
    Size { size: u32 },
    Read { ok: bool, buffer: Seq<u8>, bytes_read: u32 },
    Closed,
}

impl View for Event {
    type V = EventView;

    open spec fn view(&self) -> EventView {
        match self {
            Event::Opened { open } => EventView::Opened { open: *open },
            Event::Size { size } => EventView::Size { size: *size },
            Event::Read { ok, buffer, bytes_read } => EventView::Read {
                ok: *ok,
                buffer: buffer@,
                bytes_read: *bytes_read,
            },
            Event::Closed => EventView::Closed,
        }
    }
}

/// What a load says.
pub struct LoadView {
    pub path: Seq<u16>,
    pub request: Request,
    pub contents: Option<Seq<u8>>,
}

impl View for FileLoad {
    type V = LoadView;

    open spec fn view(&self) -> LoadView {
        LoadView {
            path: self.path@,
            request: self.request,
            contents: match self.contents {
                Some(c) => Some(c@),
                None => None,
            },
        }
    }
}

/// Whether the event answers the request.
pub open spec fn answers(request: Request, event: EventView) -> bool {
    match request {
        Request::Open => event is Opened,
        Request::Size => event is Size,
        Request::Read { size: _ } => event is Read,
        Request::Close => event is Closed,
        Request::Done => false,
    }
}

/// The part of the buffer that was read.
pub open spec fn read_part(buffer: Seq<u8>, bytes_read: u32) -> Seq<u8> {
    if bytes_read < buffer.len() {
        buffer.take(bytes_read as int)
    } else {
        buffer
    }
}

/// The load after the event.
pub open spec fn after(load: LoadView, event: EventView) -> LoadView {
    match event {
        EventView::Opened { open } => LoadView {
            request: if open {
                Request::Size
            } else {
                Request::Done
            },
            ..load
        },
        EventView::Size { size } => LoadView {
            request: if size == INVALID_FILE_SIZE || size == 0 {
                Request::Close
            } else {
                Request::Read { size }
            },
            ..load
        },
        EventView::Read { ok, buffer, bytes_read } => LoadView {
            request: Request::Close,
            contents: if ok {
                Some(read_part(buffer, bytes_read))
            } else {
                load.contents
            },
            ..load
        },
        EventView::Closed => LoadView { request: Request::Done, ..load },
    }
}

impl FileLoad {
    /// The start of the load of a file.
    pub fn new(path: &[u16]) -> (r: FileLoad)
        ensures
            r@ == (LoadView {
                path: utf16::with_nul(path@),
                request: Request::Open,
                contents: None,
            }),
    {
        FileLoad { path: utf16::nul_terminated(path), request: Request::Open, contents: None }
    }

    /// Takes the answer to the request, and makes the next one.
    pub fn step(&mut self, event: Event)
        requires
            answers(old(self)@.request, event@),
        ensures
            final(self)@ == after(old(self)@, event@),
    {
        match event {
            Event::Opened { open } => {
                self.request = if open {
                    Request::Size
                } else {
                    Request::Done
                };
            },
            Event::Size { size } => {
                self.request = if size == INVALID_FILE_SIZE || size == 0 {
                    Request::Close
                } else {
                    Request::Read { size }
                };
            },
            Event::Read { ok, buffer, bytes_read } => {
                self.request = Request::Close;
                if ok {
                    let mut read = buffer;
                    read.truncate(bytes_read as usize);
                    assert(read@ =~= read_part(buffer@, bytes_read));
                    self.contents = Some(read);
                }
            },
            Event::Closed => {
                self.request = Request::Done;
            },
        }
    }

    /// The configuration in what was loaded; `None` where nothing was.
    pub fn into_ini(self) -> (r: Option<IniFile>)
        ensures
            match self@.contents {
                Some(raw) => r is Some && r->0@ == ini_file::parsed(raw),
                None => r is None,
            },
    {
        match self.contents {
            Some(raw) => IniFile::open(Some(raw.as_slice())),
            None => IniFile::open(None),
        }
    }
}

/// The start of the load of a file.
pub open spec fn started(path: Seq<u16>) -> LoadView {
    LoadView { path: utf16::with_nul(path), request: Request::Open, contents: None }
}

/// The load of a file that can be opened, has a size and can be read asks for
/// the size, for that many bytes, and for the file to be closed, and ends with
/// exactly the bytes that were read, each in its place, however many they are.
pub proof fn law_readable_file_is_loaded(
    path: Seq<u16>,
    size: u32,
    buffer: Seq<u8>,
    bytes_read: u32,
)
    requires
        size != 0,
        size != 0xFFFF_FFFF,
    ensures
        ({
            let opened = after(started(path), EventView::Opened { open: true });
            let sized = after(opened, EventView::Size { size });
            let read = after(sized, EventView::Read { ok: true, buffer, bytes_read });
            let closed = after(read, EventView::Closed);
            &&& started(path).request == Request::Open
            &&& opened.request == Request::Size
            &&& sized.request == (Request::Read { size })
            &&& read.request == Request::Close
            &&& closed.request == Request::Done
            &&& bytes_read <= buffer.len() ==> closed.contents == Some(
                buffer.take(bytes_read as int),
            )
            &&& bytes_read > buffer.len() ==> closed.contents == Some(buffer)
            &&& closed.path == started(path).path
        }),
{
    assert(buffer.take(buffer.len() as int) =~= buffer);
}

/// The path that is opened is the path that was given, and it ends in a NUL: one
/// is added exactly where none is last.
pub proof fn law_opened_path(path: Seq<u16>)
    ensures
        started(path).path.len() > 0,
        started(path).path.last() == 0,
        path.len() > 0 && path.last() == 0 ==> started(path).path == path,
        path.len() == 0 || path.last() != 0 ==> started(path).path.drop_last() == path,
{
    assert(path.push(0).drop_last() =~= path);
}

/// The load of a file that cannot be opened, has no size or cannot be read ends
/// with nothing, and closes the file exactly where it was opened.
pub proof fn law_unreadable_file_is_given_up(
    path: Seq<u16>,
    size: u32,
    buffer: Seq<u8>,
    bytes_read: u32,
)
    ensures
        ({
            let refused = after(started(path), EventView::Opened { open: false });
            let opened = after(started(path), EventView::Opened { open: true });
            let sized = after(opened, EventView::Size { size });
            let failed = after(sized, EventView::Read { ok: false, buffer, bytes_read });
            &&& refused.request == Request::Done && refused.contents is None
            &&& size == 0 || size == 0xFFFF_FFFF ==> sized.request == Request::Close
                && after(sized, EventView::Closed).request == Request::Done && after(
                sized,
                EventView::Closed,
            ).contents is None
            &&& size != 0 && size != 0xFFFF_FFFF ==> failed.request == Request::Close
                && after(failed, EventView::Closed).request == Request::Done && after(
                failed,
                EventView::Closed,
            ).contents is None
        }),
{
}

/// Every answer to what was asked for is taken, whatever it says.
pub proof fn law_answers_are_taken(
    open: bool,
    asked: u32,
    size: u32,
    ok: bool,
    buffer: Seq<u8>,
    bytes_read: u32,
)
    ensures
        answers(Request::Open, EventView::Opened { open }),
        answers(Request::Size, EventView::Size { size }),
        answers(Request::Read { size: asked }, EventView::Read { ok, buffer, bytes_read }),
        answers(Request::Close, EventView::Closed),
{
}

} // verus!
