//! The per-connection protocol as a state machine. The caller performs each
//! [`Action`] on the socket or the file system and hands back what happened
//! as an [`Event`]; the machine decides what to do next. It holds no I/O of
//! its own and shares nothing with other connections.
//!
//! A connection starts by reading the request line. An empty read or a line
//! with fewer than two tokens closes it without a response (no `400` is
//! sent). Otherwise the target is resolved, the header lines are read and
//! dropped up to the blank line (or end of input, or a read error), and only
//! then is the path opened: if that fails the fixed `404` document is sent,
//! else the `200` header block and the file in chunks of [`CHUNK_SIZE`]
//! bytes, each written whole, with one flush at the end.
use vstd::prelude::*;
use crate::request::{has_two_tokens, is_blank, is_blank_line, parse_request_line, target_of};
use crate::resolve::{resolve, resolved_path};
use crate::response::{not_found_page, not_found_response, ok_header_block, ok_headers, CHUNK_SIZE};

verus! {

/// What the caller observed after performing the last action.
pub enum Event {
    /// A line was read, terminator included; empty at end of input.
    Line(Vec<u8>),
    /// The resolved path was opened for reading.
    Opened,
    /// The resolved path could not be opened for reading.
    OpenFailed,
    /// Bytes were read from the file; empty at end of file.
    Chunk(Vec<u8>),
    /// This many bytes were written to the client.
    Sent(usize),
    /// The output was flushed (successfully or not).
    Flushed,
    /// The read or write failed.
    Failed,
}

/// What the caller is to do next.
pub enum Action {
    /// Read one line from the client.
    ReadLine,
    /// Open this path for reading.
    Open(Vec<u8>),
    /// Write these bytes whole to the client and flush.
    SendBlock(Vec<u8>),
    /// Read up to this many bytes from the opened file.
    ReadChunk(usize),
    /// Write these bytes to the client in one write, reporting the count.
    SendChunk(Vec<u8>),
    /// Flush the output.
    Flush,
    /// Close the connection (and the file, if one is open).
    Close,
}

/// Where a connection stands.
pub enum Phase {
    /// Waiting for the request line.
    RequestLine,
    /// Dropping header lines; the resolved path is kept.
    Headers(Vec<u8>),
    /// Waiting for the readability check of the resolved path.
    Opening(Vec<u8>),
    /// The `404` document is being sent.
    NotFound,
    /// The `200` header block is being sent.
    OkHeaders,
    /// Waiting for the next chunk of the file.
    Body,
    /// A chunk of this many bytes is being written.
    Chunk(usize),
    /// The final flush is under way.
    Finishing,
    /// Nothing more will happen.
    Closed,
}

/// The mathematical form of [`Event`].
pub enum SpecEvent {
    Line(Seq<u8>),
    Opened,
    OpenFailed,
    Chunk(Seq<u8>),
    Sent(nat),
    Flushed,
    Failed,
}

/// The mathematical form of [`Action`].
pub enum SpecAction {
    ReadLine,
    Open(Seq<u8>),
    SendBlock(Seq<u8>),
    ReadChunk(nat),
    SendChunk(Seq<u8>),
    Flush,
    Close,
}

/// The mathematical form of [`Phase`].
pub enum SpecPhase {
    RequestLine,
    Headers(Seq<u8>),
    Opening(Seq<u8>),
    NotFound,
    OkHeaders,
    Body,
    Chunk(nat),
    Finishing,
    Closed,
}

impl View for Event {
    type V = SpecEvent;

    open spec fn view(&self) -> SpecEvent {
        match self {
            Event::Line(l) => SpecEvent::Line(l@),
            Event::Opened => SpecEvent::Opened,
            Event::OpenFailed => SpecEvent::OpenFailed,
            Event::Chunk(c) => SpecEvent::Chunk(c@),
            Event::Sent(n) => SpecEvent::Sent(*n as nat),
            Event::Flushed => SpecEvent::Flushed,
            Event::Failed => SpecEvent::Failed,
        }
    }
}

impl View for Action {
    type V = SpecAction;

    open spec fn view(&self) -> SpecAction {
        match self {
            Action::ReadLine => SpecAction::ReadLine,
            Action::Open(p) => SpecAction::Open(p@),
            Action::SendBlock(b) => SpecAction::SendBlock(b@),
            Action::ReadChunk(n) => SpecAction::ReadChunk(*n as nat),
            Action::SendChunk(b) => SpecAction::SendChunk(b@),
            Action::Flush => SpecAction::Flush,
            Action::Close => SpecAction::Close,
        }
    }
}

impl View for Phase {
    type V = SpecPhase;

    open spec fn view(&self) -> SpecPhase {
        match self {
            Phase::RequestLine => SpecPhase::RequestLine,
            Phase::Headers(p) => SpecPhase::Headers(p@),
            Phase::Opening(p) => SpecPhase::Opening(p@),
            Phase::NotFound => SpecPhase::NotFound,
            Phase::OkHeaders => SpecPhase::OkHeaders,
            Phase::Body => SpecPhase::Body,
            Phase::Chunk(n) => SpecPhase::Chunk(*n as nat),
            Phase::Finishing => SpecPhase::Finishing,
            Phase::Closed => SpecPhase::Closed,
        }
    }
}

/// The terminal step: close, and stay closed.
pub open spec fn closing() -> (SpecPhase, SpecAction) {
    (SpecPhase::Closed, SpecAction::Close)
}

/// Whether a header line ends the header block: a blank line, or end of input.
pub open spec fn ends_headers(l: Seq<u8>) -> bool {
    l.len() == 0 || is_blank_line(l)
}

/// One step of the protocol: from a phase and an event under document root
/// `root`, the next phase and the action to perform.
pub open spec fn next(root: Seq<u8>, p: SpecPhase, e: SpecEvent) -> (SpecPhase, SpecAction) {
    match p {
        SpecPhase::RequestLine => match e {
            SpecEvent::Line(l) => if has_two_tokens(l) {
                (SpecPhase::Headers(resolved_path(root, target_of(l))), SpecAction::ReadLine)
            } else {
                closing()
            },
            _ => closing(),
        },
        SpecPhase::Headers(path) => match e {
            SpecEvent::Line(l) => if ends_headers(l) {
                (SpecPhase::Opening(path), SpecAction::Open(path))
            } else {
                (SpecPhase::Headers(path), SpecAction::ReadLine)
            },
            SpecEvent::Failed => (SpecPhase::Opening(path), SpecAction::Open(path)),
            _ => closing(),
        },
        SpecPhase::Opening(_) => match e {
            SpecEvent::Opened => (SpecPhase::OkHeaders, SpecAction::SendBlock(ok_header_block())),
            SpecEvent::OpenFailed => (SpecPhase::NotFound, SpecAction::SendBlock(not_found_page())),
            _ => closing(),
        },
        SpecPhase::OkHeaders => match e {
            SpecEvent::Sent(_) => (SpecPhase::Body, SpecAction::ReadChunk(CHUNK_SIZE as nat)),
            _ => closing(),
        },
        SpecPhase::Body => match e {
            SpecEvent::Chunk(c) => if c.len() == 0 {
                (SpecPhase::Finishing, SpecAction::Flush)
            } else {
                (SpecPhase::Chunk(c.len()), SpecAction::SendChunk(c))
            },
            SpecEvent::Failed => (SpecPhase::Finishing, SpecAction::Flush),
            _ => closing(),
        },
        SpecPhase::Chunk(len) => match e {
            SpecEvent::Sent(n) => if n == len {
                (SpecPhase::Body, SpecAction::ReadChunk(CHUNK_SIZE as nat))
            } else {
                closing()
            },
            SpecEvent::Failed => (SpecPhase::Finishing, SpecAction::Flush),
            _ => closing(),
        },
        SpecPhase::NotFound | SpecPhase::Finishing | SpecPhase::Closed => closing(),
    }
}

/// One client connection: the document root and the current phase.
pub struct Connection {
    root: Vec<u8>,
    phase: Phase,
}

impl Connection {
    /// The document root.
    pub closed spec fn root_view(&self) -> Seq<u8> {
        self.root@
    }

    /// The current phase.
    pub closed spec fn phase_view(&self) -> SpecPhase {
        self.phase@
    }

    /// A connection under `root`, waiting for the request line; the first
    /// action is [`Action::ReadLine`].
    pub fn new(root: Vec<u8>) -> (r: Connection)
        ensures
            r.root_view() == root@,
            r.phase_view() == SpecPhase::RequestLine,
    {
        Connection { root, phase: Phase::RequestLine }
    }

    /// Whether the connection is closed.
    pub fn is_closed(&self) -> (r: bool)
        ensures
            r == (self.phase_view() == SpecPhase::Closed),
    {
        match self.phase {
            Phase::Closed => true,
            _ => false,
        }
    }

    fn close(&mut self) -> (a: Action)
        ensures
            final(self).root_view() == old(self).root_view(),
            (final(self).phase_view(), a@) == closing(),
    {
        self.phase = Phase::Closed;
        Action::Close
    }

    /// Takes the outcome of the last action and returns the next one.
    pub fn step(&mut self, event: Event) -> (a: Action)
        ensures
            final(self).root_view() == old(self).root_view(),
            (final(self).phase_view(), a@) == next(
                old(self).root_view(),
                old(self).phase_view(),
                event@,
            ),
    {
        match (&self.phase, event) {
            (Phase::RequestLine, Event::Line(line)) => match parse_request_line(&line) {
                Some(req) => {
                    self.phase = Phase::Headers(resolve(&self.root, &req.target));
                    Action::ReadLine
                },
                None => self.close(),
            },
            (Phase::Headers(path), Event::Line(line)) => {
                if line.len() == 0 || is_blank(&line) {
                    let path = path.clone();
                    self.phase = Phase::Opening(path.clone());
                    Action::Open(path)
                } else {
                    Action::ReadLine
                }
            },
            (Phase::Headers(path), Event::Failed) => {
                let path = path.clone();
                self.phase = Phase::Opening(path.clone());
                Action::Open(path)
            },
            (Phase::Opening(_), Event::Opened) => {
                self.phase = Phase::OkHeaders;
                Action::SendBlock(ok_headers())
            },
            (Phase::Opening(_), Event::OpenFailed) => {
                self.phase = Phase::NotFound;
                Action::SendBlock(not_found_response())
            },
            (Phase::OkHeaders, Event::Sent(_)) => {
                self.phase = Phase::Body;
                Action::ReadChunk(CHUNK_SIZE)
            },
            (Phase::Body, Event::Chunk(c)) => {
                if c.len() == 0 {
                    self.phase = Phase::Finishing;
                    Action::Flush
                } else {
                    self.phase = Phase::Chunk(c.len());
                    Action::SendChunk(c)
                }
            },
            (Phase::Body, Event::Failed) | (Phase::Chunk(_), Event::Failed) => {
                self.phase = Phase::Finishing;
                Action::Flush
            },
            (Phase::Chunk(len), Event::Sent(n)) => {
                if n == *len {
                    self.phase = Phase::Body;
                    Action::ReadChunk(CHUNK_SIZE)
                } else {
                    self.close()
                }
            },
            _ => self.close(),
        }
    }
}

} // verus!
