use jdbhttpd::connection::{Action, Connection, Event};
use jdbhttpd::response::{not_found_response, ok_headers};

/// What a simulated client and file system saw of one connection.
struct Outcome {
    written: Vec<u8>,
    opened: Vec<String>,
    lines_read_before_first_write: Option<usize>,
    lines_read: usize,
    flushes: usize,
}

/// A connection in progress against a request and a set of files.
struct Session {
    conn: Connection,
    lines: Vec<Vec<u8>>,
    files: Vec<(String, Vec<u8>)>,
    file: Option<(Vec<u8>, usize)>,
    next: Option<Action>,
    out: Outcome,
}

fn split_lines(request: &[u8]) -> Vec<Vec<u8>> {
    request.split_inclusive(|b| *b == b'\n').map(|l| l.to_vec()).collect()
}

impl Session {
    fn new(root: &str, request: &[u8], files: &[(&str, &[u8])]) -> Session {
        Session {
            conn: Connection::new(root.as_bytes().to_vec()),
            lines: split_lines(request),
            files: files.iter().map(|(p, b)| (p.to_string(), b.to_vec())).collect(),
            file: None,
            next: Some(Action::ReadLine),
            out: Outcome {
                written: Vec::new(),
                opened: Vec::new(),
                lines_read_before_first_write: None,
                lines_read: 0,
                flushes: 0,
            },
        }
    }

    fn write(&mut self, bytes: &[u8]) -> Event {
        if self.out.lines_read_before_first_write.is_none() {
            self.out.lines_read_before_first_write = Some(self.out.lines_read);
        }
        self.out.written.extend_from_slice(bytes);
        Event::Sent(bytes.len())
    }

    /// Performs one action; false once the connection is closed.
    fn advance(&mut self) -> bool {
        let event = match self.next.take() {
            None | Some(Action::Close) => return false,
            Some(Action::ReadLine) => {
                if self.lines.is_empty() {
                    Event::Line(Vec::new())
                } else {
                    self.out.lines_read += 1;
                    Event::Line(self.lines.remove(0))
                }
            }
            Some(Action::Open(path)) => {
                let path = String::from_utf8(path).unwrap();
                self.out.opened.push(path.clone());
                match self.files.iter().find(|(p, _)| *p == path) {
                    Some((_, body)) => {
                        self.file = Some((body.clone(), 0));
                        Event::Opened
                    }
                    None => Event::OpenFailed,
                }
            }
            Some(Action::SendBlock(b)) => self.write(&b),
            Some(Action::SendChunk(b)) => self.write(&b),
            Some(Action::ReadChunk(n)) => {
                let (body, pos) = self.file.as_mut().unwrap();
                let end = (*pos + n).min(body.len());
                let chunk = body[*pos..end].to_vec();
                *pos = end;
                Event::Chunk(chunk)
            }
            Some(Action::Flush) => {
                self.out.flushes += 1;
                Event::Flushed
            }
        };
        self.next = Some(self.conn.step(event));
        true
    }
}

fn serve(root: &str, request: &[u8], files: &[(&str, &[u8])]) -> Outcome {
    let mut s = Session::new(root, request, files);
    while s.advance() {}
    assert!(s.conn.is_closed());
    s.out
}

fn ok_then(body: &[u8]) -> Vec<u8> {
    let mut v = ok_headers();
    v.extend_from_slice(body);
    v
}

#[test]
fn end_to_end_index_page() {
    let out = serve("htdocs", b"GET / HTTP/1.0\r\n\r\n", &[("htdocs/index.html", b"<b>hi</b>")]);
    let mut expected = b"HTTP/1.0 200 OK\r\nServer: jdbhttpd/0.1.0\r\nContent-Type: text/html\r\n\r\n".to_vec();
    expected.extend_from_slice(b"<b>hi</b>");
    assert_eq!(out.written, expected);
    assert_eq!(out.opened, vec!["htdocs/index.html".to_string()]);
    assert_eq!(out.flushes, 1);
}

#[test]
fn end_to_end_missing_page() {
    let out = serve("htdocs", b"GET /missing.html HTTP/1.0\r\n\r\n", &[]);
    assert_eq!(out.written, not_found_response());
    assert_eq!(out.opened, vec!["htdocs/missing.html".to_string()]);
}

#[test]
fn not_found_is_the_same_for_every_target() {
    for target in ["/", "/a/", "/x.html", "/deep/er/path.txt", "/../etc/passwd"] {
        let req = format!("GET {} HTTP/1.0\r\nHost: example\r\n\r\n", target);
        let out = serve("htdocs", req.as_bytes(), &[]);
        assert_eq!(out.written, not_found_response());
    }
}

#[test]
fn file_bytes_round_trip_for_chunk_boundaries() {
    for size in [0usize, 1, 1023, 1024, 1025, 5000] {
        let body: Vec<u8> = (0..size).map(|i| (i % 251) as u8).collect();
        let out = serve("root", b"GET /f.bin HTTP/1.0\r\n\r\n", &[("root/f.bin", &body)]);
        assert_eq!(out.written, ok_then(&body), "size {}", size);
        assert_eq!(out.flushes, 1);
    }
}

#[test]
fn one_token_request_writes_nothing() {
    let out = serve("htdocs", b"GET\r\n\r\n", &[("htdocs/index.html", b"x")]);
    assert!(out.written.is_empty());
    assert!(out.opened.is_empty());
}

#[test]
fn empty_connection_writes_nothing() {
    let out = serve("htdocs", b"", &[("htdocs/index.html", b"x")]);
    assert!(out.written.is_empty());
    assert!(out.opened.is_empty());
    let out = serve("htdocs", b"\r\n", &[("htdocs/index.html", b"x")]);
    assert!(out.written.is_empty());
}

#[test]
fn headers_are_consumed_before_any_response() {
    let req = b"GET /a.html HTTP/1.0\r\nHost: x\r\nUser-Agent: test\r\n  \r\nX: \n\r\n";
    let found = serve("d", req, &[("d/a.html", b"A")]);
    assert_eq!(found.lines_read_before_first_write, Some(6));
    assert_eq!(found.written, ok_then(b"A"));
    let missing = serve("d", req, &[]);
    assert_eq!(missing.lines_read_before_first_write, Some(6));
    assert_eq!(missing.written, not_found_response());
}

#[test]
fn bare_line_feed_ends_headers() {
    let out = serve("d", b"GET /a HTTP/1.0\nHost: x\n\n", &[("d/a", b"body")]);
    assert_eq!(out.lines_read_before_first_write, Some(3));
    assert_eq!(out.written, ok_then(b"body"));
}

#[test]
fn end_of_input_inside_headers_still_responds() {
    let out = serve("d", b"GET /a HTTP/1.0\r\nHost: x\r\n", &[("d/a", b"body")]);
    assert_eq!(out.written, ok_then(b"body"));
}

#[test]
fn directory_without_slash_is_not_found() {
    let out = serve("d", b"GET /docs HTTP/1.0\r\n\r\n", &[("d/docs/index.html", b"idx")]);
    assert_eq!(out.written, not_found_response());
    let out = serve("d", b"GET /docs/ HTTP/1.0\r\n\r\n", &[("d/docs/index.html", b"idx")]);
    assert_eq!(out.written, ok_then(b"idx"));
}

#[test]
fn two_connections_do_not_interfere() {
    let files: [(&str, &[u8]); 2] = [("r/a.txt", &[b'a'; 3000]), ("r/b.txt", &[b'b'; 2500])];
    let mut a = Session::new("r", b"GET /a.txt HTTP/1.0\r\n\r\n", &files);
    let mut b = Session::new("r", b"GET /b.txt HTTP/1.0\r\n\r\n", &files);
    loop {
        let more_a = a.advance();
        let more_b = b.advance();
        if !more_a && !more_b {
            break;
        }
    }
    assert_eq!(a.out.written, ok_then(&[b'a'; 3000]));
    assert_eq!(b.out.written, ok_then(&[b'b'; 2500]));
}

#[test]
fn read_error_during_headers_proceeds_to_response() {
    let mut c = Connection::new(b"d".to_vec());
    assert!(matches!(c.step(Event::Line(b"GET /x HTTP/1.0\r\n".to_vec())), Action::ReadLine));
    match c.step(Event::Failed) {
        Action::Open(p) => assert_eq!(p, b"d/x".to_vec()),
        _ => panic!("expected an open"),
    }
}

#[test]
fn short_chunk_write_closes_without_flush() {
    let mut c = Connection::new(b"d".to_vec());
    c.step(Event::Line(b"GET /x HTTP/1.0\r\n".to_vec()));
    c.step(Event::Line(b"\r\n".to_vec()));
    assert!(matches!(c.step(Event::Opened), Action::SendBlock(_)));
    assert!(matches!(c.step(Event::Sent(65)), Action::ReadChunk(1024)));
    assert!(matches!(c.step(Event::Chunk(vec![1, 2, 3])), Action::SendChunk(_)));
    assert!(matches!(c.step(Event::Sent(2)), Action::Close));
    assert!(c.is_closed());
}

#[test]
fn file_read_error_flushes_then_closes() {
    let mut c = Connection::new(b"d".to_vec());
    c.step(Event::Line(b"GET /x HTTP/1.0\r\n".to_vec()));
    c.step(Event::Line(b"\n".to_vec()));
    c.step(Event::Opened);
    c.step(Event::Sent(65));
    assert!(matches!(c.step(Event::Failed), Action::Flush));
    assert!(matches!(c.step(Event::Flushed), Action::Close));
    assert!(c.is_closed());
}

#[test]
fn header_write_error_closes() {
    let mut c = Connection::new(b"d".to_vec());
    c.step(Event::Line(b"GET /x HTTP/1.0\r\n".to_vec()));
    c.step(Event::Line(b"\n".to_vec()));
    c.step(Event::OpenFailed);
    assert!(matches!(c.step(Event::Failed), Action::Close));
    assert!(matches!(c.step(Event::Line(b"GET / HTTP/1.0\n".to_vec())), Action::Close));
}
