//! Response framing: the fixed `404` document and the `200` header block.
//! Every line ends in CR LF; every file is declared `text/html`.
use vstd::prelude::*;
use vstd::string::StringSliceAdditionalSpecFns;
use crate::bytes::push_all;

verus! {

/// How many bytes of a file are read per chunk.
pub const CHUNK_SIZE: usize = 1024;

/// The server identification header line.
pub open spec fn server_line() -> Seq<u8> {
    "Server: jdbhttpd/0.1.0\r\n".spec_bytes()
}

/// The content type header line.
pub open spec fn content_type_line() -> Seq<u8> {
    "Content-Type: text/html\r\n".spec_bytes()
}

/// The blank line that ends a header block.
pub open spec fn crlf() -> Seq<u8> {
    "\r\n".spec_bytes()
}

/// The complete response sent when the target cannot be opened.
pub open spec fn not_found_page() -> Seq<u8> {
    "HTTP/1.0 404 NOT FOUND\r\n".spec_bytes() + server_line() + content_type_line() + crlf()
        + "<HTML><TITLE>Not Found</TITLE>\r\n".spec_bytes()
        + "<BODY><P>The server could not fulfill\r\n".spec_bytes()
        + "your request because the resource specified\r\n".spec_bytes()
        + "is unavailable or nonexistent.\r\n".spec_bytes() + "</BODY></HTML>\r\n".spec_bytes()
}

/// The header block that precedes a file's bytes.
pub open spec fn ok_header_block() -> Seq<u8> {
    "HTTP/1.0 200 OK\r\n".spec_bytes() + server_line() + content_type_line() + crlf()
}

/// The bytes of the `404 NOT FOUND` response, body included.
pub fn not_found_response() -> (r: Vec<u8>)
    ensures
        r@ == not_found_page(),
{
    let mut r: Vec<u8> = Vec::new();
    push_all(&mut r, "HTTP/1.0 404 NOT FOUND\r\n".as_bytes());
    push_all(&mut r, "Server: jdbhttpd/0.1.0\r\n".as_bytes());
    push_all(&mut r, "Content-Type: text/html\r\n".as_bytes());
    push_all(&mut r, "\r\n".as_bytes());
    push_all(&mut r, "<HTML><TITLE>Not Found</TITLE>\r\n".as_bytes());
    push_all(&mut r, "<BODY><P>The server could not fulfill\r\n".as_bytes());
    push_all(&mut r, "your request because the resource specified\r\n".as_bytes());
    push_all(&mut r, "is unavailable or nonexistent.\r\n".as_bytes());
    push_all(&mut r, "</BODY></HTML>\r\n".as_bytes());
    r
}

/// The bytes of the `200 OK` header block, blank line included.
pub fn ok_headers() -> (r: Vec<u8>)
    ensures
        r@ == ok_header_block(),
{
    let mut r: Vec<u8> = Vec::new();
    push_all(&mut r, "HTTP/1.0 200 OK\r\n".as_bytes());
    push_all(&mut r, "Server: jdbhttpd/0.1.0\r\n".as_bytes());
    push_all(&mut r, "Content-Type: text/html\r\n".as_bytes());
    push_all(&mut r, "\r\n".as_bytes());
    r
}

} // verus!
