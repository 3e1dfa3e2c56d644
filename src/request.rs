//! The request line: `<METHOD> <TARGET> [ignored remainder]`, and the blank
//! line that ends the header block.
use vstd::prelude::*;

verus! {

/// Whitespace as `char::is_whitespace` reads it on ASCII: space, tab, line
/// feed, vertical tab, form feed and carriage return.
pub open spec fn is_space(b: u8) -> bool {
    b == 0x20u8 || (0x09u8 <= b && b <= 0x0du8)
}

/// The first position at or after `i` that holds no whitespace (or the end).
pub open spec fn skip_spaces(s: Seq<u8>, i: int) -> int
    decreases s.len() - i,
{
    if 0 <= i < s.len() && is_space(s[i]) {
        skip_spaces(s, i + 1)
    } else {
        i
    }
}

/// The first position at or after `i` that holds whitespace (or the end).
pub open spec fn skip_word(s: Seq<u8>, i: int) -> int
    decreases s.len() - i,
{
    if 0 <= i < s.len() && !is_space(s[i]) {
        skip_word(s, i + 1)
    } else {
        i
    }
}

/// Where the first token (the method) starts.
pub open spec fn method_start(s: Seq<u8>) -> int {
    skip_spaces(s, 0)
}

/// Where the first token ends.
pub open spec fn method_end(s: Seq<u8>) -> int {
    skip_word(s, method_start(s))
}

/// Where the second token (the target) starts.
pub open spec fn target_start(s: Seq<u8>) -> int {
    skip_spaces(s, method_end(s))
}

/// Where the second token ends.
pub open spec fn target_end(s: Seq<u8>) -> int {
    skip_word(s, target_start(s))
}

/// A well-formed request line has at least two whitespace-separated tokens.
pub open spec fn has_two_tokens(s: Seq<u8>) -> bool {
    target_start(s) < s.len()
}

/// The first token of the line.
pub open spec fn method_of(s: Seq<u8>) -> Seq<u8> {
    s.subrange(method_start(s), method_end(s))
}

/// The second token of the line.
pub open spec fn target_of(s: Seq<u8>) -> Seq<u8> {
    s.subrange(target_start(s), target_end(s))
}

/// A line that ends the header block: a bare line feed, or CR LF.
pub open spec fn is_blank_line(s: Seq<u8>) -> bool {
    s == seq![0x0au8] || s == seq![0x0du8, 0x0au8]
}

/// The method and target of a request line.
pub struct Request {
    pub method: Vec<u8>,
    pub target: Vec<u8>,
}

/// Whether `b` is whitespace.
pub fn is_space_byte(b: u8) -> (r: bool)
    ensures
        r == is_space(b),
{
    b == 0x20u8 || (0x09u8 <= b && b <= 0x0du8)
}

fn skip_spaces_from(s: &Vec<u8>, start: usize) -> (r: usize)
    requires
        start <= s@.len(),
    ensures
        r as int == skip_spaces(s@, start as int),
        start <= r <= s@.len(),
{
    let mut i: usize = start;
    while i < s.len() && is_space_byte(s[i])
        invariant
            start <= i <= s@.len(),
            skip_spaces(s@, i as int) == skip_spaces(s@, start as int),
        decreases s@.len() - i,
    {
        i = i + 1;
    }
    i
}

fn skip_word_from(s: &Vec<u8>, start: usize) -> (r: usize)
    requires
        start <= s@.len(),
    ensures
        r as int == skip_word(s@, start as int),
        start <= r <= s@.len(),
{
    let mut i: usize = start;
    while i < s.len() && !is_space_byte(s[i])
        invariant
            start <= i <= s@.len(),
            skip_word(s@, i as int) == skip_word(s@, start as int),
        decreases s@.len() - i,
    {
        i = i + 1;
    }
    i
}

/// A copy of `s[from..to]`.
fn copy_range(s: &Vec<u8>, from: usize, to: usize) -> (r: Vec<u8>)
    requires
        from <= to <= s@.len(),
    ensures
        r@ == s@.subrange(from as int, to as int),
{
    let mut r: Vec<u8> = Vec::new();
    let mut i: usize = from;
    while i < to
        invariant
            from <= i <= to <= s@.len(),
            r@ == s@.subrange(from as int, i as int),
        decreases to - i,
    {
        r.push(s[i]);
        i = i + 1;
        assert(r@ =~= s@.subrange(from as int, i as int));
    }
    r
}

/// Splits a request line on runs of whitespace and returns its first two
/// tokens, or `None` when it has fewer than two. Further tokens (the
/// protocol version, anything else) are ignored.
pub fn parse_request_line(line: &Vec<u8>) -> (r: Option<Request>)
    ensures
        r.is_some() <==> has_two_tokens(line@),
        r matches Some(q) ==> q.method@ == method_of(line@) && q.target@ == target_of(line@),
{
    let m0 = skip_spaces_from(line, 0);
    let m1 = skip_word_from(line, m0);
    let t0 = skip_spaces_from(line, m1);
    if t0 >= line.len() {
        return None;
    }
    let t1 = skip_word_from(line, t0);
    Some(Request { method: copy_range(line, m0, m1), target: copy_range(line, t0, t1) })
}

/// Whether a header line ends the header block (`"\n"` or `"\r\n"`).
pub fn is_blank(line: &Vec<u8>) -> (r: bool)
    ensures
        r == is_blank_line(line@),
{
    if line.len() == 1 {
        let r = line[0] == 0x0au8;
        assert(r ==> line@ =~= seq![0x0au8]);
        r
    } else if line.len() == 2 {
        let r = line[0] == 0x0du8 && line[1] == 0x0au8;
        assert(r ==> line@ =~= seq![0x0du8, 0x0au8]);
        r
    } else {
        false
    }
}

} // verus!
