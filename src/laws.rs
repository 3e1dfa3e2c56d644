//! Properties of whole runs of the connection protocol: what reaches the
//! client over a sequence of events, proved from the step function.
use vstd::prelude::*;
use crate::connection::{ends_headers, next, SpecAction, SpecEvent, SpecPhase};
use crate::request::{has_two_tokens, target_of};
use crate::resolve::resolved_path;
use crate::response::{not_found_page, ok_header_block};

verus! {

/// The phase reached and the actions produced when `evs` is fed to a
/// connection in phase `p`, one step per event.
pub open spec fn run(root: Seq<u8>, p: SpecPhase, evs: Seq<SpecEvent>) -> (SpecPhase, Seq<SpecAction>)
    decreases evs.len(),
{
    if evs.len() == 0 {
        (p, Seq::empty())
    } else {
        let before = run(root, p, evs.drop_last());
        let last = next(root, before.0, evs.last());
        (last.0, before.1.push(last.1))
    }
}

/// The bytes that an action writes to the client.
pub open spec fn written(a: SpecAction) -> Seq<u8> {
    match a {
        SpecAction::SendBlock(b) => b,
        SpecAction::SendChunk(b) => b,
        _ => Seq::empty(),
    }
}

/// Everything that a sequence of actions writes to the client, in order.
pub open spec fn sent(acts: Seq<SpecAction>) -> Seq<u8>
    decreases acts.len(),
{
    if acts.len() == 0 {
        Seq::empty()
    } else {
        sent(acts.drop_last()) + written(acts.last())
    }
}

/// A header line that does not end the header block.
pub open spec fn is_header_line(e: SpecEvent) -> bool {
    e matches SpecEvent::Line(l) && !ends_headers(l)
}

/// Each chunk of a file read and then written whole.
pub open spec fn chunk_events(cs: Seq<Seq<u8>>) -> Seq<SpecEvent>
    decreases cs.len(),
{
    if cs.len() == 0 {
        Seq::empty()
    } else {
        chunk_events(cs.drop_last()) + seq![
            SpecEvent::Chunk(cs.last()),
            SpecEvent::Sent(cs.last().len()),
        ]
    }
}

/// The chunks joined in order.
pub open spec fn joined_chunks(cs: Seq<Seq<u8>>) -> Seq<u8>
    decreases cs.len(),
{
    if cs.len() == 0 {
        Seq::empty()
    } else {
        joined_chunks(cs.drop_last()) + cs.last()
    }
}

proof fn lemma_run_append(root: Seq<u8>, p: SpecPhase, a: Seq<SpecEvent>, b: Seq<SpecEvent>)
    ensures
        run(root, p, a + b).0 == run(root, run(root, p, a).0, b).0,
        run(root, p, a + b).1 == run(root, p, a).1 + run(root, run(root, p, a).0, b).1,
    decreases b.len(),
{
    if b.len() == 0 {
        assert(a + b =~= a);
        assert(run(root, p, a).1 + Seq::<SpecAction>::empty() =~= run(root, p, a).1);
    } else {
        assert((a + b).drop_last() =~= a + b.drop_last());
        assert((a + b).last() == b.last());
        lemma_run_append(root, p, a, b.drop_last());
        let mid = run(root, p, a).0;
        assert(run(root, p, a).1 + run(root, mid, b).1 =~= (run(root, p, a).1 + run(
            root,
            mid,
            b.drop_last(),
        ).1).push(run(root, mid, b).1.last()));
    }
}

proof fn lemma_sent_append(x: Seq<SpecAction>, y: Seq<SpecAction>)
    ensures
        sent(x + y) == sent(x) + sent(y),
    decreases y.len(),
{
    if y.len() == 0 {
        assert(x + y =~= x);
        assert(sent(x) + Seq::<u8>::empty() =~= sent(x));
    } else {
        assert((x + y).drop_last() =~= x + y.drop_last());
        assert((x + y).last() == y.last());
        lemma_sent_append(x, y.drop_last());
        assert(sent(x) + sent(y) =~= sent(x) + sent(y.drop_last()) + written(y.last()));
    }
}

proof fn lemma_sent_push(acts: Seq<SpecAction>, a: SpecAction)
    ensures
        sent(acts.push(a)) == sent(acts) + written(a),
{
    assert(acts.push(a).drop_last() =~= acts);
}

proof fn lemma_run_one(root: Seq<u8>, p: SpecPhase, e: SpecEvent)
    ensures
        run(root, p, seq![e]) == (next(root, p, e).0, seq![next(root, p, e).1]),
{
    assert(seq![e].drop_last() =~= Seq::<SpecEvent>::empty());
    assert(run(root, p, Seq::<SpecEvent>::empty()) == (p, Seq::<SpecAction>::empty()));
    assert(Seq::<SpecAction>::empty().push(next(root, p, e).1) =~= seq![next(root, p, e).1]);
}

proof fn lemma_sent_one(a: SpecAction)
    ensures
        sent(seq![a]) == written(a),
{
    assert(seq![a] =~= Seq::<SpecAction>::empty().push(a));
    lemma_sent_push(Seq::<SpecAction>::empty(), a);
    assert(Seq::<u8>::empty() + written(a) =~= written(a));
}

/// Feeds `evs` after `pre`, one event at a time.
proof fn lemma_run_then_one(root: Seq<u8>, p: SpecPhase, pre: Seq<SpecEvent>, e: SpecEvent)
    ensures
        run(root, p, pre + seq![e]).0 == next(root, run(root, p, pre).0, e).0,
        run(root, p, pre + seq![e]).1 == run(root, p, pre).1.push(
            next(root, run(root, p, pre).0, e).1,
        ),
        sent(run(root, p, pre + seq![e]).1) == sent(run(root, p, pre).1) + written(
            next(root, run(root, p, pre).0, e).1,
        ),
{
    assert((pre + seq![e]).drop_last() =~= pre);
    assert((pre + seq![e]).last() == e);
    lemma_sent_push(run(root, p, pre).1, next(root, run(root, p, pre).0, e).1);
}

proof fn lemma_closed_stays_silent(root: Seq<u8>, evs: Seq<SpecEvent>)
    ensures
        run(root, SpecPhase::Closed, evs).0 == SpecPhase::Closed,
        sent(run(root, SpecPhase::Closed, evs).1) == Seq::<u8>::empty(),
    decreases evs.len(),
{
    if evs.len() > 0 {
        lemma_closed_stays_silent(root, evs.drop_last());
        lemma_sent_push(run(root, SpecPhase::Closed, evs.drop_last()).1, SpecAction::Close);
        assert(Seq::<u8>::empty() + Seq::<u8>::empty() =~= Seq::<u8>::empty());
    }
}

proof fn lemma_header_lines(root: Seq<u8>, path: Seq<u8>, hs: Seq<SpecEvent>)
    requires
        forall|i: int| 0 <= i < hs.len() ==> is_header_line(#[trigger] hs[i]),
    ensures
        run(root, SpecPhase::Headers(path), hs).0 == SpecPhase::Headers(path),
        forall|i: int|
            0 <= i < hs.len() ==> #[trigger] run(root, SpecPhase::Headers(path), hs).1[i]
                == SpecAction::ReadLine,
        run(root, SpecPhase::Headers(path), hs).1.len() == hs.len(),
        sent(run(root, SpecPhase::Headers(path), hs).1) == Seq::<u8>::empty(),
    decreases hs.len(),
{
    if hs.len() > 0 {
        lemma_header_lines(root, path, hs.drop_last());
        assert(is_header_line(hs[hs.len() - 1]));
        lemma_sent_push(run(root, SpecPhase::Headers(path), hs.drop_last()).1, SpecAction::ReadLine);
        assert(Seq::<u8>::empty() + Seq::<u8>::empty() =~= Seq::<u8>::empty());
    }
}

proof fn lemma_body(root: Seq<u8>, cs: Seq<Seq<u8>>)
    requires
        forall|i: int| 0 <= i < cs.len() ==> (#[trigger] cs[i]).len() > 0,
    ensures
        run(root, SpecPhase::Body, chunk_events(cs)).0 == SpecPhase::Body,
        sent(run(root, SpecPhase::Body, chunk_events(cs)).1) == joined_chunks(cs),
    decreases cs.len(),
{
    if cs.len() > 0 {
        let init = cs.drop_last();
        let c = cs.last();
        assert(c.len() > 0) by {
            assert(cs[cs.len() - 1].len() > 0);
        };
        lemma_body(root, init);
        let pre = chunk_events(init);
        assert(chunk_events(cs) =~= (pre + seq![SpecEvent::Chunk(c)]) + seq![
            SpecEvent::Sent(c.len()),
        ]);
        lemma_run_then_one(root, SpecPhase::Body, pre, SpecEvent::Chunk(c));
        lemma_run_then_one(
            root,
            SpecPhase::Body,
            pre + seq![SpecEvent::Chunk(c)],
            SpecEvent::Sent(c.len()),
        );
        assert(sent(run(root, SpecPhase::Body, chunk_events(cs)).1) =~= joined_chunks(init) + c
            + Seq::<u8>::empty());
        assert(joined_chunks(init) + c + Seq::<u8>::empty() =~= joined_chunks(cs));
    }
}

/// The request line and header lines, read before anything is sent.
proof fn lemma_request_prefix(root: Seq<u8>, line: Seq<u8>, hs: Seq<SpecEvent>)
    requires
        has_two_tokens(line),
        forall|i: int| 0 <= i < hs.len() ==> is_header_line(#[trigger] hs[i]),
    ensures
        run(root, SpecPhase::RequestLine, seq![SpecEvent::Line(line)] + hs).0 == SpecPhase::Headers(
            resolved_path(root, target_of(line)),
        ),
        forall|i: int|
            0 <= i < hs.len() + 1 ==> #[trigger] run(
                root,
                SpecPhase::RequestLine,
                seq![SpecEvent::Line(line)] + hs,
            ).1[i] == SpecAction::ReadLine,
        run(root, SpecPhase::RequestLine, seq![SpecEvent::Line(line)] + hs).1.len() == hs.len() + 1,
        sent(run(root, SpecPhase::RequestLine, seq![SpecEvent::Line(line)] + hs).1) == Seq::<
            u8,
        >::empty(),
{
    let path = resolved_path(root, target_of(line));
    let first = seq![SpecEvent::Line(line)];
    lemma_run_one(root, SpecPhase::RequestLine, SpecEvent::Line(line));
    lemma_run_append(root, SpecPhase::RequestLine, first, hs);
    lemma_header_lines(root, path, hs);
    let all = run(root, SpecPhase::RequestLine, first + hs).1;
    let tail = run(root, SpecPhase::Headers(path), hs).1;
    assert(all == seq![SpecAction::ReadLine] + tail);
    assert forall|i: int| 0 <= i < hs.len() + 1 implies #[trigger] all[i]
        == SpecAction::ReadLine by {
        if i > 0 {
            assert(all[i] == tail[i - 1]);
        }
    };
    lemma_sent_append(seq![SpecAction::ReadLine], tail);
    lemma_sent_one(SpecAction::ReadLine);
    assert(Seq::<u8>::empty() + Seq::<u8>::empty() =~= Seq::<u8>::empty());
}

/// A request line with fewer than two tokens (an empty read included) closes
/// the connection at once, and nothing is ever written to the client,
/// whatever events follow.
pub proof fn law_malformed_request_sends_nothing(
    root: Seq<u8>,
    line: Seq<u8>,
    rest: Seq<SpecEvent>,
)
    requires
        !has_two_tokens(line),
    ensures
        next(root, SpecPhase::RequestLine, SpecEvent::Line(line)) == (
            SpecPhase::Closed,
            SpecAction::Close,
        ),
        sent(run(root, SpecPhase::RequestLine, seq![SpecEvent::Line(line)] + rest).1)
            == Seq::<u8>::empty(),
{
    let first = seq![SpecEvent::Line(line)];
    lemma_run_one(root, SpecPhase::RequestLine, SpecEvent::Line(line));
    lemma_run_append(root, SpecPhase::RequestLine, first, rest);
    lemma_closed_stays_silent(root, rest);
    lemma_sent_append(seq![SpecAction::Close], run(root, SpecPhase::Closed, rest).1);
    lemma_sent_one(SpecAction::Close);
    assert(Seq::<u8>::empty() + Seq::<u8>::empty() =~= Seq::<u8>::empty());
}

/// After a well-formed request line, header lines of any content are only
/// read: nothing is opened and nothing is written until the blank line.
pub proof fn law_headers_read_before_response(root: Seq<u8>, line: Seq<u8>, hs: Seq<SpecEvent>)
    requires
        has_two_tokens(line),
        forall|i: int| 0 <= i < hs.len() ==> is_header_line(#[trigger] hs[i]),
    ensures
        run(root, SpecPhase::RequestLine, seq![SpecEvent::Line(line)] + hs).0 == SpecPhase::Headers(
            resolved_path(root, target_of(line)),
        ),
        forall|i: int|
            0 <= i < hs.len() + 1 ==> #[trigger] run(
                root,
                SpecPhase::RequestLine,
                seq![SpecEvent::Line(line)] + hs,
            ).1[i] == SpecAction::ReadLine,
        sent(run(root, SpecPhase::RequestLine, seq![SpecEvent::Line(line)] + hs).1) == Seq::<
            u8,
        >::empty(),
{
    lemma_request_prefix(root, line, hs);
}

/// When the resolved path cannot be opened, the client receives exactly the
/// fixed `404` document, whatever the target and the header lines were; the
/// path opened is the resolved target, and only after the header block ended.
pub proof fn law_not_found_response(
    root: Seq<u8>,
    line: Seq<u8>,
    hs: Seq<SpecEvent>,
    end: Seq<u8>,
)
    requires
        has_two_tokens(line),
        forall|i: int| 0 <= i < hs.len() ==> is_header_line(#[trigger] hs[i]),
        ends_headers(end),
    ensures
        ({
            let evs = seq![SpecEvent::Line(line)] + hs + seq![
                SpecEvent::Line(end),
                SpecEvent::OpenFailed,
            ];
            let r = run(root, SpecPhase::RequestLine, evs);
            &&& r.1[hs.len() + 1int] == SpecAction::Open(resolved_path(root, target_of(line)))
            &&& r.1.last() == SpecAction::SendBlock(not_found_page())
            &&& sent(r.1) == not_found_page()
            &&& r.0 == SpecPhase::NotFound
        }),
{
    let path = resolved_path(root, target_of(line));
    let pre = seq![SpecEvent::Line(line)] + hs;
    lemma_request_prefix(root, line, hs);
    lemma_run_then_one(root, SpecPhase::RequestLine, pre, SpecEvent::Line(end));
    let pre2 = pre + seq![SpecEvent::Line(end)];
    lemma_run_then_one(root, SpecPhase::RequestLine, pre2, SpecEvent::OpenFailed);
    let evs = seq![SpecEvent::Line(line)] + hs + seq![SpecEvent::Line(end), SpecEvent::OpenFailed];
    assert(evs =~= pre2 + seq![SpecEvent::OpenFailed]);
    assert(Seq::<u8>::empty() + Seq::<u8>::empty() + not_found_page() =~= not_found_page());
}

/// When the resolved path opens, the client receives exactly the `200`
/// header block followed by the file's bytes unmodified, however the file
/// was cut into chunks, and the output is then flushed once.
pub proof fn law_file_round_trip(
    root: Seq<u8>,
    line: Seq<u8>,
    hs: Seq<SpecEvent>,
    end: Seq<u8>,
    header_count: nat,
    chunks: Seq<Seq<u8>>,
)
    requires
        has_two_tokens(line),
        forall|i: int| 0 <= i < hs.len() ==> is_header_line(#[trigger] hs[i]),
        ends_headers(end),
        forall|i: int| 0 <= i < chunks.len() ==> (#[trigger] chunks[i]).len() > 0,
    ensures
        ({
            let evs = seq![SpecEvent::Line(line)] + hs + seq![
                SpecEvent::Line(end),
                SpecEvent::Opened,
                SpecEvent::Sent(header_count),
            ] + chunk_events(chunks) + seq![SpecEvent::Chunk(Seq::empty())];
            let r = run(root, SpecPhase::RequestLine, evs);
            &&& sent(r.1) == ok_header_block() + joined_chunks(chunks)
            &&& r.1.last() == SpecAction::Flush
            &&& r.0 == SpecPhase::Finishing
        }),
{
    let pre = seq![SpecEvent::Line(line)] + hs;
    lemma_request_prefix(root, line, hs);
    let p1 = pre + seq![SpecEvent::Line(end)];
    lemma_run_then_one(root, SpecPhase::RequestLine, pre, SpecEvent::Line(end));
    let p2 = p1 + seq![SpecEvent::Opened];
    lemma_run_then_one(root, SpecPhase::RequestLine, p1, SpecEvent::Opened);
    let p3 = p2 + seq![SpecEvent::Sent(header_count)];
    lemma_run_then_one(root, SpecPhase::RequestLine, p2, SpecEvent::Sent(header_count));
    assert(run(root, SpecPhase::RequestLine, p3).0 == SpecPhase::Body);
    assert(sent(run(root, SpecPhase::RequestLine, p3).1) =~= ok_header_block());
    let body = chunk_events(chunks);
    lemma_run_append(root, SpecPhase::RequestLine, p3, body);
    lemma_body(root, chunks);
    lemma_sent_append(run(root, SpecPhase::RequestLine, p3).1, run(root, SpecPhase::Body, body).1);
    let p4 = p3 + body;
    lemma_run_then_one(root, SpecPhase::RequestLine, p4, SpecEvent::Chunk(Seq::empty()));
    let evs = seq![SpecEvent::Line(line)] + hs + seq![
        SpecEvent::Line(end),
        SpecEvent::Opened,
        SpecEvent::Sent(header_count),
    ] + chunk_events(chunks) + seq![SpecEvent::Chunk(Seq::empty())];
    assert(evs =~= p4 + seq![SpecEvent::Chunk(Seq::empty())]);
    assert(ok_header_block() + joined_chunks(chunks) + Seq::<u8>::empty() =~= ok_header_block()
        + joined_chunks(chunks));
}

} // verus!
