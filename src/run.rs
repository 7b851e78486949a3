//! A whole dispatch loop over a recorded sequence of events, and the laws that
//! hold of every such sequence.
use vstd::prelude::*;
use crate::dispatch::{is_data, read_error_detail, Dispatcher, Frame, Phase, Received, Step};
use crate::message::{AssetClass, MsgError};
use crate::publish::{envelope_text, Envelope, WsResponse};

verus! {

/// One read of the channel with what followed it. `decoded` is what the
/// decoder made of the frame and `acknowledged` whether the sink confirmed the
/// publish; both are read only for text and binary frames.
#[derive(Debug, PartialEq, Eq)]
pub struct Event {
    pub received: Received,
    pub decoded: Result<WsResponse, MsgError>,
    pub acknowledged: bool,
}

/// The bodies that an event gets delivered to the stream while the loop streams.
pub open spec fn delivered_by(e: Event) -> Seq<Seq<char>> {
    match e.received {
        Received::Frame(f) => if is_data(f) && e.decoded is Ok && e.acknowledged {
            seq![envelope_text(e.decoded->Ok_0)]
        } else {
            Seq::empty()
        },
        _ => Seq::empty(),
    }
}

/// Whether an event ends the loop: `None` it streams on, `Some(None)` it ends
/// with success, `Some(Some(d))` it fails with a read error of detail `d`.
pub open spec fn end_by(ac: AssetClass, e: Event) -> Option<Option<Seq<char>>> {
    match e.received {
        Received::Frame(f) => if f is Close {
            Some(None)
        } else {
            None
        },
        Received::Exhausted => Some(None),
        Received::ReadFailed(d) => Some(Some(read_error_detail(ac, d@))),
    }
}

/// The bodies delivered by a streaming loop over `events`, and how it ended
/// (as in `end_by`; `None` while it still streams).
pub open spec fn trace(ac: AssetClass, events: Seq<Event>) -> (Seq<Seq<char>>, Option<Option<Seq<char>>>)
    decreases events.len(),
{
    if events.len() == 0 {
        (Seq::empty(), None)
    } else if end_by(ac, events[0]) is Some {
        (Seq::empty(), end_by(ac, events[0]))
    } else {
        let rest = trace(ac, events.drop_first());
        (delivered_by(events[0]) + rest.0, rest.1)
    }
}

/// Running over two sequences one after the other: the second counts only if
/// the first left the loop streaming.
pub proof fn lemma_trace_append(ac: AssetClass, a: Seq<Event>, b: Seq<Event>)
    ensures
        trace(ac, a + b) == if trace(ac, a).1 is Some {
            trace(ac, a)
        } else {
            (trace(ac, a).0 + trace(ac, b).0, trace(ac, b).1)
        },
    decreases a.len(),
{
    if a.len() == 0 {
        assert(a + b =~= b);
        assert(trace(ac, a).0 + trace(ac, b).0 =~= trace(ac, b).0);
    } else {
        assert((a + b)[0] == a[0]);
        assert((a + b).drop_first() =~= a.drop_first() + b);
        lemma_trace_append(ac, a.drop_first(), b);
        if end_by(ac, a[0]) is None {
            assert(delivered_by(a[0]) + (trace(ac, a.drop_first()).0 + trace(ac, b).0) =~= (
            delivered_by(a[0]) + trace(ac, a.drop_first()).0) + trace(ac, b).0);
        }
    }
}

proof fn lemma_trace_single(ac: AssetClass, e: Event)
    ensures
        trace(ac, seq![e]) == if end_by(ac, e) is Some {
            (Seq::<Seq<char>>::empty(), end_by(ac, e))
        } else {
            (delivered_by(e), None::<Option<Seq<char>>>)
        },
{
    assert(seq![e].drop_first() =~= Seq::<Event>::empty());
    assert(trace(ac, Seq::<Event>::empty()) == (Seq::<Seq<char>>::empty(), None::<Option<Seq<char>>>));
    assert(delivered_by(e) + Seq::<Seq<char>>::empty() =~= delivered_by(e));
}

/// A frame whose decoding failed is dropped and nothing else: the loop over
/// the frames before and after it delivers and ends exactly as if it had
/// never come.
pub proof fn lemma_decode_failure_skipped(ac: AssetClass, before: Seq<Event>, e: Event, after: Seq<Event>)
    requires
        e.received is Frame,
        is_data(e.received->Frame_0),
        e.decoded is Err,
    ensures
        trace(ac, before.push(e) + after) == trace(ac, before + after),
{
    lemma_trace_append(ac, before.push(e), after);
    lemma_trace_append(ac, before, seq![e]);
    lemma_trace_append(ac, before, after);
    lemma_trace_single(ac, e);
    assert(before + seq![e] =~= before.push(e));
    assert(trace(ac, before).0 + Seq::<Seq<char>>::empty() =~= trace(ac, before).0);
}

/// A publish that the sink did not confirm neither ends the loop nor changes
/// what the later frames deliver or how the loop ends.
pub proof fn lemma_publish_failure_absorbed(ac: AssetClass, before: Seq<Event>, e: Event, after: Seq<Event>)
    requires
        e.received is Frame,
        is_data(e.received->Frame_0),
        !e.acknowledged,
    ensures
        trace(ac, before.push(e) + after) == trace(ac, before + after),
{
    lemma_trace_append(ac, before.push(e), after);
    lemma_trace_append(ac, before, seq![e]);
    lemma_trace_append(ac, before, after);
    lemma_trace_single(ac, e);
    assert(before + seq![e] =~= before.push(e));
    assert(trace(ac, before).0 + Seq::<Seq<char>>::empty() =~= trace(ac, before).0);
}

/// A decoded and confirmed frame adds exactly its envelope, between what the
/// frames before and after it deliver.
pub proof fn lemma_decoded_frame_delivered(ac: AssetClass, before: Seq<Event>, e: Event, after: Seq<Event>)
    requires
        trace(ac, before).1 is None,
        e.received is Frame,
        is_data(e.received->Frame_0),
        e.decoded is Ok,
        e.acknowledged,
    ensures
        trace(ac, before.push(e) + after).0 == trace(ac, before).0 + seq![envelope_text(e.decoded->Ok_0)]
            + trace(ac, after).0,
        trace(ac, before.push(e) + after).1 == trace(ac, after).1,
{
    lemma_trace_append(ac, before.push(e), after);
    lemma_trace_append(ac, before, seq![e]);
    lemma_trace_single(ac, e);
    assert(before + seq![e] =~= before.push(e));
}

/// A close frame on a streaming loop ends it with success; nothing after it
/// is delivered.
pub proof fn lemma_close_succeeds(ac: AssetClass, before: Seq<Event>, e: Event, after: Seq<Event>)
    requires
        trace(ac, before).1 is None,
        e.received == Received::Frame(Frame::Close),
    ensures
        trace(ac, before.push(e) + after) == (trace(ac, before).0, Some(None::<Seq<char>>)),
{
    lemma_trace_append(ac, before.push(e), after);
    lemma_trace_append(ac, before, seq![e]);
    lemma_trace_single(ac, e);
    assert(before + seq![e] =~= before.push(e));
    assert(trace(ac, before).0 + Seq::<Seq<char>>::empty() =~= trace(ac, before).0);
}

/// A transport failure on a streaming loop ends it with a read error whose
/// detail starts with the asset class's name.
pub proof fn lemma_read_failure_fails(ac: AssetClass, before: Seq<Event>, e: Event, after: Seq<Event>)
    requires
        trace(ac, before).1 is None,
        e.received is ReadFailed,
    ensures
        trace(ac, before.push(e) + after).0 == trace(ac, before).0,
        trace(ac, before.push(e) + after).1 == Some(Some(read_error_detail(ac, e.received->ReadFailed_0@))),
        read_error_detail(ac, e.received->ReadFailed_0@).take(crate::message::label_of(ac).len() as int)
            == crate::message::label_of(ac),
{
    lemma_trace_append(ac, before.push(e), after);
    lemma_trace_append(ac, before, seq![e]);
    lemma_trace_single(ac, e);
    assert(before + seq![e] =~= before.push(e));
    assert(trace(ac, before).0 + Seq::<Seq<char>>::empty() =~= trace(ac, before).0);
    assert(read_error_detail(ac, e.received->ReadFailed_0@).take(crate::message::label_of(ac).len() as int)
        =~= crate::message::label_of(ac));
}

pub open spec fn bodies(v: Seq<Envelope>) -> Seq<Seq<char>> {
    v.map_values(|e: Envelope| e.body@)
}

/// Runs a dispatch loop over a recorded handshake result and events: a failed
/// handshake ends it at once; else it streams through the events until one
/// ends it, and the end of the record counts as the end of the channel. It
/// returns the envelopes that reached the stream and the loop's outcome.
pub fn replay(ac: AssetClass, handshake: Result<(), MsgError>, events: &Vec<Event>) -> (r: (
    Vec<Envelope>,
    Result<(), MsgError>,
))
    ensures
        forall|i: int| 0 <= i < r.0@.len() ==> #[trigger] r.0@[i].content_type@ == "application/json"@,
        match handshake {
            Err(e) => r.0@.len() == 0 && r.1 == Err::<(), MsgError>(e),
            Ok(()) => bodies(r.0@) == trace(ac, events@).0 && match trace(ac, events@).1 {
                Some(Some(d)) => match r.1 {
                    Err(MsgError::ReadError(m)) => m@ == d,
                    _ => false,
                },
                _ => r.1 is Ok,
            },
        },
{
    let mut delivered: Vec<Envelope> = Vec::new();
    let mut d = Dispatcher::new(ac);
    match d.on_handshake(handshake) {
        Some(e) => {
            return (delivered, Err(e));
        },
        None => {},
    }
    let mut i: usize = 0;
    while i < events.len()
        invariant
            i <= events.len(),
            handshake is Ok,
            d.phase == Phase::Streaming,
            d.asset_class == ac,
            trace(ac, events@.take(i as int)).1 is None,
            bodies(delivered@) == trace(ac, events@.take(i as int)).0,
            forall|j: int| 0 <= j < delivered@.len() ==> #[trigger] delivered@[j].content_type@ == "application/json"@,
        decreases events.len() - i,
    {
        let ev = &events[i];
        proof {
            lemma_trace_append(ac, events@.take(i as int), seq![*ev]);
            lemma_trace_single(ac, *ev);
            assert(events@.take(i as int) + seq![*ev] =~= events@.take(i as int + 1));
            lemma_trace_append(ac, events@.take(i as int + 1), events@.skip(i as int + 1));
            assert(events@.take(i as int + 1) + events@.skip(i as int + 1) =~= events@);
        }
        match d.on_received(&ev.received) {
            Step::Finish(outcome) => {
                return (delivered, outcome);
            },
            Step::Skip => {
                assert(delivered_by(*ev) =~= Seq::empty());
                assert(bodies(delivered@) + Seq::<Seq<char>>::empty() =~= bodies(delivered@));
            },
            Step::Decode => {
                let ghost old_delivered = delivered@;
                match d.on_decoded(&ev.decoded) {
                    Some(env) => {
                        if ev.acknowledged {
                            delivered.push(env);
                            assert(bodies(delivered@) =~= bodies(old_delivered) + delivered_by(*ev));
                        } else {
                            assert(bodies(delivered@) =~= bodies(old_delivered) + delivered_by(*ev));
                        }
                    },
                    None => {
                        assert(bodies(delivered@) =~= bodies(old_delivered) + delivered_by(*ev));
                    },
                }
            },
        }
        i = i + 1;
    }
    assert(events@.take(events.len() as int) =~= events@);
    (delivered, Ok(()))
}

} // verus!
