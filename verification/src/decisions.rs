//! What a transfer asks for after each kind of answer, told from the events
//! alone.

use vstd::prelude::*;

use crate::data_buf::DataBuf;
use crate::pipe::{Action, BodyFailure, Event, Frame, Phase, PipeError, PipeToSendStream, Polled};
use crate::send_buf::SendBuf;
use crate::transfer;
use crate::transfer::{actions, possible, reached};

verus! {

/// The body produced this chunk, and this is whether it ends with it.
pub open spec fn brings<B: DataBuf, T, E, U>(event: Event<B, T, E, U>, chunk: B, last: bool) -> bool {
    event == Event::<B, T, E, U>::FramePolled(Polled::Ready(Some(Ok(Frame::Data(chunk, last)))))
}

/// The body produced a chunk.
pub open spec fn brings_chunk<B: DataBuf, T, E, U>(event: Event<B, T, E, U>) -> bool {
    event matches Event::FramePolled(Polled::Ready(Some(Ok(Frame::Data(_, _)))))
}

/// The body produced `chunk`, without ending with it, at the `k`-th event,
/// which is the last one before the `i`-th that brought a chunk.
pub open spec fn latest_chunk<B: DataBuf, T, E, U>(
    events: Seq<Event<B, T, E, U>>,
    i: int,
    k: int,
    chunk: B,
) -> bool {
    &&& 0 <= k < i <= events.len()
    &&& brings(events[k], chunk, false)
    &&& forall|j: int| k < j < i ==> !brings_chunk(#[trigger] events[j])
}

/// `buf` is the latest chunk of the body.
spec fn is_latest<B: DataBuf, T, E, U>(events: Seq<Event<B, T, E, U>>, buf: SendBuf<B>) -> bool {
    exists|k: int, chunk: B| #[trigger]
        latest_chunk(events, events.len() as int, k, chunk) && buf == SendBuf::Buf(chunk)
}

/// The event begins a round with pending data.
spec fn resumes<B: DataBuf, T, E, U>(event: Event<B, T, E, U>) -> bool {
    event is Capacity || event is Woken
}

/// What the state of a transfer has to do with the events that led to it.
spec fn remembers<B: DataBuf, T, E, U>(
    events: Seq<Event<B, T, E, U>>,
    pipe: PipeToSendStream<B, T, U>,
) -> bool {
    let n = events.len();
    &&& pipe.wf()
    &&& pipe.pending_data matches Some((buf, last)) ==> !last && is_latest(events, buf)
    &&& match pipe.phase {
        Phase::Idle => if n == 0 {
            pipe.pending_data is None
        } else if pipe.pending_data is Some {
            events.last() == Event::<B, T, E, U>::CapacityPolled(Polled::Pending)
        } else {
            events.last() == Event::<B, T, E, U>::FramePolled(Polled::Pending)
        },
        Phase::ReservePending => n > 0 && resumes(events.last()),
        Phase::CheckPending => n > 1 && resumes(events[n - 2]) && events.last() is Reserved,
        Phase::AwaitCapacity => n > 0 && !brings_chunk(events.last()),
        Phase::ReserveChunk(buf, last) => n > 0 && exists|chunk: B| #[trigger]
            brings(events.last(), chunk, last) && buf == SendBuf::Buf(chunk),
        Phase::CheckChunk(buf) => n > 1 && is_latest(events, buf) && brings_chunk(events[n - 2])
            && events.last() is Reserved,
        Phase::ReleaseCapacity(trailers) => n > 0 && events.last() == Event::<B, T, E, U>::FramePolled(
            Polled::Ready(Some(Ok(Frame::Trailers(trailers)))),
        ),
        Phase::ResetStream(error) => n > 0 && (events.last() matches Event::FramePolled(
            Polled::Ready(Some(Err(failure))),
        ) && failure.error == error),
        _ => n > 0,
    }
}

/// An event that brings no chunk leaves the latest one.
proof fn lemma_still_latest<B: DataBuf, T, E, U>(events: Seq<Event<B, T, E, U>>, buf: SendBuf<B>)
    requires
        events.len() > 0,
        is_latest(events.drop_last(), buf),
        !brings_chunk(events.last()),
    ensures
        is_latest(events, buf),
{
    let before = events.drop_last();
    let (k, chunk) = choose|k: int, chunk: B| #[trigger]
        latest_chunk(before, before.len() as int, k, chunk) && buf == SendBuf::Buf(chunk);
    assert(before[k] == events[k]);
    assert forall|j: int| k < j < events.len() implies !brings_chunk(#[trigger] events[j]) by {
        if j < before.len() {
            assert(before[j] == events[j]);
        }
    }
    assert(latest_chunk(events, events.len() as int, k, chunk));
}

/// There is only one latest chunk.
proof fn lemma_latest_is_unique<B: DataBuf, T, E, U>(
    events: Seq<Event<B, T, E, U>>,
    buf: SendBuf<B>,
    k: int,
    chunk: B,
)
    requires
        is_latest(events, buf),
        latest_chunk(events, events.len() as int, k, chunk),
    ensures
        buf == SendBuf::Buf(chunk),
{
    let (k2, chunk2) = choose|k2: int, chunk2: B| #[trigger]
        latest_chunk(events, events.len() as int, k2, chunk2) && buf == SendBuf::Buf(chunk2);
    assert(brings_chunk(events[k]) && brings_chunk(events[k2]));
    assert(k == k2);
}

/// Every transfer remembers its events in this way.
proof fn lemma_remembers<B: DataBuf, T, E, U>(events: Seq<Event<B, T, E, U>>)
    requires
        possible(events),
    ensures
        remembers(events, reached(events)),
    decreases events.len(),
{
    transfer::lemma_run(events);
    if events.len() > 0 {
        let before = events.drop_last();
        lemma_remembers(before);
        let pipe = reached(before);
        assert(before.len() > 0 ==> before.last() == events[events.len() - 2]);
        assert forall|buf: SendBuf<B>| is_latest(before, buf) && !brings_chunk(events.last()) implies is_latest(
            events,
            buf,
        ) by {
            lemma_still_latest(events, buf);
        }
        if let Phase::ReserveChunk(buf, last) = pipe.phase {
            let chunk = choose|chunk: B| #[trigger] brings(before.last(), chunk, last) && buf == SendBuf::Buf(chunk);
            if !last {
                assert(latest_chunk(events, events.len() as int, events.len() - 2, chunk));
                assert(is_latest(events, buf));
            }
        }
        if let Event::FramePolled(Polled::Ready(Some(Ok(Frame::Data(chunk, last))))) = events.last() {
            assert(brings(events.last(), chunk, last));
        }
        let after = reached(events);
        match after.phase {
            Phase::ReservePending | Phase::CheckPending | Phase::AwaitCapacity => {
                let buf = (after.pending_data->0).0;
                assert(is_latest(events, buf));
            },
            Phase::Idle => {
                if let Some((buf, _)) = after.pending_data {
                    assert(is_latest(events, buf));
                }
            },
            Phase::ReserveChunk(buf, last) => {
                assert(exists|chunk: B| #[trigger]
                    brings(events.last(), chunk, last) && buf == SendBuf::Buf(chunk));
            },
            Phase::CheckChunk(buf) => {
                assert(is_latest(events, buf));
            },
            _ => {},
        }
    }
}

/// What is known before the `i`-th event.
proof fn lemma_at<B: DataBuf, T, E, U>(events: Seq<Event<B, T, E, U>>, i: int)
    requires
        possible(events),
        0 <= i < events.len(),
    ensures
        remembers(events.take(i), reached(events.take(i))),
        reached(events.take(i)).accepts(events[i]),
        actions(events).len() == events.len(),
        actions(events)[i] == reached(events.take(i)).next(events[i]).1,
        i > 0 ==> events.take(i).last() == events[i - 1],
        i > 1 ==> events.take(i)[i - 2] == events[i - 2],
{
    transfer::lemma_step(events, i);
    lemma_remembers(events.take(i));
}

/// The latest chunk before the `i`-th event is the one that the transfer remembers then.
proof fn lemma_latest_at<B: DataBuf, T, E, U>(events: Seq<Event<B, T, E, U>>, i: int, k: int, chunk: B)
    requires
        0 <= i < events.len(),
        latest_chunk(events, i, k, chunk),
    ensures
        forall|buf: SendBuf<B>| #[trigger] is_latest(events.take(i), buf) ==> buf == SendBuf::Buf(chunk),
{
    let before = events.take(i);
    assert(before[k] == events[k]);
    assert forall|j: int| k < j < i implies !brings_chunk(#[trigger] before[j]) by {
        assert(before[j] == events[j]);
    }
    assert(latest_chunk(before, before.len() as int, k, chunk));
    assert forall|buf: SendBuf<B>| #[trigger] is_latest(before, buf) implies buf == SendBuf::Buf(chunk) by {
        lemma_latest_is_unique(before, buf, k, chunk);
    }
}

/// Every transfer that events can lead to is well-formed, so it can always go on.
pub proof fn law_transfers_stay_well_formed<B: DataBuf, T, E, U>(events: Seq<Event<B, T, E, U>>)
    requires
        possible(events),
    ensures
        reached(events).wf(),
{
    transfer::lemma_run(events);
}

/// Whatever is asked for is answered in kind: a transfer accepts, after each
/// action, every answer of the kind that belongs to it, and no other event.
pub proof fn law_each_action_has_its_answer<B: DataBuf, T, E, U>(
    events: Seq<Event<B, T, E, U>>,
    event: Event<B, T, E, U>,
)
    requires
        possible(events),
    ensures
        events.len() == 0 ==> reached(events).accepts(event) == event is Woken,
        events.len() > 0 ==> reached(events).accepts(event) == match actions(events).last() {
            Action::ReserveCapacity(_) => event is Reserved,
            Action::QueryCapacity => event is Capacity,
            Action::PollCapacity => event is CapacityPolled,
            Action::PollReset => event is ResetPolled,
            Action::PollFrame => event is FramePolled,
            Action::SendData(_, _) => event is Sent,
            Action::SendTrailers(_) => event is Sent,
            Action::SendReset(_) => event is ResetSent,
            Action::Suspend => event is Woken,
            Action::Finish(_) => false,
        },
{
    transfer::lemma_run(events);
}

/// A transfer that runs for the first time, or again after its body was not
/// ready, checks for a reset. One that had waited for capacity for a chunk
/// requests that capacity again.
pub proof fn law_woken<B: DataBuf, T, E, U>(events: Seq<Event<B, T, E, U>>, i: int)
    requires
        possible(events),
        0 <= i < events.len(),
        events[i] is Woken,
    ensures
        i == 0 ==> actions(events)[i] is PollReset,
        i > 0 ==> (events[i - 1] == Event::<B, T, E, U>::FramePolled(Polled::Pending)
            && actions(events)[i] is PollReset) || (events[i - 1] == Event::<B, T, E, U>::CapacityPolled(Polled::Pending)
            && actions(events)[i] is ReserveCapacity),
        forall|k: int, chunk: B| #[trigger]
            latest_chunk(events, i, k, chunk) && actions(events)[i] is ReserveCapacity ==> actions(events)[i]
                == Action::<B, T, E, U>::ReserveCapacity(chunk.content().len() as usize),
{
    lemma_at(events, i);
    assert forall|k: int, chunk: B| #[trigger]
        latest_chunk(events, i, k, chunk) && actions(events)[i] is ReserveCapacity implies actions(events)[i]
        == Action::<B, T, E, U>::ReserveCapacity(chunk.content().len() as usize) by {
        lemma_latest_at(events, i, k, chunk);
    }
}

/// As long as the peer has not reset the stream, the body is asked for its
/// next frame.
pub proof fn law_no_reset<B: DataBuf, T, E, U>(events: Seq<Event<B, T, E, U>>, i: int)
    requires
        possible(events),
        0 <= i < events.len(),
        events[i] == Event::<B, T, E, U>::ResetPolled(Polled::Pending),
    ensures
        actions(events)[i] is PollFrame,
{
    lemma_at(events, i);
}

/// A body that is not ready suspends the transfer.
pub proof fn law_body_not_ready<B: DataBuf, T, E, U>(events: Seq<Event<B, T, E, U>>, i: int)
    requires
        possible(events),
        0 <= i < events.len(),
        events[i] == Event::<B, T, E, U>::FramePolled(Polled::Pending),
    ensures
        actions(events)[i] is Suspend,
{
    lemma_at(events, i);
}

/// A frame of an unknown kind is passed over: the transfer goes on as before it.
pub proof fn law_unknown_frame<B: DataBuf, T, E, U>(events: Seq<Event<B, T, E, U>>, i: int)
    requires
        possible(events),
        0 <= i < events.len(),
        events[i] == Event::<B, T, E, U>::FramePolled(Polled::Ready(Some(Ok(Frame::Other)))),
    ensures
        actions(events)[i] is PollReset,
{
    lemma_at(events, i);
}

/// For each chunk, exactly as much capacity is requested as it has bytes. The
/// last chunk of a body is then sent, and ends the stream. For any other chunk
/// the assigned capacity is read; if there is enough, the chunk is sent, and
/// does not end the stream; if not, its capacity is requested once more.
pub proof fn law_chunk<B: DataBuf, T, E, U>(events: Seq<Event<B, T, E, U>>, i: int, chunk: B, last: bool)
    requires
        possible(events),
        0 <= i < events.len(),
        brings(events[i], chunk, last),
    ensures
        actions(events)[i] == Action::<B, T, E, U>::ReserveCapacity(chunk.content().len() as usize),
        i + 1 < events.len() && last ==> actions(events)[i + 1] == Action::<B, T, E, U>::SendData(
            SendBuf::Buf(chunk),
            true,
        ),
        i + 1 < events.len() && !last ==> actions(events)[i + 1] is QueryCapacity,
        i + 2 < events.len() && !last ==> (events[i + 2] matches Event::Capacity(n) && actions(events)[i + 2] == if n
            >= chunk.content().len() {
            Action::<B, T, E, U>::SendData(SendBuf::Buf(chunk), false)
        } else {
            Action::<B, T, E, U>::ReserveCapacity(chunk.content().len() as usize)
        }),
{
    lemma_at(events, i);
    if i + 1 < events.len() {
        lemma_at(events, i + 1);
        transfer::lemma_step(events, i);
    }
    if i + 2 < events.len() {
        lemma_at(events, i + 2);
        transfer::lemma_step(events, i + 1);
    }
}

/// A chunk that has to wait is sent, whole and unchanged, as soon as there is
/// any capacity for it, and does not end the stream. Without capacity, the
/// transfer waits for some.
pub proof fn law_waiting_chunk_meets_capacity<B: DataBuf, T, E, U>(
    events: Seq<Event<B, T, E, U>>,
    i: int,
    k: int,
    chunk: B,
    available: usize,
)
    requires
        possible(events),
        0 <= i < events.len(),
        latest_chunk(events, i, k, chunk),
        events[i] == Event::<B, T, E, U>::CapacityPolled(Polled::Ready(Some(Ok(available)))) || (events[i]
            == Event::<B, T, E, U>::Capacity(available) && k + 2 != i),
    ensures
        available > 0 ==> actions(events)[i] == Action::<B, T, E, U>::SendData(SendBuf::Buf(chunk), false),
        available == 0 ==> actions(events)[i] is PollCapacity,
{
    lemma_at(events, i);
    lemma_latest_at(events, i, k, chunk);
    if reached(events.take(i)).phase is CheckChunk {
        assert(brings_chunk(events[i - 2]));
        assert(brings_chunk(events[k]));
    }
}

/// A transfer that is told to wait for capacity suspends.
pub proof fn law_capacity_not_ready<B: DataBuf, T, E, U>(events: Seq<Event<B, T, E, U>>, i: int)
    requires
        possible(events),
        0 <= i < events.len(),
        events[i] == Event::<B, T, E, U>::CapacityPolled(Polled::Pending),
    ensures
        actions(events)[i] is Suspend,
{
    lemma_at(events, i);
}

/// Capacity is only ever read or awaited for a chunk that the body has
/// produced, and that is not its last one.
pub proof fn law_capacity_concerns_a_chunk<B: DataBuf, T, E, U>(
    events: Seq<Event<B, T, E, U>>,
    i: int,
) -> (found: (int, B))
    requires
        possible(events),
        0 <= i < events.len(),
        events[i] is Capacity || events[i] is CapacityPolled,
    ensures
        latest_chunk(events, i, found.0, found.1),
{
    lemma_at(events, i);
    let before = events.take(i);
    let pipe = reached(before);
    let buf = match pipe.phase {
        Phase::CheckChunk(buf) => buf,
        _ => (pipe.pending_data->0).0,
    };
    assert(is_latest(before, buf));
    let (k, chunk) = choose|k: int, chunk: B| #[trigger]
        latest_chunk(before, before.len() as int, k, chunk) && buf == SendBuf::Buf(chunk);
    assert(before[k] == events[k]);
    assert forall|j: int| k < j < i implies !brings_chunk(#[trigger] events[j]) by {
        assert(before[j] == events[j]);
    }
    (k, chunk)
}

/// After capacity was requested: a last chunk or trailers that have just come
/// are sent; for a chunk that waits, the capacity is read.
pub proof fn law_reserved<B: DataBuf, T, E, U>(events: Seq<Event<B, T, E, U>>, i: int)
    requires
        possible(events),
        0 <= i < events.len(),
        events[i] is Reserved,
    ensures
        i > 0,
        match events[i - 1] {
            Event::FramePolled(Polled::Ready(Some(Ok(Frame::Data(chunk, true))))) => actions(events)[i] == Action::<
                B,
                T,
                E,
                U,
            >::SendData(SendBuf::Buf(chunk), true),
            Event::FramePolled(Polled::Ready(Some(Ok(Frame::Trailers(trailers))))) => actions(events)[i]
                == Action::<B, T, E, U>::SendTrailers(trailers),
            _ => actions(events)[i] is QueryCapacity,
        },
{
    lemma_at(events, i);
    if let Phase::ReserveChunk(buf, last) = reached(events.take(i)).phase {
        let chunk = choose|chunk: B| #[trigger]
            brings(events.take(i).last(), chunk, last) && buf == SendBuf::Buf(chunk);
        assert(brings(events[i - 1], chunk, last));
    }
}

/// When the stream has accepted data that does not end it, the next round
/// begins. When it has accepted what ends it, the transfer has succeeded.
pub proof fn law_accepted<B: DataBuf, T, E, U>(events: Seq<Event<B, T, E, U>>, i: int)
    requires
        possible(events),
        0 <= i < events.len(),
        events[i] matches Event::Sent(Ok(_)),
    ensures
        i > 0,
        match actions(events)[i - 1] {
            Action::SendData(_, last) => if last {
                actions(events)[i] matches Action::Finish(Ok(_))
            } else {
                actions(events)[i] is PollReset
            },
            Action::SendTrailers(_) => actions(events)[i] matches Action::Finish(Ok(_)),
            _ => false,
        },
{
    lemma_at(events, i);
    transfer::lemma_step(events, i);
    transfer::lemma_run(events.take(i));
    if i > 0 {
        assert(actions(events).take(i).last() == actions(events)[i - 1]);
    }
}

/// The body has told that it has come to its end: with its last chunk, with
/// trailers, or by having no more frames.
pub open spec fn ends_body<B: DataBuf, T, E, U>(event: Event<B, T, E, U>) -> bool {
    match event {
        Event::FramePolled(Polled::Ready(Some(Ok(Frame::Data(_, last))))) => last,
        Event::FramePolled(Polled::Ready(Some(Ok(Frame::Trailers(_))))) => true,
        Event::FramePolled(Polled::Ready(None)) => true,
        _ => false,
    }
}

/// The stream is ended with data only because the body ended: with its last
/// chunk, or with no data once it has no more frames.
pub proof fn law_data_ends_the_stream_only_at_the_end_of_the_body<B: DataBuf, T, E, U>(
    events: Seq<Event<B, T, E, U>>,
    i: int,
    buf: SendBuf<B>,
)
    requires
        possible(events),
        0 <= i < events.len(),
        actions(events)[i] == Action::<B, T, E, U>::SendData(buf, true),
    ensures
        (events[i] == Event::<B, T, E, U>::FramePolled(Polled::Ready(None)) && buf == SendBuf::<B>::Empty) || (i > 0
            && (buf matches SendBuf::Buf(chunk) && brings(events[i - 1], chunk, true))),
{
    lemma_at(events, i);
    if let Phase::ReserveChunk(kept, last) = reached(events.take(i)).phase {
        let chunk = choose|chunk: B| #[trigger]
            brings(events.take(i).last(), chunk, last) && kept == SendBuf::Buf(chunk);
        assert(brings(events[i - 1], chunk, last));
    }
}

/// Trailers are sent only because the body has just produced them.
pub proof fn law_trailers_come_from_the_body<B: DataBuf, T, E, U>(
    events: Seq<Event<B, T, E, U>>,
    i: int,
    trailers: T,
)
    requires
        possible(events),
        0 <= i < events.len(),
        actions(events)[i] == Action::<B, T, E, U>::SendTrailers(trailers),
    ensures
        i > 0,
        events[i - 1] == Event::<B, T, E, U>::FramePolled(Polled::Ready(Some(Ok(Frame::Trailers(trailers))))),
{
    lemma_at(events, i);
}

/// Data that does not end the stream is the latest chunk of the body, which
/// does not end with it.
pub proof fn law_other_data_is_the_latest_chunk<B: DataBuf, T, E, U>(
    events: Seq<Event<B, T, E, U>>,
    i: int,
    buf: SendBuf<B>,
) -> (found: (int, B))
    requires
        possible(events),
        0 <= i < events.len(),
        actions(events)[i] == Action::<B, T, E, U>::SendData(buf, false),
    ensures
        latest_chunk(events, i, found.0, found.1),
        buf == SendBuf::Buf(found.1),
{
    lemma_at(events, i);
    if let Phase::ReserveChunk(kept, last) = reached(events.take(i)).phase {
        assert(last);
    }
    let (k, chunk) = law_capacity_concerns_a_chunk(events, i);
    lemma_latest_at(events, i, k, chunk);
    (k, chunk)
}

/// A transfer succeeds only after its body has come to its end.
pub proof fn law_success_means_the_body_has_ended<B: DataBuf, T, E, U>(
    events: Seq<Event<B, T, E, U>>,
    i: int,
) -> (k: int)
    requires
        possible(events),
        0 <= i < events.len(),
        actions(events)[i] matches Action::Finish(Ok(_)),
    ensures
        0 <= k < i,
        ends_body(events[k]),
{
    lemma_at(events, i);
    law_accepted(events, i);
    lemma_at(events, i - 1);
    match actions(events)[i - 1] {
        Action::SendData(buf, _) => {
            law_data_ends_the_stream_only_at_the_end_of_the_body(events, i - 1, buf);
            if events[i - 1] == Event::<B, T, E, U>::FramePolled(Polled::Ready(None)) {
                i - 1
            } else {
                i - 2
            }
        },
        Action::SendTrailers(trailers) => {
            law_trailers_come_from_the_body(events, i - 1, trailers);
            i - 2
        },
        _ => i,
    }
}

/// After its end a body is not asked again.
pub proof fn law_ended_body_is_not_asked_again<B: DataBuf, T, E, U>(
    events: Seq<Event<B, T, E, U>>,
    k: int,
    i: int,
)
    requires
        possible(events),
        0 <= k < i < events.len(),
        ends_body(events[k]),
    ensures
        actions(events)[i] !is PollFrame,
        actions(events)[i] !is PollReset,
{
    lemma_at(events, k);
    transfer::lemma_step(events, k);
    lemma_at(events, k + 1);
    transfer::lemma_step(events, k + 1);
    if i > k + 1 {
        transfer::lemma_run(events.take(k + 2));
        assert(actions(events).take(k + 2).last() == actions(events)[k + 1]);
        if events[k] == Event::<B, T, E, U>::FramePolled(Polled::Ready(None)) {
            transfer::law_stream_is_ended_once(events, k, i);
        } else {
            transfer::law_stream_is_ended_once(events, k + 1, i);
        }
    }
}

/// A body that fails with an error that carries a reason code resets the
/// stream with that code, whatever it is. Without one, it is the code for an
/// internal error, 2.
pub proof fn law_reset_carries_the_reason<B: DataBuf, T, E, U>(
    events: Seq<Event<B, T, E, U>>,
    i: int,
    failure: BodyFailure<U>,
)
    requires
        possible(events),
        0 <= i < events.len(),
        events[i] == Event::<B, T, E, U>::FramePolled(Polled::Ready(Some(Err(failure)))),
    ensures
        failure.reason matches Some(reason) ==> actions(events)[i] == Action::<B, T, E, U>::SendReset(reason),
        failure.reason is None ==> actions(events)[i] == Action::<B, T, E, U>::SendReset(2),
{
    lemma_at(events, i);
}

/// Once the stream is reset, the transfer ends with the error of its body.
pub proof fn law_reset_sent<B: DataBuf, T, E, U>(events: Seq<Event<B, T, E, U>>, i: int)
    requires
        possible(events),
        0 <= i < events.len(),
        events[i] is ResetSent,
    ensures
        i > 0,
        events[i - 1] matches Event::FramePolled(Polled::Ready(Some(Err(failure)))) && actions(events)[i]
            == Action::<B, T, E, U>::Finish(Err(PipeError::UserBody(failure.error))),
{
    lemma_at(events, i);
}

} // verus!
