use bytes::Bytes;
use hyper_h2::pipe::{
    h2_reason, Action, BodyFailure, Event, Frame, PipeError, PipeToSendStream, Polled, WriteCause,
    INTERNAL_ERROR,
};

type Pipe = PipeToSendStream<Bytes, &'static str, &'static str>;
type Asked = Action<Bytes, &'static str, &'static str, &'static str>;
type Answer = Event<Bytes, &'static str, &'static str, &'static str>;

fn show(action: Asked) -> String {
    match action {
        Action::ReserveCapacity(n) => format!("reserve {}", n),
        Action::QueryCapacity => "capacity".to_string(),
        Action::PollCapacity => "poll capacity".to_string(),
        Action::PollReset => "poll reset".to_string(),
        Action::PollFrame => "poll frame".to_string(),
        Action::SendData(buf, last) => {
            format!("send {:?} {}", String::from_utf8_lossy(buf.chunk()), last)
        }
        Action::SendTrailers(trailers) => format!("trailers {}", trailers),
        Action::SendReset(reason) => format!("reset {}", reason),
        Action::Suspend => "suspend".to_string(),
        Action::Finish(Ok(())) => "done".to_string(),
        Action::Finish(Err(PipeError::BodyWrite(WriteCause::Stream(e)))) => format!("stream error {}", e),
        Action::Finish(Err(PipeError::BodyWrite(WriteCause::Reset(r)))) => format!("was reset {}", r),
        Action::Finish(Err(PipeError::BodyWrite(WriteCause::CapacityClosed))) => "closed".to_string(),
        Action::Finish(Err(PipeError::UserBody(e))) => format!("body error {}", e),
    }
}

fn answer(pipe: &mut Pipe, event: Answer) -> String {
    assert!(pipe.is_awaiting(&event));
    show(pipe.poll(event))
}

fn frame(frame: Frame<Bytes, &'static str>) -> Answer {
    Event::FramePolled(Polled::Ready(Some(Ok(frame))))
}

fn data(text: &'static str, last: bool) -> Answer {
    frame(Frame::Data(Bytes::from_static(text.as_bytes()), last))
}

fn body_error(error: &'static str, reason: Option<u32>) -> Answer {
    Event::FramePolled(Polled::Ready(Some(Err(BodyFailure { error, reason }))))
}

fn no_reset() -> Answer {
    Event::ResetPolled(Polled::Pending)
}

/// A transfer that has just asked its body for a frame.
fn asking_the_body() -> Pipe {
    let mut pipe = Pipe::new();
    assert_eq!(answer(&mut pipe, Event::Woken), "poll reset");
    assert_eq!(answer(&mut pipe, no_reset()), "poll frame");
    pipe
}

/// A transfer that waits for capacity for `hello`.
fn awaiting_capacity() -> Pipe {
    let mut pipe = asking_the_body();
    assert_eq!(answer(&mut pipe, data("hello", false)), "reserve 5");
    assert_eq!(answer(&mut pipe, Event::Reserved), "capacity");
    assert_eq!(answer(&mut pipe, Event::Capacity(4)), "reserve 5");
    assert_eq!(answer(&mut pipe, Event::Reserved), "capacity");
    assert_eq!(answer(&mut pipe, Event::Capacity(0)), "poll capacity");
    pipe
}

#[test]
fn chunks_are_sent_in_order_and_an_empty_one_ends_the_stream() {
    let mut pipe = asking_the_body();
    assert_eq!(answer(&mut pipe, data("hello", false)), "reserve 5");
    assert_eq!(answer(&mut pipe, Event::Reserved), "capacity");
    assert_eq!(answer(&mut pipe, Event::Capacity(5)), "send \"hello\" false");
    assert_eq!(answer(&mut pipe, Event::Sent(Ok(()))), "poll reset");
    assert_eq!(answer(&mut pipe, no_reset()), "poll frame");
    assert_eq!(answer(&mut pipe, data("world", false)), "reserve 5");
    assert_eq!(answer(&mut pipe, Event::Reserved), "capacity");
    assert_eq!(answer(&mut pipe, Event::Capacity(9)), "send \"world\" false");
    assert_eq!(answer(&mut pipe, Event::Sent(Ok(()))), "poll reset");
    assert_eq!(answer(&mut pipe, no_reset()), "poll frame");
    assert_eq!(answer(&mut pipe, Event::FramePolled(Polled::Ready(None))), "send \"\" true");
    assert_eq!(answer(&mut pipe, Event::Sent(Ok(()))), "done");
    assert!(!pipe.is_awaiting::<&'static str>(&Event::Woken));
    assert!(!pipe.is_awaiting::<&'static str>(&Event::Sent(Ok(()))));
}

#[test]
fn last_chunk_is_sent_without_capacity() {
    let mut pipe = asking_the_body();
    assert_eq!(answer(&mut pipe, data("hello", true)), "reserve 5");
    assert_eq!(answer(&mut pipe, Event::Reserved), "send \"hello\" true");
    assert_eq!(answer(&mut pipe, Event::Sent(Ok(()))), "done");
}

#[test]
fn empty_chunk_needs_no_capacity() {
    let mut pipe = asking_the_body();
    assert_eq!(answer(&mut pipe, data("", false)), "reserve 0");
    assert_eq!(answer(&mut pipe, Event::Reserved), "capacity");
    assert_eq!(answer(&mut pipe, Event::Capacity(0)), "send \"\" false");
    assert_eq!(answer(&mut pipe, Event::Sent(Ok(()))), "poll reset");
}

#[test]
fn body_that_is_not_ready_suspends_without_a_reservation() {
    let mut pipe = asking_the_body();
    assert_eq!(answer(&mut pipe, Event::FramePolled(Polled::Pending)), "suspend");
    assert!(pipe.pending_data.is_none());
    assert_eq!(answer(&mut pipe, Event::Woken), "poll reset");
    assert_eq!(answer(&mut pipe, no_reset()), "poll frame");
}

#[test]
fn pending_chunk_is_sent_once_there_is_some_capacity() {
    let mut pipe = asking_the_body();
    assert_eq!(answer(&mut pipe, data("hello", false)), "reserve 5");
    assert_eq!(answer(&mut pipe, Event::Reserved), "capacity");
    assert_eq!(answer(&mut pipe, Event::Capacity(4)), "reserve 5");
    assert!(pipe.pending_data.is_some());
    assert_eq!(answer(&mut pipe, Event::Reserved), "capacity");
    assert_eq!(answer(&mut pipe, Event::Capacity(4)), "send \"hello\" false");
    assert!(pipe.pending_data.is_none());
    assert_eq!(answer(&mut pipe, Event::Sent(Ok(()))), "poll reset");
}

#[test]
fn capacity_is_polled_until_there_is_some() {
    let mut pipe = awaiting_capacity();
    assert_eq!(
        answer(&mut pipe, Event::CapacityPolled(Polled::Ready(Some(Ok(0))))),
        "poll capacity"
    );
    assert_eq!(
        answer(&mut pipe, Event::CapacityPolled(Polled::Ready(Some(Ok(1))))),
        "send \"hello\" false"
    );
    assert_eq!(answer(&mut pipe, Event::Sent(Ok(()))), "poll reset");
}

#[test]
fn waiting_for_capacity_keeps_the_chunk() {
    let mut pipe = awaiting_capacity();
    assert_eq!(answer(&mut pipe, Event::CapacityPolled(Polled::Pending)), "suspend");
    assert!(matches!(pipe.pending_data, Some((_, false))));
    assert_eq!(answer(&mut pipe, Event::Woken), "reserve 5");
    assert_eq!(answer(&mut pipe, Event::Reserved), "capacity");
    assert_eq!(answer(&mut pipe, Event::Capacity(2)), "send \"hello\" false");
}

#[test]
fn capacity_error_ends_the_transfer() {
    let mut pipe = awaiting_capacity();
    assert_eq!(
        answer(&mut pipe, Event::CapacityPolled(Polled::Ready(Some(Err("broken"))))),
        "stream error broken"
    );
}

#[test]
fn closed_capacity_ends_the_transfer() {
    let mut pipe = awaiting_capacity();
    assert_eq!(answer(&mut pipe, Event::CapacityPolled(Polled::Ready(None))), "closed");
}

#[test]
fn reset_by_the_peer_ends_the_transfer() {
    let mut pipe = Pipe::new();
    assert_eq!(answer(&mut pipe, Event::Woken), "poll reset");
    assert_eq!(answer(&mut pipe, Event::ResetPolled(Polled::Ready(Ok(8)))), "was reset 8");

    let mut pipe = Pipe::new();
    assert_eq!(answer(&mut pipe, Event::Woken), "poll reset");
    assert_eq!(
        answer(&mut pipe, Event::ResetPolled(Polled::Ready(Err("broken")))),
        "stream error broken"
    );
}

#[test]
fn refused_data_ends_the_transfer() {
    let mut pipe = asking_the_body();
    assert_eq!(answer(&mut pipe, data("hello", true)), "reserve 5");
    assert_eq!(answer(&mut pipe, Event::Reserved), "send \"hello\" true");
    assert_eq!(answer(&mut pipe, Event::Sent(Err("inactive"))), "stream error inactive");

    let mut pipe = asking_the_body();
    assert_eq!(answer(&mut pipe, Event::FramePolled(Polled::Ready(None))), "send \"\" true");
    assert_eq!(answer(&mut pipe, Event::Sent(Err("inactive"))), "stream error inactive");
}

#[test]
fn trailers_give_capacity_back_and_end_the_stream() {
    let mut pipe = asking_the_body();
    assert_eq!(answer(&mut pipe, frame(Frame::Trailers("x-sum: 1"))), "reserve 0");
    assert_eq!(answer(&mut pipe, Event::Reserved), "trailers x-sum: 1");
    assert_eq!(answer(&mut pipe, Event::Sent(Ok(()))), "done");

    let mut pipe = asking_the_body();
    assert_eq!(answer(&mut pipe, frame(Frame::Trailers("x-sum: 1"))), "reserve 0");
    assert_eq!(answer(&mut pipe, Event::Reserved), "trailers x-sum: 1");
    assert_eq!(answer(&mut pipe, Event::Sent(Err("inactive"))), "stream error inactive");
}

#[test]
fn unknown_frames_are_discarded() {
    let mut pipe = asking_the_body();
    assert_eq!(answer(&mut pipe, frame(Frame::Other)), "poll reset");
    assert_eq!(answer(&mut pipe, no_reset()), "poll frame");
}

#[test]
fn body_error_resets_the_stream() {
    let mut pipe = asking_the_body();
    assert_eq!(answer(&mut pipe, body_error("no more", None)), "reset 2");
    assert_eq!(answer(&mut pipe, Event::ResetSent), "body error no more");

    let mut pipe = asking_the_body();
    assert_eq!(answer(&mut pipe, body_error("cancelled", Some(8))), "reset 8");
    assert_eq!(answer(&mut pipe, Event::ResetSent), "body error cancelled");
}

#[test]
fn reason_defaults_to_an_internal_error() {
    assert_eq!(h2_reason(None), 2);
    assert_eq!(h2_reason(Some(0)), 0);
    assert_eq!(INTERNAL_ERROR, u32::from(h2::Reason::INTERNAL_ERROR));
}

#[test]
fn only_answers_to_the_last_action_are_awaited() {
    let mut pipe = Pipe::new();
    assert!(!pipe.is_awaiting::<&'static str>(&Event::Reserved));
    assert!(pipe.is_awaiting::<&'static str>(&Event::Woken));
    assert_eq!(answer(&mut pipe, Event::Woken), "poll reset");
    assert!(!pipe.is_awaiting::<&'static str>(&Event::Woken));
    assert!(!pipe.is_awaiting::<&'static str>(&Event::FramePolled(Polled::Pending)));
    assert!(pipe.is_awaiting(&no_reset()));
}
