//! Two transfers share one connection window. One of them stalls after it has
//! used all of the window but one byte, which must be left to the other.

use std::future::Future;
use std::io::IoSlice;
use std::pin::Pin;
use std::task::{Context, Poll};
use std::time::Duration;

use bytes::{Buf, Bytes};
use h2::{Reason, SendStream};
use http::{HeaderMap, Request};
use hyper_h2::pipe::{Action, Event, Frame, PipeError, PipeToSendStream, Polled};
use hyper_h2::send_buf::SendBuf;
use hyper_h2::SPEC_WINDOW_SIZE;

const WINDOW_SIZE: u32 = 65_535;

struct Wire(SendBuf<Bytes>);

impl Buf for Wire {
    fn remaining(&self) -> usize {
        self.0.remaining()
    }

    fn chunk(&self) -> &[u8] {
        self.0.chunk()
    }

    fn advance(&mut self, cnt: usize) {
        assert!(matches!(self.0, SendBuf::Empty) || cnt <= self.0.remaining());
        self.0.advance(cnt)
    }

    fn chunks_vectored<'a>(&'a self, dst: &mut [IoSlice<'a>]) -> usize {
        self.0.chunks_vectored(dst)
    }
}

/// A body of one chunk, which then ends or stalls for ever.
struct OneChunk {
    chunk: Option<Bytes>,
    stalls: bool,
}

impl OneChunk {
    fn poll_frame(&mut self) -> Polled<Option<Result<Frame<Bytes, HeaderMap>, hyper_h2::pipe::BodyFailure<()>>>> {
        match self.chunk.take() {
            Some(chunk) => Polled::Ready(Some(Ok(Frame::Data(chunk, false)))),
            None if self.stalls => Polled::Pending,
            None => Polled::Ready(None),
        }
    }
}

struct Transfer {
    pipe: PipeToSendStream<Bytes, HeaderMap, ()>,
    stream: SendStream<Wire>,
    body: OneChunk,
}

fn polled<A>(poll: Poll<A>) -> Polled<A> {
    match poll {
        Poll::Pending => Polled::Pending,
        Poll::Ready(answer) => Polled::Ready(answer),
    }
}

impl Future for Transfer {
    type Output = Result<(), PipeError<h2::Error, ()>>;

    fn poll(self: Pin<&mut Self>, cx: &mut Context<'_>) -> Poll<Self::Output> {
        let me = self.get_mut();
        let mut event = Event::Woken;
        loop {
            assert!(me.pipe.is_awaiting(&event));
            event = match me.pipe.poll(event) {
                Action::ReserveCapacity(len) => {
                    me.stream.reserve_capacity(len);
                    Event::Reserved
                }
                Action::QueryCapacity => Event::Capacity(me.stream.capacity()),
                Action::PollCapacity => Event::CapacityPolled(polled(me.stream.poll_capacity(cx))),
                Action::PollReset => {
                    Event::ResetPolled(polled(me.stream.poll_reset(cx).map_ok(u32::from)))
                }
                Action::PollFrame => Event::FramePolled(me.body.poll_frame()),
                Action::SendData(buf, last) => Event::Sent(me.stream.send_data(Wire(buf), last)),
                Action::SendTrailers(trailers) => Event::Sent(me.stream.send_trailers(trailers)),
                Action::SendReset(reason) => {
                    me.stream.send_reset(Reason::from(reason));
                    Event::ResetSent
                }
                Action::Suspend => return Poll::Pending,
                Action::Finish(result) => return Poll::Ready(result),
            };
        }
    }
}

/// Reads request bodies but never gives the capacity they used back.
async fn serve_without_release(io: tokio::io::DuplexStream) {
    let mut builder = h2::server::Builder::new();
    builder.initial_window_size(WINDOW_SIZE);
    builder.initial_connection_window_size(WINDOW_SIZE);
    let mut conn = builder.handshake::<_, Bytes>(io).await.unwrap();
    while let Some(Ok((req, mut respond))) = conn.accept().await {
        tokio::spawn(async move {
            let mut body = req.into_body();
            while let Some(chunk) = body.data().await {
                if chunk.is_err() {
                    return;
                }
            }
            let response = http::Response::builder().status(200).body(()).unwrap();
            if let Ok(mut send) = respond.send_response(response, false) {
                let _ = send.send_data(Bytes::from("ok"), true);
            }
        });
    }
}

async fn two_streams() {
    let (client_io, server_io) = tokio::io::duplex(1 << 20);
    tokio::spawn(serve_without_release(server_io));

    let mut builder = h2::client::Builder::new();
    builder.initial_window_size(WINDOW_SIZE);
    builder.initial_connection_window_size(WINDOW_SIZE);
    let (mut sender, conn) = builder.handshake::<_, Wire>(client_io).await.unwrap();
    tokio::spawn(async move {
        let _ = conn.await;
    });

    // Stream A: all of the window but one byte, then stall.
    let req_a = Request::post("http://localhost/a").body(()).unwrap();
    let (_resp_a, stream_a) = sender.send_request(req_a, false).unwrap();
    tokio::spawn(Transfer {
        pipe: PipeToSendStream::new(),
        stream: stream_a,
        body: OneChunk {
            chunk: Some(Bytes::from(vec![0xAA; (WINDOW_SIZE - 1) as usize])),
            stalls: true,
        },
    });
    tokio::time::sleep(Duration::from_millis(200)).await;

    // Stream B: one byte.
    let req_b = Request::post("http://localhost/b").body(()).unwrap();
    let (resp_b_fut, stream_b) = sender.send_request(req_b, false).unwrap();
    tokio::spawn(Transfer {
        pipe: PipeToSendStream::new(),
        stream: stream_b,
        body: OneChunk {
            chunk: Some(Bytes::from_static(b"B")),
            stalls: false,
        },
    });

    let stream_b_result = tokio::time::timeout(Duration::from_secs(5), resp_b_fut).await;
    assert!(
        stream_b_result.is_ok(),
        "Stream B should complete (fix resolves the deadlock)"
    );
    let resp_b = stream_b_result.unwrap().expect("Stream B response");
    assert_eq!(resp_b.status(), 200);
}

#[test]
fn h2_reserve_capacity_deadlock() {
    assert_eq!(WINDOW_SIZE, SPEC_WINDOW_SIZE);
    tokio::runtime::Builder::new_current_thread()
        .enable_time()
        .build()
        .unwrap()
        .block_on(two_streams());
}
