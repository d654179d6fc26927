use std::io::{Cursor, IoSlice};

use bytes::Bytes;
use hyper_h2::data_buf::DataBuf;
use hyper_h2::send_buf::SendBuf;

/// Two pieces of data that do not lie side by side.
struct Halves(Bytes, Bytes);

impl DataBuf for Halves {
    fn remaining(&self) -> usize {
        self.0.len() + self.1.len()
    }

    fn chunk(&self) -> &[u8] {
        if self.0.is_empty() {
            &self.1[..]
        } else {
            &self.0[..]
        }
    }

    fn advance(&mut self, cnt: usize) {
        let first = cnt.min(self.0.len());
        let _ = self.0.split_to(first);
        let _ = self.1.split_to(cnt - first);
    }

    fn chunks_vectored<'a>(&'a self, dst: &mut [IoSlice<'a>]) -> usize {
        let mut n = 0;
        for half in [&self.0, &self.1] {
            if n < dst.len() && !half.is_empty() {
                dst[n] = IoSlice::new(&half[..]);
                n += 1;
            }
        }
        n
    }
}

fn cursor(data: &[u8], position: u64) -> SendBuf<Bytes> {
    let mut cursor = Cursor::new(data.to_vec().into_boxed_slice());
    cursor.set_position(position);
    SendBuf::Cursor(cursor)
}

fn vectored<B: DataBuf>(buf: &SendBuf<B>, slots: usize) -> (usize, Vec<Vec<u8>>) {
    let mut dst = vec![IoSlice::new(b"-"); slots];
    let n = buf.chunks_vectored(&mut dst);
    (n, dst.iter().map(|slice| slice.to_vec()).collect())
}

#[test]
fn a_chunk_is_read_from_the_front() {
    let mut buf = SendBuf::Buf(Bytes::from_static(b"hello world"));
    assert_eq!(buf.remaining(), 11);
    assert_eq!(buf.chunk(), b"hello world");
    buf.advance(6);
    assert_eq!(buf.remaining(), 5);
    assert_eq!(buf.chunk(), b"world");
    assert!(matches!(buf, SendBuf::Buf(_)));
    buf.advance(0);
    assert_eq!(buf.chunk(), b"world");
    buf.advance(5);
    assert_eq!(buf.remaining(), 0);
    assert_eq!(buf.chunk(), b"");
}

#[test]
fn a_cursor_is_read_from_its_position() {
    let mut buf = cursor(b"hello world", 2);
    assert_eq!(buf.remaining(), 9);
    assert_eq!(buf.chunk(), b"llo world");
    buf.advance(4);
    assert_eq!(buf.remaining(), 5);
    assert_eq!(buf.chunk(), b"world");
    assert!(matches!(buf, SendBuf::Cursor(_)));
}

#[test]
fn a_cursor_behind_its_end_is_empty() {
    let mut buf = cursor(b"abc", 7);
    assert_eq!(buf.remaining(), 0);
    assert_eq!(buf.chunk(), b"");
    buf.advance(0);
    assert_eq!(buf.remaining(), 0);
    assert_eq!(vectored(&buf, 1), (0, vec![b"-".to_vec()]));
}

#[test]
fn no_data_can_be_advanced_by_any_count() {
    let mut buf: SendBuf<Bytes> = SendBuf::Empty;
    assert_eq!(buf.remaining(), 0);
    assert_eq!(buf.chunk(), b"");
    buf.advance(7);
    assert!(matches!(buf, SendBuf::Empty));
    assert_eq!(buf.remaining(), 0);
    assert_eq!(vectored(&buf, 2), (0, vec![b"-".to_vec(), b"-".to_vec()]));
}

#[test]
fn contiguous_data_takes_one_slot() {
    let hello: SendBuf<Bytes> = SendBuf::Buf(Bytes::from_static(b"hello"));
    assert_eq!(vectored(&hello, 0), (0, vec![]));
    assert_eq!(vectored(&hello, 2), (1, vec![b"hello".to_vec(), b"-".to_vec()]));
    assert_eq!(vectored(&cursor(b"hello", 1), 0), (0, vec![]));
    assert_eq!(vectored(&cursor(b"hello", 1), 2), (1, vec![b"ello".to_vec(), b"-".to_vec()]));
    let nothing: SendBuf<Bytes> = SendBuf::Buf(Bytes::new());
    assert_eq!(vectored(&nothing, 2), (0, vec![b"-".to_vec(), b"-".to_vec()]));
}

#[test]
fn disjoint_data_takes_a_slot_for_each_piece() {
    let mut buf = SendBuf::Buf(Halves(Bytes::from_static(b"hello "), Bytes::from_static(b"world")));
    assert_eq!(buf.remaining(), 11);
    assert_eq!(buf.chunk(), b"hello ");
    assert_eq!(vectored(&buf, 1), (1, vec![b"hello ".to_vec()]));
    assert_eq!(
        vectored(&buf, 3),
        (2, vec![b"hello ".to_vec(), b"world".to_vec(), b"-".to_vec()])
    );
    buf.advance(8);
    assert_eq!(buf.remaining(), 3);
    assert_eq!(buf.chunk(), b"rld");
}

#[test]
fn reading_chunk_by_chunk_gives_the_content() {
    let mut buf = SendBuf::Buf(Halves(Bytes::from_static(b"hello "), Bytes::from_static(b"world")));
    let mut read = Vec::new();
    while buf.remaining() > 0 {
        let front = buf.chunk().to_vec();
        assert!(!front.is_empty());
        buf.advance(front.len());
        read.extend(front);
    }
    assert_eq!(read, b"hello world");
}
