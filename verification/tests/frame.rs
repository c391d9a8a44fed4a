use quinn_h3::frame::{Async, Error, FrameStream, ReadOutcome};
use quinn_h3::proto::frame::{
    DataFrame, Error as ProtoError, HeadersFrame, HttpFrame, Setting, SettingsFrame,
};

/// A source that holds its bytes from the start and hands out at most one
/// read increment for each read; once they are gone it has ended.
struct MockStream {
    data: Vec<u8>,
    pos: usize,
}

impl MockStream {
    fn new(data: &[u8]) -> Self {
        MockStream { data: data.to_vec(), pos: 0 }
    }
}

/// A decoder together with its source.
struct Reader {
    stream: FrameStream,
    recv: MockStream,
}

impl Reader {
    fn new(recv: MockStream) -> Self {
        Reader { stream: FrameStream::new(), recv }
    }

    fn poll(&mut self) -> Result<Async<Option<HttpFrame>>, Error> {
        if !self.stream.need_read() {
            return self.stream.poll(ReadOutcome::NotReady);
        }
        let left = self.recv.data.len() - self.recv.pos;
        let size = if left < FrameStream::READ_SIZE { left } else { FrameStream::READ_SIZE };
        let start = self.recv.pos;
        self.recv.pos += size;
        self.stream.poll(ReadOutcome::Ready(&self.recv.data[start..start + size]))
    }
}

#[test]
fn one_frame() {
    let frame = HttpFrame::Headers(HeadersFrame { encoded: b"salut"[..].into() });
    let mut buf = vec![];
    frame.encode(&mut buf);
    let mut reader = Reader::new(MockStream::new(&buf));
    assert!(matches!(reader.poll(), Ok(Async::Ready(Some(HttpFrame::Headers(_))))));
}

#[test]
fn incomplete_frame() {
    let frame = HttpFrame::Headers(HeadersFrame { encoded: b"salut"[..].into() });
    let mut buf = vec![];
    frame.encode(&mut buf);
    buf.truncate(buf.len() - 1);
    let mut reader = Reader::new(MockStream::new(&buf));
    assert!(matches!(reader.poll(), Ok(Async::NotReady)));
}

#[test]
fn two_frames_then_incomplete() {
    let frames = [
        HttpFrame::Headers(HeadersFrame { encoded: b"header"[..].into() }),
        HttpFrame::Data(DataFrame { payload: b"body"[..].into() }),
        HttpFrame::Headers(HeadersFrame { encoded: b"trailer"[..].into() }),
    ];
    let mut buf = vec![];
    for frame in frames.iter() {
        frame.encode(&mut buf);
    }
    buf.truncate(buf.len() - 1);
    let mut reader = Reader::new(MockStream::new(&buf));
    assert!(matches!(reader.poll(), Ok(Async::Ready(Some(HttpFrame::Headers(_))))));
    assert!(matches!(reader.poll(), Ok(Async::Ready(Some(HttpFrame::Data(_))))));
    assert!(matches!(reader.poll(), Ok(Async::NotReady)));
}

#[test]
fn frame_to_big() {
    let frame = HttpFrame::Headers(HeadersFrame {
        encoded: [0u8; FrameStream::READ_SIZE][..].into(),
    });
    let mut buf = vec![];
    frame.encode(&mut buf);
    buf.truncate(buf.len() - 1);
    let mut reader = Reader::new(MockStream::new(&buf));
    assert!(matches!(reader.poll(), Err(Error::Overflow)));
}

#[test]
fn read_increment_is_ten_kibibytes() {
    assert_eq!(FrameStream::READ_SIZE, 10240);
}

#[test]
fn new_stream_needs_a_read() {
    let stream = FrameStream::new();
    assert!(stream.need_read());
    assert_eq!(stream.buffered_len(), 0);
}

#[test]
fn one_frame_yields_its_payload() {
    let frame = HttpFrame::Headers(HeadersFrame { encoded: b"salut"[..].into() });
    let mut buf = vec![];
    frame.encode(&mut buf);
    let mut stream = FrameStream::new();
    match stream.poll(ReadOutcome::Ready(&buf)) {
        Ok(Async::Ready(Some(got))) => assert_eq!(got, frame),
        other => panic!("no frame: {:?}", other),
    }
    assert!(!stream.need_read());
    assert_eq!(stream.buffered_len(), 0);
}

#[test]
fn frames_come_out_in_order_with_their_payloads() {
    let frames = [
        HttpFrame::Headers(HeadersFrame { encoded: b"header"[..].into() }),
        HttpFrame::Data(DataFrame { payload: b"body"[..].into() }),
        HttpFrame::Settings(SettingsFrame { entries: vec![Setting { id: 6, value: 70000 }] }),
        HttpFrame::Goaway(5),
    ];
    let mut buf = vec![];
    for frame in frames.iter() {
        frame.encode(&mut buf);
    }
    let mut reader = Reader::new(MockStream::new(&buf));
    for frame in frames.iter() {
        match reader.poll() {
            Ok(Async::Ready(Some(got))) => assert_eq!(&got, frame),
            other => panic!("no frame: {:?}", other),
        }
    }
    // the buffer is used up: not ready, and a read is asked for
    assert!(matches!(reader.poll(), Ok(Async::NotReady)));
    assert!(reader.stream.need_read());
    // the source has ended
    assert!(matches!(reader.poll(), Ok(Async::Ready(None))));
}

#[test]
fn incomplete_frame_asks_for_a_read_and_completes() {
    let frame = HttpFrame::Data(DataFrame { payload: b"body"[..].into() });
    let mut buf = vec![];
    frame.encode(&mut buf);
    let (head, tail) = buf.split_at(buf.len() - 1);
    let mut stream = FrameStream::new();
    assert!(matches!(stream.poll(ReadOutcome::Ready(head)), Ok(Async::NotReady)));
    assert!(stream.need_read());
    assert_eq!(stream.buffered_len(), head.len());
    match stream.poll(ReadOutcome::Ready(tail)) {
        Ok(Async::Ready(Some(got))) => assert_eq!(got, frame),
        other => panic!("no frame: {:?}", other),
    }
    assert!(!stream.need_read());
    assert_eq!(stream.buffered_len(), 0);
}

#[test]
fn end_of_stream_ends_the_sequence() {
    let mut reader = Reader::new(MockStream::new(&[]));
    assert!(matches!(reader.poll(), Ok(Async::Ready(None))));
}

#[test]
fn source_not_ready_suspends() {
    let mut stream = FrameStream::new();
    assert!(matches!(stream.poll(ReadOutcome::NotReady), Ok(Async::NotReady)));
    assert!(stream.need_read());
    assert_eq!(stream.buffered_len(), 0);
}

#[test]
fn source_failure_is_handed_on() {
    let mut stream = FrameStream::new();
    let failure = std::io::Error::new(std::io::ErrorKind::ConnectionReset, "reset");
    match stream.poll(ReadOutcome::Failed(failure)) {
        Err(Error::Io(e)) => assert_eq!(e.kind(), std::io::ErrorKind::ConnectionReset),
        other => panic!("no failure: {:?}", other),
    }
    assert!(stream.need_read());
    assert_eq!(stream.buffered_len(), 0);
}

#[test]
fn read_is_not_looked_at_while_the_buffer_may_hold_a_frame() {
    let frames = [HttpFrame::CancelPush(1), HttpFrame::MaxPushId(2)];
    let mut buf = vec![];
    for frame in frames.iter() {
        frame.encode(&mut buf);
    }
    let mut stream = FrameStream::new();
    assert!(matches!(
        stream.poll(ReadOutcome::Ready(&buf)),
        Ok(Async::Ready(Some(HttpFrame::CancelPush(1))))
    ));
    let failure = std::io::Error::new(std::io::ErrorKind::Other, "not looked at");
    assert!(matches!(
        stream.poll(ReadOutcome::Failed(failure)),
        Ok(Async::Ready(Some(HttpFrame::MaxPushId(2))))
    ));
}

#[test]
fn overflow_only_at_exactly_one_read_increment() {
    // a frame that announces more payload than it brings
    let frame = HttpFrame::Data(DataFrame { payload: vec![7u8; 2 * FrameStream::READ_SIZE] });
    let mut buf = vec![];
    frame.encode(&mut buf);

    let mut stream = FrameStream::new();
    let short = &buf[..FrameStream::READ_SIZE - 1];
    assert!(matches!(stream.poll(ReadOutcome::Ready(short)), Ok(Async::NotReady)));
    // one more byte makes the buffer exactly one read increment long
    let next = &buf[FrameStream::READ_SIZE - 1..FrameStream::READ_SIZE];
    assert!(matches!(stream.poll(ReadOutcome::Ready(next)), Err(Error::Overflow)));

    let mut stream = FrameStream::new();
    assert!(matches!(stream.poll(ReadOutcome::Ready(short)), Ok(Async::NotReady)));
    // two more bytes step over that length
    let next = &buf[FrameStream::READ_SIZE - 1..FrameStream::READ_SIZE + 1];
    assert!(matches!(stream.poll(ReadOutcome::Ready(next)), Ok(Async::NotReady)));
    assert_eq!(stream.buffered_len(), FrameStream::READ_SIZE + 1);
}

#[test]
fn bytes_that_are_no_frame_are_a_protocol_error() {
    // type 0x21 is none that is decoded
    let mut stream = FrameStream::new();
    assert!(matches!(
        stream.poll(ReadOutcome::Ready(&[0x21, 0x00])),
        Err(Error::Proto(ProtoError::UnsupportedFrame(0x21)))
    ));
    // a goaway frame whose payload is longer than its one integer
    let mut stream = FrameStream::new();
    assert!(matches!(
        stream.poll(ReadOutcome::Ready(&[0x07, 0x02, 0x01, 0x01])),
        Err(Error::Proto(ProtoError::Malformed))
    ));
    assert_eq!(stream.buffered_len(), 4);
}

#[test]
fn errors_convert() {
    assert!(matches!(Error::from(ProtoError::Malformed), Error::Proto(ProtoError::Malformed)));
    let failure = std::io::Error::new(std::io::ErrorKind::BrokenPipe, "pipe");
    match Error::from(failure) {
        Error::Io(e) => assert_eq!(e.kind(), std::io::ErrorKind::BrokenPipe),
        other => panic!("not an i/o error: {:?}", other),
    }
}

#[test]
fn truncated_frame_of_exactly_one_increment_overflows() {
    // three bytes of header and a payload that lacks its last byte
    let frame = HttpFrame::Headers(HeadersFrame {
        encoded: vec![0u8; FrameStream::READ_SIZE - 2],
    });
    let mut buf = vec![];
    frame.encode(&mut buf);
    assert_eq!(buf.len(), FrameStream::READ_SIZE + 1);
    buf.truncate(buf.len() - 1);
    let mut reader = Reader::new(MockStream::new(&buf));
    assert!(matches!(reader.poll(), Err(Error::Overflow)));

    // one byte less in the payload, and the same cut only waits
    let frame = HttpFrame::Headers(HeadersFrame {
        encoded: vec![0u8; FrameStream::READ_SIZE - 3],
    });
    let mut buf = vec![];
    frame.encode(&mut buf);
    buf.truncate(buf.len() - 1);
    let mut reader = Reader::new(MockStream::new(&buf));
    assert!(matches!(reader.poll(), Ok(Async::NotReady)));
}

#[test]
fn frame_of_exactly_one_increment_is_yielded() {
    let frame = HttpFrame::Data(DataFrame { payload: vec![5u8; FrameStream::READ_SIZE - 3] });
    let mut buf = vec![];
    frame.encode(&mut buf);
    assert_eq!(buf.len(), FrameStream::READ_SIZE);
    let mut reader = Reader::new(MockStream::new(&buf));
    match reader.poll() {
        Ok(Async::Ready(Some(got))) => assert_eq!(got, frame),
        other => panic!("no frame: {:?}", other),
    }
}
