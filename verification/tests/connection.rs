use bytes::BytesMut;
use quinn_h3::connection::{Connection, ConnectionError, State};
use quinn_h3::proto::frame::{
    DataFrame, HeadersFrame, HttpFrame, PriorityFrame, Setting, SettingsFrame,
};
use quinn_h3::proto::{ErrorCode, StreamType};
use quinn_h3::qpack::DynamicTable;

/// The reason that the table of these tests gives: the byte it refused.
#[derive(Debug, PartialEq)]
struct Refused(u8);

/// A table that keeps what it was fed, refuses input that starts with 0xff,
/// and acknowledges each insertion with the number of bytes it took.
struct Table {
    fed: Vec<u8>,
}

impl DynamicTable for Table {
    type EncoderError = Refused;
    type DecoderError = Refused;

    fn empty() -> Self {
        Table { fed: Vec::new() }
    }

    fn on_decoder_recv(&mut self, buf: &[u8]) -> Result<(), Refused> {
        if buf.first() == Some(&0xff) {
            return Err(Refused(0xff));
        }
        self.fed.extend_from_slice(buf);
        Ok(())
    }

    fn on_encoder_recv(&mut self, buf: &[u8], acks: &mut BytesMut) -> Result<(), Refused> {
        acks.extend_from_slice(&[buf.len() as u8]);
        if buf.first() == Some(&0xff) {
            return Err(Refused(0xff));
        }
        self.fed.extend_from_slice(buf);
        Ok(())
    }
}

type Conn = Connection<Table>;
type ConnError = ConnectionError<Refused, Refused>;

fn check_recv_stream_unique(ty: StreamType, err: ConnError) {
    let mut conn = Conn::new();
    assert_eq!(conn.on_recv_stream(ty), Ok(()));
    assert_eq!(conn.on_recv_stream(ty), Err(err));
}

#[test]
fn recv_stream() {
    check_recv_stream_unique(StreamType::Control, ConnectionError::ControlStreamAlreadyOpen);
    check_recv_stream_unique(StreamType::Encoder, ConnectionError::EncoderStreamAlreadyOpen);
    check_recv_stream_unique(StreamType::Decoder, ConnectionError::DecoderStreamAlreadyOpen);
}

#[test]
fn handle_settings_frame() {
    let mut conn = Conn::new();

    let settings = SettingsFrame::default();
    conn.on_recv_control(&HttpFrame::Settings(settings.clone()));
    assert_eq!(Some(&settings), conn.remote_settings());
}

#[test]
fn new_connection_is_fresh() {
    let conn = Conn::new();
    assert_eq!(conn.state(), State::Open);
    assert!(!conn.is_admitted(StreamType::Control));
    assert!(!conn.is_admitted(StreamType::Encoder));
    assert!(!conn.is_admitted(StreamType::Decoder));
    assert_eq!(conn.remote_settings(), None);
    assert_eq!(conn.local_settings(), &SettingsFrame::default());
    // An empty settings frame: type 4, length 0.
    assert_eq!(conn.pending_control(), &[0x04, 0x00][..]);
    assert!(conn.pending_decoder().is_empty());
    assert!(conn.pending_encoder().is_empty());
    assert!(conn.decoder_table().fed.is_empty());
    assert!(conn.encoder_table().fed.is_empty());
}

#[test]
fn first_admission_keeps_state_open() {
    let mut conn = Conn::new();
    assert_eq!(conn.on_recv_stream(StreamType::Encoder), Ok(()));
    assert_eq!(conn.state(), State::Open);
    assert!(conn.is_admitted(StreamType::Encoder));
    assert!(!conn.is_admitted(StreamType::Control));
    assert!(!conn.is_admitted(StreamType::Decoder));
}

#[test]
fn second_admission_closes_with_wrong_stream_count() {
    for ty in [StreamType::Control, StreamType::Encoder, StreamType::Decoder] {
        let mut conn = Conn::new();
        assert_eq!(conn.on_recv_stream(ty), Ok(()));
        assert!(conn.on_recv_stream(ty).is_err());
        assert_eq!(conn.state(), State::Closing(ErrorCode::WrongStreamCount));
        assert!(conn.is_admitted(ty));
    }
}

#[test]
fn roles_are_admitted_independently() {
    let mut conn = Conn::new();
    assert_eq!(conn.on_recv_stream(StreamType::Control), Ok(()));
    assert_eq!(conn.on_recv_stream(StreamType::Encoder), Ok(()));
    assert_eq!(conn.on_recv_stream(StreamType::Decoder), Ok(()));
    assert_eq!(conn.state(), State::Open);
}

#[test]
fn unknown_role_is_refused() {
    let mut conn = Conn::new();
    let ty = StreamType::Other(0x01);
    assert_eq!(conn.on_recv_stream(ty), Err(ConnectionError::UnimplementedStream(ty)));
    assert_eq!(conn.state(), State::Closing(ErrorCode::UnknownStreamType));
    // and again, with the same answer
    assert_eq!(conn.on_recv_stream(ty), Err(ConnectionError::UnimplementedStream(ty)));
    assert_eq!(conn.state(), State::Closing(ErrorCode::UnknownStreamType));
    assert!(!conn.is_admitted(ty));
}

#[test]
fn stream_type_from_id() {
    assert_eq!(StreamType::from_id(0x00), StreamType::Control);
    assert_eq!(StreamType::from_id(0x02), StreamType::Encoder);
    assert_eq!(StreamType::from_id(0x03), StreamType::Decoder);
    assert_eq!(StreamType::from_id(0x01), StreamType::Other(0x01));
    assert_eq!(StreamType::from_id(0x21), StreamType::Other(0x21));
}

#[test]
fn settings_are_kept_exactly() {
    let mut conn = Conn::new();
    let settings = SettingsFrame {
        entries: vec![Setting { id: 1, value: 4096 }, Setting { id: 7, value: 16 }],
    };
    conn.on_recv_control(&HttpFrame::Settings(settings.clone()));
    assert_eq!(conn.remote_settings(), Some(&settings));
    assert_eq!(conn.state(), State::Open);
}

#[test]
fn frame_before_settings_closes_with_missing_settings() {
    let frames = [
        HttpFrame::Data(DataFrame { payload: vec![1, 2, 3] }),
        HttpFrame::Headers(HeadersFrame { encoded: vec![] }),
        HttpFrame::Priority(PriorityFrame { payload: vec![0] }),
        HttpFrame::CancelPush(1),
        HttpFrame::Goaway(2),
        HttpFrame::MaxPushId(3),
    ];
    for frame in frames.iter() {
        let mut conn = Conn::new();
        conn.on_recv_control(frame);
        assert_eq!(conn.state(), State::Closing(ErrorCode::MissingSettings));
        assert_eq!(conn.remote_settings(), None);
    }
}

#[test]
fn second_settings_frame_closes_and_keeps_the_first() {
    let mut conn = Conn::new();
    let first = SettingsFrame { entries: vec![Setting { id: 1, value: 100 }] };
    let second = SettingsFrame { entries: vec![Setting { id: 1, value: 200 }] };
    conn.on_recv_control(&HttpFrame::Settings(first.clone()));
    conn.on_recv_control(&HttpFrame::Settings(second));
    assert_eq!(conn.state(), State::Closing(ErrorCode::UnexpectedFrame));
    assert_eq!(conn.remote_settings(), Some(&first));
}

#[test]
fn control_frames_after_settings_change_nothing() {
    let frames = [
        HttpFrame::Priority(PriorityFrame { payload: vec![0] }),
        HttpFrame::CancelPush(1),
        HttpFrame::Goaway(2),
        HttpFrame::MaxPushId(3),
    ];
    for frame in frames.iter() {
        let mut conn = Conn::new();
        let settings = SettingsFrame::default();
        conn.on_recv_control(&HttpFrame::Settings(settings.clone()));
        conn.on_recv_control(frame);
        assert_eq!(conn.state(), State::Open);
        assert_eq!(conn.remote_settings(), Some(&settings));
    }
}

#[test]
fn request_frames_after_settings_close_with_unexpected_frame() {
    let frames = [
        HttpFrame::Data(DataFrame { payload: vec![1] }),
        HttpFrame::Headers(HeadersFrame { encoded: vec![2] }),
    ];
    for frame in frames.iter() {
        let mut conn = Conn::new();
        conn.on_recv_control(&HttpFrame::Settings(SettingsFrame::default()));
        conn.on_recv_control(frame);
        assert_eq!(conn.state(), State::Closing(ErrorCode::UnexpectedFrame));
    }
}

#[test]
fn decoder_bytes_reach_the_encoder_table() {
    let mut conn = Conn::new();
    assert_eq!(conn.on_recv_decoder(&[1, 2, 3]), Ok(()));
    assert_eq!(conn.encoder_table().fed, vec![1, 2, 3]);
    assert!(conn.decoder_table().fed.is_empty());
    assert_eq!(conn.state(), State::Open);
    assert!(conn.pending_decoder().is_empty());
}

#[test]
fn refused_decoder_bytes_close_the_connection() {
    let mut conn = Conn::new();
    assert_eq!(
        conn.on_recv_decoder(&[0xff, 1]),
        Err(ConnectionError::DecoderStreamError { reason: Refused(0xff) })
    );
    assert_eq!(conn.state(), State::Closing(ErrorCode::QpackDecoderStreamError));
}

#[test]
fn encoder_bytes_reach_the_decoder_table_and_queue_acknowledgments() {
    let mut conn = Conn::new();
    assert_eq!(conn.on_recv_encoder(&[9, 8]), Ok(()));
    assert_eq!(conn.on_recv_encoder(&[7]), Ok(()));
    assert_eq!(conn.decoder_table().fed, vec![9, 8, 7]);
    assert!(conn.encoder_table().fed.is_empty());
    assert_eq!(conn.pending_decoder(), &[2, 1][..]);
    assert_eq!(conn.pending_control(), &[0x04, 0x00][..]);
    assert!(conn.pending_encoder().is_empty());
    assert_eq!(conn.state(), State::Open);
}

#[test]
fn refused_encoder_bytes_close_the_connection() {
    let mut conn = Conn::new();
    assert_eq!(
        conn.on_recv_encoder(&[0xff]),
        Err(ConnectionError::EncoderStreamError { reason: Refused(0xff) })
    );
    assert_eq!(conn.state(), State::Closing(ErrorCode::QpackEncoderStreamError));
}

#[test]
fn outcomes_settle_as_the_table_answered() {
    let mut conn = Conn::new();
    assert_eq!(conn.on_decoder_outcome(Ok(())), Ok(()));
    assert_eq!(conn.on_encoder_outcome(Ok(())), Ok(()));
    assert_eq!(conn.state(), State::Open);
    assert_eq!(
        conn.on_decoder_outcome(Err(Refused(1))),
        Err(ConnectionError::DecoderStreamError { reason: Refused(1) })
    );
    assert_eq!(conn.state(), State::Closing(ErrorCode::QpackDecoderStreamError));
    assert_eq!(
        conn.on_encoder_outcome(Err(Refused(2))),
        Err(ConnectionError::EncoderStreamError { reason: Refused(2) })
    );
    assert_eq!(conn.state(), State::Closing(ErrorCode::QpackEncoderStreamError));
}

#[test]
fn closing_connection_never_reopens() {
    let mut conn = Conn::new();
    conn.on_recv_control(&HttpFrame::Goaway(0));
    assert_eq!(conn.state(), State::Closing(ErrorCode::MissingSettings));
    assert_eq!(conn.on_recv_stream(StreamType::Control), Ok(()));
    assert_ne!(conn.state(), State::Open);
    assert_eq!(conn.on_recv_decoder(&[1]), Ok(()));
    assert_ne!(conn.state(), State::Open);
    assert_eq!(conn.on_recv_encoder(&[1]), Ok(()));
    assert_ne!(conn.state(), State::Open);
    conn.on_recv_control(&HttpFrame::Settings(SettingsFrame::default()));
    assert_ne!(conn.state(), State::Open);
}
