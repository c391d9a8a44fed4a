//! The connection's protocol state: which streams the peer has opened, the
//! settings exchanged, the two header-compression tables and the bytes
//! waiting to be sent.

use vstd::prelude::*;
use bytes::BytesMut;
use crate::buffer::contents;
use crate::proto::frame::{FrameView, HttpFrame, Setting, SettingsFrame};
use crate::proto::{ErrorCode, StreamType};
use crate::qpack::DynamicTable;

verus! {

/// A violation of the protocol by the peer. `E` and `D` are the reasons that
/// the header-compression table gives for refusing acknowledgments and
/// insertions.
#[derive(Debug, PartialEq)]
#[allow(inconsistent_fields)]
pub enum ConnectionError<E, D> {
    SettingsFrameUnexpected,
    SettingsFrameMissing,
    ControlStreamAlreadyOpen,
    EncoderStreamAlreadyOpen,
    DecoderStreamAlreadyOpen,
    UnimplementedStream(StreamType),
    DecoderStreamError { reason: E },
    EncoderStreamError { reason: D },
}

/// Where a connection stands. It starts open and never becomes open again.
#[derive(Clone, Copy, Debug, PartialEq, Eq, Structural)]
pub enum State {
    Open,
    Closing(ErrorCode),
    Closed,
}

/// The protocol state of one connection.
pub struct Connection<T: DynamicTable> {
    state: State,
    remote_control_stream: bool,
    encoder_stream: bool,
    decoder_stream: bool,
    local_settings: SettingsFrame,
    remote_settings: Option<SettingsFrame>,
    decoder_table: T,
    encoder_table: T,
    pending_control: BytesMut,
    pending_decoder: BytesMut,
    pending_encoder: BytesMut,
}

/// A connection as mathematical values.
pub ghost struct ConnectionView<T> {
    pub state: State,
    /// Whether the peer has opened its control stream.
    pub remote_control_stream: bool,
    /// Whether the peer has opened its encoder stream.
    pub encoder_stream: bool,
    /// Whether the peer has opened its decoder stream.
    pub decoder_stream: bool,
    /// The settings that this endpoint announces.
    pub local_settings: Seq<Setting>,
    /// The settings that the peer announced, once it has.
    pub remote_settings: Option<Seq<Setting>>,
    /// The table that mirrors the peer's insertions.
    pub decoder_table: T,
    /// The table of this endpoint's own insertions.
    pub encoder_table: T,
    /// Bytes to send on the control stream.
    pub pending_control: Seq<u8>,
    /// Bytes to send on the decoder stream.
    pub pending_decoder: Seq<u8>,
    /// Bytes to send on the encoder stream.
    pub pending_encoder: Seq<u8>,
}

impl<T> ConnectionView<T> {
    /// Whether the peer has opened the stream of the role `ty`.
    pub open spec fn is_admitted(self, ty: StreamType) -> bool {
        match ty {
            StreamType::Control => self.remote_control_stream,
            StreamType::Encoder => self.encoder_stream,
            StreamType::Decoder => self.decoder_stream,
            StreamType::Other(_) => false,
        }
    }

    /// The connection once the stream of the role `ty` is noted as open.
    pub open spec fn with_stream(self, ty: StreamType) -> ConnectionView<T> {
        match ty {
            StreamType::Control => ConnectionView { remote_control_stream: true, ..self },
            StreamType::Encoder => ConnectionView { encoder_stream: true, ..self },
            StreamType::Decoder => ConnectionView { decoder_stream: true, ..self },
            StreamType::Other(_) => self,
        }
    }

    /// The connection once it is closing for the reason `code`.
    pub open spec fn closing(self, code: ErrorCode) -> ConnectionView<T> {
        ConnectionView { state: State::Closing(code), ..self }
    }

    /// The connection after the peer opened a stream of the role `ty`.
    pub open spec fn recv_stream(self, ty: StreamType) -> ConnectionView<T> {
        if !ty.is_implemented() {
            self.closing(ErrorCode::UnknownStreamType)
        } else if self.is_admitted(ty) {
            self.closing(ErrorCode::WrongStreamCount)
        } else {
            self.with_stream(ty)
        }
    }

    /// The connection after `frame` arrived on the control stream.
    pub open spec fn recv_control(self, frame: FrameView) -> ConnectionView<T> {
        match (self.remote_settings, frame) {
            (None, FrameView::Settings(entries)) => ConnectionView {
                remote_settings: Some(entries),
                ..self
            },
            (None, _) => self.closing(ErrorCode::MissingSettings),
            (Some(_), FrameView::Settings(_)) => self.closing(ErrorCode::UnexpectedFrame),
            (Some(_), FrameView::Priority(_)) => self,
            (Some(_), FrameView::CancelPush(_)) => self,
            (Some(_), FrameView::Goaway(_)) => self,
            (Some(_), FrameView::MaxPushId(_)) => self,
            (Some(_), _) => self.closing(ErrorCode::UnexpectedFrame),
        }
    }

    /// The connection after the table of this endpoint's insertions, then
    /// `table`, took the peer's acknowledgments, and refused them or not.
    pub open spec fn recv_decoder(self, table: T, refused: bool) -> ConnectionView<T> {
        let taken = ConnectionView { encoder_table: table, ..self };
        if refused {
            taken.closing(ErrorCode::QpackDecoderStreamError)
        } else {
            taken
        }
    }

    /// The connection after the table that mirrors the peer's insertions,
    /// then `table`, took more of them, left `acks` as the bytes to send on
    /// the decoder stream, and refused the insertions or not.
    pub open spec fn recv_encoder(self, table: T, acks: Seq<u8>, refused: bool) -> ConnectionView<
        T,
    > {
        let taken = ConnectionView { decoder_table: table, pending_decoder: acks, ..self };
        if refused {
            taken.closing(ErrorCode::QpackEncoderStreamError)
        } else {
            taken
        }
    }

    /// Whether this is a connection on which nothing has happened yet: open,
    /// no stream admitted, no settings received, the announced settings
    /// queued as a frame on the control stream and nothing else queued.
    pub open spec fn is_fresh(self) -> bool {
        &&& self.state == State::Open
        &&& !self.remote_control_stream
        &&& !self.encoder_stream
        &&& !self.decoder_stream
        &&& self.remote_settings is None
        &&& self.local_settings == Seq::<Setting>::empty()
        &&& self.pending_control == FrameView::Settings(self.local_settings).encoding()
        &&& self.pending_decoder == Seq::<u8>::empty()
        &&& self.pending_encoder == Seq::<u8>::empty()
    }
}

/// What admitting a stream of the role `ty` returns on the connection `conn`.
pub open spec fn recv_stream_result<T, E, D>(conn: ConnectionView<T>, ty: StreamType) -> Result<
    (),
    ConnectionError<E, D>,
> {
    match ty {
        StreamType::Other(_) => Err(ConnectionError::UnimplementedStream(ty)),
        StreamType::Control => if conn.remote_control_stream {
            Err(ConnectionError::ControlStreamAlreadyOpen)
        } else {
            Ok(())
        },
        StreamType::Encoder => if conn.encoder_stream {
            Err(ConnectionError::EncoderStreamAlreadyOpen)
        } else {
            Ok(())
        },
        StreamType::Decoder => if conn.decoder_stream {
            Err(ConnectionError::DecoderStreamAlreadyOpen)
        } else {
            Ok(())
        },
    }
}

/// What the connection returns once the table answered `outcome` to the
/// peer's acknowledgments.
pub open spec fn recv_decoder_result<E, D>(outcome: Result<(), E>) -> Result<
    (),
    ConnectionError<E, D>,
> {
    match outcome {
        Ok(_) => Ok(()),
        Err(reason) => Err(ConnectionError::DecoderStreamError { reason }),
    }
}

/// What the connection returns once the table answered `outcome` to the
/// peer's insertions.
pub open spec fn recv_encoder_result<E, D>(outcome: Result<(), D>) -> Result<
    (),
    ConnectionError<E, D>,
> {
    match outcome {
        Ok(_) => Ok(()),
        Err(reason) => Err(ConnectionError::EncoderStreamError { reason }),
    }
}

/// The error that a second stream of the role `ty` is refused with.
pub open spec fn already_open<E, D>(ty: StreamType) -> ConnectionError<E, D> {
    match ty {
        StreamType::Control => ConnectionError::ControlStreamAlreadyOpen,
        StreamType::Encoder => ConnectionError::EncoderStreamAlreadyOpen,
        StreamType::Decoder => ConnectionError::DecoderStreamAlreadyOpen,
        StreamType::Other(_) => ConnectionError::UnimplementedStream(ty),
    }
}

/// A stream of a role that this endpoint implements is admitted the first
/// time, and the connection is otherwise unchanged; the second time it is
/// refused as already open, and the connection closes for a wrong number of
/// streams.
pub proof fn lemma_stream_admitted_once<T, E, D>(conn: ConnectionView<T>, ty: StreamType)
    requires
        ty.is_implemented(),
        !conn.is_admitted(ty),
    ensures
        recv_stream_result::<T, E, D>(conn, ty) == Ok::<(), ConnectionError<E, D>>(()),
        conn.recv_stream(ty) == conn.with_stream(ty),
        conn.recv_stream(ty).state == conn.state,
        conn.recv_stream(ty).is_admitted(ty),
        recv_stream_result::<T, E, D>(conn.recv_stream(ty), ty) == Err::<(), ConnectionError<E, D>>(
            already_open(ty),
        ),
        conn.recv_stream(ty).recv_stream(ty) == conn.recv_stream(ty).closing(
            ErrorCode::WrongStreamCount,
        ),
{
}

/// A stream of a role that is already admitted is always refused as already
/// open, and the connection closes for a wrong number of streams.
pub proof fn lemma_admitted_stream_refused<T, E, D>(conn: ConnectionView<T>, ty: StreamType)
    requires
        ty.is_implemented(),
        conn.is_admitted(ty),
    ensures
        recv_stream_result::<T, E, D>(conn, ty) == Err::<(), ConnectionError<E, D>>(
            already_open(ty),
        ),
        conn.recv_stream(ty) == conn.closing(ErrorCode::WrongStreamCount),
{
}

/// A stream of a role that this endpoint does not implement is always
/// refused as unimplemented, and the connection closes for an unknown stream
/// type.
pub proof fn lemma_unknown_stream_refused<T, E, D>(conn: ConnectionView<T>, ty: StreamType)
    requires
        !ty.is_implemented(),
    ensures
        recv_stream_result::<T, E, D>(conn, ty) == Err::<(), ConnectionError<E, D>>(
            ConnectionError::UnimplementedStream(ty),
        ),
        conn.recv_stream(ty) == conn.closing(ErrorCode::UnknownStreamType),
{
}

/// Admitting a stream fails exactly where it closes the connection.
pub proof fn lemma_stream_error_closes<T, E, D>(conn: ConnectionView<T>, ty: StreamType)
    ensures
        recv_stream_result::<T, E, D>(conn, ty) is Ok ==> conn.recv_stream(ty).state == conn.state,
        recv_stream_result::<T, E, D>(conn, ty) is Err ==> conn.recv_stream(ty).state is Closing,
{
}

/// A fresh connection has no settings of the peer. Where there are none, a
/// settings frame on the control stream becomes them, exactly, and nothing
/// else changes.
pub proof fn lemma_first_settings_kept<T>(conn: ConnectionView<T>, entries: Seq<Setting>)
    ensures
        conn.is_fresh() ==> conn.remote_settings is None,
        conn.remote_settings is None ==> conn.recv_control(FrameView::Settings(entries)) == (
        ConnectionView { remote_settings: Some(entries), ..conn }),
{
}

/// A frame other than settings, where the peer's settings have not come,
/// closes the connection for missing settings and leaves them missing.
pub proof fn lemma_settings_must_come_first<T>(conn: ConnectionView<T>, frame: FrameView)
    requires
        conn.remote_settings is None,
        !(frame is Settings),
    ensures
        conn.recv_control(frame) == conn.closing(ErrorCode::MissingSettings),
        conn.recv_control(frame).remote_settings is None,
{
}

/// A second settings frame closes the connection for an unexpected frame and
/// leaves the settings that were kept.
pub proof fn lemma_second_settings_refused<T>(
    conn: ConnectionView<T>,
    first: Seq<Setting>,
    second: Seq<Setting>,
)
    requires
        conn.remote_settings is None,
    ensures
        conn.recv_control(FrameView::Settings(first)).recv_control(FrameView::Settings(second))
            == conn.recv_control(FrameView::Settings(first)).closing(ErrorCode::UnexpectedFrame),
        conn.recv_control(FrameView::Settings(first)).recv_control(
            FrameView::Settings(second),
        ).remote_settings == Some(first),
{
}

/// Once the peer's settings are there, no frame on the control stream changes
/// them.
pub proof fn lemma_settings_kept<T>(conn: ConnectionView<T>, frame: FrameView)
    requires
        conn.remote_settings is Some,
    ensures
        conn.recv_control(frame).remote_settings == conn.remote_settings,
{
}

/// A connection that has left the open state does not return to it, whatever
/// arrives.
pub proof fn lemma_never_reopens<T>(
    conn: ConnectionView<T>,
    ty: StreamType,
    frame: FrameView,
    table: T,
    acks: Seq<u8>,
    refused: bool,
)
    requires
        conn.state != State::Open,
    ensures
        conn.recv_stream(ty).state != State::Open,
        conn.recv_control(frame).state != State::Open,
        conn.recv_decoder(table, refused).state != State::Open,
        conn.recv_encoder(table, acks, refused).state != State::Open,
{
}

/// The settings that this endpoint announces are fixed: nothing that
/// arrives changes them.
pub proof fn lemma_local_settings_fixed<T>(
    conn: ConnectionView<T>,
    ty: StreamType,
    frame: FrameView,
    table: T,
    acks: Seq<u8>,
    refused: bool,
)
    ensures
        conn.recv_stream(ty).local_settings == conn.local_settings,
        conn.recv_control(frame).local_settings == conn.local_settings,
        conn.recv_decoder(table, refused).local_settings == conn.local_settings,
        conn.recv_encoder(table, acks, refused).local_settings == conn.local_settings,
{
}

/// A stream once admitted stays admitted, whatever arrives.
pub proof fn lemma_admission_stays<T>(
    conn: ConnectionView<T>,
    admitted: StreamType,
    ty: StreamType,
    frame: FrameView,
    table: T,
    acks: Seq<u8>,
    refused: bool,
)
    requires
        conn.is_admitted(admitted),
    ensures
        conn.recv_stream(ty).is_admitted(admitted),
        conn.recv_control(frame).is_admitted(admitted),
        conn.recv_decoder(table, refused).is_admitted(admitted),
        conn.recv_encoder(table, acks, refused).is_admitted(admitted),
{
}

impl<T: DynamicTable> View for Connection<T> {
    type V = ConnectionView<T>;

    closed spec fn view(&self) -> ConnectionView<T> {
        ConnectionView {
            state: self.state,
            remote_control_stream: self.remote_control_stream,
            encoder_stream: self.encoder_stream,
            decoder_stream: self.decoder_stream,
            local_settings: self.local_settings@,
            remote_settings: match self.remote_settings {
                Some(settings) => Some(settings@),
                None => None,
            },
            decoder_table: self.decoder_table,
            encoder_table: self.encoder_table,
            pending_control: contents(self.pending_control),
            pending_decoder: contents(self.pending_decoder),
            pending_encoder: contents(self.pending_encoder),
        }
    }
}

impl<T: DynamicTable> Connection<T> {
    /// An open connection on which nothing has happened yet. Its settings are
    /// already queued, as a frame, for the control stream.
    pub fn new() -> (conn: Connection<T>)
        ensures
            conn@.is_fresh(),
    {
        let local_settings = SettingsFrame::default();
        let mut pending_control = BytesMut::new();
        let mut encoded: Vec<u8> = Vec::new();
        proof {
            assert(crate::proto::frame::encode_settings(local_settings@).len() == 0);
        }
        local_settings.encode(&mut encoded);
        pending_control.extend_from_slice(encoded.as_slice());
        assert(contents(pending_control) =~= FrameView::Settings(local_settings@).encoding());
        Connection {
            state: State::Open,
            remote_control_stream: false,
            encoder_stream: false,
            decoder_stream: false,
            local_settings,
            remote_settings: None,
            decoder_table: T::empty(),
            encoder_table: T::empty(),
            pending_control,
            pending_decoder: BytesMut::new(),
            pending_encoder: BytesMut::new(),
        }
    }

    /// Notes that the peer opened a stream of the role `ty`. Each of the
    /// three roles that this endpoint implements is admitted once; a second
    /// stream of a role, or a role not implemented, is refused and closes the
    /// connection.
    pub fn on_recv_stream(&mut self, ty: StreamType) -> (res: Result<
        (),
        ConnectionError<T::EncoderError, T::DecoderError>,
    >)
        ensures
            final(self)@ == old(self)@.recv_stream(ty),
            res == recv_stream_result::<T, T::EncoderError, T::DecoderError>(old(self)@, ty),
    {
        match ty {
            StreamType::Control => {
                if self.remote_control_stream {
                    self.state = State::Closing(ErrorCode::WrongStreamCount);
                    Err(ConnectionError::ControlStreamAlreadyOpen)
                } else {
                    self.remote_control_stream = true;
                    Ok(())
                }
            },
            StreamType::Encoder => {
                if self.encoder_stream {
                    self.state = State::Closing(ErrorCode::WrongStreamCount);
                    Err(ConnectionError::EncoderStreamAlreadyOpen)
                } else {
                    self.encoder_stream = true;
                    Ok(())
                }
            },
            StreamType::Decoder => {
                if self.decoder_stream {
                    self.state = State::Closing(ErrorCode::WrongStreamCount);
                    Err(ConnectionError::DecoderStreamAlreadyOpen)
                } else {
                    self.decoder_stream = true;
                    Ok(())
                }
            },
            StreamType::Other(_) => {
                self.state = State::Closing(ErrorCode::UnknownStreamType);
                Err(ConnectionError::UnimplementedStream(ty))
            },
        }
    }

    /// Takes a frame that arrived on the control stream. The first frame has
    /// to hold the peer's settings, which are kept; no later one may. A
    /// violation closes the connection. Frames on priorities, cancelled
    /// pushes, going away and push limits are let through once the settings
    /// are there, and change nothing.
    pub fn on_recv_control(&mut self, frame: &HttpFrame)
        ensures
            final(self)@ == old(self)@.recv_control(frame@),
    {
        match (&self.remote_settings, frame) {
            (None, HttpFrame::Settings(s)) => {
                self.remote_settings = Some(s.clone());
            },
            (None, _) => {
                self.state = State::Closing(ErrorCode::MissingSettings);
            },
            (Some(_), HttpFrame::Settings(_)) => {
                self.state = State::Closing(ErrorCode::UnexpectedFrame);
            },
            (Some(_), HttpFrame::Priority(_)) => {},
            (Some(_), HttpFrame::CancelPush(_)) => {},
            (Some(_), HttpFrame::Goaway(_)) => {},
            (Some(_), HttpFrame::MaxPushId(_)) => {},
            (Some(_), _) => {
                self.state = State::Closing(ErrorCode::UnexpectedFrame);
            },
        }
    }

    /// Settles what the table answered to the peer's acknowledgments: a
    /// refusal closes the connection and is handed on with its reason.
    pub fn on_decoder_outcome(&mut self, outcome: Result<(), T::EncoderError>) -> (res: Result<
        (),
        ConnectionError<T::EncoderError, T::DecoderError>,
    >)
        ensures
            final(self)@ == old(self)@.recv_decoder(old(self)@.encoder_table, outcome is Err),
            res == recv_decoder_result::<T::EncoderError, T::DecoderError>(outcome),
    {
        match outcome {
            Err(err) => {
                self.state = State::Closing(ErrorCode::QpackDecoderStreamError);
                Err(ConnectionError::DecoderStreamError { reason: err })
            },
            Ok(_) => Ok(()),
        }
    }

    /// Takes bytes that arrived on the decoder stream: the peer's
    /// acknowledgments, which go to the table of this endpoint's insertions.
    /// Whether the table takes them is the table's to say; a refusal closes
    /// the connection and is handed on with its reason.
    pub fn on_recv_decoder(&mut self, buf: &[u8]) -> (res: Result<
        (),
        ConnectionError<T::EncoderError, T::DecoderError>,
    >)
        ensures
            exists|table: &mut T, outcome: Result<(), T::EncoderError>|
                *table == old(self)@.encoder_table && *final(table) == final(self)@.encoder_table
                    && #[trigger] call_ensures(T::on_decoder_recv, (table, buf), outcome) && res
                    == recv_decoder_result::<T::EncoderError, T::DecoderError>(outcome),
            final(self)@ == old(self)@.recv_decoder(final(self)@.encoder_table, res is Err),
    {
        let outcome = self.encoder_table.on_decoder_recv(buf);
        self.on_decoder_outcome(outcome)
    }

    /// Settles the table's answer to the peer's insertions: a refusal closes the connection.
    pub fn on_encoder_outcome(&mut self, outcome: Result<(), T::DecoderError>) -> (res: Result<
        (),
        ConnectionError<T::EncoderError, T::DecoderError>,
    >)
        ensures
            final(self)@ == old(self)@.recv_encoder(
                old(self)@.decoder_table,
                old(self)@.pending_decoder,
                outcome is Err,
            ),
            res == recv_encoder_result::<T::EncoderError, T::DecoderError>(outcome),
    {
        match outcome {
            Err(err) => {
                self.state = State::Closing(ErrorCode::QpackEncoderStreamError);
                Err(ConnectionError::EncoderStreamError { reason: err })
            },
            Ok(_) => Ok(()),
        }
    }

    /// Takes bytes that arrived on the encoder stream: the peer's insertions, which go, with the
    /// bytes waiting for the decoder stream, to the table that mirrors them. Whether it takes them
    /// is the table's to say; a refusal closes the connection and is handed on with its reason.
    pub fn on_recv_encoder(&mut self, buf: &[u8]) -> (res: Result<
        (),
        ConnectionError<T::EncoderError, T::DecoderError>,
    >)
        ensures
            exists|table: &mut T, acks: &mut BytesMut, outcome: Result<(), T::DecoderError>|
                *table == old(self)@.decoder_table && *final(table) == final(self)@.decoder_table
                    && contents(*acks) == old(self)@.pending_decoder && contents(*final(acks))
                    == final(self)@.pending_decoder && #[trigger] call_ensures(
                    T::on_encoder_recv,
                    (table, buf, acks),
                    outcome,
                ) && res == recv_encoder_result::<T::EncoderError, T::DecoderError>(outcome),
            final(self)@ == old(self)@.recv_encoder(
                final(self)@.decoder_table,
                final(self)@.pending_decoder,
                res is Err,
            ),
    {
        let outcome = self.decoder_table.on_encoder_recv(buf, &mut self.pending_decoder);
        self.on_encoder_outcome(outcome)
    }

    /// Where the connection stands.
    pub fn state(&self) -> (state: State)
        ensures
            state == self@.state,
    {
        self.state
    }

    /// Whether the peer has opened the stream of the role `ty`.
    pub fn is_admitted(&self, ty: StreamType) -> (b: bool)
        ensures
            b == self@.is_admitted(ty),
    {
        match ty {
            StreamType::Control => self.remote_control_stream,
            StreamType::Encoder => self.encoder_stream,
            StreamType::Decoder => self.decoder_stream,
            StreamType::Other(_) => false,
        }
    }

    /// The settings that this endpoint announces.
    pub fn local_settings(&self) -> (settings: &SettingsFrame)
        ensures
            settings@ == self@.local_settings,
    {
        &self.local_settings
    }

    /// The settings that the peer announced, once it has.
    pub fn remote_settings(&self) -> (settings: Option<&SettingsFrame>)
        ensures
            settings is Some == self@.remote_settings is Some,
            settings matches Some(found) ==> self@.remote_settings == Some(found@),
    {
        self.remote_settings.as_ref()
    }

    /// The table that mirrors the peer's insertions.
    pub fn decoder_table(&self) -> (table: &T)
        ensures
            *table == self@.decoder_table,
    {
        &self.decoder_table
    }

    /// The table of this endpoint's own insertions.
    pub fn encoder_table(&self) -> (table: &T)
        ensures
            *table == self@.encoder_table,
    {
        &self.encoder_table
    }

    /// The bytes waiting to be sent on the control stream.
    pub fn pending_control(&self) -> (bytes: &[u8])
        ensures
            bytes@ == self@.pending_control,
    {
        self.pending_control.as_ref()
    }

    /// The bytes waiting to be sent on the decoder stream.
    pub fn pending_decoder(&self) -> (bytes: &[u8])
        ensures
            bytes@ == self@.pending_decoder,
    {
        self.pending_decoder.as_ref()
    }

    /// The bytes waiting to be sent on the encoder stream.
    pub fn pending_encoder(&self) -> (bytes: &[u8])
        ensures
            bytes@ == self@.pending_encoder,
    {
        self.pending_encoder.as_ref()
    }
}

} // verus!
