//! The frames of the control and request streams and their wire format: a
//! type, the length of the payload, both as variable-length integers, then the
//! payload.

use vstd::prelude::*;
use vstd::slice::{slice_subrange, slice_to_vec};
use crate::proto::varint;

verus! {

/// Why a frame could not be decoded.
#[derive(Clone, Copy, Debug, PartialEq, Eq, Structural)]
pub enum Error {
    /// The bytes end before the frame does: more may make it whole.
    UnexpectedEnd,
    /// The payload is not what the frame's type asks for.
    Malformed,
    /// The frame's type, which it carries, is none that this endpoint decodes.
    UnsupportedFrame(u64),
}

/// One parameter of a settings frame.
#[derive(Clone, Copy, Debug, PartialEq, Eq, Structural)]
pub struct Setting {
    pub id: u64,
    pub value: u64,
}

/// The parameters that an endpoint announces, in the order sent.
#[derive(Debug, PartialEq, Eq)]
pub struct SettingsFrame {
    pub entries: Vec<Setting>,
}

/// A compressed header block.
#[derive(Clone, Debug, PartialEq, Eq)]
pub struct HeadersFrame {
    pub encoded: Vec<u8>,
}

/// A piece of a message body.
#[derive(Clone, Debug, PartialEq, Eq)]
pub struct DataFrame {
    pub payload: Vec<u8>,
}

/// A change of priority, its payload left as sent.
#[derive(Clone, Debug, PartialEq, Eq)]
pub struct PriorityFrame {
    pub payload: Vec<u8>,
}

/// A decoded frame.
#[derive(Clone, Debug, PartialEq, Eq)]
pub enum HttpFrame {
    Data(DataFrame),
    Headers(HeadersFrame),
    Priority(PriorityFrame),
    CancelPush(u64),
    Settings(SettingsFrame),
    Goaway(u64),
    MaxPushId(u64),
}

/// What a frame holds, as mathematical values.
pub ghost enum FrameView {
    Data(Seq<u8>),
    Headers(Seq<u8>),
    Priority(Seq<u8>),
    CancelPush(u64),
    Settings(Seq<Setting>),
    Goaway(u64),
    MaxPushId(u64),
}

pub const TYPE_DATA: u64 = 0x0;

pub const TYPE_HEADERS: u64 = 0x1;

pub const TYPE_PRIORITY: u64 = 0x2;

pub const TYPE_CANCEL_PUSH: u64 = 0x3;

pub const TYPE_SETTINGS: u64 = 0x4;

pub const TYPE_GOAWAY: u64 = 0x7;

pub const TYPE_MAX_PUSH_ID: u64 = 0xd;

impl View for SettingsFrame {
    type V = Seq<Setting>;

    open spec fn view(&self) -> Seq<Setting> {
        self.entries@
    }
}

impl Clone for SettingsFrame {
    fn clone(&self) -> (copy: SettingsFrame)
        ensures
            copy@ == self@,
    {
        let mut entries: Vec<Setting> = Vec::new();
        let mut i: usize = 0;
        while i < self.entries.len()
            invariant
                i <= self.entries@.len(),
                entries@ == self.entries@.take(i as int),
            decreases self.entries@.len() - i,
        {
            entries.push(self.entries[i]);
            assert(entries@ =~= self.entries@.take(i + 1));
            i = i + 1;
        }
        assert(entries@ =~= self.entries@);
        SettingsFrame { entries }
    }
}

impl Default for SettingsFrame {
    /// The settings of an endpoint that announces none.
    fn default() -> (settings: SettingsFrame)
        ensures
            settings@ == Seq::<Setting>::empty(),
    {
        SettingsFrame { entries: Vec::new() }
    }
}

impl View for HttpFrame {
    type V = FrameView;

    open spec fn view(&self) -> FrameView {
        match *self {
            HttpFrame::Data(f) => FrameView::Data(f.payload@),
            HttpFrame::Headers(f) => FrameView::Headers(f.encoded@),
            HttpFrame::Priority(f) => FrameView::Priority(f.payload@),
            HttpFrame::CancelPush(id) => FrameView::CancelPush(id),
            HttpFrame::Settings(f) => FrameView::Settings(f@),
            HttpFrame::Goaway(id) => FrameView::Goaway(id),
            HttpFrame::MaxPushId(id) => FrameView::MaxPushId(id),
        }
    }
}

/// Whether `ty` is the type of a frame that this endpoint decodes.
pub open spec fn is_supported(ty: u64) -> bool {
    ty == TYPE_DATA || ty == TYPE_HEADERS || ty == TYPE_PRIORITY || ty == TYPE_CANCEL_PUSH || ty
        == TYPE_SETTINGS || ty == TYPE_GOAWAY || ty == TYPE_MAX_PUSH_ID
}

/// The settings that the payload `s` lists, or `None` where it ends inside one.
pub open spec fn parse_settings(s: Seq<u8>) -> Option<Seq<Setting>>
    decreases s.len(),
{
    if s.len() == 0 {
        Some(Seq::empty())
    } else {
        match varint::spec_decode(s) {
            None => None,
            Some((id, n)) => match varint::spec_decode(s.skip(n as int)) {
                None => None,
                Some((value, m)) => if 1 <= n && n + m <= s.len() {
                    match parse_settings(s.skip((n + m) as int)) {
                        None => None,
                        Some(rest) => Some(seq![Setting { id, value }] + rest),
                    }
                } else {
                    None
                },
            },
        }
    }
}

/// The integer that makes up the whole payload `s`, or `None`.
pub open spec fn parse_id(s: Seq<u8>) -> Option<u64> {
    match varint::spec_decode(s) {
        Some((id, n)) => if n == s.len() {
            Some(id)
        } else {
            None
        },
        None => None,
    }
}

/// The frame of type `ty` with payload `payload`.
pub open spec fn parse_payload(ty: u64, payload: Seq<u8>) -> Result<FrameView, Error> {
    if ty == TYPE_DATA {
        Ok(FrameView::Data(payload))
    } else if ty == TYPE_HEADERS {
        Ok(FrameView::Headers(payload))
    } else if ty == TYPE_PRIORITY {
        Ok(FrameView::Priority(payload))
    } else if ty == TYPE_SETTINGS {
        match parse_settings(payload) {
            Some(entries) => Ok(FrameView::Settings(entries)),
            None => Err(Error::Malformed),
        }
    } else if ty == TYPE_CANCEL_PUSH || ty == TYPE_GOAWAY || ty == TYPE_MAX_PUSH_ID {
        match parse_id(payload) {
            Some(id) => Ok(
                if ty == TYPE_CANCEL_PUSH {
                    FrameView::CancelPush(id)
                } else if ty == TYPE_GOAWAY {
                    FrameView::Goaway(id)
                } else {
                    FrameView::MaxPushId(id)
                },
            ),
            None => Err(Error::Malformed),
        }
    } else {
        Err(Error::UnsupportedFrame(ty))
    }
}

/// The frame at the start of `s` and the number of bytes it takes, or why
/// there is none.
pub open spec fn spec_decode(s: Seq<u8>) -> Result<(FrameView, nat), Error> {
    match varint::spec_decode(s) {
        None => Err(Error::UnexpectedEnd),
        Some((ty, n)) => match varint::spec_decode(s.skip(n as int)) {
            None => Err(Error::UnexpectedEnd),
            Some((len, m)) => if !is_supported(ty) {
                Err(Error::UnsupportedFrame(ty))
            } else if s.len() < n + m + len {
                Err(Error::UnexpectedEnd)
            } else {
                match parse_payload(ty, s.subrange((n + m) as int, n + m + len)) {
                    Ok(frame) => Ok((frame, n + m + len as nat)),
                    Err(e) => Err(e),
                }
            },
        },
    }
}

/// Reads the settings that the payload lists.
fn decode_settings(payload: &[u8]) -> (res: Option<Vec<Setting>>)
    ensures
        res matches Some(v) ==> parse_settings(payload@) == Some(v@),
        res is None ==> parse_settings(payload@) is None,
{
    let mut entries: Vec<Setting> = Vec::new();
    let mut pos: usize = 0;
    proof {
        assert(payload@.skip(0) =~= payload@);
        match parse_settings(payload@) {
            Some(all) => {
                assert(entries@ + all =~= all);
            },
            None => {},
        }
    }
    while pos < payload.len()
        invariant
            pos <= payload@.len(),
            parse_settings(payload@) == match parse_settings(payload@.skip(pos as int)) {
                Some(rest) => Some(entries@ + rest),
                None => None,
            },
        decreases payload@.len() - pos,
    {
        let rest = slice_subrange(payload, pos, payload.len());
        assert(rest@ =~= payload@.skip(pos as int));
        match varint::decode(rest) {
            None => {
                return None;
            },
            Some((id, n)) => {
                let tail = slice_subrange(rest, n, rest.len());
                assert(tail@ =~= rest@.skip(n as int));
                match varint::decode(tail) {
                    None => {
                        return None;
                    },
                    Some((value, m)) => {
                        proof {
                            let after = rest@.skip((n + m) as int);
                            assert(after =~= payload@.skip((pos + n + m) as int));
                            match parse_settings(after) {
                                Some(more) => {
                                    assert(entries@.push(Setting { id, value }) + more =~= entries@
                                        + (seq![Setting { id, value }] + more));
                                },
                                None => {},
                            }
                        }
                        entries.push(Setting { id, value });
                        pos = pos + n + m;
                    },
                }
            },
        }
    }
    proof {
        assert(payload@.skip(pos as int).len() == 0);
        assert(entries@ + Seq::<Setting>::empty() =~= entries@);
    }
    Some(entries)
}

/// Reads the integer that makes up the whole payload.
fn decode_id(payload: &[u8]) -> (res: Option<u64>)
    ensures
        res == parse_id(payload@),
{
    match varint::decode(payload) {
        Some((id, n)) => if n == payload.len() {
            Some(id)
        } else {
            None
        },
        None => None,
    }
}

/// Whether `ty` is the type of a frame that this endpoint decodes.
fn supported(ty: u64) -> (b: bool)
    ensures
        b == is_supported(ty),
{
    ty == TYPE_DATA || ty == TYPE_HEADERS || ty == TYPE_PRIORITY || ty == TYPE_CANCEL_PUSH || ty
        == TYPE_SETTINGS || ty == TYPE_GOAWAY || ty == TYPE_MAX_PUSH_ID
}

/// Builds the frame of type `ty` from its payload.
fn decode_payload(ty: u64, payload: &[u8]) -> (res: Result<HttpFrame, Error>)
    ensures
        res matches Ok(frame) ==> parse_payload(ty, payload@) == Ok::<FrameView, Error>(frame@),
        res matches Err(e) ==> parse_payload(ty, payload@) == Err::<FrameView, Error>(e),
{
    if ty == TYPE_DATA {
        Ok(HttpFrame::Data(DataFrame { payload: slice_to_vec(payload) }))
    } else if ty == TYPE_HEADERS {
        Ok(HttpFrame::Headers(HeadersFrame { encoded: slice_to_vec(payload) }))
    } else if ty == TYPE_PRIORITY {
        Ok(HttpFrame::Priority(PriorityFrame { payload: slice_to_vec(payload) }))
    } else if ty == TYPE_SETTINGS {
        match decode_settings(payload) {
            Some(entries) => Ok(HttpFrame::Settings(SettingsFrame { entries })),
            None => Err(Error::Malformed),
        }
    } else if ty == TYPE_CANCEL_PUSH || ty == TYPE_GOAWAY || ty == TYPE_MAX_PUSH_ID {
        match decode_id(payload) {
            Some(id) => if ty == TYPE_CANCEL_PUSH {
                Ok(HttpFrame::CancelPush(id))
            } else if ty == TYPE_GOAWAY {
                Ok(HttpFrame::Goaway(id))
            } else {
                Ok(HttpFrame::MaxPushId(id))
            },
            None => Err(Error::Malformed),
        }
    } else {
        Err(Error::UnsupportedFrame(ty))
    }
}

impl HttpFrame {
    /// Decodes the frame at the start of `buf` and says how many bytes it
    /// took. Bytes after the frame are not looked at.
    pub fn decode(buf: &[u8]) -> (res: Result<(HttpFrame, usize), Error>)
        ensures
            res matches Ok((frame, n)) ==> spec_decode(buf@) == Ok::<(FrameView, nat), Error>(
                (frame@, n as nat),
            ) && 0 < n <= buf@.len(),
            res matches Err(e) ==> spec_decode(buf@) == Err::<(FrameView, nat), Error>(e),
    {
        let (ty, n) = match varint::decode(buf) {
            Some(found) => found,
            None => {
                return Err(Error::UnexpectedEnd);
            },
        };
        let rest = slice_subrange(buf, n, buf.len());
        assert(rest@ =~= buf@.skip(n as int));
        let (len, m) = match varint::decode(rest) {
            Some(found) => found,
            None => {
                return Err(Error::UnexpectedEnd);
            },
        };
        if !supported(ty) {
            return Err(Error::UnsupportedFrame(ty));
        }
        let start: usize = n + m;
        let available: usize = buf.len() - start;
        if (available as u64) < len {
            return Err(Error::UnexpectedEnd);
        }
        let end: usize = start + len as usize;
        let payload = slice_subrange(buf, start, end);
        match decode_payload(ty, payload) {
            Ok(frame) => Ok((frame, end)),
            Err(e) => Err(e),
        }
    }
}

/// The payload that lists `entries`.
pub open spec fn encode_settings(entries: Seq<Setting>) -> Seq<u8>
    decreases entries.len(),
{
    if entries.len() == 0 {
        Seq::empty()
    } else {
        varint::spec_encode(entries[0].id) + varint::spec_encode(entries[0].value)
            + encode_settings(entries.skip(1))
    }
}

/// Whether every identifier and value of `entries` fits a variable-length
/// integer.
pub open spec fn settings_in_range(entries: Seq<Setting>) -> bool {
    forall|i: int|
        0 <= i < entries.len() ==> (#[trigger] entries[i]).id < varint::VARINT_LIMIT
            && entries[i].value < varint::VARINT_LIMIT
}

impl FrameView {
    /// The type sent in front of the frame.
    pub open spec fn frame_type(self) -> u64 {
        match self {
            FrameView::Data(_) => TYPE_DATA,
            FrameView::Headers(_) => TYPE_HEADERS,
            FrameView::Priority(_) => TYPE_PRIORITY,
            FrameView::CancelPush(_) => TYPE_CANCEL_PUSH,
            FrameView::Settings(_) => TYPE_SETTINGS,
            FrameView::Goaway(_) => TYPE_GOAWAY,
            FrameView::MaxPushId(_) => TYPE_MAX_PUSH_ID,
        }
    }

    /// The frame's payload on the wire.
    pub open spec fn payload(self) -> Seq<u8> {
        match self {
            FrameView::Data(bytes) => bytes,
            FrameView::Headers(bytes) => bytes,
            FrameView::Priority(bytes) => bytes,
            FrameView::CancelPush(id) => varint::spec_encode(id),
            FrameView::Settings(entries) => encode_settings(entries),
            FrameView::Goaway(id) => varint::spec_encode(id),
            FrameView::MaxPushId(id) => varint::spec_encode(id),
        }
    }

    /// Whether the wire format can carry the frame: each integer in it, and
    /// the length of its payload, fits a variable-length integer.
    pub open spec fn is_encodable(self) -> bool {
        &&& self.payload().len() < varint::VARINT_LIMIT
        &&& match self {
            FrameView::CancelPush(id) => id < varint::VARINT_LIMIT,
            FrameView::Goaway(id) => id < varint::VARINT_LIMIT,
            FrameView::MaxPushId(id) => id < varint::VARINT_LIMIT,
            FrameView::Settings(entries) => settings_in_range(entries),
            _ => true,
        }
    }

    /// The frame on the wire.
    pub open spec fn encoding(self) -> Seq<u8> {
        varint::spec_encode(self.frame_type()) + varint::spec_encode(self.payload().len() as u64)
            + self.payload()
    }
}

/// Appends `data` to `out`.
fn append(out: &mut Vec<u8>, data: &[u8])
    ensures
        final(out)@ == old(out)@ + data@,
{
    let ghost before = out@;
    out.extend_from_slice(data);
    assert(out@ =~= before + data@);
}

/// Appends a frame's type and the length of its payload to `out`.
fn encode_header(ty: u64, len: usize, out: &mut Vec<u8>)
    requires
        ty < varint::VARINT_LIMIT,
        len < varint::VARINT_LIMIT,
    ensures
        final(out)@ == old(out)@ + varint::spec_encode(ty) + varint::spec_encode(len as u64),
{
    varint::encode(ty, out);
    varint::encode(len as u64, out);
}

impl SettingsFrame {
    /// Whether the wire format can carry these settings.
    pub fn is_encodable(&self) -> (b: bool)
        ensures
            b == FrameView::Settings(self@).is_encodable(),
    {
        let mut size: u64 = 0;
        let mut i: usize = 0;
        proof {
            assert(self@.skip(0) =~= self@);
        }
        while i < self.entries.len()
            invariant
                i <= self@.len(),
                self@ == self.entries@,
                settings_in_range(self@.take(i as int)),
                size < varint::VARINT_LIMIT,
                encode_settings(self@).len() == size + encode_settings(self@.skip(i as int)).len(),
            decreases self@.len() - i,
        {
            let entry = self.entries[i];
            if entry.id >= varint::VARINT_LIMIT || entry.value >= varint::VARINT_LIMIT {
                return false;
            }
            proof {
                let tail = self@.skip(i as int);
                assert(tail[0] == entry);
                assert(tail.skip(1) =~= self@.skip(i + 1));
                assert forall|j: int| 0 <= j < i + 1 implies (#[trigger] self@.take(i + 1)[j]).id
                    < varint::VARINT_LIMIT && self@.take(i + 1)[j].value
                    < varint::VARINT_LIMIT by {
                    if j < i {
                        assert(self@.take(i + 1)[j] == self@.take(i as int)[j]);
                    }
                }
            }
            size = size + varint::encoded_size(entry.id) as u64 + varint::encoded_size(
                entry.value,
            ) as u64;
            if size >= varint::VARINT_LIMIT {
                return false;
            }
            i = i + 1;
        }
        proof {
            assert(self@.take(i as int) =~= self@);
            assert(self@.skip(i as int).len() == 0);
        }
        true
    }

    /// The payload that lists the settings.
    fn encode_payload(&self) -> (payload: Vec<u8>)
        requires
            settings_in_range(self@),
        ensures
            payload@ == encode_settings(self@),
    {
        let mut payload: Vec<u8> = Vec::new();
        let mut i: usize = 0;
        proof {
            assert(self@.skip(0) =~= self@);
        }
        while i < self.entries.len()
            invariant
                i <= self@.len(),
                self@ == self.entries@,
                settings_in_range(self@),
                encode_settings(self@) == payload@ + encode_settings(self@.skip(i as int)),
            decreases self@.len() - i,
        {
            let entry = self.entries[i];
            proof {
                let tail = self@.skip(i as int);
                assert(tail[0] == entry);
                assert(tail.skip(1) =~= self@.skip(i + 1));
                assert(payload@ + (varint::spec_encode(entry.id) + varint::spec_encode(entry.value)
                    + encode_settings(tail.skip(1))) =~= payload@ + varint::spec_encode(entry.id)
                    + varint::spec_encode(entry.value) + encode_settings(tail.skip(1)));
            }
            varint::encode(entry.id, &mut payload);
            varint::encode(entry.value, &mut payload);
            i = i + 1;
        }
        proof {
            assert(payload@ + Seq::<u8>::empty() =~= payload@);
        }
        payload
    }

    /// Appends the settings frame to `out`.
    pub fn encode(&self, out: &mut Vec<u8>)
        requires
            FrameView::Settings(self@).is_encodable(),
        ensures
            final(out)@ == old(out)@ + FrameView::Settings(self@).encoding(),
    {
        let ghost before = out@;
        let payload = self.encode_payload();
        encode_header(TYPE_SETTINGS, payload.len(), out);
        append(out, payload.as_slice());
        assert(out@ =~= before + FrameView::Settings(self@).encoding());
    }
}

/// Appends the frame of type `ty` whose payload is the one integer `id`.
fn encode_id(ty: u64, id: u64, out: &mut Vec<u8>)
    requires
        ty < varint::VARINT_LIMIT,
        id < varint::VARINT_LIMIT,
    ensures
        final(out)@ == old(out)@ + varint::spec_encode(ty) + varint::spec_encode(
            varint::spec_encode(id).len() as u64,
        ) + varint::spec_encode(id),
{
    encode_header(ty, varint::encoded_size(id), out);
    varint::encode(id, out);
}

/// Appends the frame of type `ty` with the payload `payload`.
fn encode_bytes(ty: u64, payload: &[u8], out: &mut Vec<u8>)
    requires
        ty < varint::VARINT_LIMIT,
        payload@.len() < varint::VARINT_LIMIT,
    ensures
        final(out)@ == old(out)@ + varint::spec_encode(ty) + varint::spec_encode(
            payload@.len() as u64,
        ) + payload@,
{
    encode_header(ty, payload.len(), out);
    append(out, payload);
}

impl HttpFrame {
    /// Whether the wire format can carry the frame.
    pub fn is_encodable(&self) -> (b: bool)
        ensures
            b == self@.is_encodable(),
    {
        match self {
            HttpFrame::Data(f) => (f.payload.len() as u64) < varint::VARINT_LIMIT,
            HttpFrame::Headers(f) => (f.encoded.len() as u64) < varint::VARINT_LIMIT,
            HttpFrame::Priority(f) => (f.payload.len() as u64) < varint::VARINT_LIMIT,
            HttpFrame::CancelPush(id) => *id < varint::VARINT_LIMIT,
            HttpFrame::Settings(f) => f.is_encodable(),
            HttpFrame::Goaway(id) => *id < varint::VARINT_LIMIT,
            HttpFrame::MaxPushId(id) => *id < varint::VARINT_LIMIT,
        }
    }

    /// Appends the frame, in its wire format, to `out`.
    pub fn encode(&self, out: &mut Vec<u8>)
        requires
            self@.is_encodable(),
        ensures
            final(out)@ == old(out)@ + self@.encoding(),
    {
        let ghost before = out@;
        match self {
            HttpFrame::Data(f) => encode_bytes(TYPE_DATA, f.payload.as_slice(), out),
            HttpFrame::Headers(f) => encode_bytes(TYPE_HEADERS, f.encoded.as_slice(), out),
            HttpFrame::Priority(f) => encode_bytes(TYPE_PRIORITY, f.payload.as_slice(), out),
            HttpFrame::CancelPush(id) => encode_id(TYPE_CANCEL_PUSH, *id, out),
            HttpFrame::Settings(f) => f.encode(out),
            HttpFrame::Goaway(id) => encode_id(TYPE_GOAWAY, *id, out),
            HttpFrame::MaxPushId(id) => encode_id(TYPE_MAX_PUSH_ID, *id, out),
        }
        assert(out@ =~= before + self@.encoding());
    }
}

/// Parsing the payload that lists `entries` gives `entries` back.
pub proof fn lemma_parse_encode_settings(entries: Seq<Setting>)
    requires
        settings_in_range(entries),
    ensures
        parse_settings(encode_settings(entries)) == Some(entries),
    decreases entries.len(),
{
    if entries.len() > 0 {
        let first = entries[0];
        let id = varint::spec_encode(first.id);
        let value = varint::spec_encode(first.value);
        let tail = encode_settings(entries.skip(1));
        let s = encode_settings(entries);
        assert(s =~= id + (value + tail));
        varint::lemma_decode_encode(first.id, value + tail);
        assert(s.skip(id.len() as int) =~= value + tail);
        varint::lemma_decode_encode(first.value, tail);
        assert(s.skip((id.len() + value.len()) as int) =~= tail);
        assert(settings_in_range(entries.skip(1))) by {
            assert forall|i: int| 0 <= i < entries.skip(1).len() implies (
            #[trigger] entries.skip(1)[i]).id < varint::VARINT_LIMIT && entries.skip(1)[i].value
                < varint::VARINT_LIMIT by {
                assert(entries.skip(1)[i] == entries[i + 1]);
            }
        }
        lemma_parse_encode_settings(entries.skip(1));
        assert(seq![first] + entries.skip(1) =~= entries);
    }
}

/// Decoding undoes encoding: the bytes of an encodable frame, whatever follows
/// them, decode to that frame and to the number of bytes of its encoding.
pub proof fn lemma_decode_encoding(frame: FrameView, rest: Seq<u8>)
    requires
        frame.is_encodable(),
    ensures
        spec_decode(frame.encoding() + rest) == Ok::<(FrameView, nat), Error>(
            (frame, frame.encoding().len()),
        ),
{
    let ty = varint::spec_encode(frame.frame_type());
    let payload = frame.payload();
    let len = varint::spec_encode(payload.len() as u64);
    let s = frame.encoding() + rest;
    assert(s =~= ty + (len + payload + rest));
    varint::lemma_decode_encode(frame.frame_type(), len + payload + rest);
    assert(s.skip(ty.len() as int) =~= len + (payload + rest));
    varint::lemma_decode_encode(payload.len() as u64, payload + rest);
    let start = (ty.len() + len.len()) as int;
    assert(s.subrange(start, start + payload.len()) =~= payload);
    match frame {
        FrameView::Settings(entries) => {
            lemma_parse_encode_settings(entries);
        },
        FrameView::CancelPush(id) => {
            varint::lemma_decode_encode(id, Seq::empty());
            assert(payload + Seq::<u8>::empty() =~= payload);
        },
        FrameView::Goaway(id) => {
            varint::lemma_decode_encode(id, Seq::empty());
            assert(payload + Seq::<u8>::empty() =~= payload);
        },
        FrameView::MaxPushId(id) => {
            varint::lemma_decode_encode(id, Seq::empty());
            assert(payload + Seq::<u8>::empty() =~= payload);
        },
        _ => {},
    }
}

/// An encoded frame cut short does not decode: the bytes end before the frame
/// does, wherever the cut falls.
pub proof fn lemma_decode_truncated(frame: FrameView, k: int)
    requires
        frame.is_encodable(),
        0 <= k < frame.encoding().len(),
    ensures
        spec_decode(frame.encoding().take(k)) == Err::<(FrameView, nat), Error>(
            Error::UnexpectedEnd,
        ),
{
    let ty = varint::spec_encode(frame.frame_type());
    let payload = frame.payload();
    let len = varint::spec_encode(payload.len() as u64);
    let s = frame.encoding().take(k);
    let n = ty.len() as int;
    let m = len.len() as int;
    if k < n {
        assert(s =~= ty.take(k));
        varint::lemma_decode_truncated(frame.frame_type(), k);
    } else {
        assert(s =~= ty + (len + payload).take(k - n));
        varint::lemma_decode_encode(frame.frame_type(), (len + payload).take(k - n));
        assert(s.skip(n) =~= (len + payload).take(k - n));
        if k < n + m {
            assert((len + payload).take(k - n) =~= len.take(k - n));
            varint::lemma_decode_truncated(payload.len() as u64, k - n);
        } else {
            assert((len + payload).take(k - n) =~= len + payload.take(k - n - m));
            varint::lemma_decode_encode(payload.len() as u64, payload.take(k - n - m));
        }
    }
}

} // verus!
