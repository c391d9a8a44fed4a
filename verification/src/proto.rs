//! Vocabulary shared by the connection and the frame decoder.

use vstd::prelude::*;

pub mod frame;
pub mod varint;

verus! {

/// The declared purpose of a unidirectional stream.
#[derive(Clone, Copy, Debug, PartialEq, Eq, Structural)]
pub enum StreamType {
    /// The control stream.
    Control,
    /// The stream that carries insertions into the header-compression table.
    Encoder,
    /// The stream that carries acknowledgments of such insertions.
    Decoder,
    /// A role that this endpoint does not implement, by the number sent on the
    /// wire.
    Other(u64),
}

impl StreamType {
    /// Whether this endpoint implements the role.
    pub open spec fn is_implemented(self) -> bool {
        !(self is Other)
    }

    /// The role announced by the number `id` at the start of a stream.
    pub fn from_id(id: u64) -> (ty: StreamType)
        ensures
            id == 0x00 ==> ty == StreamType::Control,
            id == 0x02 ==> ty == StreamType::Encoder,
            id == 0x03 ==> ty == StreamType::Decoder,
            id != 0x00 && id != 0x02 && id != 0x03 ==> ty == StreamType::Other(id),
    {
        if id == 0x00 {
            StreamType::Control
        } else if id == 0x02 {
            StreamType::Encoder
        } else if id == 0x03 {
            StreamType::Decoder
        } else {
            StreamType::Other(id)
        }
    }
}

/// Why a connection is being closed. The transport maps each code onto its own
/// numeric space.
#[derive(Clone, Copy, Debug, PartialEq, Eq, Structural)]
pub enum ErrorCode {
    MissingSettings,
    UnexpectedFrame,
    WrongStreamCount,
    UnknownStreamType,
    QpackDecoderStreamError,
    QpackEncoderStreamError,
}

} // verus!
