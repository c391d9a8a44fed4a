//! The header-compression table, as far as a connection deals with it. The
//! table's own algorithm is not part of this library: a connection is built
//! over any type that offers these three operations.

use vstd::prelude::*;
use bytes::BytesMut;

verus! {

/// One side's header-compression state.
pub trait DynamicTable: Sized {
    /// Why acknowledgments were refused.
    type EncoderError;

    /// Why insertions were refused.
    type DecoderError;

    /// A table without entries.
    fn empty() -> Self;

    /// Applies the acknowledgments that the peer's decoder sent to the table
    /// that this endpoint fills as an encoder.
    fn on_decoder_recv(&mut self, buf: &[u8]) -> Result<(), Self::EncoderError>;

    /// Applies the insertions that the peer's encoder sent to the table that
    /// mirrors them, and writes the acknowledgments owed for them to `acks`.
    fn on_encoder_recv(&mut self, buf: &[u8], acks: &mut BytesMut) -> Result<
        (),
        Self::DecoderError,
    >;
}

} // verus!
