//! What this library relies on of `bytes::BytesMut`, the growable byte buffer
//! that holds bytes read but not yet decoded and bytes waiting to be sent.
//! Nothing here is proved: each contract restates what the `bytes` crate
//! documents of the method.

use vstd::prelude::*;
use bytes::BytesMut;

verus! {

/// `bytes::BytesMut`, taken as it is: the library sees what a buffer holds
/// only through `contents`.
#[verifier::external_type_specification]
#[verifier::external_body]
pub struct ExBytesMut(BytesMut);

/// The bytes that a buffer holds, first to last.
pub uninterp spec fn contents(buf: BytesMut) -> Seq<u8>;

/// `BytesMut::new`: a buffer that holds no bytes.
pub assume_specification[ BytesMut::new ]() -> (buf: BytesMut)
    ensures
        contents(buf) == Seq::<u8>::empty(),
;

/// `BytesMut::len`: the number of bytes held.
pub assume_specification[ BytesMut::len ](buf: &BytesMut) -> (n: usize)
    ensures
        n == contents(*buf).len(),
;

/// `BytesMut::extend_from_slice`: the bytes of `extend` are added behind those
/// held. It reserves room first, which fails where the new length is more
/// than `isize::MAX`.
pub assume_specification[ BytesMut::extend_from_slice ](buf: &mut BytesMut, extend: &[u8])
    requires
        contents(*old(buf)).len() + extend@.len() <= isize::MAX,
    ensures
        contents(*final(buf)) == contents(*old(buf)) + extend@,
;

/// `BytesMut::advance`: the first `cnt` bytes are dropped and the rest kept.
/// It panics where `cnt` is more than the number of bytes held.
pub assume_specification[ BytesMut::advance ](buf: &mut BytesMut, cnt: usize)
    requires
        cnt <= contents(*old(buf)).len(),
    ensures
        contents(*final(buf)) == contents(*old(buf)).skip(cnt as int),
;

/// `AsRef<[u8]>::as_ref` of `BytesMut`: the bytes held, as a slice.
pub assume_specification[ <BytesMut as AsRef<[u8]>>::as_ref ](buf: &BytesMut) -> (bytes: &[u8])
    ensures
        bytes@ == contents(*buf),
;

} // verus!
