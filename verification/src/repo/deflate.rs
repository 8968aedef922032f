//! Trusted binding to the streaming zlib encoder that loose objects are
//! compressed with.  The compressed form is never specified beyond being a
//! function of the fed bytes at the fixed level; everything around it is
//! verified.

use std::io::Write;
use vstd::prelude::*;

verus! {

/// The zlib (deflate) compression of a byte sequence at the fixed fast
/// level.  `flate2` computes it from the bytes alone, the same way on
/// every machine.
pub uninterp spec fn zlib_fast_of(bytes: Seq<u8>) -> Seq<u8>;

/// The bytes a streaming zlib encoder has been fed so far, in order.
pub uninterp spec fn fed(z: ZlibDeflate) -> Seq<u8>;

/// A streaming zlib encoder over an in-memory sink.  The wrapped
/// `flate2::write::ZlibEncoder` cannot be declared to the verifier (its
/// type is generic over an `std::io::Write` sink), so the whole struct is
/// opaque and its contents are tracked through [`fed`].
#[verifier::external_body]
pub struct ZlibDeflate {
    inner: flate2::write::ZlibEncoder<Vec<u8>>,
}

impl ZlibDeflate {
    /// Relies on `flate2::write::ZlibEncoder::new` with
    /// `Compression::new(1)` (the fixed fast level): a fresh encoder has
    /// been fed nothing.
    #[verifier::external_body]
    pub fn new() -> (z: ZlibDeflate)
        ensures
            fed(z) == Seq::<u8>::empty(),
    {
        ZlibDeflate {
            inner: flate2::write::ZlibEncoder::new(
                Vec::new(),
                flate2::Compression::new(1),
            ),
        }
    }

    /// Relies on `std::io::Write::write_all` for `ZlibEncoder`: the encoder
    /// absorbs the given bytes after everything fed before.  Writing into a
    /// `Vec` sink cannot fail.
    #[verifier::external_body]
    pub fn write(&mut self, data: &[u8])
        ensures
            fed(*final(self)) == fed(*old(self)) + data@,
    {
        self.inner.write_all(data).unwrap();
    }

    /// Relies on `flate2::write::ZlibEncoder::finish`: the complete zlib
    /// stream for everything fed, a function of those bytes alone at the
    /// fixed level.  Finishing into a `Vec` sink cannot fail.
    #[verifier::external_body]
    pub fn finish(self) -> (r: Vec<u8>)
        ensures
            r@ == zlib_fast_of(fed(self)),
    {
        self.inner.finish().unwrap()
    }
}

} // verus!
