//! Trusted binding to the SHA-1 implementation that object ids are built
//! on.  The digest itself is never specified beyond being a 20-byte function
//! of the absorbed bytes; everything around it is verified.

use vstd::prelude::*;

verus! {

/// The SHA-1 digest (20 bytes) of a byte sequence.  The `sha1` crate
/// computes it from the bytes alone, the same way on every machine.
pub uninterp spec fn sha1_of(bytes: Seq<u8>) -> Seq<u8>;

/// The bytes a hasher has absorbed so far, in order.
pub uninterp spec fn absorbed(h: Sha1Hasher) -> Seq<u8>;

/// An incremental SHA-1 hasher.  The wrapped `sha1::Sha1` state cannot be
/// declared to the verifier (it is a type alias over a generic wrapper), so
/// the whole struct is opaque and its contents are tracked through
/// [`absorbed`].
#[verifier::external_body]
pub struct Sha1Hasher {
    inner: sha1::Sha1,
}

impl Sha1Hasher {
    /// Relies on `sha1::Sha1::new` (`Digest::new`): a fresh hasher has
    /// absorbed nothing.
    #[verifier::external_body]
    pub fn new() -> (h: Sha1Hasher)
        ensures
            absorbed(h) == Seq::<u8>::empty(),
    {
        Sha1Hasher { inner: <sha1::Sha1 as sha1::Digest>::new() }
    }

    /// Relies on `sha1::Sha1::update` (`Digest::update`): the hasher absorbs
    /// the given bytes after everything absorbed before.
    #[verifier::external_body]
    pub fn update(&mut self, data: &[u8])
        ensures
            absorbed(*final(self)) == absorbed(*old(self)) + data@,
    {
        <sha1::Sha1 as sha1::Digest>::update(&mut self.inner, data);
    }

    /// Relies on `sha1::Sha1::finalize` (`Digest::finalize`): the 20-byte
    /// SHA-1 digest of everything absorbed, a function of those bytes alone.
    #[verifier::external_body]
    pub fn finalize(self) -> (r: Vec<u8>)
        ensures
            r@ == sha1_of(absorbed(self)),
            r@.len() == 20,
    {
        <sha1::Sha1 as sha1::Digest>::finalize(self.inner).to_vec()
    }
}

} // verus!
