use vstd::prelude::*;

verus! {

/// Trait used for reading git object content from various sources.
///
/// A source yields the same bytes each time it is opened; callers outside
/// the library (a file on disk, a captured standard-input stream) provide
/// their own buffers and hand them over as `Vec<u8>` or `String`.
pub trait ContentSource {
    /// The bytes this source yields.
    spec fn content(&self) -> Seq<u8>;

    /// Returns the length (in bytes) of the content.
    fn len(&self) -> (n: usize)
        ensures
            n == self.content().len(),
    ;

    /// Returns true if the content is empty.
    fn is_empty(&self) -> (r: bool)
        ensures
            r == (self.content().len() == 0),
    ;

    /// Returns the full content, independently of any earlier read.
    fn open(&self) -> (r: Vec<u8>)
        ensures
            r@ == self.content(),
    ;
}

impl ContentSource for Vec<u8> {
    open spec fn content(&self) -> Seq<u8> {
        self@
    }

    fn len(&self) -> (n: usize)
        ensures
            n == self.content().len(),
    {
        Vec::len(self)
    }

    fn is_empty(&self) -> (r: bool)
        ensures
            r == (self.content().len() == 0),
    {
        Vec::len(self) == 0
    }

    fn open(&self) -> (r: Vec<u8>)
        ensures
            r@ == self.content(),
    {
        vstd::slice::slice_to_vec(self.as_slice())
    }
}

impl ContentSource for String {
    open spec fn content(&self) -> Seq<u8> {
        vstd::utf8::encode_utf8(self@)
    }

    fn len(&self) -> (n: usize)
        ensures
            n == self.content().len(),
    {
        self.as_str().as_bytes().len()
    }

    fn is_empty(&self) -> (r: bool)
        ensures
            r == (self.content().len() == 0),
    {
        self.as_str().as_bytes().len() == 0
    }

    fn open(&self) -> (r: Vec<u8>)
        ensures
            r@ == self.content(),
    {
        vstd::string::StrSliceExecFns::as_bytes_vec(self.as_str())
    }
}

} // verus!
