//! Represents the git concept of an "object" which is a tuple of
//! object type and binary data identified by the hash of the binary data.

use vstd::prelude::*;

use crate::bytes::{push_decimal, spec_dec_bytes};
use crate::path::CheckPlatforms;
use vstd::slice::{slice_subrange, slice_to_vec};

mod attribution;
mod check_commit;
mod check_tag;
mod check_tree;
mod content_source;
mod digest;
mod id;
mod kind;
pub mod parse_utils;

pub use attribution::Attribution;
pub use check_commit::{commit_is_valid, spec_commit_valid};
pub use check_tag::{spec_tag_valid, tag_is_valid};
pub use check_tree::{
    spec_tree_valid, tree_is_valid, tree_is_valid_with_platform_checks,
};
pub use content_source::ContentSource;
pub use digest::sha1_of;
use digest::{absorbed, Sha1Hasher};
pub use id::{hex_char_of, spec_hex_chars, Id, ParseIdError};
pub use kind::Kind;

verus! {

/// The canonical serialization header of an object: its kind's display
/// form, a space, the decimal content length, and a NUL.
pub open spec fn spec_header(kind: &Kind, len: nat) -> Seq<u8> {
    kind.spec_display_bytes() + seq![32u8] + spec_dec_bytes(len) + seq![0u8]
}

/// The id of an object is the SHA-1 digest of its header followed by its
/// content.
pub open spec fn spec_object_id(kind: &Kind, content: Seq<u8>) -> Seq<u8> {
    sha1_of(spec_header(kind, content.len()) + content)
}

/// Describes a single object stored (or about to be stored) in a git
/// repository.
///
/// This struct is constructed as a working description of how to find and
/// describe an object before it gets written to a repository.
pub struct Object {
    id: Id,
    kind: Kind,
    content: Vec<u8>,
}

impl Object {
    /// The kind of this object.
    pub closed spec fn spec_kind(&self) -> &Kind {
        &self.kind
    }

    /// The content bytes of this object.
    pub closed spec fn spec_content(&self) -> Seq<u8> {
        self.content@
    }

    /// The id bytes of this object.
    pub closed spec fn spec_id(&self) -> Seq<u8> {
        self.id@
    }

    /// The id an object carries is always the hash of its kind and content.
    pub open spec fn wf(&self) -> bool {
        self.spec_id() == spec_object_id(self.spec_kind(), self.spec_content())
            && self.spec_id().len() == 20
    }

    /// Create a new Object from a kind and a content source.
    ///
    /// Calculates the object's ID.
    pub fn new<C: ContentSource>(kind: Kind, content_source: C) -> (o: Object)
        ensures
            o.wf(),
            *o.spec_kind() == kind,
            o.spec_content() == content_source.content(),
    {
        let content = content_source.open();
        let id = assign_id(&kind, content.as_slice());
        Object { id, kind, content }
    }

    /// Return the ID of the object.
    pub fn id(&self) -> (r: &Id)
        ensures
            r@ == self.spec_id(),
    {
        &self.id
    }

    /// Return the kind of the object.
    pub fn kind(&self) -> (r: &Kind)
        ensures
            r == self.spec_kind(),
    {
        &self.kind
    }

    /// Return the size (in bytes) of the object.
    pub fn len(&self) -> (n: usize)
        ensures
            n == self.spec_content().len(),
    {
        self.content.len()
    }

    /// Returns true if the object is empty.
    pub fn is_empty(&self) -> (r: bool)
        ensures
            r == (self.spec_content().len() == 0),
    {
        self.content.len() == 0
    }

    /// Returns the object's content, independently of any earlier read.
    pub fn open(&self) -> (r: Vec<u8>)
        ensures
            r@ == self.spec_content(),
    {
        slice_to_vec(self.content.as_slice())
    }

    /// Returns true if the content of the object is valid for the type.
    pub fn is_valid(&self) -> (r: bool)
        ensures
            r == spec_object_valid(
                self.spec_kind(),
                self.spec_content(),
                CheckPlatforms { windows: false, mac: false },
            ),
    {
        self.is_valid_with_platform_checks(&CheckPlatforms { windows: false, mac: false })
    }

    /// Returns true if the content of the object is valid for the type
    /// and the given platform's file system(s).
    ///
    /// Only tree validity varies by platform; commit and tag validity never
    /// do.
    pub fn is_valid_with_platform_checks(&self, platforms: &CheckPlatforms) -> (r: bool)
        ensures
            r == spec_object_valid(self.spec_kind(), self.spec_content(), *platforms),
    {
        match &self.kind {
            Kind::Blob => true,
            Kind::Commit => commit_is_valid(self.content.as_slice()),
            Kind::Tag => tag_is_valid(self.content.as_slice()),
            Kind::Tree => tree_is_valid_with_platform_checks(self.content.as_slice(), platforms),
            Kind::Other(_) => true,
        }
    }
}

/// What the validity check decides for each kind: blobs are always valid,
/// the composite kinds delegate to their format validators (with platform
/// rules reaching only the tree path), and a non-standard kind has no
/// validator, so it reads as valid; its users have opted out of validation.
pub open spec fn spec_object_valid(kind: &Kind, content: Seq<u8>, p: CheckPlatforms) -> bool {
    match kind {
        Kind::Blob => true,
        Kind::Commit => spec_commit_valid(content),
        Kind::Tag => spec_tag_valid(content),
        Kind::Tree => spec_tree_valid(content, p),
        Kind::Other(_) => true,
    }
}

/// The canonical serialization header of an object, as bytes.
pub fn header_bytes(kind: &Kind, len: usize) -> (r: Vec<u8>)
    ensures
        r@ == spec_header(kind, len as nat),
{
    let mut h = kind.display_bytes();
    h.push(32);
    push_decimal(len, &mut h);
    h.push(0);
    proof {
        assert(h@ =~= spec_header(kind, len as nat));
    }
    h
}

/// Computes an object's ID from its content, size, and type: the SHA-1
/// digest of `"{kind} {length}\0"` followed by the content, streamed
/// through the hasher in 8 KiB chunks.
fn assign_id(kind: &Kind, content: &[u8]) -> (id: Id)
    ensures
        id@ == spec_object_id(kind, content@),
        id@.len() == 20,
{
    let mut hasher = Sha1Hasher::new();
    let header = header_bytes(kind, content.len());
    hasher.update(header.as_slice());
    proof {
        assert(absorbed(hasher) =~= spec_header(kind, content@.len()));
    }

    let n = content.len();
    let mut off: usize = 0;
    while off < n
        invariant
            off <= n,
            n == content@.len(),
            absorbed(hasher) == spec_header(kind, content@.len()) + content@.take(off as int),
        decreases n - off,
    {
        let end = if n - off < 8192 {
            n
        } else {
            off + 8192
        };
        let chunk = slice_subrange(content, off, end);
        proof {
            assert(chunk@ =~= content@.subrange(off as int, end as int));
        }
        hasher.update(chunk);
        proof {
            assert(spec_header(kind, content@.len()) + content@.take(off as int) + content@.subrange(
                off as int,
                end as int,
            ) =~= spec_header(kind, content@.len()) + content@.take(end as int));
        }
        off = end;
    }
    proof {
        assert(content@.take(n as int) =~= content@);
    }
    let digest = hasher.finalize();
    Id::from_bytes(digest)
}

/// Object ids are deterministic: two well-formed objects of the same kind
/// and content carry the same id.
pub proof fn lemma_object_id_deterministic(o1: Object, o2: Object)
    requires
        o1.wf(),
        o2.wf(),
        *o1.spec_kind() == *o2.spec_kind(),
        o1.spec_content() == o2.spec_content(),
    ensures
        o1.spec_id() == o2.spec_id(),
{
}

} // verus!
