//! Represents an abstract git repository, and the canonical serialization
//! that a loose object is stored under.
//!
//! A repository may store content through many mechanisms; the library only
//! requires a handle that can write a loose object.  The fan-out path and
//! the compressed bytes of a loose object are computed and specified here;
//! performing the actual file-system writes is a caller's concern.

use vstd::prelude::*;

use crate::object::{spec_header, spec_hex_chars, Id, Object};

mod deflate;

pub use deflate::zlib_fast_of;
use deflate::{fed, ZlibDeflate};

verus! {

/// Describes the potential error conditions that might arise from repo
/// operations.
#[derive(Clone, Debug, Eq, PartialEq)]
pub enum Error {
    /// The working directory does not exist.
    WorkDirDoesntExist(String),
    /// The `.git` directory does not exist.
    GitDirDoesntExist(String),
    /// The `.git` directory already exists.
    GitDirShouldntExist(String),
    /// An underlying I/O failure, carrying its description.
    IoError(String),
}

/// A struct that implements the `Repo` trait represents a particular
/// mechanism for storing and accessing a git repo.
///
/// The required methods on this trait represent the most primitive
/// operations which must be defined for a given storage architecture.
pub trait Repo {
    /// Writes a loose object to the repository.
    fn put_loose_object(&mut self, object: &Object) -> Result<(), Error>;
}

/// All 40 characters of a hex rendering are ASCII.
proof fn lemma_hex_chars_ascii(bytes: Seq<u8>)
    ensures
        vstd::utf8::is_ascii_chars(spec_hex_chars(bytes)),
{
    let chars = spec_hex_chars(bytes);
    assert forall|i: int| 0 <= i < chars.len() implies '\0' <= #[trigger] chars[i] <= '\u{7f}' by {
        assert(chars[i] == (if i % 2 == 0 {
            crate::object::hex_char_of(bytes[i / 2] / 16)
        } else {
            crate::object::hex_char_of(bytes[i / 2] % 16)
        }));
    }
}

/// The fan-out location of a loose object: the first two hex characters of
/// its id name the directory, the remaining 38 name the file.
pub fn loose_object_path(id: &Id) -> (r: (String, String))
    requires
        id.wf(),
    ensures
        r.0@ == spec_hex_chars(id@).take(2),
        r.1@ == spec_hex_chars(id@).skip(2),
{
    let hex = id.to_hex_string();
    let hex_str = hex.as_str();
    proof {
        lemma_hex_chars_ascii(id@);
        assert(vstd::string::is_ascii(hex_str));
    }
    let dir = <String as vstd::string::StringExecFns>::from_str(
        vstd::string::StrSliceExecFns::substring_ascii(hex_str, 0, 2),
    );
    let file = <String as vstd::string::StringExecFns>::from_str(
        vstd::string::StrSliceExecFns::substring_ascii(hex_str, 2, 40),
    );
    proof {
        assert(dir@ =~= spec_hex_chars(id@).take(2));
        assert(file@ =~= spec_hex_chars(id@).skip(2));
    }
    (dir, file)
}

/// The canonical on-disk bytes of a loose object: the zlib-compressed
/// serialization `"{kind} {length}\0{content}"`, streamed through the
/// encoder in 8 KiB chunks.
pub fn loose_object_bytes(object: &Object) -> (r: Vec<u8>)
    ensures
        r@ == zlib_fast_of(
            spec_header(object.spec_kind(), object.spec_content().len())
                + object.spec_content(),
        ),
{
    let mut z = ZlibDeflate::new();
    let header = crate::object::header_bytes(object.kind(), object.len());
    z.write(header.as_slice());
    proof {
        assert(fed(z) =~= spec_header(object.spec_kind(), object.spec_content().len()));
    }

    let content = object.open();
    let n = content.len();
    let mut off: usize = 0;
    while off < n
        invariant
            off <= n,
            n == content@.len(),
            content@ == object.spec_content(),
            fed(z) == spec_header(object.spec_kind(), object.spec_content().len())
                + object.spec_content().take(off as int),
        decreases n - off,
    {
        let end = if n - off < 8192 {
            n
        } else {
            off + 8192
        };
        let chunk = vstd::slice::slice_subrange(content.as_slice(), off, end);
        proof {
            assert(chunk@ =~= content@.subrange(off as int, end as int));
        }
        z.write(chunk);
        proof {
            assert(spec_header(object.spec_kind(), object.spec_content().len())
                + object.spec_content().take(off as int) + content@.subrange(
                off as int,
                end as int,
            ) =~= spec_header(object.spec_kind(), object.spec_content().len())
                + object.spec_content().take(end as int));
        }
        off = end;
    }
    proof {
        assert(object.spec_content().take(n as int) =~= object.spec_content());
    }
    z.finish()
}

} // verus!
