//! Byte-level path names as they appear inside tree objects, together with
//! the safety rules that decide which names a repository will accept.

use vstd::prelude::*;

use crate::bytes::{
    bytes_eq, contains_byte, lemma_first_pos, position_of, spec_first_pos, spec_has_byte,
};
use vstd::slice::{slice_subrange, slice_to_vec};

mod file_mode;
mod path_mode;

pub use file_mode::FileMode;
pub use path_mode::{
    spec_bytes_cmp, spec_cmp_same_name, spec_core_compare, spec_mode_compare,
    spec_path_mode_cmp, spec_suffix_or_slash, PathMode,
};

verus! {

/// Which platform's file naming conventions should be checked?
#[derive(Clone, Copy, Debug, Eq, PartialEq, Structural)]
pub struct CheckPlatforms {
    pub windows: bool,
    pub mac: bool,
}

/// Reasons why a given byte sequence can not be accepted as a git repo path.
#[derive(Clone, Debug, Eq, PartialEq)]
pub enum PathError {
    /// The path is empty.
    EmptyPath,
    /// The path begins with `/`.
    AbsolutePath,
    /// The path ends with `/`.
    TrailingSlash,
    /// The path contains adjacent `/` path separators.
    DuplicateSlash,
    /// The path segment contains `/`.
    ContainsSlash,
    /// The path contains a reserved name.
    ReservedName(Vec<u8>),
    /// The path contains a NULL character.
    ContainsNull,
    /// The path contains a character which is not allowed on Windows.
    ContainsInvalidWindowsCharacter(char),
    /// The path ends with a character which is not allowed on Windows.
    InvalidWindowsNameEnding(char),
    /// The name is a reserved device name on Windows.
    ReservedWindowsDeviceName(Vec<u8>),
    /// The name contains Unicode characters which are ignorable.
    ContainsIgnorableUnicodeCharacters,
    /// The name contains incomplete Unicode characters.
    ContainsIncompleteUnicodeCharacters,
}

/// The mathematical shape of a `PathError`, with offending bytes as sequences.
pub enum SpecPathError {
    EmptyPath,
    AbsolutePath,
    TrailingSlash,
    DuplicateSlash,
    ContainsSlash,
    ReservedName(Seq<u8>),
    ContainsNull,
    ContainsInvalidWindowsCharacter(char),
    InvalidWindowsNameEnding(char),
    ReservedWindowsDeviceName(Seq<u8>),
    ContainsIgnorableUnicodeCharacters,
    ContainsIncompleteUnicodeCharacters,
}

impl View for PathError {
    type V = SpecPathError;

    open spec fn view(&self) -> SpecPathError {
        match self {
            PathError::EmptyPath => SpecPathError::EmptyPath,
            PathError::AbsolutePath => SpecPathError::AbsolutePath,
            PathError::TrailingSlash => SpecPathError::TrailingSlash,
            PathError::DuplicateSlash => SpecPathError::DuplicateSlash,
            PathError::ContainsSlash => SpecPathError::ContainsSlash,
            PathError::ReservedName(v) => SpecPathError::ReservedName(v@),
            PathError::ContainsNull => SpecPathError::ContainsNull,
            PathError::ContainsInvalidWindowsCharacter(c) => SpecPathError::ContainsInvalidWindowsCharacter(
                *c,
            ),
            PathError::InvalidWindowsNameEnding(c) => SpecPathError::InvalidWindowsNameEnding(*c),
            PathError::ReservedWindowsDeviceName(v) => SpecPathError::ReservedWindowsDeviceName(v@),
            PathError::ContainsIgnorableUnicodeCharacters => SpecPathError::ContainsIgnorableUnicodeCharacters,
            PathError::ContainsIncompleteUnicodeCharacters => SpecPathError::ContainsIncompleteUnicodeCharacters,
        }
    }
}

/// ASCII lower-casing of one byte.
pub open spec fn ascii_lower(b: u8) -> u8 {
    if ('A' as u8) <= b <= ('Z' as u8) {
        (b + 32) as u8
    } else {
        b
    }
}

/// The byte string `.git`.
pub open spec fn dot_git_bytes() -> Seq<u8> {
    seq![('.' as u8), ('g' as u8), ('i' as u8), ('t' as u8)]
}

/// The trailing decorations under which a `.git`-like name is still reserved:
/// nothing, a space, a dot, or the dotted/spaced combinations git itself
/// refuses.
pub open spec fn is_reserved_git_tail(t: Seq<u8>) -> bool {
    ||| t == Seq::<u8>::empty()
    ||| t == seq![(' ' as u8)]
    ||| t == seq![('.' as u8)]
    ||| t == seq![('.' as u8), (' ' as u8)]
    ||| t == seq![(' ' as u8), ('.' as u8)]
    ||| t == seq![(' ' as u8), ('.' as u8), (' ' as u8)]
}

/// Case-insensitive `.git`, possibly followed by one of the reserved tails.
pub open spec fn is_normalized_git(s: Seq<u8>) -> bool {
    &&& s.len() >= 4
    &&& s[0] == ('.' as u8)
    &&& ascii_lower(s[1]) == ('g' as u8)
    &&& ascii_lower(s[2]) == ('i' as u8)
    &&& ascii_lower(s[3]) == ('t' as u8)
    &&& is_reserved_git_tail(s.skip(4))
}

/// Names that are reserved on every platform: `.`, `..`, and the
/// case-insensitive `.git` family.
pub open spec fn is_reserved_git_name(s: Seq<u8>) -> bool {
    ||| s == seq![('.' as u8)]
    ||| s == seq![('.' as u8), ('.' as u8)]
    ||| is_normalized_git(s)
}

/// The case-insensitive 8.3 alias `git~1`, exactly five characters long.
pub open spec fn is_windows_git_tilde(s: Seq<u8>) -> bool {
    &&& s.len() == 5
    &&& ascii_lower(s[0]) == ('g' as u8)
    &&& ascii_lower(s[1]) == ('i' as u8)
    &&& ascii_lower(s[2]) == ('t' as u8)
    &&& s[3] == ('~' as u8)
    &&& s[4] == ('1' as u8)
}

/// Bytes Windows refuses inside a file name.
pub open spec fn is_invalid_windows_byte(b: u8) -> bool {
    ||| b == ('"' as u8)
    ||| b == ('*' as u8)
    ||| b == (':' as u8)
    ||| b == ('<' as u8)
    ||| b == ('>' as u8)
    ||| b == ('?' as u8)
    ||| b == ('\\' as u8)
    ||| b == ('|' as u8)
    ||| b < 32
}

/// True exactly when some byte of `s` is refused on Windows.
pub open spec fn has_invalid_windows_byte(s: Seq<u8>) -> bool {
    exists|j: int| 0 <= j < s.len() && is_invalid_windows_byte(s[j])
}

/// The index of the first byte of `s` refused on Windows (meaningful only
/// when `has_invalid_windows_byte(s)` holds).
pub open spec fn first_invalid_windows_pos(s: Seq<u8>) -> int {
    choose|j: int|
        0 <= j < s.len() && is_invalid_windows_byte(s[j]) && (forall|k: int|
            0 <= k < j ==> !is_invalid_windows_byte(s[k]))
}

/// Any index with the first-invalid-byte property is `first_invalid_windows_pos`.
proof fn lemma_first_invalid_windows_pos(s: Seq<u8>, i: int)
    requires
        0 <= i < s.len(),
        is_invalid_windows_byte(s[i]),
        forall|k: int| 0 <= k < i ==> !is_invalid_windows_byte(s[k]),
    ensures
        has_invalid_windows_byte(s),
        first_invalid_windows_pos(s) == i,
{
    assert(has_invalid_windows_byte(s));
    let j = first_invalid_windows_pos(s);
    assert(0 <= j < s.len() && is_invalid_windows_byte(s[j]) && (forall|k: int|
        0 <= k < j ==> !is_invalid_windows_byte(s[k])));
    if j < i {
        assert(!is_invalid_windows_byte(s[j]));
    } else if i < j {
        assert(!is_invalid_windows_byte(s[i]));
    }
}

/// The part of a name before its first `.`, against which Windows matches
/// device names.
pub open spec fn before_first_dot(s: Seq<u8>) -> Seq<u8> {
    if spec_has_byte(s, ('.' as u8)) {
        s.take(spec_first_pos(s, ('.' as u8)))
    } else {
        s
    }
}

/// Case-insensitive match of a three-byte prefix.
pub open spec fn lower3_is(s: Seq<u8>, a: u8, b: u8, c: u8) -> bool {
    ascii_lower(s[0]) == a && ascii_lower(s[1]) == b && ascii_lower(s[2]) == c
}

/// The reserved Windows device names: `AUX`, `CON`, `NUL`, `PRN`, and
/// `COM1`-`COM9`, `LPT1`-`LPT9`, matched case-insensitively against the part
/// of the name before the first dot.
pub open spec fn is_windows_device_name(s: Seq<u8>) -> bool {
    let bd = before_first_dot(s);
    ||| (bd.len() == 3 && (lower3_is(bd, ('a' as u8), ('u' as u8), ('x' as u8)) || lower3_is(bd, ('c' as u8), ('o' as u8), ('n' as u8))
        || lower3_is(bd, ('n' as u8), ('u' as u8), ('l' as u8)) || lower3_is(bd, ('p' as u8), ('r' as u8), ('n' as u8))))
    ||| (bd.len() == 4 && (lower3_is(bd, ('c' as u8), ('o' as u8), ('m' as u8)) || lower3_is(bd, ('l' as u8), ('p' as u8), ('t' as u8)))
        && ('1' as u8) <= bd[3] <= ('9' as u8))
}

/// One of the three-byte UTF-8 encodings that HFS+ ignores during name
/// comparison: zero-width joiners, directional formatting marks, Arabic
/// shaping controls, digit-shape selectors, and the byte-order mark
/// (U+200C-U+200F, U+202A-U+202E, U+206A-U+206F, U+FEFF).
pub open spec fn is_ignorable_triple(a: u8, b: u8, c: u8) -> bool {
    ||| (a == 0xE2 && b == 0x80 && (0x8C <= c <= 0x8F || 0xAA <= c <= 0xAE))
    ||| (a == 0xE2 && b == 0x81 && 0xAA <= c <= 0xAF)
    ||| (a == 0xEF && b == 0xBB && c == 0xBF)
}

/// True when `s` equals `m` after dropping HFS+-ignorable three-byte
/// sequences anywhere in `s`.
pub open spec fn spec_match_mac_hfs(s: Seq<u8>, m: Seq<u8>) -> bool
    decreases s.len(),
{
    if s.len() == 0 {
        m.len() == 0
    } else if s.len() >= 3 && is_ignorable_triple(s[0], s[1], s[2]) {
        spec_match_mac_hfs(s.skip(3), m)
    } else if m.len() == 0 || s[0] != m[0] {
        false
    } else {
        spec_match_mac_hfs(s.skip(1), m.skip(1))
    }
}

/// True when the final two bytes of `s` hold a dangling UTF-8 lead byte
/// (`0xE2` or `0xEF`) that signals a truncated multi-byte sequence.
pub open spec fn is_mac_truncated_utf8(s: Seq<u8>) -> bool {
    let tail = if s.len() >= 2 {
        s.skip(s.len() - 2)
    } else {
        s
    };
    spec_has_byte(tail, 0xE2) || spec_has_byte(tail, 0xEF)
}

/// The decision the segment validator takes on `s` under platform flags `p`:
/// `None` to accept, or the specific rejection reason, in the fixed order the
/// rules are applied.
pub open spec fn spec_check_segment(s: Seq<u8>, p: CheckPlatforms) -> Option<SpecPathError> {
    if s.len() == 0 {
        Some(SpecPathError::EmptyPath)
    } else if spec_has_byte(s, 0) {
        Some(SpecPathError::ContainsNull)
    } else if spec_has_byte(s, 47) {
        Some(SpecPathError::ContainsSlash)
    } else if is_reserved_git_name(s) {
        Some(SpecPathError::ReservedName(s))
    } else if is_windows_git_tilde(s) {
        Some(SpecPathError::ReservedName(s))
    } else if p.windows && has_invalid_windows_byte(s) {
        Some(
            SpecPathError::ContainsInvalidWindowsCharacter(
                s[first_invalid_windows_pos(s)] as char,
            ),
        )
    } else if p.windows && s[s.len() - 1] == ('.' as u8) {
        Some(SpecPathError::InvalidWindowsNameEnding('.'))
    } else if p.windows && s[s.len() - 1] == (' ' as u8) {
        Some(SpecPathError::InvalidWindowsNameEnding(' '))
    } else if p.windows && is_windows_device_name(s) {
        Some(SpecPathError::ReservedWindowsDeviceName(s))
    } else if p.mac && spec_match_mac_hfs(s, dot_git_bytes()) {
        Some(SpecPathError::ContainsIgnorableUnicodeCharacters)
    } else if p.mac && is_mac_truncated_utf8(s) {
        Some(SpecPathError::ContainsIncompleteUnicodeCharacters)
    } else {
        None
    }
}

/// An empty segment inside a longer path means two adjacent slashes.
pub open spec fn adjust_segment_error(e: SpecPathError) -> SpecPathError {
    if e == SpecPathError::EmptyPath {
        SpecPathError::DuplicateSlash
    } else {
        e
    }
}

/// The decision taken on the `/`-separated segments of `s`, left to right.
pub open spec fn spec_check_segments(s: Seq<u8>, p: CheckPlatforms) -> Option<SpecPathError>
    decreases s.len(),
{
    if spec_has_byte(s, 47) {
        let j = spec_first_pos(s, 47);
        if 0 <= j < s.len() {
            match spec_check_segment(s.take(j), p) {
                Some(e) => Some(adjust_segment_error(e)),
                None => spec_check_segments(s.skip(j + 1), p),
            }
        } else {
            None
        }
    } else {
        match spec_check_segment(s, p) {
            Some(e) => Some(adjust_segment_error(e)),
            None => None,
        }
    }
}

/// The decision the path validator takes on `s` under platform flags `p`:
/// `None` to accept, or the specific rejection reason.
pub open spec fn spec_check_path(s: Seq<u8>, p: CheckPlatforms) -> Option<SpecPathError> {
    if s.len() == 0 {
        Some(SpecPathError::EmptyPath)
    } else if s[0] == 47 {
        Some(SpecPathError::AbsolutePath)
    } else if s[s.len() - 1] == 47 {
        Some(SpecPathError::TrailingSlash)
    } else {
        spec_check_segments(s, p)
    }
}

/// Represents a sequence of bytes that is a valid path in a git repo.
///
/// A path is typically, but not necessarily, interpreted as UTF-8.
#[derive(Clone, Debug, Eq, PartialEq)]
pub struct Path<'a> {
    path: &'a [u8],
    checked_platforms: CheckPlatforms,
}

/// Represents a list of bytes (typically, but not necessarily UTF-8)
/// that is a valid path *segment* in a git repo. (Unlike [`Path`],
/// a `PathSegment` may not contain a `/` character.)
#[derive(Clone, Debug, Eq, PartialEq)]
pub struct PathSegment<'a> {
    path: &'a [u8],
    checked_platforms: CheckPlatforms,
}

impl<'a> Path<'a> {
    /// The bytes this path holds.
    pub closed spec fn spec_path(&self) -> Seq<u8> {
        self.path@
    }

    /// The platform flags this path was checked under.
    pub closed spec fn spec_platforms(&self) -> CheckPlatforms {
        self.checked_platforms
    }

    /// A `Path` only exists for byte strings the validator accepts.
    pub open spec fn wf(&self) -> bool {
        spec_check_path(self.spec_path(), self.spec_platforms()) is None
    }

    /// Convert the provided byte vector to a `Path` struct if it is acceptable
    /// as a git path. The rules enforced here are slightly different from what
    /// is allowed in a `tree` object in that we allow `/` characters to build
    /// hierarchical paths.
    pub fn new(path: &'a [u8]) -> (r: Result<Path<'a>, PathError>)
        ensures
            r matches Ok(p) ==> p.wf() && p.spec_path() == path@ && p.spec_platforms()
                == (CheckPlatforms { windows: false, mac: false }),
            r matches Err(e) ==> Some(e@) == spec_check_path(
                path@,
                CheckPlatforms { windows: false, mac: false },
            ),
    {
        Path::new_with_platform_checks(
            path,
            &CheckPlatforms { windows: false, mac: false },
        )
    }

    /// Convert the provided byte vector to a `Path` struct if it is acceptable
    /// as a git path. In addition to the typical constraints enforced via
    /// `new()`, also check platform-specific rules.
    pub fn new_with_platform_checks(path: &'a [u8], platforms: &CheckPlatforms) -> (r: Result<
        Path<'a>,
        PathError,
    >)
        ensures
            r matches Ok(p) ==> p.wf() && p.spec_path() == path@ && p.spec_platforms()
                == *platforms,
            r matches Err(e) ==> Some(e@) == spec_check_path(path@, *platforms),
    {
        match check_path(path, platforms) {
            Ok(()) => Ok(
                Path { path, checked_platforms: platforms.clone() },
            ),
            Err(err) => Err(err),
        }
    }

    /// Return the path.
    pub fn path(&self) -> (r: &[u8])
        ensures
            r@ == self.spec_path(),
    {
        self.path
    }

    /// Return which platforms were checked for this path.
    pub fn checked_platforms(&self) -> (r: &CheckPlatforms)
        ensures
            *r == self.spec_platforms(),
    {
        &self.checked_platforms
    }
}

impl<'a> PathSegment<'a> {
    /// The bytes this segment holds.
    pub closed spec fn spec_path(&self) -> Seq<u8> {
        self.path@
    }

    /// The platform flags this segment was checked under.
    pub closed spec fn spec_platforms(&self) -> CheckPlatforms {
        self.checked_platforms
    }

    /// A `PathSegment` only exists for byte strings the validator accepts.
    pub open spec fn wf(&self) -> bool {
        spec_check_segment(self.spec_path(), self.spec_platforms()) is None
    }

    /// Convert the provided byte vector to a `PathSegment` struct if it is
    /// acceptable as a git path segment. Similarly to a `tree` object, we do
    /// not allow `/` characters.
    pub fn new(path: &'a [u8]) -> (r: Result<PathSegment<'a>, PathError>)
        ensures
            r matches Ok(p) ==> p.wf() && p.spec_path() == path@ && p.spec_platforms()
                == (CheckPlatforms { windows: false, mac: false }),
            r matches Err(e) ==> Some(e@) == spec_check_segment(
                path@,
                CheckPlatforms { windows: false, mac: false },
            ),
    {
        PathSegment::new_with_platform_checks(
            path,
            &CheckPlatforms { windows: false, mac: false },
        )
    }

    /// Convert the provided byte vector to a `PathSegment` struct if it is
    /// acceptable as a git path segment. In addition to the typical
    /// constraints enforced via `new()`, also check platform-specific rules.
    pub fn new_with_platform_checks(path: &'a [u8], platforms: &CheckPlatforms) -> (r: Result<
        PathSegment<'a>,
        PathError,
    >)
        ensures
            r matches Ok(p) ==> p.wf() && p.spec_path() == path@ && p.spec_platforms()
                == *platforms,
            r matches Err(e) ==> Some(e@) == spec_check_segment(path@, *platforms),
    {
        match check_segment(path, platforms) {
            Ok(()) => Ok(
                PathSegment { path, checked_platforms: platforms.clone() },
            ),
            Err(err) => Err(err),
        }
    }

    /// Return the path.
    pub fn path(&self) -> (r: &[u8])
        ensures
            r@ == self.spec_path(),
    {
        self.path
    }

    /// Return which platforms were checked for this path.
    pub fn checked_platforms(&self) -> (r: &CheckPlatforms)
        ensures
            *r == self.spec_platforms(),
    {
        &self.checked_platforms
    }
}

/// Check a whole (possibly hierarchical) path: global shape first, then each
/// `/`-separated segment in order.
fn check_path(path: &[u8], platforms: &CheckPlatforms) -> (r: Result<(), PathError>)
    ensures
        r is Ok <==> spec_check_path(path@, *platforms) is None,
        r matches Err(e) ==> Some(e@) == spec_check_path(path@, *platforms),
{
    let n = path.len();
    if n == 0 {
        return Err(PathError::EmptyPath);
    }
    if path[0] == 47 {
        return Err(PathError::AbsolutePath);
    }
    if path[n - 1] == 47 {
        return Err(PathError::TrailingSlash);
    }
    let mut start: usize = 0;
    proof {
        assert(path@.skip(0) =~= path@);
    }
    loop
        invariant
            start <= n,
            n == path@.len(),
            spec_check_path(path@, *platforms) == spec_check_segments(
                path@.skip(start as int),
                *platforms,
            ),
        decreases n - start,
    {
        let ghost s = path@.skip(start as int);
        let rest = slice_subrange(path, start, n);
        proof {
            assert(rest@ =~= s);
        }
        match position_of(rest, 47) {
            Some(j) => {
                proof {
                    assert(spec_has_byte(s, 47) && spec_first_pos(s, 47) == j);
                    assert(spec_check_segments(s, *platforms) == (match spec_check_segment(
                        s.take(j as int),
                        *platforms,
                    ) {
                        Some(e) => Some(adjust_segment_error(e)),
                        None => spec_check_segments(s.skip(j + 1), *platforms),
                    }));
                }
                let segment = slice_subrange(path, start, start + j);
                proof {
                    assert(segment@ =~= s.take(j as int));
                }
                match check_segment(segment, platforms) {
                    Err(e) => {
                        return Err(map_segment_error(e));
                    },
                    Ok(()) => {
                        proof {
                            assert(s.skip(j + 1) =~= path@.skip(start + j + 1));
                        }
                        start = start + j + 1;
                    },
                }
            },
            None => {
                proof {
                    assert(spec_check_segments(s, *platforms) == (match spec_check_segment(
                        s,
                        *platforms,
                    ) {
                        Some(e) => Some(adjust_segment_error(e)),
                        None => None,
                    }));
                }
                match check_segment(rest, platforms) {
                    Err(e) => {
                        return Err(map_segment_error(e));
                    },
                    Ok(()) => {
                        return Ok(());
                    },
                }
            },
        }
    }
}

/// Replace an `EmptyPath` segment error by `DuplicateSlash`, as the path
/// validator reports it.
fn map_segment_error(e: PathError) -> (r: PathError)
    ensures
        r@ == adjust_segment_error(e@),
{
    match e {
        PathError::EmptyPath => PathError::DuplicateSlash,
        other => other,
    }
}

/// Check one path segment: the always-on rules, then the Windows rules, then
/// the Mac rules, in that order.
fn check_segment(segment: &[u8], platforms: &CheckPlatforms) -> (r: Result<(), PathError>)
    ensures
        r is Ok <==> spec_check_segment(segment@, *platforms) is None,
        r matches Err(e) ==> Some(e@) == spec_check_segment(segment@, *platforms),
{
    if segment.len() == 0 {
        return Err(PathError::EmptyPath);
    }
    if contains_byte(segment, 0) {
        return Err(PathError::ContainsNull);
    }
    if contains_byte(segment, 47) {
        return Err(PathError::ContainsSlash);
    }
    match check_git_reserved_name(segment) {
        Err(e) => {
            return Err(e);
        },
        Ok(()) => {},
    }
    match check_windows_git_name(segment) {
        Err(e) => {
            return Err(e);
        },
        Ok(()) => {},
    }
    if platforms.windows {
        match check_windows_special_characters(segment) {
            Err(e) => {
                return Err(e);
            },
            Ok(()) => {},
        }
        match check_windows_segment_ending(segment) {
            Err(e) => {
                return Err(e);
            },
            Ok(()) => {},
        }
        match check_windows_device_name(segment) {
            Err(e) => {
                return Err(e);
            },
            Ok(()) => {},
        }
    }
    if platforms.mac {
        match check_git_path_with_mac_ignorables(segment) {
            Err(e) => {
                return Err(e);
            },
            Ok(()) => {},
        }
        match check_truncated_utf8_for_mac(segment) {
            Err(e) => {
                return Err(e);
            },
            Ok(()) => {},
        }
    }
    Ok(())
}

/// Reject `.`, `..` and the case-insensitive `.git` family.
fn check_git_reserved_name(segment: &[u8]) -> (r: Result<(), PathError>)
    ensures
        r is Ok <==> !is_reserved_git_name(segment@),
        r matches Err(e) ==> e@ == SpecPathError::ReservedName(segment@),
{
    let n = segment.len();
    let reserved = if n == 1 && segment[0] == ('.' as u8) {
        proof {
            assert(segment@ =~= seq![('.' as u8)]);
        }
        true
    } else if n == 2 && segment[0] == ('.' as u8) && segment[1] == ('.' as u8) {
        proof {
            assert(segment@ =~= seq![('.' as u8), ('.' as u8)]);
        }
        true
    } else {
        proof {
            assert(segment@ != seq![('.' as u8)] && segment@ != seq![('.' as u8), ('.' as u8)]) by {
                if segment@ == seq![('.' as u8)] {
                    assert(segment@.len() == 1 && segment@[0] == ('.' as u8));
                }
                if segment@ == seq![('.' as u8), ('.' as u8)] {
                    assert(segment@.len() == 2 && segment@[0] == ('.' as u8) && segment@[1] == ('.' as u8));
                }
            }
        }
        exec_is_normalized_git(segment)
    };

    if reserved {
        Err(PathError::ReservedName(slice_to_vec(segment)))
    } else {
        Ok(())
    }
}

/// ASCII lower-casing of one byte.
fn exec_ascii_lower(b: u8) -> (r: u8)
    ensures
        r == ascii_lower(b),
{
    if ('A' as u8) <= b && b <= ('Z' as u8) {
        b + 32
    } else {
        b
    }
}

/// Case-insensitive `.git`, possibly followed by one of the reserved tails.
fn exec_is_normalized_git(segment: &[u8]) -> (r: bool)
    ensures
        r == is_normalized_git(segment@),
{
    let n = segment.len();
    if n < 4 {
        return false;
    }
    if segment[0] != ('.' as u8) {
        return false;
    }
    if exec_ascii_lower(segment[1]) != ('g' as u8) {
        return false;
    }
    if exec_ascii_lower(segment[2]) != ('i' as u8) {
        return false;
    }
    if exec_ascii_lower(segment[3]) != ('t' as u8) {
        return false;
    }
    let tail = slice_subrange(segment, 4, n);
    proof {
        assert(tail@ =~= segment@.skip(4));
    }
    let tl = tail.len();
    if tl == 0 {
        proof {
            assert(tail@ =~= Seq::<u8>::empty());
        }
        true
    } else if tl == 1 && tail[0] == (' ' as u8) {
        proof {
            assert(tail@ =~= seq![(' ' as u8)]);
        }
        true
    } else if tl == 1 && tail[0] == ('.' as u8) {
        proof {
            assert(tail@ =~= seq![('.' as u8)]);
        }
        true
    } else if tl == 2 && tail[0] == ('.' as u8) && tail[1] == (' ' as u8) {
        proof {
            assert(tail@ =~= seq![('.' as u8), (' ' as u8)]);
        }
        true
    } else if tl == 2 && tail[0] == (' ' as u8) && tail[1] == ('.' as u8) {
        proof {
            assert(tail@ =~= seq![(' ' as u8), ('.' as u8)]);
        }
        true
    } else if tl == 3 && tail[0] == (' ' as u8) && tail[1] == ('.' as u8) && tail[2] == (' ' as u8) {
        proof {
            assert(tail@ =~= seq![(' ' as u8), ('.' as u8), (' ' as u8)]);
        }
        true
    } else {
        proof {
            assert(!is_reserved_git_tail(tail@)) by {
                if tail@ == Seq::<u8>::empty() {
                    assert(tail@.len() == 0);
                }
                if tail@ == seq![(' ' as u8)] {
                    assert(tail@.len() == 1 && tail@[0] == (' ' as u8));
                }
                if tail@ == seq![('.' as u8)] {
                    assert(tail@.len() == 1 && tail@[0] == ('.' as u8));
                }
                if tail@ == seq![('.' as u8), (' ' as u8)] {
                    assert(tail@.len() == 2 && tail@[0] == ('.' as u8) && tail@[1] == (' ' as u8));
                }
                if tail@ == seq![(' ' as u8), ('.' as u8)] {
                    assert(tail@.len() == 2 && tail@[0] == (' ' as u8) && tail@[1] == ('.' as u8));
                }
                if tail@ == seq![(' ' as u8), ('.' as u8), (' ' as u8)] {
                    assert(tail@.len() == 3 && tail@[0] == (' ' as u8) && tail@[1] == ('.' as u8) && tail@[2]
                        == (' ' as u8));
                }
            }
        }
        false
    }
}

/// Reject the case-insensitive 8.3 alias `git~1`.
fn check_windows_git_name(segment: &[u8]) -> (r: Result<(), PathError>)
    ensures
        r is Ok <==> !is_windows_git_tilde(segment@),
        r matches Err(e) ==> e@ == SpecPathError::ReservedName(segment@),
{
    if segment.len() == 5 {
        let tilde = exec_ascii_lower(segment[0]) == ('g' as u8) && exec_ascii_lower(segment[1]) == ('i' as u8)
            && exec_ascii_lower(segment[2]) == ('t' as u8) && segment[3] == ('~' as u8) && segment[4] == ('1' as u8);
        if tilde {
            Err(PathError::ReservedName(slice_to_vec(segment)))
        } else {
            Ok(())
        }
    } else {
        Ok(())
    }
}

/// Reject bytes Windows does not allow in file names.
fn check_windows_special_characters(segment: &[u8]) -> (r: Result<(), PathError>)
    ensures
        r is Ok <==> !has_invalid_windows_byte(segment@),
        r matches Err(e) ==> e@ == SpecPathError::ContainsInvalidWindowsCharacter(
            segment@[first_invalid_windows_pos(segment@)] as char,
        ),
{
    let n = segment.len();
    let mut i: usize = 0;
    while i < n
        invariant
            n == segment@.len(),
            i <= n,
            forall|k: int| 0 <= k < i ==> !is_invalid_windows_byte(segment@[k]),
        decreases n - i,
    {
        let c = segment[i];
        let invalid = c == ('"' as u8) || c == ('*' as u8) || c == (':' as u8) || c == ('<' as u8) || c == ('>' as u8) || c == ('?' as u8)
            || c == ('\\' as u8) || c == ('|' as u8) || c < 32;
        if invalid {
            proof {
                lemma_first_invalid_windows_pos(segment@, i as int);
            }
            return Err(PathError::ContainsInvalidWindowsCharacter(c as char));
        }
        i += 1;
    }
    Ok(())
}

/// Reject names ending in `.` or space, which Windows strips.
fn check_windows_segment_ending(segment: &[u8]) -> (r: Result<(), PathError>)
    requires
        segment@.len() > 0,
    ensures
        r is Ok <==> !(segment@[segment@.len() - 1] == ('.' as u8) || segment@[segment@.len() - 1]
            == (' ' as u8)),
        r matches Err(e) ==> e@ == (if segment@[segment@.len() - 1] == ('.' as u8) {
            SpecPathError::InvalidWindowsNameEnding('.')
        } else {
            SpecPathError::InvalidWindowsNameEnding(' ')
        }),
{
    let last = segment[segment.len() - 1];
    if last == ('.' as u8) {
        Err(PathError::InvalidWindowsNameEnding('.'))
    } else if last == (' ' as u8) {
        Err(PathError::InvalidWindowsNameEnding(' '))
    } else {
        Ok(())
    }
}

/// Reject the reserved Windows device names.
fn check_windows_device_name(segment: &[u8]) -> (r: Result<(), PathError>)
    requires
        segment@.len() > 0,
    ensures
        r is Ok <==> !is_windows_device_name(segment@),
        r matches Err(e) ==> e@ == SpecPathError::ReservedWindowsDeviceName(segment@),
{
    let n = segment.len();
    let before_dot = match position_of(segment, ('.' as u8)) {
        Some(j) => {
            let b = slice_subrange(segment, 0, j);
            proof {
                assert(b@ =~= before_first_dot(segment@));
            }
            b
        },
        None => {
            proof {
                assert(segment@ =~= before_first_dot(segment@));
            }
            segment
        },
    };

    let illegal = if before_dot.len() == 3 {
        let a = exec_ascii_lower(before_dot[0]);
        let b = exec_ascii_lower(before_dot[1]);
        let c = exec_ascii_lower(before_dot[2]);
        (a == ('a' as u8) && b == ('u' as u8) && c == ('x' as u8)) || (a == ('c' as u8) && b == ('o' as u8) && c == ('n' as u8)) || (a
            == ('n' as u8) && b == ('u' as u8) && c == ('l' as u8)) || (a == ('p' as u8) && b == ('r' as u8) && c == ('n' as u8))
    } else if before_dot.len() == 4 {
        let a = exec_ascii_lower(before_dot[0]);
        let b = exec_ascii_lower(before_dot[1]);
        let c = exec_ascii_lower(before_dot[2]);
        let digit = before_dot[3];
        ((a == ('c' as u8) && b == ('o' as u8) && c == ('m' as u8)) || (a == ('l' as u8) && b == ('p' as u8) && c == ('t' as u8))) && ('1' as u8)
            <= digit && digit <= ('9' as u8)
    } else {
        false
    };

    if illegal {
        Err(PathError::ReservedWindowsDeviceName(slice_to_vec(segment)))
    } else {
        Ok(())
    }
}

/// Reject a name that is `.git` once HFS+-ignorable characters are stripped.
fn check_git_path_with_mac_ignorables(segment: &[u8]) -> (r: Result<(), PathError>)
    ensures
        r is Ok <==> !spec_match_mac_hfs(segment@, dot_git_bytes()),
        r matches Err(e) ==> e@ == SpecPathError::ContainsIgnorableUnicodeCharacters,
{
    if match_mac_hfs_path(segment) {
        Err(PathError::ContainsIgnorableUnicodeCharacters)
    } else {
        Ok(())
    }
}

/// True when `segment` equals `.git` after dropping HFS+-ignorable three-byte
/// sequences anywhere in it.  Implemented as an iterative scan stripping
/// recognized sequences from the front.
/// Byte `j` of the literal `.git`.
fn dot_git_byte(j: usize) -> (r: u8)
    requires
        j < 4,
    ensures
        r == dot_git_bytes()[j as int],
{
    if j == 0 {
        ('.' as u8)
    } else if j == 1 {
        ('g' as u8)
    } else if j == 2 {
        ('i' as u8)
    } else {
        ('t' as u8)
    }
}

fn match_mac_hfs_path(segment: &[u8]) -> (r: bool)
    ensures
        r == spec_match_mac_hfs(segment@, dot_git_bytes()),
{
    let m_len: usize = 4;
    let n = segment.len();
    let mut i: usize = 0;
    let mut j: usize = 0;
    proof {
        assert(segment@.skip(0) =~= segment@);
        assert(dot_git_bytes().skip(0) =~= dot_git_bytes());
    }
    loop
        invariant
            i <= n,
            j <= m_len,
            m_len == 4,
            n == segment@.len(),
            spec_match_mac_hfs(segment@, dot_git_bytes()) == spec_match_mac_hfs(
                segment@.skip(i as int),
                dot_git_bytes().skip(j as int),
            ),
        decreases n - i,
    {
        if i == n {
            return j == m_len;
        }
        if n - i >= 3 && is_ignorable(segment[i], segment[i + 1], segment[i + 2]) {
            proof {
                let s = segment@.skip(i as int);
                assert(s[0] == segment@[i as int]);
                assert(s[1] == segment@[i as int + 1]);
                assert(s[2] == segment@[i as int + 2]);
                assert(s.skip(3) =~= segment@.skip(i as int + 3));
            }
            i = i + 3;
        } else {
            if j == m_len || segment[i] != dot_git_byte(j) {
                proof {
                    let s = segment@.skip(i as int);
                    let mm = dot_git_bytes().skip(j as int);
                    assert(s[0] == segment@[i as int]);
                    if j < m_len {
                        assert(mm[0] == dot_git_bytes()[j as int]);
                    }
                }
                return false;
            }
            proof {
                let s = segment@.skip(i as int);
                let mm = dot_git_bytes().skip(j as int);
                assert(s[0] == segment@[i as int]);
                assert(mm[0] == dot_git_bytes()[j as int]);
                assert(s.skip(1) =~= segment@.skip(i as int + 1));
                assert(mm.skip(1) =~= dot_git_bytes().skip(j as int + 1));
            }
            i = i + 1;
            j = j + 1;
        }
    }
}

/// One of the HFS+-ignorable three-byte UTF-8 sequences.
fn is_ignorable(a: u8, b: u8, c: u8) -> (r: bool)
    ensures
        r == is_ignorable_triple(a, b, c),
{
    (a == 0xE2 && b == 0x80 && (0x8C <= c && c <= 0x8F || 0xAA <= c && c <= 0xAE)) || (a == 0xE2
        && b == 0x81 && 0xAA <= c && c <= 0xAF) || (a == 0xEF && b == 0xBB && c == 0xBF)
}

/// Reject a name whose final two bytes hold a dangling UTF-8 lead byte that
/// HFS+ would silently drop.
fn check_truncated_utf8_for_mac(segment: &[u8]) -> (r: Result<(), PathError>)
    ensures
        r is Ok <==> !is_mac_truncated_utf8(segment@),
        r matches Err(e) ==> e@ == SpecPathError::ContainsIncompleteUnicodeCharacters,
{
    let n = segment.len();
    let start = if n >= 2 {
        n - 2
    } else {
        0
    };
    let tail = slice_subrange(segment, start, n);
    proof {
        if n >= 2 {
            assert(tail@ =~= segment@.skip(n - 2));
        } else {
            assert(tail@ =~= segment@);
        }
    }
    if contains_byte(tail, 0xE2) || contains_byte(tail, 0xEF) {
        Err(PathError::ContainsIncompleteUnicodeCharacters)
    } else {
        Ok(())
    }
}

} // verus!
