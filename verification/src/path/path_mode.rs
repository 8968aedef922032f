use vstd::prelude::*;

use core::cmp::Ordering;

use super::FileMode;
use crate::bytes::bytes_eq;
use vstd::slice::{slice_subrange, slice_to_vec};

verus! {

/// Represents the tuple of git path (an uninterpreted sequence of bytes,
/// not necessarily UTF-8) and git file mode. Used for comparisons.
#[derive(Eq, PartialEq)]
pub struct PathMode<'a> {
    pub path: &'a [u8],
    pub mode: FileMode,
}

/// Lexicographic comparison of byte strings by unsigned byte value; a strict
/// prefix sorts before any longer string.
pub open spec fn spec_bytes_cmp(a: Seq<u8>, b: Seq<u8>) -> Ordering
    decreases a.len(),
{
    if a.len() == 0 && b.len() == 0 {
        Ordering::Equal
    } else if a.len() == 0 {
        Ordering::Less
    } else if b.len() == 0 {
        Ordering::Greater
    } else if a[0] < b[0] {
        Ordering::Less
    } else if a[0] > b[0] {
        Ordering::Greater
    } else {
        spec_bytes_cmp(a.drop_first(), b.drop_first())
    }
}

/// The remainder of a name past the common prefix, with the implicit
/// trailing `/` a tree directory sorts under: an empty remainder of a tree
/// name is compared as `/`.
pub open spec fn spec_suffix_or_slash(suffix: Seq<u8>, mode: FileMode) -> Seq<u8> {
    if suffix.len() > 0 || mode != FileMode::Tree {
        suffix
    } else {
        seq![47u8]
    }
}

/// Comparison of two (name, mode) pairs ignoring the mode tie-break: equal
/// names are `Equal`, and a name that is a strict prefix of the other is
/// extended by the implicit `/` exactly when its mode is `Tree`.
pub open spec fn spec_core_compare(
    lp: Seq<u8>,
    lm: FileMode,
    rp: Seq<u8>,
    rm: FileMode,
) -> Ordering {
    if lp == rp {
        Ordering::Equal
    } else {
        let l = if lp.len() <= rp.len() {
            lp.len() as int
        } else {
            rp.len() as int
        };
        let prefix = spec_bytes_cmp(lp.take(l), rp.take(l));
        if prefix != Ordering::Equal {
            prefix
        } else {
            spec_bytes_cmp(
                spec_suffix_or_slash(lp.skip(l), lm),
                spec_suffix_or_slash(rp.skip(l), rm),
            )
        }
    }
}

/// The mode tie-break for identical names: a `Submodule` ties with
/// everything, a `Tree` (with its implicit `/`) sorts after the other
/// modes, and the remaining modes tie with each other.
pub open spec fn spec_mode_compare(m1: FileMode, m2: FileMode) -> Ordering {
    if m1 == FileMode::Submodule || m2 == FileMode::Submodule {
        Ordering::Equal
    } else {
        spec_bytes_cmp(
            spec_suffix_or_slash(Seq::<u8>::empty(), m1),
            spec_suffix_or_slash(Seq::<u8>::empty(), m2),
        )
    }
}

/// The total ordering over (name, mode) pairs that canonical trees obey.
pub open spec fn spec_path_mode_cmp(
    lp: Seq<u8>,
    lm: FileMode,
    rp: Seq<u8>,
    rm: FileMode,
) -> Ordering {
    if spec_core_compare(lp, lm, rp, rm) == Ordering::Equal {
        spec_mode_compare(lm, rm)
    } else {
        spec_core_compare(lp, lm, rp, rm)
    }
}

/// The same-name collision test: the left operand is compared as though its
/// mode were `Tree`, regardless of its real mode.
pub open spec fn spec_cmp_same_name(lp: Seq<u8>, rp: Seq<u8>, rm: FileMode) -> Ordering {
    spec_core_compare(lp, FileMode::Tree, rp, rm)
}

impl<'a> PathMode<'a> {
    /// Compare two paths, checking for identical name.
    ///
    /// Unlike `cmp()`, this function returns `Equal` when the paths have
    /// the same characters in their names, even if the mode differs. It is
    /// intended for use in validation routines detecting duplicate entries.
    ///
    /// Trees are sorted as though the last character is `/`, even if
    /// no such character exists.
    ///
    /// ### Return Value
    ///
    /// * `Less` if no duplicate name could exist. (All possible occurrences
    ///   of `self` sort before `other` and no conflict can happen.)
    /// * `Equal` if the paths have the same name. (A conflict exists
    ///   between the two paths for this reason.)
    /// * `Greater` if `other`'s path should still be checked by caller.
    ///   (It is possible for a duplicate occurrence of `self` to appear
    ///   later, after `other`. Callers should continue to examine candidates
    ///   for `other` until the method returns one of the other return values.
    pub fn cmp_same_name(&self, other: &PathMode) -> (r: Ordering)
        ensures
            r == spec_cmp_same_name(self.path@, other.path@, other.mode),
    {
        core_compare_at(self.path, FileMode::Tree, other.path, other.mode)
    }

    /// The canonical tree sort order over (name, mode) pairs.
    pub fn cmp(&self, other: &PathMode) -> (r: Ordering)
        ensures
            r == spec_path_mode_cmp(self.path@, self.mode, other.path@, other.mode),
    {
        match core_compare_at(self.path, self.mode, other.path, other.mode) {
            Ordering::Equal => mode_compare(self.mode, other.mode),
            x => x,
        }
    }
}

impl<'a> PartialOrd for PathMode<'a> {
    fn partial_cmp(&self, other: &PathMode<'a>) -> (r: Option<Ordering>) {
        Some(self.cmp(other))
    }
}

impl<'a> vstd::std_specs::cmp::PartialOrdSpecImpl for PathMode<'a> {
    open spec fn obeys_partial_cmp_spec() -> bool {
        true
    }

    open spec fn partial_cmp_spec(&self, other: &PathMode<'a>) -> Option<Ordering> {
        Some(spec_path_mode_cmp(self.path@, self.mode, other.path@, other.mode))
    }
}

/// Lexicographic comparison of two byte slices.
fn cmp_bytes(a: &[u8], b: &[u8]) -> (r: Ordering)
    ensures
        r == spec_bytes_cmp(a@, b@),
{
    let an = a.len();
    let bn = b.len();
    let mut i: usize = 0;
    proof {
        assert(a@.skip(0) =~= a@);
        assert(b@.skip(0) =~= b@);
    }
    loop
        invariant
            i <= an,
            i <= bn,
            an == a@.len(),
            bn == b@.len(),
            spec_bytes_cmp(a@, b@) == spec_bytes_cmp(a@.skip(i as int), b@.skip(i as int)),
        decreases an - i,
    {
        proof {
            let sa = a@.skip(i as int);
            let sb = b@.skip(i as int);
            if i < an {
                assert(sa[0] == a@[i as int]);
            }
            if i < bn {
                assert(sb[0] == b@[i as int]);
            }
        }
        if i == an && i == bn {
            return Ordering::Equal;
        }
        if i == an {
            return Ordering::Less;
        }
        if i == bn {
            return Ordering::Greater;
        }
        if a[i] < b[i] {
            return Ordering::Less;
        }
        if a[i] > b[i] {
            return Ordering::Greater;
        }
        proof {
            assert(a@.skip(i as int).drop_first() =~= a@.skip(i as int + 1));
            assert(b@.skip(i as int).drop_first() =~= b@.skip(i as int + 1));
        }
        i += 1;
    }
}

/// The comparable form of a name remainder: itself, or the implicit `/` of
/// a tree whose remainder is empty.
fn suffix_or_slash_vec(suffix: &[u8], mode: FileMode) -> (v: Vec<u8>)
    ensures
        v@ == spec_suffix_or_slash(suffix@, mode),
{
    if suffix.len() > 0 || mode != FileMode::Tree {
        slice_to_vec(suffix)
    } else {
        let mut v: Vec<u8> = Vec::new();
        v.push(47);
        proof {
            assert(v@ =~= seq![47u8]);
        }
        v
    }
}

/// Comparison ignoring the mode tie-break.
fn core_compare_at(lp: &[u8], lm: FileMode, rp: &[u8], rm: FileMode) -> (r: Ordering)
    ensures
        r == spec_core_compare(lp@, lm, rp@, rm),
{
    if bytes_eq(lp, rp) {
        return Ordering::Equal;
    }
    let l = if lp.len() <= rp.len() {
        lp.len()
    } else {
        rp.len()
    };
    let lprefix = slice_subrange(lp, 0, l);
    let rprefix = slice_subrange(rp, 0, l);
    proof {
        assert(lprefix@ =~= lp@.take(l as int));
        assert(rprefix@ =~= rp@.take(l as int));
    }
    let prefix = cmp_bytes(lprefix, rprefix);
    match prefix {
        Ordering::Equal => {
            let lsuffix = slice_subrange(lp, l, lp.len());
            let rsuffix = slice_subrange(rp, l, rp.len());
            proof {
                assert(lsuffix@ =~= lp@.skip(l as int));
                assert(rsuffix@ =~= rp@.skip(l as int));
            }
            let lv = suffix_or_slash_vec(lsuffix, lm);
            let rv = suffix_or_slash_vec(rsuffix, rm);
            cmp_bytes(lv.as_slice(), rv.as_slice())
        },
        x => x,
    }
}

/// The mode tie-break for identical names.
fn mode_compare(m1: FileMode, m2: FileMode) -> (r: Ordering)
    ensures
        r == spec_mode_compare(m1, m2),
{
    if m1 == FileMode::Submodule || m2 == FileMode::Submodule {
        Ordering::Equal
    } else {
        proof {
            let slash = seq![47u8];
            let empty = Seq::<u8>::empty();
            assert(slash.drop_first() =~= empty);
            assert(spec_bytes_cmp(empty, empty) == Ordering::Equal);
            assert(spec_bytes_cmp(slash, slash) == Ordering::Equal);
            assert(spec_bytes_cmp(slash, empty) == Ordering::Greater);
            assert(spec_bytes_cmp(empty, slash) == Ordering::Less);
        }
        let l_tree = m1 == FileMode::Tree;
        let r_tree = m2 == FileMode::Tree;
        if l_tree == r_tree {
            Ordering::Equal
        } else if l_tree {
            Ordering::Greater
        } else {
            Ordering::Less
        }
    }
}

} // verus!
