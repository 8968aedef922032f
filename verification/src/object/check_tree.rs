use vstd::prelude::*;

use core::cmp::Ordering;

use crate::bytes::{bytes_eq, position_of, spec_first_pos, spec_has_byte};
use crate::path::{
    spec_check_segment, spec_cmp_same_name, spec_path_mode_cmp, CheckPlatforms, FileMode,
    PathMode, PathSegment,
};
use crate::text::{lower_of, lowercase, nfc_normalize, nfc_of, utf8_decode};
use super::id::{all_zero, all_zero_bytes};
use super::parse_utils::{lemma_first_pos_exists, spec_split_once, split_once};
use vstd::slice::{slice_subrange, slice_to_vec};
use vstd::string::StrSliceExecFns;
use vstd::utf8::{decode_utf8, encode_utf8, valid_utf8};

verus! {

/// One raw tree entry prefix: everything up to and including the first NUL,
/// or all of `s` when there is none.
pub open spec fn spec_nul_line(s: Seq<u8>) -> Seq<u8> {
    if spec_has_byte(s, 0) {
        s.take(spec_first_pos(s, 0) + 1)
    } else {
        s
    }
}

/// What follows the first NUL of `s`; nothing when there is none.
pub open spec fn spec_after_nul_line(s: Seq<u8>) -> Seq<u8> {
    if spec_has_byte(s, 0) {
        s.skip(spec_first_pos(s, 0) + 1)
    } else {
        Seq::empty()
    }
}

/// What the entry-prefix parser accepts: a mode text before the first
/// space, with no leading zero (except that `40000` itself is the canonical
/// tree spelling), denoting a known file mode; then name bytes terminated
/// by the NUL; and the name must pass the path-segment validator under the
/// active platform flags.
pub open spec fn spec_parse_path_mode(line: Seq<u8>, p: CheckPlatforms) -> Option<
    (Seq<u8>, FileMode),
> {
    if !spec_has_byte(line, 32) {
        None
    } else {
        let fm = spec_split_once(line, 32).0;
        let rest = spec_split_once(line, 32).1;
        if fm.len() > 0 && fm[0] == 48 {
            None
        } else {
            match FileMode::spec_from_octal_slice(fm) {
                None => None,
                Some(mode) => {
                    if rest.len() == 0 || rest[rest.len() - 1] != 0 {
                        None
                    } else {
                        let path = spec_split_once(rest, 0).0;
                        if spec_check_segment(path, p) is Some {
                            None
                        } else {
                            Some((path, mode))
                        }
                    }
                },
            }
        }
    }
}

/// The case-folded (and, on Mac, NFC-normalized) form of a name, recorded
/// while platform rules are active: `None` when no platform flag is set or
/// the name is not valid UTF-8.
pub open spec fn spec_folded_name(path: Seq<u8>, p: CheckPlatforms) -> Option<Seq<u8>> {
    if p.windows || p.mac {
        if valid_utf8(path) {
            let lc = lower_of(decode_utf8(path));
            let lc2 = if p.mac {
                nfc_of(lc)
            } else {
                lc
            };
            Some(encode_utf8(lc2))
        } else {
            None
        }
    } else {
        None
    }
}

/// Walk the buffered candidate ancestor names from the oldest on: a name
/// that now sorts before the current entry retires it and everything after
/// it; one that sorts equal reveals a masqueraded duplicate (`None`); one
/// that sorts after is kept and the walk continues.
pub open spec fn spec_scan_lingering(
    lingering: Seq<Seq<u8>>,
    i: int,
    path: Seq<u8>,
    mode: FileMode,
) -> Option<Seq<Seq<u8>>>
    decreases lingering.len() - i,
{
    if i < 0 || i >= lingering.len() {
        Some(lingering)
    } else {
        let c = spec_cmp_same_name(lingering[i], path, mode);
        if c == Ordering::Less {
            Some(lingering.take(i))
        } else if c == Ordering::Equal {
            None
        } else {
            spec_scan_lingering(lingering, i + 1, path, mode)
        }
    }
}

/// The ordering bookkeeping against the previous entry: `None` when the new
/// entry is rejected (duplicate name, not sorted strictly after, or a
/// buffered ancestor name collides), else the updated buffer of candidate
/// ancestor names.
pub open spec fn spec_order_check(
    prev: Option<(Seq<u8>, FileMode)>,
    lingering: Seq<Seq<u8>>,
    path: Seq<u8>,
    mode: FileMode,
) -> Option<Seq<Seq<u8>>> {
    match prev {
        None => Some(lingering),
        Some((pp, pm)) => {
            if path == pp {
                None
            } else if spec_path_mode_cmp(path, mode, pp, pm) != Ordering::Greater {
                None
            } else {
                match spec_scan_lingering(lingering, 0, path, mode) {
                    None => None,
                    Some(l2) => Some(
                        if spec_cmp_same_name(pp, path, mode) == Ordering::Greater {
                            l2.push(pp)
                        } else {
                            l2
                        },
                    ),
                }
            }
        },
    }
}

/// The scan over a tree's entries, carrying the previous entry, the
/// buffered candidate ancestor names, and the folded names seen so far.
/// Exhausting the input is the only way a tree is valid.
pub open spec fn spec_tree_scan(
    s: Seq<u8>,
    prev: Option<(Seq<u8>, FileMode)>,
    lingering: Seq<Seq<u8>>,
    seen: Seq<Seq<u8>>,
    p: CheckPlatforms,
) -> bool
    decreases s.len(),
    via spec_tree_scan_dec
{
    if s.len() == 0 {
        true
    } else {
        let line = spec_nul_line(s);
        let after = spec_after_nul_line(s);
        match spec_parse_path_mode(line, p) {
            None => false,
            Some((path, mode)) => {
                let folded = spec_folded_name(path, p);
                if folded matches Some(f) && seen.contains(f) {
                    false
                } else {
                    let seen2 = match folded {
                        Some(f) => seen.push(f),
                        None => seen,
                    };
                    match spec_order_check(prev, lingering, path, mode) {
                        None => false,
                        Some(l3) => {
                            if after.len() < 20 {
                                false
                            } else if all_zero(after.take(20)) {
                                false
                            } else {
                                spec_tree_scan(
                                    after.skip(20),
                                    Some((path, mode)),
                                    l3,
                                    seen2,
                                    p,
                                )
                            }
                        },
                    }
                }
            },
        }
    }
}

#[via_fn]
proof fn spec_tree_scan_dec(
    s: Seq<u8>,
    prev: Option<(Seq<u8>, FileMode)>,
    lingering: Seq<Seq<u8>>,
    seen: Seq<Seq<u8>>,
    p: CheckPlatforms,
) {
    if s.len() > 0 && spec_has_byte(s, 0) {
        lemma_first_pos_exists(s, 0);
    }
}

/// A structurally valid tree under the given platform flags: a sequence of
/// entries `"{octal mode} {name}\0{20-byte id}"` whose names pass the path
/// rules, whose (name, mode) pairs sort strictly upward with no duplicate
/// names (not even masqueraded behind interleaving siblings or, under
/// platform flags, behind case or normalization differences), and whose ids
/// are never all-zero.  The empty byte stream is a valid (empty) tree.
pub open spec fn spec_tree_valid(s: Seq<u8>, p: CheckPlatforms) -> bool {
    spec_tree_scan(s, None, Seq::empty(), Seq::empty(), p)
}

/// The (name bytes, mode) view of the previous entry.
pub open spec fn spec_prev_view(prev: &Option<(Vec<u8>, FileMode)>) -> Option<
    (Seq<u8>, FileMode),
> {
    match prev {
        Some(t) => Some((t.0@, t.1)),
        None => None,
    }
}

/// Check a tree object's content for structural validity, without
/// platform-specific name rules.
pub fn tree_is_valid(s: &[u8]) -> (r: bool)
    ensures
        r == spec_tree_valid(s@, CheckPlatforms { windows: false, mac: false }),
{
    tree_is_valid_with_platform_checks(s, &CheckPlatforms { windows: false, mac: false })
}

/// Check a tree object's content for structural validity under the given
/// platform flags.
#[verifier::rlimit(80)]
pub fn tree_is_valid_with_platform_checks(s: &[u8], platforms: &CheckPlatforms) -> (r: bool)
    ensures
        r == spec_tree_valid(s@, *platforms),
{
    let mut rest: &[u8] = s;
    let mut prev: Option<(Vec<u8>, FileMode)> = None;
    let mut lingering: Vec<Vec<u8>> = Vec::new();
    let mut seen: Vec<Vec<u8>> = Vec::new();
    proof {
        assert(lingering.deep_view() =~= Seq::<Seq<u8>>::empty());
        assert(seen.deep_view() =~= Seq::<Seq<u8>>::empty());
    }
    loop
        invariant
            spec_tree_valid(s@, *platforms) == spec_tree_scan(
                rest@,
                spec_prev_view(&prev),
                lingering.deep_view(),
                seen.deep_view(),
                *platforms,
            ),
        decreases rest@.len(),
    {
        let ghost rest0 = rest@;
        let ghost pv0 = spec_prev_view(&prev);
        let ghost lv0 = lingering.deep_view();
        let ghost sv0 = seen.deep_view();

        if rest.len() == 0 {
            return true;
        }

        let (line, after) = take_nul_line(rest);
        let (path, mode) = match parse_path_mode(line, platforms) {
            Some(pm) => pm,
            None => {
                return false;
            },
        };
        let ghost path_s = path@;

        // Platform rules: reject a name whose folded form was seen before.
        match folded_name(path.as_slice(), platforms) {
            Some(f) => {
                if contains_name(&seen, f.as_slice()) {
                    return false;
                }
                let ghost f_s = f@;
                seen.push(f);
                proof {
                    assert(seen.deep_view() =~~= sv0.push(f_s));
                }
            },
            None => {},
        }
        let ghost sv2 = seen.deep_view();

        // Ordering against the previous entry and the buffered names.
        match &prev {
            Some(prev_entry) => {
                let pm = prev_entry.1;
                if bytes_eq(path.as_slice(), prev_entry.0.as_slice()) {
                    return false;
                }
                let this_order = (PathMode { path: path.as_slice(), mode }).cmp(
                    &PathMode { path: prev_entry.0.as_slice(), mode: pm },
                );
                match this_order {
                    Ordering::Greater => {},
                    _ => {
                        return false;
                    },
                }

                if !scan_lingering(&mut lingering, path.as_slice(), mode) {
                    return false;
                }
                proof {
                    assert(Some(lingering.deep_view()) == spec_scan_lingering(
                        lv0,
                        0,
                        path_s,
                        mode,
                    ));
                }

                let prev_order = (PathMode { path: prev_entry.0.as_slice(), mode: pm
                }).cmp_same_name(&PathMode { path: path.as_slice(), mode });
                match prev_order {
                    Ordering::Greater => {
                        let ghost l2 = lingering.deep_view();
                        let pp_copy = slice_to_vec(prev_entry.0.as_slice());
                        lingering.push(pp_copy);
                        proof {
                            assert(lingering.deep_view() =~~= l2.push(prev_entry.0@));
                        }
                    },
                    _ => {},
                }
            },
            None => {},
        }
        proof {
            assert(Some(lingering.deep_view()) == spec_order_check(pv0, lv0, path_s, mode));
        }

        // The 20-byte object id.
        if after.len() < 20 {
            return false;
        }
        let oid = slice_subrange(after, 0, 20);
        proof {
            assert(oid@ =~= spec_after_nul_line(rest0).take(20));
        }
        if all_zero_bytes(oid) {
            return false;
        }

        let next = slice_subrange(after, 20, after.len());
        proof {
            assert(next@ =~= spec_after_nul_line(rest0).skip(20));
        }
        prev = Some((path, mode));
        rest = next;
        proof {
            let line_s = spec_nul_line(rest0);
            let after_s = spec_after_nul_line(rest0);
            assert(spec_parse_path_mode(line_s, *platforms) == Some((path_s, mode)));
            assert(!(spec_folded_name(path_s, *platforms) matches Some(f) && sv0.contains(f)));
            assert(sv2 == (match spec_folded_name(path_s, *platforms) {
                Some(f) => sv0.push(f),
                None => sv0,
            }));
            assert(spec_order_check(pv0, lv0, path_s, mode) == Some(lingering.deep_view()));
            assert(after_s.len() >= 20);
            assert(!all_zero(after_s.take(20)));
            assert(rest@ == after_s.skip(20));
            assert(spec_prev_view(&prev) == Some((path_s, mode)));
            assert(spec_tree_scan(rest0, pv0, lv0, sv0, *platforms) == spec_tree_scan(
                rest@,
                spec_prev_view(&prev),
                lingering.deep_view(),
                sv2,
                *platforms,
            ));
        }
    }
}

/// Walk the buffered candidate ancestor names against the current entry:
/// retire names that now sort before it, reject the tree on a collision.
fn scan_lingering(lingering: &mut Vec<Vec<u8>>, path: &[u8], mode: FileMode) -> (ok: bool)
    ensures
        ok ==> Some(final(lingering).deep_view()) == spec_scan_lingering(
            old(lingering).deep_view(),
            0,
            path@,
            mode,
        ),
        !ok ==> spec_scan_lingering(old(lingering).deep_view(), 0, path@, mode) is None,
{
    let ghost lv0 = lingering.deep_view();
    let ln = lingering.len();
    let mut i: usize = 0;
    while i < ln
        invariant
            i <= ln,
            ln == lingering.deep_view().len(),
            lv0 == old(lingering).deep_view(),
            lingering.deep_view() == lv0,
            spec_scan_lingering(lv0, 0, path@, mode) == spec_scan_lingering(
                lv0,
                i as int,
                path@,
                mode,
            ),
        decreases ln - i,
    {
        proof {
            assert(lingering.deep_view()[i as int] =~= lingering@[i as int]@);
        }
        let name_order = (PathMode {
            path: lingering[i].as_slice(),
            mode: FileMode::Tree,
        }).cmp_same_name(&PathMode { path, mode });
        match name_order {
            Ordering::Less => {
                proof {
                    assert(spec_cmp_same_name(lv0[i as int], path@, mode) == Ordering::Less);
                    assert(spec_scan_lingering(lv0, i as int, path@, mode) == Some(
                        lv0.take(i as int),
                    ));
                }
                lingering.truncate(i);
                proof {
                    assert(lingering.deep_view() =~~= lv0.take(i as int));
                }
                return true;
            },
            Ordering::Equal => {
                proof {
                    assert(spec_cmp_same_name(lv0[i as int], path@, mode) == Ordering::Equal);
                    assert(spec_scan_lingering(lv0, i as int, path@, mode) is None);
                }
                return false;
            },
            Ordering::Greater => {
                proof {
                    assert(spec_cmp_same_name(lv0[i as int], path@, mode) == Ordering::Greater);
                    assert(spec_scan_lingering(lv0, i as int, path@, mode) == spec_scan_lingering(
                        lv0,
                        i as int + 1,
                        path@,
                        mode,
                    ));
                }
                i += 1;
            },
        }
    }
    proof {
        assert(spec_scan_lingering(lv0, ln as int, path@, mode) == Some(lv0));
    }
    true
}

/// Read one raw entry prefix from `rest` (up to and including its NUL),
/// together with the bytes after it.
fn take_nul_line<'a>(rest: &'a [u8]) -> (r: (&'a [u8], &'a [u8]))
    ensures
        r.0@ == spec_nul_line(rest@),
        r.1@ == spec_after_nul_line(rest@),
        rest@.len() > 0 ==> r.1@.len() < rest@.len(),
{
    let n = rest.len();
    match position_of(rest, 0) {
        Some(j) => {
            let a = slice_subrange(rest, 0, j + 1);
            let b = slice_subrange(rest, j + 1, n);
            proof {
                assert(a@ =~= rest@.take(j as int + 1));
                assert(b@ =~= rest@.skip(j as int + 1));
            }
            (a, b)
        },
        None => {
            let b = slice_subrange(rest, n, n);
            proof {
                assert(b@ =~= Seq::<u8>::empty());
            }
            (rest, b)
        },
    }
}

/// Parse one entry prefix into its name bytes and file mode, applying the
/// path-segment rules under the active platform flags.
fn parse_path_mode(line: &[u8], platforms: &CheckPlatforms) -> (r: Option<(Vec<u8>, FileMode)>)
    ensures
        r matches Some(pm) ==> spec_parse_path_mode(line@, *platforms) == Some((pm.0@, pm.1)),
        r is None ==> spec_parse_path_mode(line@, *platforms) is None,
{
    if !crate::bytes::contains_byte(line, 32) {
        return None;
    }
    let (file_mode, rest) = split_once(line, 32);
    if file_mode.len() > 0 && file_mode[0] == 48 {
        return None;
    }
    let mode = match FileMode::from_octal_slice(file_mode) {
        Some(m) => m,
        None => {
            return None;
        },
    };
    let rn = rest.len();
    if rn == 0 || rest[rn - 1] != 0 {
        return None;
    }
    let (path, _nul) = split_once(rest, 0);
    if PathSegment::new_with_platform_checks(path, platforms).is_err() {
        return None;
    }
    Some((slice_to_vec(path), mode))
}

/// The case-folded (and, on Mac, NFC-normalized) form of a name, when a
/// platform flag is active and the name is valid UTF-8.
fn folded_name(path: &[u8], platforms: &CheckPlatforms) -> (r: Option<Vec<u8>>)
    ensures
        r matches Some(f) ==> spec_folded_name(path@, *platforms) == Some(f@),
        r is None ==> spec_folded_name(path@, *platforms) is None,
{
    if platforms.windows || platforms.mac {
        match utf8_decode(path) {
            Some(name) => {
                let lc = lowercase(name.as_str());
                let lc2 = if platforms.mac {
                    nfc_normalize(lc.as_str())
                } else {
                    lc
                };
                Some(lc2.as_str().as_bytes_vec())
            },
            None => None,
        }
    } else {
        None
    }
}

/// True exactly when `f` already occurs among the folded names seen.
fn contains_name(seen: &Vec<Vec<u8>>, f: &[u8]) -> (r: bool)
    ensures
        r == seen.deep_view().contains(f@),
{
    let n = seen.len();
    let mut i: usize = 0;
    while i < n
        invariant
            i <= n,
            n == seen.deep_view().len(),
            forall|k: int| 0 <= k < i ==> seen.deep_view()[k] != f@,
        decreases n - i,
    {
        proof {
            assert(seen.deep_view()[i as int] =~= seen@[i as int]@);
        }
        if bytes_eq(seen[i].as_slice(), f) {
            return true;
        }
        i += 1;
    }
    proof {
        assert(!seen.deep_view().contains(f@));
    }
    false
}

} // verus!
