use vstd::prelude::*;

use super::parse_utils::{
    attribution_is_valid, header, lemma_after_line_shorter, spec_after_line,
    spec_attribution_valid, spec_header_value, spec_line_at, spec_object_id_text_valid, take_line,
    object_id_is_valid,
};

verus! {

/// The bytes of the header name `tree`.
pub open spec fn tree_lit() -> Seq<u8> {
    seq![('t' as u8), ('r' as u8), ('e' as u8), ('e' as u8)]
}

/// The bytes of the header name `parent`.
pub open spec fn parent_lit() -> Seq<u8> {
    seq![('p' as u8), ('a' as u8), ('r' as u8), ('e' as u8), ('n' as u8), ('t' as u8)]
}

/// The bytes of the header name `author`.
pub open spec fn author_lit() -> Seq<u8> {
    seq![('a' as u8), ('u' as u8), ('t' as u8), ('h' as u8), ('o' as u8), ('r' as u8)]
}

/// The bytes of the header name `committer`.
pub open spec fn committer_lit() -> Seq<u8> {
    seq![
        ('c' as u8),
        ('o' as u8),
        ('m' as u8),
        ('m' as u8),
        ('i' as u8),
        ('t' as u8),
        ('t' as u8),
        ('e' as u8),
        ('r' as u8),
    ]
}

/// The author/committer part of a commit: the current line must be an
/// `author` line with a strict attribution, and the very next line a
/// `committer` line with a strict attribution.  Anything after that (the
/// commit message body) is unexamined.
pub open spec fn spec_commit_tail(line: Seq<u8>, rest: Seq<u8>) -> bool {
    if spec_header_value(line, author_lit()) is Some {
        &&& spec_attribution_valid(line)
        &&& rest.len() > 0
        &&& spec_header_value(spec_line_at(rest), committer_lit()) is Some
        &&& spec_attribution_valid(spec_line_at(rest))
    } else {
        false
    }
}

/// The part of a commit after its `tree` line: zero or more `parent` lines,
/// each carrying a valid object id, then the author/committer part.
pub open spec fn spec_commit_parents(s: Seq<u8>) -> bool
    decreases s.len(),
    via spec_commit_parents_dec
{
    if s.len() == 0 {
        false
    } else {
        let line = spec_line_at(s);
        let rest = spec_after_line(s);
        match spec_header_value(line, parent_lit()) {
            Some(pid) => spec_object_id_text_valid(pid) && spec_commit_parents(rest),
            None => spec_commit_tail(line, rest),
        }
    }
}

#[via_fn]
proof fn spec_commit_parents_dec(s: Seq<u8>) {
    if s.len() > 0 {
        lemma_after_line_shorter(s);
    }
}

/// A structurally valid commit: a `tree` line with a valid object id, zero
/// or more `parent` lines with valid object ids, an `author` line and a
/// `committer` line that satisfy the strict attribution grammar.
pub open spec fn spec_commit_valid(s: Seq<u8>) -> bool {
    if s.len() == 0 {
        false
    } else {
        match spec_header_value(spec_line_at(s), tree_lit()) {
            Some(tid) => spec_object_id_text_valid(tid) && spec_commit_parents(
                spec_after_line(s),
            ),
            None => false,
        }
    }
}

/// Check a commit object's content for structural validity.
pub fn commit_is_valid(s: &[u8]) -> (r: bool)
    ensures
        r == spec_commit_valid(s@),
{
    let mut tree_name: Vec<u8> = Vec::new();
    tree_name.push('t' as u8);
    tree_name.push('r' as u8);
    tree_name.push('e' as u8);
    tree_name.push('e' as u8);
    let mut parent_name: Vec<u8> = Vec::new();
    parent_name.push('p' as u8);
    parent_name.push('a' as u8);
    parent_name.push('r' as u8);
    parent_name.push('e' as u8);
    parent_name.push('n' as u8);
    parent_name.push('t' as u8);
    let mut author_name: Vec<u8> = Vec::new();
    author_name.push('a' as u8);
    author_name.push('u' as u8);
    author_name.push('t' as u8);
    author_name.push('h' as u8);
    author_name.push('o' as u8);
    author_name.push('r' as u8);
    let mut committer_name: Vec<u8> = Vec::new();
    committer_name.push('c' as u8);
    committer_name.push('o' as u8);
    committer_name.push('m' as u8);
    committer_name.push('m' as u8);
    committer_name.push('i' as u8);
    committer_name.push('t' as u8);
    committer_name.push('t' as u8);
    committer_name.push('e' as u8);
    committer_name.push('r' as u8);
    proof {
        assert(tree_name@ =~= tree_lit());
        assert(parent_name@ =~= parent_lit());
        assert(author_name@ =~= author_lit());
        assert(committer_name@ =~= committer_lit());
    }

    if s.len() == 0 {
        return false;
    }
    let (line, rest0) = take_line(s);
    match header(line, tree_name.as_slice()) {
        Some(tid) => {
            if !object_id_is_valid(tid) {
                return false;
            }
        },
        None => {
            return false;
        },
    }

    let mut rest: &[u8] = rest0;
    loop
        invariant
            spec_commit_valid(s@) == spec_commit_parents(rest@),
            tree_name@ == tree_lit(),
            parent_name@ == parent_lit(),
            author_name@ == author_lit(),
            committer_name@ == committer_lit(),
        decreases rest@.len(),
    {
        if rest.len() == 0 {
            return false;
        }
        let (line, next) = take_line(rest);
        match header(line, parent_name.as_slice()) {
            Some(pid) => {
                if !object_id_is_valid(pid) {
                    return false;
                }
                proof {
                    lemma_after_line_shorter(rest@);
                }
                rest = next;
            },
            None => {
                // This must be the author line.
                match header(line, author_name.as_slice()) {
                    Some(_) => {
                        if !attribution_is_valid(line) {
                            return false;
                        }
                    },
                    None => {
                        return false;
                    },
                }
                if next.len() == 0 {
                    return false;
                }
                let (cline, _after) = take_line(next);
                match header(cline, committer_name.as_slice()) {
                    Some(_) => {
                        return attribution_is_valid(cline);
                    },
                    None => {
                        return false;
                    },
                }
            },
        }
    }
}

} // verus!
