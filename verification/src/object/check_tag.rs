use vstd::prelude::*;

use super::parse_utils::{
    attribution_is_valid, header, spec_after_line, spec_attribution_valid, spec_header_value,
    spec_line_at, spec_object_id_text_valid, take_line, object_id_is_valid,
};

verus! {

/// The bytes of the header name `object`.
pub open spec fn object_lit() -> Seq<u8> {
    seq![('o' as u8), ('b' as u8), ('j' as u8), ('e' as u8), ('c' as u8), ('t' as u8)]
}

/// The bytes of the header name `type`.
pub open spec fn type_lit() -> Seq<u8> {
    seq![('t' as u8), ('y' as u8), ('p' as u8), ('e' as u8)]
}

/// The bytes of the header name `tag`.
pub open spec fn tag_lit() -> Seq<u8> {
    seq![('t' as u8), ('a' as u8), ('g' as u8)]
}

/// The bytes of the header name `tagger`.
pub open spec fn tagger_lit() -> Seq<u8> {
    seq![('t' as u8), ('a' as u8), ('g' as u8), ('g' as u8), ('e' as u8), ('r' as u8)]
}

/// A structurally valid tag: an `object` line with a valid id, a `type`
/// line and a `tag` line (values unchecked), and an optional fourth line
/// that must satisfy the strict attribution grammar only when it carries
/// the `tagger` prefix.  A missing line reads as an empty one.
pub open spec fn spec_tag_valid(s: Seq<u8>) -> bool {
    let l1 = spec_line_at(s);
    let r1 = spec_after_line(s);
    let l2 = spec_line_at(r1);
    let r2 = spec_after_line(r1);
    let l3 = spec_line_at(r2);
    let r3 = spec_after_line(r2);
    let l4 = spec_line_at(r3);
    match spec_header_value(l1, object_lit()) {
        Some(oid) => {
            &&& spec_object_id_text_valid(oid)
            &&& spec_header_value(l2, type_lit()) is Some
            &&& spec_header_value(l3, tag_lit()) is Some
            &&& (match spec_header_value(l4, tagger_lit()) {
                Some(_) => spec_attribution_valid(l4),
                None => true,
            })
        },
        None => false,
    }
}

/// Check a tag object's content for structural validity.
pub fn tag_is_valid(s: &[u8]) -> (r: bool)
    ensures
        r == spec_tag_valid(s@),
{
    let mut object_name: Vec<u8> = Vec::new();
    object_name.push('o' as u8);
    object_name.push('b' as u8);
    object_name.push('j' as u8);
    object_name.push('e' as u8);
    object_name.push('c' as u8);
    object_name.push('t' as u8);
    let mut kind_name: Vec<u8> = Vec::new();
    kind_name.push('t' as u8);
    kind_name.push('y' as u8);
    kind_name.push('p' as u8);
    kind_name.push('e' as u8);
    let mut tag_name: Vec<u8> = Vec::new();
    tag_name.push('t' as u8);
    tag_name.push('a' as u8);
    tag_name.push('g' as u8);
    let mut tagger_name: Vec<u8> = Vec::new();
    tagger_name.push('t' as u8);
    tagger_name.push('a' as u8);
    tagger_name.push('g' as u8);
    tagger_name.push('g' as u8);
    tagger_name.push('e' as u8);
    tagger_name.push('r' as u8);
    proof {
        assert(object_name@ =~= object_lit());
        assert(kind_name@ =~= type_lit());
        assert(tag_name@ =~= tag_lit());
        assert(tagger_name@ =~= tagger_lit());
    }

    let (l1, r1) = take_line(s);
    match header(l1, object_name.as_slice()) {
        Some(oid) => {
            if !object_id_is_valid(oid) {
                return false;
            }
        },
        None => {
            return false;
        },
    }

    let (l2, r2) = take_line(r1);
    if header(l2, kind_name.as_slice()).is_none() {
        return false;
    }

    let (l3, r3) = take_line(r2);
    if header(l3, tag_name.as_slice()).is_none() {
        return false;
    }

    let (l4, _r4) = take_line(r3);
    match header(l4, tagger_name.as_slice()) {
        Some(_) => attribution_is_valid(l4),
        None => true,
    }
}

} // verus!
