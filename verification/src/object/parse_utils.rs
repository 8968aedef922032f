use vstd::prelude::*;

use crate::bytes::{lemma_first_pos, position_of, spec_first_pos, spec_has_byte};
use vstd::slice::slice_subrange;

use super::id::{all_hex_digits, is_hex_digit};

verus! {

/// `spec_first_pos` is well defined whenever the byte occurs: it is in
/// range, hits the byte, and nothing before it does.
pub proof fn lemma_first_pos_exists(s: Seq<u8>, c: u8)
    requires
        spec_has_byte(s, c),
    ensures
        0 <= spec_first_pos(s, c) < s.len(),
        s[spec_first_pos(s, c)] == c,
        forall|k: int| 0 <= k < spec_first_pos(s, c) ==> s[k] != c,
    decreases s.len(),
{
    if s[0] == c {
        lemma_first_pos(s, c, 0);
    } else {
        let w = choose|w: int| 0 <= w < s.len() && s[w] == c;
        assert(s.drop_first()[w - 1] == c);
        assert(spec_has_byte(s.drop_first(), c));
        lemma_first_pos_exists(s.drop_first(), c);
        let p1 = spec_first_pos(s.drop_first(), c);
        assert(s[p1 + 1] == c);
        assert forall|k: int| 0 <= k < p1 + 1 implies s[k] != c by {
            if k > 0 {
                assert(s.drop_first()[k - 1] != c);
            }
        }
        lemma_first_pos(s, c, p1 + 1);
    }
}

/// The pair (bytes before the first `c`, bytes after it); `(s, empty)` when
/// `c` does not occur.
pub open spec fn spec_split_once(s: Seq<u8>, c: u8) -> (Seq<u8>, Seq<u8>) {
    if spec_has_byte(s, c) {
        (s.take(spec_first_pos(s, c)), s.skip(spec_first_pos(s, c) + 1))
    } else {
        (s, Seq::empty())
    }
}

/// Split a byte string at the first occurrence of `c`; the second half is
/// empty when `c` does not occur.
pub fn split_once<'a>(s: &'a [u8], c: u8) -> (r: (&'a [u8], &'a [u8]))
    ensures
        r.0@ == spec_split_once(s@, c).0,
        r.1@ == spec_split_once(s@, c).1,
{
    let n = s.len();
    match position_of(s, c) {
        Some(j) => {
            let a = slice_subrange(s, 0, j);
            let b = slice_subrange(s, j + 1, n);
            proof {
                assert(a@ =~= s@.take(j as int));
                assert(b@ =~= s@.skip(j as int + 1));
            }
            (a, b)
        },
        None => {
            let b = slice_subrange(s, n, n);
            proof {
                assert(b@ =~= Seq::<u8>::empty());
            }
            (s, b)
        },
    }
}

/// The first line of `s`: the bytes before the first LF, or all of `s` when
/// there is none.
pub open spec fn spec_line_at(s: Seq<u8>) -> Seq<u8> {
    if spec_has_byte(s, 10) {
        s.take(spec_first_pos(s, 10))
    } else {
        s
    }
}

/// What remains of `s` after its first line: the bytes after the first LF,
/// or nothing when there is none (the line ran to the end).
pub open spec fn spec_after_line(s: Seq<u8>) -> Seq<u8> {
    if spec_has_byte(s, 10) {
        s.skip(spec_first_pos(s, 10) + 1)
    } else {
        Seq::empty()
    }
}

/// Consuming a line always consumes at least one byte.
pub proof fn lemma_after_line_shorter(s: Seq<u8>)
    requires
        s.len() > 0,
    ensures
        spec_after_line(s).len() < s.len(),
{
    if spec_has_byte(s, 10) {
        lemma_first_pos_exists(s, 10);
    }
}

/// Read one line from `rest` (without its trailing LF), together with the
/// bytes after it.
pub fn take_line<'a>(rest: &'a [u8]) -> (r: (&'a [u8], &'a [u8]))
    ensures
        r.0@ == spec_line_at(rest@),
        r.1@ == spec_after_line(rest@),
{
    let n = rest.len();
    match position_of(rest, 10) {
        Some(j) => {
            let a = slice_subrange(rest, 0, j);
            let b = slice_subrange(rest, j + 1, n);
            proof {
                assert(a@ =~= rest@.take(j as int));
                assert(b@ =~= rest@.skip(j as int + 1));
            }
            (a, b)
        },
        None => {
            let b = slice_subrange(rest, n, n);
            proof {
                assert(b@ =~= Seq::<u8>::empty());
            }
            (rest, b)
        },
    }
}

/// The value of a `"{name} {value}"` header line: the bytes after the first
/// space, provided the bytes before it are exactly `name`.
pub open spec fn spec_header_value(line: Seq<u8>, name: Seq<u8>) -> Option<Seq<u8>> {
    if spec_has_byte(line, 32) {
        if spec_split_once(line, 32).0 == name {
            Some(spec_split_once(line, 32).1)
        } else {
            None
        }
    } else {
        None
    }
}

/// Parse a `"{name} {value}"` header line, returning the value only when
/// the name matches exactly.
pub fn header<'a>(line: &'a [u8], name: &[u8]) -> (r: Option<&'a [u8]>)
    ensures
        r matches Some(v) ==> spec_header_value(line@, name@) == Some(v@),
        r is None ==> spec_header_value(line@, name@) is None,
{
    if !crate::bytes::contains_byte(line, 32) {
        return None;
    }
    let (maybe_name, value) = split_once(line, 32);
    if crate::bytes::bytes_eq(maybe_name, name) {
        Some(value)
    } else {
        None
    }
}

/// True for the ASCII decimal digit bytes `0-9`.
pub open spec fn is_dec_digit(b: u8) -> bool {
    48 <= b <= 57
}

/// True when every byte of `s` is an ASCII decimal digit.
pub open spec fn all_dec_digits(s: Seq<u8>) -> bool {
    forall|j: int| 0 <= j < s.len() ==> is_dec_digit(s[j])
}

/// True when every byte of `s` is an ASCII decimal digit.
pub fn check_all_dec_digits(s: &[u8]) -> (r: bool)
    ensures
        r == all_dec_digits(s@),
{
    let n = s.len();
    let mut i: usize = 0;
    while i < n
        invariant
            i <= n,
            n == s@.len(),
            forall|k: int| 0 <= k < i ==> is_dec_digit(s@[k]),
        decreases n - i,
    {
        if s[i] < 48 || s[i] > 57 {
            return false;
        }
        i += 1;
    }
    true
}

/// The strict attribution timestamp: a non-empty, all-digit decimal token.
pub open spec fn spec_time_valid(t: Seq<u8>) -> bool {
    t.len() > 0 && all_dec_digits(t)
}

/// The signed timezone offset in minutes denoted by a 5-byte token
/// (meaningful only when `spec_tz_valid` holds of it).
pub open spec fn spec_tz_offset(tz: Seq<u8>) -> int {
    let sign: int = if tz[0] == 43 {
        1
    } else {
        -1
    };
    let hh = (tz[1] - 48) as int * 10 + (tz[2] - 48) as int;
    let mm = (tz[3] - 48) as int * 10 + (tz[4] - 48) as int;
    sign * (hh * 60 + mm)
}

/// The strict attribution timezone: `[+-]` and four decimal digits, with a
/// minute component of at most 59 and a total offset within
/// UTC-12:00 .. UTC+14:00.
pub open spec fn spec_tz_valid(tz: Seq<u8>) -> bool {
    &&& tz.len() == 5
    &&& (tz[0] == 43 || tz[0] == 45)
    &&& all_dec_digits(tz.skip(1))
    &&& (tz[3] - 48) as int * 10 + (tz[4] - 48) as int <= 59
    &&& -720 <= spec_tz_offset(tz) <= 840
}

/// The strict attribution grammar: a `<`, a later `>`, exactly one space
/// after the `>`, then exactly two space-separated tokens, a timestamp and
/// a timezone.  The name and email themselves are unrestricted.
pub open spec fn spec_attribution_valid(line: Seq<u8>) -> bool {
    if !spec_has_byte(line, 60) {
        false
    } else {
        let rest1 = spec_split_once(line, 60).1;
        if !spec_has_byte(rest1, 62) {
            false
        } else {
            let rest2 = spec_split_once(rest1, 62).1;
            if rest2.len() == 0 || rest2[0] != 32 {
                false
            } else {
                let rest3 = rest2.skip(1);
                if !spec_has_byte(rest3, 32) {
                    false
                } else {
                    spec_time_valid(spec_split_once(rest3, 32).0) && spec_tz_valid(
                        spec_split_once(rest3, 32).1,
                    )
                }
            }
        }
    }
}

/// Check one attribution line against the strict grammar.
///
/// Note that this validator is intentionally more strict than the lenient
/// `Attribution::parse` used for reading historical data.
pub fn attribution_is_valid(line: &[u8]) -> (r: bool)
    ensures
        r == spec_attribution_valid(line@),
{
    if !crate::bytes::contains_byte(line, 60) {
        return false;
    }
    let (_name, line1) = split_once(line, 60);

    if !crate::bytes::contains_byte(line1, 62) {
        return false;
    }
    let (_email, line2) = split_once(line1, 62);

    if line2.len() == 0 || line2[0] != 32 {
        return false;
    }
    let line3 = slice_subrange(line2, 1, line2.len());
    proof {
        assert(line3@ =~= spec_split_once(spec_split_once(line@, 60).1, 62).1.skip(1));
    }

    if !crate::bytes::contains_byte(line3, 32) {
        return false;
    }
    let (time, tz) = split_once(line3, 32);

    if time.len() == 0 || !check_all_dec_digits(time) {
        return false;
    }

    if tz.len() != 5 {
        return false;
    }
    let sign_byte = tz[0];
    if sign_byte != 43 && sign_byte != 45 {
        return false;
    }
    let tz_digits = slice_subrange(tz, 1, 5);
    proof {
        assert(tz_digits@ =~= tz@.skip(1));
    }
    if !check_all_dec_digits(tz_digits) {
        return false;
    }

    proof {
        assert(tz@.skip(1)[0] == tz@[1]);
        assert(tz@.skip(1)[1] == tz@[2]);
        assert(tz@.skip(1)[2] == tz@[3]);
        assert(tz@.skip(1)[3] == tz@[4]);
    }
    let hh: i32 = (tz[1] - 48) as i32 * 10 + (tz[2] - 48) as i32;
    let mm: i32 = (tz[3] - 48) as i32 * 10 + (tz[4] - 48) as i32;
    if mm > 59 {
        return false;
    }

    let sign: i32 = if sign_byte == 43 {
        1
    } else {
        -1
    };
    let offset = sign * (hh * 60 + mm);
    -720 <= offset && offset <= 840
}

/// True when `name` is textually a valid object id: exactly 40 lowercase
/// hexadecimal digits.
pub open spec fn spec_object_id_text_valid(name: Seq<u8>) -> bool {
    name.len() == 40 && all_hex_digits(name)
}

/// Check that a header value is textually a valid object id.
pub fn object_id_is_valid(name: &[u8]) -> (r: bool)
    ensures
        r == spec_object_id_text_valid(name@),
{
    if name.len() != 40 {
        return false;
    }
    let n = name.len();
    let mut i: usize = 0;
    while i < n
        invariant
            i <= n,
            n == name@.len(),
            forall|k: int| 0 <= k < i ==> is_hex_digit(name@[k]),
        decreases n - i,
    {
        let b = name[i];
        if !((48 <= b && b <= 57) || (97 <= b && b <= 102)) {
            return false;
        }
        i += 1;
    }
    true
}

} // verus!
