//! Small verified helpers over byte slices and byte vectors that the
//! validators share.

use vstd::prelude::*;

verus! {

/// True exactly when the two byte slices hold the same bytes.
pub fn bytes_eq(a: &[u8], b: &[u8]) -> (r: bool)
    ensures
        r == (a@ == b@),
{
    if a.len() != b.len() {
        return false;
    }
    let n = a.len();
    let mut i: usize = 0;
    while i < n
        invariant
            n == a@.len(),
            n == b@.len(),
            i <= n,
            forall|j: int| 0 <= j < i ==> a@[j] == b@[j],
        decreases n - i,
    {
        if a[i] != b[i] {
            return false;
        }
        i += 1;
    }
    proof {
        assert(a@ =~= b@);
    }
    true
}

/// True exactly when `c` occurs somewhere in `s`.
pub open spec fn spec_has_byte(s: Seq<u8>, c: u8) -> bool {
    exists|j: int| 0 <= j < s.len() && s[j] == c
}

/// The index of the first occurrence of `c` in `s` (meaningful only when
/// `spec_has_byte(s, c)` holds).
pub open spec fn spec_first_pos(s: Seq<u8>, c: u8) -> int {
    choose|j: int|
        0 <= j < s.len() && s[j] == c && (forall|k: int| 0 <= k < j ==> s[k] != c)
}

/// The first occurrence of a byte is unique, so any index with the
/// first-occurrence property is `spec_first_pos`.
pub proof fn lemma_first_pos(s: Seq<u8>, c: u8, i: int)
    requires
        0 <= i < s.len(),
        s[i] == c,
        forall|k: int| 0 <= k < i ==> s[k] != c,
    ensures
        spec_has_byte(s, c),
        spec_first_pos(s, c) == i,
{
    assert(spec_has_byte(s, c));
    let j = spec_first_pos(s, c);
    assert(0 <= j < s.len() && s[j] == c && (forall|k: int| 0 <= k < j ==> s[k] != c));
    if j < i {
        assert(s[j] != c);
    } else if i < j {
        assert(s[i] != c);
    }
}

/// The position of the first occurrence of `c` in `s`, if any.
pub fn position_of(s: &[u8], c: u8) -> (r: Option<usize>)
    ensures
        r matches Some(i) ==> spec_has_byte(s@, c) && i == spec_first_pos(s@, c) && i < s@.len()
            && s@[i as int] == c && forall|j: int| 0 <= j < i ==> s@[j] != c,
        r is None ==> !spec_has_byte(s@, c),
{
    let n = s.len();
    let mut i: usize = 0;
    while i < n
        invariant
            n == s@.len(),
            i <= n,
            forall|j: int| 0 <= j < i ==> s@[j] != c,
        decreases n - i,
    {
        if s[i] == c {
            proof {
                lemma_first_pos(s@, c, i as int);
            }
            return Some(i);
        }
        i += 1;
    }
    None
}

/// The ASCII decimal rendering of `n`, most significant digit first and
/// without leading zeros (`0` itself is rendered as `0`).
pub open spec fn spec_dec_bytes(n: nat) -> Seq<u8>
    decreases n,
{
    if n < 10 {
        seq![(48 + n) as u8]
    } else {
        spec_dec_bytes(n / 10).push((48 + n % 10) as u8)
    }
}

/// Every byte of a decimal rendering is an ASCII digit.
pub proof fn lemma_dec_bytes_ascii(n: nat)
    ensures
        forall|i: int| 0 <= i < spec_dec_bytes(n).len() ==> 48 <= #[trigger] spec_dec_bytes(n)[i]
            <= 57,
    decreases n,
{
    if n < 10 {
        assert(spec_dec_bytes(n) =~= seq![(48 + n) as u8]);
    } else {
        lemma_dec_bytes_ascii(n / 10);
        let d = spec_dec_bytes(n / 10);
        assert(spec_dec_bytes(n) == d.push((48 + n % 10) as u8));
        assert forall|i: int| 0 <= i < spec_dec_bytes(n).len() implies 48
            <= #[trigger] spec_dec_bytes(n)[i] <= 57 by {
            if i < d.len() {
                assert(spec_dec_bytes(n)[i] == d[i]);
            } else {
                assert(spec_dec_bytes(n)[i] == (48 + n % 10) as u8);
            }
        }
    }
}

/// Append the ASCII decimal rendering of `n` to `out`.
pub fn push_decimal_u64(n: u64, out: &mut Vec<u8>)
    ensures
        final(out)@ == old(out)@ + spec_dec_bytes(n as nat),
    decreases n,
{
    if n < 10 {
        out.push(48 + n as u8);
        proof {
            assert(out@ =~= old(out)@ + spec_dec_bytes(n as nat));
        }
    } else {
        push_decimal_u64(n / 10, out);
        out.push(48 + (n % 10) as u8);
        proof {
            assert(out@ =~= old(out)@ + spec_dec_bytes(n as nat));
        }
    }
}

/// Append the ASCII decimal rendering of `n` to `out`.
pub fn push_decimal(n: usize, out: &mut Vec<u8>)
    ensures
        final(out)@ == old(out)@ + spec_dec_bytes(n as nat),
    decreases n,
{
    if n < 10 {
        out.push(48 + n as u8);
        proof {
            assert(out@ =~= old(out)@ + spec_dec_bytes(n as nat));
        }
    } else {
        push_decimal(n / 10, out);
        out.push(48 + (n % 10) as u8);
        proof {
            assert(out@ =~= old(out)@ + spec_dec_bytes(n as nat));
        }
    }
}

/// True exactly when `c` occurs somewhere in `s`.
pub fn contains_byte(s: &[u8], c: u8) -> (r: bool)
    ensures
        r == spec_has_byte(s@, c),
{
    match position_of(s, c) {
        Some(_) => true,
        None => false,
    }
}

} // verus!
