use vstd::prelude::*;

verus! {

/// An error which can be returned when parsing a git object ID.
#[derive(Clone, Copy, Debug, Eq, PartialEq)]
pub enum ParseIdError {
    /// Value being parsed is empty.
    Empty,
    /// Contains an invalid digit.
    ///
    /// Among other causes, this variant will be constructed when parsing a
    /// string that contains an uppercase letter.
    InvalidDigit(char),
    /// ID string is too large to store in target integer type.
    Overflow,
    /// ID string is too small to store in target integer type.
    Underflow,
    /// Value was zero.
    Zero,
}

/// True for the lowercase hexadecimal digit bytes `0-9a-f`.
pub open spec fn is_hex_digit(b: u8) -> bool {
    (48 <= b <= 57) || (97 <= b <= 102)
}

/// The value of a lowercase hexadecimal digit byte.
pub open spec fn hex_digit_value(b: u8) -> u8 {
    if 48 <= b <= 57 {
        (b - 48) as u8
    } else {
        (b - 87) as u8
    }
}

/// True when every byte of `s` is a lowercase hexadecimal digit.
pub open spec fn all_hex_digits(s: Seq<u8>) -> bool {
    forall|j: int| 0 <= j < s.len() ==> is_hex_digit(s[j])
}

/// The index of the first byte of `s` that is not a lowercase hexadecimal
/// digit (meaningful only when `!all_hex_digits(s)`).
pub open spec fn first_non_hex_pos(s: Seq<u8>) -> int {
    choose|j: int|
        0 <= j < s.len() && !is_hex_digit(s[j]) && (forall|k: int|
            0 <= k < j ==> is_hex_digit(s[k]))
}

/// The bytes denoted by a string of hexadecimal digit pairs, two digits per
/// byte, high nybble first.
pub open spec fn spec_hex_decode(s: Seq<u8>) -> Seq<u8> {
    Seq::new((s.len() / 2) as nat, |i: int| (hex_digit_value(s[2 * i]) * 16 + hex_digit_value(
        s[2 * i + 1],
    )) as u8)
}

/// True when every byte of `s` is zero.
pub open spec fn all_zero(s: Seq<u8>) -> bool {
    forall|j: int| 0 <= j < s.len() ==> s[j] == 0
}

/// What parsing a 40-character lowercase-hex object ID yields: the raw
/// bytes, or the specific error, with the all-zero ID rejected.
pub open spec fn spec_from_hex(s: Seq<u8>) -> Result<Seq<u8>, ParseIdError> {
    if s.len() == 40 {
        if !all_hex_digits(s) {
            Err(ParseIdError::InvalidDigit(s[first_non_hex_pos(s)] as char))
        } else if all_zero(spec_hex_decode(s)) {
            Err(ParseIdError::Zero)
        } else {
            Ok(spec_hex_decode(s))
        }
    } else if s.len() == 0 {
        Err(ParseIdError::Empty)
    } else if s.len() < 40 {
        Err(ParseIdError::Underflow)
    } else {
        Err(ParseIdError::Overflow)
    }
}

/// What constructing an object ID from raw bytes yields: only the length is
/// validated here, so the all-zero ID passes (unlike on the hex path).
pub open spec fn spec_new_id(s: Seq<u8>) -> Result<Seq<u8>, ParseIdError> {
    if s.len() == 20 {
        Ok(s)
    } else if s.len() == 0 {
        Err(ParseIdError::Empty)
    } else if s.len() < 20 {
        Err(ParseIdError::Underflow)
    } else {
        Err(ParseIdError::Overflow)
    }
}

/// The lowercase hexadecimal character for a nybble.
pub open spec fn hex_char_of(n: u8) -> char {
    if n < 10 {
        ((48 + n) as u8) as char
    } else {
        ((87 + n) as u8) as char
    }
}

/// The 40-character lowercase-hex rendering of a byte string, two characters
/// per byte, high nybble first.
pub open spec fn spec_hex_chars(bytes: Seq<u8>) -> Seq<char> {
    Seq::new(
        (bytes.len() * 2) as nat,
        |i: int|
            if i % 2 == 0 {
                hex_char_of(bytes[i / 2] / 16)
            } else {
                hex_char_of(bytes[i / 2] % 16)
            },
    )
}

/// An object ID is a string that identifies an object within a repository.
/// It is stored as a 20-byte signature, but can also be represented as 40
/// hex digits.
#[derive(Clone, Debug, PartialEq, Eq)]
pub struct Id {
    id: Vec<u8>,
}

impl View for Id {
    type V = Seq<u8>;

    closed spec fn view(&self) -> Seq<u8> {
        self.id@
    }
}

impl Id {
    /// Every `Id` holds exactly 20 bytes.
    pub open spec fn wf(&self) -> bool {
        self@.len() == 20
    }

    /// Create a new ID from a 20-byte slice.
    ///
    /// It is an error if the slice contains anything other than 20 bytes.
    /// Note that the all-zero ID is accepted here, though `from_hex` rejects
    /// it: only the length is validated on this path.
    pub fn new(id: &[u8]) -> (r: Result<Id, ParseIdError>)
        ensures
            r matches Ok(x) ==> x.wf() && spec_new_id(id@) == Ok::<_, ParseIdError>(x@),
            r matches Err(e) ==> spec_new_id(id@) == Err::<Seq<u8>, _>(e),
    {
        let n = id.len();
        if n == 20 {
            Ok(Id { id: vstd::slice::slice_to_vec(id) })
        } else if n == 0 {
            Err(ParseIdError::Empty)
        } else if n < 20 {
            Err(ParseIdError::Underflow)
        } else {
            Err(ParseIdError::Overflow)
        }
    }

    /// Wrap raw bytes already known to be a 20-byte ID.
    pub(crate) fn from_bytes(id: Vec<u8>) -> (r: Id)
        requires
            id@.len() == 20,
        ensures
            r.wf() && r@ == id@,
    {
        Id { id }
    }

    /// Convert a 40-character hex ID to an object ID.
    ///
    /// It is an error if the ID contains anything other than 40 lowercase
    /// hex digits, or denotes the all-zero ID.
    pub fn from_hex(id: &[u8]) -> (r: Result<Id, ParseIdError>)
        ensures
            r matches Ok(x) ==> x.wf() && spec_from_hex(id@) == Ok::<_, ParseIdError>(x@),
            r matches Err(e) ==> spec_from_hex(id@) == Err::<Seq<u8>, _>(e),
    {
        let n = id.len();
        if n == 0 {
            return Err(ParseIdError::Empty);
        }
        if n < 40 {
            return Err(ParseIdError::Underflow);
        }
        if n > 40 {
            return Err(ParseIdError::Overflow);
        }
        let mut out: Vec<u8> = Vec::new();
        let mut i: usize = 0;
        while i < 20
            invariant
                i <= 20,
                n == 40,
                n == id@.len(),
                out@.len() == i,
                forall|k: int| 0 <= k < 2 * i ==> is_hex_digit(id@[k]),
                forall|k: int| 0 <= k < i ==> out@[k] == spec_hex_decode(id@)[k],
            decreases 20 - i,
        {
            let hi = id[2 * i];
            let lo = id[2 * i + 1];
            match (hex_value(hi), hex_value(lo)) {
                (Some(h), Some(l)) => {
                    let b = h * 16 + l;
                    out.push(b);
                },
                (hv, lv) => {
                    let (bad, bad_idx) = if hv.is_none() {
                        (hi, 2 * i)
                    } else {
                        (lo, 2 * i + 1)
                    };
                    proof {
                        lemma_first_non_hex(id@, bad_idx as int);
                    }
                    return Err(ParseIdError::InvalidDigit(bad as char));
                },
            }
            i += 1;
        }
        proof {
            assert(all_hex_digits(id@));
            assert(out@ =~= spec_hex_decode(id@));
        }
        if all_zero_bytes(out.as_slice()) {
            Err(ParseIdError::Zero)
        } else {
            Ok(Id { id: out })
        }
    }

    /// The 40-character lowercase hexadecimal form of this ID.
    pub fn to_hex_string(&self) -> (r: String)
        ensures
            r@ == spec_hex_chars(self@),
    {
        bytes_to_hex_string(self.id.as_slice())
    }
}

impl core::str::FromStr for Id {
    type Err = ParseIdError;

    fn from_str(s: &str) -> Result<Id, ParseIdError> {
        Id::from_hex(s.as_bytes())
    }
}

/// The description `message` returns for each error.
pub open spec fn spec_message(e: &ParseIdError) -> Seq<char> {
    match e {
        ParseIdError::Empty => "cannot parse object ID from empty string"@,
        ParseIdError::InvalidDigit(_) => "value contains invalid digit"@,
        ParseIdError::Overflow => "value is more than 40 digits long"@,
        ParseIdError::Underflow => "value is less than 40 digits long"@,
        ParseIdError::Zero => "ID would be zero"@,
    }
}

impl ParseIdError {
    /// A short description of the error.
    pub fn message(&self) -> (r: &str)
        ensures
            r@ == spec_message(self),
    {
        match self {
            ParseIdError::Empty => "cannot parse object ID from empty string",
            ParseIdError::InvalidDigit(_) => "value contains invalid digit",
            ParseIdError::Overflow => "value is more than 40 digits long",
            ParseIdError::Underflow => "value is less than 40 digits long",
            ParseIdError::Zero => "ID would be zero",
        }
    }
}

/// True exactly when every byte of `s` is zero.
pub(crate) fn all_zero_bytes(s: &[u8]) -> (r: bool)
    ensures
        r == all_zero(s@),
{
    let n = s.len();
    let mut i: usize = 0;
    while i < n
        invariant
            i <= n,
            n == s@.len(),
            forall|k: int| 0 <= k < i ==> s@[k] == 0,
        decreases n - i,
    {
        if s[i] != 0 {
            return false;
        }
        i += 1;
    }
    true
}

/// The value of one lowercase hexadecimal digit byte, if it is one.
fn hex_value(b: u8) -> (r: Option<u8>)
    ensures
        r matches Some(v) ==> is_hex_digit(b) && v == hex_digit_value(b) && v < 16,
        r is None ==> !is_hex_digit(b),
{
    if 48 <= b && b <= 57 {
        Some(b - 48)
    } else if 97 <= b && b <= 102 {
        Some(b - 87)
    } else {
        None
    }
}

/// Any index with the first-non-hex-digit property is `first_non_hex_pos`.
proof fn lemma_first_non_hex(s: Seq<u8>, i: int)
    requires
        0 <= i < s.len(),
        !is_hex_digit(s[i]),
        forall|k: int| 0 <= k < i ==> is_hex_digit(s[k]),
    ensures
        !all_hex_digits(s),
        first_non_hex_pos(s) == i,
{
    assert(!all_hex_digits(s));
    let j = first_non_hex_pos(s);
    assert(0 <= j < s.len() && !is_hex_digit(s[j]) && (forall|k: int|
        0 <= k < j ==> is_hex_digit(s[k])));
    if j < i {
        assert(is_hex_digit(s[j]));
    } else if i < j {
        assert(is_hex_digit(s[i]));
    }
}

/// The lowercase hexadecimal rendering of a byte string.
pub fn bytes_to_hex_string(bytes: &[u8]) -> (r: String)
    ensures
        r@ == spec_hex_chars(bytes@),
{
    let n = bytes.len();
    let mut r = String::new();
    let mut i: usize = 0;
    while i < n
        invariant
            i <= n,
            n == bytes@.len(),
            r@ == spec_hex_chars(bytes@).take(2 * i),
        decreases n - i,
    {
        let b = bytes[i];
        push_hex_digit(&mut r, b / 16);
        push_hex_digit(&mut r, b % 16);
        i += 1;
        proof {
            assert(r@ =~= spec_hex_chars(bytes@).take(2 * i));
        }
    }
    proof {
        assert(spec_hex_chars(bytes@).take(2 * n) =~= spec_hex_chars(bytes@));
    }
    r
}

/// Append the lowercase hexadecimal character of a nybble to a string.
fn push_hex_digit(s: &mut String, n: u8)
    requires
        n < 16,
    ensures
        final(s)@ == old(s)@.push(hex_char_of(n)),
{
    let d: &str = if n == 0 {
        "0"
    } else if n == 1 {
        "1"
    } else if n == 2 {
        "2"
    } else if n == 3 {
        "3"
    } else if n == 4 {
        "4"
    } else if n == 5 {
        "5"
    } else if n == 6 {
        "6"
    } else if n == 7 {
        "7"
    } else if n == 8 {
        "8"
    } else if n == 9 {
        "9"
    } else if n == 10 {
        "a"
    } else if n == 11 {
        "b"
    } else if n == 12 {
        "c"
    } else if n == 13 {
        "d"
    } else if n == 14 {
        "e"
    } else {
        "f"
    };
    proof {
        reveal_strlit("0");
        reveal_strlit("1");
        reveal_strlit("2");
        reveal_strlit("3");
        reveal_strlit("4");
        reveal_strlit("5");
        reveal_strlit("6");
        reveal_strlit("7");
        reveal_strlit("8");
        reveal_strlit("9");
        reveal_strlit("a");
        reveal_strlit("b");
        reveal_strlit("c");
        reveal_strlit("d");
        reveal_strlit("e");
        reveal_strlit("f");
        assert(d@ =~= seq![hex_char_of(n)]);
    }
    s.append(d);
    proof {
        assert(s@ =~= old(s)@.push(hex_char_of(n)));
    }
}

/// The ASCII bytes of a character sequence that lies below code point 128.
pub open spec fn chars_as_bytes(s: Seq<char>) -> Seq<u8> {
    Seq::new(s.len(), |i: int| s[i] as u8)
}

/// Hex round trip: rendering any non-zero 20-byte ID as lowercase hex and
/// parsing those characters back yields exactly the original bytes; parsing
/// the rendering of the all-zero ID is rejected as `Zero`.
pub proof fn lemma_from_hex_to_hex_roundtrip(bytes: Seq<u8>)
    requires
        bytes.len() == 20,
    ensures
        !all_zero(bytes) ==> spec_from_hex(chars_as_bytes(spec_hex_chars(bytes))) == Ok::<
            _,
            ParseIdError,
        >(bytes),
        all_zero(bytes) ==> spec_from_hex(chars_as_bytes(spec_hex_chars(bytes))) == Err::<
            Seq<u8>,
            _,
        >(ParseIdError::Zero),
{
    let hex = chars_as_bytes(spec_hex_chars(bytes));
    assert(hex.len() == 40);
    assert forall|j: int| 0 <= j < hex.len() implies is_hex_digit(hex[j]) by {
        let b = if j % 2 == 0 {
            bytes[j / 2] / 16
        } else {
            bytes[j / 2] % 16
        };
        assert(b < 16);
        assert(hex[j] == hex_char_of(b) as u8);
    }
    assert(all_hex_digits(hex));
    assert forall|i: int| 0 <= i < 20 implies spec_hex_decode(hex)[i] == bytes[i] by {
        let hi = bytes[i] / 16;
        let lo = bytes[i] % 16;
        assert(hex[2 * i] == hex_char_of(hi) as u8);
        assert(hex[2 * i + 1] == hex_char_of(lo) as u8);
        assert(hex_digit_value(hex_char_of(hi) as u8) == hi);
        assert(hex_digit_value(hex_char_of(lo) as u8) == lo);
        assert(hi * 16 + lo == bytes[i]);
    }
    assert(spec_hex_decode(hex) =~= bytes);
}

} // verus!
