use vstd::prelude::*;

use crate::bytes::{lemma_dec_bytes_ascii, push_decimal_u64, spec_dec_bytes, spec_has_byte};
use crate::text::utf8_decode;
use super::parse_utils::{all_dec_digits, is_dec_digit, spec_split_once, split_once};
use vstd::slice::slice_subrange;
use vstd::string::{StrSliceExecFns, StringExecFns};
use vstd::utf8::{decode_utf8, valid_utf8};

verus! {

/// `line` without one trailing LF, if it carries one.
pub open spec fn spec_drop_last_newline(s: Seq<u8>) -> Seq<u8> {
    if s.len() > 0 && s.last() == 10 {
        s.drop_last()
    } else {
        s
    }
}

/// `s` without one trailing space, if it carries one.
pub open spec fn spec_drop_last_space(s: Seq<u8>) -> Seq<u8> {
    if s.len() > 0 && s.last() == 32 {
        s.drop_last()
    } else {
        s
    }
}

/// True when some byte of `s` is not a space.
pub open spec fn has_non_space(s: Seq<u8>) -> bool {
    exists|j: int| 0 <= j < s.len() && s[j] != 32
}

/// The index of the first non-space byte of `s` (meaningful only when
/// `has_non_space(s)`).
pub open spec fn first_non_space_pos(s: Seq<u8>) -> int {
    choose|j: int|
        0 <= j < s.len() && s[j] != 32 && (forall|k: int| 0 <= k < j ==> s[k] == 32)
}

/// `s` without its leading spaces; a string of only spaces stays as it is.
pub open spec fn spec_strip_leading_spaces(s: Seq<u8>) -> Seq<u8> {
    if has_non_space(s) {
        s.skip(first_non_space_pos(s))
    } else {
        s
    }
}

/// The index of the last occurrence of `c` in `s` (meaningful only when
/// `spec_has_byte(s, c)`).
pub open spec fn spec_last_pos(s: Seq<u8>, c: u8) -> int {
    choose|j: int|
        0 <= j < s.len() && s[j] == c && (forall|k: int| j < k < s.len() ==> s[k] != c)
}

/// The pair (bytes after the last `c`, bytes before it); `(s, empty)` when
/// `c` does not occur.
pub open spec fn spec_rsplit_once(s: Seq<u8>, c: u8) -> (Seq<u8>, Seq<u8>) {
    if spec_has_byte(s, c) {
        (s.skip(spec_last_pos(s, c) + 1), s.take(spec_last_pos(s, c)))
    } else {
        (s, Seq::empty())
    }
}

/// The last space-separated word of `s` (after stripping leading spaces),
/// and what precedes it.  A word that is not valid UTF-8 reads as empty.
pub open spec fn spec_last_word(s: Seq<u8>) -> (Seq<u8>, Seq<u8>) {
    let t = spec_strip_leading_spaces(s);
    let w = spec_rsplit_once(t, 32).0;
    let rest = spec_rsplit_once(t, 32).1;
    (
        if valid_utf8(w) {
            w
        } else {
            Seq::empty()
        },
        rest,
    )
}

/// The value a decimal digit byte denotes, with any other byte reading as
/// zero (the lenient parser never rejects a malformed digit).
pub open spec fn from_digit_or_zero(b: u8) -> int {
    if is_dec_digit(b) {
        (b - 48) as int
    } else {
        0
    }
}

/// The timezone offset in minutes the lenient parser reads from a word:
/// zero unless the word is five bytes with a leading sign.  Digits are read
/// forgivingly (a non-digit counts as zero), and the minute component
/// repeats its first digit -- a deliberate quirk of this reader that the
/// strict validator does not share.
pub open spec fn spec_tz_lenient(b: Seq<u8>) -> int {
    if b.len() != 5 {
        0
    } else if b[0] != 43 && b[0] != 45 {
        0
    } else {
        let sign: int = if b[0] == 43 {
            1
        } else {
            -1
        };
        let hh = from_digit_or_zero(b[1]) * 10 + from_digit_or_zero(b[2]);
        let mm = from_digit_or_zero(b[3]) * 10 + from_digit_or_zero(b[3]);
        sign * (hh * 60 + mm)
    }
}

/// The value of a string of decimal digits, most significant first.
pub open spec fn spec_dec_value(d: Seq<u8>) -> int
    decreases d.len(),
{
    if d.len() == 0 {
        0
    } else {
        spec_dec_value(d.drop_last()) * 10 + (d.last() - 48) as int
    }
}

/// The digit part of a signed decimal token.
pub open spec fn spec_i64_digits(b: Seq<u8>) -> Seq<u8> {
    if b.len() > 0 && (b[0] == 43 || b[0] == 45) {
        b.skip(1)
    } else {
        b
    }
}

/// The sign of a signed decimal token.
pub open spec fn spec_i64_sign(b: Seq<u8>) -> int {
    if b.len() > 0 && b[0] == 45 {
        -1
    } else {
        1
    }
}

/// True when a token parses as an `i64`: an optional sign, at least one
/// digit, nothing else, and a value within the type's range.
pub open spec fn spec_i64_ok(b: Seq<u8>) -> bool {
    let d = spec_i64_digits(b);
    &&& d.len() > 0
    &&& all_dec_digits(d)
    &&& (if spec_i64_sign(b) < 0 {
        spec_dec_value(d) <= 0x8000_0000_0000_0000
    } else {
        spec_dec_value(d) < 0x8000_0000_0000_0000
    })
}

/// The `i64` a token denotes, with zero for anything that does not parse
/// (the lenient parser never rejects a malformed timestamp).
pub open spec fn spec_parse_i64_or_zero(b: Seq<u8>) -> int {
    if spec_i64_ok(b) {
        spec_i64_sign(b) * spec_dec_value(spec_i64_digits(b))
    } else {
        0
    }
}

/// What the lenient attribution parser reads from a line: the name before
/// `<`, the email before `>`, then the last two words as timestamp and
/// timezone, all read forgivingly.
pub open spec fn spec_parse_attribution(line: Seq<u8>) -> Option<
    (Seq<char>, Seq<char>, int, int),
> {
    let l0 = spec_drop_last_newline(line);
    let name_b = spec_drop_last_space(spec_split_once(l0, 60).0);
    let rest1 = spec_split_once(l0, 60).1;
    if !valid_utf8(name_b) {
        None
    } else if !spec_has_byte(rest1, 62) {
        None
    } else {
        let email_b = spec_split_once(rest1, 62).0;
        let rest2 = spec_split_once(rest1, 62).1;
        if !valid_utf8(email_b) {
            None
        } else {
            let rest3 = spec_drop_last_space(rest2);
            let tzw = spec_last_word(rest3).0;
            let rest4 = spec_last_word(rest3).1;
            let tsw = spec_last_word(rest4).0;
            Some(
                (
                    decode_utf8(name_b),
                    decode_utf8(email_b),
                    spec_parse_i64_or_zero(tsw),
                    spec_tz_lenient(tzw),
                ),
            )
        }
    }
}

/// An `Attribution` combines a person's identity (name and e-mail address)
/// with the timestamp for a particular action.
///
/// Attributions are typically associated with commits or tags in git.
#[derive(Clone, Debug, PartialEq, Eq)]
pub struct Attribution {
    name: String,
    email: String,
    timestamp: i64,
    tz_offset: i16,
}

impl Attribution {
    /// The person's name, as characters.
    pub closed spec fn spec_name(&self) -> Seq<char> {
        self.name@
    }

    /// The person's email, as characters.
    pub closed spec fn spec_email(&self) -> Seq<char> {
        self.email@
    }

    /// The timestamp, in seconds relative to the Unix era.
    pub closed spec fn spec_timestamp(&self) -> int {
        self.timestamp as int
    }

    /// The timezone offset, in minutes relative to GMT.
    pub closed spec fn spec_tz_offset(&self) -> int {
        self.tz_offset as int
    }

    /// Creates a new attribution.
    ///
    /// The timezone offset must lie within UTC-12:00 .. UTC+14:00.
    pub fn new(name: &str, email: &str, timestamp: i64, tz_offset: i16) -> (r: Attribution)
        requires
            -720 <= tz_offset <= 840,
        ensures
            r.spec_name() == name@,
            r.spec_email() == email@,
            r.spec_timestamp() == timestamp as int,
            r.spec_tz_offset() == tz_offset as int,
    {
        Attribution {
            name: name.to_owned(),
            email: email.to_owned(),
            timestamp,
            tz_offset,
        }
    }

    /// Parse a name line (e.g. author, committer, tagger) into an
    /// `Attribution` struct.  Returns `None` if unable to parse the line
    /// properly.
    ///
    /// This parser is intentionally more lenient than the strict validator
    /// used for format checking: missing or malformed timestamp and
    /// timezone fields default to zero.
    pub fn parse(line: &[u8]) -> (r: Option<Attribution>)
        ensures
            r matches Some(a) ==> spec_parse_attribution(line@) == Some(
                (a.spec_name(), a.spec_email(), a.spec_timestamp(), a.spec_tz_offset()),
            ),
            r is None ==> spec_parse_attribution(line@) is None,
    {
        let l0 = drop_last_newline(line);
        let (name_b0, rest1) = split_once(l0, 60);
        let name_b = drop_last_space(name_b0);
        let name = match utf8_decode(name_b) {
            Some(s) => s,
            None => {
                return None;
            },
        };

        if !crate::bytes::contains_byte(rest1, 62) {
            return None;
        }
        let (email_b, rest2) = split_once(rest1, 62);
        let email = match utf8_decode(email_b) {
            Some(s) => s,
            None => {
                return None;
            },
        };

        let rest3 = drop_last_space(rest2);
        let (tz_word, rest4) = last_word(rest3);
        let tz_offset = tz_lenient(tz_word.as_slice());

        let (ts_word, _rest5) = last_word(rest4.as_slice());
        let timestamp = parse_i64_or_zero(ts_word.as_slice());

        Some(Attribution { name, email, timestamp, tz_offset })
    }

    /// Returns the person's human-readable name.
    pub fn name(&self) -> (r: &str)
        ensures
            r@ == self.spec_name(),
    {
        self.name.as_str()
    }

    /// Returns the person's email address.
    pub fn email(&self) -> (r: &str)
        ensures
            r@ == self.spec_email(),
    {
        self.email.as_str()
    }

    /// Returns the timestamp (seconds relative to the Unix era).
    pub fn timestamp(&self) -> (r: i64)
        ensures
            r as int == self.spec_timestamp(),
    {
        self.timestamp
    }

    /// Returns the timezone offset (minutes relative to GMT).
    pub fn tz_offset(&self) -> (r: i16)
        ensures
            r as int == self.spec_tz_offset(),
    {
        self.tz_offset
    }

    /// Returns a sanitized version of the person's human-readable name.
    pub fn sanitized_name(&self) -> (r: String)
        ensures
            r@ == spec_sanitize(self.spec_name()),
    {
        sanitize(self.name.as_str())
    }

    /// Returns a sanitized version of the person's email address.
    pub fn sanitized_email(&self) -> (r: String)
        ensures
            r@ == spec_sanitize(self.spec_email()),
    {
        sanitize(self.email.as_str())
    }

    /// Returns the timezone formatted in human readable offset from GMT.
    pub fn format_tz(&self) -> (r: String)
        ensures
            r@ == spec_format_tz(self.spec_tz_offset()),
    {
        let tz = self.tz_offset;
        let neg = tz < 0;
        let o: i32 = if neg {
            -(tz as i32)
        } else {
            tz as i32
        };
        let hours: i32 = o / 60;
        let min: i32 = o % 60;
        let mut bytes: Vec<u8> = Vec::new();
        bytes.push(if neg {
            45
        } else {
            43
        });
        push_padded2(hours as u64, &mut bytes);
        push_padded2(min as u64, &mut bytes);
        proof {
            lemma_dec_bytes_ascii(hours as nat);
            lemma_dec_bytes_ascii(min as nat);
            assert(bytes@ =~= seq![if neg { 45u8 } else { 43u8 }] + spec_pad2(hours as int)
                + spec_pad2(min as int));
            assert(forall|i: int| 0 <= i < bytes@.len() ==> bytes@[i] < 128);
        }
        let r = crate::text::ascii_to_string(bytes.as_slice());
        proof {
            assert(r@ =~= spec_format_tz(self.spec_tz_offset()));
        }
        r
    }

    /// Returns the attribution formatted the way it is written into commit
    /// and tag objects: `name <email> timestamp timezone`, with name and
    /// email sanitized.
    pub fn to_display_string(&self) -> (r: String)
        ensures
            r@ == spec_display(self),
    {
        let mut r = self.sanitized_name();
        append_lit_space_lt(&mut r);
        let email = self.sanitized_email();
        r.append(email.as_str());
        append_lit_gt_space(&mut r);
        let ts = self.timestamp_string();
        r.append(ts.as_str());
        append_lit_space(&mut r);
        let tz = self.format_tz();
        r.append(tz.as_str());
        proof {
            assert(r@ =~= spec_display(self));
        }
        r
    }

    /// The timestamp rendered in decimal.
    fn timestamp_string(&self) -> (r: String)
        ensures
            r@ == spec_i64_dec_chars(self.spec_timestamp()),
    {
        let t = self.timestamp;
        let mut bytes: Vec<u8> = Vec::new();
        let m: u64 = if t >= 0 {
            t as u64
        } else {
            bytes.push(45);
            ((-(t + 1)) as u64) + 1
        };
        proof {
            assert(m as nat == (if self.spec_timestamp() >= 0 {
                self.spec_timestamp()
            } else {
                -self.spec_timestamp()
            }));
        }
        push_decimal_u64(m, &mut bytes);
        proof {
            lemma_dec_bytes_ascii(m as nat);
            assert(forall|i: int| 0 <= i < bytes@.len() ==> bytes@[i] < 128);
        }
        let r = crate::text::ascii_to_string(bytes.as_slice());
        proof {
            assert(r@ =~= spec_i64_dec_chars(self.spec_timestamp()));
        }
        r
    }
}

/// The characters git refuses inside a name or email: control characters
/// other than CR, and the angle brackets that delimit the email.
pub open spec fn is_sanitize_dropped(c: char) -> bool {
    ||| (0 <= c as int <= 12)
    ||| (14 <= c as int <= 31)
    ||| c as int == 60
    ||| c as int == 62
}

/// The Unicode code points `str::trim` treats as whitespace.
pub open spec fn is_ws_char(c: char) -> bool {
    ||| (9 <= c as int <= 13)
    ||| c as int == 32
    ||| c as int == 0x85
    ||| c as int == 0xA0
    ||| c as int == 0x1680
    ||| (0x2000 <= c as int <= 0x200A)
    ||| c as int == 0x2028
    ||| c as int == 0x2029
    ||| c as int == 0x202F
    ||| c as int == 0x205F
    ||| c as int == 0x3000
}

/// True when some character of `s` is not whitespace.
pub open spec fn has_non_ws(s: Seq<char>) -> bool {
    exists|j: int| 0 <= j < s.len() && !is_ws_char(s[j])
}

/// The index of the first non-whitespace character (meaningful only when
/// `has_non_ws(s)`).
pub open spec fn first_non_ws_pos(s: Seq<char>) -> int {
    choose|j: int|
        0 <= j < s.len() && !is_ws_char(s[j]) && (forall|k: int| 0 <= k < j ==> is_ws_char(s[k]))
}

/// The index of the last non-whitespace character (meaningful only when
/// `has_non_ws(s)`).
pub open spec fn last_non_ws_pos(s: Seq<char>) -> int {
    choose|j: int|
        0 <= j < s.len() && !is_ws_char(s[j]) && (forall|k: int|
            j < k < s.len() ==> is_ws_char(s[k]))
}

/// `s` without leading and trailing whitespace.
pub open spec fn spec_trim(s: Seq<char>) -> Seq<char> {
    if has_non_ws(s) {
        s.subrange(first_non_ws_pos(s), last_non_ws_pos(s) + 1)
    } else {
        Seq::empty()
    }
}

/// `s` with the dropped characters removed.
pub open spec fn spec_filter_keep(s: Seq<char>) -> Seq<char>
    decreases s.len(),
{
    if s.len() == 0 {
        Seq::empty()
    } else if is_sanitize_dropped(s[0]) {
        spec_filter_keep(s.drop_first())
    } else {
        seq![s[0]] + spec_filter_keep(s.drop_first())
    }
}

/// The sanitized form of a name or email: trimmed of whitespace, with
/// control characters (except CR) and angle brackets removed.
pub open spec fn spec_sanitize(s: Seq<char>) -> Seq<char> {
    spec_filter_keep(spec_trim(s))
}

/// A decimal number rendered with at least two digits.
pub open spec fn spec_pad2(n: int) -> Seq<u8> {
    if 0 <= n < 10 {
        seq![48u8, (48 + n) as u8]
    } else if n >= 0 {
        spec_dec_bytes(n as nat)
    } else {
        Seq::empty()
    }
}

/// The timezone offset formatted as `[+-]HHMM`.
pub open spec fn spec_format_tz(tz: int) -> Seq<char> {
    let sign: u8 = if tz < 0 {
        45
    } else {
        43
    };
    let o = if tz < 0 {
        -tz
    } else {
        tz
    };
    (seq![sign] + spec_pad2(o / 60) + spec_pad2(o % 60)).map_values(|b: u8| b as char)
}

/// A signed decimal rendering, as characters.
pub open spec fn spec_i64_dec_chars(t: int) -> Seq<char> {
    if t < 0 {
        (seq![45u8] + spec_dec_bytes((-t) as nat)).map_values(|b: u8| b as char)
    } else {
        spec_dec_bytes(t as nat).map_values(|b: u8| b as char)
    }
}

/// The attribution as it is written into commit and tag objects.
pub open spec fn spec_display(a: &Attribution) -> Seq<char> {
    spec_sanitize(a.spec_name()) + seq![' ', '<'] + spec_sanitize(a.spec_email()) + seq![
        '>',
        ' ',
    ] + spec_i64_dec_chars(a.spec_timestamp()) + seq![' '] + spec_format_tz(a.spec_tz_offset())
}

/// Append the literal `" <"` that precedes the email.
fn append_lit_space_lt(s: &mut String)
    ensures
        final(s)@ == old(s)@ + seq![' ', '<'],
{
    proof {
        reveal_strlit(" <");
    }
    s.append(" <");
    proof {
        assert(s@ =~= old(s)@ + seq![' ', '<']);
    }
}

/// Append the literal `"> "` that follows the email.
fn append_lit_gt_space(s: &mut String)
    ensures
        final(s)@ == old(s)@ + seq!['>', ' '],
{
    proof {
        reveal_strlit("> ");
    }
    s.append("> ");
    proof {
        assert(s@ =~= old(s)@ + seq!['>', ' ']);
    }
}

/// Append a single space.
fn append_lit_space(s: &mut String)
    ensures
        final(s)@ == old(s)@ + seq![' '],
{
    proof {
        reveal_strlit(" ");
    }
    s.append(" ");
    proof {
        assert(s@ =~= old(s)@ + seq![' ']);
    }
}

/// Append a decimal number, zero-padded to at least two digits.
fn push_padded2(n: u64, out: &mut Vec<u8>)
    requires
        n >= 0,
    ensures
        final(out)@ == old(out)@ + spec_pad2(n as int),
{
    if n < 10 {
        out.push(48);
        out.push(48 + n as u8);
        proof {
            assert(out@ =~= old(out)@ + spec_pad2(n as int));
        }
    } else {
        push_decimal_u64(n, out);
    }
}

/// Whether `str::trim` would strip this character.
fn is_ws(c: char) -> (r: bool)
    ensures
        r == is_ws_char(c),
{
    let v = c as u32;
    (9 <= v && v <= 13) || v == 32 || v == 0x85 || v == 0xA0 || v == 0x1680 || (0x2000 <= v && v
        <= 0x200A) || v == 0x2028 || v == 0x2029 || v == 0x202F || v == 0x205F || v == 0x3000
}

/// Whether the sanitizer drops this character.
fn is_dropped(c: char) -> (r: bool)
    ensures
        r == is_sanitize_dropped(c),
{
    let v = c as u32;
    v <= 12 || (14 <= v && v <= 31) || v == 60 || v == 62
}

/// Any index with the first-non-whitespace property is `first_non_ws_pos`.
proof fn lemma_first_non_ws(s: Seq<char>, i: int)
    requires
        0 <= i < s.len(),
        !is_ws_char(s[i]),
        forall|k: int| 0 <= k < i ==> is_ws_char(s[k]),
    ensures
        has_non_ws(s),
        first_non_ws_pos(s) == i,
{
    assert(has_non_ws(s));
    let j = first_non_ws_pos(s);
    assert(0 <= j < s.len() && !is_ws_char(s[j]) && (forall|k: int|
        0 <= k < j ==> is_ws_char(s[k])));
    if j < i {
        assert(is_ws_char(s[j]));
    } else if i < j {
        assert(is_ws_char(s[i]));
    }
}

/// Any index with the last-non-whitespace property is `last_non_ws_pos`.
proof fn lemma_last_non_ws(s: Seq<char>, i: int)
    requires
        0 <= i < s.len(),
        !is_ws_char(s[i]),
        forall|k: int| i < k < s.len() ==> is_ws_char(s[k]),
    ensures
        has_non_ws(s),
        last_non_ws_pos(s) == i,
{
    assert(has_non_ws(s));
    let j = last_non_ws_pos(s);
    assert(0 <= j < s.len() && !is_ws_char(s[j]) && (forall|k: int|
        j < k < s.len() ==> is_ws_char(s[k])));
    if j < i {
        assert(is_ws_char(s[i]));
    } else if i < j {
        assert(is_ws_char(s[j]));
    }
}

/// Filtering distributes over appending one character at the end.
proof fn lemma_filter_push(a: Seq<char>, c: char)
    ensures
        spec_filter_keep(a.push(c)) == spec_filter_keep(a) + (if is_sanitize_dropped(c) {
            Seq::<char>::empty()
        } else {
            seq![c]
        }),
    decreases a.len(),
{
    if a.len() == 0 {
        assert(a.push(c)[0] == c);
        assert(a.push(c).drop_first() =~= Seq::<char>::empty());
        assert(spec_filter_keep(Seq::<char>::empty()) == Seq::<char>::empty());
        assert(a =~= Seq::<char>::empty());
        assert(spec_filter_keep(a) == Seq::<char>::empty());
        let x = if is_sanitize_dropped(c) {
            Seq::<char>::empty()
        } else {
            seq![c]
        };
        if is_sanitize_dropped(c) {
            assert(spec_filter_keep(a.push(c)) == spec_filter_keep(a.push(c).drop_first()));
            assert(spec_filter_keep(a) + x =~= Seq::<char>::empty());
        } else {
            assert(spec_filter_keep(a.push(c)) == seq![c] + spec_filter_keep(
                a.push(c).drop_first(),
            ));
            assert(seq![c] + Seq::<char>::empty() =~= seq![c]);
            assert(spec_filter_keep(a) + x =~= seq![c]);
        }
    } else {
        assert(a.push(c)[0] == a[0]);
        assert(a.push(c).drop_first() =~= a.drop_first().push(c));
        lemma_filter_push(a.drop_first(), c);
        let x = if is_sanitize_dropped(c) {
            Seq::<char>::empty()
        } else {
            seq![c]
        };
        assert(spec_filter_keep(a.push(c).drop_first()) == spec_filter_keep(a.drop_first()) + x);
        if is_sanitize_dropped(a[0]) {
            assert(spec_filter_keep(a.push(c)) == spec_filter_keep(a.push(c).drop_first()));
            assert(spec_filter_keep(a) == spec_filter_keep(a.drop_first()));
        } else {
            assert(spec_filter_keep(a.push(c)) == seq![a[0]] + spec_filter_keep(
                a.push(c).drop_first(),
            ));
            assert(spec_filter_keep(a) == seq![a[0]] + spec_filter_keep(a.drop_first()));
            assert(seq![a[0]] + (spec_filter_keep(a.drop_first()) + x) =~= (seq![a[0]]
                + spec_filter_keep(a.drop_first())) + x);
        }
    }
}

/// Sanitize one string: trim whitespace, drop control characters (except
/// CR) and angle brackets.
fn sanitize(s: &str) -> (r: String)
    ensures
        r@ == spec_sanitize(s@),
{
    let n = s.unicode_len();
    let mut start: usize = 0;
    while start < n && is_ws(s.get_char(start))
        invariant
            start <= n,
            n == s@.len(),
            forall|k: int| 0 <= k < start ==> is_ws_char(s@[k]),
        decreases n - start,
    {
        start += 1;
    }
    if start == n {
        proof {
            assert(!has_non_ws(s@));
        }
        return String::new();
    }
    proof {
        lemma_first_non_ws(s@, start as int);
    }
    let mut end: usize = n;
    while is_ws(s.get_char(end - 1))
        invariant
            start < end <= n,
            n == s@.len(),
            !is_ws_char(s@[start as int]),
            forall|k: int| end <= k < n ==> is_ws_char(s@[k]),
        decreases end,
    {
        end -= 1;
    }
    proof {
        lemma_last_non_ws(s@, end - 1);
        assert(spec_trim(s@) == s@.subrange(start as int, end as int));
    }

    let mut r = String::new();
    let mut i: usize = start;
    proof {
        assert(s@.subrange(start as int, start as int) =~= Seq::<char>::empty());
    }
    while i < end
        invariant
            start <= i <= end <= n,
            n == s@.len(),
            r@ == spec_filter_keep(s@.subrange(start as int, i as int)),
        decreases end - i,
    {
        let c = s.get_char(i);
        proof {
            assert(s@.subrange(start as int, i as int + 1) =~= s@.subrange(
                start as int,
                i as int,
            ).push(s@[i as int]));
            lemma_filter_push(s@.subrange(start as int, i as int), s@[i as int]);
        }
        if !is_dropped(c) {
            let piece = s.substring_char(i, i + 1);
            proof {
                assert(piece@ =~= seq![s@[i as int]]);
            }
            r.append(piece);
        }
        i += 1;
    }
    proof {
        assert(r@ =~= spec_sanitize(s@));
    }
    r
}

/// `line` without one trailing LF, if it carries one.
fn drop_last_newline<'a>(s: &'a [u8]) -> (r: &'a [u8])
    ensures
        r@ == spec_drop_last_newline(s@),
{
    let n = s.len();
    if n > 0 && s[n - 1] == 10 {
        let r = slice_subrange(s, 0, n - 1);
        proof {
            assert(r@ =~= s@.drop_last());
        }
        r
    } else {
        s
    }
}

/// `s` without one trailing space, if it carries one.
fn drop_last_space<'a>(s: &'a [u8]) -> (r: &'a [u8])
    ensures
        r@ == spec_drop_last_space(s@),
{
    let n = s.len();
    if n > 0 && s[n - 1] == 32 {
        let r = slice_subrange(s, 0, n - 1);
        proof {
            assert(r@ =~= s@.drop_last());
        }
        r
    } else {
        s
    }
}

/// Any index with the first-non-space property is `first_non_space_pos`.
proof fn lemma_first_non_space(s: Seq<u8>, i: int)
    requires
        0 <= i < s.len(),
        s[i] != 32,
        forall|k: int| 0 <= k < i ==> s[k] == 32,
    ensures
        has_non_space(s),
        first_non_space_pos(s) == i,
{
    assert(has_non_space(s));
    let j = first_non_space_pos(s);
    assert(0 <= j < s.len() && s[j] != 32 && (forall|k: int| 0 <= k < j ==> s[k] == 32));
    if j < i {
        assert(s[j] == 32);
    } else if i < j {
        assert(s[i] == 32);
    }
}

/// Any index with the last-occurrence property is `spec_last_pos`.
proof fn lemma_last_pos(s: Seq<u8>, c: u8, i: int)
    requires
        0 <= i < s.len(),
        s[i] == c,
        forall|k: int| i < k < s.len() ==> s[k] != c,
    ensures
        spec_has_byte(s, c),
        spec_last_pos(s, c) == i,
{
    assert(spec_has_byte(s, c));
    let j = spec_last_pos(s, c);
    assert(0 <= j < s.len() && s[j] == c && (forall|k: int| j < k < s.len() ==> s[k] != c));
    if j < i {
        assert(s[i] != c);
    } else if i < j {
        assert(s[j] != c);
    }
}

/// `s` without its leading spaces; a string of only spaces stays as it is.
fn strip_leading_spaces<'a>(s: &'a [u8]) -> (r: &'a [u8])
    ensures
        r@ == spec_strip_leading_spaces(s@),
{
    let n = s.len();
    let mut i: usize = 0;
    while i < n
        invariant
            i <= n,
            n == s@.len(),
            forall|k: int| 0 <= k < i ==> s@[k] == 32,
        decreases n - i,
    {
        if s[i] != 32 {
            proof {
                lemma_first_non_space(s@, i as int);
            }
            let r = slice_subrange(s, i, n);
            proof {
                assert(r@ =~= s@.skip(i as int));
            }
            return r;
        }
        i += 1;
    }
    proof {
        assert(!has_non_space(s@));
    }
    s
}

/// Split a byte string at the last occurrence of `c`: (after, before); the
/// second half is empty when `c` does not occur.
fn rsplit_once<'a>(s: &'a [u8], c: u8) -> (r: (&'a [u8], &'a [u8]))
    ensures
        r.0@ == spec_rsplit_once(s@, c).0,
        r.1@ == spec_rsplit_once(s@, c).1,
{
    let n = s.len();
    let mut i: usize = n;
    while i > 0
        invariant
            i <= n,
            n == s@.len(),
            forall|k: int| i <= k < n ==> s@[k] != c,
        decreases i,
    {
        i -= 1;
        if s[i] == c {
            proof {
                lemma_last_pos(s@, c, i as int);
            }
            let a = slice_subrange(s, i + 1, n);
            let b = slice_subrange(s, 0, i);
            proof {
                assert(a@ =~= s@.skip(i as int + 1));
                assert(b@ =~= s@.take(i as int));
            }
            return (a, b);
        }
    }
    proof {
        assert(!spec_has_byte(s@, c));
    }
    let b = slice_subrange(s, 0, 0);
    proof {
        assert(b@ =~= Seq::<u8>::empty());
    }
    (s, b)
}

/// The last space-separated word of `s` (after stripping leading spaces)
/// and what precedes it, with a non-UTF-8 word reading as empty.
fn last_word(s: &[u8]) -> (r: (Vec<u8>, Vec<u8>))
    ensures
        r.0@ == spec_last_word(s@).0,
        r.1@ == spec_last_word(s@).1,
{
    let t = strip_leading_spaces(s);
    let (w, rest) = rsplit_once(t, 32);
    let word = match utf8_decode(w) {
        Some(_) => vstd::slice::slice_to_vec(w),
        None => {
            let empty: Vec<u8> = Vec::new();
            proof {
                assert(empty@ =~= Seq::<u8>::empty());
            }
            empty
        },
    };
    (word, vstd::slice::slice_to_vec(rest))
}

/// The timezone offset in minutes the lenient parser reads from a word.
fn tz_lenient(b: &[u8]) -> (r: i16)
    ensures
        r as int == spec_tz_lenient(b@),
{
    if b.len() != 5 {
        return 0;
    }
    if b[0] != 43 && b[0] != 45 {
        return 0;
    }
    let sign: i16 = if b[0] == 43 {
        1
    } else {
        -1
    };
    let hh: i16 = digit_or_zero(b[1]) * 10 + digit_or_zero(b[2]);
    let mm: i16 = digit_or_zero(b[3]) * 10 + digit_or_zero(b[3]);
    sign * (hh * 60 + mm)
}

/// The value a decimal digit byte denotes, with any other byte reading as
/// zero.
fn digit_or_zero(b: u8) -> (r: i16)
    ensures
        r as int == from_digit_or_zero(b),
        0 <= r <= 9,
{
    if 48 <= b && b <= 57 {
        (b - 48) as i16
    } else {
        0
    }
}

/// Every digit string has a non-negative value.
proof fn lemma_dec_value_nonneg(d: Seq<u8>)
    requires
        all_dec_digits(d),
    ensures
        spec_dec_value(d) >= 0,
    decreases d.len(),
{
    if d.len() > 0 {
        assert(all_dec_digits(d.drop_last())) by {
            assert(forall|k: int| 0 <= k < d.len() - 1 ==> d.drop_last()[k] == d[k]);
        }
        lemma_dec_value_nonneg(d.drop_last());
    }
}

/// Reading more digits never shrinks the value.
proof fn lemma_dec_value_mono(d: Seq<u8>, i: int)
    requires
        all_dec_digits(d),
        0 <= i <= d.len(),
    ensures
        spec_dec_value(d) >= spec_dec_value(d.take(i)),
    decreases d.len() - i,
{
    if i < d.len() {
        assert(d.take(i + 1).drop_last() =~= d.take(i));
        assert(d.take(i + 1).last() == d[i]);
        assert(all_dec_digits(d.take(i))) by {
            assert(forall|k: int| 0 <= k < i ==> d.take(i)[k] == d[k]);
        }
        lemma_dec_value_nonneg(d.take(i));
        assert(spec_dec_value(d.take(i + 1)) == spec_dec_value(d.take(i)) * 10 + (d[i]
            - 48) as int);
        assert(spec_dec_value(d.take(i)) * 10 >= spec_dec_value(d.take(i)));
        lemma_dec_value_mono(d, i + 1);
    } else {
        assert(d.take(i) =~= d);
    }
}

/// The `i64` a token denotes, with zero for anything that does not parse.
fn parse_i64_or_zero(b: &[u8]) -> (r: i64)
    ensures
        r as int == spec_parse_i64_or_zero(b@),
{
    let n = b.len();
    let start: usize = if n > 0 && (b[0] == 43 || b[0] == 45) {
        1
    } else {
        0
    };
    let negative = n > 0 && b[0] == 45;
    let ghost d = spec_i64_digits(b@);
    proof {
        if start == 1 {
            assert(d =~= b@.skip(1));
        } else {
            assert(d =~= b@);
        }
    }
    if start >= n {
        return 0;
    }
    // Accumulate negatively so that i64::MIN is reachable.
    let mut acc: i64 = 0;
    let mut i: usize = start;
    while i < n
        invariant
            start <= i <= n,
            n == b@.len(),
            d == spec_i64_digits(b@),
            d =~= b@.skip(start as int),
            acc <= 0,
            forall|k: int| 0 <= k < i - start ==> is_dec_digit(d[k]),
            acc as int == -spec_dec_value(d.take(i - start)),
        decreases n - i,
    {
        let c = b[i];
        if c < 48 || c > 57 {
            proof {
                assert(d[i - start] == b@[i as int]);
                assert(!all_dec_digits(d));
            }
            return 0;
        }
        let ghost prefix = d.take(i - start);
        let ghost prefix2 = d.take(i + 1 - start);
        proof {
            assert(prefix2.drop_last() =~= prefix);
            assert(prefix2.last() == d[i - start]);
            assert(d[i - start] == b@[i as int]);
            assert(all_dec_digits(prefix2)) by {
                assert(forall|k: int| 0 <= k < prefix2.len() ==> prefix2[k] == d[k]);
            }
        }
        let step = match acc.checked_mul(10) {
            Some(a) => a.checked_sub((c - 48) as i64),
            None => None,
        };
        match step {
            Some(a2) => {
                acc = a2;
            },
            None => {
                // The value has already outgrown every i64, so the token
                // does not parse whatever follows.
                proof {
                    assert(spec_dec_value(prefix2) > 0x8000_0000_0000_0000);
                    if all_dec_digits(d) {
                        lemma_dec_value_mono(d, i + 1 - start);
                        assert(spec_dec_value(d) > 0x8000_0000_0000_0000);
                    }
                    assert(!spec_i64_ok(b@));
                }
                return 0;
            },
        }
        i += 1;
    }
    proof {
        assert(d.take(n - start) =~= d);
        assert(all_dec_digits(d));
        lemma_dec_value_nonneg(d);
        assert(acc as int == -spec_dec_value(d));
    }
    if negative {
        proof {
            assert(spec_i64_sign(b@) == -1);
            assert(spec_dec_value(d) <= 0x8000_0000_0000_0000);
            assert(spec_i64_ok(b@));
        }
        acc
    } else if acc == i64::MIN {
        proof {
            assert(spec_dec_value(d) == 0x8000_0000_0000_0000);
            assert(!spec_i64_ok(b@));
        }
        0
    } else {
        proof {
            assert(spec_dec_value(d) < 0x8000_0000_0000_0000);
            assert(spec_i64_ok(b@));
        }
        -acc
    }
}

} // verus!
