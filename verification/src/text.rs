//! Trusted bindings to the text transformations the validators need:
//! UTF-8 decoding, Unicode lower-casing, and NFC normalization.

use unicode_normalization::UnicodeNormalization;
use vstd::prelude::*;

verus! {

/// The Unicode lower-case form of a character sequence.  `str::to_lowercase`
/// computes it from the characters alone, the same way on every machine.
pub uninterp spec fn lower_of(s: Seq<char>) -> Seq<char>;

/// The NFC (canonical composition) normal form of a character sequence.
/// `unicode_normalization`'s `nfc` computes it from the characters alone,
/// the same way on every machine.
pub uninterp spec fn nfc_of(s: Seq<char>) -> Seq<char>;

/// Relies on `String::from_utf8`: it succeeds exactly on valid UTF-8 input
/// and then decodes it, as `vstd::utf8` specifies decoding.
#[verifier::external_body]
pub fn utf8_decode(v: &[u8]) -> (r: Option<String>)
    ensures
        r is Some <==> vstd::utf8::valid_utf8(v@),
        r matches Some(s) ==> s@ == vstd::utf8::decode_utf8(v@),
{
    match std::string::String::from_utf8(v.to_vec()) {
        Ok(s) => Some(s),
        Err(_) => None,
    }
}

/// Build a `String` from bytes that all lie below code point 128; each byte
/// becomes the character of the same value.
pub fn ascii_to_string(v: &[u8]) -> (s: String)
    requires
        forall|i: int| 0 <= i < v@.len() ==> v@[i] < 128,
    ensures
        s@ == v@.map_values(|b: u8| b as char),
{
    proof {
        let chars = v@.map_values(|b: u8| b as char);
        assert(vstd::utf8::is_ascii_chars(chars)) by {
            assert forall|i: int| 0 <= i < chars.len() implies '\0' <= #[trigger] chars[i]
                <= '\u{7f}' by {
                assert(v@[i] < 128);
            }
        }
        vstd::utf8::is_ascii_chars_encode_utf8(chars);
        assert(vstd::utf8::encode_utf8(chars) =~= v@);
        vstd::utf8::encode_utf8_valid_utf8(chars);
        vstd::utf8::encode_utf8_decode_utf8(chars);
        assert(vstd::utf8::valid_utf8(v@));
        assert(vstd::utf8::decode_utf8(v@) == chars);
    }
    match utf8_decode(v) {
        Some(s) => s,
        None => {
            proof {
                assert(false);
            }
            String::new()
        },
    }
}

/// Relies on `str::to_lowercase`: the Unicode lower-case form of the string.
#[verifier::external_body]
pub fn lowercase(s: &str) -> (r: String)
    ensures
        r@ == lower_of(s@),
{
    s.to_lowercase()
}

/// Relies on `unicode_normalization::UnicodeNormalization::nfc`: the NFC
/// normal form of the string.
#[verifier::external_body]
pub fn nfc_normalize(s: &str) -> (r: String)
    ensures
        r@ == nfc_of(s@),
{
    s.nfc().collect::<std::string::String>()
}

} // verus!
