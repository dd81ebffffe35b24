//! Calls into std and into outside crates, each with the contract that its
//! documentation and source give it.
use vstd::prelude::*;
use vstd::utf8::encode_utf8;
use crate::text::printable_ascii;

verus! {

/// `String::from_iter` over chars: the string made of exactly these chars.
#[verifier::external_body]
pub(crate) fn string_from_chars(chars: &Vec<char>) -> (r: String)
    ensures
        r@ == chars@,
{
    String::from_iter(chars.iter())
}

/// What `str::to_lowercase` makes of a text: its Unicode lower-case form,
/// with std's context rules (such as the final sigma) and mappings of one
/// char to several.
pub uninterp spec fn lowercased(s: Seq<char>) -> Seq<char>;

/// `str::to_lowercase`; the contract names its result and says nothing more
/// of it.
pub assume_specification[ str::to_lowercase ](s: &str) -> (r: String)
    ensures
        r@ == lowercased(s@),
;

/// The MD5 digest of a byte string, as `md5::Md5::digest` computes it.
pub uninterp spec fn md5_digest(data: Seq<u8>) -> Seq<u8>;

/// `md5::Md5::digest` (through `digest::Digest`): the 16 bytes of the MD5
/// digest of `data`. The digest itself is only named, not stated.
#[verifier::external_body]
pub(crate) fn md5(data: &[u8]) -> (r: Vec<u8>)
    ensures
        r@ == md5_digest(data@),
        r@.len() == 16,
{
    <md5::Md5 as md5::Digest>::digest(data).to_vec()
}

/// The instant that an RFC 3339 date and time names, as chrono parses it:
/// whole seconds since the Unix epoch and the nanoseconds past them, or
/// `None` where the text is not one.
pub uninterp spec fn rfc3339_instant(s: Seq<char>) -> Option<(i64, u32)>;

/// `chrono::DateTime::parse_from_rfc3339`, then `to_utc`, `timestamp` and
/// `timestamp_subsec_nanos`: the instant that an RFC 3339 text names, or
/// `None` where chrono refuses the text. The parse itself is only named.
#[verifier::external_body]
pub(crate) fn parse_rfc3339(s: &str) -> (r: Option<(i64, u32)>)
    ensures
        r == rfc3339_instant(s@),
{
    match chrono::DateTime::parse_from_rfc3339(s) {
        Ok(d) => {
            let utc = d.to_utc();
            Some((utc.timestamp(), utc.timestamp_subsec_nanos()))
        },
        Err(_) => None,
    }
}

#[verifier::external_type_specification]
#[verifier::external_body]
pub struct ExPwhashError(pwhash::error::Error);

/// Whether `pwhash::bcrypt::verify` accepts a password, given as its UTF-8
/// bytes, against a stored hash.
pub uninterp spec fn bcrypt_accepts(password: Seq<u8>, hash: Seq<char>) -> bool;

/// A char of bcrypt's base-64 alphabet.
pub open spec fn bcrypt_base64_char(c: char) -> bool {
    c == '.' || c == '/' || ('A' <= c <= 'Z') || ('a' <= c <= 'z') || ('0' <= c <= '9')
}

/// The form of the hashes that `pwhash::bcrypt::hash` makes: `$2b$10$`
/// (variant and default cost), then 22 chars of salt and 31 of checksum in
/// bcrypt's base-64 alphabet.
pub open spec fn bcrypt_shaped(h: Seq<char>) -> bool {
    &&& h.len() == 60
    &&& h.take(7) == "$2b$10$"@
    &&& forall|i: int| 7 <= i < 60 ==> bcrypt_base64_char(#[trigger] h[i])
}

/// `pwhash::bcrypt::hash`: a bcrypt hash of the password with a fresh
/// random salt. It always gives `Ok`: the salt is drawn with `OsRng.fill`,
/// which panics rather than return an error, and `do_bcrypt` ends in `Ok`.
/// Which hash comes back is left open; what is stated is its form, and that
/// `pwhash::bcrypt::verify` accepts the same password against it, since
/// verifying re-hashes the password with the salt and cost that the hash
/// carries.
#[verifier::external_body]
pub(crate) fn bcrypt_hash(password: &str) -> (r: Result<String, pwhash::error::Error>)
    ensures
        r is Ok,
        r matches Ok(h) ==> bcrypt_accepts(encode_utf8(password@), h@) && bcrypt_shaped(h@),
{
    pwhash::bcrypt::hash(password)
}

/// `pwhash::bcrypt::verify`: whether the password matches the stored hash.
/// The check itself is only named. The salt decoder indexes a table by
/// `char - 0x20` and fails on chars outside U+0020..U+007F, so the hash must
/// be printable ASCII.
#[verifier::external_body]
pub(crate) fn bcrypt_verify(password: &str, hash: &str) -> (r: bool)
    requires
        printable_ascii(hash@),
    ensures
        r == bcrypt_accepts(encode_utf8(password@), hash@),
{
    pwhash::bcrypt::verify(password, hash)
}

/// A hash of the form that `pwhash::bcrypt::hash` makes is printable ASCII,
/// so `pwhash::bcrypt::verify` can read it.
pub proof fn lemma_bcrypt_shaped_printable(h: Seq<char>)
    requires
        bcrypt_shaped(h),
    ensures
        printable_ascii(h),
{
    reveal_strlit("$2b$10$");
    assert forall|i: int| 0 <= i < h.len() implies ' ' <= #[trigger] h[i] && h[i] <= '\u{7f}' by {
        if i < 7 {
            assert(h[i] == h.take(7)[i]);
        } else {
            assert(bcrypt_base64_char(h[i]));
        }
    }
}

} // verus!
