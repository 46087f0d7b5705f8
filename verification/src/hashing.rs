use vstd::prelude::*;
use vstd::string::StringSliceAdditionalSpecFns;

verus! {

/// The SHA-256 digest of `data`, written as lower-case hexadecimal text.
pub uninterp spec fn sha256_hex(data: Seq<u8>) -> Seq<char>;

/// A lower-case hexadecimal digit.
pub open spec fn is_lower_hex(c: char) -> bool {
    ('0' <= c && c <= '9') || ('a' <= c && c <= 'f')
}

/// Computes SHA-256 with `sha2::Sha256::digest` and formats the digest with
/// `{:x}`. The digest is 32 bytes and the `LowerHex` impl of its array type
/// writes two lower-case hex digits per byte, so the text has 64 such digits.
/// Which digits they are is left to the name `sha256_hex`.
#[verifier::external_body]
pub(crate) fn sha256_hex_string(data: &[u8]) -> (r: String)
    ensures
        r@ == sha256_hex(data@),
        r@.len() == 64,
        forall|i: int| 0 <= i < r@.len() ==> is_lower_hex(#[trigger] r@[i]),
{
    format!("{:x}", <sha2::Sha256 as sha2::Digest>::digest(data))
}

/// The identifier of an application icon: the first sixteen hex digits of
/// the SHA-256 digest of its PNG bytes.
pub fn calculate_icon_hash(data: &[u8]) -> (r: String)
    ensures
        r@ == sha256_hex(data@).take(16),
        r@.len() == 16,
        forall|i: int| 0 <= i < r@.len() ==> is_lower_hex(#[trigger] r@[i]),
{
    let digest = sha256_hex_string(data);
    let cs = crate::text::chars_of(digest.as_str());
    let r = crate::text::string_of_range(cs.as_slice(), 0, 16);
    assert(r@ =~= sha256_hex(data@).take(16));
    r
}

/// The UTF-8 bytes of a string.
pub fn utf8_bytes(s: &str) -> (v: Vec<u8>)
    ensures
        v@ == s.spec_bytes(),
{
    let b = s.as_bytes();
    let mut v: Vec<u8> = Vec::new();
    let mut i: usize = 0;
    while i < b.len()
        invariant
            i <= b@.len(),
            v@ == b@.subrange(0, i as int),
        decreases b.len() - i,
    {
        v.push(b[i]);
        i = i + 1;
        assert(v@ =~= b@.subrange(0, i as int));
    }
    assert(b@.subrange(0, b@.len() as int) =~= b@);
    v
}

/// Appends `t` to `v`.
pub fn extend_bytes(v: &mut Vec<u8>, t: &[u8])
    ensures
        final(v)@ == old(v)@ + t@,
{
    let ghost start = v@;
    let mut i: usize = 0;
    while i < t.len()
        invariant
            i <= t@.len(),
            v@ == start + t@.subrange(0, i as int),
        decreases t.len() - i,
    {
        v.push(t[i]);
        i = i + 1;
        assert(v@ =~= start + t@.subrange(0, i as int));
    }
    assert(t@.subrange(0, t@.len() as int) =~= t@);
}

/// The SHA-256 hex digest of a text's UTF-8 bytes.
pub fn hash_plain_text(text: &str) -> (h: String)
    ensures
        h@ == sha256_hex(text.spec_bytes()),
{
    let b = text.as_bytes();
    sha256_hex_string(b)
}

} // verus!
