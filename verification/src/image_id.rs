use vstd::prelude::*;
use vstd::string::StringSliceAdditionalSpecFns;

verus! {

/// A byte that may appear in an image identifier: an ASCII letter or digit,
/// `-` or `_`.
pub open spec fn is_image_id_byte(b: u8) -> bool {
    (0x30 <= b && b <= 0x39) || (0x41 <= b && b <= 0x5a) || (0x61 <= b && b <= 0x7a)
        || b == 0x2d || b == 0x5f
}

/// An image identifier is safe to splice into a file name when it is
/// non-empty, at most 128 bytes long and made only of identifier bytes.
pub open spec fn valid_image_id_bytes(bytes: Seq<u8>) -> bool {
    &&& bytes.len() > 0
    &&& bytes.len() <= 128
    &&& forall|i: int| 0 <= i < bytes.len() ==> is_image_id_byte(#[trigger] bytes[i])
}

/// Checks that an image identifier cannot escape its directory when it is
/// used as `{image_id}.png`.
pub fn is_valid_image_id(image_id: &str) -> (ok: bool)
    ensures
        ok == valid_image_id_bytes(image_id.spec_bytes()),
{
    let bytes = image_id.as_bytes();
    if bytes.len() == 0 || bytes.len() > 128 {
        return false;
    }
    let mut i: usize = 0;
    while i < bytes.len()
        invariant
            bytes@ == image_id.spec_bytes(),
            0 < bytes@.len() <= 128,
            0 <= i <= bytes.len(),
            forall|j: int| 0 <= j < i ==> is_image_id_byte(#[trigger] bytes@[j]),
        decreases bytes.len() - i,
    {
        let b = bytes[i];
        if !((b >= 0x30 && b <= 0x39) || (b >= 0x41 && b <= 0x5a) || (b >= 0x61 && b <= 0x7a)
            || b == 0x2d || b == 0x5f) {
            return false;
        }
        i = i + 1;
    }
    true
}

} // verus!
