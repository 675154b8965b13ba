//! The fixed group parameters, written in hexadecimal.

use vstd::prelude::*;
use vstd::pervasive::unreached;
use crate::foreign::{decode_hex, hex_bytes, is_hex_text};
use crate::natural::{be_value, Natural};

verus! {

/// The number that a hexadecimal text spells.
pub open spec fn hex_value(s: Seq<char>) -> nat {
    be_value(hex_bytes(s))
}

/// The number that `text` spells in hexadecimal, where it is made of an even
/// number of hexadecimal digits.
pub fn natural_from_hex(text: &str) -> (r: Option<Natural>)
    ensures
        r is Some == is_hex_text(text@),
        r is Some ==> r->Some_0@ == hex_value(text@),
{
    match decode_hex(text) {
        Ok(bytes) => Some(Natural::from_bytes_be(bytes.as_slice())),
        Err(_) => None,
    }
}

/// The number that one of the fixed texts spells.
pub(crate) fn fixed_natural(text: &str) -> (r: Natural)
    requires
        is_hex_text(text@),
    ensures
        r@ == hex_value(text@),
{
    match natural_from_hex(text) {
        Some(v) => v,
        None => unreached(),
    }
}

/// The digits of the modulus `p`.
pub open spec fn modulus_hex() -> Seq<char> {
    "B10B8F96A080E01DDE92DE5EAE5D54EC52C99FBCFB06A3C69A6A9DCA52D23B616073E28675A23D189838EF1E2EE652C013ECB4AEA906112324975C3CD49B83BFACCBDD7D90C4BD7098488E9C219A73724EFFD6FAE5644738FAA31A4FF55BCCC0A151AF5F0DC8B4BD45BF37DF365C1A65E68CFDA76D4DA708DF1FB2BC2E4A4371"@
}

/// The digits of the modulus `p`, as a string. The last byte that they spell is `0x71`.
pub fn modulus_text() -> (r: &'static str)
    ensures
        r@ == modulus_hex(),
        is_hex_text(r@),
        hex_bytes(r@).len() == 128,
        hex_bytes(r@).last() == 113,
{
    proof {
        reveal_strlit("B10B8F96A080E01DDE92DE5EAE5D54EC52C99FBCFB06A3C69A6A9DCA52D23B616073E28675A23D189838EF1E2EE652C013ECB4AEA906112324975C3CD49B83BFACCBDD7D90C4BD7098488E9C219A73724EFFD6FAE5644738FAA31A4FF55BCCC0A151AF5F0DC8B4BD45BF37DF365C1A65E68CFDA76D4DA708DF1FB2BC2E4A4371");
    }
    "B10B8F96A080E01DDE92DE5EAE5D54EC52C99FBCFB06A3C69A6A9DCA52D23B616073E28675A23D189838EF1E2EE652C013ECB4AEA906112324975C3CD49B83BFACCBDD7D90C4BD7098488E9C219A73724EFFD6FAE5644738FAA31A4FF55BCCC0A151AF5F0DC8B4BD45BF37DF365C1A65E68CFDA76D4DA708DF1FB2BC2E4A4371"
}

/// The digits of the order `q` of the subgroup.
pub open spec fn order_hex() -> Seq<char> {
    "F518AA8781A8DF278ABA4E7D64B7CB9D49462353"@
}

/// The digits of the order `q` of the subgroup, as a string. The last byte that they spell is `0x53`.
pub fn order_text() -> (r: &'static str)
    ensures
        r@ == order_hex(),
        is_hex_text(r@),
        hex_bytes(r@).len() == 20,
        hex_bytes(r@).last() == 83,
{
    proof {
        reveal_strlit("F518AA8781A8DF278ABA4E7D64B7CB9D49462353");
    }
    "F518AA8781A8DF278ABA4E7D64B7CB9D49462353"
}

/// The digits of the generator `alpha`.
pub open spec fn generator_hex() -> Seq<char> {
    "A4D1CBD5C3FD34126765A442EFB99905F8104DD258AC507FD6406CFF14266D31266FEA1E5C41564B777E690F5504F213160217B4B01B886A5E91547F9E2749F4D7FBD7D3B9A92EE1909D0D2263F80A76A6A24C087A091F531DBF0A0169B6A28AD662A4D18E73AFA32D779D5918D08BC8858F4DCEF97C2A24855E6EEB22B3B2E5"@
}

/// The digits of the generator `alpha`, as a string. The last byte that they spell is `0xE5`.
pub fn generator_text() -> (r: &'static str)
    ensures
        r@ == generator_hex(),
        is_hex_text(r@),
        hex_bytes(r@).len() == 128,
        hex_bytes(r@).last() == 229,
{
    proof {
        reveal_strlit("A4D1CBD5C3FD34126765A442EFB99905F8104DD258AC507FD6406CFF14266D31266FEA1E5C41564B777E690F5504F213160217B4B01B886A5E91547F9E2749F4D7FBD7D3B9A92EE1909D0D2263F80A76A6A24C087A091F531DBF0A0169B6A28AD662A4D18E73AFA32D779D5918D08BC8858F4DCEF97C2A24855E6EEB22B3B2E5");
    }
    "A4D1CBD5C3FD34126765A442EFB99905F8104DD258AC507FD6406CFF14266D31266FEA1E5C41564B777E690F5504F213160217B4B01B886A5E91547F9E2749F4D7FBD7D3B9A92EE1909D0D2263F80A76A6A24C087A091F531DBF0A0169B6A28AD662A4D18E73AFA32D779D5918D08BC8858F4DCEF97C2A24855E6EEB22B3B2E5"
}

/// The digits of the exponent that takes `alpha` to `beta`.
pub open spec fn trapdoor_hex() -> Seq<char> {
    "266FEA1E5C41564B777E69"@
}

/// The digits of the exponent that takes `alpha` to `beta`, as a string. The last byte that they spell is `0x69`.
pub fn trapdoor_text() -> (r: &'static str)
    ensures
        r@ == trapdoor_hex(),
        is_hex_text(r@),
        hex_bytes(r@).len() == 11,
        hex_bytes(r@).last() == 105,
{
    proof {
        reveal_strlit("266FEA1E5C41564B777E69");
    }
    "266FEA1E5C41564B777E69"
}

} // verus!
