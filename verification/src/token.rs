//! Tokens: 128-bit values whose high-order 32 bits are a caller-chosen base
//! and whose remaining bits are per-allocation random entropy, laid out as a
//! version-8 UUID.
use vstd::prelude::*;
use rand::Rng;

verus! {

/// A 128-bit token.  Equality is full bitwise equality of `value`.
#[derive(Clone, Copy, PartialEq, Eq, Structural, Hash, Debug)]
pub struct Token {
    pub value: u128,
}

/// The base field of a raw token value: its high-order 32 bits.
pub open spec fn base_of(value: u128) -> u32 {
    (value >> 96) as u32
}

/// The reserved field of a freshly built token: the version nibble (the high
/// nibble of byte 6) reads 8 and the variant bits (the high bits of byte 8)
/// read the RFC 4122 pattern `10`.
pub open spec fn has_v8_marks(value: u128) -> bool {
    (value >> 76) & 0xf == 8 && (value >> 62) & 0x3 == 2
}

impl Token {
    /// The base field of this token.
    pub open spec fn base_spec(&self) -> u32 {
        base_of(self.value)
    }

    /// Extracts the caller-chosen base from the token's high-order 32 bits.
    pub fn base(&self) -> (r: u32)
        ensures
            r == self.base_spec(),
    {
        (self.value >> 96) as u32
    }
}

/// Relies on `rand::rng` and `rand::Rng::random_range`: one byte drawn from the
/// thread-local generator.  Nothing is promised of the value.
#[verifier::external_body]
fn random_byte() -> u8 {
    rand::rng().random_range(0..=255)
}

/// Relies on `uuid::Uuid::new_v8` and `uuid::Uuid::as_u128`: the supplied bits
/// come back unchanged except that the version nibble (the high nibble of byte
/// 6) is set to 8 and the two variant bits (the high bits of byte 8) are set
/// to the RFC 4122 pattern `10`.
#[verifier::external_body]
fn new_v8_value(x: u128) -> (r: u128)
    ensures
        r >> 80 == x >> 80,
        (r >> 72) & 0xff == ((x >> 72) & 0x0f) | 0x80,
        (r >> 64) & 0xff == (x >> 64) & 0xff,
        (r >> 56) & 0xff == ((x >> 56) & 0x3f) | 0x80,
        r & 0xff_ffff_ffff_ffff == x & 0xff_ffff_ffff_ffff,
{
    uuid::Uuid::new_v8(x.to_be_bytes()).as_u128()
}

/// Builds a fresh candidate token: `base` in the high-order 32 bits, 96 random
/// bits below, then the version-8 layout applied.  The version and variant
/// bits land inside the entropy field, so the base always survives intact.
pub fn make_uuid_with_base(base: u32) -> (r: Token)
    ensures
        r.base_spec() == base,
        has_v8_marks(r.value),
{
    let mut x: u128 = (base as u128) << 96;
    proof {
        assert((((base as u128) << 96) >> 96) == base as u128) by (bit_vector);
    }
    let mut i: usize = 0;
    while i < 12
        invariant
            x >> 96 == base as u128,
            i <= 12,
        decreases 12 - i,
    {
        let b = random_byte();
        let shift: usize = 8 * (11 - i);
        let bits: u128 = (b as u128) << shift;
        proof {
            let xv = x;
            let bv = b;
            let sh = shift;
            assert((xv | ((bv as u128) << (sh as u128))) >> 96 == xv >> 96) by (bit_vector)
                requires
                    sh <= 88,
            ;
        }
        x = x | bits;
        i = i + 1;
    }
    let v = new_v8_value(x);
    proof {
        let xv = x;
        assert(v >> 80 == xv >> 80 ==> v >> 96 == xv >> 96) by (bit_vector);
        assert(xv >> 96 == base as u128 ==> (xv >> 96) as u32 == base) by (bit_vector);
        assert((v >> 72) & 0xff == ((xv >> 72) & 0x0f) | 0x80 ==> (v >> 76) & 0xf == 8)
            by (bit_vector);
        assert((v >> 56) & 0xff == ((xv >> 56) & 0x3f) | 0x80 ==> (v >> 62) & 0x3 == 2)
            by (bit_vector);
    }
    Token { value: v }
}

} // verus!
