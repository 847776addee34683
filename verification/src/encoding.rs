//! Hex encoding of byte strings: the mathematical definition, the call into
//! the `hex` crate, and facts about the all-zero buffer.

use vstd::prelude::*;

verus! {

/// The sixteen lowercase hex digit characters, in value order.
pub open spec fn hex_digits() -> Seq<char> {
    seq!['0', '1', '2', '3', '4', '5', '6', '7', '8', '9', 'a', 'b', 'c', 'd', 'e', 'f']
}

/// The lowercase hex digit standing for a value below sixteen.
pub open spec fn hex_digit(v: u8) -> char
    recommends
        v < 16,
{
    hex_digits()[v as int]
}

/// Lowercase hex encoding of a byte string: two digits per byte, high
/// nibble first.
pub open spec fn hex_of(bytes: Seq<u8>) -> Seq<char>
    decreases bytes.len(),
{
    if bytes.len() == 0 {
        Seq::empty()
    } else {
        seq![hex_digit(bytes.first() / 16), hex_digit(bytes.first() % 16)] + hex_of(
            bytes.drop_first(),
        )
    }
}

/// Relies on `hex::encode`: encodes bytes as lowercase hex, two digits per
/// byte, high nibble first, drawn from the digit table `0123456789abcdef`.
#[verifier::external_body]
pub(crate) fn encode_hex(bytes: &Vec<u8>) -> (r: String)
    ensures
        r@ == hex_of(bytes@),
{
    hex::encode(bytes)
}

/// The all-zero byte string of a given length.
pub open spec fn zero_bytes(n: nat) -> Seq<u8> {
    Seq::new(n, |i: int| 0u8)
}

/// The reference every stub proof carries: the hex encoding of its 32 zero
/// bytes.
pub open spec fn zero_reference() -> Seq<char> {
    hex_of(zero_bytes(32))
}

/// The hex encoding of an all-zero byte string is all `'0'` characters.
pub proof fn lemma_hex_of_zeros(n: nat)
    ensures
        hex_of(zero_bytes(n)).len() == 2 * n,
        forall|i: int| 0 <= i < 2 * n ==> hex_of(zero_bytes(n))[i] == '0',
    decreases n,
{
    if n > 0 {
        lemma_hex_of_zeros((n - 1) as nat);
        assert(zero_bytes(n).drop_first() =~= zero_bytes((n - 1) as nat));
        assert forall|i: int| 0 <= i < 2 * n implies hex_of(zero_bytes(n))[i] == '0' by {
            if i >= 2 {
                assert(hex_of(zero_bytes(n))[i] == hex_of(zero_bytes((n - 1) as nat))[i - 2]);
            }
        }
    }
}

/// The reference of a stub proof is the 64-character string of `'0'`s.
pub proof fn lemma_zero_reference_chars()
    ensures
        zero_reference().len() == 64,
        forall|i: int| 0 <= i < 64 ==> zero_reference()[i] == '0',
{
    lemma_hex_of_zeros(32);
}

} // verus!
