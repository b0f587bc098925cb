//! Byte-level helpers: decimal rendering, the commitment of a bid and the
//! schedule slot of a name.

use std::collections::hash_map::DefaultHasher;
use std::hash::Hasher;
use vstd::prelude::*;
use vstd::std_specs::hash::DefaultHasherAdditionalSpecFns;
use vstd::utf8::encode_utf8;

verus! {

/// Number of schedule slots; a name falls into exactly one of them.
pub const ELIGIBILITY_MODULUS: u64 = 52;

/// The ASCII decimal digits of `n`, most significant first, without leading
/// zeros (`0` is the single digit `"0"`).
pub open spec fn decimal_digits(n: nat) -> Seq<u8>
    decreases n,
{
    if n < 10 {
        seq![(48 + n) as u8]
    } else {
        decimal_digits(n / 10).push((48 + n % 10) as u8)
    }
}

/// Renders `n` in decimal.
pub fn decimal_bytes(n: u128) -> (out: Vec<u8>)
    ensures
        out@ == decimal_digits(n as nat),
{
    let mut low_first: Vec<u8> = Vec::new();
    let mut rest: u128 = n;
    while rest >= 10
        invariant
            decimal_digits(n as nat) == decimal_digits(rest as nat) + low_first@.reverse(),
        decreases rest,
    {
        let digit: u8 = (48 + rest % 10) as u8;
        proof {
            let before = low_first@;
            assert(before.push(digit).reverse() =~= seq![digit] + before.reverse());
            assert(decimal_digits(rest as nat) == decimal_digits((rest / 10) as nat).push(digit));
            assert(decimal_digits((rest / 10) as nat).push(digit) + before.reverse()
                =~= decimal_digits((rest / 10) as nat) + (seq![digit] + before.reverse()));
        }
        low_first.push(digit);
        rest = rest / 10;
    }
    let last: u8 = (48 + rest) as u8;
    proof {
        let before = low_first@;
        assert(before.push(last).reverse() =~= seq![last] + before.reverse());
    }
    low_first.push(last);
    let len: usize = low_first.len();
    let mut out: Vec<u8> = Vec::new();
    let mut i: usize = 0;
    while i < len
        invariant
            len == low_first@.len(),
            i <= len,
            out@ == low_first@.reverse().subrange(0, i as int),
        decreases len - i,
    {
        out.push(low_first[len - 1 - i]);
        i = i + 1;
        assert(out@ =~= low_first@.reverse().subrange(0, i as int));
    }
    assert(out@ =~= low_first@.reverse());
    out
}

/// What `bs58::encode(bytes).into_string()` holds, byte for byte, for the
/// input `bytes`: its Base58 text in the default (Bitcoin) alphabet.
pub uninterp spec fn base58_encoding(bytes: Seq<u8>) -> Seq<u8>;

/// Calls `bs58::encode(..).into_string()` on `bytes` and hands the text back
/// as bytes. The encoding is taken on trust from the `bs58` crate: the only
/// claim is that the result is the one value the encoder assigns to these
/// input bytes.
#[verifier::external_body]
fn base58(bytes: &Vec<u8>) -> (text: Vec<u8>)
    ensures
        text@ == base58_encoding(bytes@),
{
    bs58::encode(bytes).into_string().into_bytes()
}

/// The commitment that binds `amount` and `salt`: the Base58 text of the
/// decimal digits of `amount` followed by the UTF-8 bytes of `salt`.
pub open spec fn commitment_of(amount: u128, salt: Seq<char>) -> Seq<u8> {
    base58_encoding(decimal_digits(amount as nat) + encode_utf8(salt))
}

/// Computes the commitment for a bid of `amount` blinded with `salt`.
pub fn commitment(amount: u128, salt: &String) -> (out: Vec<u8>)
    ensures
        out@ == commitment_of(amount, salt@),
{
    let mut preimage: Vec<u8> = decimal_bytes(amount);
    let tail: &[u8] = salt.as_str().as_bytes();
    let ghost digits = preimage@;
    let mut i: usize = 0;
    while i < tail.len()
        invariant
            i <= tail@.len(),
            preimage@ == digits + tail@.subrange(0, i as int),
        decreases tail@.len() - i,
    {
        preimage.push(tail[i]);
        i = i + 1;
        assert(preimage@ =~= digits + tail@.subrange(0, i as int));
    }
    assert(preimage@ =~= digits + tail@);
    base58(&preimage)
}

/// Whether two byte strings are the same, byte for byte.
pub fn same_bytes(a: &Vec<u8>, b: &Vec<u8>) -> (same: bool)
    ensures
        same == (a@ == b@),
{
    if a.len() != b.len() {
        return false;
    }
    let mut i: usize = 0;
    while i < a.len()
        invariant
            a@.len() == b@.len(),
            i <= a@.len(),
            a@.subrange(0, i as int) == b@.subrange(0, i as int),
        decreases a@.len() - i,
    {
        if a[i] != b[i] {
            return false;
        }
        i = i + 1;
        assert(a@.subrange(0, i as int) =~= a@.subrange(0, i - 1).push(a@[i - 1]));
        assert(b@.subrange(0, i as int) =~= b@.subrange(0, i - 1).push(b@[i - 1]));
    }
    assert(a@ =~= a@.subrange(0, a@.len() as int));
    assert(b@ =~= b@.subrange(0, b@.len() as int));
    true
}

/// The 64-bit hash of a name: the standard library's default hasher fed the
/// UTF-8 bytes of the name in one write.
pub open spec fn stable_hash(name: Seq<char>) -> u64 {
    DefaultHasher::spec_finish(seq![encode_utf8(name)])
}

/// The schedule slot of a name: its hash reduced modulo the number of slots.
pub open spec fn slot_of(name: Seq<char>) -> u64 {
    (stable_hash(name) % ELIGIBILITY_MODULUS) as u64
}

/// Computes the schedule slot of `name`.
pub fn eligibility_slot(name: &String) -> (slot: u64)
    ensures
        slot == slot_of(name@),
        slot < ELIGIBILITY_MODULUS,
{
    let mut hasher: DefaultHasher = DefaultHasher::new();
    hasher.write(name.as_str().as_bytes());
    assert(hasher@ =~= seq![encode_utf8(name@)]);
    let hash: u64 = hasher.finish();
    hash % ELIGIBILITY_MODULUS
}

} // verus!
