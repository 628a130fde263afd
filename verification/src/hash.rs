//! The Keccak-256 hash.

use vstd::prelude::*;
use sha3::Digest;
use crate::word::{address_modulus, be_bytes, be_value, Address, Word};

verus! {

/// The Keccak-256 digest of `data`, as `sha3::Keccak256` computes it: 32 bytes.
pub uninterp spec fn keccak256(data: Seq<u8>) -> Seq<u8>;

/// `sha3::Keccak256::digest`: the digest of the bytes, which is 32 bytes long.
#[verifier::external_body]
fn keccak256_digest(data: &[u8]) -> (r: Vec<u8>)
    ensures
        r@ == keccak256(data@),
        r@.len() == 32,
{
    sha3::Keccak256::digest(data).to_vec()
}

/// The Keccak-256 digest of `data`, read as one number, most significant byte first.
pub fn keccak_word(data: &[u8]) -> (r: Word)
    ensures
        r == Word::of(be_value(keccak256(data@))),
{
    let digest = keccak256_digest(data);
    Word::from_big_endian(digest.as_slice())
}

/// What is hashed to find the address of a contract that `CREATE2` makes: the byte `0xff`, the
/// 20 bytes of the creating account, the 32 bytes of the salt, and the 32 bytes of the hash of
/// the init code.
pub open spec fn create2_preimage(caller: Address, code_hash: Word, salt: Word) -> Seq<u8> {
    seq![0xffu8] + be_bytes(caller@, 20) + be_bytes(salt@, 32) + be_bytes(code_hash@, 32)
}

fn append(dst: &mut Vec<u8>, src: &[u8])
    ensures
        final(dst)@ == old(dst)@ + src@,
{
    let n: usize = src.len();
    let mut i: usize = 0;
    while i < n
        invariant
            i <= n,
            n == src@.len(),
            dst@ == old(dst)@ + src@.subrange(0, i as int),
        decreases n - i,
    {
        dst.push(src[i]);
        assert(dst@ =~= old(dst)@ + src@.subrange(0, i + 1));
        i = i + 1;
    }
    assert(src@.subrange(0, n as int) =~= src@);
}

/// The address of a contract that `CREATE2` makes: the 160 low bits of the Keccak-256 hash of
/// the byte `0xff`, the creating account, the salt and the hash of the init code.
pub fn create2_address(caller: Address, code_hash: Word, salt: Word) -> (r: Address)
    ensures
        r == Address::of(
            be_value(keccak256(create2_preimage(caller, code_hash, salt))) % address_modulus(),
        ),
{
    let mut preimage: Vec<u8> = Vec::new();
    preimage.push(0xffu8);
    assert(preimage@ =~= seq![0xffu8]);
    let from = caller.to_big_endian();
    append(&mut preimage, from.as_slice());
    let salted = salt.to_big_endian();
    append(&mut preimage, salted.as_slice());
    let hashed = code_hash.to_big_endian();
    append(&mut preimage, hashed.as_slice());
    let digest = keccak_word(preimage.as_slice());
    proof {
        let x = be_value(keccak256(preimage@));
        Word::lemma_view_of(x);
        assert(address_modulus() * 0x1000000000000000000000000nat == crate::word::word_modulus());
        vstd::arithmetic::div_mod::lemma_mod_mod(
            x as int,
            address_modulus() as int,
            0x1000000000000000000000000int,
        );
    }
    Address::from_word(digest)
}

} // verus!
