//! The 256-bit machine word and the 160-bit account address.
//!
//! A [`Word`] is kept as four 64-bit limbs, least significant first. Its view
//! is the natural number it denotes, and every contract speaks of that number.

use vstd::prelude::*;

verus! {

/// 2^256, one more than the largest word.
pub open spec fn word_modulus() -> nat {
    0x10000000000000000000000000000000000000000000000000000000000000000nat
}

/// 2^255, the smallest number whose word is negative when read as two's complement.
pub open spec fn sign_threshold() -> nat {
    0x8000000000000000000000000000000000000000000000000000000000000000nat
}

/// 2^160, one more than the largest address.
pub open spec fn address_modulus() -> nat {
    0x10000000000000000000000000000000000000000nat
}

/// The number that the base-256 digits `bytes` denote, most significant digit first.
pub open spec fn be_value(bytes: Seq<u8>) -> nat
    decreases bytes.len(),
{
    if bytes.len() == 0 {
        0
    } else {
        be_value(bytes.drop_last()) * 256 + bytes.last() as nat
    }
}

/// The `len` least significant base-256 digits of `n`, most significant first.
pub open spec fn be_bytes(n: nat, len: nat) -> Seq<u8>
    decreases len,
{
    if len == 0 {
        Seq::empty()
    } else {
        be_bytes(n / 256, (len - 1) as nat).push((n % 256) as u8)
    }
}

/// 256 to the power `k`.
pub open spec fn pow256(k: nat) -> nat
    decreases k,
{
    if k == 0 {
        1
    } else {
        256 * pow256((k - 1) as nat)
    }
}

/// 256^32 is 2^256.
pub proof fn lemma_pow256_32()
    ensures
        pow256(32) == word_modulus(),
        pow256(20) == address_modulus(),
{
    assert(pow256(0) == 1);
    reveal_with_fuel(pow256, 2);
    assert(pow256(1) == 0x100nat);
    assert(pow256(2) == 0x10000nat);
    assert(pow256(3) == 0x1000000nat);
    assert(pow256(4) == 0x100000000nat);
    assert(pow256(5) == 0x10000000000nat);
    assert(pow256(6) == 0x1000000000000nat);
    assert(pow256(7) == 0x100000000000000nat);
    assert(pow256(8) == 0x10000000000000000nat);
    assert(pow256(9) == 0x1000000000000000000nat);
    assert(pow256(10) == 0x100000000000000000000nat);
    assert(pow256(11) == 0x10000000000000000000000nat);
    assert(pow256(12) == 0x1000000000000000000000000nat);
    assert(pow256(13) == 0x100000000000000000000000000nat);
    assert(pow256(14) == 0x10000000000000000000000000000nat);
    assert(pow256(15) == 0x1000000000000000000000000000000nat);
    assert(pow256(16) == 0x100000000000000000000000000000000nat);
    assert(pow256(17) == 0x10000000000000000000000000000000000nat);
    assert(pow256(18) == 0x1000000000000000000000000000000000000nat);
    assert(pow256(19) == 0x100000000000000000000000000000000000000nat);
    assert(pow256(20) == 0x10000000000000000000000000000000000000000nat);
    assert(pow256(21) == 0x1000000000000000000000000000000000000000000nat);
    assert(pow256(22) == 0x100000000000000000000000000000000000000000000nat);
    assert(pow256(23) == 0x10000000000000000000000000000000000000000000000nat);
    assert(pow256(24) == 0x1000000000000000000000000000000000000000000000000nat);
    assert(pow256(25) == 0x100000000000000000000000000000000000000000000000000nat);
    assert(pow256(26) == 0x10000000000000000000000000000000000000000000000000000nat);
    assert(pow256(27) == 0x1000000000000000000000000000000000000000000000000000000nat);
    assert(pow256(28) == 0x100000000000000000000000000000000000000000000000000000000nat);
    assert(pow256(29) == 0x10000000000000000000000000000000000000000000000000000000000nat);
    assert(pow256(30) == 0x1000000000000000000000000000000000000000000000000000000000000nat);
    assert(pow256(31) == 0x100000000000000000000000000000000000000000000000000000000000000nat);
    assert(pow256(32) == 0x10000000000000000000000000000000000000000000000000000000000000000nat);
}

/// `be_bytes` gives as many digits as it is asked for.
pub proof fn lemma_be_bytes_len(n: nat, len: nat)
    ensures
        be_bytes(n, len).len() == len,
    decreases len,
{
    if len > 0 {
        lemma_be_bytes_len(n / 256, (len - 1) as nat);
    }
}

/// The digits of a number denote that number, as far as they reach.
pub proof fn lemma_be_value_of_bytes(n: nat, len: nat)
    ensures
        be_value(be_bytes(n, len)) == n % pow256(len),
    decreases len,
{
    if len > 0 {
        let rest = be_bytes(n / 256, (len - 1) as nat);
        let last = (n % 256) as u8;
        lemma_be_value_of_bytes(n / 256, (len - 1) as nat);
        assert(be_bytes(n, len).drop_last() =~= rest);
        assert(be_bytes(n, len).last() == last);
        lemma_pow256_positive((len - 1) as nat);
        vstd::arithmetic::div_mod::lemma_breakdown(
            n as int,
            256,
            pow256((len - 1) as nat) as int,
        );
        assert(256 * pow256((len - 1) as nat) == pow256(len));
    }
}

/// The last `len` digits among the `skip + len` digits of a number are its `len` digits.
pub proof fn lemma_be_bytes_suffix(n: nat, skip: nat, len: nat)
    ensures
        be_bytes(n, skip + len).subrange(skip as int, (skip + len) as int) == be_bytes(n, len),
    decreases len,
{
    lemma_be_bytes_len(n, skip + len);
    if len == 0 {
        assert(be_bytes(n, skip + len).subrange(skip as int, (skip + len) as int) =~= be_bytes(
            n,
            len,
        ));
    } else {
        let shorter = be_bytes(n / 256, (skip + len - 1) as nat);
        lemma_be_bytes_suffix(n / 256, skip, (len - 1) as nat);
        lemma_be_bytes_len(n / 256, (skip + len - 1) as nat);
        lemma_be_bytes_len(n / 256, (len - 1) as nat);
        assert(be_bytes(n, skip + len) == shorter.push((n % 256) as u8));
        let whole = be_bytes(n, skip + len);
        assert(whole.subrange(skip as int, (skip + len) as int) =~= shorter.subrange(
            skip as int,
            (skip + len - 1) as int,
        ).push((n % 256) as u8));
    }
}

/// A power of 256 is positive.
pub proof fn lemma_pow256_positive(k: nat)
    ensures
        pow256(k) > 0,
    decreases k,
{
    if k > 0 {
        lemma_pow256_positive((k - 1) as nat);
    }
}

/// An unsigned 256-bit integer.
#[derive(Clone, Copy, PartialEq, Eq, Debug, Hash, Structural)]
pub struct Word {
    /// Bits 0 to 63.
    pub l0: u64,
    /// Bits 64 to 127.
    pub l1: u64,
    /// Bits 128 to 191.
    pub l2: u64,
    /// Bits 192 to 255.
    pub l3: u64,
}

impl View for Word {
    type V = nat;

    open spec fn view(&self) -> nat {
        (self.l0 as nat) + (self.l1 as nat) * 0x10000000000000000nat
            + (self.l2 as nat) * 0x100000000000000000000000000000000nat
            + (self.l3 as nat) * 0x1000000000000000000000000000000000000000000000000nat
    }
}

impl Word {
    /// The word that denotes `n` modulo 2^256.
    pub open spec fn of(n: nat) -> Word {
        Word {
            l0: (n % 0x10000000000000000nat) as u64,
            l1: ((n / 0x10000000000000000nat) % 0x10000000000000000nat) as u64,
            l2: (((n / 0x10000000000000000nat) / 0x10000000000000000nat)
                % 0x10000000000000000nat) as u64,
            l3: ((((n / 0x10000000000000000nat) / 0x10000000000000000nat)
                / 0x10000000000000000nat) % 0x10000000000000000nat) as u64,
        }
    }

    /// A word is the word of the number it denotes.
    pub proof fn lemma_of_view(self)
        ensures
            Word::of(self@) == self,
    {
        let b = 0x10000000000000000int;
        let x = self@ as int;
        let q0 = self.l1 as int + self.l2 as int * 0x10000000000000000int + self.l3 as int
            * 0x100000000000000000000000000000000int;
        let q1 = self.l2 as int + self.l3 as int * 0x10000000000000000int;
        let q2 = self.l3 as int;
        vstd::arithmetic::div_mod::lemma_fundamental_div_mod_converse(x, b, q0, self.l0 as int);
        vstd::arithmetic::div_mod::lemma_fundamental_div_mod_converse(q0, b, q1, self.l1 as int);
        vstd::arithmetic::div_mod::lemma_fundamental_div_mod_converse(q1, b, q2, self.l2 as int);
        vstd::arithmetic::div_mod::lemma_fundamental_div_mod_converse(q2, b, 0, self.l3 as int);
    }

    /// The word of a number denotes that number modulo 2^256.
    pub proof fn lemma_view_of(n: nat)
        ensures
            Word::of(n)@ == n % word_modulus(),
            n < word_modulus() ==> Word::of(n)@ == n,
    {
        let b = 0x10000000000000000int;
        let q0 = n as int / b;
        let q1 = q0 / b;
        let q2 = q1 / b;
        let q3 = q2 / b;
        vstd::arithmetic::div_mod::lemma_fundamental_div_mod(n as int, b);
        vstd::arithmetic::div_mod::lemma_fundamental_div_mod(q0, b);
        vstd::arithmetic::div_mod::lemma_fundamental_div_mod(q1, b);
        vstd::arithmetic::div_mod::lemma_fundamental_div_mod(q2, b);
        let w = Word::of(n);
        assert(w.l0 as int == n as int % b);
        assert(w.l1 as int == q0 % b);
        assert(w.l2 as int == q1 % b);
        assert(w.l3 as int == q2 % b);
        assert(q2 == b * q3 + w.l3 as int);
        assert(q1 == b * q2 + w.l2 as int);
        assert(q0 == b * q1 + w.l1 as int);
        assert(n as int == b * q0 + w.l0 as int);
        assert(n as int == q3 * (word_modulus() as int) + w@ as int);
        vstd::arithmetic::div_mod::lemma_fundamental_div_mod_converse(
            n as int,
            word_modulus() as int,
            q3,
            w@ as int,
        );
        if n < word_modulus() {
            vstd::arithmetic::div_mod::lemma_small_mod(n, word_modulus());
        }
    }

    /// The word read as a two's-complement number.
    pub open spec fn signed(self) -> int {
        if self@ < sign_threshold() {
            self@ as int
        } else {
            self@ - word_modulus()
        }
    }

    /// Every word denotes a number below 2^256.
    pub proof fn lemma_bounded(self)
        ensures
            self@ < word_modulus(),
    {
    }

    /// Two words that denote the same number are the same word.
    pub proof fn lemma_view_injective(self, other: Word)
        requires
            self@ == other@,
        ensures
            self == other,
    {
        self.lemma_of_view();
        other.lemma_of_view();
    }

    /// The word zero.
    pub fn zero() -> (r: Word)
        ensures
            r@ == 0,
            r == Word::of(0),
    {
        Word { l0: 0, l1: 0, l2: 0, l3: 0 }
    }

    /// The word one.
    pub fn one() -> (r: Word)
        ensures
            r@ == 1,
            r == Word::of(1),
    {
        Word { l0: 1, l1: 0, l2: 0, l3: 0 }
    }

    /// The largest word, 2^256 - 1.
    pub fn max_value() -> (r: Word)
        ensures
            r@ == word_modulus() - 1,
    {
        Word {
            l0: 0xffff_ffff_ffff_ffff,
            l1: 0xffff_ffff_ffff_ffff,
            l2: 0xffff_ffff_ffff_ffff,
            l3: 0xffff_ffff_ffff_ffff,
        }
    }

    /// The word of a 64-bit number.
    pub fn from_u64(v: u64) -> (r: Word)
        ensures
            r@ == v,
            r == Word::of(v as nat),
    {
        proof {
            (Word { l0: v, l1: 0, l2: 0, l3: 0 }).lemma_of_view();
        }
        Word { l0: v, l1: 0, l2: 0, l3: 0 }
    }

    /// The word of a length or an index.
    pub fn from_usize(v: usize) -> (r: Word)
        ensures
            r@ == v,
            r == Word::of(v as nat),
    {
        proof {
            (Word { l0: v as u64, l1: 0, l2: 0, l3: 0 }).lemma_of_view();
        }
        Word { l0: v as u64, l1: 0, l2: 0, l3: 0 }
    }

    /// One for true, zero for false.
    pub fn from_bool(b: bool) -> (r: Word)
        ensures
            r@ == if b { 1nat } else { 0nat },
            r == Word::of(if b { 1nat } else { 0nat }),
    {
        if b {
            Word::one()
        } else {
            Word::zero()
        }
    }

    /// Whether the word is zero.
    pub fn is_zero(self) -> (r: bool)
        ensures
            r == (self@ == 0),
    {
        self.l0 == 0 && self.l1 == 0 && self.l2 == 0 && self.l3 == 0
    }

    /// The word as an index, where it is small enough to be one.
    pub fn to_usize(self) -> (r: Option<usize>)
        ensures
            match r {
                Some(v) => v as nat == self@,
                None => self@ > usize::MAX as nat,
            },
    {
        if self.l1 != 0 || self.l2 != 0 || self.l3 != 0 || self.l0 > usize::MAX as u64 {
            None
        } else {
            Some(self.l0 as usize)
        }
    }

    /// The least significant byte.
    pub fn low_u8(self) -> (r: u8)
        ensures
            r as nat == self@ % 256,
    {
        let low: u64 = self.l0;
        let b: u64 = low & 0xff;
        assert(b == low % 256 && b < 256) by (bit_vector)
            requires
                b == low & 0xff,
        ;
        proof {
            let high: int = self.l1 as int * 0x100000000000000int + self.l2 as int
                * 0x1000000000000000000000000000000int + self.l3 as int
                * 0x10000000000000000000000000000000000000000000000int;
            assert(self@ == 256 * high + low as int);
            vstd::arithmetic::div_mod::lemma_mod_multiples_vanish(high, low as int, 256);
        }
        b as u8
    }

    /// Whether the word is less than `other`, both read as unsigned.
    pub fn lt(self, other: Word) -> (r: bool)
        ensures
            r == (self@ < other@),
    {
        if self.l3 != other.l3 {
            self.l3 < other.l3
        } else if self.l2 != other.l2 {
            self.l2 < other.l2
        } else if self.l1 != other.l1 {
            self.l1 < other.l1
        } else {
            self.l0 < other.l0
        }
    }

    /// Whether the word is greater than `other`, both read as unsigned.
    pub fn gt(self, other: Word) -> (r: bool)
        ensures
            r == (self@ > other@),
    {
        other.lt(self)
    }

    /// Whether the word is negative when read as two's complement.
    pub fn is_negative(self) -> (r: bool)
        ensures
            r == (self.signed() < 0),
            r == (self@ >= sign_threshold()),
    {
        self.l3 >= 0x8000_0000_0000_0000
    }

    /// Whether the word is less than `other`, both read as two's complement.
    pub fn slt(self, other: Word) -> (r: bool)
        ensures
            r == (self.signed() < other.signed()),
    {
        let a = self.is_negative();
        let b = other.is_negative();
        if a != b {
            a
        } else {
            self.lt(other)
        }
    }

    /// Whether the word is greater than `other`, both read as two's complement.
    pub fn sgt(self, other: Word) -> (r: bool)
        ensures
            r == (self.signed() > other.signed()),
    {
        other.slt(self)
    }
}

/// The address of an account: an unsigned 160-bit integer, kept as limbs, least significant
/// first.
#[derive(Clone, Copy, PartialEq, Eq, Debug, Hash, Structural)]
pub struct Address {
    /// Bits 0 to 63.
    pub l0: u64,
    /// Bits 64 to 127.
    pub l1: u64,
    /// Bits 128 to 159.
    pub l2: u32,
}

impl View for Address {
    type V = nat;

    open spec fn view(&self) -> nat {
        (self.l0 as nat) + (self.l1 as nat) * 0x10000000000000000nat + (self.l2 as nat)
            * 0x100000000000000000000000000000000nat
    }
}

impl Address {
    /// The address that denotes `n` modulo 2^160.
    pub open spec fn of(n: nat) -> Address {
        Address {
            l0: (n % 0x10000000000000000nat) as u64,
            l1: ((n / 0x10000000000000000nat) % 0x10000000000000000nat) as u64,
            l2: (((n / 0x10000000000000000nat) / 0x10000000000000000nat) % 0x100000000nat) as u32,
        }
    }

    /// An address is the address of the number it denotes.
    pub proof fn lemma_of_view(self)
        ensures
            Address::of(self@) == self,
    {
        let b = 0x10000000000000000int;
        let q0 = self.l1 as int + self.l2 as int * 0x10000000000000000int;
        vstd::arithmetic::div_mod::lemma_fundamental_div_mod_converse(
            self@ as int,
            b,
            q0,
            self.l0 as int,
        );
        vstd::arithmetic::div_mod::lemma_fundamental_div_mod_converse(
            q0,
            b,
            self.l2 as int,
            self.l1 as int,
        );
        vstd::arithmetic::div_mod::lemma_small_mod(self.l2 as nat, 0x100000000nat);
    }

    /// The address zero.
    pub fn zero() -> (r: Address)
        ensures
            r@ == 0,
    {
        Address { l0: 0, l1: 0, l2: 0 }
    }

    /// The word that denotes the same number.
    pub fn to_word(self) -> (r: Word)
        ensures
            r@ == self@,
            r == Word::of(self@),
    {
        let r = Word { l0: self.l0, l1: self.l1, l2: self.l2 as u64, l3: 0 };
        proof {
            r.lemma_of_view();
        }
        r
    }

    /// The 20 bytes of the address, most significant first.
    pub fn to_big_endian(self) -> (r: Vec<u8>)
        ensures
            r@ == be_bytes(self@, 20),
    {
        let bytes = self.to_word().to_big_endian();
        let mut r: Vec<u8> = Vec::new();
        let mut i: usize = 12;
        while i < 32
            invariant
                12 <= i <= 32,
                bytes@.len() == 32,
                r@ == bytes@.subrange(12, i as int),
            decreases 32 - i,
        {
            r.push(bytes[i]);
            assert(r@ =~= bytes@.subrange(12, i + 1));
            i = i + 1;
        }
        proof {
            lemma_be_bytes_suffix(self@, 12, 20);
        }
        r
    }

    /// The address in the 160 low bits of a word.
    pub fn from_word(w: Word) -> (r: Address)
        ensures
            r@ == w@ % address_modulus(),
            r == Address::of(w@ % address_modulus()),
    {
        let mid: u64 = w.l2;
        let low: u64 = mid & 0xffff_ffff;
        assert(low == mid % 0x1_0000_0000 && low < 0x1_0000_0000) by (bit_vector)
            requires
                low == mid & 0xffff_ffff,
        ;
        let r = Address { l0: w.l0, l1: w.l1, l2: low as u32 };
        proof {
            let high: int = mid as int / 0x100000000int + w.l3 as int * 0x100000000int;
            vstd::arithmetic::div_mod::lemma_fundamental_div_mod(mid as int, 0x100000000int);
            assert(w@ == high * address_modulus() + r@) by {
                assert(mid as int == 0x100000000int * (mid as int / 0x100000000int) + low as int);
            }
            vstd::arithmetic::div_mod::lemma_fundamental_div_mod_converse(
                w@ as int,
                address_modulus() as int,
                high,
                r@ as int,
            );
            r.lemma_of_view();
        }
        r
    }
}

} // verus!
