//! Arithmetic on words. The 256-bit operations are those of `primitive_types`;
//! what the machine adds to them (division by zero, signed operands, shifts
//! past the word) is decided here.

use vstd::prelude::*;
use vstd::arithmetic::power::pow;
use vstd::arithmetic::power2::pow2;
use primitive_types::{U256, U512};
use crate::word::{be_bytes, be_value, sign_threshold, word_modulus, Word};

verus! {

/// `U256::from_big_endian`: the number that the bytes denote in base 256, most significant byte
/// first. It panics on more than 32 bytes.
#[verifier::external_body]
fn uint_from_big_endian(bytes: &[u8]) -> (r: Word)
    requires
        bytes@.len() <= 32,
    ensures
        r@ == be_value(bytes@),
{
    let v = U256::from_big_endian(bytes);
    Word { l0: v.0[0], l1: v.0[1], l2: v.0[2], l3: v.0[3] }
}

/// `U256::to_big_endian`: the 32 base-256 digits of the number, most significant first.
#[verifier::external_body]
fn uint_to_big_endian(w: Word) -> (r: [u8; 32])
    ensures
        r@ == be_bytes(w@, 32),
{
    U256([w.l0, w.l1, w.l2, w.l3]).to_big_endian()
}

/// `U256::overflowing_add`: the sum modulo 2^256, and whether the sum reached 2^256.
#[verifier::external_body]
fn uint_overflowing_add(a: Word, b: Word) -> (r: (Word, bool))
    ensures
        r.0@ == (a@ + b@) % word_modulus(),
        r.1 == (a@ + b@ >= word_modulus()),
{
    let (v, o) = U256([a.l0, a.l1, a.l2, a.l3]).overflowing_add(U256([b.l0, b.l1, b.l2, b.l3]));
    (Word { l0: v.0[0], l1: v.0[1], l2: v.0[2], l3: v.0[3] }, o)
}

/// `U256::overflowing_sub`: the difference modulo 2^256, and whether it fell below zero.
#[verifier::external_body]
fn uint_overflowing_sub(a: Word, b: Word) -> (r: (Word, bool))
    ensures
        r.0@ == (a@ - b@) % (word_modulus() as int),
        r.1 == (a@ < b@),
{
    let (v, o) = U256([a.l0, a.l1, a.l2, a.l3]).overflowing_sub(U256([b.l0, b.l1, b.l2, b.l3]));
    (Word { l0: v.0[0], l1: v.0[1], l2: v.0[2], l3: v.0[3] }, o)
}

/// `U256::overflowing_mul`: the product modulo 2^256, and whether the product reached 2^256.
#[verifier::external_body]
fn uint_overflowing_mul(a: Word, b: Word) -> (r: (Word, bool))
    ensures
        r.0@ == (a@ * b@) % word_modulus(),
        r.1 == (a@ * b@ >= word_modulus()),
{
    let (v, o) = U256([a.l0, a.l1, a.l2, a.l3]).overflowing_mul(U256([b.l0, b.l1, b.l2, b.l3]));
    (Word { l0: v.0[0], l1: v.0[1], l2: v.0[2], l3: v.0[3] }, o)
}

/// `U256::div_mod`: quotient and remainder. It panics on a zero divisor.
#[verifier::external_body]
fn uint_div_mod(a: Word, b: Word) -> (r: (Word, Word))
    requires
        b@ != 0,
    ensures
        r.0@ == a@ / b@,
        r.1@ == a@ % b@,
{
    let (q, m) = U256([a.l0, a.l1, a.l2, a.l3]).div_mod(U256([b.l0, b.l1, b.l2, b.l3]));
    (
        Word { l0: q.0[0], l1: q.0[1], l2: q.0[2], l3: q.0[3] },
        Word { l0: m.0[0], l1: m.0[1], l2: m.0[2], l3: m.0[3] },
    )
}

/// `U256::overflowing_pow`: the power modulo 2^256.
#[verifier::external_body]
fn uint_overflowing_pow(a: Word, e: Word) -> (r: Word)
    ensures
        r@ == pow(a@ as int, e@) % (word_modulus() as int),
{
    let (v, _) = U256([a.l0, a.l1, a.l2, a.l3]).overflowing_pow(U256([e.l0, e.l1, e.l2, e.l3]));
    Word { l0: v.0[0], l1: v.0[1], l2: v.0[2], l3: v.0[3] }
}

/// `U256`'s `<<` by a bit count below 256: the product with that power of two, modulo 2^256.
#[verifier::external_body]
fn uint_shl(a: Word, shift: usize) -> (r: Word)
    requires
        shift < 256,
    ensures
        r@ == (a@ * pow2(shift as nat)) % word_modulus(),
{
    let v = U256([a.l0, a.l1, a.l2, a.l3]) << shift;
    Word { l0: v.0[0], l1: v.0[1], l2: v.0[2], l3: v.0[3] }
}

/// `U256`'s `>>` by a bit count below 256: the quotient by that power of two.
#[verifier::external_body]
fn uint_shr(a: Word, shift: usize) -> (r: Word)
    requires
        shift < 256,
    ensures
        r@ == a@ / pow2(shift as nat),
{
    let v = U256([a.l0, a.l1, a.l2, a.l3]) >> shift;
    Word { l0: v.0[0], l1: v.0[1], l2: v.0[2], l3: v.0[3] }
}

/// `U256::full_mul` and `U512`'s `%`: the remainder of the exact product. The remainder panics
/// on a zero divisor.
#[verifier::external_body]
fn uint_mul_mod(a: Word, b: Word, n: Word) -> (r: Word)
    requires
        n@ != 0,
    ensures
        r@ == (a@ * b@) % n@,
{
    let p = U256([a.l0, a.l1, a.l2, a.l3]).full_mul(U256([b.l0, b.l1, b.l2, b.l3]));
    let v = p % U512::from(U256([n.l0, n.l1, n.l2, n.l3]));
    Word { l0: v.0[0], l1: v.0[1], l2: v.0[2], l3: v.0[3] }
}

impl Word {
    /// The word that up to 32 bytes denote, most significant byte first.
    pub fn from_big_endian(bytes: &[u8]) -> (r: Word)
        requires
            bytes@.len() <= 32,
        ensures
            r@ == be_value(bytes@),
            r == Word::of(be_value(bytes@)),
    {
        let r = uint_from_big_endian(bytes);
        proof {
            r.lemma_of_view();
        }
        r
    }

    /// The 32 bytes of the word, most significant first.
    pub fn to_big_endian(self) -> (r: [u8; 32])
        ensures
            r@ == be_bytes(self@, 32),
            be_value(r@) == self@,
    {
        proof {
            crate::word::lemma_be_value_of_bytes(self@, 32);
            crate::word::lemma_pow256_32();
            vstd::arithmetic::div_mod::lemma_small_mod(self@, word_modulus());
        }
        uint_to_big_endian(self)
    }

    /// Addition modulo 2^256.
    pub fn wrapping_add(self, other: Word) -> (r: Word)
        ensures
            r@ == (self@ + other@) % word_modulus(),
            r == Word::of(self@ + other@),
    {
        let r = uint_overflowing_add(self, other).0;
        proof {
            r.lemma_of_unique((self@ + other@) as int);
        }
        r
    }

    /// The sum, where it is a word.
    pub fn checked_add(self, other: Word) -> (r: Option<Word>)
        ensures
            self@ + other@ < word_modulus() ==> r.is_some() && r.unwrap()@ == self@ + other@,
            self@ + other@ >= word_modulus() ==> r.is_none(),
    {
        let (v, o) = uint_overflowing_add(self, other);
        if o {
            None
        } else {
            proof {
                vstd::arithmetic::div_mod::lemma_small_mod(self@ + other@, word_modulus());
            }
            Some(v)
        }
    }

    /// Subtraction modulo 2^256.
    pub fn wrapping_sub(self, other: Word) -> (r: Word)
        ensures
            r@ == (self@ - other@) % (word_modulus() as int),
            r == Word::of_int(self@ - other@),
    {
        let r = uint_overflowing_sub(self, other).0;
        proof {
            r.lemma_of_unique(self@ - other@);
        }
        r
    }

    /// Multiplication modulo 2^256.
    pub fn wrapping_mul(self, other: Word) -> (r: Word)
        ensures
            r@ == (self@ * other@) % word_modulus(),
            r == Word::of(self@ * other@),
    {
        let r = uint_overflowing_mul(self, other).0;
        proof {
            r.lemma_of_unique((self@ * other@) as int);
        }
        r
    }

    /// The quotient, and zero for a zero divisor.
    pub fn div(self, other: Word) -> (r: Word)
        ensures
            r@ == if other@ == 0 {
                0
            } else {
                self@ / other@
            },
            r == Word::of(r@),
    {
        let r = if other.is_zero() {
            Word::zero()
        } else {
            uint_div_mod(self, other).0
        };
        proof {
            r.lemma_of_view();
        }
        r
    }

    /// The remainder, and zero for a zero divisor.
    pub fn rem(self, other: Word) -> (r: Word)
        ensures
            r@ == if other@ == 0 {
                0
            } else {
                self@ % other@
            },
            r == Word::of(r@),
    {
        let r = if other.is_zero() {
            Word::zero()
        } else {
            uint_div_mod(self, other).1
        };
        proof {
            r.lemma_of_view();
        }
        r
    }

    /// The remainder of the exact sum, and zero for a zero modulus.
    pub fn add_mod(self, other: Word, modulus: Word) -> (r: Word)
        ensures
            r@ == if modulus@ == 0 {
                0
            } else {
                (self@ + other@) % modulus@
            },
            r == Word::of(r@),
    {
        if modulus.is_zero() {
            return Word::zero();
        }
        let a = uint_div_mod(self, modulus).1;
        let b = uint_div_mod(other, modulus).1;
        let (sum, carry) = uint_overflowing_add(a, b);
        let r = if carry || !sum.lt(modulus) {
            sum.wrapping_sub(modulus)
        } else {
            sum
        };
        proof {
            let n = modulus@ as int;
            let m = word_modulus() as int;
            let t = (a@ + b@) as int;
            vstd::arithmetic::div_mod::lemma_mod_bound(self@ as int, n);
            vstd::arithmetic::div_mod::lemma_mod_bound(other@ as int, n);
            vstd::arithmetic::div_mod::lemma_add_mod_noop(self@ as int, other@ as int, n);
            modulus.lemma_bounded();
            if t < n {
                vstd::arithmetic::div_mod::lemma_small_mod(t as nat, m as nat);
                vstd::arithmetic::div_mod::lemma_small_mod(t as nat, n as nat);
            } else {
                vstd::arithmetic::div_mod::lemma_fundamental_div_mod_converse(t, n, 1, t - n);
                if carry {
                    vstd::arithmetic::div_mod::lemma_fundamental_div_mod_converse(t, m, 1, t - m);
                    vstd::arithmetic::div_mod::lemma_fundamental_div_mod_converse(
                        sum@ - n,
                        m,
                        -1,
                        t - n,
                    );
                } else {
                    vstd::arithmetic::div_mod::lemma_small_mod(t as nat, m as nat);
                    vstd::arithmetic::div_mod::lemma_small_mod((t - n) as nat, m as nat);
                }
            }
            r.lemma_of_view();
        }
        r
    }

    /// The remainder of the exact product, and zero for a zero modulus.
    pub fn mul_mod(self, other: Word, modulus: Word) -> (r: Word)
        ensures
            r@ == if modulus@ == 0 {
                0
            } else {
                (self@ * other@) % modulus@
            },
            r == Word::of(r@),
    {
        let r = if modulus.is_zero() {
            Word::zero()
        } else {
            uint_mul_mod(self, other, modulus)
        };
        proof {
            r.lemma_of_view();
        }
        r
    }

    /// The power modulo 2^256.
    pub fn wrapping_pow(self, exponent: Word) -> (r: Word)
        ensures
            r@ == pow(self@ as int, exponent@) % (word_modulus() as int),
            r == Word::of_int(pow(self@ as int, exponent@)),
    {
        let r = uint_overflowing_pow(self, exponent);
        proof {
            r.lemma_of_unique(pow(self@ as int, exponent@));
        }
        r
    }
}

/// The distance of `x` from zero.
pub open spec fn abs(x: int) -> int {
    if x < 0 {
        -x
    } else {
        x
    }
}

/// The quotient rounded towards zero, and zero for a zero divisor.
pub open spec fn trunc_div(a: int, b: int) -> int {
    if b == 0 {
        0
    } else if (a < 0) == (b < 0) {
        abs(a) / abs(b)
    } else {
        -(abs(a) / abs(b))
    }
}

/// The remainder that goes with `trunc_div`: it has the sign of the dividend.
pub open spec fn trunc_rem(a: int, b: int) -> int {
    if b == 0 {
        0
    } else if a < 0 {
        -(abs(a) % abs(b))
    } else {
        abs(a) % abs(b)
    }
}

/// The number `x` cut to its `8 * k + 8` low bits and read as two's complement of that width,
/// then written as two's complement of 256 bits.
pub open spec fn sign_extended(x: nat, k: nat) -> nat {
    let bits = 8 * k + 8;
    let low = x % pow2(bits);
    if low >= pow2((bits - 1) as nat) {
        (low + word_modulus() - pow2(bits)) as nat
    } else {
        low
    }
}

/// 2^256 and 2^255 as powers of two.
pub proof fn lemma_pow2_256()
    ensures
        pow2(256) == word_modulus(),
        pow2(255) == sign_threshold(),
{
    vstd::arithmetic::power2::lemma2_to64();
    vstd::arithmetic::power2::lemma_pow2_adds(64, 64);
    vstd::arithmetic::power2::lemma_pow2_adds(128, 127);
    vstd::arithmetic::power2::lemma_pow2_adds(64, 63);
    vstd::arithmetic::power2::lemma_pow2_adds(32, 31);
    vstd::arithmetic::power2::lemma_pow2_adds(255, 1);
    assert(pow2(63) == 0x8000000000000000nat);
    assert(pow2(128) == 0x100000000000000000000000000000000nat);
    assert(pow2(127) == 0x80000000000000000000000000000000nat);
    assert(pow2(255) == pow2(128) * pow2(127));
    assert(pow2(255) == 0x100000000000000000000000000000000nat
        * 0x80000000000000000000000000000000nat);
    assert(pow2(256) == pow2(255) * pow2(1));
}

/// Rounding a negative quotient down: `-x / d` is `-1 - (x - 1) / d` for positive `x` and `d`.
pub proof fn lemma_div_negative(x: int, d: int)
    requires
        0 < x,
        0 < d,
    ensures
        (-x) / d == -1 - (x - 1) / d,
{
    let q = (x - 1) / d;
    let r = (x - 1) % d;
    vstd::arithmetic::div_mod::lemma_fundamental_div_mod(x - 1, d);
    vstd::arithmetic::div_mod::lemma_mod_bound(x - 1, d);
    assert(-x == (-q - 1) * d + (d - 1 - r)) by (nonlinear_arith)
        requires
            x - 1 == d * q + r,
    ;
    vstd::arithmetic::div_mod::lemma_fundamental_div_mod_converse(-x, d, -q - 1, d - 1 - r);
}

impl Word {
    /// The word that denotes `i` modulo 2^256.
    pub open spec fn of_int(i: int) -> Word {
        Word::of((i % (word_modulus() as int)) as nat)
    }

    /// The only word that denotes `n` modulo 2^256 is the word of `n`.
    pub proof fn lemma_of_unique(self, n: int)
        requires
            self@ == n % (word_modulus() as int),
        ensures
            self == Word::of_int(n),
            n >= 0 ==> self == Word::of(n as nat),
    {
        self.lemma_of_view();
        if n >= 0 {
            Word::lemma_view_of(n as nat);
            Word::of(n as nat).lemma_view_injective(self);
        }
    }

    /// Every bit turned over.
    pub fn not(self) -> (r: Word)
        ensures
            r@ == word_modulus() - 1 - self@,
            r == (Word { l0: !self.l0, l1: !self.l1, l2: !self.l2, l3: !self.l3 }),
    {
        let a = self.l0;
        let b = self.l1;
        let c = self.l2;
        let d = self.l3;
        assert(!a == 0xffff_ffff_ffff_ffffu64 - a) by (bit_vector);
        assert(!b == 0xffff_ffff_ffff_ffffu64 - b) by (bit_vector);
        assert(!c == 0xffff_ffff_ffff_ffffu64 - c) by (bit_vector);
        assert(!d == 0xffff_ffff_ffff_ffffu64 - d) by (bit_vector);
        Word { l0: !a, l1: !b, l2: !c, l3: !d }
    }

    /// The bits that both words have.
    pub fn bitand(self, other: Word) -> (r: Word)
        ensures
            r == (Word {
                l0: self.l0 & other.l0,
                l1: self.l1 & other.l1,
                l2: self.l2 & other.l2,
                l3: self.l3 & other.l3,
            }),
    {
        Word {
            l0: self.l0 & other.l0,
            l1: self.l1 & other.l1,
            l2: self.l2 & other.l2,
            l3: self.l3 & other.l3,
        }
    }

    /// The bits that either word has.
    pub fn bitor(self, other: Word) -> (r: Word)
        ensures
            r == (Word {
                l0: self.l0 | other.l0,
                l1: self.l1 | other.l1,
                l2: self.l2 | other.l2,
                l3: self.l3 | other.l3,
            }),
    {
        Word {
            l0: self.l0 | other.l0,
            l1: self.l1 | other.l1,
            l2: self.l2 | other.l2,
            l3: self.l3 | other.l3,
        }
    }

    /// The bits that exactly one of the words has.
    pub fn bitxor(self, other: Word) -> (r: Word)
        ensures
            r == (Word {
                l0: self.l0 ^ other.l0,
                l1: self.l1 ^ other.l1,
                l2: self.l2 ^ other.l2,
                l3: self.l3 ^ other.l3,
            }),
    {
        Word {
            l0: self.l0 ^ other.l0,
            l1: self.l1 ^ other.l1,
            l2: self.l2 ^ other.l2,
            l3: self.l3 ^ other.l3,
        }
    }

    /// The two's-complement negative.
    pub fn negate(self) -> (r: Word)
        ensures
            r@ == (-(self@ as int)) % (word_modulus() as int),
            r == Word::of_int(-self.signed()),
    {
        let r = Word::zero().wrapping_sub(self);
        proof {
            let m = word_modulus() as int;
            if self@ >= sign_threshold() {
                vstd::arithmetic::div_mod::lemma_mod_multiples_vanish(1, -(self@ as int), m);
            }
            r.lemma_of_unique(-self.signed());
        }
        r
    }

    /// The distance from zero of the word read as two's complement.
    pub fn magnitude(self) -> (r: Word)
        ensures
            r@ == abs(self.signed()),
    {
        if self.is_negative() {
            let r = self.negate();
            proof {
                let m = word_modulus() as int;
                vstd::arithmetic::div_mod::lemma_fundamental_div_mod_converse(
                    -(self@ as int),
                    m,
                    -1,
                    m - self@,
                );
            }
            r
        } else {
            self
        }
    }

    /// Division of two's-complement numbers, rounded towards zero; zero for a zero divisor. The
    /// one quotient that is no two's-complement number, that of -2^255 by -1, comes out as
    /// -2^255.
    pub fn sdiv(self, other: Word) -> (r: Word)
        ensures
            r == Word::of_int(trunc_div(self.signed(), other.signed())),
    {
        if other.is_zero() {
            let r = Word::zero();
            proof {
                r.lemma_of_unique(0);
            }
            return r;
        }
        let q = uint_div_mod(self.magnitude(), other.magnitude()).0;
        if self.is_negative() != other.is_negative() {
            let r = q.negate();
            proof {
                r.lemma_of_unique(-(q@ as int));
            }
            r
        } else {
            proof {
                vstd::arithmetic::div_mod::lemma_small_mod(q@, word_modulus());
                q.lemma_of_unique(q@ as int);
            }
            q
        }
    }

    /// The remainder of the division of two's-complement numbers, with the sign of the
    /// dividend; zero for a zero divisor.
    pub fn smod(self, other: Word) -> (r: Word)
        ensures
            r == Word::of_int(trunc_rem(self.signed(), other.signed())),
    {
        if other.is_zero() {
            let r = Word::zero();
            proof {
                r.lemma_of_unique(0);
            }
            return r;
        }
        let m = uint_div_mod(self.magnitude(), other.magnitude()).1;
        if self.is_negative() {
            let r = m.negate();
            proof {
                r.lemma_of_unique(-(m@ as int));
            }
            r
        } else {
            proof {
                vstd::arithmetic::div_mod::lemma_small_mod(m@, word_modulus());
                m.lemma_of_unique(m@ as int);
            }
            m
        }
    }

    /// The word moved `shift` bits up; zero for a shift of 256 or more.
    pub fn shl(self, shift: Word) -> (r: Word)
        ensures
            r == Word::of(
                if shift@ >= 256 {
                    0
                } else {
                    self@ * pow2(shift@)
                },
            ),
    {
        match shift.to_usize() {
            Some(s) => {
                if s < 256 {
                    let r = uint_shl(self, s);
                    proof {
                        r.lemma_of_unique((self@ * pow2(s as nat)) as int);
                    }
                    return r;
                }
            },
            None => {},
        }
        Word::zero()
    }

    /// The word moved `shift` bits down; zero for a shift of 256 or more.
    pub fn shr(self, shift: Word) -> (r: Word)
        ensures
            r == Word::of(
                if shift@ >= 256 {
                    0
                } else {
                    self@ / pow2(shift@)
                },
            ),
    {
        match shift.to_usize() {
            Some(s) => {
                if s < 256 {
                    let r = uint_shr(self, s);
                    proof {
                        r.lemma_of_view();
                    }
                    return r;
                }
            },
            None => {},
        }
        Word::zero()
    }

    /// The two's-complement number divided by 2^`shift`, rounded down.
    pub fn sar_by(self, shift: usize) -> (r: Word)
        requires
            shift < 256,
        ensures
            r == Word::of_int(self.signed() / (pow2(shift as nat) as int)),
    {
        proof {
            vstd::arithmetic::power2::lemma_pow2_pos(shift as nat);
        }
        let ghost d = pow2(shift as nat) as int;
        let ghost m = word_modulus() as int;
        if self.is_negative() {
            let flipped = self.not();
            let moved = uint_shr(flipped, shift);
            let r = moved.not();
            proof {
                let x = m - self@;
                lemma_div_negative(x, d);
                assert(self.signed() / d == -1 - moved@);
                vstd::arithmetic::div_mod::lemma_fundamental_div_mod_converse(
                    -1 - moved@,
                    m,
                    -1,
                    m - 1 - moved@,
                );
                r.lemma_of_unique(self.signed() / d);
            }
            r
        } else {
            let r = uint_shr(self, shift);
            proof {
                vstd::arithmetic::div_mod::lemma_small_mod(r@, word_modulus());
                r.lemma_of_unique(self.signed() / d);
            }
            r
        }
    }

    /// The two's-complement number moved `shift` bits down, keeping its sign: for a shift of 256
    /// or more, -1 for a negative number and zero for any other.
    pub fn sar(self, shift: Word) -> (r: Word)
        ensures
            r == Word::of_int(
                if shift@ >= 256 {
                    if self.signed() < 0 {
                        -1
                    } else {
                        0
                    }
                } else {
                    self.signed() / (pow2(shift@) as int)
                },
            ),
    {
        match shift.to_usize() {
            Some(s) => {
                if s < 256 {
                    return self.sar_by(s);
                }
            },
            None => {},
        }
        if self.is_negative() {
            let r = Word::max_value();
            proof {
                let m = word_modulus() as int;
                vstd::arithmetic::div_mod::lemma_fundamental_div_mod_converse(-1, m, -1, m - 1);
                r.lemma_of_unique(-1);
            }
            r
        } else {
            let r = Word::zero();
            proof {
                r.lemma_of_unique(0);
            }
            r
        }
    }

    /// Byte number `index` of the word, counted from the most significant; zero for an index
    /// of 32 or more.
    pub fn byte(self, index: Word) -> (r: Word)
        ensures
            r == Word::of(
                if index@ >= 32 {
                    0
                } else {
                    be_bytes(self@, 32)[index@ as int] as nat
                },
            ),
    {
        match index.to_usize() {
            Some(i) => {
                if i < 32 {
                    let bytes = self.to_big_endian();
                    return Word::from_u64(bytes[i] as u64);
                }
            },
            None => {},
        }
        Word::zero()
    }

    /// The word cut to its `8 * k + 8` low bits and extended by the sign of that number; the
    /// word itself for a `k` of 31 or more.
    pub fn sign_extend(self, k: Word) -> (r: Word)
        ensures
            r == if k@ >= 31 {
                self
            } else {
                Word::of(sign_extended(self@, k@))
            },
    {
        match k.to_usize() {
            Some(kk) => {
                if kk < 31 {
                    let up: usize = 248 - 8 * kk;
                    let moved = uint_shl(self, up);
                    let r = moved.sar_by(up);
                    proof {
                        let bits = (8 * kk + 8) as nat;
                        let m = word_modulus() as int;
                        let d = pow2(up as nat) as int;
                        let c = pow2(bits) as int;
                        let half = pow2((bits - 1) as nat) as int;
                        let low = (self@ as int) % c;
                        lemma_pow2_256();
                        vstd::arithmetic::power2::lemma_pow2_pos(up as nat);
                        vstd::arithmetic::power2::lemma_pow2_pos(bits);
                        vstd::arithmetic::power2::lemma_pow2_pos((bits - 1) as nat);
                        vstd::arithmetic::power2::lemma_pow2_adds(up as nat, bits);
                        vstd::arithmetic::power2::lemma_pow2_adds(up as nat, (bits - 1) as nat);
                        assert(d * c == m);
                        assert(d * half == sign_threshold());
                        vstd::arithmetic::div_mod::lemma_truncate_middle(self@ as int, d, c);
                        vstd::arithmetic::div_mod::lemma_mod_bound(self@ as int, c);
                        assert(moved@ == d * low) by (nonlinear_arith)
                            requires
                                moved@ == (self@ * d) % m,
                                d * c == m,
                                (d * (self@ as int)) % (d * c) == d * low,
                        ;
                        assert((low >= half) == (moved@ >= sign_threshold())) by (nonlinear_arith)
                            requires
                                moved@ == d * low,
                                d * half == sign_threshold(),
                                d > 0,
                        ;
                        if low >= half {
                            assert(moved.signed() == d * (low - c)) by (nonlinear_arith)
                                requires
                                    moved.signed() == d * low - m,
                                    d * c == m,
                            ;
                            vstd::arithmetic::div_mod::lemma_div_multiples_vanish(low - c, d);
                            assert(moved.signed() / d == low - c);
                            assert(c <= m) by (nonlinear_arith)
                                requires
                                    d * c == m,
                                    d >= 1,
                                    c > 0,
                            ;
                            vstd::arithmetic::div_mod::lemma_fundamental_div_mod_converse(
                                low - c,
                                m,
                                -1,
                                low + m - c,
                            );
                            r.lemma_of_view();
                            Word::lemma_view_of((low + m - c) as nat);
                            Word::lemma_view_of(((low - c) % m) as nat);
                        } else {
                            vstd::arithmetic::div_mod::lemma_div_multiples_vanish(low, d);
                            assert(moved.signed() / d == low);
                            vstd::arithmetic::div_mod::lemma_small_mod(low as nat, m as nat);
                        }
                    }
                    return r;
                }
            },
            None => {},
        }
        self
    }
}

} // verus!
