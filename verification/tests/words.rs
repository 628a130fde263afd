use evm::eval::{binary, ternary, unary};
use evm::hash::{create2_address, keccak_word};
use evm::opcode::Opcode;
use evm::word::{Address, Word};

fn w(v: u64) -> Word {
    Word::from_u64(v)
}

fn min_word() -> Word {
    Word { l0: 0, l1: 0, l2: 0, l3: 0x8000_0000_0000_0000 }
}

fn minus(v: u64) -> Word {
    Word::zero().wrapping_sub(w(v))
}

#[test]
fn big_endian_bytes_round_trip() {
    let v = Word { l0: 0x0807060504030201, l1: 0x100f0e0d0c0b0a09, l2: 0x1817161514131211, l3: 0x201f1e1d1c1b1a19 };
    let bytes = v.to_big_endian();
    let expected: Vec<u8> = (1..=32u8).rev().collect();
    assert_eq!(bytes.to_vec(), expected);
    assert_eq!(Word::from_big_endian(&bytes), v);
    assert_eq!(Word::from_big_endian(&[0x01, 0x02]), w(0x0102));
    assert_eq!(Word::from_big_endian(&[]), Word::zero());
}

#[test]
fn addition_wraps() {
    assert_eq!(w(5).wrapping_add(w(7)), w(12));
    assert_eq!(Word::max_value().wrapping_add(w(1)), Word::zero());
    assert_eq!(Word::max_value().wrapping_add(w(3)), w(2));
    assert_eq!(Word::max_value().checked_add(w(1)), None);
    assert_eq!(w(1).checked_add(w(2)), Some(w(3)));
    assert_eq!(
        Word { l0: u64::MAX, l1: 0, l2: 0, l3: 0 }.wrapping_add(w(1)),
        Word { l0: 0, l1: 1, l2: 0, l3: 0 }
    );
}

#[test]
fn subtraction_wraps() {
    assert_eq!(w(7).wrapping_sub(w(5)), w(2));
    assert_eq!(Word::zero().wrapping_sub(w(1)), Word::max_value());
}

#[test]
fn multiplication_wraps() {
    assert_eq!(w(6).wrapping_mul(w(7)), w(42));
    assert_eq!(min_word().wrapping_mul(w(2)), Word::zero());
    assert_eq!(
        Word { l0: 0, l1: 1, l2: 0, l3: 0 }.wrapping_mul(Word { l0: 0, l1: 1, l2: 0, l3: 0 }),
        Word { l0: 0, l1: 0, l2: 1, l3: 0 }
    );
}

#[test]
fn division_by_zero_is_zero() {
    assert_eq!(w(7).div(Word::zero()), Word::zero());
    assert_eq!(w(7).rem(Word::zero()), Word::zero());
    assert_eq!(w(7).add_mod(w(9), Word::zero()), Word::zero());
    assert_eq!(w(7).mul_mod(w(9), Word::zero()), Word::zero());
    assert_eq!(binary(Opcode::Div, Word::max_value(), Word::zero()), Word::zero());
    assert_eq!(binary(Opcode::Mod, Word::max_value(), Word::zero()), Word::zero());
    assert_eq!(binary(Opcode::SDiv, minus(5), Word::zero()), Word::zero());
    assert_eq!(binary(Opcode::SMod, minus(5), Word::zero()), Word::zero());
    assert_eq!(ternary(Opcode::AddMod, w(1), w(2), Word::zero()), Word::zero());
    assert_eq!(ternary(Opcode::MulMod, w(1), w(2), Word::zero()), Word::zero());
}

#[test]
fn division_and_remainder() {
    assert_eq!(w(17).div(w(5)), w(3));
    assert_eq!(w(17).rem(w(5)), w(2));
    assert_eq!(Word::max_value().div(Word::max_value()), w(1));
    assert_eq!(Word::max_value().rem(w(16)), w(15));
}

#[test]
fn modular_sum_and_product_are_exact() {
    // The sum and the product do not fit in a word.
    assert_eq!(Word::max_value().add_mod(w(2), w(7)), w((1 + 2) % 7));
    assert_eq!(Word::max_value().add_mod(Word::max_value(), Word::max_value()), Word::zero());
    assert_eq!(Word::max_value().mul_mod(Word::max_value(), w(12)), w(9));
    assert_eq!(w(10).add_mod(w(10), w(8)), w(4));
    assert_eq!(w(10).mul_mod(w(10), w(8)), w(4));
}

#[test]
fn power_wraps() {
    assert_eq!(w(2).wrapping_pow(w(10)), w(1024));
    assert_eq!(w(2).wrapping_pow(w(255)), min_word());
    assert_eq!(w(2).wrapping_pow(w(256)), Word::zero());
    assert_eq!(w(0).wrapping_pow(w(0)), w(1));
    assert_eq!(w(3).wrapping_pow(w(1)), w(3));
}

#[test]
fn signed_division_rounds_towards_zero() {
    assert_eq!(minus(7).sdiv(w(2)), minus(3));
    assert_eq!(w(7).sdiv(minus(2)), minus(3));
    assert_eq!(minus(7).sdiv(minus(2)), w(3));
    assert_eq!(minus(7).smod(w(2)), minus(1));
    assert_eq!(w(7).smod(minus(2)), w(1));
    assert_eq!(minus(8).smod(minus(3)), minus(2));
}

#[test]
fn signed_division_of_the_least_number_by_minus_one() {
    assert_eq!(min_word().sdiv(minus(1)), min_word());
    assert_eq!(binary(Opcode::SDiv, min_word(), minus(1)), min_word());
    assert_eq!(min_word().smod(minus(1)), Word::zero());
}

#[test]
fn shifts_past_the_word() {
    let v = w(0x1234);
    for shift in [w(256), w(257), Word::max_value(), Word { l0: 0, l1: 1, l2: 0, l3: 0 }] {
        assert_eq!(v.shl(shift), Word::zero());
        assert_eq!(v.shr(shift), Word::zero());
        assert_eq!(v.sar(shift), Word::zero());
        assert_eq!(minus(1).sar(shift), Word::max_value());
        assert_eq!(min_word().sar(shift), Word::max_value());
        assert_eq!(binary(Opcode::Shl, shift, v), Word::zero());
        assert_eq!(binary(Opcode::Shr, shift, v), Word::zero());
        assert_eq!(binary(Opcode::Sar, shift, min_word()), Word::max_value());
    }
}

#[test]
fn shifts_within_the_word() {
    assert_eq!(w(1).shl(w(255)), min_word());
    assert_eq!(w(3).shl(w(64)), Word { l0: 0, l1: 3, l2: 0, l3: 0 });
    assert_eq!(min_word().shr(w(255)), w(1));
    assert_eq!(w(0xff00).shr(w(8)), w(0xff));
    assert_eq!(w(5).shl(w(0)), w(5));
    assert_eq!(min_word().sar(w(255)), Word::max_value());
    assert_eq!(minus(8).sar(w(1)), minus(4));
    assert_eq!(minus(7).sar(w(1)), minus(4));
    assert_eq!(w(7).sar(w(1)), w(3));
    assert_eq!(min_word().sar_by(4), Word { l0: 0, l1: 0, l2: 0, l3: 0xf800_0000_0000_0000 });
}

#[test]
fn comparisons() {
    assert!(w(1).lt(w(2)));
    assert!(!w(2).lt(w(2)));
    assert!(Word { l0: 0, l1: 1, l2: 0, l3: 0 }.gt(w(u64::MAX)));
    assert!(minus(1).slt(w(0)));
    assert!(w(0).sgt(minus(1)));
    assert!(min_word().slt(minus(1)));
    assert!(!minus(1).lt(w(0)));
    assert!(minus(1).is_negative());
    assert!(!w(1).is_negative());
    assert_eq!(binary(Opcode::Lt, w(1), w(2)), w(1));
    assert_eq!(binary(Opcode::Gt, w(1), w(2)), w(0));
    assert_eq!(binary(Opcode::SLt, minus(1), w(2)), w(1));
    assert_eq!(binary(Opcode::SGt, minus(1), w(2)), w(0));
    assert_eq!(binary(Opcode::Eq, w(2), w(2)), w(1));
    assert_eq!(binary(Opcode::Eq, w(2), w(3)), w(0));
    assert_eq!(unary(Opcode::IsZero, w(0)), w(1));
    assert_eq!(unary(Opcode::IsZero, w(9)), w(0));
}

#[test]
fn bitwise_operations() {
    assert_eq!(w(0b1100).bitand(w(0b1010)), w(0b1000));
    assert_eq!(w(0b1100).bitor(w(0b1010)), w(0b1110));
    assert_eq!(w(0b1100).bitxor(w(0b1010)), w(0b0110));
    assert_eq!(Word::zero().not(), Word::max_value());
    assert_eq!(unary(Opcode::Not, w(1)), minus(2));
    assert_eq!(binary(Opcode::And, w(6), w(3)), w(2));
    assert_eq!(binary(Opcode::Or, w(6), w(3)), w(7));
    assert_eq!(binary(Opcode::Xor, w(6), w(3)), w(5));
}

#[test]
fn byte_counts_from_the_most_significant() {
    let v = Word::from_big_endian(&(1..=32u8).collect::<Vec<u8>>());
    assert_eq!(v.byte(w(0)), w(1));
    assert_eq!(v.byte(w(31)), w(32));
    assert_eq!(v.byte(w(32)), Word::zero());
    assert_eq!(v.byte(Word::max_value()), Word::zero());
    assert_eq!(binary(Opcode::Byte, w(30), v), w(31));
}

#[test]
fn sign_extension() {
    assert_eq!(w(0xff).sign_extend(w(0)), Word::max_value());
    assert_eq!(w(0x7f).sign_extend(w(0)), w(0x7f));
    assert_eq!(w(0x1234_80).sign_extend(w(0)), minus(0x80));
    assert_eq!(w(0x8000).sign_extend(w(1)), minus(0x8000));
    assert_eq!(w(0x8000).sign_extend(w(2)), w(0x8000));
    assert_eq!(w(0xff).sign_extend(w(31)), w(0xff));
    assert_eq!(w(0xff).sign_extend(Word::max_value()), w(0xff));
    assert_eq!(min_word().sign_extend(w(30)), Word::zero());
    assert_eq!(binary(Opcode::SignExtend, w(0), w(0x80)), minus(0x80));
}

#[test]
fn arithmetic_opcodes_take_the_top_first() {
    assert_eq!(binary(Opcode::Sub, w(10), w(3)), w(7));
    assert_eq!(binary(Opcode::Div, w(10), w(3)), w(3));
    assert_eq!(binary(Opcode::Mod, w(10), w(3)), w(1));
    assert_eq!(binary(Opcode::Exp, w(2), w(5)), w(32));
    assert_eq!(binary(Opcode::Add, w(2), w(5)), w(7));
    assert_eq!(binary(Opcode::Mul, w(2), w(5)), w(10));
    assert_eq!(binary(Opcode::Shl, w(4), w(1)), w(16));
    assert_eq!(binary(Opcode::Shr, w(4), w(32)), w(2));
    assert_eq!(binary(Opcode::Sar, w(4), minus(32)), minus(2));
    assert_eq!(ternary(Opcode::AddMod, w(5), w(6), w(4)), w(3));
    assert_eq!(ternary(Opcode::MulMod, w(5), w(6), w(4)), w(2));
}

#[test]
fn small_conversions() {
    assert_eq!(Word::from_usize(9), w(9));
    assert_eq!(Word::one(), w(1));
    assert_eq!(Word::from_bool(true), w(1));
    assert_eq!(Word::from_bool(false), w(0));
    assert!(Word::zero().is_zero());
    assert!(!min_word().is_zero());
    assert_eq!(w(77).to_usize(), Some(77));
    assert_eq!(min_word().to_usize(), None);
    assert_eq!(Word { l0: 1, l1: 1, l2: 0, l3: 0 }.to_usize(), None);
    assert_eq!(w(0x1234).low_u8(), 0x34);
    assert_eq!(minus(1).magnitude(), w(1));
    assert_eq!(w(5).magnitude(), w(5));
    assert_eq!(min_word().magnitude(), min_word());
    assert_eq!(w(5).negate(), minus(5));
}

#[test]
fn addresses_are_the_low_bits_of_words() {
    let a = Address { l0: 1, l1: 2, l2: 3 };
    assert_eq!(a.to_word(), Word { l0: 1, l1: 2, l2: 3, l3: 0 });
    assert_eq!(Address::from_word(a.to_word()), a);
    assert_eq!(
        Address::from_word(Word { l0: 1, l1: 2, l2: 0xffff_ffff_0000_0003, l3: 9 }),
        a
    );
    assert_eq!(Address::zero(), Address { l0: 0, l1: 0, l2: 0 });
}

#[test]
fn keccak_of_known_inputs() {
    let empty = keccak_word(&[]);
    assert_eq!(
        empty.to_big_endian().to_vec(),
        vec![
            0xc5, 0xd2, 0x46, 0x01, 0x86, 0xf7, 0x23, 0x3c, 0x92, 0x7e, 0x7d, 0xb2, 0xdc, 0xc7,
            0x03, 0xc0, 0xe5, 0x00, 0xb6, 0x53, 0xca, 0x82, 0x27, 0x3b, 0x7b, 0xfa, 0xd8, 0x04,
            0x5d, 0x85, 0xa4, 0x70
        ]
    );
    let abc = keccak_word(b"abc");
    assert_eq!(
        abc.to_big_endian().to_vec(),
        vec![
            0x4e, 0x03, 0x65, 0x7a, 0xea, 0x45, 0xa9, 0x4f, 0xc7, 0xd4, 0x7b, 0xa8, 0x26, 0xc8,
            0xd6, 0x67, 0xc0, 0xd1, 0xe6, 0xe3, 0x3a, 0x64, 0xa0, 0x36, 0xec, 0x44, 0xf5, 0x8f,
            0xa1, 0x2d, 0x6c, 0x45
        ]
    );
}

fn address_from_bytes(bytes: [u8; 20]) -> Address {
    Address::from_word(Word::from_big_endian(&bytes))
}

#[test]
fn address_bytes_are_the_last_twenty_of_the_word() {
    let a = Address { l0: 0x0d0e0f1011121314, l1: 0x05060708090a0b0c, l2: 0x01020304 };
    let expected: Vec<u8> = (1..=20u8).collect();
    assert_eq!(a.to_big_endian(), expected);
    assert_eq!(a.to_word().to_big_endian()[12..].to_vec(), expected);
    let mut bytes = [0u8; 20];
    bytes.copy_from_slice(&expected);
    assert_eq!(address_from_bytes(bytes), a);
}

#[test]
fn create2_address_of_known_inputs() {
    let created = create2_address(Address::zero(), keccak_word(&[0x00]), Word::zero());
    assert_eq!(
        created.to_big_endian(),
        vec![
            0x4d, 0x1a, 0x2e, 0x2b, 0xb4, 0xf8, 0x8f, 0x02, 0x50, 0xf2, 0x6f, 0xff, 0xf0, 0x98,
            0xb0, 0xb3, 0x0b, 0x26, 0xbf, 0x38
        ]
    );
    let mut caller = [0u8; 20];
    caller[..4].copy_from_slice(&[0xde, 0xad, 0xbe, 0xef]);
    let created = create2_address(address_from_bytes(caller), keccak_word(&[0x00]), Word::zero());
    assert_eq!(
        created.to_big_endian(),
        vec![
            0xb9, 0x28, 0xf6, 0x9b, 0xb1, 0xd9, 0x1c, 0xd6, 0x52, 0x74, 0xe3, 0xc7, 0x9d, 0x89,
            0x86, 0x36, 0x29, 0x84, 0xfd, 0xa3
        ]
    );
}

#[test]
fn modular_sum_survives_the_carry() {
    // Both summands are 2^255 and the modulus is 2^255 + 1: the residues add up to 2^256.
    let modulus = min_word().wrapping_add(w(1));
    assert_eq!(min_word().add_mod(min_word(), modulus), min_word().wrapping_sub(w(1)));
    assert_eq!(
        Word::max_value().add_mod(Word::max_value(), modulus),
        min_word().wrapping_sub(w(5))
    );
    assert_eq!(ternary(Opcode::AddMod, Word::max_value(), w(1), w(10)), w(6));
}
