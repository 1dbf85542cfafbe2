//! Recognition of the maximum uint256 allowance, written in decimal or in hexadecimal.
//!
//! Amounts are read into little-endian byte strings: `le_value` gives the number such a
//! string denotes, and trailing (most significant) zero bytes are dropped to normalise it.
use vstd::prelude::*;

use crate::text::{slice_chars, starts_with, starts_with_str, trim, trim_chars};

verus! {

/// 256 to the power `n`.
pub open spec fn p256(n: nat) -> nat
    decreases n,
{
    if n == 0 {
        1
    } else {
        256 * p256((n - 1) as nat)
    }
}

/// The number a little-endian byte string denotes.
pub open spec fn le_value(b: Seq<u8>) -> nat
    decreases b.len(),
{
    if b.len() == 0 {
        0
    } else {
        le_value(b.drop_last()) + (b.last() as nat) * p256((b.len() - 1) as nat)
    }
}

/// `b` without its most significant zero bytes, keeping at least one byte.
pub open spec fn strip_high_zeros(b: Seq<u8>) -> Seq<u8>
    decreases b.len(),
{
    if b.len() > 1 && b.last() == 0 {
        strip_high_zeros(b.drop_last())
    } else {
        b
    }
}

/// A normalised byte string: not empty, and with no zero most significant byte unless it is
/// the only one.
pub open spec fn is_normalized(b: Seq<u8>) -> bool {
    b.len() >= 1 && (b.len() == 1 || b.last() != 0)
}

/// `n` bytes of value 0xff.
pub open spec fn ff_bytes(n: nat) -> Seq<u8> {
    Seq::new(n, |i: int| 0xffu8)
}

/// The largest uint256 value, 256^32 - 1 (that is, 2^256 - 1).
pub open spec fn uint256_max() -> nat {
    (p256(32) - 1) as nat
}

/// An ASCII decimal digit, as `char::to_digit(10)` accepts.
pub open spec fn is_dec_digit(c: char) -> bool {
    '0' <= c && c <= '9'
}

/// An ASCII hexadecimal digit of either case, as `char::to_digit(16)` accepts.
pub open spec fn is_hex_digit(c: char) -> bool {
    ('0' <= c && c <= '9') || ('a' <= c && c <= 'f') || ('A' <= c && c <= 'F')
}

/// The value of a hexadecimal digit.
pub open spec fn hex_digit_value(c: char) -> nat {
    if '0' <= c && c <= '9' {
        (c as int - '0' as int) as nat
    } else if 'a' <= c && c <= 'f' {
        (c as int - 'a' as int + 10) as nat
    } else {
        (c as int - 'A' as int + 10) as nat
    }
}

/// Every character of `s` is a decimal digit.
pub open spec fn all_dec_digits(s: Seq<char>) -> bool {
    forall|i: int| 0 <= i < s.len() ==> is_dec_digit(#[trigger] s[i])
}

/// Every character of `s` is a hexadecimal digit.
pub open spec fn all_hex_digits(s: Seq<char>) -> bool {
    forall|i: int| 0 <= i < s.len() ==> is_hex_digit(#[trigger] s[i])
}

/// The number that a string of decimal digits denotes (0 for the empty string).
pub open spec fn decimal_value(s: Seq<char>) -> nat
    decreases s.len(),
{
    if s.len() == 0 {
        0
    } else {
        decimal_value(s.drop_last()) * 10 + (s.last() as int - '0' as int) as nat
    }
}

/// The number that a string of hexadecimal digits denotes, most significant digit first
/// (0 for the empty string).
pub open spec fn hex_value(s: Seq<char>) -> nat
    decreases s.len(),
{
    if s.len() == 0 {
        0
    } else {
        hex_value(s.drop_last()) * 16 + hex_digit_value(s.last())
    }
}

/// `is_uint256_max`: the trimmed text is the maximum uint256 value, 2^256 - 1: after a `0x`
/// or `0X` prefix as hexadecimal digits, otherwise as decimal digits. Leading zeros do not
/// change the value.
pub open spec fn spec_is_uint256_max(value: Seq<char>) -> bool {
    let t = trim(value);
    if starts_with(t, "0x"@) || starts_with(t, "0X"@) {
        let h = t.subrange(2, t.len() as int);
        all_hex_digits(h) && hex_value(h) == uint256_max()
    } else {
        all_dec_digits(t) && decimal_value(t) == uint256_max()
    }
}

pub proof fn lemma_p256_positive(n: nat)
    ensures
        p256(n) >= 1,
    decreases n,
{
    if n > 0 {
        lemma_p256_positive((n - 1) as nat);
    }
}

pub proof fn lemma_p256_monotonic(a: nat, b: nat)
    requires
        a <= b,
    ensures
        p256(a) <= p256(b),
    decreases b,
{
    if a < b {
        lemma_p256_monotonic(a, (b - 1) as nat);
        lemma_p256_positive((b - 1) as nat);
    }
}

/// A byte string denotes less than 256 to the power of its length.
pub proof fn lemma_le_value_bound(b: Seq<u8>)
    ensures
        le_value(b) < p256(b.len()),
    decreases b.len(),
{
    if b.len() > 0 {
        let n = (b.len() - 1) as nat;
        lemma_le_value_bound(b.drop_last());
        let p = p256(n);
        let x = b.last() as nat;
        assert(x * p <= 255 * p) by (nonlinear_arith)
            requires
                x <= 255,
        ;
    }
}

/// A normalised byte string of length n > 1 denotes at least 256^(n-1).
proof fn lemma_le_value_lower(b: Seq<u8>)
    requires
        is_normalized(b),
        b.len() > 1,
    ensures
        le_value(b) >= p256((b.len() - 1) as nat),
{
    let p = p256((b.len() - 1) as nat);
    let x = b.last() as nat;
    assert(x * p >= p) by (nonlinear_arith)
        requires
            x >= 1,
    ;
}

/// Splitting a number below b*p into its quotient and remainder by p is unique.
proof fn lemma_split_unique(a1: nat, x1: nat, a2: nat, x2: nat, p: nat)
    requires
        a1 < p,
        a2 < p,
        a1 + x1 * p == a2 + x2 * p,
    ensures
        x1 == x2,
        a1 == a2,
{
    if x1 < x2 {
        assert((x2 - x1) * p >= p) by (nonlinear_arith)
            requires
                x2 - x1 >= 1,
                p >= 0,
        ;
        assert(x2 * p == x1 * p + (x2 - x1) * p) by (nonlinear_arith);
    } else if x2 < x1 {
        assert((x1 - x2) * p >= p) by (nonlinear_arith)
            requires
                x1 - x2 >= 1,
                p >= 0,
        ;
        assert(x1 * p == x2 * p + (x1 - x2) * p) by (nonlinear_arith);
    }
}

/// Byte strings of equal length that denote the same number are equal.
proof fn lemma_le_value_injective_same_len(b: Seq<u8>, c: Seq<u8>)
    requires
        b.len() == c.len(),
        le_value(b) == le_value(c),
    ensures
        b == c,
    decreases b.len(),
{
    if b.len() > 0 {
        let n = (b.len() - 1) as nat;
        lemma_le_value_bound(b.drop_last());
        lemma_le_value_bound(c.drop_last());
        lemma_split_unique(
            le_value(b.drop_last()),
            b.last() as nat,
            le_value(c.drop_last()),
            c.last() as nat,
            p256(n),
        );
        lemma_le_value_injective_same_len(b.drop_last(), c.drop_last());
        assert(b =~= b.drop_last().push(b.last()));
        assert(c =~= c.drop_last().push(c.last()));
    } else {
        assert(b =~= c);
    }
}

/// Normalised byte strings that denote the same number are equal.
pub proof fn lemma_normalized_unique(b: Seq<u8>, c: Seq<u8>)
    requires
        is_normalized(b),
        is_normalized(c),
        le_value(b) == le_value(c),
    ensures
        b == c,
{
    if b.len() < c.len() {
        lemma_le_value_bound(b);
        lemma_le_value_lower(c);
        lemma_p256_monotonic(b.len(), (c.len() - 1) as nat);
    } else if c.len() < b.len() {
        lemma_le_value_bound(c);
        lemma_le_value_lower(b);
        lemma_p256_monotonic(c.len(), (b.len() - 1) as nat);
    } else {
        lemma_le_value_injective_same_len(b, c);
    }
}

/// Thirty-two (or any number of) 0xff bytes denote 256^n - 1.
pub proof fn lemma_ff_bytes_value(n: nat)
    ensures
        le_value(ff_bytes(n)) + 1 == p256(n),
    decreases n,
{
    if n > 0 {
        lemma_ff_bytes_value((n - 1) as nat);
        assert(ff_bytes(n).drop_last() =~= ff_bytes((n - 1) as nat));
    }
}

/// Dropping high zero bytes keeps the value and normalises.
pub proof fn lemma_strip_high_zeros(b: Seq<u8>)
    requires
        b.len() >= 1,
    ensures
        le_value(strip_high_zeros(b)) == le_value(b),
        is_normalized(strip_high_zeros(b)),
    decreases b.len(),
{
    if b.len() > 1 && b.last() == 0 {
        lemma_strip_high_zeros(b.drop_last());
    }
}

/// The value of a prefix one byte longer.
proof fn lemma_le_value_prefix(b: Seq<u8>, j: int)
    requires
        0 <= j < b.len(),
    ensures
        le_value(b.subrange(0, j + 1)) == le_value(b.subrange(0, j)) + (b[j] as nat) * p256(
            j as nat,
        ),
{
    assert(b.subrange(0, j + 1).drop_last() =~= b.subrange(0, j));
}

/// Multiplies the number held in `bytes` by `base` and adds `digit`.
fn mul_add(bytes: &mut Vec<u8>, base: u16, digit: u16)
    requires
        2 <= base <= 16,
        digit < base,
        old(bytes)@.len() >= 1,
    ensures
        final(bytes)@.len() >= 1,
        le_value(final(bytes)@) == base * le_value(old(bytes)@) + digit,
{
    let ghost old_bytes = bytes@;
    let n = bytes.len();
    let mut carry: u16 = digit;
    let mut j: usize = 0;
    assert(bytes@.subrange(0, 0) =~= Seq::<u8>::empty());
    assert(old_bytes.subrange(0, 0) =~= Seq::<u8>::empty());
    assert(p256(0) == 1);
    assert(le_value(Seq::<u8>::empty()) == 0);
    assert((base as nat) * 0 == 0) by (nonlinear_arith);
    assert((carry as nat) * 1 == carry) by (nonlinear_arith);
    while j < n
        invariant
            n == bytes@.len(),
            n == old_bytes.len(),
            n >= 1,
            j <= n,
            2 <= base <= 16,
            carry <= base,
            forall|m: int| j <= m < n ==> bytes@[m] == old_bytes[m],
            le_value(bytes@.subrange(0, j as int)) + carry * p256(j as nat) == base * le_value(
                old_bytes.subrange(0, j as int),
            ) + digit,
        decreases n - j,
    {
        let ghost prefix = bytes@.subrange(0, j as int);
        let b = bytes[j];
        assert((b as u16) * base <= 255 * base) by (nonlinear_arith)
            requires
                b <= 255,
                base <= 16,
        ;
        let sum: u16 = (b as u16) * base + carry;
        let low: u8 = (sum % 256) as u8;
        bytes.set(j, low);
        let new_carry: u16 = sum / 256;
        proof {
            lemma_le_value_prefix(bytes@, j as int);
            lemma_le_value_prefix(old_bytes, j as int);
            assert(bytes@.subrange(0, j as int) =~= prefix);
            let p = p256(j as nat);
            let s = sum as nat;
            assert((s % 256) * p + (s / 256) * (256 * p) == s * p) by (nonlinear_arith);
            assert(s * p == (b as nat) * (base as nat) * p + (carry as nat) * p) by (nonlinear_arith)
                requires
                    s == (b as nat) * (base as nat) + carry,
            ;
            assert(p256((j + 1) as nat) == 256 * p);
            assert((b as nat) * (base as nat) * p == (base as nat) * ((b as nat) * p)) by (nonlinear_arith);
            assert(s / 256 <= base) by (nonlinear_arith)
                requires
                    s == (b as nat) * (base as nat) + carry,
                    b <= 255,
                    carry <= base,
            ;
            assert(b == old_bytes[j as int]);
            let lo = le_value(old_bytes.subrange(0, j as int));
            assert((base as nat) * (lo + (b as nat) * p) == (base as nat) * lo + (base as nat) * ((b as nat) * p)) by (nonlinear_arith);
            assert(bytes@[j as int] == low);
            assert(low as nat == s % 256);
            assert(new_carry as nat == s / 256);
        }
        carry = new_carry;
        j = j + 1;
    }
    assert(bytes@.subrange(0, n as int) =~= bytes@);
    assert(old_bytes.subrange(0, n as int) =~= old_bytes);
    while carry > 0
        invariant
            bytes@.len() >= 1,
            carry <= 16,
            le_value(bytes@) + carry * p256(bytes@.len()) == base * le_value(old_bytes) + digit,
        decreases carry,
    {
        let ghost before = bytes@;
        let low: u8 = (carry % 256) as u8;
        bytes.push(low);
        proof {
            assert(bytes@.drop_last() =~= before);
            let p = p256(before.len());
            let c = carry as nat;
            assert((c % 256) * p + (c / 256) * (256 * p) == c * p) by (nonlinear_arith);
        }
        carry = carry / 256;
    }
}

/// The number `value` denotes in decimal, as a normalised little-endian byte string, or
/// `None` when a character is not a decimal digit.
pub fn parse_decimal_to_le_bytes(value: &Vec<char>) -> (r: Option<Vec<u8>>)
    ensures
        r is Some <==> all_dec_digits(value@),
        r matches Some(b) ==> is_normalized(b@) && le_value(b@) == decimal_value(value@),
{
    let mut bytes: Vec<u8> = vec![0u8];
    let mut k: usize = 0;
    assert(bytes@.drop_last() =~= Seq::<u8>::empty());
    assert(bytes@.len() == 1 && bytes@.last() == 0);
    assert(p256(0) == 1);
    assert(le_value(Seq::<u8>::empty()) == 0);
    assert(le_value(bytes@) == 0);
    assert(value@.subrange(0, 0) =~= Seq::<char>::empty());
    while k < value.len()
        invariant
            k <= value@.len(),
            bytes@.len() >= 1,
            all_dec_digits(value@.subrange(0, k as int)),
            le_value(bytes@) == decimal_value(value@.subrange(0, k as int)),
        decreases value@.len() - k,
    {
        let ch = value[k];
        if !('0' <= ch && ch <= '9') {
            assert(!is_dec_digit(value@[k as int]));
            return None;
        }
        let digit: u16 = ((ch as u32) - 48) as u16;
        mul_add(&mut bytes, 10, digit);
        proof {
            assert(value@.subrange(0, k + 1).drop_last() =~= value@.subrange(0, k as int));
            assert forall|i: int| 0 <= i < k + 1 implies is_dec_digit(
                #[trigger] value@.subrange(0, k + 1)[i],
            ) by {
                if i < k {
                    assert(value@.subrange(0, k + 1)[i] == value@.subrange(0, k as int)[i]);
                }
            }
        }
        k = k + 1;
    }
    assert(value@.subrange(0, k as int) =~= value@);
    let normalized = normalize_le_bytes(bytes);
    proof {
        lemma_strip_high_zeros(bytes@);
    }
    Some(normalized)
}

/// The value of one hexadecimal digit.
fn hex_digit(c: char) -> (r: Option<u8>)
    ensures
        r is Some <==> is_hex_digit(c),
        r matches Some(v) ==> v as nat == hex_digit_value(c) && v < 16,
{
    if '0' <= c && c <= '9' {
        Some(((c as u32) - 48) as u8)
    } else if 'a' <= c && c <= 'f' {
        Some(((c as u32) - 87) as u8)
    } else if 'A' <= c && c <= 'F' {
        Some(((c as u32) - 55) as u8)
    } else {
        None
    }
}

/// The number `value` denotes in hexadecimal, as a normalised little-endian byte string,
/// or `None` when a character is not a hexadecimal digit.
pub fn parse_hex_to_le_bytes(value: &Vec<char>) -> (r: Option<Vec<u8>>)
    ensures
        r is Some <==> all_hex_digits(value@),
        r matches Some(b) ==> is_normalized(b@) && le_value(b@) == hex_value(value@),
{
    let mut bytes: Vec<u8> = vec![0u8];
    let mut k: usize = 0;
    assert(bytes@.drop_last() =~= Seq::<u8>::empty());
    assert(bytes@.len() == 1 && bytes@.last() == 0);
    assert(p256(0) == 1);
    assert(le_value(Seq::<u8>::empty()) == 0);
    assert(le_value(bytes@) == 0);
    assert(value@.subrange(0, 0) =~= Seq::<char>::empty());
    while k < value.len()
        invariant
            k <= value@.len(),
            bytes@.len() >= 1,
            all_hex_digits(value@.subrange(0, k as int)),
            le_value(bytes@) == hex_value(value@.subrange(0, k as int)),
        decreases value@.len() - k,
    {
        let nibble = match hex_digit(value[k]) {
            Some(v) => v,
            None => {
                return None;
            },
        };
        mul_add(&mut bytes, 16, nibble as u16);
        proof {
            let pre = value@.subrange(0, k + 1);
            assert(pre.drop_last() =~= value@.subrange(0, k as int));
            assert forall|i: int| 0 <= i < k + 1 implies is_hex_digit(#[trigger] pre[i]) by {
                if i < k {
                    assert(pre[i] == value@.subrange(0, k as int)[i]);
                }
            }
        }
        k = k + 1;
    }
    assert(value@.subrange(0, k as int) =~= value@);
    let normalized = normalize_le_bytes(bytes);
    proof {
        lemma_strip_high_zeros(bytes@);
    }
    Some(normalized)
}

/// `bytes` without its most significant zero bytes, keeping at least one byte.
pub fn normalize_le_bytes(bytes: Vec<u8>) -> (r: Vec<u8>)
    ensures
        r@ == strip_high_zeros(bytes@),
{
    let ghost original = bytes@;
    let mut bytes = bytes;
    while bytes.len() > 1 && bytes[bytes.len() - 1] == 0
        invariant
            strip_high_zeros(bytes@) == strip_high_zeros(original),
        decreases bytes@.len(),
    {
        let ghost before = bytes@;
        bytes.pop();
        assert(bytes@ =~= before.drop_last());
    }
    bytes
}

/// Whether `b` is exactly thirty-two 0xff bytes.
fn is_ff32(b: &Vec<u8>) -> (r: bool)
    ensures
        r == (b@ == ff_bytes(32)),
{
    if b.len() != 32 {
        return false;
    }
    let mut k: usize = 0;
    while k < 32
        invariant
            b@.len() == 32,
            k <= 32,
            forall|m: int| 0 <= m < k ==> b@[m] == 0xffu8,
        decreases 32 - k,
    {
        if b[k] != 0xff {
            assert(b@[k as int] != ff_bytes(32)[k as int]);
            return false;
        }
        k = k + 1;
    }
    assert(b@ =~= ff_bytes(32));
    true
}

/// Whether `value`, trimmed, is the maximum uint256 value in decimal or `0x` hexadecimal.
pub fn is_uint256_max(value: &Vec<char>) -> (r: bool)
    ensures
        r == spec_is_uint256_max(value@),
{
    let trimmed = trim_chars(value);
    if starts_with_str(&trimmed, "0x") || starts_with_str(&trimmed, "0X") {
        proof {
            reveal_strlit("0x");
            reveal_strlit("0X");
        }
        let hex = slice_chars(&trimmed, 2, trimmed.len());
        match parse_hex_to_le_bytes(&hex) {
            Some(b) => {
                let r = is_ff32(&b);
                proof {
                    lemma_ff_bytes_value(32);
                    assert(is_normalized(ff_bytes(32)));
                    if hex_value(hex@) == uint256_max() {
                        lemma_normalized_unique(b@, ff_bytes(32));
                    }
                }
                r
            },
            None => false,
        }
    } else {
        match parse_decimal_to_le_bytes(&trimmed) {
            Some(b) => {
                let r = is_ff32(&b);
                proof {
                    lemma_ff_bytes_value(32);
                    assert(is_normalized(ff_bytes(32)));
                    if decimal_value(trimmed@) == uint256_max() {
                        lemma_normalized_unique(b@, ff_bytes(32));
                    }
                }
                r
            },
            None => false,
        }
    }
}

} // verus!
