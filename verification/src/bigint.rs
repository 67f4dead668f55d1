//! Signed big integers as sign and base-2^32 magnitude, and their byte encodings.

use vstd::prelude::*;
use num_bigint::{BigInt, Sign};
use num_traits::ops::bytes::ToBytes;

verus! {

/// A signed integer of any size: a sign and the magnitude's base-2^32 digits,
/// least significant digit first.
#[derive(Debug)]
pub struct BigIntValue {
    pub negative: bool,
    pub magnitude: Vec<u32>,
}

/// The value of base-2^32 digits, least significant first.
pub open spec fn digits_value(d: Seq<u32>) -> nat
    decreases d.len(),
{
    if d.len() == 0 {
        0
    } else {
        (d[0] + 0x1_0000_0000 * digits_value(d.drop_first())) as nat
    }
}

impl BigIntValue {
    /// The integer this value stands for.
    pub open spec fn value(&self) -> int {
        if self.negative {
            -digits_value(self.magnitude@)
        } else {
            digits_value(self.magnitude@) as int
        }
    }
}

/// Absolute value, as a measure of recursion.
pub open spec fn abs(v: int) -> nat {
    if v < 0 {
        (-v) as nat
    } else {
        v as nat
    }
}

/// The shortest two's-complement encoding of `v`, least significant byte first:
/// one byte when `-128 <= v < 128`, and otherwise the low byte followed by the
/// encoding of `v` shifted right by eight bits.
pub open spec fn signed_bytes_le(v: int) -> Seq<u8>
    decreases abs(v),
{
    if -128 <= v < 128 {
        seq![(v % 256) as u8]
    } else {
        seq![(v % 256) as u8] + signed_bytes_le(v / 256)
    }
}

/// `num_bigint::BigInt::to_le_bytes` (the `num_traits::ToBytes` impl, which is
/// `to_signed_bytes_le`) on the `BigInt` with this sign and magnitude: the shortest
/// two's-complement encoding of the value, least significant byte first.
#[verifier::external_body]
pub(crate) fn signed_le_bytes_of(v: &BigIntValue) -> (r: Vec<u8>)
    ensures
        r@ == signed_bytes_le(v.value()),
{
    let sign = if v.negative { Sign::Minus } else { Sign::Plus };
    BigInt::from_slice(sign, &v.magnitude).to_le_bytes()
}

/// True when every character is an ASCII decimal digit.
pub open spec fn all_decimal_digits(s: Seq<char>) -> bool {
    forall|i: int| 0 <= i < s.len() ==> '0' <= #[trigger] s[i] <= '9'
}

/// The number that the first `k` characters of a string of decimal digits spell,
/// most significant digit first.
pub open spec fn decimal_prefix_value(s: Seq<char>, k: nat) -> nat
    decreases k,
{
    if k == 0 {
        0
    } else {
        (decimal_prefix_value(s, (k - 1) as nat) * 10 + (s[k - 1] as int - '0' as int)) as nat
    }
}

/// The number that a string of decimal digits spells.
pub open spec fn decimal_value(s: Seq<char>) -> nat {
    decimal_prefix_value(s, s.len())
}

/// `<num_bigint::BigInt as core::str::FromStr>::from_str`, whose result is converted
/// one for one to sign and base-2^32 digits by `BigInt::to_u32_digits`. For a
/// nonempty string of ASCII decimal digits the parse succeeds with the number the
/// digits spell. What it returns for other strings (signs, underscores, other
/// characters) is left unsaid here.
#[verifier::external_body]
pub(crate) fn parse_decimal(s: &str) -> (r: Option<BigIntValue>)
    ensures
        s@.len() > 0 && all_decimal_digits(s@) ==> r is Some && r->0.value() == decimal_value(s@),
{
    match <BigInt as core::str::FromStr>::from_str(s) {
        Ok(b) => {
            let (sign, magnitude) = b.to_u32_digits();
            Some(BigIntValue { negative: sign == Sign::Minus, magnitude })
        },
        Err(_) => None,
    }
}

/// The prime order of the BN254 scalar field.
pub open spec fn field_modulus() -> int {
    21888242871839275222246405745257275088548364400416034343698204186575808495617int
}

/// The decimal text of the field modulus is all digits and spells the modulus.
pub(crate) proof fn lemma_modulus_literal()
    ensures
        "21888242871839275222246405745257275088548364400416034343698204186575808495617"@.len() > 0,
        all_decimal_digits("21888242871839275222246405745257275088548364400416034343698204186575808495617"@),
        decimal_value("21888242871839275222246405745257275088548364400416034343698204186575808495617"@) == field_modulus(),
{
    reveal_strlit("21888242871839275222246405745257275088548364400416034343698204186575808495617");
    let ghost t = "21888242871839275222246405745257275088548364400416034343698204186575808495617"@;
    reveal_with_fuel(decimal_prefix_value, 8);
    assert(decimal_prefix_value(t, 7) == 2188824int);
    assert(decimal_prefix_value(t, 14) == 21888242871839int);
    assert(decimal_prefix_value(t, 21) == 218882428718392752222int);
    assert(decimal_prefix_value(t, 28) == 2188824287183927522224640574int);
    assert(decimal_prefix_value(t, 35) == 21888242871839275222246405745257275int);
    assert(decimal_prefix_value(t, 42) == 218882428718392752222464057452572750885483int);
    assert(decimal_prefix_value(t, 49) == 2188824287183927522224640574525727508854836440041int);
    assert(decimal_prefix_value(t, 56) == 21888242871839275222246405745257275088548364400416034343int);
    assert(decimal_prefix_value(t, 63) == 218882428718392752222464057452572750885483644004160343436982041int);
    assert(decimal_prefix_value(t, 70) == 2188824287183927522224640574525727508854836440041603434369820418657580int);
    assert(decimal_prefix_value(t, 77) == 21888242871839275222246405745257275088548364400416034343698204186575808495617int);
}

/// 256 to the power `n`.
pub open spec fn pow256(n: nat) -> nat
    decreases n,
{
    if n == 0 {
        1
    } else {
        256 * pow256((n - 1) as nat)
    }
}

/// The unsigned value of bytes read least significant first.
pub open spec fn le_value(s: Seq<u8>) -> nat
    decreases s.len(),
{
    if s.len() == 0 {
        0
    } else {
        (s[0] + 256 * le_value(s.drop_first())) as nat
    }
}

/// `n` zero bytes.
pub open spec fn zero_bytes(n: nat) -> Seq<u8> {
    Seq::new(n, |i: int| 0u8)
}

/// `s` cut to its first `n` bytes, or extended with zero bytes to `n` bytes.
pub open spec fn zero_padded(s: Seq<u8>, n: nat) -> Seq<u8> {
    if s.len() >= n {
        s.take(n as int)
    } else {
        s + zero_bytes((n - s.len()) as nat)
    }
}

pub proof fn lemma_pow256_positive(n: nat)
    ensures
        pow256(n) >= 1,
    decreases n,
{
    if n > 0 {
        lemma_pow256_positive((n - 1) as nat);
    }
}

/// Appending bytes adds their value scaled by 256 to the length of the prefix.
#[verifier::spinoff_prover]
pub proof fn lemma_le_value_append(a: Seq<u8>, b: Seq<u8>)
    ensures
        le_value(a + b) == le_value(a) + pow256(a.len()) * le_value(b),
    decreases a.len(),
{
    if a.len() == 0 {
        assert(a + b =~= b);
    } else {
        let t = a.drop_first();
        lemma_le_value_append(t, b);
        assert((a + b).drop_first() =~= t + b);
        assert((a + b)[0] == a[0]);
        let x = le_value(t);
        let p = pow256(t.len());
        let y = le_value(b);
        assert(pow256(a.len()) == 256 * p);
        assert(le_value(a + b) == a[0] + 256 * le_value(t + b));
        assert(le_value(a) == a[0] + 256 * x);
        assert(256 * (x + p * y) == 256 * x + (256 * p) * y) by (nonlinear_arith);
    }
}

pub proof fn lemma_le_value_zero_bytes(n: nat)
    ensures
        le_value(zero_bytes(n)) == 0,
    decreases n,
{
    if n > 0 {
        lemma_le_value_zero_bytes((n - 1) as nat);
        assert(zero_bytes(n).drop_first() =~= zero_bytes((n - 1) as nat));
    }
}

/// The value of `n` bytes is below 256 to the `n`.
pub proof fn lemma_le_value_bound(s: Seq<u8>)
    ensures
        le_value(s) < pow256(s.len()),
    decreases s.len(),
{
    if s.len() > 0 {
        lemma_le_value_bound(s.drop_first());
        let x = le_value(s.drop_first());
        let p = pow256((s.len() - 1) as nat);
        assert(256 * (x + 1) <= 256 * p) by (nonlinear_arith)
            requires x + 1 <= p;
    }
}

/// The encoding of a non-negative number read back as unsigned bytes is the number.
pub proof fn lemma_signed_bytes_nonneg_value(v: int)
    requires
        v >= 0,
    ensures
        le_value(signed_bytes_le(v)) == v,
    decreases v,
{
    let s = signed_bytes_le(v);
    vstd::arithmetic::div_mod::lemma_fundamental_div_mod(v, 256);
    assert(s[0] == v % 256);
    if v < 128 {
        assert(s.drop_first() =~= Seq::<u8>::empty());
        assert(le_value(s) == s[0] + 256 * le_value(s.drop_first()));
    } else {
        lemma_signed_bytes_nonneg_value(v / 256);
        assert(s.drop_first() =~= signed_bytes_le(v / 256));
        assert(le_value(s) == s[0] + 256 * le_value(s.drop_first()));
    }
}

/// The encoding of `0 <= v < 128 * 256^k` takes at most `k + 1` bytes.
pub proof fn lemma_signed_bytes_nonneg_len(v: int, k: nat)
    requires
        0 <= v < 128 * pow256(k),
    ensures
        1 <= signed_bytes_le(v).len() <= k + 1,
    decreases k,
{
    if v >= 128 {
        assert(k > 0);
        let p = pow256((k - 1) as nat);
        assert(v / 256 < 128 * p) by (nonlinear_arith)
            requires v < 128 * (256 * p), v >= 0;
        lemma_signed_bytes_nonneg_len(v / 256, (k - 1) as nat);
    }
}

/// A value `0 <= v < 256^32`, encoded and cut or zero-padded to 32 bytes, reads
/// back as `v`.
pub proof fn lemma_padded_signed_bytes_value(v: int)
    requires
        0 <= v < pow256(32),
    ensures
        le_value(zero_padded(signed_bytes_le(v), 32)) == v,
{
    let s = signed_bytes_le(v);
    lemma_signed_bytes_nonneg_value(v);
    lemma_pow256_positive(32);
    lemma_signed_bytes_nonneg_len(v, 32);
    if s.len() >= 32 {
        let head = s.take(32);
        let tail = s.skip(32);
        assert(s =~= head + tail);
        lemma_le_value_append(head, tail);
        lemma_le_value_bound(head);
        let h = le_value(head);
        let t = le_value(tail);
        let p = pow256(32);
        assert(h == v) by (nonlinear_arith)
            requires h + p * t == v, v < p, h >= 0, t >= 0, p >= 1, h < p;
        assert(zero_padded(s, 32) == head);
    } else {
        let z = zero_bytes((32 - s.len()) as nat);
        lemma_le_value_append(s, z);
        lemma_le_value_zero_bytes((32 - s.len()) as nat);
    }
}

/// The encoding of `v >= 128 * 256^k` takes at least `k + 2` bytes.
pub proof fn lemma_signed_bytes_nonneg_len_lower(v: int, k: nat)
    requires
        v >= 128 * pow256(k),
    ensures
        signed_bytes_le(v).len() >= k + 2,
    decreases k,
{
    lemma_pow256_positive(k);
    assert(v >= 128) by (nonlinear_arith)
        requires v >= 128 * pow256(k), pow256(k) >= 1;
    assert(signed_bytes_le(v) == seq![(v % 256) as u8] + signed_bytes_le(v / 256));
    if k == 0 {
        assert(signed_bytes_le(v / 256).len() >= 1);
    } else {
        let p = pow256((k - 1) as nat);
        assert(v / 256 >= 128 * p) by (nonlinear_arith)
            requires v >= 128 * (256 * p);
        lemma_signed_bytes_nonneg_len_lower(v / 256, (k - 1) as nat);
    }
}

/// The field modulus is encoded in exactly 32 bytes, which read back as the modulus.
pub proof fn lemma_signed_bytes_of_modulus()
    ensures
        signed_bytes_le(field_modulus()).len() == 32,
        le_value(signed_bytes_le(field_modulus())) == field_modulus(),
{
    reveal_with_fuel(pow256, 33);
    assert(pow256(31) == 0x1_00000000_00000000_00000000_00000000_00000000_00000000_00000000_000000int);
    lemma_signed_bytes_nonneg_len(field_modulus(), 31);
    assert(pow256(30) == 0x1_00000000_00000000_00000000_00000000_00000000_00000000_00000000_0000int);
    lemma_signed_bytes_nonneg_len_lower(field_modulus(), 30);
    lemma_signed_bytes_nonneg_value(field_modulus());
}


/// The low `n` bytes of `x`, least significant first.
pub open spec fn le_bytes(x: nat, n: nat) -> Seq<u8>
    decreases n,
{
    if n == 0 {
        Seq::empty()
    } else {
        seq![(x % 256) as u8] + le_bytes(x / 256, (n - 1) as nat)
    }
}

pub proof fn lemma_le_bytes_len(x: nat, n: nat)
    ensures
        le_bytes(x, n).len() == n,
    decreases n,
{
    if n > 0 {
        lemma_le_bytes_len(x / 256, (n - 1) as nat);
    }
}

/// `n` low bytes of a number below `256^n` read back as the number.
pub proof fn lemma_le_bytes_value(x: nat, n: nat)
    requires
        x < pow256(n),
    ensures
        le_bytes(x, n).len() == n,
        le_value(le_bytes(x, n)) == x,
    decreases n,
{
    if n > 0 {
        let p = pow256((n - 1) as nat);
        assert(x / 256 < p) by (nonlinear_arith)
            requires x < 256 * p;
        lemma_le_bytes_value(x / 256, (n - 1) as nat);
        let s = le_bytes(x, n);
        assert(s.drop_first() =~= le_bytes(x / 256, (n - 1) as nat));
        vstd::arithmetic::div_mod::lemma_fundamental_div_mod(x as int, 256);
    } else {
        assert(x == 0);
    }
}

/// The low `n` bytes of any `x` read back as `x` modulo `256^n`.
pub proof fn lemma_le_bytes_value_mod(x: nat, n: nat)
    ensures
        le_value(le_bytes(x, n)) == x % pow256(n),
    decreases n,
{
    lemma_pow256_positive(n);
    if n == 0 {
        assert(x % 1 == 0);
    } else {
        let p = pow256((n - 1) as nat);
        lemma_pow256_positive((n - 1) as nat);
        lemma_le_bytes_value_mod(x / 256, (n - 1) as nat);
        let s = le_bytes(x, n);
        assert(s.drop_first() =~= le_bytes(x / 256, (n - 1) as nat));
        vstd::arithmetic::div_mod::lemma_mod_breakdown(x as int, 256, p as int);
        assert(le_value(s) == (x % 256) + 256 * ((x / 256) % p));
    }
}

/// The field modulus in its 32 little-endian bytes.
#[verifier::spinoff_prover]
#[verifier::rlimit(50)]
pub proof fn lemma_modulus_bytes()
    ensures
        signed_bytes_le(field_modulus()) == seq![0x01u8, 0x00u8, 0x00u8, 0xf0u8, 0x93u8, 0xf5u8, 0xe1u8, 0x43u8, 0x91u8, 0x70u8, 0xb9u8, 0x79u8, 0x48u8, 0xe8u8, 0x33u8, 0x28u8, 0x5du8, 0x58u8, 0x81u8, 0x81u8, 0xb6u8, 0x45u8, 0x50u8, 0xb8u8, 0x29u8, 0xa0u8, 0x31u8, 0xe1u8, 0x72u8, 0x4eu8, 0x64u8, 0x30u8],
{
    assert(signed_bytes_le(48int) =~= seq![0x30u8]);
    assert(signed_bytes_le(12388int) =~= seq![0x64u8, 0x30u8]) by {
        assert(12388int % 256 == 100);
        assert(12388int / 256 == 48int);
    }
    assert(signed_bytes_le(3171406int) =~= seq![0x4eu8, 0x64u8, 0x30u8]) by {
        assert(3171406int % 256 == 78);
        assert(3171406int / 256 == 12388int);
    }
    assert(signed_bytes_le(811880050int) =~= seq![0x72u8, 0x4eu8, 0x64u8, 0x30u8]) by {
        assert(811880050int % 256 == 114);
        assert(811880050int / 256 == 3171406int);
    }
    assert(signed_bytes_le(207841293025int) =~= seq![0xe1u8, 0x72u8, 0x4eu8, 0x64u8, 0x30u8]) by {
        assert(207841293025int % 256 == 225);
        assert(207841293025int / 256 == 811880050int);
    }
    assert(signed_bytes_le(53207371014449int) =~= seq![0x31u8, 0xe1u8, 0x72u8, 0x4eu8, 0x64u8, 0x30u8]) by {
        assert(53207371014449int % 256 == 49);
        assert(53207371014449int / 256 == 207841293025int);
    }
    assert(signed_bytes_le(13621086979699104int) =~= seq![0xa0u8, 0x31u8, 0xe1u8, 0x72u8, 0x4eu8, 0x64u8, 0x30u8]) by {
        assert(13621086979699104int % 256 == 160);
        assert(13621086979699104int / 256 == 53207371014449int);
    }
    assert(signed_bytes_le(3486998266802970665int) =~= seq![0x29u8, 0xa0u8, 0x31u8, 0xe1u8, 0x72u8, 0x4eu8, 0x64u8, 0x30u8]) by {
        assert(3486998266802970665int % 256 == 41);
        assert(3486998266802970665int / 256 == 13621086979699104int);
    }
    assert(signed_bytes_le(892671556301560490424int) =~= seq![0xb8u8, 0x29u8, 0xa0u8, 0x31u8, 0xe1u8, 0x72u8, 0x4eu8, 0x64u8, 0x30u8]) by {
        assert(892671556301560490424int % 256 == 184);
        assert(892671556301560490424int / 256 == 3486998266802970665int);
    }
    assert(signed_bytes_le(228523918413199485548624int) =~= seq![0x50u8, 0xb8u8, 0x29u8, 0xa0u8, 0x31u8, 0xe1u8, 0x72u8, 0x4eu8, 0x64u8, 0x30u8]) by {
        assert(228523918413199485548624int % 256 == 80);
        assert(228523918413199485548624int / 256 == 892671556301560490424int);
    }
    assert(signed_bytes_le(58502123113779068300447813int) =~= seq![0x45u8, 0x50u8, 0xb8u8, 0x29u8, 0xa0u8, 0x31u8, 0xe1u8, 0x72u8, 0x4eu8, 0x64u8, 0x30u8]) by {
        assert(58502123113779068300447813int % 256 == 69);
        assert(58502123113779068300447813int / 256 == 228523918413199485548624int);
    }
    assert(signed_bytes_le(14976543517127441484914640310int) =~= seq![0xb6u8, 0x45u8, 0x50u8, 0xb8u8, 0x29u8, 0xa0u8, 0x31u8, 0xe1u8, 0x72u8, 0x4eu8, 0x64u8, 0x30u8]) by {
        assert(14976543517127441484914640310int % 256 == 182);
        assert(14976543517127441484914640310int / 256 == 58502123113779068300447813int);
    }
    assert(signed_bytes_le(3833995140384625020138147919489int) =~= seq![0x81u8, 0xb6u8, 0x45u8, 0x50u8, 0xb8u8, 0x29u8, 0xa0u8, 0x31u8, 0xe1u8, 0x72u8, 0x4eu8, 0x64u8, 0x30u8]) by {
        assert(3833995140384625020138147919489int % 256 == 129);
        assert(3833995140384625020138147919489int / 256 == 14976543517127441484914640310int);
    }
    assert(signed_bytes_le(981502755938464005155365867389313int) =~= seq![0x81u8, 0x81u8, 0xb6u8, 0x45u8, 0x50u8, 0xb8u8, 0x29u8, 0xa0u8, 0x31u8, 0xe1u8, 0x72u8, 0x4eu8, 0x64u8, 0x30u8]) by {
        assert(981502755938464005155365867389313int % 256 == 129);
        assert(981502755938464005155365867389313int / 256 == 3833995140384625020138147919489int);
    }
    assert(signed_bytes_le(251264705520246785319773662051664216int) =~= seq![0x58u8, 0x81u8, 0x81u8, 0xb6u8, 0x45u8, 0x50u8, 0xb8u8, 0x29u8, 0xa0u8, 0x31u8, 0xe1u8, 0x72u8, 0x4eu8, 0x64u8, 0x30u8]) by {
        assert(251264705520246785319773662051664216int % 256 == 88);
        assert(251264705520246785319773662051664216int / 256 == 981502755938464005155365867389313int);
    }
    assert(signed_bytes_le(64323764613183177041862057485226039389int) =~= seq![0x5du8, 0x58u8, 0x81u8, 0x81u8, 0xb6u8, 0x45u8, 0x50u8, 0xb8u8, 0x29u8, 0xa0u8, 0x31u8, 0xe1u8, 0x72u8, 0x4eu8, 0x64u8, 0x30u8]) by {
        assert(64323764613183177041862057485226039389int % 256 == 93);
        assert(64323764613183177041862057485226039389int / 256 == 251264705520246785319773662051664216int);
    }
    assert(signed_bytes_le(16466883740974893322716686716217866083624int) =~= seq![0x28u8, 0x5du8, 0x58u8, 0x81u8, 0x81u8, 0xb6u8, 0x45u8, 0x50u8, 0xb8u8, 0x29u8, 0xa0u8, 0x31u8, 0xe1u8, 0x72u8, 0x4eu8, 0x64u8, 0x30u8]) by {
        assert(16466883740974893322716686716217866083624int % 256 == 40);
        assert(16466883740974893322716686716217866083624int / 256 == 64323764613183177041862057485226039389int);
    }
    assert(signed_bytes_le(4215522237689572690615471799351773717407795int) =~= seq![0x33u8, 0x28u8, 0x5du8, 0x58u8, 0x81u8, 0x81u8, 0xb6u8, 0x45u8, 0x50u8, 0xb8u8, 0x29u8, 0xa0u8, 0x31u8, 0xe1u8, 0x72u8, 0x4eu8, 0x64u8, 0x30u8]) by {
        assert(4215522237689572690615471799351773717407795int % 256 == 51);
        assert(4215522237689572690615471799351773717407795int / 256 == 16466883740974893322716686716217866083624int);
    }
    assert(signed_bytes_le(1079173692848530608797560780634054071656395752int) =~= seq![0xe8u8, 0x33u8, 0x28u8, 0x5du8, 0x58u8, 0x81u8, 0x81u8, 0xb6u8, 0x45u8, 0x50u8, 0xb8u8, 0x29u8, 0xa0u8, 0x31u8, 0xe1u8, 0x72u8, 0x4eu8, 0x64u8, 0x30u8]) by {
        assert(1079173692848530608797560780634054071656395752int % 256 == 232);
        assert(1079173692848530608797560780634054071656395752int / 256 == 4215522237689572690615471799351773717407795int);
    }
    assert(signed_bytes_le(276268465369223835852175559842317842344037312584int) =~= seq![0x48u8, 0xe8u8, 0x33u8, 0x28u8, 0x5du8, 0x58u8, 0x81u8, 0x81u8, 0xb6u8, 0x45u8, 0x50u8, 0xb8u8, 0x29u8, 0xa0u8, 0x31u8, 0xe1u8, 0x72u8, 0x4eu8, 0x64u8, 0x30u8]) by {
        assert(276268465369223835852175559842317842344037312584int % 256 == 72);
        assert(276268465369223835852175559842317842344037312584int / 256 == 1079173692848530608797560780634054071656395752int);
    }
    assert(signed_bytes_le(70724727134521301978156943319633367640073552021625int) =~= seq![0x79u8, 0x48u8, 0xe8u8, 0x33u8, 0x28u8, 0x5du8, 0x58u8, 0x81u8, 0x81u8, 0xb6u8, 0x45u8, 0x50u8, 0xb8u8, 0x29u8, 0xa0u8, 0x31u8, 0xe1u8, 0x72u8, 0x4eu8, 0x64u8, 0x30u8]) by {
        assert(70724727134521301978156943319633367640073552021625int % 256 == 121);
        assert(70724727134521301978156943319633367640073552021625int / 256 == 276268465369223835852175559842317842344037312584int);
    }
    assert(signed_bytes_le(18105530146437453306408177489826142115858829317536185int) =~= seq![0xb9u8, 0x79u8, 0x48u8, 0xe8u8, 0x33u8, 0x28u8, 0x5du8, 0x58u8, 0x81u8, 0x81u8, 0xb6u8, 0x45u8, 0x50u8, 0xb8u8, 0x29u8, 0xa0u8, 0x31u8, 0xe1u8, 0x72u8, 0x4eu8, 0x64u8, 0x30u8]) by {
        assert(18105530146437453306408177489826142115858829317536185int % 256 == 185);
        assert(18105530146437453306408177489826142115858829317536185int / 256 == 70724727134521301978156943319633367640073552021625int);
    }
    assert(signed_bytes_le(4635015717487988046440493437395492381659860305289263472int) =~= seq![0x70u8, 0xb9u8, 0x79u8, 0x48u8, 0xe8u8, 0x33u8, 0x28u8, 0x5du8, 0x58u8, 0x81u8, 0x81u8, 0xb6u8, 0x45u8, 0x50u8, 0xb8u8, 0x29u8, 0xa0u8, 0x31u8, 0xe1u8, 0x72u8, 0x4eu8, 0x64u8, 0x30u8]) by {
        assert(4635015717487988046440493437395492381659860305289263472int % 256 == 112);
        assert(4635015717487988046440493437395492381659860305289263472int / 256 == 18105530146437453306408177489826142115858829317536185int);
    }
    assert(signed_bytes_le(1186564023676924939888766319973246049704924238154051448977int) =~= seq![0x91u8, 0x70u8, 0xb9u8, 0x79u8, 0x48u8, 0xe8u8, 0x33u8, 0x28u8, 0x5du8, 0x58u8, 0x81u8, 0x81u8, 0xb6u8, 0x45u8, 0x50u8, 0xb8u8, 0x29u8, 0xa0u8, 0x31u8, 0xe1u8, 0x72u8, 0x4eu8, 0x64u8, 0x30u8]) by {
        assert(1186564023676924939888766319973246049704924238154051448977int % 256 == 145);
        assert(1186564023676924939888766319973246049704924238154051448977int / 256 == 4635015717487988046440493437395492381659860305289263472int);
    }
    assert(signed_bytes_le(303760390061292784611524177913150988724460604967437170938179int) =~= seq![0x43u8, 0x91u8, 0x70u8, 0xb9u8, 0x79u8, 0x48u8, 0xe8u8, 0x33u8, 0x28u8, 0x5du8, 0x58u8, 0x81u8, 0x81u8, 0xb6u8, 0x45u8, 0x50u8, 0xb8u8, 0x29u8, 0xa0u8, 0x31u8, 0xe1u8, 0x72u8, 0x4eu8, 0x64u8, 0x30u8]) by {
        assert(303760390061292784611524177913150988724460604967437170938179int % 256 == 67);
        assert(303760390061292784611524177913150988724460604967437170938179int / 256 == 1186564023676924939888766319973246049704924238154051448977int);
    }
    assert(signed_bytes_le(77762659855690952860550189545766653113461914871663915760174049int) =~= seq![0xe1u8, 0x43u8, 0x91u8, 0x70u8, 0xb9u8, 0x79u8, 0x48u8, 0xe8u8, 0x33u8, 0x28u8, 0x5du8, 0x58u8, 0x81u8, 0x81u8, 0xb6u8, 0x45u8, 0x50u8, 0xb8u8, 0x29u8, 0xa0u8, 0x31u8, 0xe1u8, 0x72u8, 0x4eu8, 0x64u8, 0x30u8]) by {
        assert(77762659855690952860550189545766653113461914871663915760174049int % 256 == 225);
        assert(77762659855690952860550189545766653113461914871663915760174049int / 256 == 303760390061292784611524177913150988724460604967437170938179int);
    }
    assert(signed_bytes_le(19907240923056883932300848523716263197046250207145962434604556789int) =~= seq![0xf5u8, 0xe1u8, 0x43u8, 0x91u8, 0x70u8, 0xb9u8, 0x79u8, 0x48u8, 0xe8u8, 0x33u8, 0x28u8, 0x5du8, 0x58u8, 0x81u8, 0x81u8, 0xb6u8, 0x45u8, 0x50u8, 0xb8u8, 0x29u8, 0xa0u8, 0x31u8, 0xe1u8, 0x72u8, 0x4eu8, 0x64u8, 0x30u8]) by {
        assert(19907240923056883932300848523716263197046250207145962434604556789int % 256 == 245);
        assert(19907240923056883932300848523716263197046250207145962434604556789int / 256 == 77762659855690952860550189545766653113461914871663915760174049int);
    }
    assert(signed_bytes_le(5096253676302562286669017222071363378443840053029366383258766538131int) =~= seq![0x93u8, 0xf5u8, 0xe1u8, 0x43u8, 0x91u8, 0x70u8, 0xb9u8, 0x79u8, 0x48u8, 0xe8u8, 0x33u8, 0x28u8, 0x5du8, 0x58u8, 0x81u8, 0x81u8, 0xb6u8, 0x45u8, 0x50u8, 0xb8u8, 0x29u8, 0xa0u8, 0x31u8, 0xe1u8, 0x72u8, 0x4eu8, 0x64u8, 0x30u8]) by {
        assert(5096253676302562286669017222071363378443840053029366383258766538131int % 256 == 147);
        assert(5096253676302562286669017222071363378443840053029366383258766538131int / 256 == 19907240923056883932300848523716263197046250207145962434604556789int);
    }
    assert(signed_bytes_le(1304640941133455945387268408850269024881623053575517794114244233761776int) =~= seq![0xf0u8, 0x93u8, 0xf5u8, 0xe1u8, 0x43u8, 0x91u8, 0x70u8, 0xb9u8, 0x79u8, 0x48u8, 0xe8u8, 0x33u8, 0x28u8, 0x5du8, 0x58u8, 0x81u8, 0x81u8, 0xb6u8, 0x45u8, 0x50u8, 0xb8u8, 0x29u8, 0xa0u8, 0x31u8, 0xe1u8, 0x72u8, 0x4eu8, 0x64u8, 0x30u8]) by {
        assert(1304640941133455945387268408850269024881623053575517794114244233761776int % 256 == 240);
        assert(1304640941133455945387268408850269024881623053575517794114244233761776int / 256 == 5096253676302562286669017222071363378443840053029366383258766538131int);
    }
    assert(signed_bytes_le(333988080930164722019140712665668870369695501715332555293246523843014656int) =~= seq![0x00u8, 0xf0u8, 0x93u8, 0xf5u8, 0xe1u8, 0x43u8, 0x91u8, 0x70u8, 0xb9u8, 0x79u8, 0x48u8, 0xe8u8, 0x33u8, 0x28u8, 0x5du8, 0x58u8, 0x81u8, 0x81u8, 0xb6u8, 0x45u8, 0x50u8, 0xb8u8, 0x29u8, 0xa0u8, 0x31u8, 0xe1u8, 0x72u8, 0x4eu8, 0x64u8, 0x30u8]) by {
        assert(333988080930164722019140712665668870369695501715332555293246523843014656int % 256 == 0);
        assert(333988080930164722019140712665668870369695501715332555293246523843014656int / 256 == 1304640941133455945387268408850269024881623053575517794114244233761776int);
    }
    assert(signed_bytes_le(85500948718122168836900022442411230814642048439125134155071110103811751936int) =~= seq![0x00u8, 0x00u8, 0xf0u8, 0x93u8, 0xf5u8, 0xe1u8, 0x43u8, 0x91u8, 0x70u8, 0xb9u8, 0x79u8, 0x48u8, 0xe8u8, 0x33u8, 0x28u8, 0x5du8, 0x58u8, 0x81u8, 0x81u8, 0xb6u8, 0x45u8, 0x50u8, 0xb8u8, 0x29u8, 0xa0u8, 0x31u8, 0xe1u8, 0x72u8, 0x4eu8, 0x64u8, 0x30u8]) by {
        assert(85500948718122168836900022442411230814642048439125134155071110103811751936int % 256 == 0);
        assert(85500948718122168836900022442411230814642048439125134155071110103811751936int / 256 == 333988080930164722019140712665668870369695501715332555293246523843014656int);
    }
    assert(signed_bytes_le(21888242871839275222246405745257275088548364400416034343698204186575808495617int) =~= seq![0x01u8, 0x00u8, 0x00u8, 0xf0u8, 0x93u8, 0xf5u8, 0xe1u8, 0x43u8, 0x91u8, 0x70u8, 0xb9u8, 0x79u8, 0x48u8, 0xe8u8, 0x33u8, 0x28u8, 0x5du8, 0x58u8, 0x81u8, 0x81u8, 0xb6u8, 0x45u8, 0x50u8, 0xb8u8, 0x29u8, 0xa0u8, 0x31u8, 0xe1u8, 0x72u8, 0x4eu8, 0x64u8, 0x30u8]) by {
        assert(21888242871839275222246405745257275088548364400416034343698204186575808495617int % 256 == 1);
        assert(21888242871839275222246405745257275088548364400416034343698204186575808495617int / 256 == 85500948718122168836900022442411230814642048439125134155071110103811751936int);
    }
}

} // verus!
