//! The `wtns` witness file: a header that names the BN254 scalar field, then every
//! witness value in 32 little-endian bytes.

use vstd::prelude::*;
use crate::bigint::{
    field_modulus, le_bytes, le_value, lemma_le_bytes_len, lemma_le_bytes_value,
    lemma_le_bytes_value_mod, lemma_modulus_literal, lemma_padded_signed_bytes_value,
    lemma_modulus_bytes, lemma_signed_bytes_of_modulus, parse_decimal, pow256, signed_bytes_le, signed_le_bytes_of,
    zero_padded, BigIntValue,
};

verus! {

#[verifier::external_type_specification]
#[verifier::external_body]
pub struct ExIoError(std::io::Error);

/// Bytes per witness value (the field's `n8`).
pub const FIELD_ELEMENT_BYTES: u32 = 32;

/// The low `n` bytes of `x`, least significant first: what `to_le_bytes` gives for
/// a `u32` (`n = 4`) or a `u64` (`n = 8`).
fn le_bytes_vec(x: u64, n: usize) -> (r: Vec<u8>)
    ensures
        r@ == le_bytes(x as nat, n as nat),
{
    let mut r: Vec<u8> = Vec::new();
    let mut y: u64 = x;
    let mut i: usize = 0;
    while i < n
        invariant
            i <= n,
            r@ + le_bytes(y as nat, (n - i) as nat) == le_bytes(x as nat, n as nat),
        decreases n - i,
    {
        let ghost rest = le_bytes(y as nat, (n - i) as nat);
        let ghost before = r@;
        assert(rest == seq![(y % 256) as u8] + le_bytes((y / 256) as nat, (n - i - 1) as nat));
        r.push((y % 256) as u8);
        y = y / 256;
        i = i + 1;
        assert(r@ + le_bytes(y as nat, (n - i) as nat) =~= before + rest);
    }
    assert(r@ + le_bytes(y as nat, 0) =~= r@);
    r
}

/// The header of a `wtns` file that holds `n` witness values: the magic `wtns`,
/// format version 2, two sections; section 1 (field parameters: `n8 = 32`, the
/// field modulus in two's complement, the number of values as a `u32`); and the
/// heading of section 2 (its id and its size in bytes). Integers are little-endian.
pub open spec fn wtns_header(n: nat) -> Seq<u8> {
    seq![0x77u8, 0x74u8, 0x6eu8, 0x73u8] + le_bytes(2, 4) + le_bytes(2, 4) + le_bytes(1, 4)
        + le_bytes(40, 8) + le_bytes(32, 4) + signed_bytes_le(field_modulus()) + le_bytes(
        n % 0x1_0000_0000,
        4,
    ) + le_bytes(2, 4) + le_bytes(n * 32, 8)
}

/// The 32 bytes that stand for one witness value: its two's-complement encoding,
/// cut or zero-padded to 32 bytes.
pub open spec fn witness_chunk(v: int) -> Seq<u8> {
    zero_padded(signed_bytes_le(v), 32)
}

/// The witness section: the chunks of all values, in order.
pub open spec fn witness_section(values: Seq<int>) -> Seq<u8>
    decreases values.len(),
{
    if values.len() == 0 {
        Seq::empty()
    } else {
        witness_section(values.drop_last()) + witness_chunk(values.last())
    }
}

/// The whole `wtns` file for the given witness values.
pub open spec fn wtns_file(values: Seq<int>) -> Seq<u8> {
    wtns_header(values.len()) + witness_section(values)
}

/// The integers that a sequence of big integers stands for.
pub open spec fn values_of(bigints: Seq<BigIntValue>) -> Seq<int> {
    bigints.map_values(|b: BigIntValue| b.value())
}

fn append_bytes(out: &mut Vec<u8>, bytes: &[u8])
    ensures
        final(out)@ == old(out)@ + bytes@,
{
    out.extend_from_slice(bytes);
    assert(final(out)@ =~= old(out)@ + bytes@);
}

/// Encodes witness values in the `wtns` format that rapidsnark reads: the header of
/// `wtns_header`, then each value in 32 little-endian bytes (`witness_chunk`). It
/// never fails; the error type is that of an I/O result.
pub fn parse_bigints_to_witness(bigints: Vec<BigIntValue>) -> (r: Result<Vec<u8>, std::io::Error>)
    requires
        bigints@.len() * 32 <= u64::MAX,
    ensures
        r matches Ok(bytes) && bytes@ == wtns_file(values_of(bigints@)),
        r matches Ok(bytes) ==> bytes@.len() == 76 + 32 * bigints@.len(),
        r matches Ok(bytes) ==> bytes@.subrange(0, 28) == seq![
            0x77u8, 0x74u8, 0x6eu8, 0x73u8, 2u8, 0u8, 0u8, 0u8, 2u8, 0u8, 0u8, 0u8, 1u8, 0u8, 0u8, 0u8,
            40u8, 0u8, 0u8, 0u8, 0u8, 0u8, 0u8, 0u8, 32u8, 0u8, 0u8, 0u8,
        ],
        r matches Ok(bytes) ==> le_value(bytes@.subrange(28, 60)) == field_modulus(),
        r matches Ok(bytes) ==> bytes@.subrange(28, 60) == seq![0x01u8, 0x00u8, 0x00u8, 0xf0u8, 0x93u8, 0xf5u8, 0xe1u8, 0x43u8, 0x91u8, 0x70u8, 0xb9u8, 0x79u8, 0x48u8, 0xe8u8, 0x33u8, 0x28u8, 0x5du8, 0x58u8, 0x81u8, 0x81u8, 0xb6u8, 0x45u8, 0x50u8, 0xb8u8, 0x29u8, 0xa0u8, 0x31u8, 0xe1u8, 0x72u8, 0x4eu8, 0x64u8, 0x30u8],
        r matches Ok(bytes) ==> le_value(bytes@.subrange(60, 64)) == bigints@.len() % 0x1_0000_0000,
        r matches Ok(bytes) ==> bytes@.subrange(64, 68) == seq![2u8, 0u8, 0u8, 0u8],
        r matches Ok(bytes) ==> le_value(bytes@.subrange(68, 76)) == 32 * bigints@.len(),
        r matches Ok(bytes) ==> forall|i: int|
            0 <= i < bigints@.len() ==> #[trigger] bytes@.subrange(76 + 32 * i, 76 + 32 * i + 32)
                == zero_padded(signed_bytes_le(bigints@[i].value()), 32),
        r matches Ok(bytes) ==> forall|i: int, k: int|
            0 <= i < bigints@.len() && 0 <= k < 32 ==> #[trigger] bytes@.subrange(
                76 + 32 * i,
                76 + 32 * i + 32,
            )[k] == if k < #[trigger] signed_bytes_le(bigints@[i].value()).len() {
                signed_bytes_le(bigints@[i].value())[k]
            } else {
                0u8
            },
        r matches Ok(bytes) ==> forall|i: int|
            0 <= i < bigints@.len() && 0 <= bigints@[i].value() < pow256(32) ==> le_value(
                #[trigger] bytes@.subrange(76 + 32 * i, 76 + 32 * i + 32),
            ) == bigints@[i].value(),
{
    let mut buffer: Vec<u8> = Vec::new();
    let version: u32 = 2;
    let n_sections: u32 = 2;
    let n8: u32 = FIELD_ELEMENT_BYTES;
    proof {
        lemma_modulus_literal();
    }
    let q = parse_decimal(
        "21888242871839275222246405745257275088548364400416034343698204186575808495617",
    ).unwrap();
    let n: usize = bigints.len();
    let n_witness_values: u32 = #[verifier::truncate] (n as u32);
    proof {
        assert(n_witness_values == (n as u64) % 0x1_0000_0000u64) by (bit_vector)
            requires n_witness_values == n as u32;
    }

    let wtns_format = "wtns".as_bytes();
    proof {
        reveal_strlit("wtns");
        vstd::string::is_ascii_spec_bytes("wtns");
        assert(wtns_format@ =~= seq![0x77u8, 0x74u8, 0x6eu8, 0x73u8]);
    }
    append_bytes(&mut buffer, wtns_format);
    append_bytes(&mut buffer, le_bytes_vec(version as u64, 4).as_slice());
    append_bytes(&mut buffer, le_bytes_vec(n_sections as u64, 4).as_slice());

    let section_id_1: u32 = 1;
    let section_length_1: u64 = 8 + n8 as u64;
    append_bytes(&mut buffer, le_bytes_vec(section_id_1 as u64, 4).as_slice());
    append_bytes(&mut buffer, le_bytes_vec(section_length_1, 8).as_slice());

    append_bytes(&mut buffer, le_bytes_vec(n8 as u64, 4).as_slice());
    append_bytes(&mut buffer, signed_le_bytes_of(&q).as_slice());
    append_bytes(&mut buffer, le_bytes_vec(n_witness_values as u64, 4).as_slice());

    let section_id_2: u32 = 2;
    let section_length_2: u64 = n as u64 * n8 as u64;
    append_bytes(&mut buffer, le_bytes_vec(section_id_2 as u64, 4).as_slice());
    append_bytes(&mut buffer, le_bytes_vec(section_length_2, 8).as_slice());

    let ghost values = values_of(bigints@);
    assert(buffer@ =~= wtns_header(values.len()));

    let mut i: usize = 0;
    while i < n
        invariant
            n == bigints@.len(),
            n8 == 32,
            values == values_of(bigints@),
            i <= n,
            buffer@ == wtns_header(values.len()) + witness_section(values.take(i as int)),
        decreases n - i,
    {
        let mut bytes = signed_le_bytes_of(&bigints[i]);
        let ghost encoded = bytes@;
        bytes.resize(n8 as usize, 0);
        proof {
            assert(values[i as int] == bigints@[i as int].value());
            assert(encoded == signed_bytes_le(values[i as int]));
            if encoded.len() < 32 {
                assert(forall|j: int| encoded.len() <= j < 32 ==> bytes@[j] == 0u8);
            }
            assert(bytes@ =~= witness_chunk(values[i as int]));
            assert(values.take(i + 1).drop_last() =~= values.take(i as int));
        }
        append_bytes(&mut buffer, bytes.as_slice());
        i = i + 1;
        proof {
            assert(buffer@ =~= wtns_header(values.len()) + witness_section(values.take(i as int)));
        }
    }
    assert(values.take(n as int) =~= values);
    proof {
        lemma_witness_file_of(bigints@);
    }
    Ok(buffer)
}

/// Every value takes 32 bytes in the witness section, and the bytes at
/// `32 * i .. 32 * i + 32` are the chunk of value `i`.
pub proof fn lemma_witness_section_layout(values: Seq<int>)
    ensures
        witness_section(values).len() == 32 * values.len(),
        forall|i: int|
            0 <= i < values.len() ==> #[trigger] witness_section(values).subrange(32 * i, 32 * i + 32)
                == witness_chunk(values[i]),
    decreases values.len(),
{
    if values.len() > 0 {
        let init = values.drop_last();
        lemma_witness_section_layout(init);
        let prev = witness_section(init);
        let whole = witness_section(values);
        assert(witness_chunk(values.last()).len() == 32);
        assert forall|i: int| 0 <= i < values.len() implies #[trigger] whole.subrange(32 * i, 32 * i + 32)
            == witness_chunk(values[i]) by {
            if i < init.len() {
                assert(whole.subrange(32 * i, 32 * i + 32) =~= prev.subrange(32 * i, 32 * i + 32));
                assert(init[i] == values[i]);
            } else {
                assert(whole.subrange(32 * i, 32 * i + 32) =~= witness_chunk(values.last()));
            }
        }
    }
}

/// A `wtns` file for `n` values is 76 header bytes followed by 32 bytes per value.
pub proof fn lemma_wtns_file_len(values: Seq<int>)
    ensures
        wtns_header(values.len()).len() == 76,
        wtns_file(values).len() == 76 + 32 * values.len(),
{
    lemma_signed_bytes_of_modulus();
    reveal_with_fuel(le_bytes, 9);
    lemma_le_bytes_len(values.len() % 0x1_0000_0000, 4);
    lemma_le_bytes_len(values.len() * 32, 8);
    lemma_witness_section_layout(values);
}

/// Every witness value `0 <= v < 2^256` reads back from its 32 bytes of the file,
/// taken as an unsigned little-endian number.
pub proof fn lemma_wtns_file_value(values: Seq<int>, i: int)
    requires
        0 <= i < values.len(),
        0 <= values[i] < pow256(32),
    ensures
        le_value(wtns_file(values).subrange(76 + 32 * i, 76 + 32 * i + 32)) == values[i],
{
    lemma_wtns_file_len(values);
    lemma_witness_section_layout(values);
    let header = wtns_header(values.len());
    let section = witness_section(values);
    assert(wtns_file(values).subrange(76 + 32 * i, 76 + 32 * i + 32) =~= section.subrange(
        32 * i,
        32 * i + 32,
    ));
    lemma_padded_signed_bytes_value(values[i]);
}

/// The header's bytes: `wtns`, version 2, two sections, section 1 of 40 bytes with
/// `n8 = 32`, the field modulus, the count of values modulo 2^32, then section 2
/// and its size of `32 * n` bytes.
pub proof fn lemma_wtns_header_bytes(n: nat)
    ensures
        wtns_header(n).subrange(0, 28) == seq![
            0x77u8, 0x74u8, 0x6eu8, 0x73u8, 2u8, 0u8, 0u8, 0u8, 2u8, 0u8, 0u8, 0u8, 1u8, 0u8, 0u8, 0u8,
            40u8, 0u8, 0u8, 0u8, 0u8, 0u8, 0u8, 0u8, 32u8, 0u8, 0u8, 0u8,
        ],
        wtns_header(n).subrange(28, 60) == signed_bytes_le(field_modulus()),
        wtns_header(n).subrange(60, 64) == le_bytes(n % 0x1_0000_0000, 4),
        wtns_header(n).subrange(64, 68) == seq![2u8, 0u8, 0u8, 0u8],
        wtns_header(n).subrange(68, 76) == le_bytes(n * 32, 8),
{
    lemma_signed_bytes_of_modulus();
    reveal_with_fuel(le_bytes, 9);
    let h = wtns_header(n);
    lemma_le_bytes_len(n % 0x1_0000_0000, 4);
    lemma_le_bytes_len(n * 32, 8);
    assert(h.subrange(0, 28) =~= seq![
        0x77u8, 0x74u8, 0x6eu8, 0x73u8, 2u8, 0u8, 0u8, 0u8, 2u8, 0u8, 0u8, 0u8, 1u8, 0u8, 0u8, 0u8,
        40u8, 0u8, 0u8, 0u8, 0u8, 0u8, 0u8, 0u8, 32u8, 0u8, 0u8, 0u8,
    ]);
    assert(h.subrange(28, 60) =~= signed_bytes_le(field_modulus()));
    assert(h.subrange(60, 64) =~= le_bytes(n % 0x1_0000_0000, 4));
    assert(h.subrange(64, 68) =~= seq![2u8, 0u8, 0u8, 0u8]);
    assert(h.subrange(68, 76) =~= le_bytes(n * 32, 8));
}

/// The header names the field: bytes 28..60 read back as the field modulus, bytes
/// 60..64 as the number of values (modulo 2^32), and bytes 68..76 as the size of the
/// witness section.
pub proof fn lemma_wtns_header_fields(n: nat)
    requires
        n * 32 < pow256(8),
    ensures
        le_value(wtns_header(n).subrange(28, 60)) == field_modulus(),
        le_value(wtns_header(n).subrange(60, 64)) == n % 0x1_0000_0000,
        le_value(wtns_header(n).subrange(68, 76)) == n * 32,
{
    lemma_wtns_header_bytes(n);
    lemma_signed_bytes_of_modulus();
    reveal_with_fuel(pow256, 5);
    lemma_le_bytes_value(n % 0x1_0000_0000, 4);
    lemma_le_bytes_value(n * 32, 8);
}

/// The witness section of two runs of values one after the other is the two
/// sections one after the other.
pub proof fn lemma_witness_section_concat(a: Seq<int>, b: Seq<int>)
    ensures
        witness_section(a + b) == witness_section(a) + witness_section(b),
    decreases b.len(),
{
    if b.len() == 0 {
        assert(a + b =~= a);
        assert(witness_section(a) + witness_section(b) =~= witness_section(a));
    } else {
        lemma_witness_section_concat(a, b.drop_last());
        assert((a + b).drop_last() =~= a + b.drop_last());
        assert((a + b).last() == b.last());
    }
}

/// The header of a `wtns` file, its first 76 bytes, depends only on how many
/// values it holds.
pub proof fn lemma_wtns_header_depends_on_count(a: Seq<BigIntValue>, b: Seq<BigIntValue>)
    requires
        a.len() == b.len(),
    ensures
        wtns_file(values_of(a)).take(76) == wtns_file(values_of(b)).take(76),
{
    let va = values_of(a);
    let vb = values_of(b);
    lemma_wtns_file_len(va);
    lemma_wtns_file_len(vb);
    assert(wtns_file(va).take(76) =~= wtns_header(va.len()));
    assert(wtns_file(vb).take(76) =~= wtns_header(vb.len()));
}

/// After the header, the file for two runs of values one after the other is the
/// files for each run, after their headers, one after the other.
pub proof fn lemma_wtns_file_concat(a: Seq<BigIntValue>, b: Seq<BigIntValue>)
    ensures
        wtns_file(values_of(a + b)).skip(76) == wtns_file(values_of(a)).skip(76) + wtns_file(
            values_of(b),
        ).skip(76),
{
    let va = values_of(a);
    let vb = values_of(b);
    let vab = values_of(a + b);
    assert(vab =~= va + vb);
    lemma_wtns_file_len(va);
    lemma_wtns_file_len(vb);
    lemma_wtns_file_len(vab);
    lemma_witness_section_concat(va, vb);
    assert(wtns_file(vab).skip(76) =~= witness_section(vab));
    assert(wtns_file(va).skip(76) =~= witness_section(va));
    assert(wtns_file(vb).skip(76) =~= witness_section(vb));
}

/// The layout of a `wtns` file for any values, byte by byte: 76 header bytes, then
/// 32 per value; the magic, version, section count, section 1's id and size and
/// `n8 = 32` as fixed bytes; bytes 28..60 read back as the field modulus; bytes
/// 60..64 as the number of values modulo 2^32; section 2's id; bytes 68..76 as the
/// section size `32 * n` modulo 2^64; and every value `0 <= v < 2^256` from its 32
/// bytes.
pub proof fn lemma_wtns_file_layout(values: Seq<int>)
    ensures
        wtns_file(values).len() == 76 + 32 * values.len(),
        wtns_file(values).subrange(0, 28) == seq![
            0x77u8, 0x74u8, 0x6eu8, 0x73u8, 2u8, 0u8, 0u8, 0u8, 2u8, 0u8, 0u8, 0u8, 1u8, 0u8, 0u8, 0u8,
            40u8, 0u8, 0u8, 0u8, 0u8, 0u8, 0u8, 0u8, 32u8, 0u8, 0u8, 0u8,
        ],
        le_value(wtns_file(values).subrange(28, 60)) == field_modulus(),
        le_value(wtns_file(values).subrange(60, 64)) == values.len() % 0x1_0000_0000,
        wtns_file(values).subrange(64, 68) == seq![2u8, 0u8, 0u8, 0u8],
        le_value(wtns_file(values).subrange(68, 76)) == (32 * values.len()) % 0x1_0000_0000_0000_0000,
        forall|i: int|
            0 <= i < values.len() && 0 <= values[i] < pow256(32) ==> le_value(
                #[trigger] wtns_file(values).subrange(76 + 32 * i, 76 + 32 * i + 32),
            ) == values[i],
{
    let n = values.len();
    let f = wtns_file(values);
    let h = wtns_header(n);
    lemma_wtns_file_len(values);
    lemma_wtns_header_bytes(n);
    lemma_signed_bytes_of_modulus();
    assert(f.subrange(0, 76) =~= h);
    assert(f.subrange(0, 28) =~= h.subrange(0, 28));
    assert(f.subrange(28, 60) =~= h.subrange(28, 60));
    assert(f.subrange(60, 64) =~= h.subrange(60, 64));
    assert(f.subrange(64, 68) =~= h.subrange(64, 68));
    assert(f.subrange(68, 76) =~= h.subrange(68, 76));
    reveal_with_fuel(pow256, 9);
    lemma_le_bytes_value_mod(n % 0x1_0000_0000, 4);
    assert((n % 0x1_0000_0000) % 0x1_0000_0000 == n % 0x1_0000_0000);
    lemma_le_bytes_value_mod(n * 32, 8);
    assert forall|i: int|
        0 <= i < values.len() && 0 <= values[i] < pow256(32) implies le_value(
            #[trigger] wtns_file(values).subrange(76 + 32 * i, 76 + 32 * i + 32),
        ) == values[i] by {
        lemma_wtns_file_value(values, i);
    }
}

/// What the file for big integers holds: its length, fixed header bytes, the field
/// modulus, the count and the section size, and each value's 32 bytes, which are
/// its cut or zero-padded two's complement and read back as the value when
/// `0 <= v < 2^256`.
pub proof fn lemma_witness_file_of(bigints: Seq<BigIntValue>)
    requires
        bigints.len() * 32 <= u64::MAX,
    ensures
        ({
            let bytes = wtns_file(values_of(bigints));
            &&& bytes.len() == 76 + 32 * bigints.len()
            &&& bytes.subrange(0, 28) == seq![
                0x77u8, 0x74u8, 0x6eu8, 0x73u8, 2u8, 0u8, 0u8, 0u8, 2u8, 0u8, 0u8, 0u8, 1u8, 0u8, 0u8, 0u8,
                40u8, 0u8, 0u8, 0u8, 0u8, 0u8, 0u8, 0u8, 32u8, 0u8, 0u8, 0u8,
            ]
            &&& le_value(bytes.subrange(28, 60)) == field_modulus()
            &&& bytes.subrange(28, 60) == seq![0x01u8, 0x00u8, 0x00u8, 0xf0u8, 0x93u8, 0xf5u8, 0xe1u8, 0x43u8, 0x91u8, 0x70u8, 0xb9u8, 0x79u8, 0x48u8, 0xe8u8, 0x33u8, 0x28u8, 0x5du8, 0x58u8, 0x81u8, 0x81u8, 0xb6u8, 0x45u8, 0x50u8, 0xb8u8, 0x29u8, 0xa0u8, 0x31u8, 0xe1u8, 0x72u8, 0x4eu8, 0x64u8, 0x30u8]
            &&& le_value(bytes.subrange(60, 64)) == bigints.len() % 0x1_0000_0000
            &&& bytes.subrange(64, 68) == seq![2u8, 0u8, 0u8, 0u8]
            &&& le_value(bytes.subrange(68, 76)) == 32 * bigints.len()
            &&& forall|i: int|
                0 <= i < bigints.len() ==> #[trigger] bytes.subrange(76 + 32 * i, 76 + 32 * i + 32)
                    == zero_padded(signed_bytes_le(bigints[i].value()), 32)
            &&& forall|i: int, k: int|
                0 <= i < bigints.len() && 0 <= k < 32 ==> #[trigger] bytes.subrange(
                    76 + 32 * i,
                    76 + 32 * i + 32,
                )[k] == if k < #[trigger] signed_bytes_le(bigints[i].value()).len() {
                    signed_bytes_le(bigints[i].value())[k]
                } else {
                    0u8
                }
            &&& forall|i: int|
                0 <= i < bigints.len() && 0 <= bigints[i].value() < pow256(32) ==> le_value(
                    #[trigger] bytes.subrange(76 + 32 * i, 76 + 32 * i + 32),
                ) == bigints[i].value()
        }),
{
    let values = values_of(bigints);
    let bytes = wtns_file(values);
    let n = bigints.len();
    lemma_wtns_file_layout(values);
    lemma_wtns_header_bytes(n);
    lemma_wtns_file_len(values);
    lemma_modulus_bytes();
    assert(bytes.subrange(28, 60) =~= wtns_header(n).subrange(28, 60));
    lemma_witness_section_layout(values);
    assert(32 * n < 0x1_0000_0000_0000_0000);
    assert forall|i: int| 0 <= i < n implies #[trigger] bytes.subrange(
        76 + 32 * i,
        76 + 32 * i + 32,
    ) == zero_padded(signed_bytes_le(bigints[i].value()), 32) by {
        assert(values[i] == bigints[i].value());
        assert(bytes.subrange(76 + 32 * i, 76 + 32 * i + 32) =~= witness_section(values).subrange(
            32 * i,
            32 * i + 32,
        ));
    }
    assert forall|i: int|
        0 <= i < n && 0 <= bigints[i].value() < pow256(32) implies le_value(
        #[trigger] bytes.subrange(76 + 32 * i, 76 + 32 * i + 32),
    ) == bigints[i].value() by {
        assert(values[i] == bigints[i].value());
    }
}

} // verus!
