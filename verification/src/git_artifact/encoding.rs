//! Writing the integers and the literal deltas of the pack format.

use vstd::arithmetic::power2::{lemma2_to64, lemma_pow2_adds, lemma_pow2_pos,
    lemma_pow2_strictly_increases, pow2};
use vstd::prelude::*;

use crate::bytes::append_bytes;
use crate::git_artifact::delta::{
    delta_application, delta_header, delta_output, delta_runs, delta_step, DeltaStep,
};
use crate::git_artifact::varint::{
    entry_header, known_entry_kind, offset_distance, offset_distance_tail, raw_offset_distance,
    varint,
};
use crate::git_artifact::MAXIMUM_INFLATED_GIT_BYTES;

verus! {

/// The groups of seven bits of `value`, least significant group first. Every
/// byte but the last has its high bit set.
pub open spec fn varint_bytes(value: nat) -> Seq<u8>
    decreases value,
{
    if value < 128 {
        seq![value as u8]
    } else {
        seq![(128 + value % 128) as u8] + varint_bytes(value / 128)
    }
}

/// The start of a pack entry: its kind with the low four bits of its size, then
/// the rest of the size.
pub open spec fn entry_header_bytes(kind: u8, size: nat) -> Seq<u8> {
    if size < 16 {
        seq![(16 * kind + size) as u8]
    } else {
        seq![(128 + 16 * kind + size % 16) as u8] + varint_bytes(size / 16)
    }
}

/// The groups of an offset distance above its lowest seven bits, which amount
/// to `value`. Each group is one less than its place value.
pub open spec fn offset_distance_head(value: nat) -> Seq<u8>
    decreases value,
{
    if value == 0 {
        Seq::empty()
    } else {
        let less = (value - 1) as nat;
        offset_distance_head(less / 128).push((128 + less % 128) as u8)
    }
}

/// The bytes of an offset distance, most significant group first.
pub open spec fn offset_distance_bytes(distance: nat) -> Seq<u8> {
    offset_distance_head(distance / 128).push((distance % 128) as u8)
}

/// Instructions that insert `result`, at most 127 bytes at a time.
pub open spec fn literal_instructions(result: Seq<u8>) -> Seq<u8>
    decreases result.len(),
{
    if result.len() == 0 {
        Seq::empty()
    } else {
        let length = literal_length(result.len() as int);
        seq![length as u8] + result.take(length) + literal_instructions(result.skip(length))
    }
}

/// How many of `remaining` bytes one instruction inserts.
pub open spec fn literal_length(remaining: int) -> int {
    if remaining < 127 {
        remaining
    } else {
        127
    }
}

/// A program that makes `result` of any base of `base_size` bytes.
pub open spec fn literal_delta_bytes(base_size: nat, result: Seq<u8>) -> Seq<u8> {
    varint_bytes(base_size) + varint_bytes(result.len()) + literal_instructions(result)
}

/// Appends a variable-length integer.
pub fn encode_delta_varint(value: u64, destination: &mut Vec<u8>)
    ensures
        final(destination)@ == old(destination)@ + varint_bytes(value as nat),
    decreases value,
{
    if value < 128 {
        destination.push(value as u8);
    } else {
        destination.push(128 + (value % 128) as u8);
        encode_delta_varint(value / 128, destination);
    }
    assert(destination@ =~= old(destination)@ + varint_bytes(value as nat));
}

/// The bytes that start a pack entry of `size` inflated bytes.
pub fn encode_pack_entry_header(kind: u8, size: u64) -> (bytes: Vec<u8>)
    requires
        kind < 8,
    ensures
        bytes@ == entry_header_bytes(kind, size as nat),
{
    let mut bytes: Vec<u8> = Vec::new();
    if size < 16 {
        bytes.push(16 * kind + size as u8);
    } else {
        bytes.push(128 + 16 * kind + (size % 16) as u8);
        encode_delta_varint(size / 16, &mut bytes);
    }
    assert(bytes@ =~= entry_header_bytes(kind, size as nat));
    bytes
}

/// Appends the groups of an offset distance above its lowest seven bits.
fn push_offset_distance_head(value: u64, destination: &mut Vec<u8>)
    ensures
        final(destination)@ == old(destination)@ + offset_distance_head(value as nat),
    decreases value,
{
    if value != 0 {
        let less: u64 = value - 1;
        push_offset_distance_head(less / 128, destination);
        destination.push(128 + (less % 128) as u8);
    }
    assert(destination@ =~= old(destination)@ + offset_distance_head(value as nat));
}

/// The bytes of the distance from an entry back to its delta base.
pub fn encode_offset_distance(distance: u64) -> (bytes: Vec<u8>)
    requires
        distance != 0,
    ensures
        bytes@ == offset_distance_bytes(distance as nat),
{
    let mut bytes: Vec<u8> = Vec::new();
    push_offset_distance_head(distance / 128, &mut bytes);
    bytes.push((distance % 128) as u8);
    assert(bytes@ =~= offset_distance_bytes(distance as nat));
    bytes
}

/// A program that makes `result` of any base of `base_size` bytes.
pub fn literal_delta(base_size: u64, result: &[u8]) -> (delta: Vec<u8>)
    ensures
        delta@ == literal_delta_bytes(base_size as nat, result@),
{
    let mut delta: Vec<u8> = Vec::new();
    let length: usize = result.len();
    encode_delta_varint(base_size, &mut delta);
    encode_delta_varint(length as u64, &mut delta);
    let mut position: usize = 0;
    assert(result@.skip(0) =~= result@);
    while position < length
        invariant
            position <= length,
            length == result@.len(),
            delta@ + literal_instructions(result@.skip(position as int)) == literal_delta_bytes(
                base_size as nat,
                result@,
            ),
        decreases length - position,
    {
        let count: usize = if length - position < 127 {
            length - position
        } else {
            127
        };
        let ghost before = delta@;
        let ghost rest = result@.skip(position as int);
        delta.push(count as u8);
        append_bytes(&mut delta, &result[position..position + count]);
        proof {
            assert(result@.subrange(position as int, position + count) =~= rest.take(count as int));
            assert(rest.skip(count as int) =~= result@.skip(position + count));
            assert(delta@ + literal_instructions(rest.skip(count as int)) =~= before
                + literal_instructions(rest));
        }
        position = position + count;
    }
    assert(literal_instructions(result@.skip(position as int)) =~= Seq::empty());
    assert(delta@ =~= literal_delta_bytes(base_size as nat, result@));
    delta
}

proof fn lemma_varint_reads_back(
    bytes: Seq<u8>,
    end: int,
    position: int,
    total: int,
    shift: int,
    value: nat,
)
    requires
        0 <= position,
        position + varint_bytes(value).len() <= end <= bytes.len(),
        bytes.subrange(position, position + varint_bytes(value).len()) == varint_bytes(value),
        0 <= shift < 64,
        0 <= total,
        total + value * pow2(shift as nat) <= u64::MAX,
    ensures
        varint(bytes, end, position, total, shift) == Ok::<
            (int, int),
            crate::git_artifact::GitArtifactFailure,
        >((total + value * pow2(shift as nat), position + varint_bytes(value).len())),
    decreases value,
{
    let encoded = varint_bytes(value);
    let power = pow2(shift as nat) as int;
    lemma_pow2_pos(shift as nat);
    assert(bytes[position] == encoded[0]) by {
        assert(bytes.subrange(position, position + encoded.len())[0] == bytes[position]);
    }
    if value >= 128 {
        let rest = value / 128;
        assert(pow2((shift + 7) as nat) == power * 128) by {
            lemma_pow2_adds(shift as nat, 7);
            lemma2_to64();
        }
        assert(total + value * power == total + (value % 128) * power + rest * (power * 128))
            by (nonlinear_arith)
            requires
                value == 128 * rest + value % 128,
                value % 128 >= 0,
        ;
        assert(rest * (power * 128) >= power * 128 && (value % 128) * power >= 0)
            by (nonlinear_arith)
            requires
                rest >= 1,
                power > 0,
                value % 128 >= 0,
        ;
        assert(shift + 7 < 64) by {
            lemma2_to64();
            if shift + 7 >= 64 {
                if shift + 7 > 64 {
                    lemma_pow2_strictly_increases(64, (shift + 7) as nat);
                }
                assert(pow2((shift + 7) as nat) > u64::MAX);
            }
        }
        let tail = varint_bytes(rest);
        assert(encoded.len() == tail.len() + 1);
        assert(bytes.subrange(position + 1, position + 1 + tail.len()) =~= tail) by {
            assert(bytes.subrange(position, position + encoded.len()).subrange(
                1,
                encoded.len() as int,
            ) =~= encoded.subrange(1, encoded.len() as int));
            assert(encoded.subrange(1, encoded.len() as int) =~= tail);
        }
        lemma_varint_reads_back(
            bytes,
            end,
            position + 1,
            total + (value % 128) * power,
            shift + 7,
            rest,
        );
    }
}

/// Reading a variable-length integer gives back the number that was written,
/// wherever it stands.
pub proof fn law_varint_reads_back(bytes: Seq<u8>, position: int, value: nat)
    requires
        0 <= position,
        position + varint_bytes(value).len() <= bytes.len(),
        bytes.subrange(position, position + varint_bytes(value).len()) == varint_bytes(value),
        value <= u64::MAX,
    ensures
        varint(bytes, bytes.len() as int, position, 0, 0) == Ok::<
            (int, int),
            crate::git_artifact::GitArtifactFailure,
        >((value as int, position + varint_bytes(value).len())),
{
    lemma2_to64();
    assert(value * pow2(0) == value) by (nonlinear_arith)
        requires
            pow2(0) == 1,
    ;
    lemma_varint_reads_back(bytes, bytes.len() as int, position, 0, 0, value);
}

/// Reading the start of a pack entry gives back the kind and the size that were
/// written, wherever it stands.
pub proof fn law_entry_header_reads_back(bytes: Seq<u8>, position: int, kind: u8, size: nat)
    requires
        0 <= position,
        position + entry_header_bytes(kind, size).len() <= bytes.len(),
        bytes.subrange(position, position + entry_header_bytes(kind, size).len())
            == entry_header_bytes(kind, size),
        known_entry_kind(kind),
        size <= u64::MAX,
    ensures
        entry_header(bytes, bytes.len() as int, position) == Ok::<
            (u8, int, int),
            crate::git_artifact::GitArtifactFailure,
        >((kind, size as int, position + entry_header_bytes(kind, size).len())),
{
    let encoded = entry_header_bytes(kind, size);
    assert(bytes[position] == encoded[0]) by {
        assert(bytes.subrange(position, position + encoded.len())[0] == bytes[position]);
    }
    if size >= 16 {
        let tail = varint_bytes(size / 16);
        assert(bytes.subrange(position + 1, position + 1 + tail.len()) =~= tail) by {
            assert(bytes.subrange(position, position + encoded.len()).subrange(
                1,
                encoded.len() as int,
            ) =~= encoded.subrange(1, encoded.len() as int));
            assert(encoded.subrange(1, encoded.len() as int) =~= tail);
        }
        lemma2_to64();
        assert((size / 16) * pow2(4) == 16 * (size / 16)) by (nonlinear_arith)
            requires
                pow2(4) == 16,
        ;
        lemma_varint_reads_back(
            bytes,
            bytes.len() as int,
            position + 1,
            size as int % 16,
            4,
            size / 16,
        );
    }
}

proof fn lemma_offset_distance_head_reads_back(bytes: Seq<u8>, end: int, position: int, value: nat)
    requires
        0 <= position,
        0 < value <= u64::MAX,
        position + offset_distance_head(value).len() <= end <= bytes.len(),
        bytes.subrange(position, position + offset_distance_head(value).len())
            == offset_distance_head(value),
    ensures
        raw_offset_distance(bytes, end, position) == offset_distance_tail(
            bytes,
            end,
            position + offset_distance_head(value).len(),
            value - 1,
        ),
    decreases value,
{
    let encoded = offset_distance_head(value);
    let less = (value - 1) as nat;
    let above = offset_distance_head(less / 128);
    let last = position + encoded.len() - 1;
    assert(bytes[last] == encoded.last()) by {
        assert(bytes.subrange(position, position + encoded.len())[encoded.len() - 1]
            == bytes[last]);
    }
    if less / 128 != 0 {
        assert(bytes.subrange(position, position + above.len()) =~= above) by {
            assert(bytes.subrange(position, position + encoded.len()).take(above.len() as int)
                =~= encoded.take(above.len() as int));
            assert(encoded.take(above.len() as int) =~= above);
        }
        lemma_offset_distance_head_reads_back(bytes, end, position, less / 128);
    } else {
        assert(above =~= Seq::empty());
    }
}

/// Reading an offset distance gives back the distance that was written, wherever
/// it stands.
pub proof fn law_offset_distance_reads_back(bytes: Seq<u8>, position: int, distance: nat)
    requires
        0 <= position,
        0 < distance <= u64::MAX,
        position + offset_distance_bytes(distance).len() <= bytes.len(),
        bytes.subrange(position, position + offset_distance_bytes(distance).len())
            == offset_distance_bytes(distance),
    ensures
        offset_distance(bytes, bytes.len() as int, position) == Ok::<
            (int, int),
            crate::git_artifact::GitArtifactFailure,
        >((distance as int, position + offset_distance_bytes(distance).len())),
{
    let encoded = offset_distance_bytes(distance);
    let above = offset_distance_head(distance / 128);
    let last = position + encoded.len() - 1;
    assert(bytes[last] == encoded.last()) by {
        assert(bytes.subrange(position, position + encoded.len())[encoded.len() - 1]
            == bytes[last]);
    }
    if distance / 128 != 0 {
        assert(bytes.subrange(position, position + above.len()) =~= above) by {
            assert(bytes.subrange(position, position + encoded.len()).take(above.len() as int)
                =~= encoded.take(above.len() as int));
            assert(encoded.take(above.len() as int) =~= above);
        }
        lemma_offset_distance_head_reads_back(
            bytes,
            bytes.len() as int,
            position,
            distance / 128,
        );
    } else {
        assert(above =~= Seq::empty());
    }
}

proof fn lemma_literal_instructions_run(
    program: Seq<u8>,
    position: int,
    base: Seq<u8>,
    output: Seq<u8>,
    result: Seq<u8>,
)
    requires
        0 <= position <= program.len(),
        program.skip(position) == literal_instructions(result),
    ensures
        delta_runs(
            program,
            position,
            base.len() as int,
            output.len() as int,
            (output.len() + result.len()) as int,
        ),
        delta_output(program, position, base, output) == output + result,
    decreases result.len(),
{
    let rest = program.skip(position);
    if result.len() == 0 {
        assert(rest.len() == 0);
        assert(output + result =~= output);
    } else {
        let length = literal_length(result.len() as int);
        let inserted = result.take(length);
        let next = position + 1 + length;
        assert(rest.len() == 1 + length + literal_instructions(result.skip(length)).len());
        assert(program[position] == rest[0]);
        assert(program.subrange(position + 1, next) =~= inserted) by {
            assert(program.subrange(position + 1, next) =~= rest.subrange(1, 1 + length));
            assert(rest.subrange(1, 1 + length) =~= inserted);
        }
        assert(program.skip(next) =~= literal_instructions(result.skip(length))) by {
            assert(program.skip(next) =~= rest.skip(1 + length));
            assert(rest.skip(1 + length) =~= literal_instructions(result.skip(length)));
        }
        assert(delta_step(program, position, base.len() as int) == Some(
            (DeltaStep::Insert(inserted), next),
        ));
        lemma_literal_instructions_run(
            program,
            next,
            base,
            output + inserted,
            result.skip(length),
        );
        assert(output + inserted + result.skip(length) =~= output + result);
    }
}

/// A literal delta makes its result of every base of the declared size, as long
/// as the budget admits the result.
pub proof fn law_literal_delta_applies(base: Seq<u8>, result: Seq<u8>, used: int)
    requires
        base.len() <= u64::MAX,
        0 <= used,
        used + result.len() <= MAXIMUM_INFLATED_GIT_BYTES,
    ensures
        delta_application(base, literal_delta_bytes(base.len(), result), used) == Ok::<
            (Seq<u8>, int),
            crate::git_artifact::GitArtifactFailure,
        >((result, used + result.len())),
{
    let program = literal_delta_bytes(base.len(), result);
    let first = varint_bytes(base.len());
    let second = varint_bytes(result.len());
    let start = (first.len() + second.len()) as int;
    assert(program.subrange(0, first.len() as int) =~= first);
    law_varint_reads_back(program, 0, base.len());
    assert(program.subrange(first.len() as int, start) =~= second);
    law_varint_reads_back(program, first.len() as int, result.len());
    assert(program.skip(start) =~= literal_instructions(result));
    lemma_literal_instructions_run(program, start, base, Seq::empty(), result);
    assert(Seq::<u8>::empty() + result =~= result);
    assert(delta_header(program) == Ok::<
        (int, int, int),
        crate::git_artifact::GitArtifactFailure,
    >((base.len() as int, result.len() as int, start)));
}

} // verus!
