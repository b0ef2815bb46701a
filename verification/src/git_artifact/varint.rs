//! The variable-length integers of the pack format.

use vstd::arithmetic::power2::{lemma_pow2_pos, pow2};
use vstd::prelude::*;

use crate::git_artifact::GitArtifactFailure;

verus! {

/// Reads groups of seven bits, least significant group first, while the high
/// bit of a byte announces another group. `value` holds what `shift` bits read
/// so far amount to. A value that needs more than 64 bits breaks a structure
/// limit; a missing byte is a malformed pack.
pub open spec fn varint(
    bytes: Seq<u8>,
    end: int,
    position: int,
    value: int,
    shift: int,
) -> Result<(int, int), GitArtifactFailure>
    decreases end - position,
{
    if shift >= 64 {
        Err(GitArtifactFailure::StructureLimit)
    } else if position >= end {
        Err(GitArtifactFailure::Pack)
    } else {
        let byte = bytes[position];
        let next = value + (byte % 128) * pow2(shift as nat);
        if next > u64::MAX {
            Err(GitArtifactFailure::StructureLimit)
        } else if byte >= 128 {
            varint(bytes, end, position + 1, next, shift + 7)
        } else {
            Ok((next, position + 1))
        }
    }
}

/// `value` times two to the power of `shift`, where that fits in 64 bits.
pub fn checked_shift(value: u64, shift: u32) -> (shifted: Result<u64, GitArtifactFailure>)
    ensures
        shifted is Ok <==> shift < 64 && value * pow2(shift as nat) <= u64::MAX,
        shifted matches Ok(result) ==> result == value * pow2(shift as nat),
        shifted matches Err(failure) ==> failure == GitArtifactFailure::StructureLimit,
{
    if shift >= 64 {
        return Err(GitArtifactFailure::StructureLimit);
    }
    proof {
        vstd::bits::lemma_u64_shr_is_div(u64::MAX, shift as u64);
        lemma_pow2_pos(shift as nat);
        let power = pow2(shift as nat) as int;
        let quotient = u64::MAX as int / power;
        vstd::arithmetic::div_mod::lemma_fundamental_div_mod(u64::MAX as int, power);
        assert(value <= quotient ==> value * power <= u64::MAX) by (nonlinear_arith)
            requires
                power > 0,
                u64::MAX as int == power * quotient + (u64::MAX as int % power),
                0 <= u64::MAX as int % power,
        ;
        assert(value > quotient ==> value * power > u64::MAX) by (nonlinear_arith)
            requires
                power > 0,
                u64::MAX as int == power * quotient + (u64::MAX as int % power),
                u64::MAX as int % power < power,
        ;
    }
    if value > (u64::MAX >> (shift as u64)) {
        return Err(GitArtifactFailure::StructureLimit);
    }
    proof {
        vstd::bits::lemma_u64_shl_is_mul(value, shift as u64);
    }
    Ok(value << (shift as u64))
}

/// Continues an offset distance whose groups so far amount to `value`: every
/// further group first adds one, then moves up seven bits, modulo 2^64.
pub open spec fn offset_distance_tail(
    bytes: Seq<u8>,
    end: int,
    position: int,
    value: int,
) -> Result<(int, int), GitArtifactFailure>
    decreases end - position,
{
    if position >= end {
        Err(GitArtifactFailure::Pack)
    } else if value == u64::MAX {
        Err(GitArtifactFailure::StructureLimit)
    } else {
        let byte = bytes[position];
        let next = ((value + 1) * 128) % 0x1_0000_0000_0000_0000 + byte % 128;
        if byte >= 128 {
            offset_distance_tail(bytes, end, position + 1, next)
        } else {
            Ok((next, position + 1))
        }
    }
}

/// Reads an offset distance, zero not yet excluded.
pub open spec fn raw_offset_distance(bytes: Seq<u8>, end: int, position: int) -> Result<
    (int, int),
    GitArtifactFailure,
> {
    if position >= end {
        Err(GitArtifactFailure::Pack)
    } else if bytes[position] >= 128 {
        offset_distance_tail(bytes, end, position + 1, (bytes[position] % 128) as int)
    } else {
        Ok((bytes[position] as int, position + 1))
    }
}

/// Reads the distance from an entry back to its delta base. A distance of zero
/// is a malformed pack.
pub open spec fn offset_distance(bytes: Seq<u8>, end: int, position: int) -> Result<
    (int, int),
    GitArtifactFailure,
> {
    match raw_offset_distance(bytes, end, position) {
        Ok((distance, next)) => if distance == 0 {
            Err(GitArtifactFailure::Pack)
        } else {
            Ok((distance, next))
        },
        Err(failure) => Err(failure),
    }
}

/// Whether `kind` is one of the entry kinds of the pack format.
pub open spec fn known_entry_kind(kind: u8) -> bool {
    1 <= kind <= 4 || kind == 6 || kind == 7
}

/// Reads the kind and the declared size that start a pack entry.
pub open spec fn entry_header(bytes: Seq<u8>, end: int, position: int) -> Result<
    (u8, int, int),
    GitArtifactFailure,
> {
    if position >= end {
        Err(GitArtifactFailure::Pack)
    } else {
        let byte = bytes[position];
        let kind = ((byte / 16) % 8) as u8;
        let size = if byte >= 128 {
            varint(bytes, end, position + 1, (byte % 16) as int, 4)
        } else {
            Ok(((byte % 16) as int, position + 1))
        };
        match size {
            Err(failure) => Err(failure),
            Ok((size, next)) => if known_entry_kind(kind) {
                Ok((kind, size, next))
            } else {
                Err(GitArtifactFailure::Pack)
            },
        }
    }
}

/// A position in a byte slice, bounded by `end`.
pub struct ByteReader<'a> {
    pub bytes: &'a [u8],
    pub position: usize,
    pub end: usize,
}

impl<'a> ByteReader<'a> {
    /// The position lies within the bound, and the bound within the bytes.
    pub open spec fn well_formed(&self) -> bool {
        self.position <= self.end <= self.bytes@.len()
    }

    /// Whether `self` reads the same bytes up to the same bound as `other`.
    pub open spec fn same_source(&self, other: &ByteReader<'a>) -> bool {
        self.bytes == other.bytes && self.end == other.end
    }

    /// Takes one byte; there is none at the bound.
    pub fn read_byte(&mut self) -> (byte: Result<u8, GitArtifactFailure>)
        requires
            old(self).well_formed(),
        ensures
            final(self).well_formed(),
            final(self).same_source(old(self)),
            byte is Ok <==> old(self).position < old(self).end,
            byte matches Ok(value) ==> value == old(self).bytes@[old(self).position as int]
                && final(self).position == old(self).position + 1,
            byte matches Err(failure) ==> failure == GitArtifactFailure::Pack && *final(self)
                == *old(self),
    {
        if self.position == self.end {
            return Err(GitArtifactFailure::Pack);
        }
        let byte: u8 = self.bytes[self.position];
        self.position = self.position + 1;
        Ok(byte)
    }

    /// Takes `length` bytes; fewer than that before the bound are a malformed pack.
    pub fn read_exact(&mut self, length: usize) -> (taken: Result<&'a [u8], GitArtifactFailure>)
        requires
            old(self).well_formed(),
        ensures
            final(self).well_formed(),
            final(self).same_source(old(self)),
            taken is Ok <==> old(self).position + length <= old(self).end,
            taken matches Ok(bytes) ==> final(self).position == old(self).position + length
                && bytes@ == old(self).bytes@.subrange(
                old(self).position as int,
                old(self).position + length,
            ),
            taken matches Err(failure) ==> failure == GitArtifactFailure::Pack && *final(self)
                == *old(self),
    {
        if length > self.end - self.position {
            return Err(GitArtifactFailure::Pack);
        }
        let start: usize = self.position;
        let stop: usize = start + length;
        self.position = stop;
        let bytes: &'a [u8] = self.bytes;
        Ok(&bytes[start..stop])
    }

    /// Reads a variable-length integer whose first `shift` bits are `value`.
    pub fn read_varint(&mut self, value: u64, shift: u32) -> (read: Result<u64, GitArtifactFailure>)
        requires
            old(self).well_formed(),
            shift < 64,
        ensures
            final(self).well_formed(),
            final(self).same_source(old(self)),
            match varint(
                old(self).bytes@,
                old(self).end as int,
                old(self).position as int,
                value as int,
                shift as int,
            ) {
                Ok((number, next)) => read == Ok::<u64, GitArtifactFailure>(number as u64)
                    && 0 <= number <= u64::MAX && final(self).position == next,
                Err(failure) => read == Err::<u64, GitArtifactFailure>(failure),
            },
    {
        let mut total: u64 = value;
        let mut bits: u32 = shift;
        loop
            invariant
                self.well_formed(),
                self.same_source(old(self)),
                bits <= 70,
                varint(
                    old(self).bytes@,
                    old(self).end as int,
                    old(self).position as int,
                    value as int,
                    shift as int,
                ) == varint(
                    self.bytes@,
                    self.end as int,
                    self.position as int,
                    total as int,
                    bits as int,
                ),
            decreases self.end - self.position,
        {
            if bits >= 64 {
                return Err(GitArtifactFailure::StructureLimit);
            }
            let byte: u8 = self.read_byte()?;
            let group: u64 = (byte % 128) as u64;
            proof {
                lemma_pow2_pos(bits as nat);
                assert(group * pow2(bits as nat) >= 0) by (nonlinear_arith)
                    requires
                        group >= 0,
                        pow2(bits as nat) > 0,
                ;
            }
            let shifted: u64 = checked_shift(group, bits)?;
            if shifted > u64::MAX - total {
                return Err(GitArtifactFailure::StructureLimit);
            }
            total = total + shifted;
            if byte < 128 {
                return Ok(total);
            }
            bits = bits + 7;
        }
    }
}

/// Reads the kind and the declared size that start a pack entry.
pub fn read_entry_header(reader: &mut ByteReader<'_>) -> (header: Result<
    (u8, u64),
    GitArtifactFailure,
>)
    requires
        old(reader).well_formed(),
    ensures
        final(reader).well_formed(),
        final(reader).same_source(old(reader)),
        match entry_header(
            old(reader).bytes@,
            old(reader).end as int,
            old(reader).position as int,
        ) {
            Ok((kind, size, next)) => header == Ok::<(u8, u64), GitArtifactFailure>(
                (kind, size as u64),
            ) && 0 <= size <= u64::MAX && known_entry_kind(kind) && final(reader).position == next,
            Err(failure) => header == Err::<(u8, u64), GitArtifactFailure>(failure),
        },
{
    let byte: u8 = reader.read_byte()?;
    let kind: u8 = (byte / 16) % 8;
    let mut size: u64 = (byte % 16) as u64;
    if byte >= 128 {
        size = reader.read_varint(size, 4)?;
    }
    if !((1 <= kind && kind <= 4) || kind == 6 || kind == 7) {
        return Err(GitArtifactFailure::Pack);
    }
    Ok((kind, size))
}

/// Reads the distance from an entry back to its delta base.
pub fn read_offset_distance(reader: &mut ByteReader<'_>) -> (distance: Result<
    u64,
    GitArtifactFailure,
>)
    requires
        old(reader).well_formed(),
    ensures
        final(reader).well_formed(),
        final(reader).same_source(old(reader)),
        match offset_distance(
            old(reader).bytes@,
            old(reader).end as int,
            old(reader).position as int,
        ) {
            Ok((number, next)) => distance == Ok::<u64, GitArtifactFailure>(number as u64)
                && 0 < number <= u64::MAX && final(reader).position == next,
            Err(failure) => distance == Err::<u64, GitArtifactFailure>(failure),
        },
{
    let ghost whole = raw_offset_distance(
        old(reader).bytes@,
        old(reader).end as int,
        old(reader).position as int,
    );
    let mut byte: u8 = reader.read_byte()?;
    let mut value: u64 = (byte % 128) as u64;
    while byte >= 128
        invariant
            reader.well_formed(),
            reader.same_source(old(reader)),
            offset_distance(
                old(reader).bytes@,
                old(reader).end as int,
                old(reader).position as int,
            ) == (match whole {
                Ok((distance, next)) => if distance == 0 {
                    Err(GitArtifactFailure::Pack)
                } else {
                    Ok((distance, next))
                },
                Err(failure) => Err(failure),
            }),
            whole == (if byte >= 128 {
                offset_distance_tail(
                    reader.bytes@,
                    reader.end as int,
                    reader.position as int,
                    value as int,
                )
            } else {
                Ok((value as int, reader.position as int))
            }),
        decreases reader.end - reader.position,
    {
        byte = reader.read_byte()?;
        if value == u64::MAX {
            return Err(GitArtifactFailure::StructureLimit);
        }
        let scaled: u64 = (value + 1).wrapping_mul(128);
        proof {
            let product = (value + 1) * 128;
            assert(scaled as int == product % 0x1_0000_0000_0000_0000);
            assert(scaled % 128 == 0);
        }
        value = scaled + (byte % 128) as u64;
    }
    if value == 0 {
        return Err(GitArtifactFailure::Pack);
    }
    Ok(value)
}

/// A number that was read is not negative.
pub(crate) proof fn lemma_varint_not_negative(
    bytes: Seq<u8>,
    end: int,
    position: int,
    value: int,
    shift: int,
)
    requires
        0 <= value,
    ensures
        varint(bytes, end, position, value, shift) matches Ok((number, _)) ==> number >= 0,
    decreases end - position,
{
    if shift < 64 && position < end {
        lemma_pow2_pos(shift as nat);
        let group = (bytes[position] % 128) as int;
        let power = pow2(shift as nat) as int;
        assert(group * power >= 0) by (nonlinear_arith)
            requires
                group >= 0,
                power > 0,
        ;
        lemma_varint_not_negative(bytes, end, position + 1, value + group * power, shift + 7);
    }
}

} // verus!
