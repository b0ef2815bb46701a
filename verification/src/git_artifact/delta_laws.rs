//! What delta programs make: every instruction does what it was written for.

use vstd::prelude::*;

use crate::git_artifact::delta::{
    delta_application, delta_header, delta_output, delta_runs, delta_step, flagged_number,
    DeltaCommand, DeltaStep,
};
use crate::git_artifact::encoding::{law_varint_reads_back, varint_bytes};
use crate::git_artifact::{GitArtifactFailure, MAXIMUM_INFLATED_GIT_BYTES};

verus! {

/// Whether the flag of a byte is set, the lowest byte's flag first.
pub open spec fn flagged(flags: int, byte: int) -> bool {
    if byte == 0 {
        flags % 2 == 1
    } else if byte == 1 {
        (flags / 2) % 2 == 1
    } else if byte == 2 {
        (flags / 4) % 2 == 1
    } else {
        (flags / 8) % 2 == 1
    }
}

/// How many of the flags below that of a byte are set.
pub open spec fn flagged_below(flags: int, byte: int) -> int
    decreases byte,
{
    if byte <= 0 {
        0
    } else {
        flagged_below(flags, byte - 1) + (if flagged(flags, byte - 1) {
            1int
        } else {
            0int
        })
    }
}

/// The byte of that place, which is zero where it is not stored.
pub open spec fn flagged_byte(program: Seq<u8>, position: int, flags: int, byte: int) -> int {
    if flagged(flags, byte) {
        program[position + flagged_below(flags, byte)] as int
    } else {
        0
    }
}

/// What is read of the bytes from that one on, given what is read of those above it.
proof fn lemma_one_more_byte(program: Seq<u8>, position: int, flags: int, count: nat)
    requires
        count > 0,
    ensures
        flagged_number(program, position, flags, count) == (if flags % 2 == 1 {
            if position >= program.len() {
                None
            } else {
                match flagged_number(program, position + 1, flags / 2, (count - 1) as nat) {
                    Some((rest, next)) => Some((program[position] + 256 * rest, next)),
                    None => None,
                }
            }
        } else {
            match flagged_number(program, position, flags / 2, (count - 1) as nat) {
                Some((rest, next)) => Some((256 * rest, next)),
                None => None,
            }
        }),
{
}

proof fn lemma_places(flags: int)
    requires
        0 <= flags < 16,
    ensures
        flagged_below(flags, 0) == 0,
        flagged_below(flags, 1) == flags % 2,
        flagged_below(flags, 2) == flags % 2 + (flags / 2) % 2,
        flagged_below(flags, 3) == flags % 2 + (flags / 2) % 2 + (flags / 4) % 2,
        flagged_below(flags, 4) == flags % 2 + (flags / 2) % 2 + (flags / 4) % 2 + (flags / 8) % 2,
        flags / 2 / 2 == flags / 4,
        flags / 4 / 2 == flags / 8,
{
    reveal_with_fuel(flagged_below, 5);
}

/// A number is the sum of its bytes, each times its power of 256, and the bytes that are
/// stored stand one behind the other, the lowest first. It cannot be read exactly if they do
/// not all lie within the program.
pub proof fn law_flagged_numbers_are_little_endian(program: Seq<u8>, position: int, flags: int)
    requires
        0 <= position <= program.len(),
        0 <= flags < 16,
    ensures
        flagged_number(program, position, flags, 4) == (if position + flagged_below(flags, 4)
            > program.len() {
            None
        } else {
            Some(
                (
                    flagged_byte(program, position, flags, 0) + 256 * flagged_byte(
                        program,
                        position,
                        flags,
                        1,
                    ) + 65_536 * flagged_byte(program, position, flags, 2) + 16_777_216
                        * flagged_byte(program, position, flags, 3),
                    position + flagged_below(flags, 4),
                ),
            )
        }),
        flagged_number(program, position, flags, 3) == (if position + flagged_below(flags, 3)
            > program.len() {
            None
        } else {
            Some(
                (
                    flagged_byte(program, position, flags, 0) + 256 * flagged_byte(
                        program,
                        position,
                        flags,
                        1,
                    ) + 65_536 * flagged_byte(program, position, flags, 2),
                    position + flagged_below(flags, 3),
                ),
            )
        }),
{
    lemma_places(flags);
    let second = position + flagged_below(flags, 1);
    let third = position + flagged_below(flags, 2);
    let fourth = position + flagged_below(flags, 3);
    lemma_one_more_byte(program, position, flags, 4);
    lemma_one_more_byte(program, second, flags / 2, 3);
    lemma_one_more_byte(program, third, flags / 4, 2);
    lemma_one_more_byte(program, fourth, flags / 8, 1);
    lemma_one_more_byte(program, position, flags, 3);
    lemma_one_more_byte(program, second, flags / 2, 2);
    lemma_one_more_byte(program, third, flags / 4, 1);
}

/// The flags of the bytes of a number that are not zero, the lowest byte's flag first.
pub open spec fn stored_flags(value: nat, count: nat) -> int
    decreases count,
{
    if count == 0 {
        0
    } else {
        (if value % 256 != 0 {
            1int
        } else {
            0int
        }) + 2 * stored_flags(value / 256, (count - 1) as nat)
    }
}

/// The bytes of a number that are not zero, the lowest one first.
pub open spec fn stored_bytes(value: nat, count: nat) -> Seq<u8>
    decreases count,
{
    if count == 0 {
        Seq::empty()
    } else {
        (if value % 256 != 0 {
            seq![(value % 256) as u8]
        } else {
            Seq::empty()
        }) + stored_bytes(value / 256, (count - 1) as nat)
    }
}

/// The instruction that copies `length` bytes from `offset` on: a command with a flag for
/// each byte of the two numbers that is not zero, then those bytes. The length 0x10000 may
/// be left out.
pub open spec fn copy_instruction(offset: nat, length: nat, left_out: bool) -> Seq<u8> {
    let stored = if left_out {
        0
    } else {
        length
    };
    seq![(128 + 16 * stored_flags(stored, 3) + stored_flags(offset, 4)) as u8] + stored_bytes(
        offset,
        4,
    ) + stored_bytes(stored, 3)
}

proof fn lemma_stored_flags(value: nat, count: nat)
    ensures
        count == 4 ==> 0 <= stored_flags(value, count) < 16,
        count == 3 ==> 0 <= stored_flags(value, count) < 8,
{
    reveal_with_fuel(stored_flags, 5);
}

/// The numbers below the `count`-th power of 256.
spec fn fits(value: nat, count: nat) -> bool
    decreases count,
{
    if count == 0 {
        value == 0
    } else {
        fits(value / 256, (count - 1) as nat)
    }
}

proof fn lemma_stored_number(program: Seq<u8>, position: int, value: nat, count: nat)
    requires
        0 <= position,
        fits(value, count),
        position + stored_bytes(value, count).len() <= program.len(),
        program.subrange(position, position + stored_bytes(value, count).len()) == stored_bytes(
            value,
            count,
        ),
    ensures
        flagged_number(program, position, stored_flags(value, count), count) == Some(
            (value as int, position + stored_bytes(value, count).len()),
        ),
    decreases count,
{
    if count > 0 {
        let bytes = stored_bytes(value, count);
        let rest = stored_bytes(value / 256, (count - 1) as nat);
        let flags = stored_flags(value, count);
        let above = stored_flags(value / 256, (count - 1) as nat);
        let whole = program.subrange(position, position + bytes.len());
        if value % 256 != 0 {
            assert(bytes[0] == (value % 256) as u8);
            assert(whole[0] == program[position]);
            assert(program.subrange(position + 1, position + 1 + rest.len()) =~= rest) by {
                assert(whole.skip(1) =~= rest);
                assert(program.subrange(position + 1, position + 1 + rest.len()) =~= whole.skip(1));
            }
            lemma_stored_number(program, position + 1, value / 256, (count - 1) as nat);
            assert(flags % 2 == 1 && flags / 2 == above);
        } else {
            assert(bytes =~= rest);
            lemma_stored_number(program, position, value / 256, (count - 1) as nat);
            assert(flags % 2 == 0 && flags / 2 == above);
        }
    }
}

/// A copy reads back as it was written: for every offset below 2^32 and every length from 1
/// to 0xff_ffff, wherever the instruction stands, as long as the base is large enough.
pub proof fn law_copies_read_back(
    program: Seq<u8>,
    position: int,
    base_size: int,
    offset: nat,
    length: nat,
    left_out: bool,
)
    requires
        0 <= position,
        offset < 0x1_0000_0000,
        1 <= length <= 0xff_ffff,
        left_out ==> length == 0x1_0000,
        position + copy_instruction(offset, length, left_out).len() <= program.len(),
        program.subrange(position, position + copy_instruction(offset, length, left_out).len())
            == copy_instruction(offset, length, left_out),
    ensures
        offset + length <= base_size ==> delta_step(program, position, base_size) == Some(
            (
                DeltaStep::Copy(offset as int, length as int),
                position + copy_instruction(offset, length, left_out).len(),
            ),
        ),
        offset + length > base_size ==> delta_step(program, position, base_size) is None,
{
    let stored = if left_out {
        0
    } else {
        length
    };
    let instruction = copy_instruction(offset, length, left_out);
    let whole = program.subrange(position, position + instruction.len());
    let first = stored_bytes(offset, 4);
    let second = stored_bytes(stored, 3);
    lemma_stored_flags(offset, 4);
    lemma_stored_flags(stored, 3);
    let command = 128 + 16 * stored_flags(stored, 3) + stored_flags(offset, 4);
    assert(whole[0] == program[position]);
    assert(instruction[0] == command as u8);
    assert(program[position] == command);
    assert(command % 16 == stored_flags(offset, 4));
    assert((command / 16) % 8 == stored_flags(stored, 3));
    assert(program.subrange(position + 1, position + 1 + first.len()) =~= first) by {
        assert(whole.subrange(1, 1int + first.len()) =~= first);
        assert(program.subrange(position + 1, position + 1 + first.len()) =~= whole.subrange(
            1,
            1int + first.len(),
        ));
    }
    let after = position + 1 + first.len();
    assert(program.subrange(after, after + second.len()) =~= second) by {
        assert(whole.subrange(1int + first.len(), 1int + first.len() + second.len()) =~= second);
        assert(program.subrange(after, after + second.len()) =~= whole.subrange(
            1int + first.len(),
            1int + first.len() + second.len(),
        ));
    }
    assert(fits(offset, 4) && fits(stored, 3)) by {
        reveal_with_fuel(fits, 5);
        assert(offset / 256 / 256 / 256 / 256 == 0);
        assert(stored / 256 / 256 / 256 == 0);
    }
    lemma_stored_number(program, position + 1, offset, 4);
    lemma_stored_number(program, after, stored, 3);
}

/// An insertion reads back as it was written: from 1 to 127 bytes behind their count.
pub proof fn law_insertions_read_back(
    program: Seq<u8>,
    position: int,
    base_size: int,
    inserted: Seq<u8>,
)
    requires
        0 <= position,
        1 <= inserted.len() <= 127,
        position + 1 + inserted.len() <= program.len(),
        program[position] == inserted.len(),
        program.subrange(position + 1, position + 1 + inserted.len()) == inserted,
    ensures
        delta_step(program, position, base_size) == Some(
            (DeltaStep::Insert(inserted), position + 1 + inserted.len()),
        ),
{
}

/// A command of zero is no instruction, and neither is one that is cut off.
pub proof fn law_broken_instructions_are_refused(
    program: Seq<u8>,
    position: int,
    base_size: int,
)
    requires
        0 <= position < program.len(),
    ensures
        program[position] == 0 ==> delta_step(program, position, base_size) is None,
        0 < program[position] < 128 && position + 1 + program[position] > program.len()
            ==> delta_step(program, position, base_size) is None,
        program[position] >= 128 && position + 1 + flagged_below(
            program[position] as int % 16,
            4,
        ) + flagged_below((program[position] as int / 16) % 8, 3) > program.len() ==> delta_step(
            program,
            position,
            base_size,
        ) is None,
{
    if program[position] >= 128 {
        let low = program[position] as int % 16;
        let high = (program[position] as int / 16) % 8;
        law_flagged_numbers_are_little_endian(program, position + 1, low);
        reveal_with_fuel(flagged_below, 5);
        let after = position + 1 + flagged_below(low, 4);
        if after <= program.len() {
            law_flagged_numbers_are_little_endian(program, after, high);
        }
    }
}

/// An instruction, written.
pub open spec fn instruction(step: DeltaStep) -> Seq<u8> {
    match step {
        DeltaStep::Insert(bytes) => seq![bytes.len() as u8] + bytes,
        DeltaStep::Copy(offset, length) => copy_instruction(offset as nat, length as nat, false),
    }
}

/// Whether an instruction can be written and applied to a base of `base_size` bytes.
pub open spec fn writable(step: DeltaStep, base_size: int) -> bool {
    match step {
        DeltaStep::Insert(bytes) => 1 <= bytes.len() <= 127,
        DeltaStep::Copy(offset, length) => 0 <= offset < 0x1_0000_0000 && 1 <= length <= 0xff_ffff
            && offset + length <= base_size,
    }
}

/// Instructions, written one behind the other.
pub open spec fn instructions(steps: Seq<DeltaStep>) -> Seq<u8>
    decreases steps.len(),
{
    if steps.len() == 0 {
        Seq::empty()
    } else {
        instruction(steps[0]) + instructions(steps.skip(1))
    }
}

/// What instructions make of a base: inserted bytes and copied parts, one behind the other.
pub open spec fn made_of(base: Seq<u8>, steps: Seq<DeltaStep>) -> Seq<u8>
    decreases steps.len(),
{
    if steps.len() == 0 {
        Seq::empty()
    } else {
        (match steps[0] {
            DeltaStep::Insert(bytes) => bytes,
            DeltaStep::Copy(offset, length) => base.subrange(offset, offset + length),
        }) + made_of(base, steps.skip(1))
    }
}

proof fn lemma_steps_run(
    program: Seq<u8>,
    position: int,
    base: Seq<u8>,
    output: Seq<u8>,
    steps: Seq<DeltaStep>,
)
    requires
        0 <= position <= program.len(),
        program.skip(position) == instructions(steps),
        forall|i: int| 0 <= i < steps.len() ==> writable(#[trigger] steps[i], base.len() as int),
    ensures
        delta_runs(
            program,
            position,
            base.len() as int,
            output.len() as int,
            (output.len() + made_of(base, steps).len()) as int,
        ),
        delta_output(program, position, base, output) == output + made_of(base, steps),
    decreases steps.len(),
{
    let rest = program.skip(position);
    if steps.len() == 0 {
        assert(rest.len() == 0);
        assert(output + made_of(base, steps) =~= output);
    } else {
        let step = steps[0];
        let written = instruction(step);
        let next = position + written.len();
        assert(writable(step, base.len() as int));
        assert(rest.take(written.len() as int) =~= written);
        assert(program.subrange(position, next) =~= rest.take(written.len() as int));
        assert(program.skip(next) =~= instructions(steps.skip(1))) by {
            assert(program.skip(next) =~= rest.skip(written.len() as int));
            assert(rest.skip(written.len() as int) =~= instructions(steps.skip(1)));
        }
        match step {
            DeltaStep::Insert(bytes) => {
                assert(written[0] == bytes.len());
                assert(program.subrange(position, next)[0] == program[position]);
                assert(program.subrange(position + 1, next) =~= bytes) by {
                    assert(program.subrange(position + 1, next) =~= program.subrange(
                        position,
                        next,
                    ).skip(1));
                    assert(written.skip(1) =~= bytes);
                }
                law_insertions_read_back(program, position, base.len() as int, bytes);
            },
            DeltaStep::Copy(offset, length) => {
                law_copies_read_back(
                    program,
                    position,
                    base.len() as int,
                    offset as nat,
                    length as nat,
                    false,
                );
            },
        }
        assert(delta_step(program, position, base.len() as int) == Some((step, next)));
        assert forall|i: int| 0 <= i < steps.skip(1).len() implies writable(
            #[trigger] steps.skip(1)[i],
            base.len() as int,
        ) by {
            assert(steps.skip(1)[i] == steps[i + 1]);
        }
        lemma_steps_run(program, next, base, output + step.output(base), steps.skip(1));
        assert(output + step.output(base) + made_of(base, steps.skip(1)) =~= output + made_of(
            base,
            steps,
        ));
        assert(step.output(base).len() == step.length());
        assert(program.len() > position);
    }
}

/// A program of any instructions makes of its base what they say: the inserted bytes and the
/// copied parts of the base, one behind the other, charged with their length, as long as the
/// budget allows it.
pub proof fn law_delta_programs_do_what_they_say(
    base: Seq<u8>,
    steps: Seq<DeltaStep>,
    used: int,
)
    requires
        base.len() <= u64::MAX,
        0 <= used,
        forall|i: int| 0 <= i < steps.len() ==> writable(#[trigger] steps[i], base.len() as int),
        used + made_of(base, steps).len() <= MAXIMUM_INFLATED_GIT_BYTES,
    ensures
        delta_application(
            base,
            varint_bytes(base.len()) + varint_bytes(made_of(base, steps).len()) + instructions(
                steps,
            ),
            used,
        ) == Ok::<(Seq<u8>, int), GitArtifactFailure>(
            (made_of(base, steps), used + made_of(base, steps).len()),
        ),
{
    let result = made_of(base, steps);
    let first = varint_bytes(base.len());
    let second = varint_bytes(result.len());
    let program = first + second + instructions(steps);
    let start = (first.len() + second.len()) as int;
    assert(program.subrange(0, first.len() as int) =~= first);
    law_varint_reads_back(program, 0, base.len());
    assert(program.subrange(first.len() as int, start) =~= second);
    law_varint_reads_back(program, first.len() as int, result.len());
    assert(program.skip(start) =~= instructions(steps));
    lemma_steps_run(program, start, base, Seq::empty(), steps);
    assert(Seq::<u8>::empty() + result =~= result);
    assert(delta_header(program) == Ok::<(int, int, int), GitArtifactFailure>(
        (base.len() as int, result.len() as int, start),
    ));
}

/// A delta for a base of another size is refused, and so is one whose result the budget does
/// not allow; the first as malformed, the second for the limit.
pub proof fn law_unfit_deltas_are_refused(
    base: Seq<u8>,
    base_size: nat,
    result_size: nat,
    rest: Seq<u8>,
    used: int,
)
    requires
        base_size <= u64::MAX,
        result_size <= u64::MAX,
    ensures
        ({
            let program = varint_bytes(base_size) + varint_bytes(result_size) + rest;
            let outcome = delta_application(base, program, used);
            &&& base_size != base.len() ==> outcome == Err::<(Seq<u8>, int), GitArtifactFailure>(
                GitArtifactFailure::Pack,
            )
            &&& base_size == base.len() && used + result_size > MAXIMUM_INFLATED_GIT_BYTES
                ==> outcome == Err::<(Seq<u8>, int), GitArtifactFailure>(
                GitArtifactFailure::StructureLimit,
            )
        }),
{
    let first = varint_bytes(base_size);
    let second = varint_bytes(result_size);
    let program = first + second + rest;
    let start = (first.len() + second.len()) as int;
    assert(program.subrange(0, first.len() as int) =~= first);
    law_varint_reads_back(program, 0, base_size);
    assert(program.subrange(first.len() as int, start) =~= second);
    law_varint_reads_back(program, first.len() as int, result_size);
}

/// An instruction that was read is told by what it holds.
pub proof fn law_commands_are_modelled_faithfully(command: DeltaCommand<'_>)
    ensures
        match command@ {
            DeltaStep::Insert(bytes) => command matches DeltaCommand::Insert(inserted)
                && inserted@ == bytes,
            DeltaStep::Copy(from, count) => command matches DeltaCommand::Copy { offset, length }
                && offset == from && length == count,
        },
{
}

} // verus!
