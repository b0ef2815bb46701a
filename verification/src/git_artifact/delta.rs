//! Delta programs: instructions that rebuild an object from a base object.

use std::sync::atomic::AtomicBool;

use vstd::prelude::*;

use crate::bytes::append_bytes;
use crate::git_artifact::varint::{lemma_varint_not_negative, varint, ByteReader};
use crate::git_artifact::{
    bears_out, check_cancelled, interrupted, GitArtifactFailure, GitArtifactValidationBudget,
    MAXIMUM_INFLATED_GIT_BYTES,
};

verus! {

/// One instruction of a delta program.
pub enum DeltaStep {
    Insert(Seq<u8>),
    Copy(int, int),
}

impl DeltaStep {
    /// How many bytes the instruction produces.
    pub open spec fn length(self) -> int {
        match self {
            DeltaStep::Insert(bytes) => bytes.len() as int,
            DeltaStep::Copy(_, length) => length,
        }
    }

    /// The bytes that the instruction produces from `base`.
    pub open spec fn output(self, base: Seq<u8>) -> Seq<u8> {
        match self {
            DeltaStep::Insert(bytes) => bytes,
            DeltaStep::Copy(offset, length) => base.subrange(offset, offset + length),
        }
    }
}

/// Reads a little-endian number of at most `count` bytes of which only those
/// are stored whose flag, lowest first, is set. The others are zero.
pub open spec fn flagged_number(program: Seq<u8>, position: int, flags: int, count: nat) -> Option<
    (int, int),
>
    decreases count,
{
    if count == 0 {
        Some((0, position))
    } else if flags % 2 == 1 {
        if position >= program.len() {
            None
        } else {
            match flagged_number(program, position + 1, flags / 2, (count - 1) as nat) {
                Some((rest, next)) => Some((program[position] + 256 * rest, next)),
                None => None,
            }
        }
    } else {
        match flagged_number(program, position, flags / 2, (count - 1) as nat) {
            Some((rest, next)) => Some((256 * rest, next)),
            None => None,
        }
    }
}

/// The instruction at `position` and the position behind it, if it is well
/// formed and copies only from within a base of `base_size` bytes.
pub open spec fn delta_step(program: Seq<u8>, position: int, base_size: int) -> Option<
    (DeltaStep, int),
> {
    let command = program[position];
    if command == 0 {
        None
    } else if command < 128 {
        let next = position + 1 + command;
        if next > program.len() {
            None
        } else {
            Some((DeltaStep::Insert(program.subrange(position + 1, next)), next))
        }
    } else {
        match flagged_number(program, position + 1, command as int % 16, 4) {
            None => None,
            Some((offset, after)) => match flagged_number(
                program,
                after,
                (command as int / 16) % 8,
                3,
            ) {
                None => None,
                Some((stored, next)) => {
                    let length = if stored == 0 {
                        0x1_0000
                    } else {
                        stored
                    };
                    if offset + length > base_size {
                        None
                    } else {
                        Some((DeltaStep::Copy(offset, length), next))
                    }
                },
            },
        }
    }
}

proof fn lemma_flagged_number_advances(program: Seq<u8>, position: int, flags: int, count: nat)
    ensures
        flagged_number(program, position, flags, count) matches Some((number, next)) ==> position
            <= next && 0 <= number && (position <= program.len() ==> next <= program.len()),
    decreases count,
{
    if count > 0 {
        if flags % 2 == 1 {
            lemma_flagged_number_advances(program, position + 1, flags / 2, (count - 1) as nat);
        } else {
            lemma_flagged_number_advances(program, position, flags / 2, (count - 1) as nat);
        }
    }
}

/// An instruction takes at least one byte and produces at least one, and a copy
/// stays within the base.
pub proof fn lemma_delta_step_advances(program: Seq<u8>, position: int, base_size: int)
    requires
        0 <= position < program.len(),
    ensures
        delta_step(program, position, base_size) matches Some((step, next)) ==> position < next
            <= program.len() && step.length() > 0 && (step matches DeltaStep::Copy(offset, length)
            ==> 0 <= offset && offset + length <= base_size),
{
    let command = program[position];
    if command >= 128 {
        lemma_flagged_number_advances(program, position + 1, command as int % 16, 4);
        if let Some((offset, after)) = flagged_number(
            program,
            position + 1,
            command as int % 16,
            4,
        ) {
            lemma_flagged_number_advances(program, after, (command as int / 16) % 8, 3);
        }
    }
}

/// Whether the instructions from `position` on are well formed for a base of
/// `base_size` bytes and, after `produced` bytes, end with exactly
/// `result_size` bytes without ever exceeding them.
pub open spec fn delta_runs(
    program: Seq<u8>,
    position: int,
    base_size: int,
    produced: int,
    result_size: int,
) -> bool
    decreases program.len() - position,
{
    if position < 0 || position >= program.len() {
        produced == result_size
    } else {
        match delta_step(program, position, base_size) {
            None => false,
            Some((step, next)) => {
                proof {
                    lemma_delta_step_advances(program, position, base_size);
                }
                produced + step.length() <= result_size && delta_runs(
                    program,
                    next,
                    base_size,
                    produced + step.length(),
                    result_size,
                )
            },
        }
    }
}

/// What the instructions from `position` on append to `output`.
pub open spec fn delta_output(
    program: Seq<u8>,
    position: int,
    base: Seq<u8>,
    output: Seq<u8>,
) -> Seq<u8>
    decreases program.len() - position,
{
    if position < 0 || position >= program.len() {
        output
    } else {
        match delta_step(program, position, base.len() as int) {
            None => output,
            Some((step, next)) => {
                proof {
                    lemma_delta_step_advances(program, position, base.len() as int);
                }
                delta_output(program, next, base, output + step.output(base))
            },
        }
    }
}

/// The base size and the result size that a program declares, and where its
/// instructions start.
pub open spec fn delta_header(program: Seq<u8>) -> Result<(int, int, int), GitArtifactFailure> {
    match varint(program, program.len() as int, 0, 0, 0) {
        Err(failure) => Err(failure),
        Ok((base_size, position)) => match varint(program, program.len() as int, position, 0, 0) {
            Err(failure) => Err(failure),
            Ok((result_size, start)) => Ok((base_size, result_size, start)),
        },
    }
}

/// Whether a program is well formed for a base of the size that it declares.
pub open spec fn delta_validity(program: Seq<u8>) -> Result<(), GitArtifactFailure> {
    match delta_header(program) {
        Err(failure) => Err(failure),
        Ok((base_size, result_size, start)) => if delta_runs(
            program,
            start,
            base_size,
            0,
            result_size,
        ) {
            Ok(())
        } else {
            Err(GitArtifactFailure::Pack)
        },
    }
}

/// Why a program is refused before any of its instructions is read: its sizes cannot be
/// read, it is for a base of another size, or the budget does not allow its result.
pub open spec fn delta_refusal(base: Seq<u8>, program: Seq<u8>, used: int) -> Option<
    GitArtifactFailure,
> {
    match delta_header(program) {
        Err(failure) => Some(failure),
        Ok((base_size, result_size, _)) => if base_size != base.len() {
            Some(GitArtifactFailure::Pack)
        } else if used + result_size > MAXIMUM_INFLATED_GIT_BYTES {
            Some(GitArtifactFailure::StructureLimit)
        } else {
            None
        },
    }
}

/// What a program makes of `base` under a budget of which `used` bytes are
/// charged, with the charge afterwards.
pub open spec fn delta_application(base: Seq<u8>, program: Seq<u8>, used: int) -> Result<
    (Seq<u8>, int),
    GitArtifactFailure,
> {
    match delta_header(program) {
        Err(failure) => Err(failure),
        Ok((base_size, result_size, start)) => if base_size != base.len() {
            Err(GitArtifactFailure::Pack)
        } else if used + result_size > MAXIMUM_INFLATED_GIT_BYTES {
            Err(GitArtifactFailure::StructureLimit)
        } else if delta_runs(program, start, base_size, 0, result_size) {
            Ok((delta_output(program, start, base, Seq::empty()), used + result_size))
        } else {
            Err(GitArtifactFailure::Pack)
        },
    }
}

/// The charge of the budget after an attempt to apply a program to `base`: the size
/// that it declares, once its base fits and the budget admits it.
pub open spec fn delta_charge(base: Seq<u8>, program: Seq<u8>, used: int) -> int {
    match delta_header(program) {
        Err(_) => used,
        Ok((base_size, result_size, _)) => if base_size != base.len() || used + result_size
            > MAXIMUM_INFLATED_GIT_BYTES {
            used
        } else {
            used + result_size
        },
    }
}

/// Applying a delta takes no charge back and stays within the budget.
pub(crate) proof fn lemma_delta_charge(base: Seq<u8>, program: Seq<u8>, used: int)
    ensures
        used <= delta_charge(base, program, used),
        used <= MAXIMUM_INFLATED_GIT_BYTES ==> delta_charge(base, program, used)
            <= MAXIMUM_INFLATED_GIT_BYTES,
        delta_application(base, program, used) matches Ok((_, charged)) ==> charged
            == delta_charge(base, program, used) && used <= charged <= MAXIMUM_INFLATED_GIT_BYTES,
{
    lemma_varint_not_negative(program, program.len() as int, 0, 0, 0);
    if let Ok((_, position)) = varint(program, program.len() as int, 0, 0, 0) {
        lemma_varint_not_negative(program, program.len() as int, position, 0, 0);
    }
}

proof fn lemma_delta_output_length(
    program: Seq<u8>,
    position: int,
    base: Seq<u8>,
    output: Seq<u8>,
    result_size: int,
)
    requires
        delta_runs(program, position, base.len() as int, output.len() as int, result_size),
    ensures
        delta_output(program, position, base, output).len() == result_size,
    decreases program.len() - position,
{
    if 0 <= position < program.len() {
        lemma_delta_step_advances(program, position, base.len() as int);
        let (step, next) = delta_step(program, position, base.len() as int)->Some_0;
        assert(step.output(base).len() == step.length());
        lemma_delta_output_length(program, next, base, output + step.output(base), result_size);
    }
}

/// A delta that applies yields exactly the number of bytes that it declares and
/// that the budget was charged for.
pub proof fn law_delta_yields_its_declared_size(base: Seq<u8>, program: Seq<u8>, used: int)
    ensures
        delta_application(base, program, used) matches Ok((output, charged)) ==> (delta_header(
            program,
        ) matches Ok((base_size, result_size, _)) && base_size == base.len() && output.len()
            == result_size && charged == used + result_size),
{
    if let Ok((base_size, result_size, start)) = delta_header(program) {
        if delta_application(base, program, used) is Ok {
            lemma_delta_output_length(program, start, base, Seq::empty(), result_size);
        }
    }
}

/// A delta that was found well formed applies to every base of the size that it
/// declares, as long as the budget admits its result.
pub proof fn law_valid_delta_applies(base: Seq<u8>, program: Seq<u8>, used: int)
    requires
        delta_validity(program) is Ok,
        delta_header(program)->Ok_0.0 == base.len(),
        used + delta_header(program)->Ok_0.1 <= MAXIMUM_INFLATED_GIT_BYTES,
    ensures
        delta_application(base, program, used) is Ok,
{
}

/// One instruction of a delta program, as read.
pub enum DeltaCommand<'a> {
    Insert(&'a [u8]),
    Copy { offset: u64, length: u64 },
}

impl<'a> View for DeltaCommand<'a> {
    type V = DeltaStep;

    open spec fn view(&self) -> DeltaStep {
        match self {
            DeltaCommand::Insert(bytes) => DeltaStep::Insert(bytes@),
            DeltaCommand::Copy { offset, length } => {
                DeltaStep::Copy(*offset as int, *length as int)
            },
        }
    }
}

/// The number of different values that `count` bytes hold.
spec fn byte_limit(count: nat) -> int
    decreases count,
{
    if count == 0 {
        1
    } else {
        256 * byte_limit((count - 1) as nat)
    }
}

/// Reads a little-endian number of which only the flagged bytes are stored.
fn read_flagged_number(reader: &mut ByteReader<'_>, flags: u8, count: u8) -> (read: Result<
    u64,
    GitArtifactFailure,
>)
    requires
        old(reader).well_formed(),
        old(reader).end == old(reader).bytes@.len(),
        count <= 4,
    ensures
        final(reader).well_formed(),
        final(reader).same_source(old(reader)),
        final(reader).position >= old(reader).position,
        match flagged_number(
            old(reader).bytes@,
            old(reader).position as int,
            flags as int,
            count as nat,
        ) {
            Some((number, next)) => read == Ok::<u64, GitArtifactFailure>(number as u64) && 0
                <= number < byte_limit(count as nat) && final(reader).position == next,
            None => read == Err::<u64, GitArtifactFailure>(GitArtifactFailure::Pack),
        },
    decreases count,
{
    if count == 0 {
        return Ok(0);
    }
    proof {
        reveal_with_fuel(byte_limit, 5);
    }
    if flags % 2 == 1 {
        let byte: u8 = reader.read_byte()?;
        let rest: u64 = read_flagged_number(reader, flags / 2, count - 1)?;
        Ok(byte as u64 + 256 * rest)
    } else {
        let rest: u64 = read_flagged_number(reader, flags / 2, count - 1)?;
        Ok(256 * rest)
    }
}

/// A delta program in the course of being run.
pub struct DeltaProgramReader<'a> {
    pub delta: ByteReader<'a>,
    pub base_size: u64,
    pub result_size: u64,
    pub produced: u64,
}

impl<'a> DeltaProgramReader<'a> {
    /// The reader stands within the program and has not exceeded the result.
    pub open spec fn well_formed(&self) -> bool {
        &&& self.delta.well_formed()
        &&& self.delta.end == self.delta.bytes@.len()
        &&& self.produced <= self.result_size
    }

    /// Whether the rest of the program runs to its declared result.
    pub open spec fn runs(&self) -> bool {
        delta_runs(
            self.delta.bytes@,
            self.delta.position as int,
            self.base_size as int,
            self.produced as int,
            self.result_size as int,
        )
    }

    /// What stands next: an instruction and where the one behind it starts, or `None`
    /// where the program ends on its declared result. An instruction must be well formed
    /// and add no more than the declared result leaves.
    pub open spec fn next_step(&self) -> Result<Option<(DeltaStep, int)>, GitArtifactFailure> {
        if self.delta.position == self.delta.end {
            if self.produced == self.result_size {
                Ok(None)
            } else {
                Err(GitArtifactFailure::Pack)
            }
        } else {
            match delta_step(
                self.delta.bytes@,
                self.delta.position as int,
                self.base_size as int,
            ) {
                Some((step, next)) => if self.produced + step.length() <= self.result_size {
                    Ok(Some((step, next)))
                } else {
                    Err(GitArtifactFailure::Pack)
                },
                None => Err(GitArtifactFailure::Pack),
            }
        }
    }

    /// Reads the sizes that start a program.
    pub fn open(program: &'a [u8]) -> (opened: Result<DeltaProgramReader<'a>, GitArtifactFailure>)
        ensures
            match delta_header(program@) {
                Ok((base_size, result_size, start)) => opened matches Ok(reader)
                    && reader.well_formed() && reader.delta.bytes@ == program@
                    && reader.delta.position == start && reader.base_size == base_size
                    && reader.result_size == result_size && reader.produced == 0,
                Err(failure) => opened matches Err(reported) && reported == failure,
            },
    {
        let mut delta = ByteReader { bytes: program, position: 0, end: program.len() };
        let base_size: u64 = delta.read_varint(0, 0)?;
        let result_size: u64 = delta.read_varint(0, 0)?;
        Ok(DeltaProgramReader { delta, base_size, result_size, produced: 0 })
    }

    /// Takes the next instruction, or `None` behind the last one.
    pub fn next_command(&mut self, cancelled: Option<&AtomicBool>) -> (read: Result<
        Option<DeltaCommand<'a>>,
        GitArtifactFailure,
    >)
        requires
            old(self).well_formed(),
        ensures
            final(self).well_formed(),
            final(self).delta.same_source(&old(self).delta),
            final(self).base_size == old(self).base_size,
            final(self).result_size == old(self).result_size,
            match read {
                Ok(Some(command)) => old(self).next_step() == Ok::<
                    Option<(DeltaStep, int)>,
                    GitArtifactFailure,
                >(Some((command@, final(self).delta.position as int))) && final(self).produced
                    == old(self).produced + command@.length() && final(self).delta.position
                    > old(self).delta.position,
                Ok(None) => old(self).next_step() == Ok::<
                    Option<(DeltaStep, int)>,
                    GitArtifactFailure,
                >(None) && *final(self) == *old(self),
                Err(failure) => final(self).produced == old(self).produced && (old(
                    self,
                ).next_step() == Err::<Option<(DeltaStep, int)>, GitArtifactFailure>(failure) || (
                interrupted(cancelled, failure) && *final(self) == *old(self))),
            },
            bears_out(cancelled, read),
    {
        check_cancelled(cancelled)?;
        if self.delta.position == self.delta.end {
            if self.produced == self.result_size {
                return Ok(None);
            }
            return Err(GitArtifactFailure::Pack);
        }
        proof {
            lemma_delta_step_advances(
                self.delta.bytes@,
                self.delta.position as int,
                self.base_size as int,
            );
        }
        let command: u8 = self.delta.read_byte()?;
        if command == 0 {
            return Err(GitArtifactFailure::Pack);
        }
        if command < 128 {
            let bytes: &'a [u8] = self.delta.read_exact(command as usize)?;
            self.add_produced(command as u64)?;
            return Ok(Some(DeltaCommand::Insert(bytes)));
        }
        proof {
            reveal_with_fuel(byte_limit, 5);
        }
        let offset: u64 = read_flagged_number(&mut self.delta, command % 16, 4)?;
        let stored: u64 = read_flagged_number(&mut self.delta, (command / 16) % 8, 3)?;
        let length: u64 = if stored == 0 {
            0x1_0000
        } else {
            stored
        };
        if offset + length > self.base_size {
            return Err(GitArtifactFailure::Pack);
        }
        self.add_produced(length)?;
        Ok(Some(DeltaCommand::Copy { offset, length }))
    }

    /// Counts `length` more produced bytes; the declared result bounds them.
    pub fn add_produced(&mut self, length: u64) -> (added: Result<(), GitArtifactFailure>)
        ensures
            added is Ok <==> old(self).produced + length <= old(self).result_size,
            added is Ok ==> *final(self) == (DeltaProgramReader {
                produced: (old(self).produced + length) as u64,
                ..*old(self)
            }),
            added matches Err(failure) ==> failure == GitArtifactFailure::Pack && *final(self)
                == *old(self),
    {
        if self.produced > self.result_size || length > self.result_size - self.produced {
            return Err(GitArtifactFailure::Pack);
        }
        self.produced = self.produced + length;
        Ok(())
    }
}

/// Checks that a delta program is well formed, without its base.
pub fn validate_delta_program(program: &[u8], cancelled: Option<&AtomicBool>) -> (outcome: Result<
    (),
    GitArtifactFailure,
>)
    ensures
        outcome == delta_validity(program@) || (outcome matches Err(failure) && interrupted(
            cancelled,
            failure,
        )),
        match delta_header(program@) {
            Err(failure) => outcome matches Err(reported) && reported == failure,
            Ok(_) => bears_out(cancelled, outcome),
        },
{
    let mut reader = DeltaProgramReader::open(program)?;
    let ghost start = reader;
    loop
        invariant
            reader.well_formed(),
            reader.delta.bytes@ == program@,
            delta_header(program@) is Ok,
            reader.runs() == start.runs(),
            delta_validity(program@) == (if start.runs() {
                Ok::<(), GitArtifactFailure>(())
            } else {
                Err(GitArtifactFailure::Pack)
            }),
        decreases reader.delta.end - reader.delta.position,
    {
        if reader.next_command(cancelled)?.is_none() {
            return Ok(());
        }
    }
}

/// Applies a delta program to its base.
pub fn apply_delta(
    base: &[u8],
    program: &[u8],
    budget: &mut GitArtifactValidationBudget,
    cancelled: Option<&AtomicBool>,
) -> (outcome: Result<Vec<u8>, GitArtifactFailure>)
    ensures
        final(budget).used() >= old(budget).used(),
        final(budget).used() == delta_charge(base@, program@, old(budget).used()),
        match outcome {
            Ok(output) => delta_application(base@, program@, old(budget).used()) == Ok::<
                (Seq<u8>, int),
                GitArtifactFailure,
            >((output@, final(budget).used())),
            Err(failure) => delta_application(base@, program@, old(budget).used()) == Err::<
                (Seq<u8>, int),
                GitArtifactFailure,
            >(failure) || interrupted(cancelled, failure),
        },
        match delta_refusal(base@, program@, old(budget).used()) {
            Some(failure) => outcome matches Err(reported) && reported == failure,
            None => bears_out(cancelled, outcome),
        },
{
    let mut reader = DeltaProgramReader::open(program)?;
    let base_length: usize = base.len();
    if reader.base_size != base_length as u64 {
        return Err(GitArtifactFailure::Pack);
    }
    budget.add_reconstructed(reader.result_size)?;
    let ghost start = reader;
    let mut output: Vec<u8> = Vec::new();
    loop
        invariant
            reader.well_formed(),
            reader.delta.bytes@ == program@,
            reader.base_size == base@.len(),
            base@.len() == base_length,
            delta_refusal(base@, program@, old(budget).used()) is None,
            start.runs() == reader.runs(),
            budget.used() >= old(budget).used(),
            budget.used() == delta_charge(base@, program@, old(budget).used()),
            delta_application(base@, program@, old(budget).used()) == (if start.runs() {
                Ok::<(Seq<u8>, int), GitArtifactFailure>(
                    (
                        delta_output(
                            program@,
                            reader.delta.position as int,
                            base@,
                            output@,
                        ),
                        budget.used(),
                    ),
                )
            } else {
                Err(GitArtifactFailure::Pack)
            }),
        decreases reader.delta.end - reader.delta.position,
    {
        proof {
            if reader.delta.position < reader.delta.end {
                lemma_delta_step_advances(
                    program@,
                    reader.delta.position as int,
                    base@.len() as int,
                );
            }
        }
        match reader.next_command(cancelled)? {
            None => {
                return Ok(output);
            },
            Some(DeltaCommand::Insert(bytes)) => {
                append_bytes(&mut output, bytes);
            },
            Some(DeltaCommand::Copy { offset, length }) => {
                append_bytes(&mut output, &base[offset as usize..(offset + length) as usize]);
            },
        }
    }
}

} // verus!
