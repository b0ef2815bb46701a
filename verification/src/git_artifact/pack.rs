//! The pack of a bundle: its entries, inflated and checked one by one.

use std::collections::BTreeMap;
use std::sync::atomic::AtomicBool;

use vstd::prelude::*;
use vstd::string::StringSliceAdditionalSpecFns;

use crate::bytes::bytes_equal;
use crate::git_artifact::delta::{delta_validity, validate_delta_program};
use crate::git_artifact::object::{
    lemma_integer_keys, object_model, object_record, sha1, sha1_digest, ObjectKind, ObjectModel,
    ObjectRecord,
};
use crate::git_artifact::refusals::lemma_pack_refusal;
use crate::git_artifact::varint::{
    entry_header, offset_distance, read_entry_header, read_offset_distance, ByteReader,
};
use crate::git_artifact::{
    bears_out, check_cancelled, interrupted, is_interruption, polled, GitArtifactFailure,
    GitArtifactValidationBudget, MAXIMUM_DELTA_DEPTH, MAXIMUM_INFLATED_GIT_BYTES,
    MAXIMUM_PACK_ENTRIES, PACK_CHECKSUM_BYTES,
};

verus! {

/// What a delta entry names as its base.
pub enum BaseModel {
    Entry(int),
    Oid(Seq<u8>),
}

/// A delta entry: its base, its program, and the shortest chain below it.
#[verifier::ext_equal]
pub struct DeltaModel {
    pub base: BaseModel,
    pub program: Seq<u8>,
    pub minimum_depth: int,
}

/// One entry of a pack.
pub enum EntryModel {
    Object(ObjectModel),
    Delta(DeltaModel),
}

impl EntryModel {
    /// The length of the delta chain that the entry is known to end.
    pub open spec fn minimum_depth(self) -> int {
        match self {
            EntryModel::Object(object) => object.depth,
            EntryModel::Delta(delta) => delta.minimum_depth,
        }
    }
}

/// What a delta entry names as its base: an earlier entry, or any object.
#[derive(Clone, Copy)]
pub enum DeltaBase {
    Entry(usize),
    Oid([u8; 20]),
}

impl View for DeltaBase {
    type V = BaseModel;

    open spec fn view(&self) -> BaseModel {
        match self {
            DeltaBase::Entry(index) => BaseModel::Entry(*index as int),
            DeltaBase::Oid(oid) => BaseModel::Oid(oid@),
        }
    }
}

/// A delta entry whose base has not been applied yet.
pub struct DeltaRecord {
    pub base: DeltaBase,
    pub program: Vec<u8>,
    pub minimum_depth: u8,
}

impl View for DeltaRecord {
    type V = DeltaModel;

    open spec fn view(&self) -> DeltaModel {
        DeltaModel {
            base: self.base@,
            program: self.program@,
            minimum_depth: self.minimum_depth as int,
        }
    }
}

/// One entry of a pack.
pub enum PackEntry {
    Object(ObjectRecord),
    Delta(DeltaRecord),
}

impl View for PackEntry {
    type V = EntryModel;

    open spec fn view(&self) -> EntryModel {
        match self {
            PackEntry::Object(object) => EntryModel::Object(object@),
            PackEntry::Delta(delta) => EntryModel::Delta(delta@),
        }
    }
}

impl PackEntry {
    /// The length of the delta chain that the entry is known to end.
    pub fn minimum_depth(&self) -> (depth: u8)
        ensures
            depth == self@.minimum_depth(),
    {
        match self {
            PackEntry::Object(object) => object.depth,
            PackEntry::Delta(delta) => delta.minimum_depth,
        }
    }
}

/// The models of a sequence of entries.
pub open spec fn entry_models(entries: Seq<PackEntry>) -> Seq<EntryModel> {
    entries.map_values(|entry: PackEntry| entry@)
}

/// Whether every base that is given as an entry stands before the delta.
pub open spec fn bases_precede(entries: Seq<EntryModel>) -> bool {
    forall|index: int|
        0 <= index < entries.len() ==> (#[trigger] entries[index] matches EntryModel::Delta(delta)
            ==> (delta.base matches BaseModel::Entry(base) ==> 0 <= base < index))
}

/// The most bytes that one call of a decompressor is given, and the room that it has
/// for its output.
pub const INFLATION_CHUNK_BYTES: usize = 65_536;

/// The calls that were made on a zlib stream since it was created, in their order: the
/// input that each was given and the room that it had for output.
pub uninterp spec fn stream_calls(stream: flate2::Decompress) -> Seq<(Seq<u8>, int)>;

/// What the last of the calls `calls`, made on a fresh zlib stream, gives: whether the
/// stream ended, how many bytes the stream has taken and how many it has produced over
/// all of its calls, and the output buffer. `None` where the call reports an error.
pub uninterp spec fn inflated(calls: Seq<(Seq<u8>, int)>) -> Option<(bool, int, int, Seq<u8>)>;

/// How a decompressor's call ended.
#[derive(Clone, Copy, Debug, PartialEq, Eq, Structural)]
pub enum InflateStatus {
    Progress,
    BufferStalled,
    StreamEnd,
}

/// What one call of a decompressor did: the totals are those of the stream, and the
/// output buffer starts with what the call produced.
pub struct Inflation {
    pub status: InflateStatus,
    pub total_in: u64,
    pub total_out: u64,
    pub output: Vec<u8>,
}

/// What a call did, by whether the stream ended, its totals and the output buffer.
pub open spec fn chunk_model(chunk: Option<Inflation>) -> Option<(bool, int, int, Seq<u8>)> {
    match chunk {
        Some(inflation) => Some(
            (
                inflation.status == InflateStatus::StreamEnd,
                inflation.total_in as int,
                inflation.total_out as int,
                inflation.output@,
            ),
        ),
        None => None,
    }
}

/// Whether a stream's last call left the totals `taken` and `made`.
pub open spec fn stream_totals(calls: Seq<(Seq<u8>, int)>, taken: int, made: int) -> bool {
    if calls.len() == 0 {
        taken == 0 && made == 0
    } else {
        inflated(calls) matches Some((_, total_in, total_out, _)) && total_in == taken && total_out
            == made
    }
}

#[verifier::external_type_specification]
#[verifier::external_body]
pub struct ExDecompress(flate2::Decompress);

#[verifier::external_type_specification]
#[verifier::external_body]
pub struct ExDecompressError(flate2::DecompressError);

/// `flate2::Decompress::new` for a stream with a zlib header: no call was made on it.
#[verifier::external_body]
fn new_stream() -> (stream: flate2::Decompress)
    ensures
        stream_calls(stream) == Seq::<(Seq<u8>, int)>::empty(),
{
    flate2::Decompress::new(true)
}

/// `flate2::Decompress::decompress`, without flushing, into a zeroed buffer of `room`
/// bytes, with the stream's totals after it. What a call gives is a function of the calls
/// made on the stream, this one the last. A call that is the first, or follows one without
/// error, adds at most the length of its input to the bytes taken, and at most its room to
/// the bytes produced.
#[verifier::external_body]
fn inflate_chunk(stream: &mut flate2::Decompress, input: &[u8], room: usize) -> (outcome: Result<
    Inflation,
    flate2::DecompressError,
>)
    requires
        room <= isize::MAX,
    ensures
        stream_calls(*final(stream)) == stream_calls(*old(stream)).push((input@, room as int)),
        match outcome {
            Ok(inflation) => inflated(stream_calls(*final(stream))) == chunk_model(
                Some(inflation),
            ) && inflation.output@.len() == room && forall|taken: int, made: int| #[trigger]
                stream_totals(stream_calls(*old(stream)), taken, made) ==> taken
                    <= inflation.total_in <= taken + input@.len() && made <= inflation.total_out
                    <= made + room,
            Err(_) => inflated(stream_calls(*final(stream))) is None,
        },
{
    let mut output = vec![0_u8; room];
    let status = match stream.decompress(input, &mut output, flate2::FlushDecompress::None)? {
        flate2::Status::Ok => InflateStatus::Progress,
        flate2::Status::BufError => InflateStatus::BufferStalled,
        flate2::Status::StreamEnd => InflateStatus::StreamEnd,
    };
    Ok(Inflation { status, total_in: stream.total_in(), total_out: stream.total_out(), output })
}

/// What one call amounts to for an entry of `expected` bytes, of which `content` was
/// inflated before from `taken` bytes, and the charge of the budget after it. The call
/// must move the stream forward. What it produced is charged, unless it is more than the
/// entry declares or the budget admits. Where it is accepted: the content with the output
/// behind it, the number of bytes that the call took, and whether the stream ended.
pub open spec fn chunk_verdict(
    chunk: Option<(bool, int, int, Seq<u8>)>,
    taken: int,
    content: Seq<u8>,
    expected: int,
    used: int,
) -> (Result<(Seq<u8>, int, bool), GitArtifactFailure>, int) {
    match chunk {
        None => (Err(GitArtifactFailure::Pack), used),
        Some((ended, total_in, total_out, output)) => {
            let consumed = total_in - taken;
            let produced = total_out - content.len();
            if consumed < 0 || produced < 0 || produced > output.len() || consumed + produced
                == 0 {
                (Err(GitArtifactFailure::Pack), used)
            } else if content.len() + produced > expected {
                (Err(GitArtifactFailure::Pack), used)
            } else if used + produced > MAXIMUM_INFLATED_GIT_BYTES {
                (Err(GitArtifactFailure::StructureLimit), used)
            } else {
                (Ok((content + output.take(produced), consumed, ended)), used + produced)
            }
        },
    }
}

/// How far the stream of an entry has been inflated.
#[verifier::ext_equal]
pub struct StreamProgress {
    pub calls: Seq<(Seq<u8>, int)>,
    pub position: int,
    pub content: Seq<u8>,
    pub used: int,
}

/// The input of the next call: what lies between `position` and `end`, as far as one
/// call takes it.
pub open spec fn next_input(bytes: Seq<u8>, end: int, position: int) -> Seq<u8> {
    if end - position <= INFLATION_CHUNK_BYTES {
        bytes.subrange(position, end)
    } else {
        bytes.subrange(position, position + INFLATION_CHUNK_BYTES)
    }
}

/// A distance, with none below zero.
pub open spec fn distance_left(distance: int) -> int {
    if distance < 0 {
        0
    } else {
        distance
    }
}

/// Inflates the rest of the stream that started at `start`, call by call, and the charge
/// of the budget after it: the entry's content, which must have the `expected` length
/// where the stream ends, and the position behind the stream.
pub open spec fn inflation(
    bytes: Seq<u8>,
    end: int,
    start: int,
    expected: int,
    progress: StreamProgress,
) -> (Result<(Seq<u8>, int), GitArtifactFailure>, int)
    decreases
            distance_left(end - progress.position) + distance_left(
                expected - progress.content.len(),
            ),
{
    if progress.position >= end {
        (Err(GitArtifactFailure::Pack), progress.used)
    } else {
        let calls = progress.calls.push(
            (next_input(bytes, end, progress.position), INFLATION_CHUNK_BYTES as int),
        );
        match chunk_verdict(
            inflated(calls),
            progress.position - start,
            progress.content,
            expected,
            progress.used,
        ) {
            (Err(failure), used) => (Err(failure), used),
            (Ok((content, consumed, ended)), used) => if !ended {
                inflation(
                    bytes,
                    end,
                    start,
                    expected,
                    StreamProgress { calls, position: progress.position + consumed, content, used },
                )
            } else if content.len() != expected {
                (Err(GitArtifactFailure::Pack), used)
            } else {
                (Ok((content, progress.position + consumed)), used)
            },
        }
    }
}

/// A stream of which nothing has been inflated.
pub open spec fn fresh_stream(position: int, used: int) -> StreamProgress {
    StreamProgress { calls: Seq::empty(), position, content: Seq::empty(), used }
}

/// Inflates the entry of `expected` bytes whose stream starts at `position`:
/// its content, and the position behind the stream. No entry outgrows the budget.
pub open spec fn inflated_entry(
    bytes: Seq<u8>,
    end: int,
    position: int,
    expected: int,
    used: int,
) -> Result<(Seq<u8>, int), GitArtifactFailure> {
    if expected > MAXIMUM_INFLATED_GIT_BYTES {
        Err(GitArtifactFailure::StructureLimit)
    } else {
        inflation(bytes, end, position, expected, fresh_stream(position, used)).0
    }
}

/// The charge of the budget after reading the entry of `expected` bytes whose stream
/// starts at `position`.
pub open spec fn inflated_entry_charge(
    bytes: Seq<u8>,
    end: int,
    position: int,
    expected: int,
    used: int,
) -> int {
    if expected > MAXIMUM_INFLATED_GIT_BYTES {
        used
    } else {
        inflation(bytes, end, position, expected, fresh_stream(position, used)).1
    }
}

/// Inflating takes no charge back and stays within the budget. Where it succeeds, the
/// charge is that of the content, which has the declared length.
proof fn lemma_inflation(
    bytes: Seq<u8>,
    end: int,
    start: int,
    expected: int,
    progress: StreamProgress,
)
    ensures
        ({
            let (outcome, used) = inflation(bytes, end, start, expected, progress);
            &&& progress.used <= used
            &&& progress.used <= MAXIMUM_INFLATED_GIT_BYTES ==> used <= MAXIMUM_INFLATED_GIT_BYTES
            &&& outcome matches Ok((content, _)) ==> content.len() == expected && used
                == progress.used + expected - progress.content.len()
        }),
    decreases
            distance_left(end - progress.position) + distance_left(
                expected - progress.content.len(),
            ),
{
    if progress.position < end {
        let calls = progress.calls.push(
            (next_input(bytes, end, progress.position), INFLATION_CHUNK_BYTES as int),
        );
        if let (Ok((content, consumed, ended)), used) = chunk_verdict(
            inflated(calls),
            progress.position - start,
            progress.content,
            expected,
            progress.used,
        ) {
            if !ended {
                let next = StreamProgress {
                    calls,
                    position: progress.position + consumed,
                    content,
                    used,
                };
                lemma_inflation(bytes, end, start, expected, next);
            }
        }
    }
}

/// Reading an entry takes no charge back and stays within the budget. Where it succeeds,
/// the charge is that of the content, which has the declared length.
pub proof fn law_inflation_charges_its_content(
    bytes: Seq<u8>,
    end: int,
    position: int,
    expected: int,
    used: int,
)
    ensures
        used <= inflated_entry_charge(bytes, end, position, expected, used),
        used <= MAXIMUM_INFLATED_GIT_BYTES ==> inflated_entry_charge(
            bytes,
            end,
            position,
            expected,
            used,
        ) <= MAXIMUM_INFLATED_GIT_BYTES,
        inflated_entry(bytes, end, position, expected, used) matches Ok((content, _))
            ==> content.len() == expected && inflated_entry_charge(
            bytes,
            end,
            position,
            expected,
            used,
        ) == used + content.len(),
{
    lemma_inflation(bytes, end, position, expected, fresh_stream(position, used));
}

/// Judges what one call of the decompressor did for an entry of `expected` bytes, charges
/// the budget for what it produced and puts that behind `content`. Gives the number of
/// bytes that the call took, and whether the stream ended.
pub fn accept_chunk(
    chunk: Option<Inflation>,
    taken: u64,
    content: &mut Vec<u8>,
    expected: u64,
    budget: &mut GitArtifactValidationBudget,
) -> (outcome: Result<(u64, bool), GitArtifactFailure>)
    ensures
        ({
            let (verdict, used) = chunk_verdict(
                chunk_model(chunk),
                taken as int,
                old(content)@,
                expected as int,
                old(budget).used(),
            );
            final(budget).used() == used && match verdict {
                Ok((longer, consumed, ended)) => outcome == Ok::<(u64, bool), GitArtifactFailure>(
                    (consumed as u64, ended),
                ) && 0 <= consumed <= u64::MAX && final(content)@ == longer,
                Err(failure) => outcome == Err::<(u64, bool), GitArtifactFailure>(failure)
                    && final(content)@ == old(content)@,
            }
        }),
{
    match chunk {
        None => Err(GitArtifactFailure::Pack),
        Some(inflation) => {
            let made: u64 = content.len() as u64;
            if inflation.total_in < taken || inflation.total_out < made {
                return Err(GitArtifactFailure::Pack);
            }
            let consumed: u64 = inflation.total_in - taken;
            let produced: u64 = inflation.total_out - made;
            if produced > inflation.output.len() as u64 || (consumed == 0 && produced == 0) {
                return Err(GitArtifactFailure::Pack);
            }
            if made > expected || produced > expected - made {
                return Err(GitArtifactFailure::Pack);
            }
            budget.add_inflated(produced)?;
            let mut output: Vec<u8> = inflation.output;
            output.truncate(produced as usize);
            content.append(&mut output);
            Ok((consumed, inflation.status == InflateStatus::StreamEnd))
        },
    }
}

/// Inflates the entry of `expected` bytes that starts at the reader's position.
pub fn inflate_entry(
    reader: &mut ByteReader<'_>,
    expected: u64,
    budget: &mut GitArtifactValidationBudget,
    cancelled: Option<&AtomicBool>,
) -> (outcome: Result<Vec<u8>, GitArtifactFailure>)
    requires
        old(reader).well_formed(),
    ensures
        final(reader).well_formed(),
        final(reader).same_source(old(reader)),
        final(budget).used() >= old(budget).used(),
        match outcome {
            Ok(content) => inflated_entry(
                old(reader).bytes@,
                old(reader).end as int,
                old(reader).position as int,
                expected as int,
                old(budget).used(),
            ) == Ok::<(Seq<u8>, int), GitArtifactFailure>(
                (content@, final(reader).position as int),
            ) && final(budget).used() == inflated_entry_charge(
                old(reader).bytes@,
                old(reader).end as int,
                old(reader).position as int,
                expected as int,
                old(budget).used(),
            ) && final(budget).used() == old(budget).used() + content@.len() && content@.len()
                == expected,
            Err(failure) => inflated_entry(
                old(reader).bytes@,
                old(reader).end as int,
                old(reader).position as int,
                expected as int,
                old(budget).used(),
            ) == Err::<(Seq<u8>, int), GitArtifactFailure>(failure) && final(budget).used()
                == inflated_entry_charge(
                old(reader).bytes@,
                old(reader).end as int,
                old(reader).position as int,
                expected as int,
                old(budget).used(),
            ) || (interrupted(cancelled, failure) && final(budget).used()
                <= inflated_entry_charge(
                old(reader).bytes@,
                old(reader).end as int,
                old(reader).position as int,
                expected as int,
                old(budget).used(),
            )),
        },
        if expected > MAXIMUM_INFLATED_GIT_BYTES {
            outcome matches Err(failure) && failure == GitArtifactFailure::StructureLimit
        } else {
            bears_out(cancelled, outcome)
        },
{
    if expected > MAXIMUM_INFLATED_GIT_BYTES {
        return Err(GitArtifactFailure::StructureLimit);
    }
    let start: usize = reader.position;
    let mut stream = new_stream();
    let mut content: Vec<u8> = Vec::new();
    let ghost bytes = reader.bytes@;
    let ghost end = reader.end as int;
    let ghost first = fresh_stream(start as int, budget.used());
    assert(content@ =~= Seq::empty());
    loop
        invariant
            reader.well_formed(),
            reader.same_source(old(reader)),
            reader.bytes@ == bytes,
            reader.end == end,
            start == old(reader).position,
            start <= reader.position,
            bytes == old(reader).bytes@,
            end == old(reader).end,
            expected <= MAXIMUM_INFLATED_GIT_BYTES,
            content@.len() <= expected,
            budget.used() >= old(budget).used(),
            first == fresh_stream(start as int, old(budget).used()),
            stream_totals(
                stream_calls(stream),
                reader.position - start,
                content@.len() as int,
            ),
            inflation(bytes, end, start as int, expected as int, first) == inflation(
                bytes,
                end,
                start as int,
                expected as int,
                StreamProgress {
                    calls: stream_calls(stream),
                    position: reader.position as int,
                    content: content@,
                    used: budget.used(),
                },
            ),
        decreases (reader.end - reader.position) + (expected - content@.len()),
    {
        let ghost progress = StreamProgress {
            calls: stream_calls(stream),
            position: reader.position as int,
            content: content@,
            used: budget.used(),
        };
        proof {
            lemma_inflation(bytes, end, start as int, expected as int, first);
            lemma_inflation(bytes, end, start as int, expected as int, progress);
        }
        check_cancelled(cancelled)?;
        let available: usize = reader.end - reader.position;
        if available == 0 {
            return Err(GitArtifactFailure::Pack);
        }
        let requested: usize = if available <= INFLATION_CHUNK_BYTES {
            available
        } else {
            INFLATION_CHUNK_BYTES
        };
        let input: &[u8] = &reader.bytes[reader.position..reader.position + requested];
        assert(input@ == next_input(bytes, end, progress.position));
        let chunk: Option<Inflation> = match inflate_chunk(
            &mut stream,
            input,
            INFLATION_CHUNK_BYTES,
        ) {
            Ok(inflation) => Some(inflation),
            Err(_) => None,
        };
        let taken: u64 = (reader.position - start) as u64;
        let (consumed, ended) = accept_chunk(chunk, taken, &mut content, expected, budget)?;
        reader.position = reader.position + consumed as usize;
        if ended {
            if content.len() as u64 != expected {
                return Err(GitArtifactFailure::Pack);
            }
            return Ok(content);
        }
    }
}

/// The big-endian number that four bytes make.
pub open spec fn big_endian(bytes: Seq<u8>, at: int) -> int {
    bytes[at] * 0x100_0000 + bytes[at + 1] * 0x1_0000 + bytes[at + 2] * 0x100 + bytes[at + 3]
}

/// The number of entries that the pack at `body_offset` announces. The pack
/// needs room for its header and its checksum.
pub open spec fn pack_entry_count(bytes: Seq<u8>, body_offset: int) -> Result<
    int,
    GitArtifactFailure,
> {
    if bytes.len() < body_offset + 12 + PACK_CHECKSUM_BYTES {
        Err(GitArtifactFailure::Pack)
    } else {
        let version = big_endian(bytes, body_offset + 4);
        let count = big_endian(bytes, body_offset + 8);
        if count > MAXIMUM_PACK_ENTRIES {
            Err(GitArtifactFailure::StructureLimit)
        } else if bytes.subrange(body_offset, body_offset + 4) != "PACK".spec_bytes() || !(version
            == 2 || version == 3) || count == 0 {
            Err(GitArtifactFailure::Pack)
        } else {
            Ok(count)
        }
    }
}

/// How far the entries of a pack have been read.
#[verifier::ext_equal]
pub struct PackProgress {
    pub entries: Seq<EntryModel>,
    pub offsets: Map<u64, usize>,
    pub position: int,
    pub used: int,
}

/// Reads what the entry of type `kind` at `entry_offset` names as its base, and
/// where the entry's stream starts.
pub open spec fn entry_base(
    bytes: Seq<u8>,
    end: int,
    entry_offset: int,
    kind: u8,
    position: int,
    offsets: Map<u64, usize>,
) -> Result<(Option<BaseModel>, int), GitArtifactFailure> {
    if kind == 6 {
        match offset_distance(bytes, end, position) {
            Err(failure) => Err(failure),
            Ok((distance, next)) => if distance <= entry_offset && offsets.contains_key(
                (entry_offset - distance) as u64,
            ) {
                Ok(
                    (
                        Some(
                            BaseModel::Entry(offsets[(entry_offset - distance) as u64] as int),
                        ),
                        next,
                    ),
                )
            } else {
                Err(GitArtifactFailure::Pack)
            },
        }
    } else if kind == 7 {
        if position + 20 > end {
            Err(GitArtifactFailure::Pack)
        } else {
            Ok((Some(BaseModel::Oid(bytes.subrange(position, position + 20))), position + 20))
        }
    } else {
        Ok((None, position))
    }
}

/// The entry that inflated `content` makes.
pub open spec fn entry_model(
    kind: u8,
    base: Option<BaseModel>,
    content: Seq<u8>,
    entries: Seq<EntryModel>,
) -> Result<EntryModel, GitArtifactFailure> {
    match (ObjectKind::of_pack_type(kind), base) {
        (Some(kind), None) => Ok(EntryModel::Object(object_model(kind, content, 0))),
        (None, Some(base)) => match delta_validity(content) {
            Err(failure) => Err(failure),
            Ok(_) => {
                let below = match base {
                    BaseModel::Entry(index) => entries[index].minimum_depth(),
                    BaseModel::Oid(_) => 0,
                };
                if below + 1 > MAXIMUM_DELTA_DEPTH {
                    Err(GitArtifactFailure::StructureLimit)
                } else {
                    Ok(
                        EntryModel::Delta(
                            DeltaModel { base, program: content, minimum_depth: below + 1 },
                        ),
                    )
                }
            },
        },
        _ => Err(GitArtifactFailure::Pack),
    }
}

/// Reads one more entry.
pub open spec fn next_entry(bytes: Seq<u8>, end: int, progress: PackProgress) -> Result<
    PackProgress,
    GitArtifactFailure,
> {
    match entry_header(bytes, end, progress.position) {
        Err(failure) => Err(failure),
        Ok((kind, size, after_header)) => match entry_base(
            bytes,
            end,
            progress.position,
            kind,
            after_header,
            progress.offsets,
        ) {
            Err(failure) => Err(failure),
            Ok((base, stream)) => match inflated_entry(bytes, end, stream, size, progress.used) {
                Err(failure) => Err(failure),
                Ok((content, next)) => match entry_model(kind, base, content, progress.entries) {
                    Err(failure) => Err(failure),
                    Ok(entry) => Ok(
                        PackProgress {
                            entries: progress.entries.push(entry),
                            offsets: progress.offsets.insert(
                                progress.position as u64,
                                progress.entries.len() as usize,
                            ),
                            position: next,
                            used: progress.used + content.len(),
                        },
                    ),
                },
            },
        },
    }
}

/// The charge of the budget after an attempt to read one more entry.
pub open spec fn next_entry_charge(bytes: Seq<u8>, end: int, progress: PackProgress) -> int {
    match entry_header(bytes, end, progress.position) {
        Err(_) => progress.used,
        Ok((kind, size, after_header)) => match entry_base(
            bytes,
            end,
            progress.position,
            kind,
            after_header,
            progress.offsets,
        ) {
            Err(_) => progress.used,
            Ok((_, stream)) => inflated_entry_charge(bytes, end, stream, size, progress.used),
        },
    }
}

/// Reads `remaining` more entries.
pub open spec fn next_entries(
    bytes: Seq<u8>,
    end: int,
    progress: PackProgress,
    remaining: nat,
) -> Result<PackProgress, GitArtifactFailure>
    decreases remaining,
{
    if remaining == 0 {
        Ok(progress)
    } else {
        match next_entry(bytes, end, progress) {
            Err(failure) => Err(failure),
            Ok(next) => next_entries(bytes, end, next, (remaining - 1) as nat),
        }
    }
}

/// The charge of the budget after an attempt to read `remaining` more entries.
pub open spec fn next_entries_charge(
    bytes: Seq<u8>,
    end: int,
    progress: PackProgress,
    remaining: nat,
) -> int
    decreases remaining,
{
    if remaining == 0 {
        progress.used
    } else {
        match next_entry(bytes, end, progress) {
            Err(_) => next_entry_charge(bytes, end, progress),
            Ok(next) => next_entries_charge(bytes, end, next, (remaining - 1) as nat),
        }
    }
}

/// Reading an entry takes no charge back and stays within the budget. Where it can be
/// read, the charge is its own.
pub(crate) proof fn lemma_next_entry_charge(bytes: Seq<u8>, end: int, progress: PackProgress)
    ensures
        progress.used <= next_entry_charge(bytes, end, progress),
        progress.used <= MAXIMUM_INFLATED_GIT_BYTES ==> next_entry_charge(bytes, end, progress)
            <= MAXIMUM_INFLATED_GIT_BYTES,
        next_entry(bytes, end, progress) matches Ok(next) ==> next.used == next_entry_charge(
            bytes,
            end,
            progress,
        ),
{
    if let Ok((kind, size, after_header)) = entry_header(bytes, end, progress.position) {
        if let Ok((_, stream)) = entry_base(
            bytes,
            end,
            progress.position,
            kind,
            after_header,
            progress.offsets,
        ) {
            law_inflation_charges_its_content(bytes, end, stream, size, progress.used);
        }
    }
}

/// Reading entries takes no charge back and stays within the budget. Where all of
/// them can be read, the charge is theirs.
pub(crate) proof fn lemma_entries_charge(
    bytes: Seq<u8>,
    end: int,
    progress: PackProgress,
    remaining: nat,
)
    ensures
        progress.used <= next_entries_charge(bytes, end, progress, remaining),
        progress.used <= MAXIMUM_INFLATED_GIT_BYTES ==> next_entries_charge(
            bytes,
            end,
            progress,
            remaining,
        ) <= MAXIMUM_INFLATED_GIT_BYTES,
        remaining > 0 ==> next_entry_charge(bytes, end, progress) <= next_entries_charge(
            bytes,
            end,
            progress,
            remaining,
        ),
        next_entries(bytes, end, progress, remaining) matches Ok(next) ==> next.used
            == next_entries_charge(bytes, end, progress, remaining),
    decreases remaining,
{
    if remaining > 0 {
        lemma_next_entry_charge(bytes, end, progress);
        if let Ok(next) = next_entry(bytes, end, progress) {
            lemma_entries_charge(bytes, end, next, (remaining - 1) as nat);
        }
    }
}

/// The charge of the budget after an attempt to read the pack at `body_offset`.
pub open spec fn pack_charge(bytes: Seq<u8>, body_offset: int, used: int) -> int {
    match pack_entry_count(bytes, body_offset) {
        Err(_) => used,
        Ok(count) => next_entries_charge(
            bytes,
            bytes.len() - PACK_CHECKSUM_BYTES,
            PackProgress {
                entries: Seq::empty(),
                offsets: Map::empty(),
                position: body_offset + 12,
                used,
            },
            count as nat,
        ),
    }
}

/// The entries of the pack at `body_offset`, and the charge of the budget after
/// reading them. The entries must fill the pack up to its checksum, which must
/// be the SHA-1 digest of all that precedes it.
pub open spec fn pack_entries(bytes: Seq<u8>, body_offset: int, used: int) -> Result<
    (Seq<EntryModel>, int),
    GitArtifactFailure,
> {
    match pack_entry_count(bytes, body_offset) {
        Err(failure) => Err(failure),
        Ok(count) => {
            let end = bytes.len() - PACK_CHECKSUM_BYTES;
            match next_entries(
                bytes,
                end,
                PackProgress {
                    entries: Seq::empty(),
                    offsets: Map::empty(),
                    position: body_offset + 12,
                    used,
                },
                count as nat,
            ) {
                Err(failure) => Err(failure),
                Ok(progress) => if progress.position != end {
                    Err(GitArtifactFailure::Pack)
                } else if sha1(bytes.subrange(body_offset, end)) != bytes.skip(end) {
                    Err(GitArtifactFailure::Checksum)
                } else {
                    Ok((progress.entries, progress.used))
                },
            }
        },
    }
}

/// Reads a big-endian number of four bytes.
fn read_big_endian(bytes: &[u8], at: usize) -> (number: u32)
    requires
        at + 4 <= bytes@.len(),
    ensures
        number == big_endian(bytes@, at as int),
{
    bytes[at] as u32 * 0x100_0000 + bytes[at + 1] as u32 * 0x1_0000 + bytes[at + 2] as u32 * 0x100
        + bytes[at + 3] as u32
}

/// Reads what a delta entry names as its base.
fn read_entry_base(
    reader: &mut ByteReader<'_>,
    entry_offset: usize,
    kind: u8,
    offsets: &BTreeMap<u64, usize>,
) -> (outcome: Result<Option<DeltaBase>, GitArtifactFailure>)
    requires
        old(reader).well_formed(),
    ensures
        final(reader).well_formed(),
        final(reader).same_source(old(reader)),
        match entry_base(
            old(reader).bytes@,
            old(reader).end as int,
            entry_offset as int,
            kind,
            old(reader).position as int,
            offsets@,
        ) {
            Ok((base, next)) => outcome matches Ok(read) && final(reader).position == next && base
                == (match read {
                Some(read) => Some(read@),
                None => None,
            }),
            Err(failure) => outcome matches Err(reported) && reported == failure,
        },
{
    broadcast use vstd::std_specs::btree::group_btree_axioms;

    proof {
        lemma_integer_keys();
    }
    if kind == 6 {
        let distance: u64 = read_offset_distance(reader)?;
        if distance > entry_offset as u64 {
            return Err(GitArtifactFailure::Pack);
        }
        match offsets.get(&(entry_offset as u64 - distance)) {
            Some(index) => Ok(Some(DeltaBase::Entry(*index))),
            None => Err(GitArtifactFailure::Pack),
        }
    } else if kind == 7 {
        let taken: &[u8] = reader.read_exact(20)?;
        let mut oid: [u8; 20] = [0u8; 20];
        let mut index: usize = 0;
        while index < 20
            invariant
                index <= 20,
                taken@.len() == 20,
                oid@.len() == 20,
                forall|i: int| 0 <= i < index ==> oid@[i] == taken@[i],
            decreases 20 - index,
        {
            oid[index] = taken[index];
            index = index + 1;
        }
        assert(oid@ =~= taken@);
        Ok(Some(DeltaBase::Oid(oid)))
    } else {
        Ok(None)
    }
}

/// Checks an inflated entry and records it.
fn record_entry(
    kind: u8,
    base: Option<DeltaBase>,
    content: Vec<u8>,
    entries: &Vec<PackEntry>,
    cancelled: Option<&AtomicBool>,
) -> (outcome: Result<PackEntry, GitArtifactFailure>)
    requires
        base matches Some(DeltaBase::Entry(index)) ==> index < entries@.len(),
    ensures
        ({
            let model = entry_model(
                kind,
                match base {
                    Some(base) => Some(base@),
                    None => None,
                },
                content@,
                entry_models(entries@),
            );
            match outcome {
                Ok(entry) => model == Ok::<EntryModel, GitArtifactFailure>(entry@),
                Err(failure) => model == Err::<EntryModel, GitArtifactFailure>(failure)
                    || interrupted(cancelled, failure),
            }
        }),
{
    match (ObjectKind::from_pack_type(kind), base) {
        (Some(kind), None) => {
            let size: u64 = content.len() as u64;
            let object: ObjectRecord = object_record(kind, content, size, 0, cancelled)?;
            Ok(PackEntry::Object(object))
        },
        (None, Some(base)) => {
            validate_delta_program(content.as_slice(), cancelled)?;
            let below: u8 = match base {
                DeltaBase::Entry(index) => entries[index].minimum_depth(),
                DeltaBase::Oid(_) => 0,
            };
            if below >= MAXIMUM_DELTA_DEPTH {
                return Err(GitArtifactFailure::StructureLimit);
            }
            Ok(
                PackEntry::Delta(
                    DeltaRecord { base, program: content, minimum_depth: below + 1 },
                ),
            )
        },
        _ => Err(GitArtifactFailure::Pack),
    }
}

/// Reads the pack at `body_offset`.
pub fn parse_pack(
    bytes: &[u8],
    body_offset: u64,
    budget: &mut GitArtifactValidationBudget,
    cancelled: Option<&AtomicBool>,
) -> (outcome: Result<Vec<PackEntry>, GitArtifactFailure>)
    ensures
        final(budget).used() >= old(budget).used(),
        match outcome {
            Ok(entries) => pack_entries(bytes@, body_offset as int, old(budget).used()) == Ok::<
                (Seq<EntryModel>, int),
                GitArtifactFailure,
            >((entry_models(entries@), final(budget).used())) && bases_precede(
                entry_models(entries@),
            ),
            Err(failure) => pack_entries(bytes@, body_offset as int, old(budget).used()) == Err::<
                (Seq<EntryModel>, int),
                GitArtifactFailure,
            >(failure) && final(budget).used() == pack_charge(
                bytes@,
                body_offset as int,
                old(budget).used(),
            ) || (interrupted(cancelled, failure) && final(budget).used() <= pack_charge(
                bytes@,
                body_offset as int,
                old(budget).used(),
            )),
        },
        match pack_entry_count(bytes@, body_offset as int) {
            Err(failure) => outcome matches Err(reported) && reported == failure,
            Ok(_) => bears_out(cancelled, outcome),
        },
{
    broadcast use vstd::std_specs::btree::group_btree_axioms;

    proof {
        lemma_integer_keys();
        lemma_pack_refusal(bytes@, body_offset as int, budget.used());
    }
    let length: usize = bytes.len();
    if body_offset > length as u64 {
        return Err(GitArtifactFailure::Pack);
    }
    let start: usize = body_offset as usize;
    if length - start < 32 {
        return Err(GitArtifactFailure::Pack);
    }
    let end: usize = length - 20;
    let version: u32 = read_big_endian(bytes, start + 4);
    let count: u32 = read_big_endian(bytes, start + 8);
    if count > MAXIMUM_PACK_ENTRIES as u32 {
        return Err(GitArtifactFailure::StructureLimit);
    }
    if !bytes_equal(&bytes[start..start + 4], "PACK".as_bytes()) || !(version == 2 || version == 3)
        || count == 0 {
        return Err(GitArtifactFailure::Pack);
    }
    let mut reader = ByteReader { bytes, position: start + 12, end };
    let mut entries: Vec<PackEntry> = Vec::new();
    let mut offsets: BTreeMap<u64, usize> = BTreeMap::new();
    let mut remaining: u32 = count;
    let ghost initial = PackProgress {
        entries: Seq::empty(),
        offsets: Map::empty(),
        position: start + 12,
        used: budget.used(),
    };
    assert(entry_models(entries@) =~= Seq::empty());
    while remaining > 0
        invariant
            reader.well_formed(),
            reader.bytes == bytes,
            reader.end == end,
            budget.used() >= old(budget).used(),
            entries@.len() + remaining == count,
            initial.used == old(budget).used(),
            pack_entry_count(bytes@, body_offset as int) == Ok::<int, GitArtifactFailure>(
                count as int,
            ),
            end == bytes@.len() - 20,
            body_offset == start,
            initial == (PackProgress {
                entries: Seq::empty(),
                offsets: Map::empty(),
                position: start + 12,
                used: old(budget).used(),
            }),
            next_entries(bytes@, end as int, initial, count as nat) == next_entries(
                bytes@,
                end as int,
                PackProgress {
                    entries: entry_models(entries@),
                    offsets: offsets@,
                    position: reader.position as int,
                    used: budget.used(),
                },
                remaining as nat,
            ),
            pack_charge(bytes@, body_offset as int, old(budget).used()) == next_entries_charge(
                bytes@,
                end as int,
                PackProgress {
                    entries: entry_models(entries@),
                    offsets: offsets@,
                    position: reader.position as int,
                    used: budget.used(),
                },
                remaining as nat,
            ),
            bases_precede(entry_models(entries@)),
            forall|offset: u64| #[trigger]
                offsets@.contains_key(offset) ==> offsets@[offset] < entries@.len(),
            !is_interruption(pack_entries(bytes@, body_offset as int, old(budget).used())),
            remaining < count ==> (cancelled matches Some(flag) ==> polled(flag, false)),
        decreases remaining,
    {
        proof {
            lemma_entries_charge(
                bytes@,
                end as int,
                PackProgress {
                    entries: entry_models(entries@),
                    offsets: offsets@,
                    position: reader.position as int,
                    used: budget.used(),
                },
                remaining as nat,
            );
        }
        check_cancelled(cancelled)?;
        let entry_offset: usize = reader.position;
        let (kind, declared_size) = read_entry_header(&mut reader)?;
        let base: Option<DeltaBase> = read_entry_base(&mut reader, entry_offset, kind, &offsets)?;
        let content: Vec<u8> = inflate_entry(&mut reader, declared_size, budget, cancelled)?;
        let entry: PackEntry = record_entry(kind, base, content, &entries, cancelled)?;
        let ghost known = entries@;
        offsets.insert(entry_offset as u64, entries.len());
        entries.push(entry);
        assert(entry_models(entries@) =~= entry_models(known).push(entry@));
        remaining = remaining - 1;
    }
    if reader.position != end {
        return Err(GitArtifactFailure::Pack);
    }
    let digest: [u8; 20] = sha1_digest(&bytes[start..end]);
    let checksum: &[u8] = &bytes[end..length];
    assert(checksum@ =~= bytes@.skip(end as int));
    if !bytes_equal(digest.as_slice(), checksum) {
        return Err(GitArtifactFailure::Checksum);
    }
    Ok(entries)
}

} // verus!
