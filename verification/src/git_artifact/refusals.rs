//! An interruption says nothing of a bundle: no bundle, however malformed, is refused
//! as interrupted.

use std::sync::atomic::AtomicBool;

use vstd::prelude::*;

use crate::git_artifact::delta::{delta_application, delta_header, delta_validity};
use crate::git_artifact::header::{
    bundle_body_offset, header_item, header_line_end, header_listing, lemma_header_line_end,
    HeaderListing,
};
use crate::git_artifact::pack::{
    chunk_verdict, distance_left, entry_base, entry_model, fresh_stream, inflated, inflated_entry,
    inflation, next_entries, next_entry, next_input, pack_entries, pack_entry_count, BaseModel,
    EntryModel, PackProgress, StreamProgress, INFLATION_CHUNK_BYTES,
};
use crate::git_artifact::resolve::{
    base_object, bundle_verdict, delta_count, resolve_all, resolve_entry, resolve_pass,
    resolved_verdict, unresolved, Resolution,
};
use crate::git_artifact::varint::{entry_header, offset_distance, offset_distance_tail, varint};
use crate::git_artifact::{
    bears_out, check_cancelled, interrupted, is_interruption, GitArtifactFailure,
    PACK_CHECKSUM_BYTES,
};

verus! {

proof fn lemma_varint_refusal(bytes: Seq<u8>, end: int, position: int, value: int, shift: int)
    ensures
        !is_interruption(varint(bytes, end, position, value, shift)),
    decreases end - position,
{
    if shift < 64 && position < end {
        let byte = bytes[position];
        let next = value + (byte % 128) * vstd::arithmetic::power2::pow2(shift as nat);
        lemma_varint_refusal(bytes, end, position + 1, next, shift + 7);
    }
}

proof fn lemma_distance_tail_refusal(bytes: Seq<u8>, end: int, position: int, value: int)
    ensures
        !is_interruption(offset_distance_tail(bytes, end, position, value)),
    decreases end - position,
{
    if position < end {
        let next = ((value + 1) * 128) % 0x1_0000_0000_0000_0000 + bytes[position] % 128;
        lemma_distance_tail_refusal(bytes, end, position + 1, next);
    }
}

/// A delta program is never refused as interrupted.
proof fn lemma_delta_refusal(base: Seq<u8>, program: Seq<u8>, used: int)
    ensures
        !is_interruption(delta_header(program)),
        !is_interruption(delta_validity(program)),
        !is_interruption(delta_application(base, program, used)),
{
    lemma_varint_refusal(program, program.len() as int, 0, 0, 0);
    if let Ok((_, position)) = varint(program, program.len() as int, 0, 0, 0) {
        lemma_varint_refusal(program, program.len() as int, position, 0, 0);
    }
}

proof fn lemma_stream_refusal(
    bytes: Seq<u8>,
    end: int,
    start: int,
    expected: int,
    progress: StreamProgress,
)
    ensures
        !is_interruption(inflation(bytes, end, start, expected, progress).0),
    decreases
            distance_left(end - progress.position) + distance_left(
                expected - progress.content.len(),
            ),
{
    if progress.position < end {
        let calls = progress.calls.push(
            (next_input(bytes, end, progress.position), INFLATION_CHUNK_BYTES as int),
        );
        if let (Ok((content, consumed, ended)), used) = chunk_verdict(
            inflated(calls),
            progress.position - start,
            progress.content,
            expected,
            progress.used,
        ) {
            if !ended {
                let next = StreamProgress {
                    calls,
                    position: progress.position + consumed,
                    content,
                    used,
                };
                lemma_stream_refusal(bytes, end, start, expected, next);
            }
        }
    }
}

/// The stream of an entry is never refused as interrupted.
proof fn lemma_inflated_entry_refusal(
    bytes: Seq<u8>,
    end: int,
    position: int,
    expected: int,
    used: int,
)
    ensures
        !is_interruption(inflated_entry(bytes, end, position, expected, used)),
{
    lemma_stream_refusal(bytes, end, position, expected, fresh_stream(position, used));
}

/// An inflated entry is never refused as interrupted.
proof fn lemma_entry_model_refusal(
    kind: u8,
    base: Option<BaseModel>,
    content: Seq<u8>,
    entries: Seq<EntryModel>,
)
    ensures
        !is_interruption(entry_model(kind, base, content, entries)),
{
    lemma_delta_refusal(Seq::empty(), content, 0);
}

proof fn lemma_next_entry_refusal(bytes: Seq<u8>, end: int, progress: PackProgress)
    ensures
        !is_interruption(next_entry(bytes, end, progress)),
{
    let position = progress.position;
    if position < end {
        lemma_varint_refusal(bytes, end, position + 1, (bytes[position] % 16) as int, 4);
    }
    if let Ok((kind, size, after_header)) = entry_header(bytes, end, position) {
        if after_header < end {
            lemma_distance_tail_refusal(
                bytes,
                end,
                after_header + 1,
                (bytes[after_header] % 128) as int,
            );
        }
        assert(!is_interruption(offset_distance(bytes, end, after_header)));
        if let Ok((base, stream)) = entry_base(
            bytes,
            end,
            position,
            kind,
            after_header,
            progress.offsets,
        ) {
            lemma_inflated_entry_refusal(bytes, end, stream, size, progress.used);
            if let Ok((content, _)) = inflated_entry(bytes, end, stream, size, progress.used) {
                lemma_entry_model_refusal(kind, base, content, progress.entries);
            }
        }
    }
}

proof fn lemma_next_entries_refusal(
    bytes: Seq<u8>,
    end: int,
    progress: PackProgress,
    remaining: nat,
)
    ensures
        !is_interruption(next_entries(bytes, end, progress, remaining)),
    decreases remaining,
{
    if remaining > 0 {
        lemma_next_entry_refusal(bytes, end, progress);
        if let Ok(next) = next_entry(bytes, end, progress) {
            lemma_next_entries_refusal(bytes, end, next, (remaining - 1) as nat);
        }
    }
}

/// A pack is never refused as interrupted.
pub(crate) proof fn lemma_pack_refusal(bytes: Seq<u8>, body_offset: int, used: int)
    ensures
        !is_interruption(pack_entries(bytes, body_offset, used)),
{
    if let Ok(count) = pack_entry_count(bytes, body_offset) {
        lemma_next_entries_refusal(
            bytes,
            bytes.len() - PACK_CHECKSUM_BYTES,
            PackProgress {
                entries: Seq::empty(),
                offsets: Map::empty(),
                position: body_offset + 12,
                used,
            },
            count as nat,
        );
    }
}

proof fn lemma_header_listing_refusal(bytes: Seq<u8>, total: int, listing: HeaderListing)
    ensures
        !is_interruption(header_listing(bytes, total, listing)),
    decreases bytes.len() - total,
{
    if let Ok(end) = header_line_end(bytes, total) {
        lemma_header_line_end(bytes, total);
        if end != total + 1 {
            if let Some(item) = header_item(bytes.subrange(total, end - 1)) {
                lemma_header_listing_refusal(bytes, end, listing.with(item));
            }
        }
    }
}

/// An entry that a delta is applied for is never refused as interrupted.
proof fn lemma_resolve_entry_refusal(resolution: Resolution, index: int)
    ensures
        !is_interruption(resolve_entry(resolution, index)),
{
    if let Some(base) = base_object(resolution, index) {
        lemma_delta_refusal(
            base.content,
            resolution.entries[index]->Delta_0.program,
            resolution.used,
        );
    }
}

proof fn lemma_resolve_pass_refusal(resolution: Resolution, index: int)
    ensures
        !is_interruption(resolve_pass(resolution, index)),
    decreases resolution.entries.len() - index,
{
    if 0 <= index < resolution.entries.len() {
        lemma_resolve_entry_refusal(resolution, index);
        if let Ok(next) = resolve_entry(resolution, index) {
            lemma_resolve_pass_refusal(next, index + 1);
        }
    }
}

/// Resolving is never refused as interrupted.
pub(crate) proof fn lemma_resolve_all_refusal(resolution: Resolution)
    ensures
        !is_interruption(resolve_all(resolution)),
    decreases delta_count(resolution.entries),
{
    lemma_resolve_pass_refusal(resolution, 0);
    if let Ok(next) = resolve_pass(resolution, 0) {
        if delta_count(next.entries) < delta_count(resolution.entries) {
            lemma_resolve_all_refusal(next);
        }
    }
}

/// The resolved entries of a pack are never refused as interrupted.
proof fn lemma_resolved_refusal(
    entries: Seq<EntryModel>,
    head_oid: Seq<u8>,
    tree_oid: Seq<u8>,
    used: int,
)
    ensures
        !is_interruption(resolved_verdict(entries, head_oid, tree_oid, used)),
{
    lemma_resolve_all_refusal(unresolved(entries, used));
}

/// No bundle is refused as interrupted for what it holds: only a set flag interrupts.
pub proof fn law_no_bundle_is_refused_as_interrupted(
    bytes: Seq<u8>,
    base_oid: Seq<u8>,
    head_oid: Seq<u8>,
    tree_oid: Seq<u8>,
    used: int,
)
    ensures
        !is_interruption(bundle_verdict(bytes, base_oid, head_oid, tree_oid, used)),
{
    if let Ok(end) = header_line_end(bytes, 0) {
        lemma_header_listing_refusal(bytes, end, HeaderListing::empty());
    }
    if let Ok(body_offset) = bundle_body_offset(bytes, base_oid, head_oid) {
        lemma_pack_refusal(bytes, body_offset, used);
        if let Ok((entries, charged)) = pack_entries(bytes, body_offset, used) {
            lemma_resolved_refusal(entries, head_oid, tree_oid, charged);
        }
    }
}

/// Only a load that saw the flag set interrupts, and it always does: without a flag nothing is
/// interrupted, a set flag is told as an interruption, and an unset one lets validation go on.
pub proof fn law_only_set_flags_interrupt(
    cancelled: Option<&AtomicBool>,
    failure: GitArtifactFailure,
    outcome: Result<(), GitArtifactFailure>,
)
    requires
        call_ensures(check_cancelled, (cancelled,), outcome),
    ensures
        interrupted(cancelled, failure) <==> failure == GitArtifactFailure::Interrupted && (
        cancelled matches Some(flag) && call_ensures(
            AtomicBool::load,
            (flag, std::sync::atomic::Ordering::Acquire),
            true,
        )),
        cancelled is None ==> outcome is Ok,
        cancelled matches Some(flag) ==> call_ensures(
            AtomicBool::load,
            (flag, std::sync::atomic::Ordering::Acquire),
            outcome is Err,
        ),
        outcome is Err ==> outcome == Err::<(), GitArtifactFailure>(
            GitArtifactFailure::Interrupted,
        ),
        bears_out(cancelled, outcome),
        bears_out(None, Err::<(), GitArtifactFailure>(failure)) <==> failure
            != GitArtifactFailure::Interrupted,
        cancelled matches Some(flag) ==> (bears_out(
            cancelled,
            Err::<(), GitArtifactFailure>(GitArtifactFailure::Interrupted),
        ) <==> call_ensures(
            AtomicBool::load,
            (flag, std::sync::atomic::Ordering::Acquire),
            true,
        )),
{
}

} // verus!
