//! What holds of every accepted bundle.

use vstd::prelude::*;

use crate::git_artifact::delta::lemma_delta_charge;
use crate::git_artifact::header::{
    bundle_body_offset, first_newline, header_item, header_line_end, header_listing,
    lemma_header_line_end, HeaderListing,
};
use crate::git_artifact::object::{hex_oid, names_tree, object_oid};
use crate::git_artifact::pack::{
    bases_precede, lemma_next_entry_charge, next_entries, next_entry, pack_entries,
    pack_entry_count, BaseModel, EntryModel, PackProgress,
};
use crate::git_artifact::resolve::{
    base_object, bundle_charge, bundle_verdict, delta_count, index_sound, lemma_all_charge,
    lemma_bundle_charge, lemma_delta_count_zero, lemma_object_entries_sound, lemma_resolve_entry,
    object_entries, resolve_all, resolve_entry, resolve_pass, Resolution,
};
use crate::git_artifact::{
    MAXIMUM_BUNDLE_HEADER_BYTES, MAXIMUM_DELTA_DEPTH, MAXIMUM_INFLATED_GIT_BYTES,
    PACK_CHECKSUM_BYTES,
};

verus! {

/// Whether every object among `entries` carries its own identifier and stands on
/// no more deltas than are allowed.
pub open spec fn sound_entries(entries: Seq<EntryModel>) -> bool {
    forall|i: int|
        0 <= i < entries.len() ==> (#[trigger] entries[i] matches EntryModel::Object(object)
            ==> object.oid == object_oid(object.kind, object.content) && 0 <= object.depth
            <= MAXIMUM_DELTA_DEPTH)
}

proof fn lemma_newline_of_start(bytes: Seq<u8>, count: int, from: int, until: int)
    requires
        0 <= from,
        until <= count <= bytes.len(),
    ensures
        first_newline(bytes.take(count), from, until) == first_newline(bytes, from, until),
    decreases until - from,
{
    if from < until {
        assert(bytes.take(count)[from] == bytes[from]);
        lemma_newline_of_start(bytes, count, from + 1, until);
    }
}

proof fn lemma_listing_of_start(bytes: Seq<u8>, total: int, listing: HeaderListing)
    requires
        0 <= total,
        bytes.len() >= MAXIMUM_BUNDLE_HEADER_BYTES,
    ensures
        header_line_end(bytes.take(MAXIMUM_BUNDLE_HEADER_BYTES as int), total) == header_line_end(
            bytes,
            total,
        ),
        header_listing(bytes.take(MAXIMUM_BUNDLE_HEADER_BYTES as int), total, listing)
            == header_listing(bytes, total, listing),
    decreases bytes.len() - total,
{
    let limit = MAXIMUM_BUNDLE_HEADER_BYTES as int;
    let start = bytes.take(limit);
    lemma_newline_of_start(bytes, limit, total, limit);
    if let Ok(end) = header_line_end(bytes, total) {
        lemma_header_line_end(bytes, total);
        assert(start.subrange(total, end - 1) =~= bytes.subrange(total, end - 1));
        if end != total + 1 {
            if let Some(item) = header_item(bytes.subrange(total, end - 1)) {
                lemma_listing_of_start(bytes, end, listing.with(item));
            }
        }
    }
}

/// The header of a bundle is judged by no more of the bundle than the header limit.
pub proof fn law_header_is_judged_by_its_start(
    bytes: Seq<u8>,
    base_oid: Seq<u8>,
    head_oid: Seq<u8>,
)
    requires
        bytes.len() >= MAXIMUM_BUNDLE_HEADER_BYTES,
    ensures
        bundle_body_offset(bytes.take(MAXIMUM_BUNDLE_HEADER_BYTES as int), base_oid, head_oid)
            == bundle_body_offset(bytes, base_oid, head_oid),
{
    lemma_listing_of_start(bytes, 0, HeaderListing::empty());
    if let Ok(end) = header_line_end(bytes, 0) {
        lemma_header_line_end(bytes, 0);
        lemma_listing_of_start(bytes, end, HeaderListing::empty());
        assert(bytes.take(MAXIMUM_BUNDLE_HEADER_BYTES as int).take(end) =~= bytes.take(end));
    }
}

proof fn lemma_next_entry(bytes: Seq<u8>, end: int, progress: PackProgress)
    requires
        sound_entries(progress.entries),
        bases_precede(progress.entries),
        progress.entries.len() <= usize::MAX,
        forall|offset: u64| #[trigger]
            progress.offsets.contains_key(offset) ==> progress.offsets[offset]
                < progress.entries.len(),
    ensures
        next_entry(bytes, end, progress) matches Ok(next) ==> {
            &&& sound_entries(next.entries)
            &&& bases_precede(next.entries)
            &&& next.entries.len() == progress.entries.len() + 1
            &&& progress.used <= next.used <= MAXIMUM_INFLATED_GIT_BYTES
            &&& forall|offset: u64| #[trigger]
                next.offsets.contains_key(offset) ==> next.offsets[offset] < next.entries.len()
        },
{
    lemma_next_entry_charge(bytes, end, progress);
    if let Ok(next) = next_entry(bytes, end, progress) {
        let entry = next.entries.last();
        assert(next.entries == progress.entries.push(entry));
        assert forall|i: int| 0 <= i < next.entries.len() implies (
        #[trigger] next.entries[i] matches EntryModel::Object(object) ==> object.oid == object_oid(
            object.kind,
            object.content,
        ) && 0 <= object.depth <= MAXIMUM_DELTA_DEPTH) by {
            if i < progress.entries.len() {
                assert(next.entries[i] == progress.entries[i]);
            }
        }
        assert forall|i: int| 0 <= i < next.entries.len() implies (
        #[trigger] next.entries[i] matches EntryModel::Delta(delta) ==> (
        delta.base matches BaseModel::Entry(base) ==> 0 <= base < i)) by {
            if i < progress.entries.len() {
                assert(next.entries[i] == progress.entries[i]);
            }
        }
    }
}

proof fn lemma_next_entries(bytes: Seq<u8>, end: int, progress: PackProgress, remaining: nat)
    requires
        sound_entries(progress.entries),
        bases_precede(progress.entries),
        progress.entries.len() + remaining <= usize::MAX,
        progress.used <= MAXIMUM_INFLATED_GIT_BYTES,
        forall|offset: u64| #[trigger]
            progress.offsets.contains_key(offset) ==> progress.offsets[offset]
                < progress.entries.len(),
    ensures
        next_entries(bytes, end, progress, remaining) matches Ok(next) ==> {
            &&& sound_entries(next.entries)
            &&& bases_precede(next.entries)
            &&& next.entries.len() == progress.entries.len() + remaining
            &&& progress.used <= next.used <= MAXIMUM_INFLATED_GIT_BYTES
        },
    decreases remaining,
{
    if remaining > 0 {
        lemma_next_entry(bytes, end, progress);
        if let Ok(next) = next_entry(bytes, end, progress) {
            lemma_next_entries(bytes, end, next, (remaining - 1) as nat);
        }
    }
}

/// The entries of a pack that was read number as many as its header announces,
/// each object among them carries its own identifier, and the budget was
/// charged without exceeding its limit.
pub proof fn law_read_pack_is_sound(bytes: Seq<u8>, body_offset: int, used: int)
    requires
        0 <= used <= MAXIMUM_INFLATED_GIT_BYTES,
    ensures
        pack_entries(bytes, body_offset, used) matches Ok((entries, charged)) ==> {
            &&& pack_entry_count(bytes, body_offset) matches Ok(count) && entries.len() == count
            &&& sound_entries(entries)
            &&& bases_precede(entries)
            &&& used <= charged <= MAXIMUM_INFLATED_GIT_BYTES
        },
{
    if let Ok(count) = pack_entry_count(bytes, body_offset) {
        let initial = PackProgress {
            entries: Seq::empty(),
            offsets: Map::empty(),
            position: body_offset + 12,
            used,
        };
        if count >= 0 {
            lemma_next_entries(bytes, bytes.len() - PACK_CHECKSUM_BYTES, initial, count as nat);
        }
    }
}

/// What every step of resolving keeps.
spec fn sound_resolution(resolution: Resolution) -> bool {
    &&& sound_entries(resolution.entries)
    &&& bases_precede(resolution.entries)
    &&& index_sound(resolution)
    &&& resolution.used <= MAXIMUM_INFLATED_GIT_BYTES
}

proof fn lemma_resolve_pass(resolution: Resolution, index: int)
    requires
        sound_resolution(resolution),
        0 <= index,
    ensures
        resolve_pass(resolution, index) matches Ok(next) ==> sound_resolution(next)
            && resolution.used <= next.used && next.entries.len() == resolution.entries.len(),
    decreases resolution.entries.len() - index,
{
    if index < resolution.entries.len() {
        lemma_resolve_entry(resolution, index);
        if let Ok(next) = resolve_entry(resolution, index) {
            if let Some(base) = base_object(resolution, index) {
                lemma_delta_charge(
                    base.content,
                    resolution.entries[index]->Delta_0.program,
                    resolution.used,
                );
                assert forall|i: int| 0 <= i < next.entries.len() implies (
                #[trigger] next.entries[i] matches EntryModel::Object(object) ==> object.oid
                    == object_oid(object.kind, object.content) && 0 <= object.depth
                    <= MAXIMUM_DELTA_DEPTH) by {
                    if i != index {
                        assert(next.entries[i] == resolution.entries[i]);
                    }
                }
            }
            lemma_resolve_pass(next, index + 1);
        }
    }
}

proof fn lemma_resolve_all(resolution: Resolution)
    requires
        sound_resolution(resolution),
    ensures
        resolve_all(resolution) matches Ok(next) ==> sound_resolution(next) && resolution.used
            <= next.used && next.entries.len() == resolution.entries.len(),
    decreases delta_count(resolution.entries),
{
    lemma_resolve_pass(resolution, 0);
    if let Ok(next) = resolve_pass(resolution, 0) {
        if delta_count(next.entries) < delta_count(resolution.entries) {
            lemma_resolve_all(next);
        }
    }
}

/// The objects of a bundle, every delta resolved.
pub open spec fn bundle_objects(bytes: Seq<u8>, body_offset: int, used: int) -> Resolution {
    let (entries, charged) = pack_entries(bytes, body_offset, used)->Ok_0;
    resolve_all(
        Resolution {
            entries,
            objects: object_entries(entries, entries.len()),
            used: charged,
        },
    )->Ok_0
}

/// An accepted bundle is complete: every entry of its pack became an object that
/// carries its own identifier, on at most the allowed number of deltas. Among
/// them is the head, a commit that names the expected tree.
pub proof fn law_accepted_bundle_is_complete(
    bytes: Seq<u8>,
    base_oid: Seq<u8>,
    head_oid: Seq<u8>,
    tree_oid: Seq<u8>,
    used: int,
)
    requires
        0 <= used <= MAXIMUM_INFLATED_GIT_BYTES,
        bundle_verdict(bytes, base_oid, head_oid, tree_oid, used) is Ok,
    ensures
        bundle_body_offset(bytes, base_oid, head_oid) matches Ok(body_offset) && ({
            let objects = bundle_objects(bytes, body_offset, used).entries;
            &&& sound_entries(objects)
            &&& forall|i: int| 0 <= i < objects.len() ==> #[trigger] objects[i] is Object
            &&& exists|i: int|
                0 <= i < objects.len() && (#[trigger] objects[i] matches EntryModel::Object(head)
                    && hex_oid(head_oid) == Some(head.oid) && names_tree(head, tree_oid))
        }),
{
    let body_offset = bundle_body_offset(bytes, base_oid, head_oid)->Ok_0;
    law_read_pack_is_sound(bytes, body_offset, used);
    let (entries, charged) = pack_entries(bytes, body_offset, used)->Ok_0;
    let start = Resolution {
        entries,
        objects: object_entries(entries, entries.len()),
        used: charged,
    };
    lemma_object_entries_sound(entries, entries.len());
    lemma_resolve_all(start);
    let resolution = resolve_all(start)->Ok_0;
    lemma_delta_count_zero(resolution.entries);
    let head = hex_oid(head_oid)->Some_0;
    assert(resolution.objects.contains_key(head));
    let index = resolution.objects[head];
    assert(resolution.entries[index] is Object);
}

/// Judging a bundle never takes charges back and never exceeds the budget, whether
/// the bundle is accepted or not; and what an accepted one is charged is what judging
/// it comes to.
pub proof fn law_validation_stays_within_budget(
    bytes: Seq<u8>,
    base_oid: Seq<u8>,
    head_oid: Seq<u8>,
    tree_oid: Seq<u8>,
    used: int,
)
    requires
        0 <= used <= MAXIMUM_INFLATED_GIT_BYTES,
    ensures
        used <= bundle_charge(bytes, base_oid, head_oid, used) <= MAXIMUM_INFLATED_GIT_BYTES,
        bundle_verdict(bytes, base_oid, head_oid, tree_oid, used) matches Ok(charged) ==> charged
            == bundle_charge(bytes, base_oid, head_oid, used),
{
    lemma_bundle_charge(bytes, base_oid, head_oid, used);
    if let Ok(body_offset) = bundle_body_offset(bytes, base_oid, head_oid) {
        if let Ok((entries, charged)) = pack_entries(bytes, body_offset, used) {
            lemma_all_charge(
                Resolution {
                    entries,
                    objects: object_entries(entries, entries.len()),
                    used: charged,
                },
            );
        }
    }
}

} // verus!
