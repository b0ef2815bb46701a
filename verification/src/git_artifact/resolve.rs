//! Rebuilding the objects that a pack stores as deltas.

use std::sync::atomic::AtomicBool;

use vstd::prelude::*;
use vstd::string::StringSliceAdditionalSpecFns;

use crate::git_artifact::delta::{
    apply_delta, delta_application, delta_charge, lemma_delta_charge,
};
use crate::git_artifact::header::{bundle_body_offset, validate_bundle_header};
use crate::git_artifact::object::{
    hex_oid, names_tree, object_model, object_record, parse_hex_oid, validate_head_object,
    ObjectIndex, ObjectModel, ObjectRecord,
};
use crate::git_artifact::pack::{
    bases_precede, entry_models, lemma_entries_charge, pack_charge, pack_entries, pack_entry_count,
    parse_pack, BaseModel, DeltaBase, EntryModel, PackEntry, PackProgress,
};
use crate::git_artifact::refusals::{
    law_no_bundle_is_refused_as_interrupted, lemma_resolve_all_refusal,
};
use crate::git_artifact::{
    bears_out, check_cancelled, interrupted, is_interruption, polled, GitArtifactDescriptor,
    GitArtifactFailure, GitArtifactValidationBudget, MAXIMUM_DELTA_DEPTH,
    MAXIMUM_INFLATED_GIT_BYTES, PACK_CHECKSUM_BYTES,
};

verus! {

/// The objects among the first `count` entries, by identifier. Of two entries
/// with the same identifier the later one counts.
pub open spec fn object_entries(entries: Seq<EntryModel>, count: nat) -> Map<Seq<u8>, int>
    decreases count,
{
    if count == 0 {
        Map::empty()
    } else {
        let earlier = object_entries(entries, (count - 1) as nat);
        match entries[count - 1] {
            EntryModel::Object(object) => earlier.insert(object.oid, count - 1),
            EntryModel::Delta(_) => earlier,
        }
    }
}

/// How many entries are still deltas.
pub open spec fn delta_count(entries: Seq<EntryModel>) -> nat
    decreases entries.len(),
{
    if entries.len() == 0 {
        0
    } else {
        delta_count(entries.drop_last()) + (if entries.last() is Delta {
            1nat
        } else {
            0nat
        })
    }
}

/// How far the deltas of a pack have been resolved.
#[verifier::ext_equal]
pub struct Resolution {
    pub entries: Seq<EntryModel>,
    pub objects: Map<Seq<u8>, int>,
    pub used: int,
}

/// The entry that the delta at `index` names as its base, if there is one.
pub open spec fn base_entry(resolution: Resolution, index: int) -> Option<int> {
    match resolution.entries[index] {
        EntryModel::Object(_) => None,
        EntryModel::Delta(delta) => match delta.base {
            BaseModel::Entry(base) => Some(base),
            BaseModel::Oid(oid) => if resolution.objects.contains_key(oid) {
                Some(resolution.objects[oid])
            } else {
                None
            },
        },
    }
}

/// The object that the delta at `index` can be applied to, if it is there.
pub open spec fn base_object(resolution: Resolution, index: int) -> Option<ObjectModel> {
    match base_entry(resolution, index) {
        None => None,
        Some(base) => match resolution.entries[base] {
            EntryModel::Object(object) => Some(object),
            EntryModel::Delta(_) => None,
        },
    }
}

/// Turns the entry at `index` into an object, if it is a delta whose base is
/// there. The object has the kind of its base and stands one delta deeper.
pub open spec fn resolve_entry(resolution: Resolution, index: int) -> Result<
    Resolution,
    GitArtifactFailure,
> {
    match base_object(resolution, index) {
        None => Ok(resolution),
        Some(base) => if base.depth + 1 > MAXIMUM_DELTA_DEPTH {
            Err(GitArtifactFailure::StructureLimit)
        } else {
            match delta_application(
                base.content,
                resolution.entries[index]->Delta_0.program,
                resolution.used,
            ) {
                Err(failure) => Err(failure),
                Ok((content, used)) => {
                    let object = object_model(base.kind, content, base.depth + 1);
                    Ok(
                        Resolution {
                            entries: resolution.entries.update(index, EntryModel::Object(object)),
                            objects: resolution.objects.insert(object.oid, index),
                            used,
                        },
                    )
                },
            }
        },
    }
}

/// Goes once over the entries from `index` on.
pub open spec fn resolve_pass(resolution: Resolution, index: int) -> Result<
    Resolution,
    GitArtifactFailure,
>
    decreases resolution.entries.len() - index,
{
    if index < 0 || index >= resolution.entries.len() {
        Ok(resolution)
    } else {
        match resolve_entry(resolution, index) {
            Err(failure) => Err(failure),
            Ok(next) => resolve_pass(next, index + 1),
        }
    }
}

/// Goes over the entries until a pass resolves no further delta.
pub open spec fn resolve_all(resolution: Resolution) -> Result<Resolution, GitArtifactFailure>
    decreases delta_count(resolution.entries),
{
    match resolve_pass(resolution, 0) {
        Err(failure) => Err(failure),
        Ok(next) => if delta_count(next.entries) < delta_count(resolution.entries) {
            resolve_all(next)
        } else {
            Ok(next)
        },
    }
}

/// The charge of the budget after an attempt to turn the entry at `index` into an
/// object.
pub open spec fn resolve_entry_charge(resolution: Resolution, index: int) -> int {
    match base_object(resolution, index) {
        None => resolution.used,
        Some(base) => if base.depth + 1 > MAXIMUM_DELTA_DEPTH {
            resolution.used
        } else {
            delta_charge(
                base.content,
                resolution.entries[index]->Delta_0.program,
                resolution.used,
            )
        },
    }
}

/// The charge of the budget after an attempt to go over the entries from `index` on.
pub open spec fn resolve_pass_charge(resolution: Resolution, index: int) -> int
    decreases resolution.entries.len() - index,
{
    if index < 0 || index >= resolution.entries.len() {
        resolution.used
    } else {
        match resolve_entry(resolution, index) {
            Err(_) => resolve_entry_charge(resolution, index),
            Ok(next) => resolve_pass_charge(next, index + 1),
        }
    }
}

/// The charge of the budget after an attempt to resolve every delta.
pub open spec fn resolve_all_charge(resolution: Resolution) -> int
    decreases delta_count(resolution.entries),
{
    match resolve_pass(resolution, 0) {
        Err(_) => resolve_pass_charge(resolution, 0),
        Ok(next) => if delta_count(next.entries) < delta_count(resolution.entries) {
            resolve_all_charge(next)
        } else {
            next.used
        },
    }
}

/// Resolving an entry takes no charge back.
proof fn lemma_entry_charge(resolution: Resolution, index: int)
    ensures
        resolution.used <= resolve_entry_charge(resolution, index),
        resolution.used <= MAXIMUM_INFLATED_GIT_BYTES ==> resolve_entry_charge(resolution, index)
            <= MAXIMUM_INFLATED_GIT_BYTES,
        resolve_entry(resolution, index) matches Ok(next) ==> next.used == resolve_entry_charge(
            resolution,
            index,
        ),
{
    if let Some(base) = base_object(resolution, index) {
        lemma_delta_charge(
            base.content,
            resolution.entries[index]->Delta_0.program,
            resolution.used,
        );
    }
}

/// Going over entries takes no charge back.
proof fn lemma_pass_charge(resolution: Resolution, index: int)
    ensures
        resolution.used <= resolve_pass_charge(resolution, index),
        resolution.used <= MAXIMUM_INFLATED_GIT_BYTES ==> resolve_pass_charge(resolution, index)
            <= MAXIMUM_INFLATED_GIT_BYTES,
        0 <= index < resolution.entries.len() ==> resolve_entry_charge(resolution, index)
            <= resolve_pass_charge(resolution, index),
        resolve_pass(resolution, index) matches Ok(next) ==> next.used == resolve_pass_charge(
            resolution,
            index,
        ),
    decreases resolution.entries.len() - index,
{
    if 0 <= index < resolution.entries.len() {
        lemma_entry_charge(resolution, index);
        if let Ok(next) = resolve_entry(resolution, index) {
            lemma_pass_charge(next, index + 1);
        }
    }
}

/// Resolving takes no charge back.
pub(crate) proof fn lemma_all_charge(resolution: Resolution)
    ensures
        resolution.used <= resolve_all_charge(resolution),
        resolution.used <= MAXIMUM_INFLATED_GIT_BYTES ==> resolve_all_charge(resolution)
            <= MAXIMUM_INFLATED_GIT_BYTES,
        resolve_pass_charge(resolution, 0) <= resolve_all_charge(resolution),
        resolve_all(resolution) matches Ok(next) ==> next.used == resolve_all_charge(resolution),
    decreases delta_count(resolution.entries),
{
    lemma_pass_charge(resolution, 0);
    if let Ok(next) = resolve_pass(resolution, 0) {
        if delta_count(next.entries) < delta_count(resolution.entries) {
            lemma_all_charge(next);
        }
    }
}

/// Whether the resolved entries hold the head, as a commit of the expected tree,
/// and no delta whose base is missing.
pub open spec fn head_verdict(
    resolution: Resolution,
    head_oid: Seq<u8>,
    tree_oid: Seq<u8>,
) -> Result<
    int,
    GitArtifactFailure,
> {
    match hex_oid(head_oid) {
        None => Err(GitArtifactFailure::Content),
        Some(head) => if !resolution.objects.contains_key(head) {
            Err(GitArtifactFailure::Content)
        } else {
            match resolution.entries[resolution.objects[head]] {
                EntryModel::Object(object) => if !names_tree(object, tree_oid) {
                    Err(GitArtifactFailure::Content)
                } else if delta_count(resolution.entries) > 0 {
                    Err(GitArtifactFailure::Pack)
                } else {
                    Ok(resolution.used)
                },
                EntryModel::Delta(_) => Err(GitArtifactFailure::Content),
            }
        },
    }
}

/// The entries of a pack before any delta is resolved.
pub open spec fn unresolved(entries: Seq<EntryModel>, used: int) -> Resolution {
    Resolution { entries, objects: object_entries(entries, entries.len()), used }
}

/// Whether `entries` are those of `before`, but for deltas that have become objects.
pub open spec fn resolved_in_part(before: Seq<EntryModel>, entries: Seq<EntryModel>) -> bool {
    &&& entries.len() == before.len()
    &&& forall|i: int|
        0 <= i < entries.len() ==> #[trigger] entries[i] == before[i] || (before[i] is Delta
            && entries[i] is Object)
}

/// Resolves the deltas of a pack and judges the result; the charge of the budget
/// afterwards.
pub open spec fn resolved_verdict(
    entries: Seq<EntryModel>,
    head_oid: Seq<u8>,
    tree_oid: Seq<u8>,
    used: int,
) -> Result<int, GitArtifactFailure> {
    match resolve_all(unresolved(entries, used)) {
        Err(failure) => Err(failure),
        Ok(resolution) => head_verdict(resolution, head_oid, tree_oid),
    }
}

/// The charge of the budget after an attempt to resolve the deltas of a pack.
pub open spec fn resolved_charge(entries: Seq<EntryModel>, used: int) -> int {
    resolve_all_charge(unresolved(entries, used))
}

/// The charge of the budget after a bundle was judged, accepted or not.
pub open spec fn bundle_charge(
    bytes: Seq<u8>,
    base_oid: Seq<u8>,
    head_oid: Seq<u8>,
    used: int,
) -> int {
    match bundle_body_offset(bytes, base_oid, head_oid) {
        Err(_) => used,
        Ok(body_offset) => match pack_entries(bytes, body_offset, used) {
            Err(_) => pack_charge(bytes, body_offset, used),
            Ok((entries, used)) => resolved_charge(entries, used),
        },
    }
}

/// Judges a bundle; the charge of the budget afterwards.
pub open spec fn bundle_verdict(
    bytes: Seq<u8>,
    base_oid: Seq<u8>,
    head_oid: Seq<u8>,
    tree_oid: Seq<u8>,
    used: int,
) -> Result<int, GitArtifactFailure> {
    match bundle_body_offset(bytes, base_oid, head_oid) {
        Err(failure) => Err(failure),
        Ok(body_offset) => match pack_entries(bytes, body_offset, used) {
            Err(failure) => Err(failure),
            Ok((entries, used)) => resolved_verdict(entries, head_oid, tree_oid, used),
        },
    }
}

/// Judging a bundle takes no charge back, and charges at least for its pack.
pub(crate) proof fn lemma_bundle_charge(
    bytes: Seq<u8>,
    base_oid: Seq<u8>,
    head_oid: Seq<u8>,
    used: int,
)
    ensures
        used <= bundle_charge(bytes, base_oid, head_oid, used),
        used <= MAXIMUM_INFLATED_GIT_BYTES ==> bundle_charge(bytes, base_oid, head_oid, used)
            <= MAXIMUM_INFLATED_GIT_BYTES,
        bundle_body_offset(bytes, base_oid, head_oid) matches Ok(body_offset) ==> pack_charge(
            bytes,
            body_offset,
            used,
        ) <= bundle_charge(bytes, base_oid, head_oid, used),
{
    if let Ok(body_offset) = bundle_body_offset(bytes, base_oid, head_oid) {
        if let Ok(count) = pack_entry_count(bytes, body_offset) {
            lemma_entries_charge(
                bytes,
                bytes.len() - PACK_CHECKSUM_BYTES,
                PackProgress {
                    entries: Seq::empty(),
                    offsets: Map::empty(),
                    position: body_offset + 12,
                    used,
                },
                count as nat,
            );
        }
        if let Ok((entries, charged)) = pack_entries(bytes, body_offset, used) {
            lemma_all_charge(unresolved(entries, charged));
        }
    }
}

/// Every indexed identifier names an object entry of that identifier.
pub open spec fn index_sound(resolution: Resolution) -> bool {
    forall|oid: Seq<u8>| #[trigger]
        resolution.objects.contains_key(oid) ==> {
            let index = resolution.objects[oid];
            0 <= index < resolution.entries.len() && (
            resolution.entries[index] matches EntryModel::Object(object) && object.oid == oid)
        }
}

pub(crate) proof fn lemma_object_entries_sound(entries: Seq<EntryModel>, count: nat)
    requires
        count <= entries.len(),
    ensures
        forall|oid: Seq<u8>| #[trigger]
            object_entries(entries, count).contains_key(oid) ==> {
                let index = object_entries(entries, count)[oid];
                0 <= index < count && (entries[index] matches EntryModel::Object(object)
                    && object.oid == oid)
            },
    decreases count,
{
    if count > 0 {
        lemma_object_entries_sound(entries, (count - 1) as nat);
    }
}

pub(crate) proof fn lemma_delta_count_update(
    entries: Seq<EntryModel>,
    index: int,
    entry: EntryModel,
)
    requires
        0 <= index < entries.len(),
        entries[index] is Delta,
        entry is Object,
    ensures
        delta_count(entries.update(index, entry)) + 1 == delta_count(entries),
    decreases entries.len(),
{
    let updated = entries.update(index, entry);
    if index == entries.len() - 1 {
        assert(updated.drop_last() =~= entries.drop_last());
    } else {
        assert(updated.drop_last() =~= entries.drop_last().update(index, entry));
        lemma_delta_count_update(entries.drop_last(), index, entry);
    }
}

pub(crate) proof fn lemma_delta_count_zero(entries: Seq<EntryModel>)
    ensures
        delta_count(entries) == 0 <==> forall|index: int|
            0 <= index < entries.len() ==> #[trigger] entries[index] is Object,
    decreases entries.len(),
{
    if entries.len() > 0 {
        lemma_delta_count_zero(entries.drop_last());
        assert(entries.drop_last() =~= entries.take(entries.len() - 1));
        if forall|index: int| 0 <= index < entries.len() ==> #[trigger] entries[index] is Object {
            assert forall|index: int| 0 <= index < entries.drop_last().len() implies (
            #[trigger] entries.drop_last()[index]) is Object by {
                assert(entries[index] is Object);
            }
            assert(entries.last() is Object);
        }
        if delta_count(entries) == 0 {
            assert forall|index: int| 0 <= index < entries.len() implies (
            #[trigger] entries[index]) is Object by {
                if index < entries.len() - 1 {
                    assert(entries.drop_last()[index] is Object);
                }
            }
        }
    }
}

/// One resolution step keeps the number of entries, the bases and the index in
/// order, and every object as it was.
pub(crate) proof fn lemma_resolve_entry(resolution: Resolution, index: int)
    requires
        0 <= index < resolution.entries.len(),
        bases_precede(resolution.entries),
        index_sound(resolution),
    ensures
        resolve_entry(resolution, index) matches Ok(next) ==> {
            &&& next.entries.len() == resolution.entries.len()
            &&& bases_precede(next.entries)
            &&& index_sound(next)
            &&& forall|i: int|
                0 <= i < resolution.entries.len() && resolution.entries[i] is Object
                    ==> #[trigger] next.entries[i] == resolution.entries[i]
            &&& forall|oid: Seq<u8>| #[trigger]
                resolution.objects.contains_key(oid) ==> next.objects.contains_key(oid)
        },
{
    if let Some(base) = base_object(resolution, index) {
        if let Ok(next) = resolve_entry(resolution, index) {
            assert forall|oid: Seq<u8>| #[trigger] next.objects.contains_key(oid) implies ({
                let entry = next.objects[oid];
                0 <= entry < next.entries.len() && (next.entries[entry] matches EntryModel::Object(
                    object,
                ) && object.oid == oid)
            }) by {
                if resolution.objects.contains_key(oid) {
                    assert(resolution.entries[resolution.objects[oid]] is Object);
                }
            }
        }
    }
}

/// Collects the objects of a pack by identifier.
fn index_objects(entries: &Vec<PackEntry>) -> (objects: ObjectIndex)
    ensures
        objects.view() == object_entries(entry_models(entries@), entries@.len()),
{
    let mut objects = ObjectIndex::new();
    let mut index: usize = 0;
    while index < entries.len()
        invariant
            index <= entries@.len(),
            objects.view() == object_entries(entry_models(entries@), index as nat),
        decreases entries@.len() - index,
    {
        if let PackEntry::Object(object) = &entries[index] {
            objects.insert(object.oid, index);
        }
        assert(entry_models(entries@)[index as int] == entries@[index as int]@);
        index = index + 1;
    }
    objects
}

/// What resolving one entry made of it.
fn rebuild_entry(
    entries: &Vec<PackEntry>,
    objects: &ObjectIndex,
    index: usize,
    budget: &mut GitArtifactValidationBudget,
    cancelled: Option<&AtomicBool>,
) -> (outcome: Result<Option<ObjectRecord>, GitArtifactFailure>)
    requires
        index < entries@.len(),
        bases_precede(entry_models(entries@)),
        index_sound(
            Resolution {
                entries: entry_models(entries@),
                objects: objects.view(),
                used: old(budget).used(),
            },
        ),
    ensures
        final(budget).used() >= old(budget).used(),
        final(budget).used() == resolve_entry_charge(
            Resolution {
                entries: entry_models(entries@),
                objects: objects.view(),
                used: old(budget).used(),
            },
            index as int,
        ),
        ({
            let resolution = Resolution {
                entries: entry_models(entries@),
                objects: objects.view(),
                used: old(budget).used(),
            };
            match outcome {
                Ok(None) => base_object(resolution, index as int) is None && final(budget).used()
                    == old(budget).used(),
                Ok(Some(object)) => base_object(resolution, index as int) is Some && resolve_entry(
                    resolution,
                    index as int,
                ) == Ok::<Resolution, GitArtifactFailure>(
                    Resolution {
                        entries: resolution.entries.update(
                            index as int,
                            EntryModel::Object(object@),
                        ),
                        objects: resolution.objects.insert(object.oid@, index as int),
                        used: final(budget).used(),
                    },
                ),
                Err(failure) => resolve_entry(resolution, index as int) == Err::<
                    Resolution,
                    GitArtifactFailure,
                >(failure) || interrupted(cancelled, failure),
            }
        }),
{
    let ghost models = entry_models(entries@);
    assert(models[index as int] == entries@[index as int]@);
    let delta = match &entries[index] {
        PackEntry::Object(_) => {
            return Ok(None);
        },
        PackEntry::Delta(delta) => delta,
    };
    let base_index: usize = match delta.base {
        DeltaBase::Entry(base) => base,
        DeltaBase::Oid(oid) => match objects.get(&oid) {
            Some(base) => base,
            None => {
                return Ok(None);
            },
        },
    };
    assert(models[base_index as int] == entries@[base_index as int]@);
    let base = match &entries[base_index] {
        PackEntry::Object(base) => base,
        PackEntry::Delta(_) => {
            return Ok(None);
        },
    };
    if base.depth >= MAXIMUM_DELTA_DEPTH {
        return Err(GitArtifactFailure::StructureLimit);
    }
    let content: Vec<u8> = apply_delta(
        base.content.as_slice(),
        delta.program.as_slice(),
        budget,
        cancelled,
    )?;
    let size: u64 = content.len() as u64;
    let object: ObjectRecord = object_record(base.kind, content, size, base.depth + 1, cancelled)?;
    Ok(Some(object))
}

/// Resolves every delta whose base is at hand, then checks the head.
pub fn resolve_and_validate_objects(
    entries: &mut Vec<PackEntry>,
    descriptor: GitArtifactDescriptor<'_>,
    budget: &mut GitArtifactValidationBudget,
    cancelled: Option<&AtomicBool>,
) -> (outcome: Result<(), GitArtifactFailure>)
    requires
        bases_precede(entry_models(old(entries)@)),
    ensures
        final(budget).used() >= old(budget).used(),
        ({
            let verdict = resolved_verdict(
                entry_models(old(entries)@),
                descriptor.head_oid.spec_bytes(),
                descriptor.tree_oid.spec_bytes(),
                old(budget).used(),
            );
            let charge = resolved_charge(entry_models(old(entries)@), old(budget).used());
            match outcome {
                Ok(_) => verdict == Ok::<int, GitArtifactFailure>(final(budget).used()),
                Err(failure) => verdict == Err::<int, GitArtifactFailure>(failure)
                    && final(budget).used() == charge || (interrupted(cancelled, failure)
                    && final(budget).used() <= charge),
            }
        }),
        old(entries)@.len() > 0 ==> bears_out(cancelled, outcome),
        ({
            let resolution = resolve_all(
                unresolved(entry_models(old(entries)@), old(budget).used()),
            );
            &&& outcome is Ok ==> resolution is Ok
            &&& resolution is Ok && outcome != Err::<(), GitArtifactFailure>(
                GitArtifactFailure::Interrupted,
            ) ==> entry_models(final(entries)@) == resolution->Ok_0.entries
        }),
        resolved_in_part(entry_models(old(entries)@), entry_models(final(entries)@)),
{
    let mut objects: ObjectIndex = index_objects(entries);
    let ghost start = Resolution {
        entries: entry_models(entries@),
        objects: objects.view(),
        used: budget.used(),
    };
    let length: usize = entries.len();
    proof {
        lemma_object_entries_sound(start.entries, start.entries.len());
        lemma_resolve_all_refusal(start);
    }
    let mut deltas_left: bool = true;
    while deltas_left
        invariant
            entries@.len() == length,
            bases_precede(entry_models(entries@)),
            index_sound(
                Resolution {
                    entries: entry_models(entries@),
                    objects: objects.view(),
                    used: budget.used(),
                },
            ),
            budget.used() >= old(budget).used(),
            start == unresolved(entry_models(old(entries)@), old(budget).used()),
            resolved_in_part(start.entries, entry_models(entries@)),
            !is_interruption(resolve_all(start)),
            length > 0 && !deltas_left ==> (cancelled matches Some(flag) ==> polled(flag, false)),
            ({
                let current = Resolution {
                    entries: entry_models(entries@),
                    objects: objects.view(),
                    used: budget.used(),
                };
                if deltas_left {
                    resolve_all(start) == resolve_all(current) && resolve_all_charge(start)
                        == resolve_all_charge(current)
                } else {
                    resolve_all(start) == Ok::<Resolution, GitArtifactFailure>(current)
                        && resolve_all_charge(start) == current.used
                }
            }),
        decreases delta_count(entry_models(entries@)) + (if deltas_left { 1int } else { 0int }),
    {
        let ghost pass_start = Resolution {
            entries: entry_models(entries@),
            objects: objects.view(),
            used: budget.used(),
        };
        let mut progress: bool = false;
        let mut index: usize = 0;
        while index < length
            invariant
                index <= length,
                entries@.len() == length,
                bases_precede(entry_models(entries@)),
                index_sound(
                    Resolution {
                        entries: entry_models(entries@),
                        objects: objects.view(),
                        used: budget.used(),
                    },
                ),
                budget.used() >= old(budget).used(),
                start == unresolved(entry_models(old(entries)@), old(budget).used()),
                resolved_in_part(start.entries, entry_models(entries@)),
                !is_interruption(resolve_all(start)),
                index > 0 ==> (cancelled matches Some(flag) ==> polled(flag, false)),
                resolve_all(start) == resolve_all(pass_start),
                resolve_all_charge(start) == resolve_all_charge(pass_start),
                resolve_pass_charge(pass_start, 0) == resolve_pass_charge(
                    Resolution {
                        entries: entry_models(entries@),
                        objects: objects.view(),
                        used: budget.used(),
                    },
                    index as int,
                ),
                resolve_pass(pass_start, 0) == resolve_pass(
                    Resolution {
                        entries: entry_models(entries@),
                        objects: objects.view(),
                        used: budget.used(),
                    },
                    index as int,
                ),
                if progress {
                    delta_count(entry_models(entries@)) < delta_count(pass_start.entries)
                } else {
                    delta_count(entry_models(entries@)) == delta_count(pass_start.entries)
                },
            decreases length - index,
        {
            let ghost current = Resolution {
                entries: entry_models(entries@),
                objects: objects.view(),
                used: budget.used(),
            };
            proof {
                lemma_resolve_entry(current, index as int);
                lemma_pass_charge(current, index as int);
                lemma_all_charge(pass_start);
            }
            check_cancelled(cancelled)?;
            match rebuild_entry(entries, &objects, index, budget, cancelled)? {
                None => {},
                Some(object) => {
                    let ghost before = entries@;
                    objects.insert(object.oid, index);
                    entries.set(index, PackEntry::Object(object));
                    proof {
                        assert(entry_models(entries@) =~= entry_models(before).update(
                            index as int,
                            EntryModel::Object(object@),
                        ));
                        lemma_delta_count_update(
                            entry_models(before),
                            index as int,
                            EntryModel::Object(object@),
                        );
                    }
                    progress = true;
                },
            }
            index = index + 1;
        }
        deltas_left = progress;
    }
    let ghost resolution = Resolution {
        entries: entry_models(entries@),
        objects: objects.view(),
        used: budget.used(),
    };
    let head: [u8; 20] = match parse_hex_oid(descriptor.head_oid) {
        Some(head) => head,
        None => {
            return Err(GitArtifactFailure::Content);
        },
    };
    let head_index: usize = match objects.get(&head) {
        Some(head_index) => head_index,
        None => {
            return Err(GitArtifactFailure::Content);
        },
    };
    assert(resolution.entries[head_index as int] == entries@[head_index as int]@);
    match &entries[head_index] {
        PackEntry::Object(object) => {
            validate_head_object(object, descriptor.tree_oid)?;
        },
        PackEntry::Delta(_) => {
            return Err(GitArtifactFailure::Content);
        },
    }
    proof {
        lemma_delta_count_zero(resolution.entries);
    }
    let mut index: usize = 0;
    while index < length
        invariant
            index <= length,
            entries@.len() == length,
            resolution.entries == entry_models(entries@),
            forall|i: int| 0 <= i < index ==> #[trigger] resolution.entries[i] is Object,
            delta_count(resolution.entries) == 0 <==> forall|i: int|
                0 <= i < resolution.entries.len() ==> #[trigger] resolution.entries[i] is Object,
            resolved_verdict(
                entry_models(old(entries)@),
                descriptor.head_oid.spec_bytes(),
                descriptor.tree_oid.spec_bytes(),
                old(budget).used(),
            ) == (if delta_count(resolution.entries) > 0 {
                Err::<int, GitArtifactFailure>(GitArtifactFailure::Pack)
            } else {
                Ok(budget.used())
            }),
            budget.used() >= old(budget).used(),
            budget.used() == resolved_charge(entry_models(old(entries)@), old(budget).used()),
            resolve_all(unresolved(entry_models(old(entries)@), old(budget).used())) == Ok::<
                Resolution,
                GitArtifactFailure,
            >(resolution),
            resolved_in_part(entry_models(old(entries)@), resolution.entries),
            length == old(entries)@.len(),
            length > 0 ==> (cancelled matches Some(flag) ==> polled(flag, false)),
        decreases length - index,
    {
        assert(resolution.entries[index as int] == entries@[index as int]@);
        match &entries[index] {
            PackEntry::Object(_) => {},
            PackEntry::Delta(_) => {
                return Err(GitArtifactFailure::Pack);
            },
        }
        index = index + 1;
    }
    Ok(())
}

/// Validates a bundle that should carry the artifact that `descriptor` gives.
pub fn validate_git_bundle(
    bytes: &[u8],
    descriptor: GitArtifactDescriptor<'_>,
    budget: &mut GitArtifactValidationBudget,
    cancelled: Option<&AtomicBool>,
) -> (outcome: Result<(), GitArtifactFailure>)
    ensures
        final(budget).used() >= old(budget).used(),
        ({
            let verdict = bundle_verdict(
                bytes@,
                descriptor.base_oid.spec_bytes(),
                descriptor.head_oid.spec_bytes(),
                descriptor.tree_oid.spec_bytes(),
                old(budget).used(),
            );
            let charge = bundle_charge(
                bytes@,
                descriptor.base_oid.spec_bytes(),
                descriptor.head_oid.spec_bytes(),
                old(budget).used(),
            );
            match outcome {
                Ok(_) => verdict == Ok::<int, GitArtifactFailure>(final(budget).used()),
                Err(failure) => verdict == Err::<int, GitArtifactFailure>(failure)
                    && final(budget).used() == charge || (interrupted(cancelled, failure)
                    && final(budget).used() <= charge),
            }
        }),
        bears_out(cancelled, outcome),
{
    proof {
        lemma_bundle_charge(
            bytes@,
            descriptor.base_oid.spec_bytes(),
            descriptor.head_oid.spec_bytes(),
            budget.used(),
        );
        law_no_bundle_is_refused_as_interrupted(
            bytes@,
            descriptor.base_oid.spec_bytes(),
            descriptor.head_oid.spec_bytes(),
            descriptor.tree_oid.spec_bytes(),
            budget.used(),
        );
    }
    check_cancelled(cancelled)?;
    let body_offset: u64 = validate_bundle_header(bytes, descriptor)?;
    let mut entries: Vec<PackEntry> = parse_pack(bytes, body_offset, budget, cancelled)?;
    resolve_and_validate_objects(&mut entries, descriptor, budget, cancelled)
}

} // verus!
