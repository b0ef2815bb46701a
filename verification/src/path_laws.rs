//! How paths are made up of their parts.

use vstd::prelude::*;
use vstd::string::StringSliceAdditionalSpecFns;

use crate::path::{
    absolute, counts, joined, lemma_part_end, lies_within, part_end, path_parts,
    same_absolute_path, stands_in,
};

verus! {

proof fn lemma_part_ends_alike(path: Seq<u8>, rest: Seq<u8>, from: int)
    requires
        0 <= from <= path.len(),
    ensures
        part_end(path + seq!['/' as u8] + rest, from) == part_end(path, from),
    decreases path.len() - from,
{
    let longer = path + seq!['/' as u8] + rest;
    if from < path.len() {
        assert(longer[from] == path[from]);
        lemma_part_ends_alike(path, rest, from + 1);
    } else {
        assert(longer[from] == '/' as u8);
    }
}

proof fn lemma_part_goes_to_the_end(path: Seq<u8>, from: int)
    requires
        0 <= from <= path.len(),
        forall|i: int| from <= i < path.len() ==> #[trigger] path[i] != '/' as u8,
    ensures
        part_end(path, from) == path.len(),
    decreases path.len() - from,
{
    if from < path.len() {
        lemma_part_goes_to_the_end(path, from + 1);
    }
}

proof fn lemma_parts_of_entry(path: Seq<u8>, name: Seq<u8>, from: int)
    requires
        0 <= from <= path.len(),
        forall|i: int| 0 <= i < name.len() ==> #[trigger] name[i] != '/' as u8,
    ensures
        path_parts(path + seq!['/' as u8] + name, from) == path_parts(path, from) + (if counts(
            name,
        ) {
            seq![name]
        } else {
            Seq::empty()
        }),
    decreases path.len() + 1 - from,
{
    let longer = path + seq!['/' as u8] + name;
    lemma_part_ends_alike(path, name, from);
    lemma_part_end(path, from);
    let end = part_end(path, from);
    assert(longer.subrange(from, end) =~= path.subrange(from, end));
    if end < path.len() {
        lemma_parts_of_entry(path, name, end + 1);
    } else {
        let start = path.len() as int + 1;
        assert forall|i: int| start <= i < longer.len() implies #[trigger] longer[i]
            != '/' as u8 by {
            assert(longer[i] == name[i - start]);
        }
        lemma_part_goes_to_the_end(longer, start);
        assert(longer.subrange(start, longer.len() as int) =~= name);
        assert(path_parts(longer, longer.len() as int + 1) =~= Seq::<Seq<u8>>::empty());
        assert(path_parts(path, end + 1) =~= Seq::<Seq<u8>>::empty());
        assert(path_parts(longer, start) =~= (if counts(name) {
            seq![name]
        } else {
            Seq::empty()
        }));
    }
    assert(path_parts(longer, from) =~= path_parts(path, from) + (if counts(name) {
        seq![name]
    } else {
        Seq::empty()
    }));
}

/// The parts of an entry's path are those of its directory and its name; a further slash or a
/// point adds none. The root has none.
pub proof fn law_entries_add_their_name(directory: Seq<u8>, name: Seq<u8>)
    requires
        forall|i: int| 0 <= i < name.len() ==> #[trigger] name[i] != '/' as u8,
    ensures
        path_parts(directory + seq!['/' as u8] + name, 0) == (if name.len() == 0 || name
            == ".".spec_bytes() {
            path_parts(directory, 0)
        } else {
            path_parts(directory, 0).push(name)
        }),
        path_parts(Seq::empty(), 0) == Seq::<Seq<u8>>::empty(),
{
    lemma_parts_of_entry(directory, name, 0);
    if counts(name) {
        assert(path_parts(directory, 0) + seq![name] =~= path_parts(directory, 0).push(name));
    } else {
        assert(path_parts(directory, 0) + Seq::<Seq<u8>>::empty() =~= path_parts(directory, 0));
    }
    let empty = Seq::<u8>::empty();
    assert(empty.subrange(0, 0) =~= empty);
    assert(path_parts(empty, 1) =~= Seq::<Seq<u8>>::empty());
}

/// An entry stands in its directory under its name, and lies within it; a directory lies
/// within itself and is the same path as itself, but does not lie within its entry.
pub proof fn law_entries_lie_within_their_directory(directory: Seq<u8>, name: Seq<u8>)
    requires
        absolute(directory),
        counts(name),
        forall|i: int| 0 <= i < name.len() ==> #[trigger] name[i] != '/' as u8,
    ensures
        stands_in(directory + seq!['/' as u8] + name, directory, name),
        lies_within(directory + seq!['/' as u8] + name, directory),
        lies_within(directory, directory),
        same_absolute_path(directory, directory),
        !lies_within(directory, directory + seq!['/' as u8] + name),
        !same_absolute_path(directory, directory + seq!['/' as u8] + name),
{
    let entry = directory + seq!['/' as u8] + name;
    assert(entry[0] == directory[0]);
    law_entries_add_their_name(directory, name);
    let parts = path_parts(directory, 0);
    assert(parts.is_prefix_of(parts.push(name)));
    assert(parts.push(name).len() == parts.len() + 1);
}

/// Only what starts with a slash is absolute. An absolute path stands for itself wherever it
/// is taken from; any other is put behind the directory, with one slash between them.
pub proof fn law_paths_are_taken_from_their_directory(base: Seq<u8>, path: Seq<u8>)
    ensures
        absolute(path) <==> path.len() > 0 && path[0] == 47,
        absolute(path) ==> joined(base, path) == path,
        !absolute(path) && base.len() > 0 && base.last() != 47 ==> joined(base, path) == base
            + "/".spec_bytes() + path,
        !absolute(path) && base.len() > 0 && base.last() == 47 ==> joined(base, path) == base
            + path,
        !absolute(path) && base.len() == 0 ==> joined(base, path) == path,
{
    assert(base.len() == 0 ==> base + path =~= path);
}

} // verus!
