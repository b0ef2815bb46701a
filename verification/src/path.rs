//! Paths as bytes, compared part by part.

use vstd::prelude::*;
use vstd::string::StringSliceAdditionalSpecFns;

use crate::bytes::{append_bytes, bytes_equal, copy_bytes};

verus! {

/// Whether a path starts at the root.
pub open spec fn absolute(path: Seq<u8>) -> bool {
    path.len() > 0 && path[0] == '/' as u8
}

/// Whether a path starts at the root.
pub fn is_absolute(path: &[u8]) -> (is: bool)
    ensures
        is == absolute(path@),
{
    path.len() > 0 && path[0] == '/' as u8
}

/// A path taken from a directory: an absolute one stands for itself, another is
/// appended.
pub open spec fn joined(base: Seq<u8>, path: Seq<u8>) -> Seq<u8> {
    if absolute(path) {
        path
    } else if base.len() > 0 && base.last() != '/' as u8 {
        base + "/".spec_bytes() + path
    } else {
        base + path
    }
}

/// A path taken from a directory.
pub fn join_path(base: &[u8], path: &[u8]) -> (result: Vec<u8>)
    ensures
        result@ == joined(base@, path@),
{
    if is_absolute(path) {
        return copy_bytes(path);
    }
    let mut result: Vec<u8> = copy_bytes(base);
    if base.len() > 0 && base[base.len() - 1] != '/' as u8 {
        append_bytes(&mut result, "/".as_bytes());
    }
    append_bytes(&mut result, path);
    result
}

/// Where the part of a path that starts at `from` ends.
pub open spec fn part_end(path: Seq<u8>, from: int) -> int
    decreases path.len() - from,
{
    if from < 0 || from >= path.len() || path[from] == '/' as u8 {
        from
    } else {
        part_end(path, from + 1)
    }
}

/// A part ends within the path.
pub proof fn lemma_part_end(path: Seq<u8>, from: int)
    requires
        0 <= from <= path.len(),
    ensures
        from <= part_end(path, from) <= path.len(),
    decreases path.len() - from,
{
    if from < path.len() && path[from] != '/' as u8 {
        lemma_part_end(path, from + 1);
    }
}

/// Whether a part of a path counts: neither nothing nor the directory itself.
pub open spec fn counts(part: Seq<u8>) -> bool {
    part.len() > 0 && part != ".".spec_bytes()
}

/// The parts of an absolute path from `from` on that count.
pub open spec fn path_parts(path: Seq<u8>, from: int) -> Seq<Seq<u8>>
    decreases path.len() + 1 - from,
{
    if from < 0 || from > path.len() {
        Seq::empty()
    } else {
        proof {
            lemma_part_end(path, from);
        }
        let end = part_end(path, from);
        let part = path.subrange(from, end);
        let rest = path_parts(path, end + 1);
        if counts(part) {
            seq![part] + rest
        } else {
            rest
        }
    }
}

/// The models of a list of byte vectors.
pub open spec fn byte_lists(parts: Seq<Vec<u8>>) -> Seq<Seq<u8>> {
    parts.map_values(|part: Vec<u8>| part@)
}

/// The parts of a path that count.
pub fn split_path(path: &[u8]) -> (parts: Vec<Vec<u8>>)
    ensures
        byte_lists(parts@) == path_parts(path@, 0),
{
    let mut parts: Vec<Vec<u8>> = Vec::new();
    let length: usize = path.len();
    let mut from: usize = 0;
    let mut remaining: bool = true;
    assert(byte_lists(parts@) + path_parts(path@, 0) =~= path_parts(path@, 0));
    while remaining
        invariant
            length == path@.len(),
            from <= length,
            path_parts(path@, 0) == (if remaining {
                byte_lists(parts@) + path_parts(path@, from as int)
            } else {
                byte_lists(parts@)
            }),
        decreases length - from + (if remaining { 1int } else { 0int }),
    {
        let ghost known = byte_lists(parts@);
        let ghost start = from as int;
        let mut end: usize = from;
        while end < length && path[end] != '/' as u8
            invariant
                from <= end <= length,
                length == path@.len(),
                part_end(path@, from as int) == part_end(path@, end as int),
            ensures
                from <= end <= length,
                part_end(path@, from as int) == end,
            decreases length - end,
        {
            end = end + 1;
        }
        let part: &[u8] = &path[from..end];
        if part.len() > 0 && !bytes_equal(part, ".".as_bytes()) {
            let ghost before = parts@;
            parts.push(copy_bytes(part));
            assert(byte_lists(parts@) =~= known.push(part@));
            assert(known + (seq![part@] + path_parts(path@, end + 1)) =~= byte_lists(parts@)
                + path_parts(path@, end + 1));
        }
        if end < length {
            from = end + 1;
        } else {
            proof {
                assert(path_parts(path@, end + 1) =~= Seq::<Seq<u8>>::empty());
                assert(byte_lists(parts@) + path_parts(path@, end + 1) =~= byte_lists(parts@));
            }
            remaining = false;
        }
    }
    parts
}

/// Whether two lists of parts are the same.
fn same_parts(left: &Vec<Vec<u8>>, right: &Vec<Vec<u8>>) -> (same: bool)
    ensures
        same == (byte_lists(left@) == byte_lists(right@)),
{
    assert(byte_lists(left@).len() == left@.len() && byte_lists(right@).len() == right@.len());
    left.len() == right.len() && starts_with_parts(left, right)
}

/// Whether a list of parts begins with another.
pub fn starts_with_parts(parts: &Vec<Vec<u8>>, front: &Vec<Vec<u8>>) -> (starts: bool)
    ensures
        starts == byte_lists(front@).is_prefix_of(byte_lists(parts@)),
        parts@.len() == front@.len() ==> starts == (byte_lists(front@) == byte_lists(parts@)),
{
    let ghost models = byte_lists(parts@);
    let ghost front_models = byte_lists(front@);
    if front.len() > parts.len() {
        return false;
    }
    let mut index: usize = 0;
    while index < front.len()
        invariant
            index <= front@.len() <= parts@.len(),
            models == byte_lists(parts@),
            front_models == byte_lists(front@),
            forall|i: int| 0 <= i < index ==> #[trigger] front_models[i] == models[i],
        decreases front@.len() - index,
    {
        if !bytes_equal(front[index].as_slice(), parts[index].as_slice()) {
            assert(front_models[index as int] != models[index as int]);
            return false;
        }
        index = index + 1;
    }
    assert(models.take(front_models.len() as int) =~= front_models);
    assert(parts@.len() == front@.len() ==> front_models =~= models);
    true
}

/// Whether two absolute paths are the same, part by part.
pub open spec fn same_absolute_path(left: Seq<u8>, right: Seq<u8>) -> bool {
    absolute(left) && absolute(right) && path_parts(left, 0) == path_parts(right, 0)
}

/// Whether two absolute paths are the same, part by part.
pub fn are_same_absolute_path(left: &[u8], right: &[u8]) -> (same: bool)
    ensures
        same == same_absolute_path(left@, right@),
{
    is_absolute(left) && is_absolute(right) && same_parts(&split_path(left), &split_path(right))
}

/// Whether an absolute path is a directory or lies below it.
pub open spec fn lies_within(path: Seq<u8>, directory: Seq<u8>) -> bool {
    absolute(path) && absolute(directory) && path_parts(directory, 0).is_prefix_of(
        path_parts(path, 0),
    )
}

/// Whether an absolute path is a directory or lies below it.
pub fn is_within(path: &[u8], directory: &[u8]) -> (within: bool)
    ensures
        within == lies_within(path@, directory@),
{
    is_absolute(path) && is_absolute(directory) && starts_with_parts(
        &split_path(path),
        &split_path(directory),
    )
}

/// Whether an absolute path is that of the entry of a directory of that name.
pub open spec fn stands_in(path: Seq<u8>, directory: Seq<u8>, name: Seq<u8>) -> bool {
    absolute(path) && absolute(directory) && path_parts(path, 0) == path_parts(directory, 0).push(
        name,
    )
}

/// Whether an absolute path is that of the entry of a directory of that name.
pub fn is_entry_of(path: &[u8], directory: &[u8], name: &[u8]) -> (is: bool)
    ensures
        is == stands_in(path@, directory@, name@),
{
    if !is_absolute(path) || !is_absolute(directory) {
        return false;
    }
    let parts: Vec<Vec<u8>> = split_path(path);
    let mut expected: Vec<Vec<u8>> = split_path(directory);
    expected.push(copy_bytes(name));
    assert(byte_lists(expected@) =~= path_parts(directory@, 0).push(name@));
    same_parts(&parts, &expected)
}

} // verus!
