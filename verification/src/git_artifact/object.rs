//! Git objects: their kinds, their identifiers, and an index of them.

use std::collections::BTreeMap;
use std::sync::atomic::AtomicBool;

use vstd::prelude::*;
use vstd::string::StringSliceAdditionalSpecFns;

use crate::bytes::{append_bytes, bytes_equal, hex_digit_value, is_lowercase_hex, lowercase_hex};
use crate::git_artifact::header::{find_newline, first_newline};
use crate::git_artifact::{bears_out, check_cancelled, interrupted, GitArtifactFailure};

verus! {

/// The four kinds of Git objects.
#[derive(Clone, Copy, Debug, PartialEq, Eq, Structural)]
pub enum ObjectKind {
    Commit,
    Tree,
    Blob,
    Tag,
}

impl ObjectKind {
    /// The kind that a pack entry of type `kind` holds, delta types excluded.
    pub open spec fn of_pack_type(kind: u8) -> Option<ObjectKind> {
        if kind == 1 {
            Some(ObjectKind::Commit)
        } else if kind == 2 {
            Some(ObjectKind::Tree)
        } else if kind == 3 {
            Some(ObjectKind::Blob)
        } else if kind == 4 {
            Some(ObjectKind::Tag)
        } else {
            None
        }
    }

    /// The name that starts the hashed form of an object.
    pub open spec fn name(self) -> Seq<u8> {
        match self {
            ObjectKind::Commit => "commit".spec_bytes(),
            ObjectKind::Tree => "tree".spec_bytes(),
            ObjectKind::Blob => "blob".spec_bytes(),
            ObjectKind::Tag => "tag".spec_bytes(),
        }
    }

    /// The kind that a pack entry of type `kind` holds, delta types excluded.
    pub fn from_pack_type(kind: u8) -> (object: Option<ObjectKind>)
        ensures
            object == ObjectKind::of_pack_type(kind),
    {
        match kind {
            1 => Some(ObjectKind::Commit),
            2 => Some(ObjectKind::Tree),
            3 => Some(ObjectKind::Blob),
            4 => Some(ObjectKind::Tag),
            _ => None,
        }
    }

    /// The name that starts the hashed form of an object.
    pub fn as_bytes(self) -> (name: &'static [u8])
        ensures
            name@ == self.name(),
    {
        match self {
            ObjectKind::Commit => "commit".as_bytes(),
            ObjectKind::Tree => "tree".as_bytes(),
            ObjectKind::Blob => "blob".as_bytes(),
            ObjectKind::Tag => "tag".as_bytes(),
        }
    }
}

/// The SHA-1 digest of `data`.
pub uninterp spec fn sha1(data: Seq<u8>) -> Seq<u8>;

/// `ring::digest::digest` with `SHA1_FOR_LEGACY_USE_ONLY`: the digest, of twenty
/// bytes, is a function of the data alone.
#[verifier::external_body]
pub(crate) fn sha1_digest(data: &[u8]) -> (digest: [u8; 20])
    ensures
        digest@ == sha1(data@),
{
    let mut bytes = [0_u8; 20];
    bytes.copy_from_slice(
        ring::digest::digest(&ring::digest::SHA1_FOR_LEGACY_USE_ONLY, data).as_ref(),
    );
    bytes
}

/// The decimal digits of `value`, without leading zeros.
pub open spec fn decimal_digits(value: nat) -> Seq<u8>
    decreases value,
{
    if value < 10 {
        seq![('0' as u8 + value) as u8]
    } else {
        decimal_digits(value / 10).push(('0' as u8 + value % 10) as u8)
    }
}

/// Appends the decimal digits of `value`.
pub fn push_decimal(destination: &mut Vec<u8>, value: u64)
    ensures
        final(destination)@ == old(destination)@ + decimal_digits(value as nat),
    decreases value,
{
    if value >= 10 {
        push_decimal(destination, value / 10);
    }
    let ghost before = destination@;
    destination.push('0' as u8 + (value % 10) as u8);
    assert(destination@ =~= old(destination)@ + decimal_digits(value as nat));
}

/// The bytes whose SHA-1 digest identifies an object: its kind, its size in
/// decimal, a zero byte and its content.
pub open spec fn hashed_form(kind: ObjectKind, content: Seq<u8>) -> Seq<u8> {
    kind.name() + " ".spec_bytes() + decimal_digits(content.len()) + seq![0u8] + content
}

/// The identifier of an object.
pub open spec fn object_oid(kind: ObjectKind, content: Seq<u8>) -> Seq<u8> {
    sha1(hashed_form(kind, content))
}

/// The identifier of an object whose content should have `size` bytes.
pub fn hash_object(
    kind: ObjectKind,
    content: &[u8],
    size: u64,
    cancelled: Option<&AtomicBool>,
) -> (outcome: Result<[u8; 20], GitArtifactFailure>)
    ensures
        match outcome {
            Ok(oid) => size == content@.len() && oid@ == object_oid(kind, content@),
            Err(failure) => interrupted(cancelled, failure) || (failure
                == GitArtifactFailure::Pack && size != content@.len()),
        },
        bears_out(cancelled, outcome),
{
    check_cancelled(cancelled)?;
    if content.len() as u64 != size {
        return Err(GitArtifactFailure::Pack);
    }
    let mut form: Vec<u8> = Vec::new();
    append_bytes(&mut form, kind.as_bytes());
    append_bytes(&mut form, " ".as_bytes());
    push_decimal(&mut form, size);
    form.push(0);
    append_bytes(&mut form, content);
    assert(form@ =~= hashed_form(kind, content@));
    Ok(sha1_digest(form.as_slice()))
}

/// An object of a pack: what it holds, what identifies it, and how many deltas
/// were applied to rebuild it.
#[verifier::ext_equal]
pub struct ObjectModel {
    pub kind: ObjectKind,
    pub content: Seq<u8>,
    pub oid: Seq<u8>,
    pub depth: int,
}

/// The object that `content` makes.
pub open spec fn object_model(kind: ObjectKind, content: Seq<u8>, depth: int) -> ObjectModel {
    ObjectModel { kind, content, oid: object_oid(kind, content), depth }
}

/// An object of a pack.
pub struct ObjectRecord {
    pub kind: ObjectKind,
    pub content: Vec<u8>,
    pub oid: [u8; 20],
    pub depth: u8,
}

impl View for ObjectRecord {
    type V = ObjectModel;

    open spec fn view(&self) -> ObjectModel {
        ObjectModel {
            kind: self.kind,
            content: self.content@,
            oid: self.oid@,
            depth: self.depth as int,
        }
    }
}

/// Identifies `content` and records it as an object.
pub fn object_record(
    kind: ObjectKind,
    content: Vec<u8>,
    size: u64,
    depth: u8,
    cancelled: Option<&AtomicBool>,
) -> (outcome: Result<ObjectRecord, GitArtifactFailure>)
    ensures
        match outcome {
            Ok(record) => size == content@.len() && record@ == object_model(
                kind,
                content@,
                depth as int,
            ),
            Err(failure) => interrupted(cancelled, failure) || (failure
                == GitArtifactFailure::Pack && size != content@.len()),
        },
        bears_out(cancelled, outcome),
{
    let oid: [u8; 20] = hash_object(kind, content.as_slice(), size, cancelled)?;
    Ok(ObjectRecord { kind, content, oid, depth })
}

/// The identifier that forty lowercase hexadecimal digits stand for.
pub open spec fn hex_oid(value: Seq<u8>) -> Option<Seq<u8>> {
    if lowercase_hex(value, 40) {
        Some(
            Seq::new(
                20,
                |i: int|
                    (16 * hex_digit_value(value[2 * i]) + hex_digit_value(value[2 * i + 1])) as u8,
            ),
        )
    } else {
        None
    }
}

/// The number that one lowercase hexadecimal digit stands for.
fn hex_value(byte: u8) -> (value: u8)
    requires
        crate::bytes::lowercase_hex_digit(byte),
    ensures
        value == hex_digit_value(byte),
        value < 16,
{
    if byte <= '9' as u8 {
        byte - '0' as u8
    } else {
        byte - 'a' as u8 + 10
    }
}

/// The identifier that forty lowercase hexadecimal digits stand for.
pub fn parse_hex_oid(value: &str) -> (oid: Option<[u8; 20]>)
    ensures
        match oid {
            Some(bytes) => hex_oid(value.spec_bytes()) == Some(bytes@),
            None => hex_oid(value.spec_bytes()) is None,
        },
{
    if !is_lowercase_hex(value, 40) {
        return None;
    }
    let digits: &[u8] = value.as_bytes();
    let mut oid: [u8; 20] = [0u8; 20];
    let mut index: usize = 0;
    while index < 20
        invariant
            index <= 20,
            digits@ == value.spec_bytes(),
            lowercase_hex(digits@, 40),
            forall|i: int|
                0 <= i < index ==> #[trigger] oid@[i] == (16 * hex_digit_value(digits@[2 * i])
                    + hex_digit_value(digits@[2 * i + 1])) as u8,
        decreases 20 - index,
    {
        assert(crate::bytes::lowercase_hex_digit(digits@[2 * index]));
        assert(crate::bytes::lowercase_hex_digit(digits@[2 * index + 1]));
        let high: u8 = hex_value(digits[2 * index]);
        let low: u8 = hex_value(digits[2 * index + 1]);
        oid[index] = 16 * high + low;
        index = index + 1;
    }
    assert(oid@ =~= hex_oid(value.spec_bytes())->Some_0);
    Some(oid)
}

/// Whether an object is a commit whose first line, within its first 128 bytes,
/// names the tree `tree_oid`.
pub open spec fn names_tree(object: ObjectModel, tree_oid: Seq<u8>) -> bool {
    let window = if object.content.len() < 128 {
        object.content.len() as int
    } else {
        128
    };
    &&& object.kind == ObjectKind::Commit
    &&& first_newline(object.content, 0, window) matches Some(end) && object.content.take(end)
        == "tree ".spec_bytes() + tree_oid
}

/// Checks that the head is a commit of the expected tree.
pub fn validate_head_object(head: &ObjectRecord, expected_tree: &str) -> (outcome: Result<
    (),
    GitArtifactFailure,
>)
    ensures
        outcome == (if names_tree(head@, expected_tree.spec_bytes()) {
            Ok(())
        } else {
            Err(GitArtifactFailure::Content)
        }),
{
    if head.kind != ObjectKind::Commit {
        return Err(GitArtifactFailure::Content);
    }
    let content: &[u8] = head.content.as_slice();
    let window: usize = if content.len() < 128 {
        content.len()
    } else {
        128
    };
    match find_newline(content, 0, window) {
        None => Err(GitArtifactFailure::Content),
        Some(end) => {
            let mut expected: Vec<u8> = Vec::new();
            append_bytes(&mut expected, "tree ".as_bytes());
            append_bytes(&mut expected, expected_tree.as_bytes());
            assert(expected@ =~= "tree ".spec_bytes() + expected_tree.spec_bytes());
            let first_line: &[u8] = &content[0..end];
            assert(first_line@ =~= head@.content.take(end as int));
            if bytes_equal(first_line, expected.as_slice()) {
                Ok(())
            } else {
                Err(GitArtifactFailure::Content)
            }
        },
    }
}

/// The index that the last of `slots` for `oid` holds.
spec fn last_slot(slots: Seq<([u8; 20], usize)>, oid: Seq<u8>) -> Option<int>
    decreases slots.len(),
{
    if slots.len() == 0 {
        None
    } else if slots.last().0@ == oid {
        Some(slots.last().1 as int)
    } else {
        last_slot(slots.drop_last(), oid)
    }
}

/// The number that the first four bytes of an identifier make.
spec fn oid_prefix(oid: Seq<u8>) -> u64 {
    (oid[0] * 0x100_0000 + oid[1] * 0x1_0000 + oid[2] * 0x100 + oid[3]) as u64
}

/// The number that the first four bytes of an identifier make.
fn prefix_of(oid: &[u8; 20]) -> (prefix: u64)
    ensures
        prefix == oid_prefix(oid@),
{
    oid[0] as u64 * 0x100_0000 + oid[1] as u64 * 0x1_0000 + oid[2] as u64 * 0x100 + oid[3] as u64
}

/// Maps keyed by 64-bit integers behave as maps.
pub proof fn lemma_integer_keys()
    ensures
        vstd::laws_cmp::obeys_cmp::<u64>(),
{
    broadcast use vstd::laws_cmp::group_laws_cmp;

}

/// Which entry of a pack holds the object of an identifier.
pub struct ObjectIndex {
    buckets: BTreeMap<u64, Vec<([u8; 20], usize)>>,
}

impl ObjectIndex {
    spec fn lookup(&self, oid: Seq<u8>) -> Option<int> {
        if self.buckets@.contains_key(oid_prefix(oid)) {
            last_slot(self.buckets@[oid_prefix(oid)]@, oid)
        } else {
            None
        }
    }

    /// The indexed entries, by identifier.
    pub closed spec fn view(&self) -> Map<Seq<u8>, int> {
        Map::new(
            |oid: Seq<u8>| self.lookup(oid) is Some,
            |oid: Seq<u8>| self.lookup(oid)->Some_0,
        )
    }

    /// An index of nothing.
    pub fn new() -> (index: ObjectIndex)
        ensures
            index.view() == Map::<Seq<u8>, int>::empty(),
    {
        let index = ObjectIndex { buckets: BTreeMap::new() };
        assert(index.view() =~= Map::<Seq<u8>, int>::empty());
        index
    }

    /// The entry that holds the object `oid`.
    pub fn get(&self, oid: &[u8; 20]) -> (entry: Option<usize>)
        ensures
            match entry {
                Some(index) => self.view().contains_key(oid@) && self.view()[oid@] == index,
                None => !self.view().contains_key(oid@),
            },
    {
        broadcast use vstd::std_specs::btree::group_btree_axioms;

        proof {
            lemma_integer_keys();
        }

        let prefix: u64 = prefix_of(oid);
        match self.buckets.get(&prefix) {
            None => None,
            Some(slots) => {
                let mut remaining: usize = slots.len();
                assert(slots@.take(remaining as int) =~= slots@);
                while remaining > 0
                    invariant
                        remaining <= slots@.len(),
                        last_slot(slots@, oid@) == last_slot(slots@.take(remaining as int), oid@),
                        self.lookup(oid@) == last_slot(slots@, oid@),
                    decreases remaining,
                {
                    proof {
                        let kept = slots@.take(remaining as int);
                        assert(kept.drop_last() =~= slots@.take(remaining - 1));
                        assert(kept.last() == slots@[remaining - 1]);
                    }
                    let slot: &([u8; 20], usize) = &slots[remaining - 1];
                    if bytes_equal(slot.0.as_slice(), oid.as_slice()) {
                        return Some(slot.1);
                    }
                    remaining = remaining - 1;
                }
                None
            },
        }
    }

    /// Makes `entry` the entry of the object `oid`.
    pub fn insert(&mut self, oid: [u8; 20], entry: usize)
        ensures
            final(self).view() == old(self).view().insert(oid@, entry as int),
    {
        broadcast use vstd::std_specs::btree::group_btree_axioms;

        proof {
            lemma_integer_keys();
        }

        let prefix: u64 = prefix_of(&oid);
        let mut slots: Vec<([u8; 20], usize)> = match self.buckets.remove(&prefix) {
            Some(slots) => slots,
            None => Vec::new(),
        };
        let ghost before = slots@;
        slots.push((oid, entry));
        let ghost after = slots@;
        self.buckets.insert(prefix, slots);
        proof {
            assert(after.drop_last() =~= before);
            assert forall|other: Seq<u8>| self.lookup(other) == (if other == oid@ {
                Some(entry as int)
            } else {
                #[trigger] old(self).lookup(other)
            }) by {
                assert(after.last().0@ == oid@);
                assert(other != oid@ ==> last_slot(after, other) == last_slot(before, other));
                if !old(self).buckets@.contains_key(prefix) {
                    assert(last_slot(before, other) is None);
                }
            }
            assert(self.view() =~= old(self).view().insert(oid@, entry as int));
        }
    }
}

} // verus!
