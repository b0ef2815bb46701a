//! What the parts of a bundle mean: its header, the entries of its pack and its objects.

use vstd::arithmetic::power2::{lemma2_to64, pow2};
use vstd::prelude::*;
use vstd::string::{is_ascii, is_ascii_spec_bytes, StringSliceAdditionalSpecFns};

use crate::bytes::{hex_digit_value, lowercase_hex, lowercase_hex_digit};
use crate::decimal::{ascii_digits, digit_values, digits_value};
use crate::git_artifact::delta::{delta_application, delta_charge};
use crate::git_artifact::encoding::{law_varint_reads_back, varint_bytes};
use crate::git_artifact::header::{
    bundle_body_offset, component, ends_with, first_newline, forbidden_pair, header_item,
    header_line_end, header_listing, lemma_first_newline, reference_name, valid_component,
    HeaderItem, HeaderListing,
};
use crate::git_artifact::object::{
    decimal_digits, hex_oid, names_tree, object_oid, sha1, ObjectKind, ObjectModel, ObjectRecord,
};
use crate::git_artifact::pack::{
    big_endian, chunk_verdict, entry_base, entry_model, inflated, inflated_entry,
    inflated_entry_charge, inflation, next_entries, next_entries_charge, next_entry,
    next_entry_charge, next_input, pack_charge, pack_entries, pack_entry_count, BaseModel,
    DeltaBase, DeltaModel, EntryModel, InflateStatus, Inflation, PackEntry, PackProgress,
    StreamProgress, INFLATION_CHUNK_BYTES,
};
use crate::git_artifact::resolve::{
    base_object, bundle_charge, bundle_verdict, delta_count, head_verdict,
    lemma_delta_count_update, object_entries, resolve_all, resolve_all_charge, resolve_entry,
    resolve_entry_charge, resolve_pass, resolve_pass_charge, Resolution,
};
use crate::git_artifact::varint::{entry_header, known_entry_kind, offset_distance, varint};
use crate::git_artifact::{
    GitArtifactFailure, MAXIMUM_BUNDLE_HEADER_BYTES, MAXIMUM_DELTA_DEPTH,
    MAXIMUM_INFLATED_GIT_BYTES, MAXIMUM_PACK_ENTRIES, PACK_CHECKSUM_BYTES,
};

verus! {

/// The digits of a size are those of the number: they make it again, and start with a zero
/// only for zero itself.
pub proof fn law_sizes_are_written_in_decimal(value: nat)
    ensures
        ascii_digits(decimal_digits(value)),
        decimal_digits(value).len() > 0,
        digits_value(digit_values(decimal_digits(value))) == value,
        value > 0 ==> decimal_digits(value)[0] != '0' as u8,
    decreases value,
{
    let digits = decimal_digits(value);
    let values = digit_values(digits);
    assert(values.len() == digits.len());
    if value < 10 {
        assert(values.drop_last() =~= Seq::<u8>::empty());
        assert(digits_value(Seq::<u8>::empty()) == 0);
        assert(values.last() == value);
    } else {
        let above = decimal_digits(value / 10);
        law_sizes_are_written_in_decimal(value / 10);
        assert(digits.drop_last() =~= above);
        assert(values.drop_last() =~= digit_values(above));
        assert(values.last() == value % 10);
        assert forall|i: int| 0 <= i < digits.len() implies crate::decimal::ascii_digit(
            #[trigger] digits[i],
        ) by {
            if i < above.len() {
                assert(digits[i] == above[i]);
                assert(crate::decimal::ascii_digit(above[i]));
            }
        }
        assert(digits[0] == above[0]);
    }
}

/// The types of pack entries that hold an object, and no others, hold one of these kinds.
pub proof fn law_entry_types_name_their_kind(kind: u8)
    ensures
        ObjectKind::of_pack_type(kind) == Some(ObjectKind::Commit) <==> kind == 1,
        ObjectKind::of_pack_type(kind) == Some(ObjectKind::Tree) <==> kind == 2,
        ObjectKind::of_pack_type(kind) == Some(ObjectKind::Blob) <==> kind == 3,
        ObjectKind::of_pack_type(kind) == Some(ObjectKind::Tag) <==> kind == 4,
        known_entry_kind(kind) <==> kind == 1 || kind == 2 || kind == 3 || kind == 4 || kind == 6
            || kind == 7,
{
}

/// An object is identified by the SHA-1 digest of the name of its kind, a space, its size in
/// decimal, a zero byte and its content.
pub proof fn law_objects_are_identified_by_kind_size_and_content(content: Seq<u8>)
    ensures
        ({
            let tail = " ".spec_bytes() + decimal_digits(content.len()) + seq![0u8] + content;
            &&& object_oid(ObjectKind::Commit, content) == sha1("commit".spec_bytes() + tail)
            &&& object_oid(ObjectKind::Tree, content) == sha1("tree".spec_bytes() + tail)
            &&& object_oid(ObjectKind::Blob, content) == sha1("blob".spec_bytes() + tail)
            &&& object_oid(ObjectKind::Tag, content) == sha1("tag".spec_bytes() + tail)
        }),
{
    let space = " ".spec_bytes();
    let size = decimal_digits(content.len());
    let end = seq![0u8];
    let tail = space + size + end + content;
    assert("commit".spec_bytes() + space + size + end + content =~= "commit".spec_bytes() + tail);
    assert("tree".spec_bytes() + space + size + end + content =~= "tree".spec_bytes() + tail);
    assert("blob".spec_bytes() + space + size + end + content =~= "blob".spec_bytes() + tail);
    assert("tag".spec_bytes() + space + size + end + content =~= "tag".spec_bytes() + tail);
}

/// The lowercase hexadecimal digit of a number below sixteen.
pub open spec fn hex_digit(value: int) -> u8 {
    if value < 10 {
        (48 + value) as u8
    } else {
        (87 + value) as u8
    }
}

/// An identifier in hexadecimal: for each byte its high digit, then its low one.
pub open spec fn hex_text(oid: Seq<u8>) -> Seq<u8> {
    Seq::new(
        2 * oid.len(),
        |i: int|
            if i % 2 == 0 {
                hex_digit(oid[i / 2] as int / 16)
            } else {
                hex_digit(oid[i / 2] as int % 16)
            },
    )
}

/// An identifier reads back from its hexadecimal digits.
pub proof fn law_hexadecimal_identifiers_read_back(oid: Seq<u8>)
    requires
        oid.len() == 20,
    ensures
        hex_oid(hex_text(oid)) == Some(oid),
{
    let text = hex_text(oid);
    assert forall|i: int| 0 <= i < text.len() implies lowercase_hex_digit(#[trigger] text[i]) by {
        assert(0 <= oid[i / 2] as int / 16 < 16);
    }
    assert(lowercase_hex(text, 40));
    let read = hex_oid(text)->Some_0;
    assert forall|i: int| 0 <= i < 20 implies #[trigger] read[i] == oid[i] by {
        assert((2 * i) / 2 == i && (2 * i) % 2 == 0);
        assert((2 * i + 1) / 2 == i && (2 * i + 1) % 2 == 1);
        assert(text[2 * i] == hex_digit(oid[i] as int / 16));
        assert(text[2 * i + 1] == hex_digit(oid[i] as int % 16));
        assert(hex_digit_value(text[2 * i]) == oid[i] as int / 16);
        assert(hex_digit_value(text[2 * i + 1]) == oid[i] as int % 16);
    }
    assert(read =~= oid);
}

/// Only forty lowercase hexadecimal digits are an identifier.
pub proof fn law_identifiers_have_forty_digits(text: Seq<u8>)
    ensures
        hex_oid(text) is Some <==> text.len() == 40 && forall|i: int|
            0 <= i < text.len() ==> 48 <= #[trigger] text[i] <= 57 || 97 <= text[i] <= 102,
        hex_oid(text) matches Some(oid) ==> oid.len() == 20,
{
    if hex_oid(text) is Some {
        assert forall|i: int| 0 <= i < text.len() implies 48 <= #[trigger] text[i] <= 57 || 97
            <= text[i] <= 102 by {
            assert(lowercase_hex_digit(text[i]));
        }
    }
}

proof fn lemma_newline_at(bytes: Seq<u8>, from: int, until: int, place: int)
    requires
        0 <= from <= place < until,
        bytes[place] == '\n' as u8,
        forall|i: int| from <= i < place ==> #[trigger] bytes[i] != '\n' as u8,
    ensures
        first_newline(bytes, from, until) == Some(place),
{
    lemma_first_newline(bytes, from, until);
}

/// A commit names the tree of its first line, and no other; nothing but a commit names one.
pub proof fn law_commits_name_the_tree_of_their_first_line(
    object: ObjectModel,
    tree: Seq<u8>,
    rest: Seq<u8>,
    expected: Seq<u8>,
)
    requires
        object.content == "tree ".spec_bytes() + tree + seq!['\n' as u8] + rest,
        tree.len() <= 122,
        forall|i: int| 0 <= i < tree.len() ==> #[trigger] tree[i] != '\n' as u8,
    ensures
        names_tree(object, expected) <==> object.kind == ObjectKind::Commit && expected == tree,
{
    let mark = "tree ".spec_bytes();
    reveal_strlit("tree ");
    is_ascii_spec_bytes("tree ");
    assert(is_ascii("tree "));
    assert(mark.len() == 5);
    let line = mark + tree;
    let place = line.len() as int;
    assert forall|i: int| 0 <= i < place implies #[trigger] object.content[i] != '\n' as u8 by {
        if i >= 5 {
            assert(object.content[i] == tree[i - 5]);
        } else {
            assert(object.content[i] == mark[i]);
        }
    }
    let window = if object.content.len() < 128 {
        object.content.len() as int
    } else {
        128
    };
    lemma_newline_at(object.content, 0, window, place);
    assert(object.content.take(place) =~= line);
    if mark + expected == line {
        assert((mark + expected).skip(5) =~= expected);
        assert(line.skip(5) =~= tree);
    }
}

proof fn lemma_reference()
    ensures
        reference_name("refs/scherzo/head".spec_bytes()),
        "refs/scherzo/head".spec_bytes().len() == 17,
        forall|i: int|
            0 <= i < 17 ==> #[trigger] "refs/scherzo/head".spec_bytes()[i] != '\n' as u8,
{
    let name = "refs/scherzo/head".spec_bytes();
    reveal_strlit("refs/scherzo/head");
    is_ascii_spec_bytes("refs/scherzo/head");
    assert(is_ascii("refs/scherzo/head"));
    reveal_strlit("@");
    is_ascii_spec_bytes("@");
    assert(is_ascii("@"));
    reveal_strlit(".lock");
    is_ascii_spec_bytes(".lock");
    assert(is_ascii(".lock"));
    assert("@".spec_bytes().len() == 1);
    assert(".lock".spec_bytes().len() == 5);
    assert(".lock".spec_bytes()[4] == 'k' as u8);
    assert(name[4] == '/' as u8 && name[12] == '/' as u8 && name[11] == 'o' as u8);
    assert forall|start: int, end: int| #[trigger]
        component(name, start, end) implies valid_component(name.subrange(start, end)) by {
        let part = name.subrange(start, end);
        assert(start == 0 || start == 5 || start == 13);
        if start == 0 {
            assert(end <= 4);
            assert(end == 4);
        } else if start == 5 {
            assert(end <= 12);
            assert(end == 12);
            if ends_with(part, ".lock".spec_bytes()) {
                assert(part.skip(part.len() - 5)[4] == part[6]);
                assert(part[6] == name[11]);
            }
        } else {
            assert(end == 17);
        }
        assert(part[0] == name[start]);
    }
}

/// A header that lists one prerequisite and one reference to `refs/scherzo/head`, whatever
/// the comment on the prerequisite, is accepted exactly if they are the expected ones; the
/// pack starts behind its blank line. Otherwise it is of another profile.
pub proof fn law_headers_of_the_profile_are_accepted(
    base: Seq<u8>,
    comment: Seq<u8>,
    head: Seq<u8>,
    rest: Seq<u8>,
    base_oid: Seq<u8>,
    head_oid: Seq<u8>,
)
    requires
        lowercase_hex(base, 40),
        lowercase_hex(head, 40),
        forall|i: int| 0 <= i < comment.len() ==> #[trigger] comment[i] != '\n' as u8,
        comment.len() + 119 <= MAXIMUM_BUNDLE_HEADER_BYTES,
    ensures
        ({
            let newline = seq!['\n' as u8];
            let space = seq![' ' as u8];
            let bytes = "# v2 git bundle\n".spec_bytes() + (seq!['-' as u8] + base + space
                + comment + newline) + (head + space + "refs/scherzo/head".spec_bytes() + newline)
                + newline + rest;
            bundle_body_offset(bytes, base_oid, head_oid) == (if base == base_oid && head
                == head_oid {
                Ok::<int, GitArtifactFailure>(119int + comment.len())
            } else {
                Err(GitArtifactFailure::Profile)
            })
        }),
{
    let newline = seq!['\n' as u8];
    let space = seq![' ' as u8];
    let signature = "# v2 git bundle\n".spec_bytes();
    let name = "refs/scherzo/head".spec_bytes();
    reveal_strlit("# v2 git bundle\n");
    is_ascii_spec_bytes("# v2 git bundle\n");
    assert(is_ascii("# v2 git bundle\n"));
    lemma_reference();
    assert(signature.len() == 16);
    let prerequisite = seq!['-' as u8] + base + space + comment;
    let reference = head + space + name;
    let bytes = signature + (prerequisite + newline) + (reference + newline) + newline + rest;
    let first = 16int;
    let second = first + prerequisite.len() + 1;
    let third = second + reference.len() + 1;
    assert(bytes.take(first) =~= signature);
    assert forall|i: int| 0 <= i < 15 implies #[trigger] bytes[i] != '\n' as u8 by {
        assert(bytes[i] == signature[i]);
    }
    assert(bytes[15] == signature[15]);
    let until = if bytes.len() >= MAXIMUM_BUNDLE_HEADER_BYTES {
        MAXIMUM_BUNDLE_HEADER_BYTES as int
    } else {
        bytes.len() as int
    };
    lemma_newline_at(bytes, 0, until, 15);
    assert forall|i: int| first <= i < second - 1 implies #[trigger] bytes[i] != '\n' as u8 by {
        assert(bytes[i] == prerequisite[i - first]);
        if i - first >= 1 && i - first < 41 {
            assert(prerequisite[i - first] == base[i - first - 1]);
            assert(lowercase_hex_digit(base[i - first - 1]));
        } else if i - first >= 42 {
            assert(prerequisite[i - first] == comment[i - first - 42]);
        }
    }
    assert(bytes[second - 1] == '\n' as u8);
    lemma_newline_at(bytes, first, until, second - 1);
    assert forall|i: int| second <= i < third - 1 implies #[trigger] bytes[i] != '\n' as u8 by {
        assert(bytes[i] == reference[i - second]);
        if i - second < 40 {
            assert(reference[i - second] == head[i - second]);
            assert(lowercase_hex_digit(head[i - second]));
        } else if i - second > 40 {
            assert(reference[i - second] == name[i - second - 41]);
        }
    }
    assert(bytes[third - 1] == '\n' as u8);
    lemma_newline_at(bytes, second, until, third - 1);
    assert(bytes[third] == '\n' as u8);
    lemma_newline_at(bytes, third, until, third);
    assert(bytes.subrange(first, second - 1) =~= prerequisite);
    assert(bytes.subrange(second, third - 1) =~= reference);
    assert(prerequisite.skip(1).take(40) =~= base);
    assert(prerequisite.skip(1)[40] == ' ' as u8);
    assert(header_item(prerequisite) == Some(HeaderItem::Prerequisite(base)));
    assert(reference.take(40) =~= head);
    assert(reference.skip(41) =~= name);
    assert(lowercase_hex_digit(head[0]));
    assert(reference[0] == head[0]);
    assert(header_item(reference) == Some(HeaderItem::Reference(head, name)));
    let empty = HeaderListing::empty();
    let with_base = empty.with(HeaderItem::Prerequisite(base));
    let listed = with_base.with(HeaderItem::Reference(head, name));
    assert(header_listing(bytes, third, listed) == Ok::<(int, HeaderListing), GitArtifactFailure>(
        (third + 1, listed),
    ));
    assert(header_listing(bytes, second, with_base) == header_listing(bytes, third, listed));
    assert(header_listing(bytes, first, empty) == header_listing(bytes, second, with_base));
    assert(listed.prerequisites =~= seq![base]);
    assert(listed.references =~= seq![(head, name)]);
    if listed.prerequisites == seq![base_oid] {
        assert(listed.prerequisites[0] == base_oid);
    }
    if listed.references == seq![(head_oid, name)] {
        assert(listed.references[0] == (head_oid, name));
    }
}

/// A listing is that of an artifact only with one prerequisite, one reference and no
/// capability, and each item of a header counts.
pub proof fn law_every_header_item_counts(
    listing: HeaderListing,
    item: HeaderItem,
    base_oid: Seq<u8>,
    head_oid: Seq<u8>,
)
    requires
        listing.matches_profile(base_oid, head_oid),
    ensures
        listing.prerequisites.len() == 1 && listing.references.len() == 1 && !listing.capabilities,
        !listing.with(item).matches_profile(base_oid, head_oid),
{
    let longer = listing.with(item);
    if let HeaderItem::Prerequisite(_) = item {
        assert(longer.prerequisites.len() == 2);
    }
    if let HeaderItem::Reference(_, _) = item {
        assert(longer.references.len() == 2);
    }
}

/// A number of four bytes is read with the most significant byte first.
pub proof fn law_counts_are_big_endian(bytes: Seq<u8>, at: int)
    ensures
        big_endian(bytes, at) == ((bytes[at] as int * 256 + bytes[at + 1] as int) * 256
            + bytes[at + 2] as int) * 256 + bytes[at + 3] as int,
{
}

/// A pack is read exactly if it has room for its header and checksum, starts with `PACK`, is
/// of version 2 or 3 and announces from one to the largest number of entries. One that
/// announces more is refused for the limit, any other as malformed.
pub proof fn law_pack_headers_announce_their_entries(bytes: Seq<u8>, body_offset: int)
    ensures
        ({
            let long_enough = bytes.len() >= body_offset + 32;
            let version = big_endian(bytes, body_offset + 4);
            let count = big_endian(bytes, body_offset + 8);
            let named = bytes.subrange(body_offset, body_offset + 4) == "PACK".spec_bytes();
            let outcome = pack_entry_count(bytes, body_offset);
            &&& outcome == Ok::<int, GitArtifactFailure>(count) <==> long_enough && named && (
            version == 2 || version == 3) && count != 0 && count <= 1_000_000
            &&& outcome == Err::<int, GitArtifactFailure>(GitArtifactFailure::StructureLimit)
                <==> long_enough && count > 1_000_000
            &&& outcome is Ok || outcome == Err::<int, GitArtifactFailure>(
                GitArtifactFailure::StructureLimit,
            ) || outcome == Err::<int, GitArtifactFailure>(GitArtifactFailure::Pack)
        }),
{
}

/// A delta names its base by how far before it the base stands, which must be where an entry
/// was read, or by the identifier that stands behind its header. Objects name none.
pub proof fn law_deltas_name_their_base(
    bytes: Seq<u8>,
    end: int,
    entry_offset: int,
    kind: u8,
    position: int,
    offsets: Map<u64, usize>,
)
    ensures
        ({
            let outcome = entry_base(bytes, end, entry_offset, kind, position, offsets);
            &&& kind != 6 && kind != 7 ==> outcome == Ok::<
                (Option<BaseModel>, int),
                GitArtifactFailure,
            >((None, position))
            &&& kind == 7 && position + 20 <= end ==> outcome == Ok::<
                (Option<BaseModel>, int),
                GitArtifactFailure,
            >((Some(BaseModel::Oid(bytes.subrange(position, position + 20))), position + 20))
            &&& kind == 7 && position + 20 > end ==> outcome == Err::<
                (Option<BaseModel>, int),
                GitArtifactFailure,
            >(GitArtifactFailure::Pack)
            &&& kind == 6 ==> (offset_distance(bytes, end, position) matches Ok((distance, next))
                ==> outcome == (if distance <= entry_offset && offsets.contains_key(
                (entry_offset - distance) as u64,
            ) {
                Ok::<(Option<BaseModel>, int), GitArtifactFailure>(
                    (
                        Some(BaseModel::Entry(offsets[(entry_offset - distance) as u64] as int)),
                        next,
                    ),
                )
            } else {
                Err(GitArtifactFailure::Pack)
            }))
        }),
{
}

/// A read entry is an object of the kind and the content that the pack holds, on no delta, or
/// a delta with its base and program, one deeper than its base is known to be. Chains of more
/// than the allowed length are refused for the limit.
pub proof fn law_entries_hold_what_was_inflated(
    kind: u8,
    base: Option<BaseModel>,
    content: Seq<u8>,
    entries: Seq<EntryModel>,
)
    ensures
        entry_model(kind, base, content, entries) matches Ok(EntryModel::Object(object)) ==> base
            is None && ObjectKind::of_pack_type(kind) == Some(object.kind) && object.content
            == content && object.oid == object_oid(object.kind, content) && object.depth == 0,
        entry_model(kind, base, content, entries) matches Ok(EntryModel::Delta(delta)) ==> base
            == Some(delta.base) && delta.program == content,
        base is None && 1 <= kind <= 4 ==> entry_model(kind, base, content, entries) is Ok,
        entry_model(kind, base, content, entries) matches Ok(EntryModel::Delta(delta)) ==> (
        delta.base matches BaseModel::Entry(index) ==> delta.minimum_depth
            == entries[index].minimum_depth() + 1 && entries[index].minimum_depth() < 64),
        entry_model(kind, base, content, entries) matches Ok(EntryModel::Delta(delta)) ==> (
        delta.base is Oid ==> delta.minimum_depth == 1),
{
}

/// Each entry that is read is remembered under where it starts, behind the others, with what
/// it is charged; reading goes on behind its stream.
pub proof fn law_entries_are_remembered_by_offset(bytes: Seq<u8>, end: int, progress: PackProgress)
    ensures
        next_entry(bytes, end, progress) matches Ok(next) ==> {
            &&& next.entries.len() == progress.entries.len() + 1
            &&& forall|i: int|
                0 <= i < progress.entries.len() ==> #[trigger] next.entries[i]
                    == progress.entries[i]
            &&& next.offsets == progress.offsets.insert(
                progress.position as u64,
                progress.entries.len() as usize,
            )
        },
{
}

/// The checksum of a pack that was read is the SHA-1 digest of all that stands before it, and
/// its entries fill it.
pub proof fn law_read_packs_have_their_checksum(bytes: Seq<u8>, body_offset: int, used: int)
    ensures
        pack_entries(bytes, body_offset, used) is Ok ==> sha1(
            bytes.subrange(body_offset, bytes.len() - 20),
        ) == bytes.skip(bytes.len() - 20),
        pack_entries(bytes, body_offset, used) == Err::<(Seq<EntryModel>, int), GitArtifactFailure>(
            GitArtifactFailure::Checksum,
        ) ==> sha1(bytes.subrange(body_offset, bytes.len() - 20)) != bytes.skip(bytes.len() - 20)
            || pack_entry_count(bytes, body_offset) is Err || !pack_reads(bytes, body_offset, used),
{
}

/// Whether the entries of a pack can be read and fill it.
pub open spec fn pack_reads(bytes: Seq<u8>, body_offset: int, used: int) -> bool {
    pack_entry_count(bytes, body_offset) matches Ok(count) && (
    crate::git_artifact::pack::next_entries(
        bytes,
        bytes.len() - 20,
        PackProgress {
            entries: Seq::empty(),
            offsets: Map::empty(),
            position: body_offset + 12,
            used,
        },
        count as nat,
    ) matches Ok(progress) && progress.position == bytes.len() - 20)
}

/// A call of the decompressor is accepted exactly if it moves forward and its output fits the
/// entry and the budget; then what it produced is put behind the content and charged. Output
/// beyond the entry is malformed before it is over the limit, and neither is charged.
pub proof fn law_calls_are_charged_for_their_output(
    ended: bool,
    total_in: int,
    total_out: int,
    output: Seq<u8>,
    taken: int,
    content: Seq<u8>,
    expected: int,
    used: int,
)
    requires
        total_in >= taken,
        content.len() <= total_out <= content.len() + output.len(),
    ensures
        ({
            let (verdict, charged) = chunk_verdict(
                Some((ended, total_in, total_out, output)),
                taken,
                content,
                expected,
                used,
            );
            let moved = total_in > taken || total_out > content.len();
            let added = total_out - content.len();
            &&& !moved ==> verdict == Err::<(Seq<u8>, int, bool), GitArtifactFailure>(
                GitArtifactFailure::Pack,
            )
            &&& total_out > expected ==> verdict == Err::<(Seq<u8>, int, bool), GitArtifactFailure>(
                GitArtifactFailure::Pack,
            )
            &&& moved && total_out <= expected && used + added > MAXIMUM_INFLATED_GIT_BYTES
                ==> verdict == Err::<(Seq<u8>, int, bool), GitArtifactFailure>(
                GitArtifactFailure::StructureLimit,
            )
            &&& verdict is Err ==> charged == used
            &&& verdict is Ok <==> moved && total_out <= expected && used + added
                <= MAXIMUM_INFLATED_GIT_BYTES
            &&& verdict matches Ok((longer, consumed, over)) ==> charged == used + added && consumed
                == total_in - taken && over == ended && longer.len() == total_out && longer.take(
                content.len() as int,
            ) == content && longer.skip(content.len() as int) == output.take(added)
        }),
{
    let added = total_out - content.len();
    let longer = content + output.take(added);
    assert(longer.take(content.len() as int) =~= content);
    assert(longer.skip(content.len() as int) =~= output.take(added));
}

/// A delta is applied once its base is an object, to just that object: the result is of the
/// base's kind, one delta deeper, identified by its own content, and stands where the delta
/// stood. An entry whose base is not there stays as it is.
pub proof fn law_deltas_are_applied_to_their_base(resolution: Resolution, index: int, base: int)
    requires
        0 <= index < resolution.entries.len(),
        0 <= base < resolution.entries.len(),
        resolution.entries[index] matches EntryModel::Delta(delta) && (delta.base
            == BaseModel::Entry(base) || (delta.base matches BaseModel::Oid(oid)
            && resolution.objects.contains_key(oid) && resolution.objects[oid] == base)),
    ensures
        ({
            let program = resolution.entries[index]->Delta_0.program;
            let outcome = resolve_entry(resolution, index);
            match resolution.entries[base] {
                EntryModel::Delta(_) => outcome == Ok::<Resolution, GitArtifactFailure>(resolution),
                EntryModel::Object(object) => if object.depth >= 64 {
                    outcome == Err::<Resolution, GitArtifactFailure>(
                        GitArtifactFailure::StructureLimit,
                    )
                } else {
                    match delta_application(object.content, program, resolution.used) {
                        Err(failure) => outcome == Err::<Resolution, GitArtifactFailure>(failure),
                        Ok((content, charged)) => outcome matches Ok(next) && next.used == charged
                            && next.entries.len() == resolution.entries.len() && (
                        next.entries[index] matches EntryModel::Object(made) && made.kind
                            == object.kind && made.content == content && made.depth == object.depth
                            + 1 && made.oid == object_oid(object.kind, content)
                            && next.objects.contains_key(made.oid) && next.objects[made.oid]
                            == index) && forall|i: int|
                            0 <= i < next.entries.len() && i != index ==> #[trigger] next.entries[i]
                                == resolution.entries[i],
                    }
                },
            }
        }),
{
}

/// An object, and a delta whose base is nowhere in the pack, stay as they are.
pub proof fn law_objects_and_external_deltas_stay(resolution: Resolution, index: int)
    requires
        0 <= index < resolution.entries.len(),
        resolution.entries[index] is Object || (resolution.entries[index]
            matches EntryModel::Delta(delta) && (delta.base matches BaseModel::Oid(oid)
            && !resolution.objects.contains_key(oid))),
    ensures
        resolve_entry(resolution, index) == Ok::<Resolution, GitArtifactFailure>(resolution),
{
}

/// An indexed object is found under its identifier; of two with the same identifier the later
/// one.
pub proof fn law_objects_are_found_by_identifier(entries: Seq<EntryModel>, count: nat, index: int)
    requires
        count <= entries.len(),
        0 <= index < count,
        entries[index] is Object,
    ensures
        object_entries(entries, count).contains_key(entries[index]->Object_0.oid),
        object_entries(entries, count)[entries[index]->Object_0.oid] >= index,
    decreases count,
{
    if index < count - 1 {
        law_objects_are_found_by_identifier(entries, (count - 1) as nat, index);
    }
}

/// A resolved pack is accepted exactly if the expected head is an object in it, a commit of
/// the expected tree, and no delta is left. A wrong or missing head is told before a delta
/// that is left.
pub proof fn law_heads_are_judged_before_leftover_deltas(
    resolution: Resolution,
    head_oid: Seq<u8>,
    tree_oid: Seq<u8>,
)
    ensures
        ({
            let verdict = head_verdict(resolution, head_oid, tree_oid);
            let head = hex_oid(head_oid);
            let found = head is Some && resolution.objects.contains_key(head->Some_0) && (
            resolution.entries[resolution.objects[head->Some_0]] matches EntryModel::Object(object)
                && names_tree(object, tree_oid));
            let left = crate::git_artifact::resolve::delta_count(resolution.entries) > 0;
            &&& verdict == Ok::<int, GitArtifactFailure>(resolution.used) <==> found && !left
            &&& verdict == Err::<int, GitArtifactFailure>(GitArtifactFailure::Content) <==> !found
            &&& verdict == Err::<int, GitArtifactFailure>(GitArtifactFailure::Pack) <==> found
                && left
        }),
{
}

/// Whether deltas are left is whether an entry is still one.
pub proof fn law_leftover_deltas_are_counted(entries: Seq<EntryModel>, index: int)
    requires
        0 <= index < entries.len(),
    ensures
        entries[index] is Delta ==> crate::git_artifact::resolve::delta_count(entries) > 0,
        (forall|i: int| 0 <= i < entries.len() ==> #[trigger] entries[i] is Object)
            ==> crate::git_artifact::resolve::delta_count(entries) == 0,
{
    crate::git_artifact::resolve::lemma_delta_count_zero(entries);
}

/// Entries, objects and bases are modelled as just what they are.
pub proof fn law_entries_are_modelled_faithfully(
    entry: PackEntry,
    object: ObjectRecord,
    base: DeltaBase,
)
    ensures
        object@ == (ObjectModel {
            kind: object.kind,
            content: object.content@,
            oid: object.oid@,
            depth: object.depth as int,
        }),
        match entry {
            PackEntry::Object(object) => entry@ == EntryModel::Object(object@),
            PackEntry::Delta(delta) => entry@ == EntryModel::Delta(
                DeltaModel {
                    base: delta.base@,
                    program: delta.program@,
                    minimum_depth: delta.minimum_depth as int,
                },
            ),
        },
        match base {
            DeltaBase::Entry(index) => base@ == BaseModel::Entry(index as int),
            DeltaBase::Oid(oid) => base@ == BaseModel::Oid(oid@),
        },
{
}

/// A header line is an item exactly if it is one of these: a hyphen, an identifier, a space
/// and a comment; an at sign and a capability without control characters; or an identifier, a
/// space and a reference name.
pub proof fn law_header_lines_are_items(content: Seq<u8>)
    ensures
        header_item(content) matches Some(HeaderItem::Prerequisite(oid)) ==> lowercase_hex(oid, 40)
            && content.len() >= 42 && content[0] == 45 && content.subrange(1, 41) == oid
            && content[41] == 32,
        header_item(content) matches Some(HeaderItem::Capability) ==> content.len() >= 2
            && content[0] == 64 && forall|i: int|
            0 <= i < content.len() ==> 32 <= #[trigger] content[i] && content[i] != 127,
        header_item(content) matches Some(HeaderItem::Reference(oid, name)) ==> lowercase_hex(
            oid,
            40,
        ) && content.len() >= 42 && content.subrange(0, 40) == oid && content[40] == 32
            && content.skip(41) == name && reference_name(name),
        content.len() >= 42 && content[0] == 45 && content[41] == 32 && lowercase_hex(
            content.subrange(1, 41),
            40,
        ) ==> header_item(content) == Some(HeaderItem::Prerequisite(content.subrange(1, 41))),
        content.len() >= 2 && content[0] == 64 && (forall|i: int|
            0 <= i < content.len() ==> 32 <= #[trigger] content[i] && content[i] != 127)
            ==> header_item(content) == Some(HeaderItem::Capability),
        content.len() >= 42 && content[40] == 32 && lowercase_hex(content.subrange(0, 40), 40)
            && reference_name(content.skip(41)) ==> header_item(content) == Some(
            HeaderItem::Reference(content.subrange(0, 40), content.skip(41)),
        ),
        content.len() == 0 ==> header_item(content) is None,
{
    if content.len() >= 42 {
        assert(content.skip(1).take(40) =~= content.subrange(1, 41));
        assert(content.take(40) =~= content.subrange(0, 40));
        assert(content.skip(1)[40] == content[41]);
        if lowercase_hex(content.subrange(0, 40), 40) {
            assert(lowercase_hex_digit(content.subrange(0, 40)[0]));
        }
    }
    if content.len() >= 2 && content[0] == 64 {
        if header_item(content) is Some {
            assert forall|i: int| 0 <= i < content.len() implies 32 <= #[trigger] content[i]
                && content[i] != 127 by {
                assert(!crate::git_artifact::header::control_byte(content[i]));
            }
        } else if forall|i: int|
            0 <= i < content.len() ==> 32 <= #[trigger] content[i] && content[i] != 127 {
            assert forall|i: int| 0 <= i < content.len() implies
            !crate::git_artifact::header::control_byte(#[trigger] content[i]) by {}
        }
    }
}

/// A reference name holds no control characters, spaces or any of `~^:?*[\`, neither `..`,
/// `//` nor `@{`; it does not start or end with a slash or end with a point, is not `@`, and
/// none of its parts starts with a point or ends with `.lock`.
pub proof fn law_reference_names_follow_git(name: Seq<u8>, index: int, start: int, end: int)
    requires
        reference_name(name),
    ensures
        name.len() > 0 && name != "@".spec_bytes() && name[0] != 47 && name.last() != 47
            && name.last() != 46,
        0 <= index < name.len() ==> name[index] > 32 && name[index] != 127 && name[index] != 126
            && name[index] != 94 && name[index] != 58 && name[index] != 63 && name[index] != 42
            && name[index] != 91 && name[index] != 92,
        0 <= index < name.len() - 1 ==> !(name[index] == 46 && name[index + 1] == 46) && !(
        name[index] == 47 && name[index + 1] == 47) && !(name[index] == 64 && name[index + 1]
            == 123),
        0 <= start <= end <= name.len() && (start == 0 || name[start - 1] == 47) && (end
            == name.len() || name[end] == 47) && (forall|i: int|
            start <= i < end ==> #[trigger] name[i] != 47) ==> start < end && name[start] != 46
            && !(end - start >= 5 && name.subrange(end - 5, end) == ".lock".spec_bytes()),
{
    if 0 <= index < name.len() {
        assert(!crate::git_artifact::header::forbidden_reference_byte(name[index]));
    }
    if 0 <= index < name.len() - 1 {
        assert(!forbidden_pair(name, index));
    }
    if 0 <= start <= end <= name.len() && (start == 0 || name[start - 1] == 47) && (end
        == name.len() || name[end] == 47) && (forall|i: int|
        start <= i < end ==> #[trigger] name[i] != 47) {
        assert(component(name, start, end));
        let part = name.subrange(start, end);
        assert(valid_component(part));
        assert(part[0] == name[start]);
        reveal_strlit(".lock");
        is_ascii_spec_bytes(".lock");
        assert(is_ascii(".lock"));
        if end - start >= 5 {
            assert(part.skip(part.len() - 5) =~= name.subrange(end - 5, end));
        }
    }
}

/// Whatever holds none of these is a reference name.
pub proof fn law_plain_names_are_reference_names(name: Seq<u8>)
    requires
        name.len() > 0,
        name != "@".spec_bytes(),
        forall|i: int|
            0 <= i < name.len() ==> 97 <= #[trigger] name[i] <= 122 || 48 <= name[i] <= 57,
    ensures
        reference_name(name),
{
    assert forall|i: int| 0 <= i < name.len() - 1 implies !#[trigger] forbidden_pair(name, i) by {
        assert(97 <= name[i] <= 122 || 48 <= name[i] <= 57);
    }
    assert forall|i: int| 0 <= i < name.len() implies
    !crate::git_artifact::header::forbidden_reference_byte(#[trigger] name[i]) by {}
    assert forall|start: int, end: int| #[trigger]
        component(name, start, end) implies valid_component(name.subrange(start, end)) by {
        assert(start == 0) by {
            if start > 0 {
                assert(97 <= name[start - 1] <= 122 || 48 <= name[start - 1] <= 57);
            }
        }
        assert(end == name.len()) by {
            if end < name.len() {
                assert(97 <= name[end] <= 122 || 48 <= name[end] <= 57);
            }
        }
        let part = name.subrange(start, end);
        assert(part =~= name);
        reveal_strlit(".lock");
        is_ascii_spec_bytes(".lock");
        assert(is_ascii(".lock"));
        assert(".lock".spec_bytes().len() == 5 && ".lock".spec_bytes()[0] == '.' as u8);
        if ends_with(part, ".lock".spec_bytes()) {
            assert(part.skip(part.len() - 5)[0] == part[part.len() - 5]);
            assert(97 <= name[name.len() - 5] <= 122 || 48 <= name[name.len() - 5] <= 57);
        }
    }
    assert(97 <= name[0] <= 122 || 48 <= name[0] <= 57);
    assert(97 <= name[name.len() - 1] <= 122 || 48 <= name[name.len() - 1] <= 57);
}

/// A header is refused as malformed if its first line is not the signature, if a line is no
/// item, or if it ends before its blank line; and for the limit if it goes beyond that.
pub proof fn law_malformed_headers_are_refused(
    bytes: Seq<u8>,
    total: int,
    listing: HeaderListing,
    base_oid: Seq<u8>,
    head_oid: Seq<u8>,
)
    ensures
        header_line_end(bytes, 0) matches Ok(end) ==> (bytes.take(end)
            != "# v2 git bundle\n".spec_bytes() ==> bundle_body_offset(bytes, base_oid, head_oid)
            == Err::<int, GitArtifactFailure>(GitArtifactFailure::Header)),
        header_line_end(bytes, total) matches Ok(end) ==> (end != total + 1 && header_item(
            bytes.subrange(total, end - 1),
        ) is None ==> header_listing(bytes, total, listing) == Err::<
            (int, HeaderListing),
            GitArtifactFailure,
        >(GitArtifactFailure::Header)),
        0 <= total < 1024 * 1024 && bytes.len() < 1024 * 1024 && (forall|i: int|
            total <= i < bytes.len() ==> #[trigger] bytes[i] != 10) ==> header_line_end(
            bytes,
            total,
        ) == Err::<int, GitArtifactFailure>(GitArtifactFailure::Header),
        0 <= total && bytes.len() >= 1024 * 1024 && (forall|i: int|
            total <= i < 1024 * 1024 ==> #[trigger] bytes[i] != 10) ==> header_line_end(
            bytes,
            total,
        ) == Err::<int, GitArtifactFailure>(GitArtifactFailure::StructureLimit),
{
    lemma_first_newline(bytes, total, bytes.len() as int);
    lemma_first_newline(bytes, total, MAXIMUM_BUNDLE_HEADER_BYTES as int);
}

/// A bundle is judged by its header, then by its pack, then by its objects: the first that is
/// refused decides, and what was charged until then stays charged.
pub proof fn law_bundles_are_judged_in_order(
    bytes: Seq<u8>,
    base_oid: Seq<u8>,
    head_oid: Seq<u8>,
    tree_oid: Seq<u8>,
    used: int,
)
    ensures
        ({
            let verdict = bundle_verdict(bytes, base_oid, head_oid, tree_oid, used);
            let charge = bundle_charge(bytes, base_oid, head_oid, used);
            match bundle_body_offset(bytes, base_oid, head_oid) {
                Err(failure) => verdict == Err::<int, GitArtifactFailure>(failure) && charge
                    == used,
                Ok(offset) => match pack_entries(bytes, offset, used) {
                    Err(failure) => verdict == Err::<int, GitArtifactFailure>(failure) && charge
                        == pack_charge(bytes, offset, used),
                    Ok((entries, charged)) => {
                        let start = Resolution {
                            entries,
                            objects: object_entries(entries, entries.len()),
                            used: charged,
                        };
                        &&& charge == resolve_all_charge(start)
                        &&& match resolve_all(start) {
                            Err(failure) => verdict == Err::<int, GitArtifactFailure>(failure),
                            Ok(resolution) => verdict == head_verdict(
                                resolution,
                                head_oid,
                                tree_oid,
                            ),
                        }
                    },
                },
            }
        }),
{
}

proof fn lemma_pass_keeps_or_counts(resolution: Resolution, index: int)
    requires
        0 <= index,
    ensures
        resolve_pass(resolution, index) matches Ok(next) ==> delta_count(next.entries)
            <= delta_count(resolution.entries) && (delta_count(next.entries) == delta_count(
            resolution.entries,
        ) ==> next == resolution && forall|i: int|
            index <= i < resolution.entries.len() ==> base_object(resolution, #[trigger] (i + 0))
                is None),
    decreases resolution.entries.len() - index,
{
    if index < resolution.entries.len() {
        if let Ok(next) = resolve_entry(resolution, index) {
            lemma_pass_keeps_or_counts(next, index + 1);
            if let Some(base) = base_object(resolution, index) {
                lemma_delta_count_update(resolution.entries, index, next.entries[index]);
                assert(next.entries =~= resolution.entries.update(index, next.entries[index]));
            } else {
                assert(next == resolution);
                if let Ok(last) = resolve_pass(resolution, index) {
                    if delta_count(last.entries) == delta_count(resolution.entries) {
                        assert forall|i: int| index <= i < resolution.entries.len() implies
                        base_object(resolution, #[trigger] (i + 0)) is None by {
                            if i > index {
                                assert(base_object(next, i + 0) is None);
                            }
                        }
                    }
                }
            }
        }
    }
}

/// Resolving goes on until no delta is left whose base is an object in the pack.
pub proof fn law_resolving_goes_on_to_the_end(resolution: Resolution, index: int)
    requires
        resolve_all(resolution) is Ok,
        0 <= index < resolve_all(resolution)->Ok_0.entries.len(),
    ensures
        base_object(resolve_all(resolution)->Ok_0, index) is None,
    decreases delta_count(resolution.entries),
{
    lemma_pass_keeps_or_counts(resolution, 0);
    let next = resolve_pass(resolution, 0)->Ok_0;
    if delta_count(next.entries) < delta_count(resolution.entries) {
        law_resolving_goes_on_to_the_end(next, index);
    } else {
        assert(base_object(resolution, index + 0) is None);
    }
}

/// A base at hand is the object that a delta names by its place or by its identifier.
pub proof fn law_bases_are_the_named_objects(resolution: Resolution, index: int)
    ensures
        base_object(resolution, index) matches Some(object) ==> (resolution.entries[index]
            matches EntryModel::Delta(delta) && (match delta.base {
            BaseModel::Entry(base) => resolution.entries[base] == EntryModel::Object(object),
            BaseModel::Oid(oid) => resolution.objects.contains_key(oid)
                && resolution.entries[resolution.objects[oid]] == EntryModel::Object(object),
        })),
        resolution.entries[index] matches EntryModel::Delta(delta) ==> (delta.base
            matches BaseModel::Entry(base) ==> (resolution.entries[base] is Object ==> base_object(
            resolution,
            index,
        ) is Some)),
{
}

/// A call is given what is left of the entries, at most 64 KiB of it, and room for as much.
pub proof fn law_calls_are_given_a_chunk(bytes: Seq<u8>, end: int, position: int)
    requires
        0 <= position <= end <= bytes.len(),
    ensures
        INFLATION_CHUNK_BYTES == 64 * 1024,
        end - position <= 65_536 ==> next_input(bytes, end, position) == bytes.subrange(
            position,
            end,
        ),
        end - position > 65_536 ==> next_input(bytes, end, position) == bytes.subrange(
            position,
            position + 65_536,
        ),
{
}

/// A stream is inflated call by call. Without input it is cut off; a call that is refused
/// decides; one that does not end the stream is followed by the next, behind what it took; and
/// at the end of the stream the content must be as long as the entry declares.
pub proof fn law_streams_are_inflated_call_by_call(
    bytes: Seq<u8>,
    end: int,
    start: int,
    expected: int,
    progress: StreamProgress,
)
    ensures
        ({
            let whole = inflation(bytes, end, start, expected, progress);
            let calls = progress.calls.push(
                (next_input(bytes, end, progress.position), 65_536int),
            );
            let (verdict, charged) = chunk_verdict(
                inflated(calls),
                progress.position - start,
                progress.content,
                expected,
                progress.used,
            );
            &&& progress.position >= end ==> whole == (
                Err::<(Seq<u8>, int), GitArtifactFailure>(GitArtifactFailure::Pack),
                progress.used,
            )
            &&& progress.position < end ==> match verdict {
                Err(failure) => whole == (
                    Err::<(Seq<u8>, int), GitArtifactFailure>(failure),
                    charged,
                ),
                Ok((content, consumed, ended)) => {
                    &&& ended && content.len() == expected ==> whole == (
                        Ok::<(Seq<u8>, int), GitArtifactFailure>(
                            (content, progress.position + consumed),
                        ),
                        charged,
                    )
                    &&& ended && content.len() != expected ==> whole == (
                        Err::<(Seq<u8>, int), GitArtifactFailure>(GitArtifactFailure::Pack),
                        charged,
                    )
                    &&& !ended ==> whole == inflation(
                        bytes,
                        end,
                        start,
                        expected,
                        StreamProgress {
                            calls,
                            position: progress.position + consumed,
                            content,
                            used: charged,
                        },
                    )
                },
            }
        }),
{
}

/// An entry is inflated from the start of its stream on a fresh one, unless it declares more
/// than the budget could ever hold.
pub proof fn law_entries_are_inflated_on_fresh_streams(
    bytes: Seq<u8>,
    end: int,
    position: int,
    expected: int,
    used: int,
)
    ensures
        ({
            let fresh = StreamProgress {
                calls: Seq::empty(),
                position,
                content: Seq::empty(),
                used,
            };
            let (outcome, charged) = inflation(bytes, end, position, expected, fresh);
            &&& expected > 4 * 1024 * 1024 * 1024 ==> inflated_entry(
                bytes,
                end,
                position,
                expected,
                used,
            ) == Err::<(Seq<u8>, int), GitArtifactFailure>(GitArtifactFailure::StructureLimit)
                && inflated_entry_charge(bytes, end, position, expected, used) == used
            &&& expected <= 4 * 1024 * 1024 * 1024 ==> inflated_entry(
                bytes,
                end,
                position,
                expected,
                used,
            ) == outcome && inflated_entry_charge(bytes, end, position, expected, used) == charged
        }),
{
}

/// What a call did is told by what it holds.
pub proof fn law_calls_are_modelled_faithfully(inflation: Inflation)
    ensures
        crate::git_artifact::pack::chunk_model(Some(inflation)) == Some(
            (
                inflation.status == InflateStatus::StreamEnd,
                inflation.total_in as int,
                inflation.total_out as int,
                inflation.output@,
            ),
        ),
        crate::git_artifact::pack::chunk_model(None) is None,
{
}

/// An entry is read part by part: its header, what it names as its base, its stream, and what
/// that holds. The first part that is refused decides, and only inflating is charged.
pub proof fn law_entries_are_read_part_by_part(bytes: Seq<u8>, end: int, progress: PackProgress)
    ensures
        ({
            let read = next_entry(bytes, end, progress);
            let charge = next_entry_charge(bytes, end, progress);
            match entry_header(bytes, end, progress.position) {
                Err(failure) => read == Err::<PackProgress, GitArtifactFailure>(failure) && charge
                    == progress.used,
                Ok((kind, size, behind)) => match entry_base(
                    bytes,
                    end,
                    progress.position,
                    kind,
                    behind,
                    progress.offsets,
                ) {
                    Err(failure) => read == Err::<PackProgress, GitArtifactFailure>(failure)
                        && charge == progress.used,
                    Ok((base, stream)) => {
                        &&& charge == inflated_entry_charge(
                            bytes,
                            end,
                            stream,
                            size,
                            progress.used,
                        )
                        &&& match inflated_entry(bytes, end, stream, size, progress.used) {
                            Err(failure) => read == Err::<PackProgress, GitArtifactFailure>(
                                failure,
                            ),
                            Ok((content, next)) => match entry_model(
                                kind,
                                base,
                                content,
                                progress.entries,
                            ) {
                                Err(failure) => read == Err::<PackProgress, GitArtifactFailure>(
                                    failure,
                                ),
                                Ok(entry) => read matches Ok(after) && after.position == next
                                    && after.used == progress.used + content.len()
                                    && after.entries == progress.entries.push(entry),
                            },
                        }
                    },
                },
            }
        }),
{
}

/// A pack is read entry by entry, as many as it announces, from behind its header up to its
/// checksum; what is left over is malformed, and a wrong checksum is told last.
pub proof fn law_packs_are_read_entry_by_entry(
    bytes: Seq<u8>,
    body_offset: int,
    used: int,
    progress: PackProgress,
    remaining: nat,
)
    ensures
        ({
            let end = bytes.len() - 20;
            let start = PackProgress {
                entries: Seq::empty(),
                offsets: Map::empty(),
                position: body_offset + 12,
                used,
            };
            let read = pack_entries(bytes, body_offset, used);
            match pack_entry_count(bytes, body_offset) {
                Err(failure) => read == Err::<(Seq<EntryModel>, int), GitArtifactFailure>(failure)
                    && pack_charge(bytes, body_offset, used) == used,
                Ok(count) => {
                    &&& pack_charge(bytes, body_offset, used) == next_entries_charge(
                        bytes,
                        end,
                        start,
                        count as nat,
                    )
                    &&& match next_entries(bytes, end, start, count as nat) {
                        Err(failure) => read == Err::<(Seq<EntryModel>, int), GitArtifactFailure>(
                            failure,
                        ),
                        Ok(last) => read == (if last.position != end {
                            Err::<(Seq<EntryModel>, int), GitArtifactFailure>(
                                GitArtifactFailure::Pack,
                            )
                        } else if sha1(bytes.subrange(body_offset, end)) != bytes.skip(end) {
                            Err(GitArtifactFailure::Checksum)
                        } else {
                            Ok((last.entries, last.used))
                        }),
                    }
                },
            }
        }),
        next_entries(bytes, bytes.len() - 20, progress, 0) == Ok::<
            PackProgress,
            GitArtifactFailure,
        >(progress),
        next_entries_charge(bytes, bytes.len() - 20, progress, 0) == progress.used,
        next_entry(bytes, bytes.len() - 20, progress) matches Ok(next) ==> next_entries(
            bytes,
            bytes.len() - 20,
            progress,
            remaining + 1,
        ) == next_entries(bytes, bytes.len() - 20, next, remaining) && next_entries_charge(
            bytes,
            bytes.len() - 20,
            progress,
            remaining + 1,
        ) == next_entries_charge(bytes, bytes.len() - 20, next, remaining),
        next_entry(bytes, bytes.len() - 20, progress) matches Err(failure) ==> next_entries(
            bytes,
            bytes.len() - 20,
            progress,
            remaining + 1,
        ) == Err::<PackProgress, GitArtifactFailure>(failure) && next_entries_charge(
            bytes,
            bytes.len() - 20,
            progress,
            remaining + 1,
        ) == next_entry_charge(bytes, bytes.len() - 20, progress),
{
}

/// Resolving is charged for each delta that is applied, also for the one that breaks.
pub proof fn law_resolving_is_charged_delta_by_delta(resolution: Resolution, index: int)
    requires
        0 <= index < resolution.entries.len(),
    ensures
        base_object(resolution, index) is None ==> resolve_entry_charge(resolution, index)
            == resolution.used,
        base_object(resolution, index) matches Some(base) ==> (base.depth >= 64
            ==> resolve_entry_charge(resolution, index) == resolution.used),
        base_object(resolution, index) matches Some(base) ==> (base.depth < 64
            ==> resolve_entry_charge(resolution, index) == delta_charge(
            base.content,
            resolution.entries[index]->Delta_0.program,
            resolution.used,
        )),
        resolve_entry(resolution, index) matches Ok(next) ==> resolve_pass(resolution, index)
            == resolve_pass(next, index + 1) && resolve_pass_charge(resolution, index)
            == resolve_pass_charge(next, index + 1),
        resolve_entry(resolution, index) matches Err(failure) ==> resolve_pass(resolution, index)
            == Err::<Resolution, GitArtifactFailure>(failure) && resolve_pass_charge(
            resolution,
            index,
        ) == resolve_entry_charge(resolution, index),
        resolve_pass(resolution, resolution.entries.len() as int) == Ok::<
            Resolution,
            GitArtifactFailure,
        >(resolution),
        resolve_pass_charge(resolution, resolution.entries.len() as int) == resolution.used,
        resolve_pass(resolution, 0) is Err ==> resolve_all_charge(resolution)
            == resolve_pass_charge(resolution, 0),
{
}

/// A delta is charged with the size that it declares once its base fits and the budget allows
/// it, whether or not it then applies; otherwise with nothing.
pub proof fn law_deltas_are_charged_with_their_declared_size(
    base: Seq<u8>,
    base_size: nat,
    result_size: nat,
    rest: Seq<u8>,
    used: int,
)
    requires
        base_size <= u64::MAX,
        result_size <= u64::MAX,
    ensures
        delta_charge(base, varint_bytes(base_size) + varint_bytes(result_size) + rest, used) == (if
            base_size == base.len() && used + result_size <= 4 * 1024 * 1024 * 1024 {
            used + result_size
        } else {
            used
        }),
{
    let first = varint_bytes(base_size);
    let second = varint_bytes(result_size);
    let program = first + second + rest;
    let start = (first.len() + second.len()) as int;
    assert(program.subrange(0, first.len() as int) =~= first);
    law_varint_reads_back(program, 0, base_size);
    assert(program.subrange(first.len() as int, start) =~= second);
    law_varint_reads_back(program, first.len() as int, result_size);
}

/// Entries of unknown kinds are malformed, and so is one that is not there.
pub proof fn law_unknown_entries_are_refused(bytes: Seq<u8>, end: int, position: int)
    ensures
        position >= end ==> entry_header(bytes, end, position) == Err::<
            (u8, int, int),
            GitArtifactFailure,
        >(GitArtifactFailure::Pack),
        position < end && bytes[position] < 128 && (bytes[position] / 16 == 0 || bytes[position]
            / 16 == 5) ==> entry_header(bytes, end, position) == Err::<
            (u8, int, int),
            GitArtifactFailure,
        >(GitArtifactFailure::Pack),
        entry_header(bytes, end, position) matches Ok((kind, _, _)) ==> kind == (bytes[position]
            / 16) % 8 && kind != 0 && kind != 5,
{
}

/// A number that goes on where there are no more bytes is malformed; one that goes on for more
/// than 64 bits is over the limit.
pub proof fn law_endless_numbers_are_refused(
    bytes: Seq<u8>,
    end: int,
    position: int,
    value: int,
    shift: int,
)
    requires
        0 <= position <= end <= bytes.len(),
        0 <= value,
        0 <= shift,
        forall|i: int| position <= i < end ==> #[trigger] bytes[i] >= 128,
    ensures
        varint(bytes, end, position, value, shift) is Err,
        varint(bytes, end, position, value, shift) == Err::<(int, int), GitArtifactFailure>(
            GitArtifactFailure::Pack,
        ) ==> shift + 7 * (end - position) < 64,
        shift + 7 * (end - position) >= 64 ==> varint(bytes, end, position, value, shift) == Err::<
            (int, int),
            GitArtifactFailure,
        >(GitArtifactFailure::StructureLimit),
        shift >= 64 ==> varint(bytes, end, position, value, shift) == Err::<
            (int, int),
            GitArtifactFailure,
        >(GitArtifactFailure::StructureLimit),
        shift < 64 && position == end ==> varint(bytes, end, position, value, shift) == Err::<
            (int, int),
            GitArtifactFailure,
        >(GitArtifactFailure::Pack),
    decreases end - position,
{
    if shift < 64 && position < end {
        let byte = bytes[position];
        let next = value + (byte % 128) * pow2(shift as nat);
        assert(next >= 0) by (nonlinear_arith)
            requires
                value >= 0,
                next == value + (byte % 128) * pow2(shift as nat),
        ;
        if next <= u64::MAX {
            law_endless_numbers_are_refused(bytes, end, position + 1, next, shift + 7);
        }
    }
}

/// The limits are these.
pub proof fn law_limits()
    ensures
        MAXIMUM_BUNDLE_HEADER_BYTES == 1024 * 1024,
        MAXIMUM_PACK_ENTRIES == 1_000_000,
        MAXIMUM_INFLATED_GIT_BYTES == 4 * 1024 * 1024 * 1024,
        MAXIMUM_DELTA_DEPTH == 64,
        PACK_CHECKSUM_BYTES == 20,
{
}

/// Numbers are written in groups of seven bits, the lowest group first; every byte but the last
/// has its high bit set.
pub proof fn law_numbers_are_groups_of_seven_bits(bytes: Seq<u8>, end: int, position: int)
    requires
        position + 3 <= end,
    ensures
        bytes[position] < 128 ==> varint(bytes, end, position, 0, 0) == Ok::<
            (int, int),
            GitArtifactFailure,
        >((bytes[position] as int, position + 1)),
        bytes[position] >= 128 && bytes[position + 1] < 128 ==> varint(bytes, end, position, 0, 0)
            == Ok::<(int, int), GitArtifactFailure>(
            (bytes[position] - 128 + 128 * bytes[position + 1], position + 2),
        ),
        bytes[position] >= 128 && bytes[position + 1] >= 128 && bytes[position + 2] < 128
            ==> varint(bytes, end, position, 0, 0) == Ok::<(int, int), GitArtifactFailure>(
            (
                bytes[position] - 128 + 128 * (bytes[position + 1] - 128) + 16_384 * bytes[position
                    + 2],
                position + 3,
            ),
        ),
{
    lemma2_to64();
    let first = bytes[position] as int;
    let second = bytes[position + 1] as int;
    let third = bytes[position + 2] as int;
    assert((first % 128) * pow2(0) == (first % 128) * 1) by (nonlinear_arith)
        requires
            pow2(0) == 1,
    ;
    assert((second % 128) * pow2(7) == (second % 128) * 128) by (nonlinear_arith)
        requires
            pow2(7) == 128,
    ;
    assert((third % 128) * pow2(14) == (third % 128) * 16_384) by (nonlinear_arith)
        requires
            pow2(14) == 16_384,
    ;
    reveal_with_fuel(varint, 4);
}

/// The distance to a base is written in groups of seven bits, the highest group first, and each
/// further byte counts one more of the groups before it.
pub proof fn law_distances_are_groups_of_seven_bits(bytes: Seq<u8>, end: int, position: int)
    requires
        position + 3 <= end,
    ensures
        0 < bytes[position] < 128 ==> offset_distance(bytes, end, position) == Ok::<
            (int, int),
            GitArtifactFailure,
        >((bytes[position] as int, position + 1)),
        bytes[position] == 0 ==> offset_distance(bytes, end, position) == Err::<
            (int, int),
            GitArtifactFailure,
        >(GitArtifactFailure::Pack),
        bytes[position] >= 128 && bytes[position + 1] < 128 ==> offset_distance(
            bytes,
            end,
            position,
        ) == Ok::<(int, int), GitArtifactFailure>(
            (128 * (bytes[position] - 127) + bytes[position + 1], position + 2),
        ),
        bytes[position] >= 128 && bytes[position + 1] >= 128 && bytes[position + 2] < 128
            ==> offset_distance(bytes, end, position) == Ok::<(int, int), GitArtifactFailure>(
            (
                128 * (128 * (bytes[position] - 127) + (bytes[position + 1] - 127)) + bytes[position
                    + 2],
                position + 3,
            ),
        ),
{
    reveal_with_fuel(crate::git_artifact::varint::offset_distance_tail, 3);
}

/// An entry starts with its kind and the low four bits of its size; the rest of the size stands
/// behind in groups of seven bits.
pub proof fn law_entries_start_with_kind_and_size(bytes: Seq<u8>, end: int, position: int)
    requires
        position + 2 <= end,
        known_entry_kind(((bytes[position] / 16) % 8) as u8),
    ensures
        bytes[position] < 128 ==> entry_header(bytes, end, position) == Ok::<
            (u8, int, int),
            GitArtifactFailure,
        >((((bytes[position] / 16) % 8) as u8, bytes[position] as int % 16, position + 1)),
        bytes[position] >= 128 && bytes[position + 1] < 128 ==> entry_header(bytes, end, position)
            == Ok::<(u8, int, int), GitArtifactFailure>(
            (
                ((bytes[position] / 16) % 8) as u8,
                bytes[position] as int % 16 + 16 * bytes[position + 1],
                position + 2,
            ),
        ),
{
    lemma2_to64();
    let second = bytes[position + 1] as int;
    assert((second % 128) * pow2(4) == (second % 128) * 16) by (nonlinear_arith)
        requires
            pow2(4) == 16,
    ;
    reveal_with_fuel(varint, 3);
}

} // verus!
