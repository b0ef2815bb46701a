//! The textual header of a version 2 Git bundle.

use vstd::prelude::*;
use vstd::string::StringSliceAdditionalSpecFns;

use crate::bytes::{bytes_equal, is_lowercase_hex_bytes, lowercase_hex};
use crate::git_artifact::{
    GitArtifactDescriptor, GitArtifactFailure, MAXIMUM_BUNDLE_HEADER_BYTES,
};

verus! {

/// The position of the first line feed in `bytes[from..until]`.
pub open spec fn first_newline(bytes: Seq<u8>, from: int, until: int) -> Option<int>
    decreases until - from,
{
    if from >= until {
        None
    } else if bytes[from] == '\n' as u8 {
        Some(from)
    } else {
        first_newline(bytes, from + 1, until)
    }
}

/// Where the header line that starts at `total` ends, its line feed included.
/// The whole header must end within the header limit.
pub open spec fn header_line_end(bytes: Seq<u8>, total: int) -> Result<int, GitArtifactFailure> {
    if total >= MAXIMUM_BUNDLE_HEADER_BYTES {
        Err(GitArtifactFailure::StructureLimit)
    } else if bytes.len() >= MAXIMUM_BUNDLE_HEADER_BYTES {
        match first_newline(bytes, total, MAXIMUM_BUNDLE_HEADER_BYTES as int) {
            Some(newline) => Ok(newline + 1),
            None => Err(GitArtifactFailure::StructureLimit),
        }
    } else {
        match first_newline(bytes, total, bytes.len() as int) {
            Some(newline) => Ok(newline + 1),
            None => Err(GitArtifactFailure::Header),
        }
    }
}

/// Whether an ASCII control character.
pub open spec fn control_byte(byte: u8) -> bool {
    byte < 0x20 || byte == 0x7f
}

/// Whether a reference name must not hold `byte`: controls, white space and
/// `~^:?*[\`.
pub open spec fn forbidden_reference_byte(byte: u8) -> bool {
    ||| control_byte(byte)
    ||| byte == ' ' as u8
    ||| byte == '~' as u8
    ||| byte == '^' as u8
    ||| byte == ':' as u8
    ||| byte == '?' as u8
    ||| byte == '*' as u8
    ||| byte == '[' as u8
    ||| byte == '\\' as u8
}

/// Whether `bytes[start..end]` is one of the parts that `/` splits `bytes` into.
pub open spec fn component(bytes: Seq<u8>, start: int, end: int) -> bool {
    &&& 0 <= start <= end <= bytes.len()
    &&& start == 0 || bytes[start - 1] == '/' as u8
    &&& end == bytes.len() || bytes[end] == '/' as u8
    &&& forall|i: int| start <= i < end ==> bytes[i] != '/' as u8
}

/// Whether `bytes` end with `suffix`.
pub open spec fn ends_with(bytes: Seq<u8>, suffix: Seq<u8>) -> bool {
    suffix.len() <= bytes.len() && bytes.skip(bytes.len() - suffix.len()) == suffix
}

/// Whether one part of a reference name is acceptable.
pub open spec fn valid_component(part: Seq<u8>) -> bool {
    part.len() > 0 && part[0] != '.' as u8 && !ends_with(part, ".lock".spec_bytes())
}

/// Whether `..`, `//` or `@{` stands at `index`.
pub open spec fn forbidden_pair(bytes: Seq<u8>, index: int) -> bool {
    ||| bytes[index] == '.' as u8 && bytes[index + 1] == '.' as u8
    ||| bytes[index] == '/' as u8 && bytes[index + 1] == '/' as u8
    ||| bytes[index] == '@' as u8 && bytes[index + 1] == '{' as u8
}

/// Whether `bytes` are an acceptable reference name.
pub open spec fn reference_name(bytes: Seq<u8>) -> bool {
    &&& bytes.len() > 0
    &&& bytes != "@".spec_bytes()
    &&& bytes.first() != '/' as u8
    &&& bytes.last() != '/' as u8
    &&& bytes.last() != '.' as u8
    &&& forall|i: int| 0 <= i < bytes.len() - 1 ==> !#[trigger] forbidden_pair(bytes, i)
    &&& forall|start: int, end: int| #[trigger]
        component(bytes, start, end) ==> valid_component(bytes.subrange(start, end))
    &&& forall|i: int| 0 <= i < bytes.len() ==> !forbidden_reference_byte(#[trigger] bytes[i])
}

/// What one header line between the signature and the blank line says.
pub enum HeaderItem {
    Prerequisite(Seq<u8>),
    Capability,
    Reference(Seq<u8>, Seq<u8>),
}

/// Reads one header line, its line feed taken off.
pub open spec fn header_item(content: Seq<u8>) -> Option<HeaderItem> {
    if content.len() > 0 && content[0] == '-' as u8 {
        let prerequisite = content.skip(1);
        if prerequisite.len() >= 41 && prerequisite[40] == ' ' as u8 && lowercase_hex(
            prerequisite.take(40),
            40,
        ) {
            Some(HeaderItem::Prerequisite(prerequisite.take(40)))
        } else {
            None
        }
    } else if content.len() > 0 && content[0] == '@' as u8 {
        if content.len() > 1 && (forall|i: int|
            0 <= i < content.len() ==> !control_byte(#[trigger] content[i])) {
            Some(HeaderItem::Capability)
        } else {
            None
        }
    } else if content.len() >= 42 && content[40] == ' ' as u8 && lowercase_hex(
        content.take(40),
        40,
    ) && reference_name(content.skip(41)) {
        Some(HeaderItem::Reference(content.take(40), content.skip(41)))
    } else {
        None
    }
}

/// What a header lists.
#[verifier::ext_equal]
pub struct HeaderListing {
    pub prerequisites: Seq<Seq<u8>>,
    pub references: Seq<(Seq<u8>, Seq<u8>)>,
    pub capabilities: bool,
}

impl HeaderListing {
    /// The listing with one more item.
    pub open spec fn with(self, item: HeaderItem) -> HeaderListing {
        match item {
            HeaderItem::Prerequisite(oid) => HeaderListing {
                prerequisites: self.prerequisites.push(oid),
                ..self
            },
            HeaderItem::Capability => HeaderListing { capabilities: true, ..self },
            HeaderItem::Reference(oid, name) => HeaderListing {
                references: self.references.push((oid, name)),
                ..self
            },
        }
    }

    /// The listing of no line at all.
    pub open spec fn empty() -> HeaderListing {
        HeaderListing {
            prerequisites: Seq::empty(),
            references: Seq::empty(),
            capabilities: false,
        }
    }

    /// Whether the listing is exactly that of an artifact: one prerequisite, one
    /// reference, and no capability.
    pub open spec fn matches_profile(self, base_oid: Seq<u8>, head_oid: Seq<u8>) -> bool {
        &&& !self.capabilities
        &&& self.prerequisites == seq![base_oid]
        &&& self.references == seq![(head_oid, "refs/scherzo/head".spec_bytes())]
    }
}

/// A line ends behind where it starts, within the bytes.
pub proof fn lemma_first_newline(bytes: Seq<u8>, from: int, until: int)
    ensures
        match first_newline(bytes, from, until) {
            Some(newline) => from <= newline < until && bytes[newline] == '\n' as u8 && forall|
                i: int,
            |
                from <= i < newline ==> bytes[i] != '\n' as u8,
            None => forall|i: int| from <= i < until ==> bytes[i] != '\n' as u8,
        },
    decreases until - from,
{
    if from < until && bytes[from] != '\n' as u8 {
        lemma_first_newline(bytes, from + 1, until);
    }
}

/// A header line ends behind where it starts, within the bytes.
pub proof fn lemma_header_line_end(bytes: Seq<u8>, total: int)
    ensures
        header_line_end(bytes, total) matches Ok(end) ==> total < end <= bytes.len() && end
            <= MAXIMUM_BUNDLE_HEADER_BYTES && bytes[end - 1] == '\n' as u8,
{
    lemma_first_newline(bytes, total, MAXIMUM_BUNDLE_HEADER_BYTES as int);
    lemma_first_newline(bytes, total, bytes.len() as int);
}

/// Reads the header lines from `total` on up to the blank line: where the body
/// starts, and what the lines list beside `listing`.
pub open spec fn header_listing(bytes: Seq<u8>, total: int, listing: HeaderListing) -> Result<
    (int, HeaderListing),
    GitArtifactFailure,
>
    decreases bytes.len() - total,
{
    match header_line_end(bytes, total) {
        Err(failure) => Err(failure),
        Ok(end) => {
            proof {
                lemma_header_line_end(bytes, total);
            }
            if end == total + 1 {
                Ok((end, listing))
            } else {
                match header_item(bytes.subrange(total, end - 1)) {
                    None => Err(GitArtifactFailure::Header),
                    Some(item) => header_listing(bytes, end, listing.with(item)),
                }
            }
        },
    }
}

/// Where the pack of a bundle with an acceptable header starts.
pub open spec fn bundle_body_offset(bytes: Seq<u8>, base_oid: Seq<u8>, head_oid: Seq<u8>) -> Result<
    int,
    GitArtifactFailure,
> {
    match header_line_end(bytes, 0) {
        Err(failure) => Err(failure),
        Ok(end) => if bytes.take(end) != "# v2 git bundle\n".spec_bytes() {
            Err(GitArtifactFailure::Header)
        } else {
            match header_listing(bytes, end, HeaderListing::empty()) {
                Err(failure) => Err(failure),
                Ok((body, listing)) => if listing.matches_profile(base_oid, head_oid) {
                    Ok(body)
                } else {
                    Err(GitArtifactFailure::Profile)
                },
            }
        },
    }
}

/// Finds the first line feed in `bytes[from..until]`.
pub fn find_newline(bytes: &[u8], from: usize, until: usize) -> (found: Option<usize>)
    requires
        until <= bytes@.len(),
    ensures
        match first_newline(bytes@, from as int, until as int) {
            Some(newline) => found == Some(newline as usize) && from <= newline < until,
            None => found is None,
        },
{
    let mut index: usize = from;
    while index < until
        invariant
            from <= index,
            until <= bytes@.len(),
            first_newline(bytes@, from as int, until as int) == first_newline(
                bytes@,
                index as int,
                until as int,
            ),
        decreases until - index,
    {
        if bytes[index] == '\n' as u8 {
            return Some(index);
        }
        index = index + 1;
    }
    None
}

/// Takes the header line that starts at `total`, its line feed included.
pub fn read_header_line<'a>(bytes: &'a [u8], total: &mut usize) -> (line: Result<
    &'a [u8],
    GitArtifactFailure,
>)
    requires
        *old(total) <= bytes@.len(),
    ensures
        *final(total) <= bytes@.len(),
        match header_line_end(bytes@, *old(total) as int) {
            Ok(end) => line matches Ok(content) && *final(total) == end && content@
                == bytes@.subrange(*old(total) as int, end),
            Err(failure) => line matches Err(reported) && reported == failure && *final(total)
                == *old(total),
        },
{
    let start: usize = *total;
    if start >= MAXIMUM_BUNDLE_HEADER_BYTES {
        return Err(GitArtifactFailure::StructureLimit);
    }
    let exhausted: bool = bytes.len() >= MAXIMUM_BUNDLE_HEADER_BYTES;
    let until: usize = if exhausted {
        MAXIMUM_BUNDLE_HEADER_BYTES
    } else {
        bytes.len()
    };
    match find_newline(bytes, start, until) {
        Some(newline) => {
            proof {
                lemma_header_line_end(bytes@, start as int);
            }
            *total = newline + 1;
            Ok(&bytes[start..newline + 1])
        },
        None => if exhausted {
            Err(GitArtifactFailure::StructureLimit)
        } else {
            Err(GitArtifactFailure::Header)
        },
    }
}

/// Whether `bytes` are a full object identifier in lowercase hexadecimal.
pub fn valid_oid_bytes(bytes: &[u8]) -> (valid: bool)
    ensures
        valid == lowercase_hex(bytes@, 40),
{
    is_lowercase_hex_bytes(bytes, 40)
}

/// Whether `byte` is an ASCII control character.
fn is_control_byte(byte: u8) -> (control: bool)
    ensures
        control == control_byte(byte),
{
    byte < 0x20 || byte == 0x7f
}

/// Whether no reference name may hold `byte`.
fn is_forbidden_reference_byte(byte: u8) -> (forbidden: bool)
    ensures
        forbidden == forbidden_reference_byte(byte),
{
    is_control_byte(byte) || byte == ' ' as u8 || byte == '~' as u8 || byte == '^' as u8 || byte
        == ':' as u8 || byte == '?' as u8 || byte == '*' as u8 || byte == '[' as u8 || byte
        == '\\' as u8
}

/// Whether one part of a reference name is acceptable.
fn is_valid_component(part: &[u8]) -> (valid: bool)
    ensures
        valid == valid_component(part@),
{
    if part.len() == 0 || part[0] == '.' as u8 {
        return false;
    }
    let suffix: &[u8] = ".lock".as_bytes();
    if suffix.len() > part.len() {
        return true;
    }
    let tail: &[u8] = &part[part.len() - suffix.len()..part.len()];
    assert(tail@ =~= part@.skip(part@.len() - suffix@.len()));
    !bytes_equal(tail, suffix)
}

/// Whether every part that `/` splits `bytes` into is acceptable.
fn has_valid_components(bytes: &[u8]) -> (valid: bool)
    ensures
        valid == (forall|start: int, end: int| #[trigger]
            component(bytes@, start, end) ==> valid_component(bytes@.subrange(start, end))),
{
    let mut start: usize = 0;
    let mut index: usize = 0;
    loop
        invariant
            start <= index <= bytes@.len(),
            start == 0 || bytes@[start - 1] == '/' as u8,
            forall|i: int| start <= i < index ==> bytes@[i] != '/' as u8,
            forall|s: int, e: int| #[trigger]
                component(bytes@, s, e) && e < start ==> valid_component(bytes@.subrange(s, e)),
        decreases bytes@.len() - index,
    {
        let last: bool = index == bytes.len();
        if last || bytes[index] == '/' as u8 {
            assert(component(bytes@, start as int, index as int));
            let part: &[u8] = &bytes[start..index];
            if !is_valid_component(part) {
                return false;
            }
            assert forall|s: int, e: int| #[trigger]
                component(bytes@, s, e) && e <= index implies valid_component(
                bytes@.subrange(s, e),
            ) by {
                if e >= start {
                    assert(e == index);
                    assert(s <= start);
                    assert(s == start);
                }
            }
            if last {
                return true;
            }
            start = index + 1;
        }
        index = index + 1;
    }
}

/// Whether `bytes` are an acceptable reference name.
pub fn valid_refname(bytes: &[u8]) -> (valid: bool)
    ensures
        valid == reference_name(bytes@),
{
    let length: usize = bytes.len();
    if length == 0 || bytes_equal(bytes, "@".as_bytes()) {
        return false;
    }
    if bytes[0] == '/' as u8 || bytes[length - 1] == '/' as u8 || bytes[length - 1] == '.' as u8 {
        return false;
    }
    let mut index: usize = 0;
    while index < length
        invariant
            index <= length,
            length == bytes@.len(),
            forall|i: int|
                0 <= i < index && i < length - 1 ==> !#[trigger] forbidden_pair(bytes@, i),
            forall|i: int| 0 <= i < index ==> !forbidden_reference_byte(#[trigger] bytes@[i]),
        decreases length - index,
    {
        let byte: u8 = bytes[index];
        if is_forbidden_reference_byte(byte) {
            return false;
        }
        if index + 1 < length {
            let next: u8 = bytes[index + 1];
            if (byte == '.' as u8 && next == '.' as u8) || (byte == '/' as u8 && next == '/' as u8)
                || (byte == '@' as u8 && next == '{' as u8) {
                assert(forbidden_pair(bytes@, index as int));
                return false;
            }
        }
        index = index + 1;
    }
    has_valid_components(bytes)
}

/// What one header line says, as slices of the line.
enum HeaderLine<'a> {
    Prerequisite(&'a [u8]),
    Capability,
    Reference(&'a [u8], &'a [u8]),
}

impl<'a> View for HeaderLine<'a> {
    type V = HeaderItem;

    closed spec fn view(&self) -> HeaderItem {
        match self {
            HeaderLine::Prerequisite(oid) => HeaderItem::Prerequisite(oid@),
            HeaderLine::Capability => HeaderItem::Capability,
            HeaderLine::Reference(oid, name) => HeaderItem::Reference(oid@, name@),
        }
    }
}

/// Reads one header line, its line feed taken off.
fn parse_header_item(content: &[u8]) -> (item: Option<HeaderLine<'_>>)
    ensures
        match item {
            Some(line) => header_item(content@) == Some(line@),
            None => header_item(content@) is None,
        },
{
    let length: usize = content.len();
    if length > 0 && content[0] == '-' as u8 {
        let prerequisite: &[u8] = &content[1..length];
        assert(prerequisite@ =~= content@.skip(1));
        if length - 1 < 41 || prerequisite[40] != ' ' as u8 {
            return None;
        }
        let oid: &[u8] = &prerequisite[0..40];
        assert(oid@ =~= prerequisite@.take(40));
        if !valid_oid_bytes(oid) {
            return None;
        }
        return Some(HeaderLine::Prerequisite(oid));
    }
    if length > 0 && content[0] == '@' as u8 {
        if length == 1 {
            return None;
        }
        let mut index: usize = 0;
        while index < length
            invariant
                index <= length,
                1 < length == content@.len(),
                content@[0] == '@' as u8,
                forall|i: int| 0 <= i < index ==> !control_byte(#[trigger] content@[i]),
            ensures
                forall|i: int| 0 <= i < length ==> !control_byte(#[trigger] content@[i]),
            decreases length - index,
        {
            if is_control_byte(content[index]) {
                assert(control_byte(content@[index as int]));
                return None;
            }
            index = index + 1;
        }
        return Some(HeaderLine::Capability);
    }
    if length < 42 || content[40] != ' ' as u8 {
        return None;
    }
    let oid: &[u8] = &content[0..40];
    let name: &[u8] = &content[41..length];
    assert(oid@ =~= content@.take(40));
    assert(name@ =~= content@.skip(41));
    if !valid_oid_bytes(oid) || !valid_refname(name) {
        return None;
    }
    Some(HeaderLine::Reference(oid, name))
}

/// The bytes of each slice.
spec fn slice_bytes(slices: Seq<&[u8]>) -> Seq<Seq<u8>> {
    slices.map_values(|slice: &[u8]| slice@)
}

/// The bytes of each pair of slices.
spec fn pair_bytes(pairs: Seq<(&[u8], &[u8])>) -> Seq<(Seq<u8>, Seq<u8>)> {
    pairs.map_values(|pair: (&[u8], &[u8])| (pair.0@, pair.1@))
}

/// Checks the header of a bundle against the artifact that it should carry, and
/// says where the pack starts.
pub fn validate_bundle_header(bytes: &[u8], descriptor: GitArtifactDescriptor<'_>) -> (outcome:
    Result<u64, GitArtifactFailure>)
    ensures
        match bundle_body_offset(
            bytes@,
            descriptor.base_oid.spec_bytes(),
            descriptor.head_oid.spec_bytes(),
        ) {
            Ok(offset) => outcome == Ok::<u64, GitArtifactFailure>(offset as u64) && 0 <= offset
                <= bytes@.len() && offset <= MAXIMUM_BUNDLE_HEADER_BYTES,
            Err(failure) => outcome == Err::<u64, GitArtifactFailure>(failure),
        },
{
    let mut total: usize = 0;
    let signature: &[u8] = read_header_line(bytes, &mut total)?;
    assert(signature@ =~= bytes@.take(total as int));
    if !bytes_equal(signature, "# v2 git bundle\n".as_bytes()) {
        return Err(GitArtifactFailure::Header);
    }
    let mut prerequisites: Vec<&[u8]> = Vec::new();
    let mut references: Vec<(&[u8], &[u8])> = Vec::new();
    let mut capabilities: bool = false;
    let ghost first = total as int;
    proof {
        assert(slice_bytes(prerequisites@) =~= Seq::empty());
        assert(pair_bytes(references@) =~= Seq::empty());
    }
    loop
        invariant_except_break
            header_listing(bytes@, first, HeaderListing::empty()) == header_listing(
                bytes@,
                total as int,
                HeaderListing {
                    prerequisites: slice_bytes(prerequisites@),
                    references: pair_bytes(references@),
                    capabilities,
                },
            ),
        invariant
            total <= bytes@.len(),
            header_line_end(bytes@, 0) == Ok::<int, GitArtifactFailure>(first),
            bytes@.take(first) == "# v2 git bundle\n".spec_bytes(),
        ensures
            header_listing(bytes@, first, HeaderListing::empty()) == Ok::<
                (int, HeaderListing),
                GitArtifactFailure,
            >(
                (
                    total as int,
                    HeaderListing {
                        prerequisites: slice_bytes(prerequisites@),
                        references: pair_bytes(references@),
                        capabilities,
                    },
                ),
            ),
            total <= MAXIMUM_BUNDLE_HEADER_BYTES,
        decreases bytes@.len() - total,
    {
        let ghost before = total as int;
        proof {
            lemma_header_line_end(bytes@, before);
        }
        let line: &[u8] = read_header_line(bytes, &mut total)?;
        if line.len() == 1 {
            break;
        }
        let content: &[u8] = &line[0..line.len() - 1];
        assert(content@ =~= bytes@.subrange(before, total - 1));
        match parse_header_item(content) {
            None => {
                return Err(GitArtifactFailure::Header);
            },
            Some(HeaderLine::Prerequisite(oid)) => {
                let ghost listed = prerequisites@;
                prerequisites.push(oid);
                assert(slice_bytes(prerequisites@) =~= slice_bytes(listed).push(oid@));
            },
            Some(HeaderLine::Capability) => {
                capabilities = true;
            },
            Some(HeaderLine::Reference(oid, name)) => {
                let ghost listed = references@;
                references.push((oid, name));
                assert(pair_bytes(references@) =~= pair_bytes(listed).push((oid@, name@)));
            },
        }
    }
    let ghost listing = HeaderListing {
        prerequisites: slice_bytes(prerequisites@),
        references: pair_bytes(references@),
        capabilities,
    };
    let ghost base_oid = descriptor.base_oid.spec_bytes();
    let ghost head_oid = descriptor.head_oid.spec_bytes();
    if capabilities || prerequisites.len() != 1 || references.len() != 1 {
        assert(!listing.matches_profile(base_oid, head_oid)) by {
            assert(listing.prerequisites.len() == prerequisites@.len());
            assert(listing.references.len() == references@.len());
        }
        return Err(GitArtifactFailure::Profile);
    }
    assert(listing.prerequisites[0] == prerequisites@[0]@);
    assert(listing.references[0] == (references@[0].0@, references@[0].1@));
    if !bytes_equal(prerequisites[0], descriptor.base_oid.as_bytes()) || !bytes_equal(
        references[0].0,
        descriptor.head_oid.as_bytes(),
    ) || !bytes_equal(references[0].1, "refs/scherzo/head".as_bytes()) {
        assert(!listing.matches_profile(base_oid, head_oid));
        return Err(GitArtifactFailure::Profile);
    }
    assert(listing.prerequisites =~= seq![base_oid]);
    assert(listing.references =~= seq![(head_oid, "refs/scherzo/head".spec_bytes())]);
    Ok(total as u64)
}

} // verus!
