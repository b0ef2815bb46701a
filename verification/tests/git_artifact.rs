use std::io::Write;
use std::sync::atomic::{AtomicBool, Ordering};

use flate2::write::ZlibEncoder;
use flate2::{Compression, Decompress, FlushDecompress, Status};
use ring::digest::{digest, SHA1_FOR_LEGACY_USE_ONLY};

use workflow_engine::git_artifact::delta::{
    apply_delta, validate_delta_program, DeltaCommand, DeltaProgramReader,
};
use workflow_engine::git_artifact::encoding::{
    encode_delta_varint, encode_offset_distance, encode_pack_entry_header, literal_delta,
};
use workflow_engine::git_artifact::header::{
    valid_oid_bytes, valid_refname, validate_bundle_header,
};
use workflow_engine::git_artifact::object::{hash_object, parse_hex_oid, ObjectKind};
use workflow_engine::git_artifact::pack::{
    accept_chunk, parse_pack, InflateStatus, Inflation, PackEntry,
};
use workflow_engine::git_artifact::resolve::{resolve_and_validate_objects, validate_git_bundle};
use workflow_engine::git_artifact::varint::{
    checked_shift, read_entry_header, read_offset_distance, ByteReader,
};
use workflow_engine::git_artifact::{
    bounded_add, check_cancelled, interruption, GitArtifactDescriptor, GitArtifactFailure,
    GitArtifactValidationBudget, MAXIMUM_BUNDLE_HEADER_BYTES, MAXIMUM_DELTA_DEPTH,
    MAXIMUM_INFLATED_GIT_BYTES, MAXIMUM_PACK_ENTRIES, PACK_CHECKSUM_BYTES,
};

#[derive(Clone, Copy)]
enum BundleMutation {
    InvalidHeader,
    MismatchedProfile,
    TruncatedPack,
    BadChecksum,
    OversizedObject,
    OverdeepDeltaChain,
    ExternalDelta,
    MissingHeadObject,
    HeadReplacedByExternalDelta,
}

struct RealBundleFixture {
    bytes: Vec<u8>,
    body_offset: usize,
    base_oid: String,
    head_oid: String,
    tree_oid: String,
}

struct RawPackEntry {
    start: usize,
    data_start: usize,
    end: usize,
    kind: u8,
    size: u64,
    oid: [u8; 20],
    content: Vec<u8>,
}

fn hex(oid: &[u8; 20]) -> String {
    oid.iter().map(|byte| format!("{byte:02x}")).collect()
}

fn tree(entries: &[(&str, [u8; 20])]) -> Vec<u8> {
    let mut content = Vec::new();
    for (name, oid) in entries {
        content.extend_from_slice(b"100644 ");
        content.extend_from_slice(name.as_bytes());
        content.push(0);
        content.extend_from_slice(oid);
    }
    content
}

fn commit(tree: &[u8; 20], parent: Option<&[u8; 20]>, message: &str) -> Vec<u8> {
    let mut content = format!("tree {}\n", hex(tree));
    if let Some(parent) = parent {
        content.push_str(&format!("parent {}\n", hex(parent)));
    }
    for role in ["author", "committer"] {
        content.push_str(&format!(
            "{role} Scherzo Test <test@example.invalid> 946684800 +0000\n"
        ));
    }
    content.push_str(&format!("\n{message}\n"));
    content.into_bytes()
}

impl RealBundleFixture {
    fn new() -> Self {
        let baseline_blob = object_oid(3, b"baseline\n");
        let baseline_tree = object_oid(2, &tree(&[("tracked.txt", baseline_blob)]));
        let base = object_oid(1, &commit(&baseline_tree, None, "baseline"));

        let changed: &[u8] = b"changed\n";
        let alpha: &[u8] = b"similar content alpha\n";
        let beta: &[u8] = b"similar content beta\n";
        let tree_content = tree(&[
            ("alpha.txt", object_oid(3, alpha)),
            ("beta.txt", object_oid(3, beta)),
            ("tracked.txt", object_oid(3, changed)),
        ]);
        let tree_oid = object_oid(2, &tree_content);
        let head_content = commit(&tree_oid, Some(&base), "head");
        let head = object_oid(1, &head_content);

        let mut bytes = format!(
            "# v2 git bundle\n-{} baseline\n{} refs/scherzo/head\n\n",
            hex(&base),
            hex(&head)
        )
        .into_bytes();
        let body_offset = bytes.len();
        bytes.extend_from_slice(b"PACK");
        bytes.extend_from_slice(&2_u32.to_be_bytes());
        bytes.extend_from_slice(&5_u32.to_be_bytes());
        for (kind, content) in [
            (1, head_content.as_slice()),
            (2, tree_content.as_slice()),
            (3, alpha),
            (3, beta),
            (3, changed),
        ] {
            bytes.extend_from_slice(&normal_object_entry(kind, content));
        }
        append_pack_checksum(&mut bytes, body_offset);

        Self {
            bytes,
            body_offset,
            base_oid: hex(&base),
            head_oid: hex(&head),
            tree_oid: hex(&tree_oid),
        }
    }

    fn failure(&self, mutation: BundleMutation) -> GitArtifactFailure {
        self.validate(&self.mutated(mutation)).unwrap_err()
    }

    fn validate(&self, bytes: &[u8]) -> Result<(), GitArtifactFailure> {
        validate_git_bundle(
            bytes,
            self.descriptor(),
            &mut GitArtifactValidationBudget::default(),
            Some(&AtomicBool::new(false)),
        )
    }

    fn descriptor(&self) -> GitArtifactDescriptor<'_> {
        GitArtifactDescriptor {
            base_oid: &self.base_oid,
            head_oid: &self.head_oid,
            tree_oid: &self.tree_oid,
        }
    }

    fn mutated(&self, mutation: BundleMutation) -> Vec<u8> {
        let mut bytes = self.bytes.clone();
        match mutation {
            BundleMutation::InvalidHeader => {
                bytes[0] = b'!';
            }
            BundleMutation::MismatchedProfile => {
                let reference = b"refs/scherzo/head";
                let offset = bytes[..self.body_offset]
                    .windows(reference.len())
                    .position(|window| window == reference)
                    .unwrap();
                bytes[offset + reference.len() - 1] = b'x';
            }
            BundleMutation::TruncatedPack => {
                bytes.pop().unwrap();
            }
            BundleMutation::BadChecksum => {
                let checksum_byte = bytes.last_mut().unwrap();
                *checksum_byte ^= 0xff;
            }
            BundleMutation::OversizedObject => {
                let entries = parse_normal_entries(&bytes, self.body_offset);
                let entry = entries.first().unwrap();
                let replacement = encode_pack_entry_header(
                    entry.kind,
                    MAXIMUM_INFLATED_GIT_BYTES.saturating_add(1),
                );
                bytes.splice(entry.start..entry.data_start, replacement);
                rewrite_pack_checksum(&mut bytes, self.body_offset);
            }
            BundleMutation::OverdeepDeltaChain => {
                append_external_delta_chain(
                    &mut bytes,
                    self.body_offset,
                    usize::from(MAXIMUM_DELTA_DEPTH),
                );
            }
            BundleMutation::ExternalDelta => {
                append_external_delta_chain(&mut bytes, self.body_offset, 0);
            }
            BundleMutation::MissingHeadObject | BundleMutation::HeadReplacedByExternalDelta => {
                let entries = parse_normal_entries(&bytes, self.body_offset);
                let head = parse_hex_oid(&self.head_oid).unwrap();
                let entry = entries.iter().find(|entry| entry.oid == head).unwrap();
                let replacement = if matches!(mutation, BundleMutation::MissingHeadObject) {
                    normal_object_entry(3, b"replacement blob\n")
                } else {
                    external_delta_entry()
                };
                bytes.splice(entry.start..entry.end, replacement);
                rewrite_pack_checksum(&mut bytes, self.body_offset);
            }
        }
        bytes
    }

    fn with_resolvable_delta(&self, reference_base_by_oid: bool) -> Vec<u8> {
        let mut bytes = self.bytes.clone();
        let entries = parse_normal_entries(&bytes, self.body_offset);
        let blobs = entries
            .iter()
            .filter(|entry| entry.kind == 3)
            .collect::<Vec<_>>();
        let base = blobs.first().unwrap();
        let target = blobs.get(1).unwrap();
        let delta = literal_delta(base.size, &target.content);
        let mut replacement = encode_pack_entry_header(
            if reference_base_by_oid { 7 } else { 6 },
            u64::try_from(delta.len()).unwrap(),
        );
        if reference_base_by_oid {
            replacement.extend_from_slice(&base.oid);
        } else {
            let distance = u64::try_from(target.start - base.start).unwrap();
            replacement.extend_from_slice(&encode_offset_distance(distance));
        }
        replacement.extend_from_slice(&zlib(&delta));
        bytes.splice(target.start..target.end, replacement);
        rewrite_pack_checksum(&mut bytes, self.body_offset);
        bytes
    }
}

fn parse_normal_entries(bundle: &[u8], body_offset: usize) -> Vec<RawPackEntry> {
    assert_eq!(&bundle[body_offset..body_offset + 4], b"PACK");
    let count = usize::try_from(u32::from_be_bytes(
        bundle[body_offset + 8..body_offset + 12]
            .try_into()
            .unwrap(),
    ))
    .unwrap();
    let checksum_offset = bundle.len() - usize::try_from(PACK_CHECKSUM_BYTES).unwrap();
    let mut position = body_offset + 12;
    let mut entries = Vec::with_capacity(count);
    for _ in 0..count {
        let start = position;
        let (kind, size, data_start) = decode_pack_entry_header(bundle, position);
        assert!(
            matches!(kind, 1..=4),
            "real fixture unexpectedly used a delta"
        );
        position = data_start;

        let mut decompressor = Decompress::new(true);
        let mut content = Vec::new();
        loop {
            let before_input = decompressor.total_in();
            let before_output = decompressor.total_out();
            let mut output = [0_u8; 1024];
            let status = decompressor
                .decompress(
                    &bundle[position..checksum_offset],
                    &mut output,
                    FlushDecompress::None,
                )
                .unwrap();
            let consumed = usize::try_from(decompressor.total_in() - before_input).unwrap();
            let produced = usize::try_from(decompressor.total_out() - before_output).unwrap();
            position += consumed;
            content.extend_from_slice(&output[..produced]);
            assert!(consumed != 0 || produced != 0 || status == Status::StreamEnd);
            if status == Status::StreamEnd {
                break;
            }
        }
        assert_eq!(u64::try_from(content.len()).unwrap(), size);
        entries.push(RawPackEntry {
            start,
            data_start,
            end: position,
            kind,
            size,
            oid: object_oid(kind, &content),
            content,
        });
    }
    assert_eq!(position, checksum_offset);
    entries
}

fn decode_pack_entry_header(bytes: &[u8], start: usize) -> (u8, u64, usize) {
    let mut position = start;
    let mut byte = bytes[position];
    position += 1;
    let kind = (byte >> 4) & 0x07;
    let mut size = u64::from(byte & 0x0f);
    let mut shift = 4_u32;
    while byte & 0x80 != 0 {
        byte = bytes[position];
        position += 1;
        size |= u64::from(byte & 0x7f) << shift;
        shift += 7;
    }
    (kind, size, position)
}

fn object_oid(kind: u8, content: &[u8]) -> [u8; 20] {
    let name = match kind {
        1 => "commit",
        2 => "tree",
        3 => "blob",
        4 => "tag",
        _ => panic!("fixture object must not be a delta"),
    };
    let mut hashed = format!("{name} {}\0", content.len()).into_bytes();
    hashed.extend_from_slice(content);
    let mut oid = [0_u8; 20];
    oid.copy_from_slice(digest(&SHA1_FOR_LEGACY_USE_ONLY, &hashed).as_ref());
    oid
}

fn zlib(bytes: &[u8]) -> Vec<u8> {
    let mut compressed = ZlibEncoder::new(Vec::new(), Compression::default());
    compressed.write_all(bytes).unwrap();
    compressed.finish().unwrap()
}

fn normal_object_entry(kind: u8, content: &[u8]) -> Vec<u8> {
    let mut entry = encode_pack_entry_header(kind, u64::try_from(content.len()).unwrap());
    entry.extend_from_slice(&zlib(content));
    entry
}

fn external_delta_entry() -> Vec<u8> {
    let delta = [0_u8, 0_u8];
    let mut entry = encode_pack_entry_header(7, u64::try_from(delta.len()).unwrap());
    entry.extend_from_slice(&[0xaa; 20]);
    entry.extend_from_slice(&zlib(&delta));
    entry
}

fn append_external_delta_chain(bundle: &mut Vec<u8>, body_offset: usize, offset_deltas: usize) {
    let checksum_offset = bundle.len() - usize::try_from(PACK_CHECKSUM_BYTES).unwrap();
    bundle.truncate(checksum_offset);
    let mut previous_offset = bundle.len();
    bundle.extend_from_slice(&external_delta_entry());
    for _ in 0..offset_deltas {
        let offset = bundle.len();
        let delta = [0_u8, 0_u8];
        bundle.extend_from_slice(&encode_pack_entry_header(
            6,
            u64::try_from(delta.len()).unwrap(),
        ));
        let distance = u64::try_from(offset - previous_offset).unwrap();
        bundle.extend_from_slice(&encode_offset_distance(distance));
        bundle.extend_from_slice(&zlib(&delta));
        previous_offset = offset;
    }

    let count_offset = body_offset + 8;
    let original_count =
        u32::from_be_bytes(bundle[count_offset..count_offset + 4].try_into().unwrap());
    let added = u32::try_from(offset_deltas + 1).unwrap();
    bundle[count_offset..count_offset + 4]
        .copy_from_slice(&original_count.checked_add(added).unwrap().to_be_bytes());
    append_pack_checksum(bundle, body_offset);
}

fn rewrite_pack_checksum(bundle: &mut Vec<u8>, body_offset: usize) {
    bundle.truncate(bundle.len() - usize::try_from(PACK_CHECKSUM_BYTES).unwrap());
    append_pack_checksum(bundle, body_offset);
}

fn append_pack_checksum(bundle: &mut Vec<u8>, body_offset: usize) {
    let checksum = digest(&SHA1_FOR_LEGACY_USE_ONLY, &bundle[body_offset..]);
    bundle.extend_from_slice(checksum.as_ref());
}

fn assert_empty_comment_is_ignored() {
    let baseline = "0".repeat(40);
    let head = "1".repeat(40);
    let tree = "2".repeat(40);
    let header = format!("# v2 git bundle\n-{baseline} \n{head} refs/scherzo/head\n\n");

    assert_eq!(
        validate_bundle_header(
            header.as_bytes(),
            GitArtifactDescriptor {
                base_oid: &baseline,
                head_oid: &head,
                tree_oid: &tree,
            },
        ),
        Ok(u64::try_from(header.len()).unwrap()),
    );
}

#[test]
fn git_artifact_bundle_profile_ignores_an_empty_prerequisite_comment() {
    assert_empty_comment_is_ignored();
}

#[test]
fn tests_bundle_profile_ignores_an_empty_prerequisite_comment() {
    assert_empty_comment_is_ignored();
}

#[test]
fn real_git_bundle_round_trips_through_the_portable_parser() {
    let fixture = RealBundleFixture::new();

    assert_eq!(fixture.validate(&fixture.bytes), Ok(()));
}

#[test]
fn reference_and_offset_deltas_resolve_to_their_original_objects() {
    let fixture = RealBundleFixture::new();

    assert_eq!(
        fixture.validate(&fixture.with_resolvable_delta(true)),
        Ok(())
    );
    assert_eq!(
        fixture.validate(&fixture.with_resolvable_delta(false)),
        Ok(())
    );
}

#[test]
fn real_bundle_mutations_reach_each_pack_validation_failure() {
    let fixture = RealBundleFixture::new();

    for (mutation, expected) in [
        (BundleMutation::InvalidHeader, GitArtifactFailure::Header),
        (
            BundleMutation::MismatchedProfile,
            GitArtifactFailure::Profile,
        ),
        (BundleMutation::TruncatedPack, GitArtifactFailure::Pack),
        (BundleMutation::BadChecksum, GitArtifactFailure::Checksum),
        (
            BundleMutation::OversizedObject,
            GitArtifactFailure::StructureLimit,
        ),
        (
            BundleMutation::OverdeepDeltaChain,
            GitArtifactFailure::StructureLimit,
        ),
        (
            BundleMutation::MissingHeadObject,
            GitArtifactFailure::Content,
        ),
    ] {
        assert_eq!(fixture.failure(mutation), expected);
    }
}

#[test]
fn unresolved_external_delta_is_rejected_after_the_head_is_validated() {
    let fixture = RealBundleFixture::new();

    assert_eq!(
        fixture.failure(BundleMutation::ExternalDelta),
        GitArtifactFailure::Pack
    );
    assert_eq!(
        fixture.failure(BundleMutation::HeadReplacedByExternalDelta),
        GitArtifactFailure::Content
    );
}

#[test]
fn known_objects_have_their_git_identifiers() {
    let empty = hash_object(ObjectKind::Blob, b"", 0, None).unwrap();
    assert_eq!(hex(&empty), "e69de29bb2d1d6434b8b29ae775ad8c2e48c5391");
    let tree = hash_object(ObjectKind::Tree, b"", 0, None).unwrap();
    assert_eq!(hex(&tree), "4b825dc642cb6eb9a060e54bf8d69288fbee4904");
    assert_eq!(
        hash_object(ObjectKind::Blob, b"x", 2, None),
        Err(GitArtifactFailure::Pack)
    );
    assert_eq!(
        parse_hex_oid("e69de29bb2d1d6434b8b29ae775ad8c2e48c5391"),
        Some(empty)
    );
    assert_eq!(parse_hex_oid(&"A".repeat(40)), None);
    assert_eq!(parse_hex_oid(&"a".repeat(39)), None);
}

#[test]
fn a_set_cancellation_flag_interrupts() {
    let fixture = RealBundleFixture::new();
    let cancelled = AtomicBool::new(false);
    cancelled.store(true, Ordering::Release);
    assert_eq!(
        validate_git_bundle(
            &fixture.bytes,
            fixture.descriptor(),
            &mut GitArtifactValidationBudget::default(),
            Some(&cancelled),
        ),
        Err(GitArtifactFailure::Interrupted)
    );
    assert_eq!(interruption(true), Err(GitArtifactFailure::Interrupted));
    assert_eq!(interruption(false), Ok(()));
    assert_eq!(check_cancelled(None), Ok(()));
}

#[test]
fn a_set_flag_interrupts_only_what_polls_it() {
    let fixture = RealBundleFixture::new();
    let set = AtomicBool::new(true);
    let mut budget = GitArtifactValidationBudget::default();
    let body_offset = fixture.body_offset as u64;
    assert_eq!(
        parse_pack(&fixture.bytes, body_offset, &mut budget, Some(&set)).err(),
        Some(GitArtifactFailure::Interrupted)
    );
    assert_eq!(
        parse_pack(b"PACK", 0, &mut budget, Some(&set)).err(),
        Some(GitArtifactFailure::Pack)
    );
    assert_eq!(
        parse_pack(&fixture.bytes, u64::MAX, &mut budget, Some(&set)).err(),
        Some(GitArtifactFailure::Pack)
    );
    let mut none = Vec::new();
    assert_eq!(
        resolve_and_validate_objects(&mut none, fixture.descriptor(), &mut budget, Some(&set)),
        Err(GitArtifactFailure::Content)
    );

    let delta = literal_delta(3, b"abc");
    assert_eq!(
        validate_delta_program(&delta, Some(&set)),
        Err(GitArtifactFailure::Interrupted)
    );
    assert_eq!(
        validate_delta_program(&[0x80], Some(&set)),
        Err(GitArtifactFailure::Pack)
    );
    assert_eq!(
        apply_delta(b"xy", &delta, &mut budget, Some(&set)),
        Err(GitArtifactFailure::Pack)
    );
    assert_eq!(budget.used_bytes(), 0);
    assert_eq!(
        apply_delta(b"xyz", &delta, &mut budget, Some(&set)),
        Err(GitArtifactFailure::Interrupted)
    );
    assert_eq!(budget.used_bytes(), 3);
    assert_eq!(budget.add_inflated(MAXIMUM_INFLATED_GIT_BYTES - 4), Ok(()));
    assert_eq!(
        apply_delta(b"xyz", &delta, &mut budget, Some(&set)),
        Err(GitArtifactFailure::StructureLimit)
    );
}

#[test]
fn an_unset_flag_changes_no_verdict() {
    let fixture = RealBundleFixture::new();
    let unset = AtomicBool::new(false);
    for (bytes, expected) in [
        (fixture.bytes.clone(), Ok(())),
        (
            fixture.mutated(BundleMutation::BadChecksum),
            Err(GitArtifactFailure::Checksum),
        ),
        (
            fixture.mutated(BundleMutation::InvalidHeader),
            Err(GitArtifactFailure::Header),
        ),
    ] {
        let mut budget = GitArtifactValidationBudget::default();
        assert_eq!(
            validate_git_bundle(&bytes, fixture.descriptor(), &mut budget, Some(&unset)),
            expected
        );
    }
}

#[test]
fn one_budget_is_charged_by_every_bundle() {
    let fixture = RealBundleFixture::new();
    let mut budget = GitArtifactValidationBudget::default();
    let descriptor = fixture.descriptor();
    assert_eq!(
        validate_git_bundle(&fixture.bytes, descriptor, &mut budget, None),
        Ok(())
    );
    let once = budget.used_bytes();
    let inflated: u64 = parse_normal_entries(&fixture.bytes, fixture.body_offset)
        .iter()
        .map(|entry| entry.size)
        .sum();
    assert_eq!(once, inflated);
    assert_eq!(
        validate_git_bundle(&fixture.bytes, descriptor, &mut budget, None),
        Ok(())
    );
    assert_eq!(budget.used_bytes(), 2 * once);
}

#[test]
fn budgets_end_at_their_limit() {
    let mut budget = GitArtifactValidationBudget::default();
    assert_eq!(budget.add_inflated(MAXIMUM_INFLATED_GIT_BYTES - 1), Ok(()));
    assert_eq!(budget.add_reconstructed(1), Ok(()));
    assert_eq!(
        budget.add_inflated(1),
        Err(GitArtifactFailure::StructureLimit)
    );
    assert_eq!(budget.used_bytes(), MAXIMUM_INFLATED_GIT_BYTES);
    assert_eq!(bounded_add(1, 2), Ok(3));
    assert_eq!(
        bounded_add(u64::MAX, 1),
        Err(GitArtifactFailure::StructureLimit)
    );
}

#[test]
fn packs_with_too_many_entries_are_refused() {
    let mut pack = b"PACK".to_vec();
    pack.extend_from_slice(&2_u32.to_be_bytes());
    pack.extend_from_slice(&u32::try_from(MAXIMUM_PACK_ENTRIES + 1).unwrap().to_be_bytes());
    append_pack_checksum(&mut pack, 0);
    let mut budget = GitArtifactValidationBudget::default();
    assert_eq!(
        parse_pack(&pack, 0, &mut budget, None).err(),
        Some(GitArtifactFailure::StructureLimit)
    );
}

#[test]
fn packs_of_other_versions_are_refused() {
    let mut pack = b"PACK".to_vec();
    pack.extend_from_slice(&4_u32.to_be_bytes());
    pack.extend_from_slice(&0_u32.to_be_bytes());
    append_pack_checksum(&mut pack, 0);
    let mut budget = GitArtifactValidationBudget::default();
    assert_eq!(
        parse_pack(&pack, 0, &mut budget, None).err(),
        Some(GitArtifactFailure::Pack)
    );
}

#[test]
fn entries_inflate_to_their_declared_size_only() {
    let mut pack = b"PACK".to_vec();
    pack.extend_from_slice(&2_u32.to_be_bytes());
    pack.extend_from_slice(&1_u32.to_be_bytes());
    pack.extend_from_slice(&encode_pack_entry_header(3, 4));
    pack.extend_from_slice(&zlib(b"abc"));
    append_pack_checksum(&mut pack, 0);
    let mut budget = GitArtifactValidationBudget::default();
    assert_eq!(
        parse_pack(&pack, 0, &mut budget, None).err(),
        Some(GitArtifactFailure::Pack)
    );
    assert_eq!(budget.used_bytes(), 3);
}

#[test]
fn one_call_of_the_decompressor_is_judged() {
    let call = |status: InflateStatus, total_in: u64, total_out: u64| {
        Some(Inflation {
            status,
            total_in,
            total_out,
            output: b"defg".to_vec(),
        })
    };
    let mut budget = GitArtifactValidationBudget::default();
    let mut content = b"abc".to_vec();
    for stalled in [
        None,
        call(InflateStatus::BufferStalled, 7, 3),
        call(InflateStatus::Progress, 6, 4),
        call(InflateStatus::Progress, 8, 2),
        call(InflateStatus::Progress, 8, 8),
    ] {
        assert_eq!(
            accept_chunk(stalled, 7, &mut content, 9, &mut budget),
            Err(GitArtifactFailure::Pack)
        );
    }
    assert_eq!(
        accept_chunk(call(InflateStatus::StreamEnd, 9, 6), 7, &mut content, 5, &mut budget),
        Err(GitArtifactFailure::Pack)
    );
    assert_eq!((content.as_slice(), budget.used_bytes()), (b"abc".as_slice(), 0));
    assert_eq!(
        accept_chunk(call(InflateStatus::Progress, 9, 3), 7, &mut content, 5, &mut budget),
        Ok((2, false))
    );
    assert_eq!(
        accept_chunk(call(InflateStatus::StreamEnd, 12, 5), 9, &mut content, 5, &mut budget),
        Ok((3, true))
    );
    assert_eq!((content.as_slice(), budget.used_bytes()), (b"abcde".as_slice(), 2));
    assert_eq!(budget.add_inflated(MAXIMUM_INFLATED_GIT_BYTES - 3), Ok(()));
    assert_eq!(
        accept_chunk(call(InflateStatus::Progress, 14, 7), 12, &mut content, 9, &mut budget),
        Err(GitArtifactFailure::StructureLimit)
    );
    assert_eq!((content.len(), budget.used_bytes()), (5, MAXIMUM_INFLATED_GIT_BYTES - 1));
}

fn single_entry_pack(declared: u64, stream: &[u8]) -> Vec<u8> {
    let mut pack = b"PACK".to_vec();
    pack.extend_from_slice(&2_u32.to_be_bytes());
    pack.extend_from_slice(&1_u32.to_be_bytes());
    pack.extend_from_slice(&encode_pack_entry_header(3, declared));
    pack.extend_from_slice(stream);
    append_pack_checksum(&mut pack, 0);
    pack
}

#[test]
fn entries_are_charged_chunk_by_chunk() {
    let stream = zlib(&vec![7; 1_000_000]);
    let refused = |declared: u64, stream: &[u8], charged: u64| {
        let pack = single_entry_pack(declared, stream);
        let mut budget = GitArtifactValidationBudget::default();
        assert_eq!(budget.add_inflated(charged), Ok(()));
        let failure = parse_pack(&pack, 0, &mut budget, None).err();
        (failure, budget.used_bytes() - charged)
    };

    let mut corrupt = stream.clone();
    *corrupt.last_mut().expect("the stream ends in its checksum") ^= 1;
    assert_eq!(
        refused(1_000_000, &corrupt, 0),
        (Some(GitArtifactFailure::Pack), 983_040)
    );
    assert_eq!(
        refused(100_000, &stream, 0),
        (Some(GitArtifactFailure::Pack), 65_536)
    );
    assert_eq!(
        refused(1_000_000, &stream, MAXIMUM_INFLATED_GIT_BYTES - 70_000),
        (Some(GitArtifactFailure::StructureLimit), 65_536)
    );
    assert_eq!(
        refused(100_000, &stream, MAXIMUM_INFLATED_GIT_BYTES - 70_000),
        (Some(GitArtifactFailure::Pack), 65_536)
    );
    assert_eq!(
        refused(2_000_000, &stream, 0),
        (Some(GitArtifactFailure::Pack), 1_000_000)
    );
}

#[test]
fn oversized_headers_are_refused() {
    let fixture = RealBundleFixture::new();
    let mut header = b"# v2 git bundle\n-".to_vec();
    header.extend_from_slice(&vec![b'a'; MAXIMUM_BUNDLE_HEADER_BYTES]);
    header.extend_from_slice(b"\n\n");
    assert_eq!(
        validate_bundle_header(&header, fixture.descriptor()),
        Err(GitArtifactFailure::StructureLimit)
    );
}

#[test]
fn headers_are_judged_by_their_start() {
    let fixture = RealBundleFixture::new();
    let mut bytes = fixture.bytes.clone();
    bytes.resize(2 * MAXIMUM_BUNDLE_HEADER_BYTES, 0);
    let offset = Ok(fixture.body_offset as u64);
    assert_eq!(validate_bundle_header(&bytes, fixture.descriptor()), offset);
    assert_eq!(
        validate_bundle_header(&bytes[..MAXIMUM_BUNDLE_HEADER_BYTES], fixture.descriptor()),
        offset
    );
}

#[test]
fn reference_names_follow_git() {
    for name in ["refs/scherzo/head", "a", "refs/heads/x.y"] {
        assert!(valid_refname(name.as_bytes()), "{name}");
    }
    for name in [
        "", "@", "/a", "a/", "a.", "a..b", "a//b", "a/.b", "a.lock", "a@{b", "a b", "a~b", "a\\b",
    ] {
        assert!(!valid_refname(name.as_bytes()), "{name}");
    }
    assert!(valid_oid_bytes("0123456789abcdef0123456789abcdef01234567".as_bytes()));
    assert!(!valid_oid_bytes("0123456789ABCDEF0123456789abcdef01234567".as_bytes()));
}

#[test]
fn varints_read_back() {
    for value in [0, 1, 127, 128, 300, u64::from(u32::MAX), u64::MAX] {
        let mut bytes = Vec::new();
        encode_delta_varint(value, &mut bytes);
        let mut reader = ByteReader {
            bytes: &bytes,
            position: 0,
            end: bytes.len(),
        };
        assert_eq!(reader.read_varint(0, 0), Ok(value));
        assert_eq!(reader.position, bytes.len());
    }
    let mut bytes = Vec::new();
    encode_delta_varint(300, &mut bytes);
    assert_eq!(bytes, [0xac, 0x02]);
    assert_eq!(checked_shift(1, 63), Ok(1 << 63));
    assert_eq!(
        checked_shift(2, 63),
        Err(GitArtifactFailure::StructureLimit)
    );
}

#[test]
fn entry_headers_read_back() {
    for (kind, size) in [(1, 0), (3, 15), (3, 16), (7, 1_000_000)] {
        let bytes = encode_pack_entry_header(kind, size);
        let mut reader = ByteReader {
            bytes: &bytes,
            position: 0,
            end: bytes.len(),
        };
        assert_eq!(read_entry_header(&mut reader), Ok((kind, size)));
    }
    assert_eq!(encode_pack_entry_header(3, 16), [0xb0, 0x01]);
}

#[test]
fn offset_distances_read_back() {
    for distance in [1, 127, 128, 16_511, 16_512, 1 << 40] {
        let bytes = encode_offset_distance(distance);
        let mut reader = ByteReader {
            bytes: &bytes,
            position: 0,
            end: bytes.len(),
        };
        assert_eq!(read_offset_distance(&mut reader), Ok(distance));
    }
    assert_eq!(encode_offset_distance(128), [0x80, 0x00]);
}

#[test]
fn literal_deltas_apply() {
    let result: Vec<u8> = (0..300).map(|index| (index % 251) as u8).collect();
    let delta = literal_delta(3, &result);
    assert_eq!(validate_delta_program(&delta, None), Ok(()));
    let mut budget = GitArtifactValidationBudget::default();
    assert_eq!(
        apply_delta(b"abc", &delta, &mut budget, None),
        Ok(result)
    );
    assert_eq!(budget.used_bytes(), 300);
    assert_eq!(
        apply_delta(b"abcd", &delta, &mut budget, None).err(),
        Some(GitArtifactFailure::Pack)
    );
    assert_eq!(budget.used_bytes(), 300);
    assert_eq!(
        apply_delta(b"abc", &[3, 7, 1, b'x'], &mut budget, None).err(),
        Some(GitArtifactFailure::Pack)
    );
    assert_eq!(budget.used_bytes(), 307);
}

#[test]
fn copies_come_from_the_base() {
    let program = [6, 4, 0x91, 2, 4];
    let mut budget = GitArtifactValidationBudget::default();
    assert_eq!(
        apply_delta(b"abcdef", &program, &mut budget, None),
        Ok(b"cdef".to_vec())
    );
    let beyond = [6, 4, 0x91, 3, 4];
    assert_eq!(
        validate_delta_program(&beyond, None),
        Err(GitArtifactFailure::Pack)
    );
    let reserved = [6, 4, 0];
    assert_eq!(
        validate_delta_program(&reserved, None),
        Err(GitArtifactFailure::Pack)
    );
}

#[test]
fn commands_before_a_bad_one_are_handed_out() {
    let program = [0_u8, 3, 2, b'a', b'b', 0];
    let mut reader = DeltaProgramReader::open(&program).unwrap();
    assert!(matches!(
        reader.next_command(None),
        Ok(Some(DeltaCommand::Insert(b"ab")))
    ));
    assert_eq!(reader.produced, 2);
    assert_eq!(
        reader.next_command(None).err(),
        Some(GitArtifactFailure::Pack)
    );
    assert_eq!(reader.produced, 2);

    let short = [0_u8, 3, 2, b'a', b'b'];
    let mut reader = DeltaProgramReader::open(&short).unwrap();
    assert!(reader.next_command(None).is_ok());
    assert_eq!(
        reader.next_command(None).err(),
        Some(GitArtifactFailure::Pack)
    );

    let long = [0_u8, 1, 2, b'a', b'b'];
    let mut reader = DeltaProgramReader::open(&long).unwrap();
    assert_eq!(
        reader.next_command(None).err(),
        Some(GitArtifactFailure::Pack)
    );
}

#[test]
fn resolved_deltas_take_the_place_of_their_entries() {
    let fixture = RealBundleFixture::new();
    let mut pack = fixture.bytes[fixture.body_offset..].to_vec();
    pack.truncate(pack.len() - 20);
    pack[8..12].copy_from_slice(&6_u32.to_be_bytes());
    let delta = literal_delta(b"changed\n".len() as u64, b"rebuilt\n");
    pack.extend_from_slice(&encode_pack_entry_header(7, delta.len() as u64));
    pack.extend_from_slice(&object_oid(3, b"changed\n"));
    pack.extend_from_slice(&zlib(&delta));
    append_pack_checksum(&mut pack, 0);
    let mut budget = GitArtifactValidationBudget::default();
    let mut entries = parse_pack(&pack, 0, &mut budget, None).unwrap();
    assert!(matches!(entries[5], PackEntry::Delta(_)));
    assert_eq!(
        resolve_and_validate_objects(&mut entries, fixture.descriptor(), &mut budget, None),
        Ok(())
    );
    assert_eq!(entries.len(), 6);
    match &entries[5] {
        PackEntry::Object(object) => {
            assert_eq!(object.oid, object_oid(3, b"rebuilt\n"));
            assert_eq!(object.content, b"rebuilt\n");
            assert_eq!(object.depth, 1);
        }
        PackEntry::Delta(_) => panic!("the delta stayed"),
    }
}

#[test]
fn large_entries_inflate_whole() {
    let mut state = 1_u32;
    let content: Vec<u8> = (0..300_000)
        .map(|_| {
            state = state.wrapping_mul(1_664_525).wrapping_add(1_013_904_223);
            (state >> 24) as u8
        })
        .collect();
    let mut pack = b"PACK".to_vec();
    pack.extend_from_slice(&2_u32.to_be_bytes());
    pack.extend_from_slice(&2_u32.to_be_bytes());
    pack.extend_from_slice(&normal_object_entry(3, &content));
    pack.extend_from_slice(&normal_object_entry(3, &vec![7; 1_000_000]));
    append_pack_checksum(&mut pack, 0);
    let mut budget = GitArtifactValidationBudget::default();
    assert_eq!(
        parse_pack(&pack, 0, &mut budget, None).map(|entries| entries.len()),
        Ok(2)
    );
    assert_eq!(budget.used_bytes(), 1_300_000);
}
