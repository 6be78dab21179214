use rusty_archiver::error::ArchiveError;
use rusty_archiver::hashing::{legacy_digest, strong_digest};
use rusty_archiver::hex::to_hex;
use rusty_archiver::manifest::{
    compare_manifests, parse_checksums, render_manifest, verify_manifests, HashOutcome,
    ManifestIndex,
};
use rusty_archiver::naming::{
    artifact_name, finalize_name, finalized_name, pack_args, plan_pack, source_manifest_name,
    unpack_args, unpacked_manifest_name, verification_dir_name, verify_copy,
};
use rusty_archiver::pipeline::{Action, Event, Phase, Pipeline, Stage};

fn outcome(digest: Option<&[u8]>, path: &str) -> HashOutcome {
    HashOutcome { digest: digest.map(|d| d.to_vec()), path: path.as_bytes().to_vec() }
}

fn manifest_of(files: &[(&str, &[u8])]) -> Vec<u8> {
    let outcomes: Vec<HashOutcome> = files
        .iter()
        .map(|(p, c)| HashOutcome { digest: Some(strong_digest(c)), path: p.as_bytes().to_vec() })
        .collect();
    render_manifest(&outcomes)
}

#[test]
fn hex_renders_lowercase_pairs() {
    assert_eq!(to_hex(&[0x00, 0xff, 0x1a, 0x09]), b"00ff1a09".to_vec());
    assert_eq!(to_hex(&[]), Vec::<u8>::new());
}

#[test]
fn strong_digest_known_values() {
    assert_eq!(
        strong_digest(b""),
        b"e3b0c44298fc1c149afbf4c8996fb92427ae41e4649b934ca495991b7852b855".to_vec()
    );
    assert_eq!(
        strong_digest(b"abc"),
        b"ba7816bf8f01cfea414140de5dae2223b00361a396177a9cb410ff61f20015ad".to_vec()
    );
}

#[test]
fn legacy_digest_known_values() {
    assert_eq!(legacy_digest(b""), b"d41d8cd98f00b204e9800998ecf8427e".to_vec());
    assert_eq!(legacy_digest(b"abc"), b"900150983cd24fb0d6963f7d28e17f72".to_vec());
}

#[test]
fn strong_digest_is_idempotent() {
    let data = b"some file content\n".to_vec();
    assert_eq!(strong_digest(&data), strong_digest(&data));
}

#[test]
fn render_drops_unreadable_files() {
    let outcomes = vec![
        outcome(Some(b"aa11"), "/t/a.txt"),
        outcome(None, "/t/locked.txt"),
        outcome(Some(b"bb22"), "/t/dir/with space.txt"),
    ];
    assert_eq!(render_manifest(&outcomes), b"aa11 /t/a.txt\nbb22 /t/dir/with space.txt\n".to_vec());
}

#[test]
fn parse_takes_text_before_first_space() {
    let text = b"abc /p/one\nmalformed\ndef /p/two words\nlast no newline";
    let digests = parse_checksums(text);
    assert_eq!(digests, vec![b"abc".to_vec(), b"def".to_vec(), b"last".to_vec()]);
}

#[test]
fn malformed_line_contributes_nothing() {
    let with_bad = b"nospacehere\nabc /p\n";
    let index = ManifestIndex::parse(with_bad);
    assert_eq!(index.len(), 1);
    assert_eq!(index.count(b"abc"), 1);
    assert_eq!(index.count(b"nospacehere"), 0);
    assert!(compare_manifests(with_bad, b"abc /q\n"));
}

#[test]
fn index_counts_repeats() {
    let index = ManifestIndex::parse(b"x /a\nx /b\ny /c\n");
    assert_eq!(index.len(), 3);
    assert_eq!(index.count(b"x"), 2);
    assert_eq!(index.count(b"y"), 1);
    assert_eq!(index.count(b"z"), 0);
}

#[test]
fn comparison_ignores_paths_and_order() {
    assert!(compare_manifests(b"x /src/a\ny /src/b\n", b"y /tmp/v/b\nx /tmp/v/a\n"));
}

#[test]
fn comparison_counts_duplicates() {
    assert!(!compare_manifests(b"x /a\nx /b\ny /c\n", b"x /a\ny /b\ny /c\n"));
    assert!(!compare_manifests(b"x /a\nx /b\n", b"x /a\n"));
}

#[test]
fn round_trip_manifests_match() {
    let source = manifest_of(&[("/src/d/a.txt", b"alpha"), ("/src/d/b.bin", b"\x00\x01\x02")]);
    let unpacked = manifest_of(&[
        ("/tmp/temp_verification/d/b.bin", b"\x00\x01\x02"),
        ("/tmp/temp_verification/d/a.txt", b"alpha"),
    ]);
    assert!(compare_manifests(&source, &unpacked));
    assert_eq!(verify_manifests(&source, &unpacked), Ok(()));
}

#[test]
fn tampered_file_is_detected() {
    let source = manifest_of(&[("/src/d/a.txt", b"alpha"), ("/src/d/b.txt", b"beta")]);
    let unpacked = manifest_of(&[("/tmp/v/d/a.txt", b"alpha"), ("/tmp/v/d/b.txt", b"betA")]);
    assert!(!compare_manifests(&source, &unpacked));
    assert_eq!(verify_manifests(&source, &unpacked), Err(ArchiveError::ChecksumMismatch));
}

#[test]
fn missing_file_is_detected() {
    let source = manifest_of(&[("/src/d/a.txt", b"alpha"), ("/src/d/b.txt", b"beta")]);
    let unpacked = manifest_of(&[("/tmp/v/d/a.txt", b"alpha")]);
    assert_eq!(verify_manifests(&source, &unpacked), Err(ArchiveError::ChecksumMismatch));
}

#[test]
fn empty_tree_verifies() {
    let empty = render_manifest(&Vec::new());
    assert!(empty.is_empty());
    assert_eq!(ManifestIndex::parse(&empty).len(), 0);
    assert_eq!(verify_manifests(&empty, &empty), Ok(()));
    let one = manifest_of(&[("/src/a", b"a")]);
    assert_eq!(verify_manifests(&empty, &one), Err(ArchiveError::ChecksumMismatch));
}

#[test]
fn finalization_naming() {
    assert_eq!(
        finalized_name(b"d41d8cd98f00b204e9800998ecf8427e", b"data.tgz"),
        b"d41d8cd98f00b204e9800998ecf8427e_data.tgz".to_vec()
    );
    assert_eq!(finalize_name(b"", b"data.tgz"), b"d41d8cd98f00b204e9800998ecf8427e_data.tgz".to_vec());
    assert_eq!(finalize_name(b"abc", b"x.tgz"), b"900150983cd24fb0d6963f7d28e17f72_x.tgz".to_vec());
}

#[test]
fn copy_identity_check() {
    let artifact: Vec<u8> = (0u8..200).collect();
    assert_eq!(verify_copy(&artifact, &artifact.clone()), Ok(()));
    let mut corrupted = artifact.clone();
    corrupted[17] ^= 0x01;
    assert_eq!(verify_copy(&artifact, &corrupted), Err(ArchiveError::CopyMismatch));
    let truncated = artifact[..199].to_vec();
    assert_eq!(verify_copy(&artifact, &truncated), Err(ArchiveError::CopyMismatch));
}

#[test]
fn file_names() {
    assert_eq!(artifact_name(b"data"), b"data.tgz".to_vec());
    assert_eq!(source_manifest_name(b"data"), b"data_checksum.txt".to_vec());
    assert_eq!(unpacked_manifest_name(b"data"), b"data_checksum_decompressed.txt".to_vec());
    assert_eq!(verification_dir_name(), b"temp_verification".to_vec());
}

#[test]
fn pack_plan_checks_name_and_parent() {
    assert!(matches!(plan_pack(None, Some(b"/".to_vec())), Err(ArchiveError::NoFolderName)));
    assert!(matches!(plan_pack(Some(b"data".to_vec()), Some(Vec::new())), Err(ArchiveError::NoParentDir)));
    let plan = plan_pack(Some(b"data".to_vec()), Some(b"/home/u".to_vec())).unwrap();
    assert_eq!(plan.folder_name, b"data".to_vec());
    assert_eq!(plan.parent_dir, b"/home/u".to_vec());
    assert_eq!(plan.artifact_name, b"data.tgz".to_vec());
    let rootless = plan_pack(Some(b"data".to_vec()), None).unwrap();
    assert_eq!(rootless.parent_dir, b".".to_vec());
}

#[test]
fn tool_arguments() {
    assert_eq!(
        pack_args(b"/tmp/data.tgz", b"/home/u", b"data"),
        vec![b"-czf".to_vec(), b"/tmp/data.tgz".to_vec(), b"-C".to_vec(), b"/home/u".to_vec(), b"data".to_vec()]
    );
    assert_eq!(
        unpack_args(b"/tmp/data.tgz", b"/tmp/temp_verification"),
        vec![b"-xzf".to_vec(), b"/tmp/data.tgz".to_vec(), b"-C".to_vec(), b"/tmp/temp_verification".to_vec()]
    );
}

#[test]
fn missing_destination_with_move_flag() {
    assert!(matches!(Pipeline::new(true, false), Err(ArchiveError::MissingArchiveDir)));
    assert!(Pipeline::new(true, true).is_ok());
    assert!(Pipeline::new(false, false).is_ok());
    assert_eq!(ArchiveError::MissingArchiveDir.message(), "Archive directory not specified.".to_string());
}

#[test]
fn pipeline_happy_path_with_copy() {
    let mut p = Pipeline::new(true, true).unwrap();
    assert_eq!(p.step(Event::Start), Action::HashSourceAndPack);
    assert_eq!(p.step(Event::Packed(true)), Action::Unpack);
    assert_eq!(p.step(Event::SourceHashed(true)), Action::Wait);
    assert_eq!(p.step(Event::Unpacked(true)), Action::Rehash);
    assert_eq!(p.step(Event::Rehashed(true)), Action::Compare);
    assert_eq!(p.step(Event::Compared(true)), Action::Rename);
    assert_eq!(p.step(Event::Renamed(true)), Action::CopyAndVerify);
    assert_eq!(p.step(Event::CopyChecked(true)), Action::Succeed);
    assert_eq!(p.phase, Phase::Done);
    assert!(p.is_finished());
    assert_eq!(p.step(Event::Compared(true)), Action::Wait);
    assert_eq!(p.phase, Phase::Done);
}

#[test]
fn pipeline_waits_for_source_manifest() {
    let mut p = Pipeline::new(false, false).unwrap();
    p.step(Event::Start);
    p.step(Event::Packed(true));
    p.step(Event::Unpacked(true));
    assert_eq!(p.step(Event::Rehashed(true)), Action::Wait);
    assert_eq!(p.phase, Phase::AwaitingSource);
    assert_eq!(p.step(Event::SourceHashed(true)), Action::Compare);
    assert_eq!(p.step(Event::Compared(true)), Action::Rename);
    assert_eq!(p.step(Event::Renamed(true)), Action::Succeed);
}

#[test]
fn pipeline_mismatch_fails_without_rename() {
    let mut p = Pipeline::new(false, false).unwrap();
    p.step(Event::Start);
    p.step(Event::SourceHashed(true));
    p.step(Event::Packed(true));
    p.step(Event::Unpacked(true));
    p.step(Event::Rehashed(true));
    assert_eq!(p.step(Event::Compared(false)), Action::Fail(Stage::Comparing));
    assert_eq!(p.phase, Phase::Failed(Stage::Comparing));
    assert_eq!(p.step(Event::Compared(true)), Action::Wait);
    assert_eq!(p.phase, Phase::Failed(Stage::Comparing));
}

#[test]
fn pipeline_stage_failures() {
    let mut p = Pipeline::new(false, false).unwrap();
    p.step(Event::Start);
    assert_eq!(p.step(Event::Packed(false)), Action::Fail(Stage::Packing));
    let mut q = Pipeline::new(true, true).unwrap();
    q.step(Event::Start);
    assert_eq!(q.step(Event::SourceHashed(false)), Action::Fail(Stage::SourceHashing));
    let mut c = Pipeline::new(true, true).unwrap();
    for e in [Event::Start, Event::SourceHashed(true), Event::Packed(true), Event::Unpacked(true), Event::Rehashed(true), Event::Compared(true), Event::Renamed(true)] {
        c.step(e);
    }
    assert_eq!(c.step(Event::CopyChecked(false)), Action::Fail(Stage::Copying));
}

#[test]
fn parse_splits_at_first_ascii_whitespace() {
    assert_eq!(parse_checksums(b"abc\t/x/f"), vec![b"abc".to_vec()]);
    assert_eq!(parse_checksums(b"abc\x0c/x/f\ndef\t \t/y\n"), vec![b"abc".to_vec(), b"def".to_vec()]);
    assert!(compare_manifests(b"abc\t/x/f\n", b"abc /y/f\n"));
}

#[test]
fn parse_treats_crlf_as_line_ending() {
    assert_eq!(parse_checksums(b"abc /x\r\ndef /y\r\n"), vec![b"abc".to_vec(), b"def".to_vec()]);
    assert_eq!(parse_checksums(b"nospace\r\nabc /x\r\n"), vec![b"abc".to_vec()]);
    assert_eq!(parse_checksums(b"abc\rdef /x\n"), vec![b"abc".to_vec()]);
}

#[test]
fn error_messages() {
    assert_eq!(ArchiveError::NoFolderName.message(), "The folder to archive has no valid name".to_string());
    assert_eq!(ArchiveError::ChecksumMismatch.message(), "Checksum mismatch".to_string());
    assert_eq!(ArchiveError::CopyMismatch.message(), "MD5 mismatch between artifact and copied file".to_string());
}
