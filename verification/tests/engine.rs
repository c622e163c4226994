use rand::{RngCore, SeedableRng};
use rand_chacha::ChaCha8Rng;
use urwtest_rs::console::{Message, Style};
use urwtest_rs::engine::pass::{PassStage, WritePass};
use urwtest_rs::engine::verifying::{FileVerifier, VerifyFailure, VerifyPass};
use urwtest_rs::engine::writing::{
    FileWriter, WriteAction, WriteEvent, WriteFailure, WriteOutcome, WriteStopReason,
};
use urwtest_rs::engine::{
    choose_chunk_size, cleanup_after_failure, cleanup_after_success, is_disk_full,
    is_file_too_large, seed_for, EngineError, FileRecord, TestReport, FALLBACK_CHUNK_SIZE,
    FAT_CHUNK_SIZE,
};
use urwtest_rs::manifest::{
    fnv1a_hash, make_test_file_name, parse_test_file_name, StateStatus, TestFile,
};
use urwtest_rs::pattern::{BlockSource, IO_BLOCK_SIZE};
use urwtest_rs::types::CleanupMode;

fn record_for(name: &str, expected_size: u64, actual_size: u64, seed: u64) -> FileRecord {
    FileRecord {
        file: TestFile {
            name: name.to_string(),
            pass: 1,
            total_passes: 1,
            index: 0,
            seed,
            actual_size,
        },
        expected_size,
        verified: false,
        passed: None,
    }
}

/// A device that has room for so many bytes and takes at most so many at once.
fn write_file(max_size: u64, seed: u64, room: usize, at_once: usize) -> (Vec<u8>, WriteOutcome) {
    let mut writer = FileWriter::new(max_size, seed);
    let mut held: Vec<u8> = Vec::new();
    loop {
        let event = match writer.action() {
            WriteAction::Finish(outcome) => return (held, outcome),
            WriteAction::Fail(failure) => panic!("{:?}", failure),
            WriteAction::Write => {
                let pending = writer.pending();
                let count = pending.len().min(at_once).min(room - held.len());
                if count == 0 {
                    WriteEvent::Failed(Some(28))
                } else {
                    held.extend_from_slice(&pending[..count]);
                    WriteEvent::Accepted(count)
                }
            }
            _ => WriteEvent::Done,
        };
        writer.step(event);
        assert_eq!(writer.written(), held.len() as u64);
    }
}

fn verify_file(file: &TestFile, held: &[u8]) -> Result<(), VerifyFailure> {
    let mut verifier = FileVerifier::new(file, held.len() as u64)?;
    let mut offset = 0;
    loop {
        let len = verifier.next_len();
        if len == 0 {
            return verifier.verdict();
        }
        verifier.check_block(&held[offset..offset + len]);
        offset += len;
    }
}

fn lines(messages: &[Message]) -> Vec<(Style, &str)> {
    messages.iter().map(|m| (m.style, m.text.as_str())).collect()
}

#[test]
fn write_and_verify_round_trip() {
    let expected_size = IO_BLOCK_SIZE as u64 + 12_345;
    let seed = 0x1234_5678_9abc_def0;

    let (held, outcome) = write_file(expected_size, seed, usize::MAX, usize::MAX);
    assert_eq!(outcome.actual_size, expected_size);
    assert_eq!(outcome.stop_reason, WriteStopReason::Complete);

    let record = record_for("round-trip.bin", expected_size, outcome.actual_size, seed);
    verify_file(&record.file, &held).unwrap();
}

#[test]
fn corruption_is_detected() {
    let expected_size = IO_BLOCK_SIZE as u64 + 12_345;
    let seed = 0x0fed_cba9_8765_4321;

    let (mut held, outcome) = write_file(expected_size, seed, usize::MAX, usize::MAX);
    assert_eq!(outcome.actual_size, expected_size);

    let replacement = if held[10] == 0xff { 0x00 } else { 0xff };
    held[10] = replacement;

    let record = record_for("corruption.bin", expected_size, outcome.actual_size, seed);
    assert!(verify_file(&record.file, &held).is_err());
}

#[test]
fn partial_file_data_can_be_verified() {
    let planned_size = 1024 * 1024;
    let actual_size = planned_size / 2;
    let seed = 42;

    let (held, outcome) = write_file(actual_size, seed, usize::MAX, usize::MAX);
    assert_eq!(outcome.actual_size, actual_size);

    // Capacity shortfall is tracked for the whole pass, so a partial final file
    // should still verify its actual contents successfully.
    let record = record_for("partial.bin", planned_size, actual_size, seed);
    verify_file(&record.file, &held).unwrap();
}

#[test]
fn fat_filesystems_use_2gib_chunks() {
    let total = 100 * 1024 * 1024 * 1024;
    assert_eq!(choose_chunk_size("FAT32", total), FAT_CHUNK_SIZE);
    assert_eq!(choose_chunk_size("vfat", total), FAT_CHUNK_SIZE);
    assert_eq!(choose_chunk_size("NTFS", total), total);
    assert_eq!(choose_chunk_size("exFAT", total), total);
}

#[test]
fn chunk_sizes_depend_on_the_file_system() {
    assert_eq!(FAT_CHUNK_SIZE, 2147483648);
    assert_eq!(FALLBACK_CHUNK_SIZE, 1073741824);
    for fs in ["fat", "FAT", "MsDos", "fat16", "xFAT16x", "my-fat32"] {
        assert_eq!(choose_chunk_size(fs, 5), FAT_CHUNK_SIZE, "{}", fs);
    }
    for fs in ["", "ext4", "vfat2", "fat12", "msdosfs"] {
        assert_eq!(choose_chunk_size(fs, 5), 5, "{}", fs);
    }
    assert_eq!(choose_chunk_size("ext4", 0), 1);
}

#[test]
fn the_data_is_that_of_the_generator() {
    let seed = 0xdead_beef;
    let size = 2 * IO_BLOCK_SIZE + 5;
    let (held, _) = write_file(size as u64, seed, usize::MAX, 1 << 18);
    let mut rng = ChaCha8Rng::seed_from_u64(seed);
    let mut expected = vec![0u8; size];
    rng.fill_bytes(&mut expected);
    assert_eq!(held, expected);
    assert!(held[..64].iter().any(|&b| b != 0));
}

#[test]
fn data_comes_in_blocks() {
    let mut source = BlockSource::new(7, IO_BLOCK_SIZE as u64 + 3);
    assert_eq!(source.next_len(), IO_BLOCK_SIZE);
    assert_eq!(source.next_block().len(), IO_BLOCK_SIZE);
    assert_eq!(source.position(), IO_BLOCK_SIZE as u64);
    assert_eq!(source.next_len(), 3);
    assert_eq!(source.next_block().len(), 3);
    assert_eq!(source.next_len(), 0);
    assert!(source.next_block().is_empty());
}

#[test]
fn seeds_differ_by_pass_and_file() {
    assert_eq!(seed_for(1, 0), fnv1a_hash(&[1, 0, 0, 0, 0, 0, 0, 0]));
    assert_eq!(seed_for(0x01020304, 0xa0b0c0d0), fnv1a_hash(&[4, 3, 2, 1, 0xd0, 0xc0, 0xb0, 0xa0]));
    assert_ne!(seed_for(1, 0), seed_for(0, 1));
    assert_ne!(seed_for(1, 0), seed_for(2, 0));
}

#[test]
fn errors_of_the_operating_system_are_told_apart() {
    for code in [28, 39, 112] {
        assert!(is_disk_full(Some(code)) && !is_file_too_large(Some(code)));
    }
    for code in [27, 223, 665] {
        assert!(is_file_too_large(Some(code)) && !is_disk_full(Some(code)));
    }
    for code in [None, Some(0), Some(5), Some(-28)] {
        assert!(!is_disk_full(code) && !is_file_too_large(code));
    }
}

#[test]
fn a_full_disk_leaves_a_file_that_verifies() {
    let seed = 99;
    let room = IO_BLOCK_SIZE + 1000;
    let (held, outcome) = write_file(3 * IO_BLOCK_SIZE as u64, seed, room, 300_001);
    assert_eq!(outcome.actual_size, room as u64);
    assert_eq!(outcome.stop_reason, WriteStopReason::DiskFull);
    let record = record_for("full.bin", 3 * IO_BLOCK_SIZE as u64, outcome.actual_size, seed);
    verify_file(&record.file, &held).unwrap();
}

#[test]
fn an_empty_file_is_complete() {
    let (held, outcome) = write_file(0, 1, 0, 0);
    assert!(held.is_empty());
    assert_eq!(outcome, WriteOutcome { actual_size: 0, stop_reason: WriteStopReason::Complete });
}

#[test]
fn each_operation_can_stop_or_fail_the_writing() {
    let outcome = |reason, size| WriteAction::Finish(WriteOutcome {
        actual_size: size,
        stop_reason: reason,
    });

    for (code, after) in [
        (Some(28), outcome(WriteStopReason::DiskFull, 0)),
        (Some(27), outcome(WriteStopReason::FileTooLarge, 0)),
        (Some(13), WriteAction::Fail(WriteFailure::Create)),
        (None, WriteAction::Fail(WriteFailure::Create)),
    ] {
        let mut writer = FileWriter::new(10, 1);
        assert_eq!(writer.action(), WriteAction::Create);
        writer.step(WriteEvent::Failed(code));
        assert_eq!(writer.action(), after);
    }

    let mut writer = FileWriter::new(10, 1);
    writer.step(WriteEvent::Done);
    assert_eq!(writer.pending().len(), 10);
    writer.step(WriteEvent::Accepted(4));
    assert_eq!(writer.pending().len(), 6);
    writer.step(WriteEvent::Failed(Some(223)));
    let stopped = WriteOutcome { actual_size: 4, stop_reason: WriteStopReason::FileTooLarge };
    assert_eq!(writer.action(), WriteAction::FlushAnyway(stopped));
    writer.step(WriteEvent::Failed(Some(5)));
    assert_eq!(writer.action(), WriteAction::Finish(stopped));

    let mut writer = FileWriter::new(10, 1);
    writer.step(WriteEvent::Done);
    writer.step(WriteEvent::Failed(Some(5)));
    assert_eq!(writer.action(), WriteAction::Fail(WriteFailure::Write));

    let mut writer = FileWriter::new(10, 1);
    writer.step(WriteEvent::Done);
    writer.step(WriteEvent::Accepted(0));
    assert_eq!(writer.action(), WriteAction::Fail(WriteFailure::Zero));

    for (code, flushed, synced) in [
        (
            Some(112),
            outcome(WriteStopReason::DiskFull, 10),
            outcome(WriteStopReason::DiskFull, 10),
        ),
        (
            Some(665),
            outcome(WriteStopReason::FileTooLarge, 10),
            outcome(WriteStopReason::FileTooLarge, 10),
        ),
        (
            Some(5),
            WriteAction::Fail(WriteFailure::Flush),
            WriteAction::Fail(WriteFailure::Sync),
        ),
    ] {
        let mut writer = FileWriter::new(10, 1);
        writer.step(WriteEvent::Done);
        writer.step(WriteEvent::Accepted(10));
        assert_eq!(writer.action(), WriteAction::Flush);
        writer.step(WriteEvent::Failed(code));
        assert_eq!(writer.action(), flushed);

        let mut writer = FileWriter::new(10, 1);
        writer.step(WriteEvent::Done);
        writer.step(WriteEvent::Accepted(10));
        writer.step(WriteEvent::Done);
        assert_eq!(writer.action(), WriteAction::Sync);
        writer.step(WriteEvent::Failed(code));
        assert_eq!(writer.action(), synced);
    }
}

#[test]
fn write_failures_name_the_file() {
    assert_eq!(WriteFailure::Create.message("/a/b"), "failed to create /a/b");
    assert_eq!(WriteFailure::Write.message("/a/b"), "failed to write /a/b");
    assert_eq!(WriteFailure::Zero.message("/a/b"), "write returned zero");
    assert_eq!(WriteFailure::Flush.message("/a/b"), "failed to flush /a/b");
    assert_eq!(WriteFailure::Sync.message("/a/b"), "failed to sync /a/b");
}

#[test]
fn every_changed_block_is_found() {
    let size = 2 * IO_BLOCK_SIZE + 10;
    let seed = 3;
    let (held, _) = write_file(size as u64, seed, usize::MAX, usize::MAX);
    let record = record_for("x.bin", size as u64, size as u64, seed);
    for at in [0, IO_BLOCK_SIZE - 1, IO_BLOCK_SIZE, 2 * IO_BLOCK_SIZE, size - 1] {
        let mut changed = held.clone();
        changed[at] ^= 1;
        match verify_file(&record.file, &changed) {
            Err(VerifyFailure::Mismatch { offset }) => {
                assert_eq!(offset, (at / IO_BLOCK_SIZE * IO_BLOCK_SIZE) as u64)
            }
            other => panic!("{:?}", other),
        }
    }
    match verify_file(&record.file, &held[..size - 1]) {
        Err(VerifyFailure::SizeChanged { expected, found }) => {
            assert_eq!((expected, found), (size as u64, size as u64 - 1))
        }
        other => panic!("{:?}", other),
    }
}

#[test]
fn verify_failures_say_what_is_wrong() {
    let verifier = FileVerifier::new(&record_for("x", 5, 5, 1).file, 5).ok().unwrap();
    assert_eq!(verifier.read_failed("broken").message(), "read error at 0 B: broken");
    assert_eq!(
        VerifyFailure::CannotStat("gone".to_string()).message(),
        "cannot stat file: gone"
    );
    assert_eq!(
        VerifyFailure::CannotOpen("denied".to_string()).message(),
        "cannot open file: denied"
    );
    assert_eq!(
        VerifyFailure::SizeChanged { expected: 1024, found: 10 }.message(),
        "file size changed: expected 1.00 KiB, found 10 B"
    );
    assert_eq!(
        VerifyFailure::Mismatch { offset: 1048576 }.message(),
        "data mismatch at 1.00 MiB"
    );
}

#[test]
fn a_pass_needs_some_free_space() {
    match WritePass::start("/mnt/usb", "ext4", 1, 1, 1048575) {
        Err(error) => assert_eq!(
            error.message(),
            "not enough free space on /mnt/usb to start a test (1024.00 KiB available)"
        ),
        Ok(_) => panic!("started"),
    }
    assert!(WritePass::start("/mnt/usb", "ext4", 1, 1, 1048576).is_ok());
}

#[test]
fn a_pass_fills_the_free_space_in_chunks() {
    let total = 5 * 1024 * 1024 * 1024;
    let mut pass = WritePass::start("/mnt/usb", "vfat", 2, 3, total).unwrap();
    let mut sizes = Vec::new();
    while pass.data().stage == PassStage::Writing {
        let plan = pass.plan();
        assert_eq!(plan.name, make_test_file_name(2, 3, sizes.len() as u32, plan.seed));
        assert_eq!(plan.seed, seed_for(2, sizes.len() as u32));
        sizes.push(plan.size);
        let outcome =
            WriteOutcome { actual_size: plan.size, stop_reason: WriteStopReason::Complete };
        assert!(pass.record(outcome).is_empty());
    }
    assert_eq!(sizes, vec![FAT_CHUNK_SIZE, FAT_CHUNK_SIZE, 1024 * 1024 * 1024]);
    assert_eq!(pass.data().stage, PassStage::Finished);
    let (result, messages) = pass.finish();
    assert!(messages.is_empty());
    assert_eq!(result.files.len(), 3);
    assert_eq!((result.expected_total, result.actual_total), (total, total));
    assert!(result.capacity_ok);
    assert!(result.files.iter().all(|f| !f.verified && f.passed.is_none()));
    for i in 0..3 {
        for j in 0..i {
            assert_ne!(result.files[i].file.name, result.files[j].file.name);
        }
        let found = parse_test_file_name(&result.files[i].file.name).unwrap();
        assert_eq!((found.pass, found.total_passes, found.index), (2, 3, i as u32));
        assert_eq!(found.seed, result.files[i].file.seed);
    }
}

#[test]
fn a_rejected_file_makes_the_chunks_smaller_once() {
    let total = 3 * FALLBACK_CHUNK_SIZE;
    let mut pass = WritePass::start("/mnt/usb", "ntfs", 1, 1, total).unwrap();
    assert_eq!(pass.plan().size, total);
    assert_eq!(
        pass.plan().message().text,
        format!("  writing {} (up to 3.00 GiB)", pass.plan().name)
    );
    let rejected = WriteOutcome { actual_size: 0, stop_reason: WriteStopReason::FileTooLarge };
    assert_eq!(
        lines(&pass.record(rejected)),
        vec![(
            Style::Warn,
            "  filesystem rejected a 3.00 GiB file; falling back to 1.00 GiB chunks"
        )]
    );
    assert_eq!(pass.data().stage, PassStage::Writing);
    assert_eq!((pass.plan().size, pass.plan().index), (FALLBACK_CHUNK_SIZE, 1));
    assert!(pass.record(rejected).is_empty());
    assert_eq!(pass.data().stage, PassStage::Rejected);
    assert_eq!(
        EngineError::FileRejected.message(),
        "filesystem rejected a 1.00 GiB file as too large"
    );
}

#[test]
fn a_full_disk_ends_a_pass() {
    let mib = 1024 * 1024;
    for (written, ok) in [(36 * mib, true), (36 * mib - 1, false)] {
        let mut pass = WritePass::start("/mnt/usb", "ext4", 1, 1, 100 * mib).unwrap();
        pass.record(WriteOutcome { actual_size: written, stop_reason: WriteStopReason::DiskFull });
        assert_eq!(pass.data().stage, PassStage::Finished);
        let (result, messages) = pass.finish();
        assert_eq!(result.capacity_ok, ok);
        assert_eq!(result.actual_total, written);
        if ok {
            assert!(messages.is_empty());
        } else {
            assert_eq!(
                lines(&messages),
                vec![(Style::Fail, "  capacity shortfall: wrote 36.00 MiB of 100.00 MiB")]
            );
        }
    }
    let tib = 1024 * 1024 * mib;
    for (written, ok) in [(tib - tib / 100, true), (tib - tib / 100 - 1, false)] {
        let mut pass = WritePass::start("/mnt/usb", "ext4", 1, 1, tib).unwrap();
        pass.record(WriteOutcome { actual_size: written, stop_reason: WriteStopReason::DiskFull });
        assert_eq!(pass.finish().0.capacity_ok, ok);
    }
}

#[test]
fn all_files_are_verified_unless_a_failure_stops_it() {
    let files = |names: [&str; 3]| names.iter().map(|n| record_for(n, 1, 1, 1)).collect::<Vec<_>>();

    let mut pass = VerifyPass::new(files(["a", "b", "c"]), false);
    assert_eq!(pass.current(), Some(0));
    assert_eq!(lines(&pass.record(Ok(()))), vec![(Style::Good, "OK   a")]);
    assert_eq!(
        lines(&pass.record(Err(VerifyFailure::Mismatch { offset: 0 }))),
        vec![(Style::Fail, "FAIL b"), (Style::Fail, "     data mismatch at 0 B")]
    );
    assert_eq!(pass.current(), Some(2));
    pass.record(Ok(()));
    assert_eq!(pass.current(), None);
    let result = pass.finish();
    assert!(!result.data_ok);
    assert_eq!((result.passed, result.failed), (2, 1));
    assert_eq!(result.failed_files, vec!["b".to_string()]);
    assert_eq!(
        result.files.iter().map(|f| f.passed).collect::<Vec<_>>(),
        vec![Some(true), Some(false), Some(true)]
    );

    let mut pass = VerifyPass::new(files(["a", "b", "c"]), true);
    pass.record(Err(VerifyFailure::Mismatch { offset: 0 }));
    assert_eq!(pass.current(), None);
    let result = pass.finish();
    assert_eq!((result.passed, result.failed), (0, 1));
    assert!(!result.files[1].verified);

    let mut pass = VerifyPass::new(files(["a", "b", "c"]), true);
    for _ in 0..3 {
        pass.record(Ok(()));
    }
    assert!(pass.finish().data_ok);
    assert!(VerifyPass::new(Vec::new(), true).finish().data_ok);
}

#[test]
fn cleanup_depends_on_the_mode() {
    assert!(cleanup_after_success(CleanupMode::Always));
    assert!(cleanup_after_success(CleanupMode::OnSuccess));
    assert!(!cleanup_after_success(CleanupMode::Never));
    assert!(cleanup_after_failure(CleanupMode::Always));
    assert!(!cleanup_after_failure(CleanupMode::OnSuccess));
    assert!(!cleanup_after_failure(CleanupMode::Never));
}

#[test]
fn engine_errors_say_what_is_wrong() {
    let target = || "/mnt/usb".to_string();
    for (error, message) in [
        (EngineError::AllPassesComplete, "all passes on this volume are already complete"),
        (
            EngineError::TestFilesExist(target()),
            "test files already exist on /mnt/usb; use --force to discard them",
        ),
        (
            EngineError::PendingExists(target()),
            "pending verification data exists on /mnt/usb; run `urwtest-rs verify --target /mnt/usb` first, or use --force",
        ),
        (
            EngineError::CompletedExists(target()),
            "a completed test already exists on /mnt/usb; use --force to start over",
        ),
        (
            EngineError::FailedExists(target()),
            "a failed test state exists on /mnt/usb; use --force to start over",
        ),
        (
            EngineError::InterruptedExists(target()),
            "an interrupted test state exists on /mnt/usb; use --force to start over",
        ),
        (EngineError::NoTestData(target()), "no test data found on /mnt/usb"),
        (
            EngineError::NotPending(target(), StateStatus::PassComplete),
            "no pending verification data on /mnt/usb (status: PassComplete)",
        ),
    ] {
        assert_eq!(error.message(), message);
    }
}

#[test]
fn a_new_report_is_blank() {
    let report = TestReport::new("/mnt/usb");
    assert_eq!(report.target, "/mnt/usb");
    assert_eq!((report.passes_total, report.files_total, report.expected_total), (0, 0, 0));
    assert!(!report.success && !report.capacity_ok && !report.pending_verify);
    assert!(report.failed_files.is_empty());
    let report = TestReport::default();
    assert!(report.target.is_empty() && report.passes_total == 0 && !report.success);
}
