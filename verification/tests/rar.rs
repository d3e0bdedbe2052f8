use unpacker::rar::{RarAction, RarEvent, RarPhase, RarWalk};

#[test]
fn walk_success_restores_directory() {
    let mut w = RarWalk::start();
    assert!(w.in_output_dir);
    assert!(!w.is_done());
    assert_eq!(w.step(RarEvent::FileHeader), RarAction::ExtractEntry);
    assert_eq!(w.step(RarEvent::DirectoryHeader), RarAction::SkipEntry);
    assert_eq!(w.step(RarEvent::FileHeader), RarAction::ExtractEntry);
    assert_eq!(w.step(RarEvent::EndOfArchive), RarAction::RestoreDir);
    assert!(w.is_done());
    assert!(w.succeeded());
    assert!(!w.in_output_dir);
    assert_eq!(w.phase, RarPhase::Done { ok: true });
}

#[test]
fn walk_failure_restores_directory() {
    // A truncated archive fails mid-walk; the finishing transition still
    // restores the working directory.
    let mut w = RarWalk::start();
    assert_eq!(w.step(RarEvent::FileHeader), RarAction::ExtractEntry);
    assert_eq!(w.step(RarEvent::Failure), RarAction::RestoreDir);
    assert!(w.is_done());
    assert!(!w.succeeded());
    assert!(!w.in_output_dir);
    assert_eq!(w.phase, RarPhase::Done { ok: false });
}

#[test]
fn walk_of_empty_archive_succeeds() {
    let mut w = RarWalk::start();
    assert_eq!(w.step(RarEvent::EndOfArchive), RarAction::RestoreDir);
    assert!(w.succeeded());
    assert!(!w.in_output_dir);
}

#[test]
fn directory_entries_are_skipped_not_extracted() {
    let mut w = RarWalk::start();
    assert_eq!(w.step(RarEvent::DirectoryHeader), RarAction::SkipEntry);
    assert_eq!(w.step(RarEvent::DirectoryHeader), RarAction::SkipEntry);
    assert!(!w.is_done());
    assert!(w.in_output_dir);
}
