use unpacker::progress::{get_file_transfer_progress_map, get_progress_map, ProgressEntry};

#[test]
fn query_never_initialized_is_none() {
    let m = get_progress_map();
    assert_eq!(m.query("a.zip"), None);
    assert_eq!(m.entry("a.zip"), None);
}

#[test]
fn initialize_makes_key_visible() {
    let mut m = get_progress_map();
    m.initialize("a.zip");
    assert_eq!(m.query("a.zip"), Some((0, 0)));
    assert_eq!(m.entry("a.zip"), Some(ProgressEntry { extracted: 0, total: 0 }));
}

#[test]
fn initialize_overwrites_prior_entry() {
    let mut m = get_progress_map();
    m.initialize("a.zip");
    m.set_total("a.zip", 500);
    m.add_extracted("a.zip", 100);
    m.initialize("a.zip");
    assert_eq!(m.entry("a.zip"), Some(ProgressEntry { extracted: 0, total: 0 }));
}

#[test]
fn set_total_records_expected_bytes() {
    let mut m = get_progress_map();
    m.initialize("a.zip");
    m.set_total("a.zip", 9000);
    assert_eq!(m.query("a.zip"), Some((0, 9000)));
}

#[test]
fn set_total_on_absent_key_is_noop() {
    let mut m = get_progress_map();
    m.set_total("a.zip", 9000);
    assert_eq!(m.entry("a.zip"), None);
    assert_eq!(m.query("a.zip"), None);
}

#[test]
fn add_extracted_accumulates() {
    let mut m = get_progress_map();
    m.initialize("a.zip");
    m.set_total("a.zip", 9000);
    m.add_extracted("a.zip", 3000);
    assert_eq!(m.query("a.zip"), Some((3000, 9000)));
    m.add_extracted("a.zip", 2000);
    assert_eq!(m.query("a.zip"), Some((5000, 9000)));
}

#[test]
fn add_extracted_on_absent_key_is_noop() {
    let mut m = get_progress_map();
    m.add_extracted("a.zip", 3000);
    assert_eq!(m.entry("a.zip"), None);
}

#[test]
fn add_extracted_saturates_instead_of_wrapping() {
    let mut m = get_progress_map();
    m.initialize("a.zip");
    m.set_total("a.zip", 5);
    m.add_extracted("a.zip", u64::MAX);
    m.add_extracted("a.zip", 10);
    assert_eq!(m.entry("a.zip"), Some(ProgressEntry { extracted: u64::MAX, total: 5 }));
}

#[test]
fn completed_extraction_queries_none() {
    let mut m = get_progress_map();
    m.initialize("a.zip");
    m.set_total("a.zip", 9000);
    m.add_extracted("a.zip", 9000);
    assert_eq!(m.query("a.zip"), None);
    assert_eq!(m.entry("a.zip"), Some(ProgressEntry { extracted: 9000, total: 9000 }));
}

#[test]
fn finalize_marks_completion_even_with_missed_increments() {
    let mut m = get_progress_map();
    m.initialize("a.zip");
    m.set_total("a.zip", 9000);
    m.add_extracted("a.zip", 4000);
    m.finalize("a.zip");
    assert_eq!(m.query("a.zip"), None);
    assert_eq!(m.entry("a.zip"), Some(ProgressEntry { extracted: 9000, total: 9000 }));
}

#[test]
fn finalize_is_idempotent() {
    let mut m = get_progress_map();
    m.initialize("a.zip");
    m.set_total("a.zip", 9000);
    m.add_extracted("a.zip", 9000);
    m.finalize("a.zip");
    let once = m.entry("a.zip");
    m.finalize("a.zip");
    let twice = m.entry("a.zip");
    assert_eq!(once, twice);
    assert_eq!(twice, Some(ProgressEntry { extracted: 9000, total: 9000 }));
}

#[test]
fn finalize_on_absent_key_is_noop() {
    let mut m = get_progress_map();
    m.finalize("a.zip");
    assert_eq!(m.entry("a.zip"), None);
}

#[test]
fn zero_total_reads_as_initializing_not_complete() {
    let mut m = get_progress_map();
    m.initialize("a.zip");
    m.finalize("a.zip");
    assert_eq!(m.query("a.zip"), Some((0, 0)));
}

#[test]
fn keys_are_tracked_independently() {
    let mut m = get_progress_map();
    m.initialize("a.zip");
    m.initialize("b.zip");
    m.set_total("a.zip", 100);
    m.set_total("b.zip", 200);
    m.add_extracted("a.zip", 10);
    assert_eq!(m.query("a.zip"), Some((10, 100)));
    assert_eq!(m.query("b.zip"), Some((0, 200)));
}

#[test]
fn zip_extraction_progress_scenario() {
    // Three files totaling 9000 bytes: every poll before completion sees
    // the known total and an extracted count within it; after completion
    // the key reads as None.
    let mut m = get_progress_map();
    m.initialize("a.zip");
    m.set_total("a.zip", 9000);
    for delta in [2000, 3000, 3500] {
        m.add_extracted("a.zip", delta);
        let (x, total) = m.query("a.zip").expect("still in progress");
        assert_eq!(total, 9000);
        assert!(x <= 9000);
    }
    m.finalize("a.zip");
    assert_eq!(m.query("a.zip"), None);
}

#[test]
fn transfer_progress_set_and_get() {
    let mut t = get_file_transfer_progress_map();
    assert_eq!(t.get(), (0, 0));
    t.set(3, 10);
    assert_eq!(t.get(), (3, 10));
    t.set(10, 10);
    assert_eq!(t.get(), (10, 10));
}
