use onodejs::{marked_name, probe};

#[test]
fn probe_finds_bare_directory() {
    let found = probe("16.0.0", true, false).unwrap();
    assert_eq!(found.version(), "16.0.0");
    assert_eq!(found.lts_tag(), None);
}

#[test]
fn probe_finds_marked_directory() {
    let found = probe("16.0.0", false, true).unwrap();
    assert_eq!(found.version(), "v16.0.0");
    assert_eq!(found.lts_tag(), None);
}

#[test]
fn probe_prefers_bare_directory() {
    let found = probe("16.0.0", true, true).unwrap();
    assert_eq!(found.version(), "16.0.0");
}

#[test]
fn probe_finds_nothing_without_directory() {
    assert!(probe("16.0.0", false, false).is_none());
}

#[test]
fn probe_of_empty_version_counts_only_marked_form() {
    assert!(probe("", true, false).is_none());
    assert!(probe("", false, false).is_none());
    assert_eq!(probe("", true, true).unwrap().version(), "v");
    assert_eq!(probe("", false, true).unwrap().version(), "v");
}

#[test]
fn marked_name_puts_marker_in_front() {
    assert_eq!(marked_name("16.0.0"), "v16.0.0");
    assert_eq!(marked_name("v16.0.0"), "vv16.0.0");
    assert_eq!(marked_name(""), "v");
}
