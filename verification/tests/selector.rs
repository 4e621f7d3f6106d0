use onodejs::{resolve, select, select_index, Catalog, Release};

fn release(version: &str, tag: Option<&str>) -> Release {
    Release::new(version, tag).unwrap()
}

fn sample() -> Catalog {
    Catalog::from_releases(vec![
        release("v14.0.0", Some("Fermium")),
        release("v16.0.0", None),
        release("v16.13.0", Some("Gallium")),
    ])
}

#[test]
fn latest_picks_highest_version() {
    let catalog = sample();
    let picked = select("latest", &catalog).unwrap();
    assert_eq!(picked.version(), "v16.13.0");
}

#[test]
fn lts_picks_highest_tagged_version() {
    let catalog = sample();
    let picked = select("lts", &catalog).unwrap();
    assert_eq!(picked.version(), "v16.13.0");
    assert_eq!(picked.lts_tag(), Some("Gallium"));
}

#[test]
fn suffix_picks_first_match() {
    let catalog = sample();
    let picked = select("16.0.0", &catalog).unwrap();
    assert_eq!(picked.version(), "v16.0.0");
    assert_eq!(picked.lts_tag(), None);
}

#[test]
fn unknown_version_picks_nothing() {
    let catalog = sample();
    assert!(select("99.0.0", &catalog).is_none());
    assert_eq!(select_index("99.0.0", &catalog), None);
    let error = resolve("99.0.0", &catalog).unwrap_err();
    assert_eq!(error.token, "99.0.0");
    assert_eq!(error.message(), "Unable to find Node.js version: 99.0.0");
}

#[test]
fn resolve_hands_back_the_selected_release() {
    let catalog = sample();
    let picked = resolve("14.0.0", &catalog).unwrap();
    assert_eq!(picked.version(), "v14.0.0");
    assert_eq!(picked.lts_tag(), Some("Fermium"));
}

#[test]
fn ambiguous_suffix_goes_to_first_in_order() {
    let catalog = sample();
    assert_eq!(select_index("0", &catalog), Some(0));
    assert_eq!(select_index(".0", &catalog), Some(0));
    assert_eq!(select_index("6.0.0", &catalog), Some(1));
    assert_eq!(select_index("13.0", &catalog), Some(2));
    assert_eq!(select_index("", &catalog), Some(0));
}

#[test]
fn suffix_order_follows_catalog_order() {
    let catalog = Catalog::from_releases(vec![
        release("v16.13.0", Some("Gallium")),
        release("v16.0.0", None),
        release("v14.0.0", Some("Fermium")),
    ]);
    assert_eq!(select("0", &catalog).unwrap().version(), "v16.13.0");
    assert_eq!(select("0.0", &catalog).unwrap().version(), "v16.0.0");
}

#[test]
fn suffix_longer_than_name_does_not_match() {
    let catalog = sample();
    assert!(select("xv16.0.0", &catalog).is_none());
    assert!(select("v16.0.0 ", &catalog).is_none());
}

#[test]
fn suffix_match_is_textual_not_numeric() {
    let catalog = Catalog::from_releases(vec![release("v16.01.0", None)]);
    assert!(select("16.1.0", &catalog).is_none());
    assert!(select("1.0", &catalog).is_some());
}

#[test]
fn latest_compares_numbers_not_text() {
    let catalog = Catalog::from_releases(vec![
        release("v16.9.0", None),
        release("v16.13.0", None),
        release("v9.99.99", None),
    ]);
    assert_eq!(select_index("latest", &catalog), Some(1));
}

#[test]
fn latest_ignores_tags() {
    let catalog = Catalog::from_releases(vec![
        release("v18.0.0", Some("Hydrogen")),
        release("v19.1.0", None),
    ]);
    assert_eq!(select("latest", &catalog).unwrap().version(), "v19.1.0");
    assert_eq!(select("lts", &catalog).unwrap().version(), "v18.0.0");
}

#[test]
fn latest_is_stable_across_calls() {
    let catalog = sample();
    let first = select_index("latest", &catalog);
    let second = select_index("latest", &catalog);
    assert_eq!(first, second);
    assert_eq!(first, Some(2));
}

#[test]
fn equal_versions_go_to_first_in_order() {
    let catalog = Catalog::from_releases(vec![
        release("v1.0", None),
        release("1.0.0", None),
        release("v1", None),
    ]);
    assert_eq!(select_index("latest", &catalog), Some(0));
}

#[test]
fn lts_without_tagged_release_picks_nothing() {
    let catalog = Catalog::from_releases(vec![release("v16.0.0", None), release("v17.0.0", None)]);
    assert!(select("lts", &catalog).is_none());
    let error = resolve("lts", &catalog).unwrap_err();
    assert_eq!(error.token, "lts");
}

#[test]
fn lts_does_not_count_empty_tag() {
    let catalog = Catalog::from_releases(vec![
        release("v20.0.0", Some("")),
        release("v18.0.0", Some("Hydrogen")),
    ]);
    assert_eq!(select("lts", &catalog).unwrap().version(), "v18.0.0");
}

#[test]
fn lts_does_not_fall_back_to_suffix_match() {
    let catalog = Catalog::from_releases(vec![release("v1-lts", None)]);
    assert!(select("lts", &catalog).is_none());
    assert!(select("-lts", &catalog).is_some());
}

#[test]
fn empty_catalog_picks_nothing() {
    let catalog = Catalog::new();
    assert!(select("latest", &catalog).is_none());
    assert!(select("lts", &catalog).is_none());
    assert!(select("16.0.0", &catalog).is_none());
    assert!(select("", &catalog).is_none());
}

#[test]
fn highest_names_position() {
    let catalog = sample();
    assert_eq!(catalog.highest(false), Some(2));
    assert_eq!(catalog.highest(true), Some(2));
    let other = Catalog::from_releases(vec![
        release("v14.0.0", Some("Fermium")),
        release("v16.0.0", None),
    ]);
    assert_eq!(other.highest(false), Some(1));
    assert_eq!(other.highest(true), Some(0));
    assert_eq!(Catalog::new().highest(false), None);
}

#[test]
fn first_ending_with_names_position() {
    let catalog = sample();
    assert_eq!(catalog.first_ending_with("16.13.0"), Some(2));
    assert_eq!(catalog.first_ending_with("lts"), None);
    assert_eq!(catalog.first_ending_with("v14.0.0"), Some(0));
}
