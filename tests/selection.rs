use imorph_updater::model::{Feature, ImorphEntry, Product, Region};
use imorph_updater::version::{index_of_latest, rank_of, select_latest};

fn entry(tool: &str) -> ImorphEntry {
    ImorphEntry {
        feature: Feature::Net,
        wow_version: "11.2.0.63163".to_string(),
        imorph_version: tool.to_string(),
        region: Region::Global,
        product: Product::WoW,
        handle: format!("handle-{}", tool),
    }
}

#[test]
fn selection_is_numeric_not_lexicographic() {
    let entries = vec![entry("1.2.0"), entry("1.10.0"), entry("1.9.5")];
    let chosen = select_latest(entries).unwrap();
    assert_eq!(chosen.imorph_version, "1.10.0");
    assert_eq!(chosen.handle, "handle-1.10.0");
}

#[test]
fn malformed_version_ranks_lowest() {
    let entries = vec![entry("not-a-version"), entry("1.0.0")];
    let chosen = select_latest(entries).unwrap();
    assert_eq!(chosen.imorph_version, "1.0.0");
}

#[test]
fn malformed_version_after_valid_one() {
    let entries = vec![entry("1.0.0"), entry("not-a-version")];
    assert_eq!(select_latest(entries).unwrap().imorph_version, "1.0.0");
}

#[test]
fn prerelease_ranks_lowest() {
    let entries = vec![entry("0.0.1"), entry("2.0.0-beta")];
    assert_eq!(select_latest(entries).unwrap().imorph_version, "0.0.1");
}

#[test]
fn no_entries_selects_nothing() {
    assert!(select_latest(Vec::new()).is_none());
}

#[test]
fn equal_versions_select_the_last() {
    let mut a = entry("1.5.166");
    a.handle = "first".to_string();
    let mut b = entry("1.5.166");
    b.handle = "second".to_string();
    assert_eq!(select_latest(vec![a, b]).unwrap().handle, "second");
}

#[test]
fn four_part_version_is_no_semver() {
    let entries = vec![entry("11.2.0.63163"), entry("0.0.2")];
    assert_eq!(select_latest(entries).unwrap().imorph_version, "0.0.2");
}

#[test]
fn rank_of_parsed_versions() {
    assert_eq!(rank_of(&Some((1, 10, 0, String::new()))), (1, 10, 0));
    assert_eq!(rank_of(&Some((1, 10, 0, "rc.1".to_string()))), (0, 0, 0));
    assert_eq!(rank_of(&None), (0, 0, 0));
}

#[test]
fn index_of_latest_picks_last_greatest() {
    assert_eq!(index_of_latest(&vec![(1, 2, 0), (1, 10, 0), (1, 9, 5)]), Some(1));
    assert_eq!(index_of_latest(&vec![(2, 0, 0), (1, 9, 9), (2, 0, 0)]), Some(2));
    assert_eq!(index_of_latest(&vec![]), None);
}
