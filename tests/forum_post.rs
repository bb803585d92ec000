use imorph_updater::forum::{
    contains_text_exec, get_ownedcore_download_links, link_from, trim_parens_text, PostElement,
};

fn link(text: &str, href: &str) -> PostElement {
    PostElement { tag: "a".to_string(), text: text.to_string(), href: Some(href.to_string()) }
}

fn other(tag: &str, text: &str) -> PostElement {
    PostElement { tag: tag.to_string(), text: text.to_string(), href: None }
}

#[test]
fn link_text_is_read() {
    let e = link_from("iMorph - 1.5.166 (Net) [11.2.0.63163]", &Some("u".to_string())).unwrap();
    assert_eq!(e.feature, "iMorph Net");
    assert_eq!(e.imorph_version, "1.5.166");
    assert_eq!(e.wow_version, "11.2.0.63163");
    assert_eq!(e.url, "u");
    let plain = link_from("iMorph - 1.4.0 [1.15.7]", &Some("v".to_string())).unwrap();
    assert_eq!(plain.feature, "iMorph");
    assert!(link_from("iMorph - 1.4.0 [1.15.7]", &None).is_none());
    assert!(link_from("Download here", &Some("w".to_string())).is_none());
}

#[test]
fn links_group_by_region_and_flavour() {
    let mut els = vec![other("p", "Intro"), other("b", "Global")];
    for i in 0..12 {
        els.push(link(&format!("  iMorph - 1.0.{} (Menu) [1.{}]\n", i, i), &format!("u{}", i)));
        if i == 4 {
            els.push(link("not a download", "x"));
        }
    }
    els.push(other("b", "Archive: older builds"));
    els.push(link("iMorph - 0.9.0 [1.0]", "old"));
    els.push(link("iMorph - 0.9.1 [1.0]", "old"));
    els.push(link("iMorph - 0.9.2 [1.0]", "old"));
    let groups = get_ownedcore_download_links(&els);
    let keys: Vec<(String, String)> =
        groups.iter().map(|g| (g.region.clone(), g.version.clone())).collect();
    assert_eq!(
        keys,
        vec![
            ("global".to_string(), "classic era".to_string()),
            ("global".to_string(), "classic".to_string()),
            ("global".to_string(), "retail".to_string()),
            ("china".to_string(), "classic era".to_string()),
        ]
    );
    assert_eq!(groups[0].entries.len(), 3);
    assert_eq!(groups[0].entries[0].url, "u0");
    assert_eq!(groups[0].entries[0].feature, "iMorph Menu");
    assert_eq!(groups[1].entries[2].imorph_version, "1.0.5");
    assert_eq!(groups[3].entries[2].wow_version, "1.11");
}

#[test]
fn later_chinese_groups_replace_the_first() {
    let mut els = Vec::new();
    for i in 0..21 {
        els.push(link(&format!("iMorph - 2.0.{} [3.{}]", i, i), &format!("u{}", i)));
    }
    let groups = get_ownedcore_download_links(&els);
    assert_eq!(groups.len(), 6);
    assert_eq!(groups[3].region, "china");
    assert_eq!(groups[3].version, "classic era");
    assert_eq!(groups[3].entries[0].url, "u18");
    assert_eq!(groups[5].version, "retail");
}

#[test]
fn text_helpers() {
    assert!(contains_text_exec("See Archive: below", "Archive:"));
    assert!(!contains_text_exec("Archive", "Archive:"));
    assert!(contains_text_exec("x", ""));
    assert_eq!(trim_parens_text("((Net))"), "Net");
    assert_eq!(trim_parens_text("()"), "");
}
