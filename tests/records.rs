use imorph_updater::buildinfo::{
    build_infos_from_table, get_build_infos, select_build_info, BuildInfoEntry, BuildInfoError,
};
use imorph_updater::config::{CommandConfig, Config};
use imorph_updater::listing::{entries_from_listing, folder_for_product, ListingError};
use imorph_updater::marker::{is_already_downloaded, VersionMarker};
use imorph_updater::model::{Feature, ImorphEntry, Product, Region};
use imorph_updater::patch::patch_sleep_calls;

#[test]
fn region_and_feature_names() {
    assert_eq!(Region::from_str("").unwrap(), Region::Global);
    assert_eq!(Region::from_str("China").unwrap(), Region::China);
    assert_eq!(Region::from_str("mars").unwrap_err().name, "mars");
    assert_eq!(Feature::from_str("").unwrap(), Feature::Plain);
    assert_eq!(Feature::from_str("NET").unwrap(), Feature::Net);
    assert_eq!(Feature::from_str("Menu").unwrap(), Feature::Menu);
    assert!(Feature::from_str("full").is_err());
}

#[test]
fn product_names_round_trip() {
    for p in [Product::WoW, Product::WoWClassic, Product::WoWClassicEra, Product::WoWBeta] {
        assert_eq!(Product::from_name(&p.name()), Some(p));
    }
    assert_eq!(Product::WoWClassicEra.name(), "wow_classic_era");
    assert_eq!(Product::from_name("WOW"), None);
}

#[test]
fn marker_parsing() {
    let m = VersionMarker::parse("  1.5.166|11.2.0.63163\r\n");
    assert_eq!(m.imorph_version, "1.5.166");
    assert_eq!(m.wow_version, "11.2.0.63163");
    let m = VersionMarker::parse("garbage");
    assert_eq!(m.imorph_version, "");
    assert_eq!(m.wow_version, "");
    let m = VersionMarker::parse("a|b|c");
    assert_eq!(m.imorph_version, "a");
    assert_eq!(m.wow_version, "b|c");
    let m = VersionMarker { imorph_version: "1.0".to_string(), wow_version: "2.0".to_string() };
    assert_eq!(m.to_text(), "1.0|2.0");
    let entry = ImorphEntry {
        feature: Feature::Net,
        wow_version: "2.0".to_string(),
        imorph_version: "1.0".to_string(),
        region: Region::Global,
        product: Product::WoW,
        handle: "h".to_string(),
    };
    let installed = BuildInfoEntry { version: "2.0".to_string(), product: Product::WoW };
    let other = BuildInfoEntry { version: "2.1".to_string(), product: Product::WoW };
    assert!(is_already_downloaded(&m.imorph_version, &m.wow_version, &entry, &installed));
    assert!(!is_already_downloaded(&m.imorph_version, &m.wow_version, &entry, &other));
    let empty = VersionMarker::empty();
    assert!(!is_already_downloaded(&empty.imorph_version, &empty.wow_version, &entry, &installed));
}

#[test]
fn manifest_reading() {
    let data = b"Branch!STRING:0|Product!STRING:0|Version!STRING:0\nus|wow_beta|12.0.0.1\nus|wow|11.2.0.63163\n";
    let entries = get_build_infos(data).unwrap();
    assert_eq!(entries.len(), 2);
    assert_eq!(entries[1].version, "11.2.0.63163");
    assert_eq!(entries[0].product, Product::WoWBeta);
    let chosen = select_build_info(entries, Product::WoW).unwrap();
    assert_eq!(chosen.version, "11.2.0.63163");
}

#[test]
fn manifest_errors() {
    assert_eq!(
        get_build_infos(b"Branch!STRING:0|Version!STRING:0\nus|1.0\n").unwrap_err(),
        BuildInfoError::MissingColumn
    );
    assert_eq!(
        get_build_infos(b"Version!STRING:0|Product!STRING:0\n1.0|wow_next\n").unwrap_err(),
        BuildInfoError::UnknownProduct
    );
    assert_eq!(
        get_build_infos(b"Version!STRING:0|Product!STRING:0\n1.0|wow|extra\n").unwrap_err(),
        BuildInfoError::Malformed
    );
    let headers = vec!["Version!STRING:0".to_string(), "Product!STRING:0".to_string()];
    assert_eq!(
        build_infos_from_table(&headers, &vec![vec!["1.0".to_string()]]).unwrap_err(),
        BuildInfoError::ShortRow
    );
    let empty: Vec<BuildInfoEntry> = get_build_infos(b"Version!STRING:0|Product!STRING:0\n").unwrap();
    assert_eq!(select_build_info(empty, Product::WoW).unwrap_err(), BuildInfoError::NoBuildInfo);
    let one = vec![BuildInfoEntry { version: "1.0".to_string(), product: Product::WoWClassic }];
    assert_eq!(select_build_info(one, Product::WoW).unwrap_err(), BuildInfoError::ProductNotFound);
}

#[test]
fn listing_filters_and_reads_names() {
    let items = vec![
        ("iMorph-1.5.166(Net)[11.2.0.63163].zip".to_string(), "a".to_string()),
        ("iMorph-1.5.160[11.2.0.63163].zip".to_string(), "b".to_string()),
        ("iMorph-1.5.161(Net)[China 11.2.0.63163].zip".to_string(), "c".to_string()),
        ("iMorph-1.5.150(Net)[11.1.7.61967].zip".to_string(), "d".to_string()),
    ];
    let es = entries_from_listing(&items, Region::Global, Product::WoW, Feature::Net, "11.2.0.63163").unwrap();
    assert_eq!(es.len(), 1);
    assert_eq!(es[0].handle, "a");
    assert_eq!(es[0].imorph_version, "1.5.166");
    let es = entries_from_listing(&items, Region::China, Product::WoW, Feature::Net, "11.2.0.63163").unwrap();
    assert_eq!(es.len(), 1);
    assert_eq!(es[0].handle, "c");
    assert_eq!(es[0].region, Region::China);
    let es = entries_from_listing(&items, Region::Global, Product::WoW, Feature::Plain, "11.2.0.63163").unwrap();
    assert_eq!(es.len(), 1);
    assert_eq!(es[0].handle, "b");
}

#[test]
fn listing_errors() {
    let bad = vec![("iMorph-1.0(Full)[11.2.0.1].zip".to_string(), "x".to_string())];
    assert_eq!(
        entries_from_listing(&bad, Region::Global, Product::WoW, Feature::Net, "11.2.0.1").unwrap_err(),
        ListingError::UnknownFeature
    );
    let bad = vec![("notes.txt".to_string(), "x".to_string())];
    assert_eq!(
        entries_from_listing(&bad, Region::Global, Product::WoW, Feature::Net, "1").unwrap_err(),
        ListingError::UnmatchedName
    );
    assert_eq!(folder_for_product(Product::WoWClassicEra).unwrap(), "iMorph/cata");
    assert_eq!(folder_for_product(Product::WoWBeta).unwrap_err(), ListingError::UnsupportedProduct);
}

#[test]
fn default_config_and_hooks() {
    let cfg = Config::default();
    assert_eq!(cfg.region, Region::Global);
    assert_eq!(cfg.product, Product::WoW);
    assert_eq!(cfg.feature, Feature::Net);
    assert_eq!(cfg.output_directory, "download");
    let hooks = cfg.commands_for_trigger("after_error");
    assert_eq!(hooks.len(), 1);
    assert_eq!(hooks[0].path, "powershell");
    assert_eq!(hooks[0].args, vec!["-command", "Start-Sleep", "-Seconds", "5"]);
    assert!(cfg.commands_for_trigger("after_success").is_empty());
    assert!(cfg.commands_for_trigger("AFTER_ERROR").is_empty());
}

#[test]
fn hooks_keep_declaration_order() {
    let mut cfg = Config::default();
    let hook = |t: &str, p: &str| CommandConfig { trigger: t.to_string(), path: p.to_string(), args: vec![] };
    cfg.cmd = vec![hook("after_success", "one"), hook("after_error", "two"), hook("after_success", "three")];
    let hooks = cfg.commands_for_trigger("after_success");
    let paths: Vec<&str> = hooks.iter().map(|c| c.path.as_str()).collect();
    assert_eq!(paths, vec!["one", "three"]);
}

#[test]
fn sleep_calls_are_patched() {
    let call = [0xB9u8, 0x88, 0x13, 0x00, 0x00, 0xFF, 0x15, 0x10, 0x20, 0x30, 0x40];
    let mut buf = vec![0x55u8];
    buf.extend_from_slice(&call);
    buf.extend_from_slice(&[0xC3, 0xC3]);
    patch_sleep_calls(&mut buf);
    let mut expected = vec![0x55u8];
    expected.extend_from_slice(&[0x90; 11]);
    expected.extend_from_slice(&[0xC3, 0xC3]);
    assert_eq!(buf, expected);

    let mut untouched = vec![0xB9u8, 0x88, 0x13, 0x00, 0x00, 0xFF, 0x16, 0, 0, 0, 0, 0];
    let copy = untouched.clone();
    patch_sleep_calls(&mut untouched);
    assert_eq!(untouched, copy);
}
