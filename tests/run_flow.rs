use imorph_updater::archive::{entry_action, EntryAction};
use imorph_updater::model::{Feature, Product, Region};
use imorph_updater::orchestrator::{
    trigger_for, Action, Event, MarkerRead, Orchestrator, Outcome, RunError,
};

const MANIFEST: &str = "Branch!STRING:0|Version!STRING:0|Product!STRING:0\n\
eu|11.2.0.63163|wow\n\
eu|1.15.7.61582|wow_classic_era\n";

fn listing(names: &[&str]) -> Vec<(String, String)> {
    names
        .iter()
        .enumerate()
        .map(|(i, n)| (n.to_string(), format!("h{}", i)))
        .collect()
}

fn start(manifest: &str, items: Vec<(String, String)>) -> (Orchestrator, Action) {
    let (mut run, first) = Orchestrator::new(Region::Global, Product::WoW, Feature::Net);
    assert!(matches!(first, Action::EnsureOutputDirectory));
    let a = run.step(Event::OutputDirectory { ok: true });
    assert!(matches!(a, Action::ReadBuildInfo));
    let a = run.step(Event::BuildInfo(Some(manifest.as_bytes().to_vec())));
    match a {
        Action::FetchListing { folder } => assert_eq!(folder, "iMorph/retail"),
        _ => panic!("expected a listing request"),
    }
    let a = run.step(Event::Listing(Some(items)));
    (run, a)
}

#[test]
fn end_to_end_install_and_launch() {
    let (mut run, a) = start(
        MANIFEST,
        listing(&[
            "iMorph-1.5.166(Net)[11.2.0.63163].zip",
            "iMorph-1.5.166(Menu)[11.2.0.63163].zip",
            "iMorph-1.5.100(Net)[China 11.2.0.63163].zip",
        ]),
    );
    assert!(matches!(a, Action::ReadMarker));
    let a = run.step(Event::Marker(MarkerRead::Missing));
    match a {
        Action::DownloadAndExtract { handle } => assert_eq!(handle, "h0"),
        _ => panic!("expected a download"),
    }
    assert_eq!(entry_action("imorph.conf", true), EntryAction::Keep);
    assert_eq!(entry_action("RuniMorph.exe", true), EntryAction::WriteFile);
    let a = run.step(Event::Extracted { ok: true });
    match a {
        Action::WriteMarker { contents } => assert_eq!(contents, "1.5.166|11.2.0.63163"),
        _ => panic!("expected a marker write"),
    }
    assert!(matches!(run.step(Event::MarkerWritten { ok: true }), Action::Launch));
    match run.step(Event::Launched { ok: true }) {
        Action::Finish(o) => {
            assert_eq!(o, Outcome::Success);
            assert_eq!(trigger_for(o), Some("after_success".to_string()));
        },
        _ => panic!("expected the end"),
    }
}

#[test]
fn no_release_for_installed_version() {
    let manifest = "Version!STRING:0|Product!STRING:0\n11.3.0.1|wow\n";
    let (_run, a) = start(manifest, listing(&["iMorph-1.5.166(Net)[11.2.0.63163].zip"]));
    match a {
        Action::Finish(o) => {
            assert_eq!(o, Outcome::NoRelease);
            assert_eq!(trigger_for(o), None);
        },
        _ => panic!("expected the end"),
    }
}

#[test]
fn second_run_skips_download() {
    let items = listing(&["iMorph-1.5.166(Net)[11.2.0.63163].zip"]);
    let (mut run, _) = start(MANIFEST, items.clone());
    run.step(Event::Marker(MarkerRead::Missing));
    let written = match run.step(Event::Extracted { ok: true }) {
        Action::WriteMarker { contents } => contents,
        _ => panic!("expected a marker write"),
    };
    let (mut again, a) = start(MANIFEST, items);
    assert!(matches!(a, Action::ReadMarker));
    assert!(matches!(again.step(Event::Marker(MarkerRead::Contents(written))), Action::Launch));
    match again.step(Event::Launched { ok: true }) {
        Action::Finish(o) => assert_eq!(o, Outcome::Success),
        _ => panic!("expected the end"),
    }
}

#[test]
fn marker_for_other_target_downloads_again() {
    let (mut run, _) = start(MANIFEST, listing(&["iMorph-1.5.166(Net)[11.2.0.63163].zip"]));
    let a = run.step(Event::Marker(MarkerRead::Contents("1.5.166|11.1.7.60000\n".to_string())));
    assert!(matches!(a, Action::DownloadAndExtract { .. }));
}

#[test]
fn failed_extraction_keeps_marker() {
    let (mut run, _) = start(MANIFEST, listing(&["iMorph-1.5.166(Net)[11.2.0.63163].zip"]));
    run.step(Event::Marker(MarkerRead::Contents("1.4.0|11.2.0.63163".to_string())));
    match run.step(Event::Extracted { ok: false }) {
        Action::Finish(o) => {
            assert_eq!(o, Outcome::Failed(RunError::Extract));
            assert_eq!(trigger_for(o), Some("after_error".to_string()));
        },
        _ => panic!("expected the end"),
    }
    match run.step(Event::MarkerWritten { ok: true }) {
        Action::Finish(o) => assert_eq!(o, Outcome::Failed(RunError::UnexpectedEvent)),
        _ => panic!("a finished run asks for nothing"),
    }
}

#[test]
fn missing_manifest_is_fatal() {
    let (mut run, _) = Orchestrator::new(Region::Global, Product::WoW, Feature::Net);
    run.step(Event::OutputDirectory { ok: true });
    match run.step(Event::BuildInfo(None)) {
        Action::Finish(o) => assert_eq!(
            o,
            Outcome::Failed(RunError::BuildInfo(imorph_updater::buildinfo::BuildInfoError::NoBuildInfo))
        ),
        _ => panic!("expected the end"),
    }
}

#[test]
fn product_missing_from_manifest_is_fatal() {
    let (mut run, _) = Orchestrator::new(Region::Global, Product::WoWClassic, Feature::Net);
    run.step(Event::OutputDirectory { ok: true });
    match run.step(Event::BuildInfo(Some(MANIFEST.as_bytes().to_vec()))) {
        Action::Finish(o) => assert_eq!(
            o,
            Outcome::Failed(RunError::BuildInfo(
                imorph_updater::buildinfo::BuildInfoError::ProductNotFound
            ))
        ),
        _ => panic!("expected the end"),
    }
}

#[test]
fn failed_output_directory_ends_run() {
    let (mut run, _) = Orchestrator::new(Region::Global, Product::WoW, Feature::Net);
    match run.step(Event::OutputDirectory { ok: false }) {
        Action::Finish(o) => assert_eq!(o, Outcome::Failed(RunError::OutputDirectory)),
        _ => panic!("expected the end"),
    }
}

#[test]
fn unreadable_listing_name_is_an_error() {
    let (_run, a) = start(MANIFEST, listing(&["readme.txt"]));
    match a {
        Action::Finish(o) => assert_eq!(
            o,
            Outcome::Failed(RunError::Listing(imorph_updater::listing::ListingError::UnmatchedName))
        ),
        _ => panic!("expected the end"),
    }
}

#[test]
fn marker_read_failure_and_launch_failure() {
    let (mut run, _) = start(MANIFEST, listing(&["iMorph-1.5.166(Net)[11.2.0.63163].zip"]));
    match run.step(Event::Marker(MarkerRead::Failed)) {
        Action::Finish(o) => assert_eq!(o, Outcome::Failed(RunError::MarkerRead)),
        _ => panic!("expected the end"),
    }
    let (mut run, _) = start(MANIFEST, listing(&["iMorph-1.5.166(Net)[11.2.0.63163].zip"]));
    run.step(Event::Marker(MarkerRead::Contents("1.5.166|11.2.0.63163".to_string())));
    match run.step(Event::Launched { ok: false }) {
        Action::Finish(o) => assert_eq!(o, Outcome::Failed(RunError::Launch)),
        _ => panic!("expected the end"),
    }
}

#[test]
fn marker_write_failure_ends_run() {
    let (mut run, _) = start(MANIFEST, listing(&["iMorph-1.5.166(Net)[11.2.0.63163].zip"]));
    run.step(Event::Marker(MarkerRead::Missing));
    run.step(Event::Extracted { ok: true });
    match run.step(Event::MarkerWritten { ok: false }) {
        Action::Finish(o) => assert_eq!(o, Outcome::Failed(RunError::MarkerWrite)),
        _ => panic!("expected the end"),
    }
}

#[test]
fn archive_entry_actions() {
    assert_eq!(entry_action("imorph.conf", false), EntryAction::WriteFile);
    assert_eq!(entry_action("sub/", false), EntryAction::CreateDirectory);
    assert_eq!(entry_action("sub/imorph.conf", true), EntryAction::WriteFile);
}
