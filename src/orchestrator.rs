//! The run of the updater as a state machine. Each stage asks for one piece
//! of outside work (an action); the caller performs it and reports what came
//! of it (an event); the machine decides the next stage. A download happens
//! only when the marker does not already record the selected build, and the
//! marker is rewritten only after an extraction that succeeded.
use vstd::prelude::*;

use crate::buildinfo::{
    build_infos_of, delimited_table, entries_view as build_entries_view, first_for_product,
    get_build_infos, lemma_first_for_product_found, select_build_info, BuildInfoEntry,
    BuildInfoError,
};
use crate::listing::{
    entries_from_listing, entries_of, entry_view, folder_for_product, items_view, product_folder,
    EntryView, ListingError,
};
use crate::marker::{
    is_already_downloaded, lemma_marker_round_trip, marker_of, marker_text, VersionMarker,
};
use crate::model::{Feature, ImorphEntry, Product, Region};
use crate::text::is_white_space;
use crate::version::{entry_ranks, is_last_greatest, rank_le, rank_lt, rank_of_text, select_latest};

verus! {

/// Why a run failed.
#[derive(PartialEq, Eq, Structural, Copy, Clone, Debug)]
pub enum RunError {
    /// The output directory could not be created.
    OutputDirectory,
    /// The installed version could not be found out.
    BuildInfo(BuildInfoError),
    /// The remote store could not be reached or listed.
    StoreUnreachable,
    /// The store's listing could not be read.
    Listing(ListingError),
    /// The marker file exists but could not be read.
    MarkerRead,
    /// The build could not be downloaded or extracted.
    Extract,
    /// The marker file could not be written.
    MarkerWrite,
    /// The tool could not be started.
    Launch,
    /// An event came that the current stage does not wait for.
    UnexpectedEvent,
}

/// How a run ended.
#[derive(PartialEq, Eq, Structural, Copy, Clone, Debug)]
pub enum Outcome {
    /// The tool was installed if needed and then launched.
    Success,
    /// No build has been released for the installed version yet.
    NoRelease,
    Failed(RunError),
}

/// What reading the marker file gave.
pub enum MarkerRead {
    /// There is no marker file: nothing was ever installed.
    Missing,
    Contents(String),
    /// The file exists but could not be read.
    Failed,
}

/// What came of the last action.
pub enum Event {
    OutputDirectory { ok: bool },
    /// The bytes of the host's build manifest, or `None` where it is absent
    /// or unreadable.
    BuildInfo(Option<Vec<u8>>),
    /// Name and handle of each archive in the product's folder of the store,
    /// or `None` where the store could not be listed.
    Listing(Option<Vec<(String, String)>>),
    Marker(MarkerRead),
    Extracted { ok: bool },
    MarkerWritten { ok: bool },
    Launched { ok: bool },
}

/// The outside work that the machine asks for next.
pub enum Action {
    EnsureOutputDirectory,
    ReadBuildInfo,
    /// List the store's folder `folder`.
    FetchListing { folder: String },
    ReadMarker,
    /// Delete any stale download, fetch the archive behind `handle` and
    /// extract it into the output directory.
    DownloadAndExtract { handle: String },
    /// Replace the marker file's contents with `contents`.
    WriteMarker { contents: String },
    /// Start the tool in the output directory, attached to a console.
    Launch,
    /// The run is over.
    Finish(Outcome),
}

pub enum Stage {
    PrepareOutput,
    ResolveInstalled,
    ResolveRemote { installed: BuildInfoEntry },
    ReadMarker { installed: BuildInfoEntry, selected: ImorphEntry },
    DownloadAndExtract { installed: BuildInfoEntry, selected: ImorphEntry },
    UpdateMarker,
    Launch,
    Finished,
}

pub enum MarkerReadView {
    Missing,
    Contents(Seq<char>),
    Failed,
}

pub enum EventView {
    OutputDirectory(bool),
    BuildInfo(Option<Seq<u8>>),
    Listing(Option<Seq<(Seq<char>, Seq<char>)>>),
    Marker(MarkerReadView),
    Extracted(bool),
    MarkerWritten(bool),
    Launched(bool),
}

pub enum ActionView {
    EnsureOutputDirectory,
    ReadBuildInfo,
    FetchListing(Seq<char>),
    ReadMarker,
    DownloadAndExtract(Seq<char>),
    WriteMarker(Seq<char>),
    Launch,
    Finish(Outcome),
}

pub enum StageView {
    PrepareOutput,
    ResolveInstalled,
    ResolveRemote(Seq<char>),
    ReadMarker(Seq<char>, EntryView),
    DownloadAndExtract(Seq<char>, EntryView),
    UpdateMarker,
    Launch,
    Finished,
}

pub open spec fn event_view(e: Event) -> EventView {
    match e {
        Event::OutputDirectory { ok } => EventView::OutputDirectory(ok),
        Event::BuildInfo(d) => EventView::BuildInfo(
            match d {
                Some(b) => Some(b@),
                None => None,
            },
        ),
        Event::Listing(l) => EventView::Listing(
            match l {
                Some(items) => Some(items_view(items@)),
                None => None,
            },
        ),
        Event::Marker(m) => EventView::Marker(
            match m {
                MarkerRead::Missing => MarkerReadView::Missing,
                MarkerRead::Contents(c) => MarkerReadView::Contents(c@),
                MarkerRead::Failed => MarkerReadView::Failed,
            },
        ),
        Event::Extracted { ok } => EventView::Extracted(ok),
        Event::MarkerWritten { ok } => EventView::MarkerWritten(ok),
        Event::Launched { ok } => EventView::Launched(ok),
    }
}

pub open spec fn action_view(a: Action) -> ActionView {
    match a {
        Action::EnsureOutputDirectory => ActionView::EnsureOutputDirectory,
        Action::ReadBuildInfo => ActionView::ReadBuildInfo,
        Action::FetchListing { folder } => ActionView::FetchListing(folder@),
        Action::ReadMarker => ActionView::ReadMarker,
        Action::DownloadAndExtract { handle } => ActionView::DownloadAndExtract(handle@),
        Action::WriteMarker { contents } => ActionView::WriteMarker(contents@),
        Action::Launch => ActionView::Launch,
        Action::Finish(o) => ActionView::Finish(o),
    }
}

pub open spec fn stage_view(s: Stage) -> StageView {
    match s {
        Stage::PrepareOutput => StageView::PrepareOutput,
        Stage::ResolveInstalled => StageView::ResolveInstalled,
        Stage::ResolveRemote { installed } => StageView::ResolveRemote(installed.version@),
        Stage::ReadMarker { installed, selected } => StageView::ReadMarker(
            installed.version@,
            entry_view(selected),
        ),
        Stage::DownloadAndExtract { installed, selected } => StageView::DownloadAndExtract(
            installed.version@,
            entry_view(selected),
        ),
        Stage::UpdateMarker => StageView::UpdateMarker,
        Stage::Launch => StageView::Launch,
        Stage::Finished => StageView::Finished,
    }
}

/// The installed version that the manifest bytes `data` give for `product`.
pub open spec fn installed_version(data: Seq<u8>, product: Product) -> Result<
    Seq<char>,
    BuildInfoError,
> {
    match delimited_table(data) {
        None => Err(BuildInfoError::Malformed),
        Some((h, rows)) => match build_infos_of(h, rows) {
            Err(e) => Err(e),
            Ok(es) => if es.len() == 0 {
                Err(BuildInfoError::NoBuildInfo)
            } else {
                match first_for_product(es, product, 0) {
                    None => Err(BuildInfoError::ProductNotFound),
                    Some(i) => Ok(es[i].0),
                }
            },
        },
    }
}

pub open spec fn view_ranks(es: Seq<EntryView>) -> Seq<(u64, u64, u64)> {
    es.map_values(|v: EntryView| rank_of_text(v.2))
}

/// The position of the build to install: the last of those with the
/// greatest tool version.
pub open spec fn latest_index(es: Seq<EntryView>) -> int {
    choose|i: int| is_last_greatest(view_ranks(es), i)
}

/// The versions that a marker read records.
pub open spec fn marker_read_versions(m: MarkerReadView) -> (Seq<char>, Seq<char>) {
    match m {
        MarkerReadView::Contents(c) => marker_of(c),
        _ => (Seq::empty(), Seq::empty()),
    }
}

pub open spec fn fail(e: RunError) -> (StageView, ActionView) {
    (StageView::Finished, ActionView::Finish(Outcome::Failed(e)))
}

/// One transition of the run: from `stage`, on `event`, the next stage and
/// the action it asks for.
pub open spec fn transition(
    region: Region,
    product: Product,
    feature: Feature,
    stage: StageView,
    event: EventView,
) -> (StageView, ActionView) {
    match (stage, event) {
        (StageView::PrepareOutput, EventView::OutputDirectory(ok)) => if ok {
            (StageView::ResolveInstalled, ActionView::ReadBuildInfo)
        } else {
            fail(RunError::OutputDirectory)
        },
        (StageView::ResolveInstalled, EventView::BuildInfo(data)) => match data {
            None => fail(RunError::BuildInfo(BuildInfoError::NoBuildInfo)),
            Some(d) => match installed_version(d, product) {
                Err(e) => fail(RunError::BuildInfo(e)),
                Ok(v) => match product_folder(product) {
                    None => fail(RunError::Listing(ListingError::UnsupportedProduct)),
                    Some(f) => (StageView::ResolveRemote(v), ActionView::FetchListing(f)),
                },
            },
        },
        (StageView::ResolveRemote(v), EventView::Listing(items)) => match items {
            None => fail(RunError::StoreUnreachable),
            Some(it) => match entries_of(it, region, product, feature, v) {
                Err(e) => fail(RunError::Listing(e)),
                Ok(es) => if es.len() == 0 {
                    (StageView::Finished, ActionView::Finish(Outcome::NoRelease))
                } else {
                    (StageView::ReadMarker(v, es[latest_index(es)]), ActionView::ReadMarker)
                },
            },
        },
        (StageView::ReadMarker(v, sel), EventView::Marker(m)) => if m is Failed {
            fail(RunError::MarkerRead)
        } else if marker_read_versions(m) == (sel.2, v) {
            (StageView::Launch, ActionView::Launch)
        } else {
            (StageView::DownloadAndExtract(v, sel), ActionView::DownloadAndExtract(sel.5))
        },
        (StageView::DownloadAndExtract(v, sel), EventView::Extracted(ok)) => if ok {
            (StageView::UpdateMarker, ActionView::WriteMarker(marker_text(sel.2, v)))
        } else {
            fail(RunError::Extract)
        },
        (StageView::UpdateMarker, EventView::MarkerWritten(ok)) => if ok {
            (StageView::Launch, ActionView::Launch)
        } else {
            fail(RunError::MarkerWrite)
        },
        (StageView::Launch, EventView::Launched(ok)) => if ok {
            (StageView::Finished, ActionView::Finish(Outcome::Success))
        } else {
            fail(RunError::Launch)
        },
        _ => fail(RunError::UnexpectedEvent),
    }
}

/// The trigger whose hooks run after a run that ended with `outcome`:
/// `after_success` after a launch, `after_error` after a failure, and none
/// when no build was released yet.
pub open spec fn trigger_of(outcome: Outcome) -> Option<Seq<char>> {
    match outcome {
        Outcome::Success => Some("after_success"@),
        Outcome::NoRelease => None,
        Outcome::Failed(_) => Some("after_error"@),
    }
}

pub fn trigger_for(outcome: Outcome) -> (r: Option<String>)
    ensures
        match trigger_of(outcome) {
            Some(t) => r matches Some(s) && s@ == t,
            None => r is None,
        },
{
    match outcome {
        Outcome::Success => Some(String::from_str("after_success")),
        Outcome::NoRelease => None,
        Outcome::Failed(_) => Some(String::from_str("after_error")),
    }
}

/// Only one position of a sequence of ranks is the last greatest.
pub proof fn lemma_last_greatest_unique(ranks: Seq<(u64, u64, u64)>, i: int, j: int)
    requires
        is_last_greatest(ranks, i),
        is_last_greatest(ranks, j),
    ensures
        i == j,
{
    if i < j {
        assert(rank_lt(ranks[j], ranks[i]));
        assert(rank_le(ranks[i], ranks[j]));
    } else if j < i {
        assert(rank_lt(ranks[i], ranks[j]));
        assert(rank_le(ranks[j], ranks[i]));
    }
}

pub open spec fn finished_with(r: (Stage, Action), e: RunError) -> bool {
    (stage_view(r.0), action_view(r.1)) == fail(e)
}

fn failed(e: RunError) -> (r: (Stage, Action))
    ensures
        finished_with(r, e),
{
    (Stage::Finished, Action::Finish(Outcome::Failed(e)))
}

fn on_build_info(product: Product, data: Option<Vec<u8>>) -> (r: (Stage, Action))
    ensures
        (stage_view(r.0), action_view(r.1)) == transition(
            Region::Global,
            product,
            Feature::Plain,
            StageView::ResolveInstalled,
            event_view(Event::BuildInfo(data)),
        ),
{
    let data = match data {
        Some(d) => d,
        None => {
            return failed(RunError::BuildInfo(BuildInfoError::NoBuildInfo));
        },
    };
    let entries = match get_build_infos(data.as_slice()) {
        Ok(v) => v,
        Err(e) => {
            return failed(RunError::BuildInfo(e));
        },
    };
    let ghost es = build_entries_view(entries@);
    let ghost ents = entries@;
    assert(es.len() == entries@.len());
    proof {
        lemma_first_for_product_found(es, product, 0);
    }
    let info = match select_build_info(entries, product) {
        Ok(b) => b,
        Err(e) => {
            return failed(RunError::BuildInfo(e));
        },
    };
    assert(es[first_for_product(es, product, 0)->0].0 == info.version@);
    match folder_for_product(product) {
        Ok(f) => (Stage::ResolveRemote { installed: info }, Action::FetchListing { folder: f }),
        Err(e) => failed(RunError::Listing(e)),
    }
}

fn on_listing(
    region: Region,
    product: Product,
    feature: Feature,
    installed: BuildInfoEntry,
    items: Option<Vec<(String, String)>>,
) -> (r: (Stage, Action))
    ensures
        (stage_view(r.0), action_view(r.1)) == transition(
            region,
            product,
            feature,
            StageView::ResolveRemote(installed.version@),
            event_view(Event::Listing(items)),
        ),
{
    let items = match items {
        Some(it) => it,
        None => {
            return failed(RunError::StoreUnreachable);
        },
    };
    let entries = match entries_from_listing(&items, region, product, feature, installed.version.as_str()) {
        Ok(v) => v,
        Err(e) => {
            return failed(RunError::Listing(e));
        },
    };
    let ghost es = crate::listing::entries_view(entries@);
    let ghost ents = entries@;
    assert(es.len() == ents.len());
    assert(entry_ranks(ents) =~= view_ranks(es));
    match select_latest(entries) {
        None => (Stage::Finished, Action::Finish(Outcome::NoRelease)),
        Some(selected) => {
            proof {
                let i = choose|i: int|
                    is_last_greatest(entry_ranks(ents), i) && selected == #[trigger] ents[i];
                lemma_last_greatest_unique(view_ranks(es), i, latest_index(es));
                assert(entry_view(selected) == es[latest_index(es)]);
            }
            (Stage::ReadMarker { installed, selected }, Action::ReadMarker)
        },
    }
}

fn on_marker(installed: BuildInfoEntry, selected: ImorphEntry, m: MarkerRead) -> (r: (
    Stage,
    Action,
))
    ensures
        (stage_view(r.0), action_view(r.1)) == transition(
            Region::Global,
            Product::WoW,
            Feature::Plain,
            StageView::ReadMarker(installed.version@, entry_view(selected)),
            event_view(Event::Marker(m)),
        ),
{
    let marker = match m {
        MarkerRead::Missing => VersionMarker::empty(),
        MarkerRead::Contents(c) => VersionMarker::parse(c.as_str()),
        MarkerRead::Failed => {
            return failed(RunError::MarkerRead);
        },
    };
    if is_already_downloaded(
        marker.imorph_version.as_str(),
        marker.wow_version.as_str(),
        &selected,
        &installed,
    ) {
        (Stage::Launch, Action::Launch)
    } else {
        let handle = selected.handle.clone();
        (Stage::DownloadAndExtract { installed, selected }, Action::DownloadAndExtract { handle })
    }
}

/// A run that reads back the marker which an earlier run wrote for the same
/// build and installed version launches the tool at once: it downloads
/// nothing. This holds for tool versions without `|` that do not start, and
/// installed versions that do not end, with white space.
pub proof fn lemma_second_run_skips_download(
    region: Region,
    product: Product,
    feature: Feature,
    installed: Seq<char>,
    selected: EntryView,
)
    requires
        forall|j: int| 0 <= j < selected.2.len() ==> selected.2[j] != '|',
        selected.2.len() > 0 ==> !is_white_space(selected.2[0]),
        installed.len() > 0 ==> !is_white_space(installed.last()),
    ensures
        ({
            let first = transition(
                region,
                product,
                feature,
                StageView::DownloadAndExtract(installed, selected),
                EventView::Extracted(true),
            );
            first.1 matches ActionView::WriteMarker(written) && transition(
                region,
                product,
                feature,
                StageView::ReadMarker(installed, selected),
                EventView::Marker(MarkerReadView::Contents(written)),
            ) == (StageView::Launch, ActionView::Launch)
        }),
{
    lemma_marker_round_trip(selected.2, installed);
}

/// The marker file is written only right after an extraction that
/// succeeded: a failed extraction ends the run, and a run that has ended
/// asks for nothing more, so the marker keeps its previous contents.
pub proof fn lemma_marker_written_only_after_extraction(
    region: Region,
    product: Product,
    feature: Feature,
    stage: StageView,
    event: EventView,
)
    ensures
        transition(region, product, feature, stage, event).1 is WriteMarker ==> stage is DownloadAndExtract
            && event == EventView::Extracted(true),
        stage is DownloadAndExtract && event == EventView::Extracted(false) ==> transition(
            region,
            product,
            feature,
            stage,
            event,
        ) == fail(RunError::Extract),
        stage is Finished ==> transition(region, product, feature, stage, event).0 is Finished
            && transition(region, product, feature, stage, event).1 is Finish,
{
}

/// When no build in the listing is for the installed version, the run ends
/// as "no release": nothing is downloaded, the marker is not written, and no
/// hook fires.
pub proof fn lemma_no_release_ends_quietly(
    region: Region,
    product: Product,
    feature: Feature,
    installed: Seq<char>,
    items: Seq<(Seq<char>, Seq<char>)>,
)
    requires
        entries_of(items, region, product, feature, installed) == Ok::<
            Seq<EntryView>,
            ListingError,
        >(Seq::empty()),
    ensures
        transition(
            region,
            product,
            feature,
            StageView::ResolveRemote(installed),
            EventView::Listing(Some(items)),
        ) == (StageView::Finished, ActionView::Finish(Outcome::NoRelease)),
        trigger_of(Outcome::NoRelease) is None,
{
}

/// The run's state: the configured region, product and feature, and the
/// stage reached.
pub struct Orchestrator {
    pub region: Region,
    pub product: Product,
    pub feature: Feature,
    pub stage: Stage,
}

impl Orchestrator {
    /// A run for the given configuration; its first action creates the
    /// output directory.
    pub fn new(region: Region, product: Product, feature: Feature) -> (r: (Orchestrator, Action))
        ensures
            r.0.region == region,
            r.0.product == product,
            r.0.feature == feature,
            stage_view(r.0.stage) == StageView::PrepareOutput,
            action_view(r.1) == ActionView::EnsureOutputDirectory,
    {
        (
            Orchestrator { region, product, feature, stage: Stage::PrepareOutput },
            Action::EnsureOutputDirectory,
        )
    }

    /// Takes what came of the last action and returns the next one.
    pub fn step(&mut self, event: Event) -> (action: Action)
        ensures
            final(self).region == old(self).region,
            final(self).product == old(self).product,
            final(self).feature == old(self).feature,
            (stage_view(final(self).stage), action_view(action)) == transition(
                old(self).region,
                old(self).product,
                old(self).feature,
                stage_view(old(self).stage),
                event_view(event),
            ),
    {
        let mut stage = Stage::Finished;
        std::mem::swap(&mut self.stage, &mut stage);
        let (next, action) = match (stage, event) {
            (Stage::PrepareOutput, Event::OutputDirectory { ok }) => if ok {
                (Stage::ResolveInstalled, Action::ReadBuildInfo)
            } else {
                failed(RunError::OutputDirectory)
            },
            (Stage::ResolveInstalled, Event::BuildInfo(data)) => on_build_info(self.product, data),
            (Stage::ResolveRemote { installed }, Event::Listing(items)) => on_listing(
                self.region,
                self.product,
                self.feature,
                installed,
                items,
            ),
            (Stage::ReadMarker { installed, selected }, Event::Marker(m)) => on_marker(
                installed,
                selected,
                m,
            ),
            (Stage::DownloadAndExtract { installed, selected }, Event::Extracted { ok }) => if ok {
                let marker = VersionMarker {
                    imorph_version: selected.imorph_version,
                    wow_version: installed.version,
                };
                let contents = marker.to_text();
                (Stage::UpdateMarker, Action::WriteMarker { contents })
            } else {
                failed(RunError::Extract)
            },
            (Stage::UpdateMarker, Event::MarkerWritten { ok }) => if ok {
                (Stage::Launch, Action::Launch)
            } else {
                failed(RunError::MarkerWrite)
            },
            (Stage::Launch, Event::Launched { ok }) => if ok {
                (Stage::Finished, Action::Finish(Outcome::Success))
            } else {
                failed(RunError::Launch)
            },
            _ => failed(RunError::UnexpectedEvent),
        };
        self.stage = next;
        action
    }
}

} // verus!
