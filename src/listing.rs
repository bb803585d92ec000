//! The remote store's listing of tool builds: each archive name is read by
//! the naming convention `iMorph-<tool version>(<feature>)[<region> <target
//! version>].zip`, and the builds for the configured target are kept.
use vstd::prelude::*;

use crate::pattern::{captures, group, group_at, groups_view, or_empty, regex_captures};
use crate::model::{
    feature_named, lowercase_of, region_named, Feature, ImorphEntry, Product, Region,
};

verus! {

/// The naming convention of the build archives.
pub open spec fn archive_pattern() -> Seq<char> {
    "iMorph-([\\d\\.]+)(\\((.*?)\\))?\\[(China)? ?([\\d\\.]+)\\].zip"@
}

/// Why the listing could not be read.
#[derive(PartialEq, Eq, Structural, Copy, Clone, Debug)]
pub enum ListingError {
    /// The configured product has no folder in the store.
    UnsupportedProduct,
    /// An archive name does not follow the naming convention.
    UnmatchedName,
    /// The tool version or target version of a name could not be read.
    MissingVersion,
    /// A name carries a feature that is not known.
    UnknownFeature,
    /// A name carries a region that is not known.
    UnknownRegion,
}

/// The folder of the store that holds the builds for `product`.
pub open spec fn product_folder(product: Product) -> Option<Seq<char>> {
    match product {
        Product::WoW => Some("iMorph/retail"@),
        Product::WoWClassic => Some("iMorph/classic"@),
        Product::WoWClassicEra => Some("iMorph/cata"@),
        Product::WoWBeta => None,
    }
}

/// The folder of the store that holds the builds for `product`.
pub fn folder_for_product(product: Product) -> (r: Result<String, ListingError>)
    ensures
        product_folder(product) matches Some(f) ==> r matches Ok(s) && s@ == f,
        product_folder(product) is None ==> r == Err::<String, ListingError>(
            ListingError::UnsupportedProduct,
        ),
{
    match product {
        Product::WoW => Ok(String::from_str("iMorph/retail")),
        Product::WoWClassic => Ok(String::from_str("iMorph/classic")),
        Product::WoWClassicEra => Ok(String::from_str("iMorph/cata")),
        Product::WoWBeta => Err(ListingError::UnsupportedProduct),
    }
}

/// An entry as plain values: feature, target version, tool version, region,
/// product, handle.
pub type EntryView = (Feature, Seq<char>, Seq<char>, Region, Product, Seq<char>);

pub open spec fn entry_view(e: ImorphEntry) -> EntryView {
    (e.feature, e.wow_version@, e.imorph_version@, e.region, e.product, e.handle@)
}

/// What one archive name's groups say: an error, a build for another target
/// (`None`), or the build itself.
pub open spec fn item_of_groups(
    caps: Option<Seq<Option<Seq<char>>>>,
    handle: Seq<char>,
    region: Region,
    product: Product,
    feature: Feature,
    wow_version: Seq<char>,
) -> Result<Option<EntryView>, ListingError> {
    match caps {
        None => Err(ListingError::UnmatchedName),
        Some(c) => if group(c, 1) is None || group(c, 5) is None {
            Err(ListingError::MissingVersion)
        } else {
            match feature_named(lowercase_of(or_empty(group(c, 3)))) {
                None => Err(ListingError::UnknownFeature),
                Some(f) => match region_named(lowercase_of(or_empty(group(c, 4)))) {
                    None => Err(ListingError::UnknownRegion),
                    Some(g) => if f != feature || g != region || group(c, 5)->0 != wow_version {
                        Ok(None)
                    } else {
                        Ok(Some((f, group(c, 5)->0, group(c, 1)->0, g, product, handle)))
                    },
                },
            }
        },
    }
}

pub open spec fn item_of(
    name: Seq<char>,
    handle: Seq<char>,
    region: Region,
    product: Product,
    feature: Feature,
    wow_version: Seq<char>,
) -> Result<Option<EntryView>, ListingError> {
    item_of_groups(
        regex_captures(archive_pattern(), name),
        handle,
        region,
        product,
        feature,
        wow_version,
    )
}

/// The builds of the listing `items` (name and handle of each archive) that
/// match the region, feature and target version, in listing order; the
/// first name that cannot be read makes the whole listing an error.
pub open spec fn entries_of(
    items: Seq<(Seq<char>, Seq<char>)>,
    region: Region,
    product: Product,
    feature: Feature,
    wow_version: Seq<char>,
) -> Result<Seq<EntryView>, ListingError>
    decreases items.len(),
{
    if items.len() == 0 {
        Ok(Seq::empty())
    } else {
        match entries_of(items.drop_last(), region, product, feature, wow_version) {
            Err(e) => Err(e),
            Ok(es) => match item_of(
                items.last().0,
                items.last().1,
                region,
                product,
                feature,
                wow_version,
            ) {
                Err(e) => Err(e),
                Ok(None) => Ok(es),
                Ok(Some(v)) => Ok(es.push(v)),
            },
        }
    }
}

/// Reads one archive name from the groups that the naming convention's
/// pattern captured in it.
pub fn entry_from_groups(
    caps: &Option<Vec<Option<String>>>,
    handle: &str,
    region: Region,
    product: Product,
    feature: Feature,
    wow_version: &str,
) -> (r: Result<Option<ImorphEntry>, ListingError>)
    ensures
        match item_of_groups(groups_view(*caps), handle@, region, product, feature, wow_version@) {
            Err(e) => r == Err::<Option<ImorphEntry>, ListingError>(e),
            Ok(None) => r matches Ok(None),
            Ok(Some(v)) => r matches Ok(Some(e)) && entry_view(e) == v,
        },
{
    let c = match caps {
        Some(c) => c,
        None => {
            return Err(ListingError::UnmatchedName);
        },
    };
    let tool = group_at(c, 1);
    let target = group_at(c, 5);
    let (tool, target) = match (tool, target) {
        (Some(t), Some(w)) => (t, w),
        _ => {
            return Err(ListingError::MissingVersion);
        },
    };
    let feature_name = match group_at(c, 3) {
        Some(s) => s,
        None => String::new(),
    };
    let region_name = match group_at(c, 4) {
        Some(s) => s,
        None => String::new(),
    };
    let f = match Feature::from_str(feature_name.as_str()) {
        Ok(f) => f,
        Err(_) => {
            return Err(ListingError::UnknownFeature);
        },
    };
    let g = match Region::from_str(region_name.as_str()) {
        Ok(g) => g,
        Err(_) => {
            return Err(ListingError::UnknownRegion);
        },
    };
    if f != feature || g != region || !crate::text::text_eq(target.as_str(), wow_version) {
        return Ok(None);
    }
    Ok(
        Some(
            ImorphEntry {
                feature: f,
                wow_version: target,
                imorph_version: tool,
                region: g,
                product,
                handle: handle.to_owned(),
            },
        ),
    )
}

pub open spec fn items_view(items: Seq<(String, String)>) -> Seq<(Seq<char>, Seq<char>)> {
    items.map_values(|p: (String, String)| (p.0@, p.1@))
}

pub open spec fn entries_view(es: Seq<ImorphEntry>) -> Seq<EntryView> {
    es.map_values(|e: ImorphEntry| entry_view(e))
}

/// The builds in the listing `items` (name and handle of each archive) that
/// are for `region`, `feature` and the target version `wow_version`, in
/// listing order, each recorded for `product`.
pub fn entries_from_listing(
    items: &Vec<(String, String)>,
    region: Region,
    product: Product,
    feature: Feature,
    wow_version: &str,
) -> (r: Result<Vec<ImorphEntry>, ListingError>)
    ensures
        match entries_of(items_view(items@), region, product, feature, wow_version@) {
            Err(e) => r == Err::<Vec<ImorphEntry>, ListingError>(e),
            Ok(es) => r matches Ok(v) && entries_view(v@) == es,
        },
{
    let ghost iv = items_view(items@);
    let mut out: Vec<ImorphEntry> = Vec::new();
    let mut k: usize = 0;
    assert(iv.subrange(0, 0).len() == 0);
    while k < items.len()
        invariant
            k <= items@.len(),
            iv == items_view(items@),
            entries_of(iv.subrange(0, k as int), region, product, feature, wow_version@) matches Ok(
                es,
            ) && entries_view(out@) == es,
        decreases items@.len() - k,
    {
        let ghost prefix = iv.subrange(0, k as int);
        let ghost next = iv.subrange(0, k + 1);
        assert(next.drop_last() =~= prefix);
        assert(next.last() == iv[k as int]);
        let (name, handle) = &items[k];
        let caps = captures("iMorph-([\\d\\.]+)(\\((.*?)\\))?\\[(China)? ?([\\d\\.]+)\\].zip", name.as_str());
        match entry_from_groups(&caps, handle.as_str(), region, product, feature, wow_version) {
            Err(e) => {
                proof {
                    lemma_error_stays(iv, k as int + 1, region, product, feature, wow_version@);
                }
                return Err(e);
            },
            Ok(None) => {},
            Ok(Some(e)) => {
                let ghost before = out@;
                out.push(e);
                assert(entries_view(out@) =~= entries_view(before).push(entry_view(e)));
            },
        }
        k = k + 1;
    }
    assert(iv.subrange(0, iv.len() as int) =~= iv);
    Ok(out)
}

/// Once a prefix of the listing is an error, the whole listing is that error.
proof fn lemma_error_stays(
    items: Seq<(Seq<char>, Seq<char>)>,
    k: int,
    region: Region,
    product: Product,
    feature: Feature,
    wow_version: Seq<char>,
)
    requires
        0 <= k <= items.len(),
        entries_of(items.subrange(0, k), region, product, feature, wow_version) is Err,
    ensures
        entries_of(items, region, product, feature, wow_version) == entries_of(
            items.subrange(0, k),
            region,
            product,
            feature,
            wow_version,
        ),
    decreases items.len() - k,
{
    if k < items.len() {
        let next = items.subrange(0, k + 1);
        assert(next.drop_last() =~= items.subrange(0, k));
        lemma_error_stays(items, k + 1, region, product, feature, wow_version);
    } else {
        assert(items.subrange(0, k) =~= items);
    }
}

} // verus!
