//! The data the updater reasons about: the host application's flavours, the
//! companion tool's build variants and regions, and one downloadable build.
use vstd::prelude::*;

use crate::text::text_eq;

verus! {

/// Where a build of the companion tool is released.
#[derive(PartialEq, Eq, Structural, Copy, Clone, Debug)]
pub enum Region {
    Global,
    China,
}

/// A flavour of the host application.
#[derive(PartialEq, Eq, Structural, Copy, Clone, Debug)]
pub enum Product {
    WoW,
    WoWClassic,
    WoWClassicEra,
    WoWBeta,
}

/// A build variant of the companion tool; `Plain` is the build without a
/// feature name.
#[derive(PartialEq, Eq, Structural, Copy, Clone, Debug)]
pub enum Feature {
    Plain,
    Net,
    Menu,
}

/// What `str::to_lowercase` returns for the characters `s`.
pub uninterp spec fn lowercase_of(s: Seq<char>) -> Seq<char>;

/// Relies on `str::to_lowercase`: the lowercase mapping depends on the
/// characters alone.
#[verifier::external_body]
fn to_lowercase(s: &str) -> (r: String)
    ensures
        r@ == lowercase_of(s@),
{
    s.to_lowercase()
}

/// A name that neither a region nor a feature carries.
#[derive(Debug)]
pub struct UnknownName {
    pub name: String,
}

/// The region that a lowercase region name stands for: the empty name for the
/// global release, `china` for the Chinese one.
pub open spec fn region_named(l: Seq<char>) -> Option<Region> {
    if l == ""@ {
        Some(Region::Global)
    } else if l == "china"@ {
        Some(Region::China)
    } else {
        None
    }
}

/// The feature that a lowercase feature name stands for.
pub open spec fn feature_named(l: Seq<char>) -> Option<Feature> {
    if l == ""@ {
        Some(Feature::Plain)
    } else if l == "net"@ {
        Some(Feature::Net)
    } else if l == "menu"@ {
        Some(Feature::Menu)
    } else {
        None
    }
}

impl Region {
    /// The region named by `lower`, a name already in lowercase.
    pub fn from_lowercase(lower: &str) -> (r: Option<Region>)
        ensures
            r == region_named(lower@),
    {
        if text_eq(lower, "") {
            Some(Region::Global)
        } else if text_eq(lower, "china") {
            Some(Region::China)
        } else {
            None
        }
    }

    /// The region named by `s`, in any case.
    pub fn from_str(s: &str) -> (r: Result<Region, UnknownName>)
        ensures
            region_named(lowercase_of(s@)) matches Some(g) ==> r == Ok::<Region, UnknownName>(g),
            region_named(lowercase_of(s@)) is None ==> (r matches Err(e) && e.name@ == s@),
    {
        let lower = to_lowercase(s);
        match Region::from_lowercase(lower.as_str()) {
            Some(g) => Ok(g),
            None => Err(UnknownName { name: s.to_owned() }),
        }
    }
}

impl Feature {
    /// The feature named by `lower`, a name already in lowercase.
    pub fn from_lowercase(lower: &str) -> (r: Option<Feature>)
        ensures
            r == feature_named(lower@),
    {
        if text_eq(lower, "") {
            Some(Feature::Plain)
        } else if text_eq(lower, "net") {
            Some(Feature::Net)
        } else if text_eq(lower, "menu") {
            Some(Feature::Menu)
        } else {
            None
        }
    }

    /// The feature named by `s`, in any case.
    pub fn from_str(s: &str) -> (r: Result<Feature, UnknownName>)
        ensures
            feature_named(lowercase_of(s@)) matches Some(f) ==> r == Ok::<Feature, UnknownName>(
                f,
            ),
            feature_named(lowercase_of(s@)) is None ==> (r matches Err(e) && e.name@ == s@),
    {
        let lower = to_lowercase(s);
        match Feature::from_lowercase(lower.as_str()) {
            Some(f) => Ok(f),
            None => Err(UnknownName { name: s.to_owned() }),
        }
    }
}

/// The name under which a product appears in the host's build manifest and
/// in the configuration.
pub open spec fn product_name(p: Product) -> Seq<char> {
    match p {
        Product::WoW => "wow"@,
        Product::WoWClassic => "wow_classic"@,
        Product::WoWClassicEra => "wow_classic_era"@,
        Product::WoWBeta => "wow_beta"@,
    }
}

/// The product whose name is `s`, matched exactly.
pub open spec fn product_named(s: Seq<char>) -> Option<Product> {
    if s == "wow"@ {
        Some(Product::WoW)
    } else if s == "wow_classic"@ {
        Some(Product::WoWClassic)
    } else if s == "wow_classic_era"@ {
        Some(Product::WoWClassicEra)
    } else if s == "wow_beta"@ {
        Some(Product::WoWBeta)
    } else {
        None
    }
}

impl Product {
    /// The product's name, as `wow` or `wow_classic_era`.
    pub fn name(&self) -> (r: String)
        ensures
            r@ == product_name(*self),
    {
        match self {
            Product::WoW => String::from_str("wow"),
            Product::WoWClassic => String::from_str("wow_classic"),
            Product::WoWClassicEra => String::from_str("wow_classic_era"),
            Product::WoWBeta => String::from_str("wow_beta"),
        }
    }

    /// The product whose name is `s`.
    pub fn from_name(s: &str) -> (r: Option<Product>)
        ensures
            r == product_named(s@),
    {
        if text_eq(s, "wow") {
            Some(Product::WoW)
        } else if text_eq(s, "wow_classic") {
            Some(Product::WoWClassic)
        } else if text_eq(s, "wow_classic_era") {
            Some(Product::WoWClassicEra)
        } else if text_eq(s, "wow_beta") {
            Some(Product::WoWBeta)
        } else {
            None
        }
    }
}

/// One downloadable build of the companion tool. `handle` is the remote
/// store's token for its archive.
#[derive(Clone, Debug)]
pub struct ImorphEntry {
    pub feature: Feature,
    pub wow_version: String,
    pub imorph_version: String,
    pub region: Region,
    pub product: Product,
    pub handle: String,
}

} // verus!
