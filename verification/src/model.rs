//! The records that the library reads out of `scoop` output, and the
//! messages that carry them to the window.

use vstd::prelude::*;

verus! {

/// A package as `scoop` lists it.
#[derive(Debug, Clone)]
pub struct Package {
    pub name: String,
    pub version: String,
    pub description: Option<String>,
    pub installed: bool,
    pub bucket: Option<String>,
}

/// A bucket (a source of package manifests) as `scoop bucket list` shows it.
#[derive(Debug, Clone)]
pub struct Bucket {
    pub name: String,
    pub source: String,
    pub updated: Option<String>,
}

/// The view of a `Package`: its text fields as character sequences.
pub struct PackageView {
    pub name: Seq<char>,
    pub version: Seq<char>,
    pub description: Option<Seq<char>>,
    pub installed: bool,
    pub bucket: Option<Seq<char>>,
}

/// The view of a `Bucket`.
pub struct BucketView {
    pub name: Seq<char>,
    pub source: Seq<char>,
    pub updated: Option<Seq<char>>,
}

/// The view of an optional string.
pub open spec fn opt_view(o: Option<String>) -> Option<Seq<char>> {
    match o {
        Some(s) => Some(s@),
        None => None,
    }
}

impl View for Package {
    type V = PackageView;

    open spec fn view(&self) -> PackageView {
        PackageView {
            name: self.name@,
            version: self.version@,
            description: opt_view(self.description),
            installed: self.installed,
            bucket: opt_view(self.bucket),
        }
    }
}

impl View for Bucket {
    type V = BucketView;

    open spec fn view(&self) -> BucketView {
        BucketView { name: self.name@, source: self.source@, updated: opt_view(self.updated) }
    }
}

/// The views of a sequence of packages.
pub open spec fn package_views(ps: Seq<Package>) -> Seq<PackageView> {
    ps.map_values(|p: Package| p@)
}

/// The views of a sequence of buckets.
pub open spec fn bucket_views(bs: Seq<Bucket>) -> Seq<BucketView> {
    bs.map_values(|b: Bucket| b@)
}

/// A message from the background work to the window.
#[derive(Debug)]
pub enum DataUpdate {
    Status(String),
    Loading(bool),
    InstalledPackages(Vec<Package>),
    Buckets(Vec<Bucket>),
    SearchResults(Vec<Package>),
    CommandOutput(String),
}

} // verus!
