//! The release feed's records and the extension metadata documents.

use slicedisplay::SliceDisplay;
use std::collections::HashMap;
use vstd::prelude::*;

verus! {

/// The feed of recent releases.
#[derive(Debug, Clone)]
pub struct DistResponse {
    pub count: i64,
    pub releases: i64,
    /// Most recent first.
    pub recent: Vec<Release>,
}

/// One published version of a distribution.
#[derive(Debug, Clone)]
pub struct Release {
    pub dist: String,
    pub version: String,
    pub description: String,
    pub date: String,
    pub user: String,
    pub user_name: String,
}

/// The full metadata document of one distribution version.
#[derive(Debug, Clone)]
pub struct MetaJson {
    pub name: String,
    pub _abstract: String,
    pub description: Option<String>,
    pub version: String,
    pub date: String,
    pub maintainer: Maintainer,
    pub release_status: String,
    pub user: String,
    pub license: License,
    pub tags: Vec<String>,
    pub resources: Resources,
}

/// One maintainer, or several in order.
#[derive(Debug, Clone)]
pub enum Maintainer {
    Single(String),
    Multiple(Vec<String>),
}

/// A license identifier, or a map from license label to its URL.
#[derive(Debug, Clone)]
pub enum License {
    Simple(String),
    WithLink(HashMap<String, String>),
}

#[derive(Debug, Clone)]
pub struct Resources {
    pub bugtracker: Option<Bugtracker>,
    pub homepage: Option<String>,
    pub repository: Repository,
}

#[derive(Debug, Clone)]
pub struct Bugtracker {
    pub web: String,
}

#[derive(Debug, Clone)]
pub struct Repository {
    pub url: String,
    pub web: String,
}

/// What `str::to_lowercase` makes of a string.
pub uninterp spec fn lower_of(s: Seq<char>) -> Seq<char>;

/// Relies on `str::to_lowercase`: its result depends on the characters alone.
#[verifier::external_body]
fn lowercase(s: &str) -> (r: String)
    ensures
        r@ == lower_of(s@),
{
    s.to_lowercase()
}

/// The strings of `items` with `sep` between each two of them.
pub open spec fn joined(items: Seq<Seq<char>>, sep: Seq<char>) -> Seq<char>
    decreases items.len(),
{
    if items.len() == 0 {
        Seq::empty()
    } else if items.len() == 1 {
        items[0]
    } else {
        joined(items.drop_last(), sep) + sep + items.last()
    }
}

pub open spec fn string_views(v: Seq<String>) -> Seq<Seq<char>> {
    v.map_values(|s: String| s@)
}

/// Relies on slicedisplay's `Display` for a slice with both terminators set to
/// a space: a space, the items separated by `", "`, and a space.
#[verifier::external_body]
fn spaced_list(names: &Vec<String>) -> (r: String)
    ensures
        r@ == seq![' '] + joined(string_views(names@), seq![',', ' ']) + seq![' '],
{
    names.display().terminator(' ', ' ').to_string()
}

/// The first key that iterating the map yields, if there is one.
/// Relies on `HashMap::keys`: every key it yields is in the map, and it yields
/// one unless the map is empty. Which one comes first is not specified.
#[verifier::external_body]
fn some_key(m: &HashMap<String, String>) -> (r: Option<String>)
    ensures
        r matches Some(k) ==> m@.contains_key(k),
        r is None <==> m@.is_empty(),
{
    m.keys().next().cloned()
}

pub open spec fn maintainer_text(m: Maintainer) -> Seq<char> {
    match m {
        Maintainer::Single(s) => s@,
        Maintainer::Multiple(v) => seq![' '] + joined(string_views(v@), seq![',', ' ']) + seq![' ']
            + "\n"@,
    }
}

impl Maintainer {
    /// The maintainer as the pull request description shows it.
    pub fn to_text(&self) -> (r: String)
        ensures
            r@ == maintainer_text(*self),
    {
        match self {
            Maintainer::Single(single) => single.clone(),
            Maintainer::Multiple(multiple) => {
                let mut s = spaced_list(multiple);
                s.append("\n");
                s
            },
        }
    }
}

impl License {
    /// Whether `id` is an identifier this license may be written as.
    pub open spec fn admits(self, id: String) -> bool {
        match self {
            License::Simple(s) => id@ == s@,
            License::WithLink(m) => m@.contains_key(id),
        }
    }

    pub open spec fn well_formed(self) -> bool {
        self matches License::WithLink(m) ==> !m@.is_empty()
    }

    /// The license identifier: the string itself, or one of the map's labels.
    pub fn identifier(&self) -> (r: String)
        requires
            self.well_formed(),
        ensures
            self.admits(r),
    {
        match self {
            License::Simple(license) => license.clone(),
            License::WithLink(map) => match some_key(map) {
                Some(k) => k,
                None => {
                    proof {
                        assert(false);
                    }
                    String::new()
                },
            },
        }
    }
}

pub open spec fn archive_url(dist: Seq<char>, version: Seq<char>) -> Seq<char> {
    "https://master.pgxn.org/dist/"@ + lower_of(dist) + "/"@ + version + "/"@ + lower_of(dist)
        + "-"@ + version + ".zip"@
}

pub open spec fn metadata_url(dist: Seq<char>, version: Seq<char>) -> Seq<char> {
    "https://master.pgxn.org/dist/"@ + lower_of(dist) + "/"@ + version + "/META.json"@
}

impl Release {
    /// Where the distribution's zip archive of this version is published.
    pub fn download_url(&self) -> (r: String)
        ensures
            r@ == archive_url(self.dist@, self.version@),
    {
        let dist = lowercase(self.dist.as_str());
        let mut url = String::from_str("https://master.pgxn.org/dist/");
        url.append(dist.as_str());
        url.append("/");
        url.append(self.version.as_str());
        url.append("/");
        url.append(dist.as_str());
        url.append("-");
        url.append(self.version.as_str());
        url.append(".zip");
        url
    }

    /// Where this version's metadata document is published.
    pub fn meta_url(&self) -> (r: String)
        ensures
            r@ == metadata_url(self.dist@, self.version@),
    {
        let dist = lowercase(self.dist.as_str());
        let mut url = String::from_str("https://master.pgxn.org/dist/");
        url.append(dist.as_str());
        url.append("/");
        url.append(self.version.as_str());
        url.append("/META.json");
        url
    }
}

} // verus!
