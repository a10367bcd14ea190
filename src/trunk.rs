//! The registry's existing entries, read from a snapshot of the repository.

pub mod trunk_toml;

use crate::dist::string_views;
use crate::text::{char_views, chars_equal, chars_of, split_chars, split_on};
use flate2::read::GzDecoder;
use vstd::prelude::*;

verus! {

/// The part of a registry manifest that synchronization reads.
#[derive(Debug, Clone)]
pub struct ReducedTrunkToml {
    pub extension: ExtensionInfo,
}

#[derive(Debug, Clone)]
pub struct ExtensionInfo {
    pub name: String,
    pub extension_name: Option<String>,
    pub version: String,
}

/// One entry of a tar archive: its path, whether it is a regular file, and
/// its contents.
pub struct TarItem {
    pub path: String,
    pub regular: bool,
    pub data: Vec<u8>,
}

impl View for TarItem {
    type V = (Seq<char>, bool, Seq<u8>);

    open spec fn view(&self) -> Self::V {
        (self.path@, self.regular, self.data@)
    }
}

/// Why a registry snapshot could not be read.
#[derive(Debug, Clone, Copy, PartialEq, Eq)]
pub enum CrawlError {
    /// The gzip stream is malformed.
    Decompress,
    /// The tar archive is malformed.
    Archive,
    /// A manifest is not valid UTF-8.
    NotUtf8,
}

/// What flate2's gzip decoder makes of a stream: the decompressed bytes, or
/// nothing when the stream is malformed.
pub uninterp spec fn gunzip_of(data: Seq<u8>) -> Option<Seq<u8>>;

/// What the tar crate lists of an archive: path, regular-file flag and
/// contents of each entry in stored order, or nothing when it is malformed.
pub uninterp spec fn tar_listing_of(data: Seq<u8>) -> Option<Seq<(Seq<char>, bool, Seq<u8>)>>;

/// What `String::from_utf8` makes of bytes.
pub uninterp spec fn utf8_of(data: Seq<u8>) -> Option<Seq<char>>;

/// Relies on flate2's `GzDecoder` read to the end.
#[verifier::external_body]
fn gunzip(data: &[u8]) -> (r: Option<Vec<u8>>)
    ensures
        match r {
            Some(v) => gunzip_of(data@) == Some(v@),
            None => gunzip_of(data@) is None,
        },
{
    let mut out = Vec::new();
    std::io::Read::read_to_end(&mut GzDecoder::new(data), &mut out).ok()?;
    Some(out)
}

/// Relies on tar's `Archive::entries`, each entry's `path`, header entry type
/// and contents, listed in the order the archive stores them.
#[verifier::external_body]
fn tar_listing(data: &[u8]) -> (r: Option<Vec<TarItem>>)
    ensures
        match r {
            Some(v) => tar_listing_of(data@) == Some(v@.map_values(|t: TarItem| t@)),
            None => tar_listing_of(data@) is None,
        },
{
    let mut out = Vec::new();
    for entry in tar::Archive::new(data).entries().ok()? {
        let mut entry = entry.ok()?;
        let regular = entry.header().entry_type().is_file();
        let path = entry.path().ok()?.to_string_lossy().into_owned();
        let mut contents = Vec::new();
        std::io::Read::read_to_end(&mut entry, &mut contents).ok()?;
        out.push(TarItem { path, regular, data: contents });
    }
    Some(out)
}

/// Relies on `String::from_utf8`.
#[verifier::external_body]
fn utf8_text(data: Vec<u8>) -> (r: Option<String>)
    ensures
        match r {
            Some(s) => utf8_of(data@) == Some(s@),
            None => utf8_of(data@) is None,
        },
{
    String::from_utf8(data).ok()
}

/// A path component that names something: not empty and not `.`.
pub open spec fn significant(c: Seq<char>) -> bool {
    c.len() > 0 && c != seq!['.']
}

/// The named components of a `/`-separated path, in order.
pub open spec fn kept_components(parts: Seq<Seq<char>>) -> Seq<Seq<char>>
    decreases parts.len(),
{
    if parts.len() == 0 {
        Seq::empty()
    } else {
        let rest = kept_components(parts.drop_last());
        if significant(parts.last()) {
            rest.push(parts.last())
        } else {
            rest
        }
    }
}

pub open spec fn path_components(p: Seq<char>) -> Seq<Seq<char>> {
    kept_components(split_on(p, '/'))
}

/// A path of the shape `<root>/contrib/<package>/Trunk.toml`: the file is
/// named `Trunk.toml` and its parent's parent is named `contrib`.
pub open spec fn contrib_manifest_path(p: Seq<char>) -> bool {
    let c = path_components(p);
    &&& c.len() >= 3
    &&& c[c.len() - 1] == "Trunk.toml"@
    &&& c[c.len() - 3] == "contrib"@
}

/// Whether a snapshot entry at `path` is a registry manifest.
pub fn is_contrib_manifest(path: &str) -> (r: bool)
    ensures
        r == contrib_manifest_path(path@),
{
    let chars = chars_of(path);
    let parts = split_chars(&chars, '/');
    let dot = chars_of(".");
    proof {
        reveal_strlit(".");
    }
    assert(dot@ =~= seq!['.']);
    let mut kept: Vec<Vec<char>> = Vec::new();
    let mut i: usize = 0;
    while i < parts.len()
        invariant
            i <= parts@.len(),
            dot@ == seq!['.'],
            char_views(parts@) == split_on(path@, '/'),
            char_views(kept@) == kept_components(char_views(parts@).take(i as int)),
        decreases parts@.len() - i,
    {
        let part = &parts[i];
        assert(char_views(parts@).take(i + 1).drop_last() =~= char_views(parts@).take(i as int));
        if part.len() > 0 && !chars_equal(part, &dot) {
            kept.push(part.clone());
            assert(char_views(kept@) =~= kept_components(char_views(parts@).take(i + 1)));
        }
        i = i + 1;
    }
    assert(char_views(parts@).take(i as int) =~= char_views(parts@));
    let n = kept.len();
    if n < 3 {
        return false;
    }
    let manifest = chars_of("Trunk.toml");
    let packages_dir = chars_of("contrib");
    assert(char_views(kept@)[n - 1] == kept@[n - 1]@);
    assert(char_views(kept@)[n - 3] == kept@[n - 3]@);
    chars_equal(&kept[n - 1], &manifest) && chars_equal(&kept[n - 3], &packages_dir)
}

/// The texts of the manifests among `items`, in order, or nothing when one of
/// them is not valid UTF-8.
pub open spec fn manifest_texts(items: Seq<(Seq<char>, bool, Seq<u8>)>) -> Option<Seq<Seq<char>>>
    decreases items.len(),
{
    if items.len() == 0 {
        Some(Seq::empty())
    } else {
        match manifest_texts(items.drop_last()) {
            None => None,
            Some(texts) => {
                let (path, regular, data) = items.last();
                if regular && contrib_manifest_path(path) {
                    match utf8_of(data) {
                        Some(t) => Some(texts.push(t)),
                        None => None,
                    }
                } else {
                    Some(texts)
                }
            },
        }
    }
}

/// What reading a gzip-compressed snapshot of the registry gives.
pub open spec fn snapshot_manifests(archive: Seq<u8>) -> Result<Seq<Seq<char>>, CrawlError> {
    match gunzip_of(archive) {
        None => Err(CrawlError::Decompress),
        Some(tar) => match tar_listing_of(tar) {
            None => Err(CrawlError::Archive),
            Some(items) => match manifest_texts(items) {
                None => Err(CrawlError::NotUtf8),
                Some(texts) => Ok(texts),
            },
        },
    }
}

/// The texts of the registry manifests in a gzip-compressed tar snapshot of
/// the registry: the regular files at `<root>/contrib/<package>/Trunk.toml`,
/// in the order the archive stores them.
pub fn contrib_manifest_texts(archive: &[u8]) -> (r: Result<Vec<String>, CrawlError>)
    ensures
        match (r, snapshot_manifests(archive@)) {
            (Ok(v), Ok(t)) => string_views(v@) == t,
            (Err(e), Err(f)) => e == f,
            _ => false,
        },
{
    let tar = match gunzip(archive) {
        Some(t) => t,
        None => return Err(CrawlError::Decompress),
    };
    let items = match tar_listing(tar.as_slice()) {
        Some(items) => items,
        None => return Err(CrawlError::Archive),
    };
    let ghost listed = items@.map_values(|t: TarItem| t@);
    let mut texts: Vec<String> = Vec::new();
    let mut failed = false;
    let mut i: usize = 0;
    while i < items.len()
        invariant
            i <= items@.len(),
            listed == items@.map_values(|t: TarItem| t@),
            failed ==> manifest_texts(listed.take(i as int)) is None,
            !failed ==> manifest_texts(listed.take(i as int)) == Some(string_views(texts@)),
        decreases items@.len() - i,
    {
        assert(listed.take(i + 1).drop_last() =~= listed.take(i as int));
        assert(listed.take(i + 1).last() == items@[i as int]@);
        if !failed {
            let item = &items[i];
            if item.regular && is_contrib_manifest(item.path.as_str()) {
                match utf8_text(item.data.clone()) {
                    Some(text) => {
                        texts.push(text);
                        assert(string_views(texts@) =~= string_views(texts@.drop_last()).push(
                            texts@.last()@,
                        ));
                    },
                    None => {
                        failed = true;
                    },
                }
            }
        }
        i = i + 1;
    }
    assert(listed.take(i as int) =~= listed);
    if failed {
        Err(CrawlError::NotUtf8)
    } else {
        Ok(texts)
    }
}

} // verus!
