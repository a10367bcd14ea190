//! The manifest written for a distribution into the registry.

use crate::dist::{License, MetaJson};
use vstd::prelude::*;

verus! {

#[derive(Debug)]
pub struct TrunkToml {
    pub extension: TomlExtensionData,
    pub build: TomlBuildInfo,
}

#[derive(Debug)]
pub struct TomlExtensionData {
    pub name: String,
    pub extension_name: Option<String>,
    pub version: String,
    pub license: String,
    pub repository: Option<String>,
    pub description: Option<String>,
    pub homepage: Option<String>,
    pub documentation: Option<String>,
}

#[derive(Debug)]
pub struct TomlBuildInfo {
    pub postgres_version: Option<String>,
    pub platform: String,
}

/// The long description if there is one, else the abstract.
pub open spec fn description_of(meta: MetaJson) -> String {
    match meta.description {
        Some(d) => d,
        None => meta._abstract,
    }
}

/// The explicit homepage if there is one, else the repository's web page.
pub open spec fn homepage_of(meta: MetaJson) -> String {
    match meta.resources.homepage {
        Some(h) => h,
        None => meta.resources.repository.web,
    }
}

impl TrunkToml {
    /// Whether `self` is the manifest derived from `meta`: every field but the
    /// license is fixed, and the license is one that `meta` admits.
    pub open spec fn derived_from(self, meta: MetaJson) -> bool {
        &&& self.extension.name == meta.name
        &&& self.extension.extension_name is None
        &&& self.extension.version == meta.version
        &&& meta.license.admits(self.extension.license)
        &&& self.extension.repository == Some(meta.resources.repository.web)
        &&& self.extension.description == Some(description_of(meta))
        &&& self.extension.homepage == Some(homepage_of(meta))
        &&& self.extension.documentation == Some(meta.resources.repository.web)
        &&& self.build.postgres_version matches Some(v) && v@ == "15"@
        &&& self.build.platform@ == "linux/amd64"@
    }

    /// Derives the registry manifest from a metadata document.
    pub fn build_from_pgxn_meta(meta: MetaJson) -> (r: Self)
        requires
            meta.license.well_formed(),
        ensures
            r.derived_from(meta),
    {
        let license = meta.license.identifier();
        let repository = meta.resources.repository.web.clone();
        let homepage = match meta.resources.homepage {
            Some(h) => h,
            None => repository.clone(),
        };
        let description = match meta.description {
            Some(d) => d,
            None => meta._abstract,
        };
        TrunkToml {
            extension: TomlExtensionData {
                name: meta.name,
                extension_name: None,
                version: meta.version,
                license,
                repository: Some(repository.clone()),
                description: Some(description),
                homepage: Some(homepage),
                documentation: Some(repository),
            },
            build: TomlBuildInfo {
                postgres_version: Some(String::from_str("15")),
                platform: String::from_str("linux/amd64"),
            },
        }
    }
}

} // verus!
