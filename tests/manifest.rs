use pgxn_bridge::dist::{License, Maintainer, MetaJson, Release, Repository, Resources};
use pgxn_bridge::github::{branch_name, build_description, commit_message};
use pgxn_bridge::trunk::trunk_toml::TrunkToml;
use std::collections::HashMap;

fn meta(license: License, description: Option<&str>, homepage: Option<&str>) -> MetaJson {
    MetaJson {
        name: "pg_ext".to_string(),
        _abstract: "Short abstract".to_string(),
        description: description.map(|d| d.to_string()),
        version: "1.2.3".to_string(),
        date: "2024-05-01T00:00:00Z".to_string(),
        maintainer: Maintainer::Single("Jane Doe <jane@example.com>".to_string()),
        release_status: "stable".to_string(),
        user: "jane".to_string(),
        license,
        tags: vec![],
        resources: Resources {
            bugtracker: None,
            homepage: homepage.map(|h| h.to_string()),
            repository: Repository {
                url: "git://example.com/pg_ext.git".to_string(),
                web: "https://example.com/pg_ext".to_string(),
            },
        },
    }
}

#[test]
fn manifest_license_from_map_is_one_of_its_labels() {
    let mut map = HashMap::new();
    map.insert("MIT".to_string(), "url1".to_string());
    map.insert("Apache-2.0".to_string(), "url2".to_string());
    let toml = TrunkToml::build_from_pgxn_meta(meta(License::WithLink(map), None, None));
    assert!(toml.extension.license == "MIT" || toml.extension.license == "Apache-2.0");
}

#[test]
fn manifest_fields_from_metadata() {
    let toml = TrunkToml::build_from_pgxn_meta(meta(
        License::Simple("postgresql".to_string()),
        None,
        None,
    ));
    let ext = &toml.extension;
    assert_eq!(ext.name, "pg_ext");
    assert_eq!(ext.extension_name, None);
    assert_eq!(ext.version, "1.2.3");
    assert_eq!(ext.license, "postgresql");
    assert_eq!(ext.repository.as_deref(), Some("https://example.com/pg_ext"));
    assert_eq!(ext.description.as_deref(), Some("Short abstract"));
    assert_eq!(ext.homepage.as_deref(), Some("https://example.com/pg_ext"));
    assert_eq!(ext.documentation.as_deref(), Some("https://example.com/pg_ext"));
    assert_eq!(toml.build.postgres_version.as_deref(), Some("15"));
    assert_eq!(toml.build.platform, "linux/amd64");
}

#[test]
fn manifest_prefers_long_description_and_homepage() {
    let toml = TrunkToml::build_from_pgxn_meta(meta(
        License::Simple("mit".to_string()),
        Some("Long description"),
        Some("https://home.example.com"),
    ));
    assert_eq!(toml.extension.description.as_deref(), Some("Long description"));
    assert_eq!(toml.extension.homepage.as_deref(), Some("https://home.example.com"));
    assert_eq!(toml.extension.documentation.as_deref(), Some("https://example.com/pg_ext"));
}

#[test]
fn description_text_is_exact() {
    let m = meta(License::Simple("mit".to_string()), None, None);
    let expected = "Note: this PR was auto-generated by [pgxn-bridge](https://github.com/tembo-io/pgxn-bridge), see [pg_ext in PGXN](https://pgxn.org/dist/pg_ext/)\n\n\
Version 1.2.3, published 2024-05-01T00:00:00Z\n\n\
Description: Short abstract\n\n\
Maintainer: Jane Doe <jane@example.com>\n";
    assert_eq!(build_description(&m), expected);
}

#[test]
fn maintainer_list_text() {
    let m = Maintainer::Multiple(vec!["Ann".to_string(), "Bob".to_string()]);
    assert_eq!(m.to_text(), " Ann, Bob \n");
    let one = Maintainer::Multiple(vec!["Ann".to_string()]);
    assert_eq!(one.to_text(), " Ann \n");
    assert_eq!(Maintainer::Single("Ann".to_string()).to_text(), "Ann");
}

#[test]
fn description_with_several_maintainers() {
    let mut m = meta(License::Simple("mit".to_string()), Some("Long"), None);
    m.maintainer = Maintainer::Multiple(vec!["Ann".to_string(), "Bob".to_string()]);
    let text = build_description(&m);
    assert!(text.ends_with("Description: Long\n\nMaintainer:  Ann, Bob \n\n"));
}

#[test]
fn branch_and_commit_names() {
    let m = meta(License::Simple("mit".to_string()), None, None);
    assert_eq!(branch_name(&m), "pgxn-bridge/pg_ext-1.2.3");
    assert_eq!(commit_message(&m), "pgxn-bridge: publish pg_ext v1.2.3");
}

fn release(dist: &str, version: &str) -> Release {
    Release {
        dist: dist.to_string(),
        version: version.to_string(),
        description: String::new(),
        date: String::new(),
        user: String::new(),
        user_name: String::new(),
    }
}

#[test]
fn urls_use_lowercase_distribution() {
    let r = release("PostGIS", "3.4.0");
    assert_eq!(
        r.download_url(),
        "https://master.pgxn.org/dist/postgis/3.4.0/postgis-3.4.0.zip"
    );
    assert_eq!(r.meta_url(), "https://master.pgxn.org/dist/postgis/3.4.0/META.json");
}
