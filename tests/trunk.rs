use flate2::write::GzEncoder;
use flate2::Compression;
use pgxn_bridge::trunk::{contrib_manifest_texts, is_contrib_manifest, CrawlError};
use std::io::Write;

fn snapshot(entries: &[(&str, tar::EntryType, &[u8])]) -> Vec<u8> {
    let mut builder = tar::Builder::new(Vec::new());
    for (path, kind, data) in entries {
        let mut header = tar::Header::new_gnu();
        header.set_path(path).unwrap();
        header.set_entry_type(*kind);
        header.set_size(data.len() as u64);
        header.set_mode(0o644);
        header.set_cksum();
        builder.append(&header, *data).unwrap();
    }
    let tar_bytes = builder.into_inner().unwrap();
    let mut gz = GzEncoder::new(Vec::new(), Compression::default());
    gz.write_all(&tar_bytes).unwrap();
    gz.finish().unwrap()
}

const POSTGIS: &[u8] = b"[extension]\nname = \"postgis\"\nversion = \"3.4.0\"\n";

#[test]
fn crawler_keeps_only_contrib_manifests() {
    let archive = snapshot(&[
        ("repo-main/contrib/postgis/Trunk.toml", tar::EntryType::Regular, POSTGIS),
        ("repo-main/contrib/postgis/sql/x.sql", tar::EntryType::Regular, b"select 1;"),
        ("repo-main/docs/Trunk.toml", tar::EntryType::Regular, b"[extension]"),
        ("repo-main/contrib/pg_a/Trunk.toml", tar::EntryType::Directory, b""),
    ]);
    let texts = contrib_manifest_texts(&archive).unwrap();
    assert_eq!(texts, vec![String::from_utf8(POSTGIS.to_vec()).unwrap()]);
}

#[test]
fn crawler_keeps_archive_order() {
    let archive = snapshot(&[
        ("r/contrib/b/Trunk.toml", tar::EntryType::Regular, b"b"),
        ("r/contrib/a/Trunk.toml", tar::EntryType::Regular, b"a"),
    ]);
    assert_eq!(contrib_manifest_texts(&archive).unwrap(), vec!["b".to_string(), "a".to_string()]);
}

#[test]
fn crawler_fails_on_invalid_utf8_manifest() {
    let archive = snapshot(&[("r/contrib/a/Trunk.toml", tar::EntryType::Regular, &[0xff, 0xfe])]);
    assert_eq!(contrib_manifest_texts(&archive), Err(CrawlError::NotUtf8));
}

#[test]
fn crawler_ignores_invalid_utf8_elsewhere() {
    let archive = snapshot(&[("r/contrib/a/b.bin", tar::EntryType::Regular, &[0xff, 0xfe])]);
    assert_eq!(contrib_manifest_texts(&archive), Ok(vec![]));
}

#[test]
fn crawler_rejects_non_gzip_input() {
    assert_eq!(contrib_manifest_texts(b"not gzip at all"), Err(CrawlError::Decompress));
}

#[test]
fn contrib_manifest_path_shapes() {
    assert!(is_contrib_manifest("repo-main/contrib/postgis/Trunk.toml"));
    assert!(is_contrib_manifest("contrib/postgis/Trunk.toml"));
    assert!(is_contrib_manifest("./repo//contrib/postgis/Trunk.toml"));
    assert!(!is_contrib_manifest("repo-main/contrib/postgis/sql/x.sql"));
    assert!(!is_contrib_manifest("repo-main/docs/Trunk.toml"));
    assert!(!is_contrib_manifest("repo-main/contrib/Trunk.toml"));
    assert!(!is_contrib_manifest("repo-main/contrib/a/b/Trunk.toml"));
    assert!(!is_contrib_manifest("repo-main/Contrib/a/Trunk.toml"));
}
