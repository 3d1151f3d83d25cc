use std::path::{Path, PathBuf};

use plexus::cache_path::{block_header_path, temp_path_for, tx_path, CacheConfig};
use plexus::path::{join, u64_to_decimal};

fn bytes_of(p: &Path) -> &[u8] {
    p.as_os_str().as_encoded_bytes()
}

fn path_of(bytes: Vec<u8>) -> PathBuf {
    PathBuf::from(String::from_utf8(bytes).unwrap())
}

#[test]
fn block_header_path_correct() {
    let root = PathBuf::from("/cache");
    assert_eq!(
        path_of(block_header_path(bytes_of(&root), 1, 19_000_000)),
        PathBuf::from("/cache/1/19000000/block_header.json")
    );
}

#[test]
fn tx_path_correct() {
    let root = PathBuf::from("/cache");
    assert_eq!(
        path_of(tx_path(bytes_of(&root), 1, 19_000_000, "0xabc")),
        PathBuf::from("/cache/1/19000000/tx_0xabc.json")
    );
}

#[test]
fn cache_config_custom_root() {
    let dir = PathBuf::from("/var/tmp/plexus-cache-test");
    let cfg = CacheConfig::new(bytes_of(&dir).to_vec());
    let p = cfg.block_header_path(1, 100);
    assert_eq!(path_of(p), dir.join("1/100/block_header.json"));
}

#[test]
fn paths_are_joined_as_std_joins_them() {
    for (base, comp) in [
        ("/cache", "1"),
        ("/cache/", "1"),
        ("", "1"),
        ("rel", "a.json"),
        ("/cache", "/abs"),
        ("/", "x"),
    ] {
        let ours = join(base.as_bytes(), comp.as_bytes());
        let std = PathBuf::from(base).join(comp);
        assert_eq!(ours, bytes_of(&std));
    }
}

#[test]
fn decimal_matches_to_string() {
    for n in [0u64, 7, 9, 10, 99, 100, 19_000_000, u64::MAX] {
        assert_eq!(u64_to_decimal(n), n.to_string().into_bytes());
    }
}

#[test]
fn config_paths_match_free_functions() {
    let cfg = CacheConfig::new(b"/data/cache".to_vec());
    assert_eq!(cfg.block_header_path(5, 42), block_header_path(b"/data/cache", 5, 42));
    assert_eq!(cfg.tx_path(5, 42, "0xff"), b"/data/cache/5/42/tx_0xff.json".to_vec());
}

#[test]
fn root_with_trailing_slash_gets_no_double_separator() {
    assert_eq!(block_header_path(b"/cache/", 1, 2), b"/cache/1/2/block_header.json".to_vec());
}

#[test]
fn root_that_is_not_utf8_is_kept_as_is() {
    let root: &[u8] = b"/home/\xffx";
    let mut expected = root.to_vec();
    expected.extend_from_slice(b"/3/4/block_header.json");
    assert_eq!(block_header_path(root, 3, 4), expected);
}

#[test]
fn default_root_under_home() {
    let c = CacheConfig::under_home(Some(b"/home/alice"));
    assert_eq!(c.root, b"/home/alice/.plexus/cache".to_vec());
    let c = CacheConfig::under_home(None);
    assert_eq!(c.root, b"./.plexus/cache".to_vec());
    let d = CacheConfig::default();
    assert!(d.root.ends_with(b".plexus/cache"));
}

#[test]
fn temp_path_replaces_extension() {
    assert_eq!(temp_path_for("/c/1/100/block_header.json"), "/c/1/100/block_header.tmp");
    assert_eq!(temp_path_for("/c/notes"), "/c/notes.tmp");
}

#[test]
fn temp_path_of_a_tmp_target_is_the_target() {
    assert_eq!(temp_path_for("/c/stage.tmp"), "/c/stage.tmp");
    assert_eq!(temp_path_for("/"), "/");
}

#[test]
fn distinct_blocks_and_hashes_get_distinct_files() {
    assert_ne!(block_header_path(b"/r", 1, 23), block_header_path(b"/r", 12, 3));
    assert_ne!(tx_path(b"/r", 1, 2, "0xa"), tx_path(b"/r", 1, 2, "0xb"));
    assert_ne!(tx_path(b"/r", 1, 2, "0xa"), block_header_path(b"/r", 1, 2));
}
