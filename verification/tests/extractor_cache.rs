use plexus::extractor::cache::config::CacheConfig;
use plexus::extractor::cache::io::temp_path_for;

#[test]
fn extractor_block_dir_and_header() {
    let cfg = CacheConfig::with_root(b"/cache".to_vec());
    assert_eq!(cfg.block_dir(1, 19_000_000), b"/cache/1/19000000".to_vec());
    assert_eq!(
        cfg.block_header_path(1, 19_000_000),
        b"/cache/1/19000000/block_header.json".to_vec()
    );
}

#[test]
fn extractor_tx_path_uses_lowercase_hex() {
    let cfg = CacheConfig::with_root(b"/cache".to_vec());
    let mut hash = [0u8; 32];
    hash[0] = 0xAB;
    hash[31] = 0x0f;
    let expected = format!("/cache/7/8/tx_ab{}0f.json", "00".repeat(30));
    assert_eq!(cfg.tx_path(7, 8, &hash), expected.into_bytes());
}

#[test]
fn extractor_home_root() {
    let cfg = CacheConfig::with_home(b"/home/bob");
    assert_eq!(cfg.root, b"/home/bob/.plexus/cache".to_vec());
    if let Some(cfg) = CacheConfig::default() {
        assert!(cfg.root.ends_with(b"/.plexus/cache"));
    }
}

#[test]
fn extractor_temp_path_appends_tmp() {
    assert_eq!(
        temp_path_for("/cache/1/2/block_header.json"),
        Some("/cache/1/2/block_header.json.tmp".to_string())
    );
    assert_eq!(temp_path_for("/"), None);
    assert_eq!(temp_path_for("/cache/.."), None);
}
