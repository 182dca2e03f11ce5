use workspace_analyzer::cache::compressed_cache_bytes;
use workspace_analyzer::cache::decompressed_cache_bytes;
use workspace_analyzer::global_index::GlobalSymbolIndex;

#[test]
fn compressed_cache_bytes_are_gzip_and_read_back() {
    let serialized: Vec<u8> = (0..200u32).map(|i| (i % 7) as u8).collect();
    let compressed = compressed_cache_bytes(&serialized);
    assert_eq!(&compressed[..2], &[0x1f, 0x8b]);
    assert_ne!(compressed, serialized);
    assert_eq!(decompressed_cache_bytes(&compressed), Some(serialized));
    assert_eq!(decompressed_cache_bytes(b"not a gzip stream"), None);
}

#[test]
fn cache_loads_only_while_newer_than_manifests() {
    let index = GlobalSymbolIndex::new("/ws".to_string());
    let serialized = b"index".to_vec();
    let compressed = compressed_cache_bytes(&serialized);
    let file = Some(compressed.as_slice());
    assert_eq!(index.try_load_from_cache(file, Some(100), &[Some(50), None]), Some(serialized.clone()));
    assert_eq!(index.try_load_from_cache(file, Some(100), &[Some(100)]), Some(serialized));
    assert_eq!(index.try_load_from_cache(file, Some(100), &[Some(50), Some(101)]), None);
    assert_eq!(index.try_load_from_cache(file, None, &[]), None);
    assert_eq!(index.try_load_from_cache(None, Some(100), &[]), None);
    assert_eq!(index.try_load_from_cache(Some(&b"corrupt"[..]), Some(100), &[]), None);
}
