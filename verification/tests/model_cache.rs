use maranode::model_cache::ModelCacheIndex;

#[test]
fn least_recently_used_model_is_evicted() {
    let mut c = ModelCacheIndex::new(2);
    assert_eq!(c.insert_loaded("/m/a.gguf", 1), None);
    assert_eq!(c.insert_loaded("/m/b.gguf", 2), None);
    assert!(c.touch("/m/a.gguf", 3));
    c.record_id("b:1", "/m/b.gguf");
    assert_eq!(c.insert_loaded("/m/c.gguf", 4), Some("/m/b.gguf".to_string()));
    assert!(!c.touch("/m/b.gguf", 5));
    assert_eq!(c.unload("b:1"), None);
}

#[test]
fn just_loaded_model_is_never_the_victim() {
    let mut c = ModelCacheIndex::new(1);
    assert_eq!(c.insert_loaded("/m/a.gguf", 10), None);
    assert_eq!(c.insert_loaded("/m/b.gguf", 1), Some("/m/a.gguf".to_string()));
    assert!(c.touch("/m/b.gguf", 2));
}

#[test]
fn unlimited_cache_and_unload() {
    let mut c = ModelCacheIndex::new(0);
    for (i, p) in ["/a", "/b", "/c"].iter().enumerate() {
        assert_eq!(c.insert_loaded(p, i as u64), None);
    }
    c.record_id("a:x", "/a");
    assert_eq!(c.unload("a:x"), Some("/a".to_string()));
    assert!(!c.touch("/a", 9));
    assert!(c.touch("/b", 9));
    assert_eq!(c.unload("a:x"), None);
}

#[test]
fn nothing_is_evicted_while_the_cache_is_within_its_limit() {
    let mut c = ModelCacheIndex::new(3);
    assert_eq!(c.insert_loaded("/m/a.gguf", 1), None);
    assert_eq!(c.insert_loaded("/m/b.gguf", 2), None);
    assert_eq!(c.insert_loaded("/m/c.gguf", 3), None);
    assert_eq!(c.insert_loaded("/m/b.gguf", 4), None);
    assert_eq!(c.insert_loaded("/m/d.gguf", 5), Some("/m/a.gguf".to_string()));
}
