use std::path::PathBuf;
use vouch::cache::{cache_dir, cached_answer, Cache, CacheDir, FALLBACK_CACHE_DIR, HOME_CACHE_SUBDIR};

#[test]
fn key_of_an_empty_payload() {
    let cache = Cache::new(PathBuf::from("/tmp/answers"));
    assert_eq!(cache.key("stage", ""), "stage.e3b0c44298fc1c14.json");
}

#[test]
fn key_takes_the_first_sixteen_hex_digits() {
    let cache = Cache::new(PathBuf::from("/tmp/answers"));
    assert_eq!(cache.key("semantic", "abc"), "semantic.ba7816bf8f01cfea.json");
    assert_ne!(cache.key("semantic", "abd"), cache.key("semantic", "abc"));
}

#[test]
fn fallback_key_is_the_stage_file() {
    let cache = Cache::new(PathBuf::from("/tmp/answers"));
    assert_eq!(cache.fallback_key("stage_x"), "stage_x.json");
}

#[test]
fn new_keeps_the_directory() {
    let cache = Cache::new(PathBuf::from("/tmp/answers"));
    assert_eq!(cache.dir(), &PathBuf::from("/tmp/answers"));
}

#[test]
fn own_answer_takes_precedence_over_stage_answer() {
    assert_eq!(
        cached_answer(Some("{\"hashed\": true}".into()), Some("{\"hashed\": false}".into())),
        Some("{\"hashed\": true}".to_string())
    );
    assert_eq!(
        cached_answer(None, Some("[{\"id\": \"fallback\"}]".into())),
        Some("[{\"id\": \"fallback\"}]".to_string())
    );
    assert_eq!(cached_answer(None, None), None);
}

#[test]
fn cache_directory_choice() {
    assert_eq!(cache_dir(Some("/c".into()), Some("/home/u".into())), CacheDir::Given("/c".into()));
    assert_eq!(cache_dir(None, Some("/home/u".into())), CacheDir::UnderHome("/home/u".into()));
    assert_eq!(cache_dir(None, None), CacheDir::Fixtures);
    assert_eq!(HOME_CACHE_SUBDIR, ".cache/vouch/responses");
    assert_eq!(FALLBACK_CACHE_DIR, "fixtures/responses");
}
