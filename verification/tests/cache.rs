//! The disk cache's files.

use rootle_bitbucket::cache::{encode_component, Base, Cache, RepoMeta};
use rootle_bitbucket::exchange::{Ask, Effect};

#[test]
fn component_encoding_is_structure_safe() {
    assert_eq!(encode_component("main"), "main");
    assert_eq!(encode_component(".."), "%2E%2E");
    assert_eq!(encode_component("a/b"), "a%2Fb");
    assert_eq!(encode_component("feat/x"), "feat%2Fx");
}

#[test]
fn other_bytes_are_encoded_one_by_one() {
    assert_eq!(encode_component("A-z_09"), "A-z_09");
    assert_eq!(encode_component("%"), "%25");
    assert_eq!(encode_component("\0 ä"), "%00%20%C3%A4");
    assert_eq!(encode_component(""), "");
}

#[test]
fn files_are_apart() {
    let cache = Cache::new(None);
    let Ask::Meta(meta) = cache.repo_meta("team/alpha") else { panic!("asks for a repository") };
    assert_eq!(meta.components, vec!["repos", "team%2Falpha.json"]);
    let Ask::Tree(tree) = cache.tree("team/alpha", "abc") else { panic!("asks for a listing") };
    assert_eq!(tree.components, vec!["trees", "team%2Falpha", "abc.json"]);
    let Some(Ask::Blob(blob)) = cache.blob("team/alpha", "abc:a:b/c") else {
        panic!("asks for a blob")
    };
    assert_eq!(blob.components, vec!["blobs", "team%2Falpha", "abc", "a%3Ab%2Fc"]);
    assert!(cache.blob("team/alpha", "abc").is_none());
}

#[test]
fn what_is_stored_is_looked_for_where_it_is() {
    let cache = Cache::new(Some("/c".to_string()));
    let meta = RepoMeta { full_name: "team/alpha".to_string(), branch: "main".to_string() };
    let Ask::Meta(asked) = cache.repo_meta("team/alpha") else { panic!("asks for a repository") };
    let Effect::StoreMeta(stored, kept) = cache.store_repo_meta(&meta) else { panic!("stores it") };
    assert_eq!(stored.components, asked.components);
    assert_eq!(kept.branch, "main");
    let Effect::DropMeta(dropped) = cache.drop_repo_meta("team/alpha") else { panic!("drops it") };
    assert_eq!(dropped.components, asked.components);
    let Some(Ask::Blob(asked)) = cache.blob("r", "c:p") else { panic!("asks for a blob") };
    let Some(Effect::StoreBlob(stored, bytes)) = cache.store_blob("r", "c:p", vec![1, 2]) else {
        panic!("stores it")
    };
    assert_eq!(stored.components, asked.components);
    assert_eq!(bytes, vec![1, 2]);
    assert!(cache.store_blob("r", "c", vec![1]).is_none());
    assert!(cache.store_blob("r", "c:p", vec![0; 1024 * 1024 + 1]).is_none());
}

#[test]
fn the_root_is_named_or_the_users() {
    assert!(matches!(Cache::new(Some("/c".to_string())).base(), Base::Named(r) if r == "/c"));
    let Base::UserCache(below) = Cache::new(None).base() else { panic!("the user's") };
    assert_eq!(below.components, vec!["rootle", "providers", "rootle-bitbucket"]);
}
