//! The API's answers: values, pages, histories and walks.

use rootle_bitbucket::api::{
    classify_status, mint, status_error, ApiError, Bitbucket, Commit, NamedLink, NamedRef, Paged,
    RefTarget, Repo, RepoLinks, SrcEntry,
};
use rootle_bitbucket::cache::TreeEntry;
use rootle_bitbucket::exchange::{Ask, Step};
use rootle_bitbucket::paging::{Gathered, Paging};
use rootle_bitbucket::walk::{Listing, TreeWalk};

fn bitbucket() -> Bitbucket {
    Bitbucket::new("http://x.test", "T", "U")
}

fn page<T>(values: Vec<T>, next: bool) -> Paged<T> {
    Paged { values, next: if next { Some("http://x.test/next".to_string()) } else { None } }
}

fn commit(hash: &str) -> Commit {
    Commit { hash: hash.to_string(), message: String::new(), author: None, date: None }
}

fn entry(path: String, dir: bool) -> SrcEntry {
    let kind = if dir { "commit_directory" } else { "commit_file" };
    SrcEntry { kind: kind.to_string(), path, size: Some(1) }
}

fn gathered<T>(step: Step<Paging<T>, Gathered<T>>) -> Gathered<T> {
    match step {
        Step::Done(all) => all,
        _ => panic!("expected the end"),
    }
}

#[test]
fn errors_have_words() {
    let api = ApiError::Api { status: 500, message: "no".to_string(), retry_after: None };
    assert_eq!(api.text(), "no");
    assert_eq!(ApiError::Network("gone".to_string()).text(), "network: gone");
    assert!(!ApiError::Network("gone".to_string()).is_missing());
}

#[test]
fn statuses_are_classified() {
    for status in [200, 204, 299] {
        assert!(classify_status(status, None, b"").is_ok());
    }
    for status in [199, 300, 404, 500] {
        let e = classify_status(status, Some("x"), b"{}").unwrap_err();
        assert_eq!(e.text(), format!("bitbucket api: status {status}"));
    }
    let e = classify_status(429, Some("12"), br#"{"error":{"message":"slow down"}}"#).unwrap_err();
    assert!(matches!(e, ApiError::Api { status: 429, retry_after: Some(12), .. }));
    assert_eq!(e.text(), "slow down");
    let body = serde_json::from_str(r#"{"error":{"message":3}}"#).unwrap();
    assert_eq!(status_error(418, None, Some(&body)).text(), "bitbucket api: status 418");
}

#[test]
fn repositories_fall_back() {
    let mut repo = Repo { full_name: "a/b/c".to_string(), mainbranch: None, links: None };
    assert_eq!(repo.name(), "c");
    assert_eq!(repo.branch(), "main");
    assert_eq!(repo.web(), "https://bitbucket.org/a/b/c");
    assert_eq!(repo.clone_remote(), "https://bitbucket.org/a/b/c.git");
    let ssh = NamedLink { name: "ssh".to_string(), href: "git@x".to_string() };
    let links = RepoLinks { html: None, clone_: None, clone_wire: Some(vec![ssh]) };
    repo.links = Some(links);
    assert_eq!(repo.clone_remote(), "git@x");
    repo.links = Some(RepoLinks { html: None, clone_: None, clone_wire: Some(Vec::new()) });
    assert_eq!(repo.clone_remote(), "https://bitbucket.org/a/b/c.git");
    repo.full_name = "plain".to_string();
    assert_eq!(repo.name(), "plain");
}

#[test]
fn subjects_are_first_lines() {
    let mut c = commit("h");
    assert_eq!(c.subject(), "");
    c.message = "one\r\ntwo".to_string();
    assert_eq!(c.subject(), "one");
    assert_eq!(c.author_raw(), "");
}

#[test]
fn content_ids_round_trip() {
    assert_eq!(mint("abc", "a:b/c"), "abc:a:b/c");
    match bitbucket().blob("team/alpha", "abc:a:b/c") {
        Ok(Ask::Bytes(url)) => {
            assert_eq!(url, "http://x.test/2.0/repositories/team/alpha/src/abc/a:b/c")
        }
        other => panic!("unexpected {other:?}"),
    }
    assert!(bitbucket().blob("team/alpha", "abc").unwrap_err().is_missing());
}

#[test]
fn collections_are_cut_at_the_cap() {
    let one = Paging::new("/first".to_string(), 3);
    let Step::More(two) = one.feed(page(vec![1, 2], true)) else { panic!("expected more") };
    assert_eq!(two.next, "http://x.test/next");
    let all = gathered(two.feed(page(vec![3, 4], true)));
    assert_eq!(all.values, vec![1, 2, 3]);
    assert!(all.truncated);
    let all = gathered(Paging::new("/first".to_string(), 3).feed(page(vec![1, 2], false)));
    assert_eq!(all.values, vec![1, 2]);
    assert!(!all.truncated);
}

#[test]
fn histories_tell_a_full_page_from_a_cut() {
    for (commits, next, kept, truncated) in
        [(2, false, 2, false), (2, true, 2, true), (3, false, 2, true), (1, false, 1, false)]
    {
        let log = bitbucket().commits("team/alpha", "abc", None, 2);
        let values = (0..commits).map(|i| commit(&format!("h{i}"))).collect();
        let Step::Done(all) = log.feed(page(values, next)) else { panic!("expected the end") };
        assert_eq!(all.values.len(), kept);
        assert_eq!(all.truncated, truncated);
    }
}

fn walk(feed: impl Fn(&str) -> Vec<SrcEntry>) -> (Listing, Vec<String>) {
    let mut at: TreeWalk = bitbucket().walk_tree("r", "abc");
    let mut listed = Vec::new();
    loop {
        listed.push(at.dir.next.clone());
        let entries = feed(&at.dir.next);
        match at.feed(page(entries, false)) {
            Step::More(more) => at = more,
            Step::Done(listing) => return (listing, listed),
            Step::Failed(e) => panic!("failed: {e:?}"),
        }
    }
}

#[test]
fn walks_list_every_directory_once_in_order() {
    let (listing, listed) = walk(|url| {
        let below = url.strip_prefix("/2.0/repositories/r/src/abc/").unwrap();
        match below.strip_suffix("?format=entries&pagelen=100").unwrap() {
            "" => vec![entry("b".into(), true), entry("a".into(), true), entry("f".into(), false)],
            "b/" => vec![entry("b/c".into(), true)],
            _ => Vec::new(),
        }
    });
    let below: Vec<&str> = listed.iter().map(|u| u.split('?').next().unwrap()).collect();
    let src = "/2.0/repositories/r/src/abc/";
    assert_eq!(
        below,
        vec![src.to_string(), format!("{src}b/"), format!("{src}a/"), format!("{src}b/c/")]
    );
    let paths: Vec<&str> = listing.entries.iter().map(|e| e.path.as_str()).collect();
    assert_eq!(paths, vec!["b", "a", "f", "b/c"]);
    let files: Vec<&TreeEntry> = listing.entries.iter().filter(|e| !e.is_dir).collect();
    assert_eq!(files[0].sha, "abc:f");
    assert_eq!(files[0].size, Some(1));
    assert!(listing.entries.iter().all(|e| !e.is_dir || (e.sha == "abc" && e.size.is_none())));
    assert!(!listing.truncated);
}

#[test]
fn walks_stop_at_the_cap() {
    let (listing, listed) = walk(|url| {
        if url.contains("/abc/?") {
            (0..30).map(|i| entry(format!("d{i}"), true)).collect()
        } else {
            (0..1000).map(|i| entry(format!("f{i}"), false)).collect()
        }
    });
    assert_eq!(listing.entries.len(), 25_000);
    assert!(listing.truncated);
    assert_eq!(listed.len(), 26);
}

fn files(n: usize) -> Vec<SrcEntry> {
    (0..n).map(|i| entry(format!("f{i}"), false)).collect()
}

#[test]
fn long_directories_are_taken_whole() {
    for n in [999, 1000, 1001, 1100, 25_000] {
        let (listing, _) = walk(|_| files(n));
        assert_eq!(listing.entries.len(), n);
        assert_eq!(listing.entries[n - 1].path, format!("f{}", n - 1));
        assert!(!listing.truncated);
    }
    for n in [25_001, 25_002, 30_000] {
        let (listing, _) = walk(|_| files(n));
        assert_eq!(listing.entries.len(), 25_000);
        assert!(listing.truncated);
    }
}

#[test]
fn long_directories_are_followed_page_by_page() {
    let mut at = bitbucket().walk_tree("r", "abc");
    let mut all = files(1500);
    all[1499] = entry("last".to_string(), true);
    let mut rest = all.into_iter();
    for left in (0..15).rev() {
        let hundred: Vec<SrcEntry> = rest.by_ref().take(100).collect();
        match at.feed(page(hundred, left > 0)) {
            Step::More(more) => at = more,
            _ => panic!("the directory at the end is still to be listed"),
        }
    }
    assert!(at.dir.next.contains("/last/"));
    match at.feed(page(vec![entry("last/x".to_string(), false)], false)) {
        Step::Done(listing) => {
            assert_eq!(listing.entries.len(), 1501);
            assert_eq!(listing.entries[1500].sha, "abc:last/x");
            assert!(!listing.truncated);
        }
        _ => panic!("expected the end"),
    }
}

#[test]
fn full_trees_hold_every_entry_once_behind_its_directory() {
    let tree = |dir: &str| match dir {
        "" => vec![entry("a".into(), true), entry("f".into(), false), entry("b".into(), true)],
        "a/" => vec![entry("a/x".into(), false), entry("a/c".into(), true)],
        "a/c/" => vec![entry("a/c/y".into(), false)],
        "b/" => vec![entry("b/z".into(), false)],
        _ => Vec::new(),
    };
    let (listing, _) = walk(|url| {
        let below = url.strip_prefix("/2.0/repositories/r/src/abc/").unwrap();
        tree(below.strip_suffix("?format=entries&pagelen=100").unwrap())
    });
    let paths: Vec<&str> = listing.entries.iter().map(|e| e.path.as_str()).collect();
    assert_eq!(paths, vec!["a", "f", "b", "a/x", "a/c", "b/z", "a/c/y"]);
    for (i, path) in paths.iter().enumerate() {
        if let Some((dir, _)) = path.rsplit_once('/') {
            assert!(paths[..i].contains(&dir));
        }
    }
}

#[test]
fn refs_are_listed_whole() {
    for first in [bitbucket().branches("r"), bitbucket().tags("r")] {
        let mut at = first;
        let mut all = None;
        for left in (0..12).rev() {
            let target = || RefTarget { hash: "h".to_string() };
            let refs = (0..100)
                .map(|i| NamedRef { name: format!("n{left}-{i}"), target: target() })
                .collect();
            match at.feed(page(refs, left > 0)) {
                Step::More(more) => at = more,
                Step::Done(done) => {
                    all = Some(done);
                    break;
                }
                Step::Failed(e) => panic!("failed: {e:?}"),
            }
        }
        let all = all.expect("the last page ends the list");
        assert_eq!(all.values.len(), 1200);
        assert!(!all.truncated);
    }
}
