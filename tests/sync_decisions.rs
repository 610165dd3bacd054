use phone_sync::config::Config;
use phone_sync::fingerprint::{pseudo_fingerprint, ContentHasher};
use phone_sync::hash_store::HashStore;
use phone_sync::sync::SyncSession;

fn config(target_dir: &str) -> Config {
    Config {
        webdav_url: "http://localhost:8080".to_string(),
        username: None,
        password: None,
        folders: vec!["./test_data".to_string()],
        hash_store_path: "hashes.yaml".to_string(),
        remote_hash_path: "remote_hashes.yaml".to_string(),
        timeout_secs: 3,
        target_dir: target_dir.to_string(),
    }
}

fn full(content: &[u8]) -> String {
    let mut h = ContentHasher::new();
    h.update(content);
    h.finish()
}

/// Runs the decisions over (relative path, content, remote exists) and
/// returns the remote paths sent, with the session afterwards.
fn run(
    session: &mut SyncSession,
    pseudo: bool,
    files: &[(&str, &[u8], bool)],
) -> Vec<String> {
    let mut sent = Vec::new();
    for (rel, content, exists) in files {
        let remote = match session.admit_file(rel) {
            Some(r) => r,
            None => continue,
        };
        let name = rel.rsplit('/').next().unwrap();
        let fp = if pseudo {
            pseudo_fingerprint(name, content.len() as u64, content)
        } else {
            full(content)
        };
        if session.needs_upload(&remote, &fp, *exists) {
            sent.push(remote.clone());
            session.record_upload(remote, fp);
        }
    }
    sent
}

#[test]
fn fresh_run_uploads_new_file() {
    let mut session = SyncSession::new(HashStore::new(), &config(""), false);
    let sent = run(&mut session, false, &[("a.txt", b"hello", false)]);
    assert_eq!(sent, vec!["a.txt"]);
    let ledger = session.into_ledger();
    assert_eq!(ledger.regular_hashes.len(), 1);
    assert_eq!(ledger.pseudo_hashes.len(), 0);
    assert_eq!(ledger.get(false, &"a.txt".to_string()), Some(&full(b"hello")));
}

#[test]
fn unchanged_file_present_remotely_is_skipped() {
    let mut ledger = HashStore::new();
    ledger.set(false, "a.txt".to_string(), full(b"hello"));
    let mut session = SyncSession::new(ledger, &config(""), false);
    let sent = run(&mut session, false, &[("a.txt", b"hello", true)]);
    assert!(sent.is_empty());
}

#[test]
fn missing_remote_object_is_uploaded_again() {
    let mut ledger = HashStore::new();
    ledger.set(false, "a.txt".to_string(), full(b"hello"));
    let mut session = SyncSession::new(ledger, &config(""), false);
    let sent = run(&mut session, false, &[("a.txt", b"hello", false)]);
    assert_eq!(sent, vec!["a.txt"]);
}

#[test]
fn changed_content_is_uploaded() {
    let mut ledger = HashStore::new();
    ledger.set(false, "a.txt".to_string(), full(b"hello"));
    let mut session = SyncSession::new(ledger, &config(""), false);
    let sent = run(&mut session, false, &[("a.txt", b"hello world", true)]);
    assert_eq!(sent, vec!["a.txt"]);
    assert_eq!(session.ledger().get(false, &"a.txt".to_string()), Some(&full(b"hello world")));
}

#[test]
fn second_run_sends_nothing_and_keeps_ledger() {
    let files: [(&str, &[u8], bool); 3] =
        [("sub/dir/b.txt", b"bee", false), ("a.txt", b"hello", true), ("c.txt", b"sea", false)];
    let mut session = SyncSession::new(HashStore::new(), &config("remote"), false);
    let first = run(&mut session, false, &files);
    assert_eq!(first.len(), 3);
    let before = session.ledger().regular_hashes.entries();
    let again: Vec<(&str, &[u8], bool)> = files.iter().map(|(r, c, _)| (*r, *c, true)).collect();
    let second = run(&mut session, false, &again);
    assert!(second.is_empty());
    assert_eq!(session.ledger().regular_hashes.entries(), before);
}

#[test]
fn ledger_file_is_never_sent() {
    let mut session = SyncSession::new(HashStore::new(), &config(""), false);
    assert_eq!(session.admit_file("hashes.yaml"), None);
    assert_eq!(session.admit_file("sub/hashes.yaml"), None);
    let sent = run(&mut session, false, &[("hashes.yaml", b"x: y", false), ("a.txt", b"hello", false)]);
    assert_eq!(sent, vec!["a.txt"]);
    let ledger = session.into_ledger();
    assert_eq!(ledger.get(false, &"hashes.yaml".to_string()), None);
    assert_eq!(ledger.regular_hashes.len(), 1);
}

#[test]
fn target_dir_prefixes_remote_path() {
    let session = SyncSession::new(HashStore::new(), &config("remote/dir/"), false);
    assert_eq!(session.admit_file("test_file1.txt"), Some("remote/dir/test_file1.txt".to_string()));
    assert_eq!(
        session.admit_file("subdir/test_file1.txt"),
        Some("remote/dir/subdir/test_file1.txt".to_string())
    );
}

#[test]
fn nested_file_keeps_its_relative_path() {
    let session = SyncSession::new(HashStore::new(), &config(""), false);
    assert_eq!(session.admit_file("sub/dir/b.txt"), Some("sub/dir/b.txt".to_string()));
}

#[test]
fn modes_use_disjoint_namespaces() {
    let mut session = SyncSession::new(HashStore::new(), &config(""), false);
    let sent = run(&mut session, false, &[("a.txt", b"hello", false)]);
    assert_eq!(sent.len(), 1);
    let ledger = session.into_ledger();
    assert_eq!(ledger.pseudo_hashes.len(), 0);

    let mut session = SyncSession::new(ledger, &config(""), true);
    let sent = run(&mut session, true, &[("a.txt", b"hello", true)]);
    assert_eq!(sent, vec!["a.txt"]);
    let ledger = session.into_ledger();
    assert_eq!(ledger.regular_hashes.len(), 1);
    assert_eq!(ledger.pseudo_hashes.len(), 1);
    assert_eq!(
        ledger.get(true, &"a.txt".to_string()),
        Some(&pseudo_fingerprint("a.txt", 5, b"hello"))
    );
    assert_eq!(ledger.get(false, &"a.txt".to_string()), Some(&full(b"hello")));

    let mut session = SyncSession::new(ledger, &config(""), false);
    let sent = run(&mut session, false, &[("a.txt", b"hello", true)]);
    assert!(sent.is_empty());
}
