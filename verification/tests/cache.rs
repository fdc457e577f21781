use codepop::paths::join;
use codepop::cache::{
    cache_dir, cache_dir_in, entry_path, entry_path_in, hash_text, is_entry_file, oldest,
    prune_plan, CacheFile, MAX_CACHE_ENTRIES,
};

#[test]
fn hash_is_deterministic() {
    let a = hash_text("hello", "ko");
    let b = hash_text("hello", "ko");
    assert_eq!(a, b);
    assert_eq!(a.len(), 64);
}

#[test]
fn hash_varies_by_lang() {
    assert_ne!(hash_text("x", "ko"), hash_text("x", "en"));
}

#[test]
fn hash_is_sha256_of_text_version_lang() {
    assert_eq!(
        hash_text("hello", "ko"),
        "0c28e820d04a13f364fb1a519d55839292e94739781056d2392c487ed2a4d87a"
    );
    assert_eq!(
        hash_text("코드", "en"),
        "3e8467d03861433e5cdff28eee3302ec4c3a05e5fa1064e733c23c63c502bdef"
    );
}

#[test]
fn hash_varies_by_text() {
    assert_ne!(hash_text("a", "ko"), hash_text("b", "ko"));
}

#[test]
fn entry_paths() {
    assert_eq!(cache_dir_in(b"/Users/me"), b"/Users/me/.codepop/cache".to_vec());
    assert_eq!(entry_path_in(b"/Users/me", "ab12"), b"/Users/me/.codepop/cache/ab12.json".to_vec());
    assert_eq!(entry_path_in(b"/", "ab"), b"/.codepop/cache/ab.json".to_vec());
    assert_eq!(entry_path_in(b"", "ab"), b".codepop/cache/ab.json".to_vec());
    assert_ne!(entry_path_in(b"/h", "a"), entry_path_in(b"/h", "b"));
}

#[test]
fn entry_paths_keep_raw_home_bytes() {
    let home: &[u8] = b"/Users/\xff\xfe";
    assert_eq!(entry_path_in(home, "k"), b"/Users/\xff\xfe/.codepop/cache/k.json".to_vec());
}

#[test]
fn entry_paths_under_home() {
    let home = dirs::home_dir().unwrap_or_default().into_os_string().into_encoded_bytes();
    assert_eq!(cache_dir(), cache_dir_in(&home));
    assert_eq!(entry_path("ff"), entry_path_in(&home, "ff"));
}

#[test]
fn entry_file_names() {
    assert!(is_entry_file("abc.json"));
    assert!(is_entry_file("a.json"));
    assert!(is_entry_file("..json"));
    assert!(!is_entry_file(".json"));
    assert!(!is_entry_file("abc.json.tmp"));
    assert!(!is_entry_file("abc.JSON"));
    assert!(!is_entry_file("json"));
}

fn files(n: usize) -> Vec<CacheFile> {
    (0..n).map(|i| CacheFile { name: format!("{i:04}.json"), mtime: 1000 + i as i128 }).collect()
}

#[test]
fn prune_keeps_up_to_the_limit() {
    assert_eq!(MAX_CACHE_ENTRIES, 500);
    assert!(prune_plan(&files(0)).is_empty());
    assert!(prune_plan(&files(500)).is_empty());
    assert_eq!(prune_plan(&files(501)), vec![0]);
    assert_eq!(prune_plan(&files(503)), vec![0, 1, 2]);
}

#[test]
fn prune_removes_least_recently_used_first() {
    let mut f = files(502);
    f[300].mtime = -5;
    f[7].mtime = 10;
    assert_eq!(prune_plan(&f), vec![300, 7]);
}

#[test]
fn prune_ties_go_to_the_first_listed() {
    let mut f = files(502);
    for e in f.iter_mut() {
        e.mtime = 42;
    }
    assert_eq!(prune_plan(&f), vec![0, 1]);
}

#[test]
fn prune_ignores_other_files() {
    let mut f = files(500);
    f.insert(0, CacheFile { name: "notes.txt".to_string(), mtime: 0 });
    f.insert(1, CacheFile { name: ".json".to_string(), mtime: 0 });
    assert!(prune_plan(&f).is_empty());
    f.push(CacheFile { name: "zz.json".to_string(), mtime: 1 });
    assert_eq!(prune_plan(&f), vec![502]);
}

#[test]
fn oldest_positions() {
    assert_eq!(oldest(&vec![5, 3, 9, 3], 2), vec![1, 3]);
    assert_eq!(oldest(&vec![5, 3, 9, 3], 0), Vec::<usize>::new());
    assert_eq!(oldest(&vec![5, 3, 9, 3], 4), vec![1, 3, 0, 2]);
}

#[test]
fn absolute_key_replaces_the_directory() {
    assert_eq!(entry_path_in(b"/h", "/x"), b"/x.json".to_vec());
    let home = std::path::PathBuf::from("/h");
    let expected = home.join(".codepop").join("cache").join("/x.json");
    assert_eq!(entry_path_in(b"/h", "/x"), expected.into_os_string().into_encoded_bytes());
}

#[test]
fn join_follows_pathbuf() {
    for (base, comp) in [("", "a"), ("/", "a"), ("/b", "a"), ("/b/", "a"), ("/b", "/a"), ("b", ""), ("", "/")] {
        let expected = std::path::PathBuf::from(base).join(comp).into_os_string().into_encoded_bytes();
        assert_eq!(join(base.as_bytes(), comp.as_bytes()), expected, "{base} + {comp}");
    }
}
