use canon::manifest::{
    canonical_hash_text, comes_before, path_order, CanonManifest, ManifestFile,
    ManifestSpecification, Timestamp,
};
use sha2::{Digest, Sha256};

fn file(path: &str, size: u64, hash: &str) -> ManifestFile {
    ManifestFile {
        path: path.to_string(),
        size,
        hash: hash.to_string(),
    }
}

fn about() -> ManifestSpecification {
    ManifestSpecification {
        id: "blog-post".to_string(),
        version: "1.0.0".to_string(),
        publisher: "content.org".to_string(),
        type_reference: "canon-protocol.org/type@1.0.0".to_string(),
    }
}

fn expected_hash(files: &[ManifestFile]) -> String {
    let mut hasher = Sha256::new();
    let mut sorted_files = files.to_vec();
    sorted_files.sort_by(|a, b| a.path.cmp(&b.path));
    for file in sorted_files {
        hasher.update(&file.hash);
    }
    format!("sha256:{:x}", hasher.finalize())
}

#[test]
fn canonical_hash_of_no_file_is_the_digest_of_nothing() {
    assert_eq!(
        CanonManifest::compute_canonical_hash(&[]),
        "sha256:e3b0c44298fc1c149afbf4c8996fb92427ae41e4649b934ca495991b7852b855"
    );
}

#[test]
fn canonical_hash_digests_the_hashes_in_path_order() {
    let files = vec![
        file("b.txt", 1, "world"),
        file("a.txt", 2, "hello "),
    ];
    // SHA-256 of "hello world"
    assert_eq!(
        CanonManifest::compute_canonical_hash(&files),
        "sha256:b94d27b9934d3e08a52e52d7da7dabfac484efe37a5380ee9088f7ace2efcde9"
    );
    let swapped = vec![files[1].clone(), files[0].clone()];
    assert_eq!(
        CanonManifest::compute_canonical_hash(&swapped),
        CanonManifest::compute_canonical_hash(&files)
    );
}

#[test]
fn canonical_hash_agrees_with_a_stable_sort() {
    let files = vec![
        file("src/z.rs", 1, "sha256:01"),
        file("src/a.rs", 1, "sha256:02"),
        file("README.md", 1, "sha256:03"),
        file("src/a.rs", 1, "sha256:04"),
        file("", 1, "sha256:05"),
        file("src", 1, "sha256:06"),
        file("src/é.rs", 1, "sha256:07"),
        file("src/\u{10000}.rs", 1, "sha256:08"),
        file("src/\u{ffff}.rs", 1, "sha256:09"),
        file("src/a.rs", 1, "sha256:10"),
        file("Src", 1, "hash with é and \u{1F600}"),
    ];
    assert_eq!(CanonManifest::compute_canonical_hash(&files), expected_hash(&files));
    let mut reversed = files.clone();
    reversed.reverse();
    assert_eq!(
        CanonManifest::compute_canonical_hash(&reversed),
        expected_hash(&reversed)
    );
    assert!(expected_hash(&files) != expected_hash(&reversed));
}

#[test]
fn path_order_is_stable() {
    let files = vec![
        file("b", 0, ""),
        file("a", 0, ""),
        file("b", 0, ""),
        file("a", 0, ""),
        file("", 0, ""),
    ];
    assert_eq!(path_order(&files), vec![4, 1, 3, 0, 2]);
    assert!(path_order(&[]).is_empty());
}

#[test]
fn texts_are_ordered_character_by_character() {
    let chars = |s: &str| s.chars().collect::<Vec<char>>();
    let samples = ["", "a", "ab", "b", "A", "é", "\u{ffff}", "\u{10000}", "a\u{10000}", "aa"];
    for x in samples {
        for y in samples {
            assert_eq!(comes_before(&chars(x), &chars(y)), x < y, "{:?} {:?}", x, y);
        }
    }
}

#[test]
fn hash_text_is_lower_case_hexadecimal() {
    assert_eq!(canonical_hash_text(&vec![]), "sha256:");
    assert_eq!(
        canonical_hash_text(&vec![0x00, 0x0f, 0x10, 0xab, 0xff, 0x9a]),
        "sha256:000f10abff9a"
    );
}

#[test]
fn new_manifest_counts_and_adds_up() {
    let files = vec![
        file("canon.yml", 120, "sha256:aa"),
        file("docs/readme.md", 30, "sha256:bb"),
    ];
    let at = Timestamp { seconds: 1_700_000_000, nanoseconds: 5 };
    let manifest = CanonManifest::new(about(), files.clone(), at);
    assert_eq!(manifest.canon, "1.0");
    assert_eq!(manifest.manifest_version, "1.0");
    assert_eq!(manifest.created_at, at);
    assert_eq!(manifest.specification.id, "blog-post");
    assert_eq!(manifest.files.len(), 2);
    assert_eq!(manifest.files[1].path, "docs/readme.md");
    assert!(manifest.directories.is_none());
    assert_eq!(manifest.total_size, 150);
    assert_eq!(manifest.file_count, 2);
    assert_eq!(manifest.canonical_hash, expected_hash(&files));
}

#[test]
fn new_manifest_of_no_file() {
    let manifest = CanonManifest::new(about(), Vec::new(), Timestamp { seconds: 0, nanoseconds: 0 });
    assert_eq!(manifest.total_size, 0);
    assert_eq!(manifest.file_count, 0);
    assert_eq!(
        manifest.canonical_hash,
        "sha256:e3b0c44298fc1c149afbf4c8996fb92427ae41e4649b934ca495991b7852b855"
    );
}

#[test]
fn new_manifest_adds_up_to_the_largest_size() {
    let files = vec![file("a", u64::MAX - 1, "x"), file("b", 1, "y")];
    let manifest = CanonManifest::new(about(), files, Timestamp { seconds: 0, nanoseconds: 0 });
    assert_eq!(manifest.total_size, u64::MAX);
}
