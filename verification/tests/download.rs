use zspell::download::{
    calculate_git_hash, decode_sha, git_hash_bytes, download_info, find_dir_url, get_dl_url_from_tree, get_root_url, git_blob_header,
    split_url_sha, DownloadError, RemoteEntry,
};

#[test]
fn calculate_git_hash_ok() {
    // Use example from git help page
    assert_eq!(
        calculate_git_hash("what is up, doc?"),
        hex::decode("bd9dbf5aae1a3862dd1526723246b20206e5fc37").unwrap().as_slice()
    )
}

#[test]
fn download_thingy() {}

fn entry(name: &str, kind: &str, sha: &str, url: &str) -> RemoteEntry {
    RemoteEntry {
        name: Some(name.to_owned()),
        kind: Some(kind.to_owned()),
        url: Some(format!("https://example.org/dir/{name}")),
        sha: Some(sha.to_owned()),
        download_url: Some(url.to_owned()),
    }
}

#[test]
fn git_header_and_root() {
    assert_eq!(git_blob_header(16), b"blob 16\0".to_vec());
    assert_eq!(git_blob_header(0), b"blob 0\0".to_vec());
    assert_eq!(
        get_root_url(),
        "https://api.github.com/repos/wooorm/dictionaries/contents/dictionaries"
    );
}

#[test]
fn locate_files() {
    let listing = vec![
        entry("index.aff", "file", "aaa", "https://dl/index.aff"),
        entry("index.dic", "file", "bbb", "https://dl/index.dic"),
        entry("license", "file", "ccc", "https://dl/license"),
    ];
    assert_eq!(get_dl_url_from_tree(&listing, ".dic"), Ok("sha1$bbb$https://dl/index.dic".to_owned()));
    assert_eq!(get_dl_url_from_tree(&listing, ".xyz"), Err(DownloadError::FileNotFound));
    let info = download_info("de-AT", &listing).unwrap();
    assert_eq!(info.affix, "sha1$aaa$https://dl/index.aff");
    assert_eq!(info.license, "sha1$ccc$https://dl/license");
    assert_eq!(info.lang, "de-AT");

    let mut no_sha = listing.clone();
    no_sha[1].sha = None;
    assert_eq!(download_info("de-AT", &no_sha), Err(DownloadError::FileNotFound));
}

#[test]
fn locate_language() {
    let root = vec![
        entry("de", "file", "x", "u"),
        entry("de", "dir", "x", "u"),
        entry("en", "dir", "x", "u"),
    ];
    assert_eq!(find_dir_url(&root, "de"), Ok("https://example.org/dir/de".to_owned()));
    assert_eq!(find_dir_url(&root, "fr"), Err(DownloadError::LanguageNotFound));
    let mut bad = root.clone();
    bad[1].url = None;
    assert_eq!(find_dir_url(&bad, "de"), Err(DownloadError::BadFormat));
    assert_eq!(DownloadError::LanguageNotFound.message(), "Unable to locate language");
}

#[test]
fn split_location() {
    assert_eq!(
        split_url_sha("sha1$abc123$https://dl/x.dic"),
        ("abc123".to_owned(), "https://dl/x.dic".to_owned())
    );
    assert_eq!(split_url_sha("a$$b$c"), ("".to_owned(), "b$c".to_owned()));
}

#[test]
fn git_hash_of_bytes() {
    let expected = decode_sha("bd9dbf5aae1a3862dd1526723246b20206e5fc37").unwrap();
    assert_eq!(git_hash_bytes(b"what is up, doc?").as_slice(), expected.as_slice());
    // The empty blob of Git.
    assert_eq!(
        git_hash_bytes(b"").as_slice(),
        decode_sha("E69DE29BB2D1D6434B8B29AE775AD8C2E48C5391").unwrap().as_slice()
    );
}

#[test]
fn sha_text_decoding() {
    assert_eq!(decode_sha("00ff7A"), Some(vec![0x00, 0xff, 0x7a]));
    assert_eq!(decode_sha(""), Some(Vec::new()));
    assert_eq!(decode_sha("abc"), None);
    assert_eq!(decode_sha("zz"), None);
}
