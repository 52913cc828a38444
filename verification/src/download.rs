//! Finding and checking dictionaries to download: the listing of the
//! dictionary repository, the download locations of the files of a
//! language, and the Git hash of a file.

use sha1::{Digest, Sha1};
use vstd::prelude::*;

use crate::text::{chars_of, push_str, str_eq};
use vstd::string::StringSliceAdditionalSpecFns;

verus! {

/// The listing of the dictionaries of the repository.
pub const ROOT_URL: &'static str = "https://api.github.com/repos/wooorm/dictionaries/contents/dictionaries";

/// The URL of the listing of the dictionaries.
pub fn get_root_url() -> (r: String)
    ensures
        r@ == ROOT_URL@,
{
    ROOT_URL.to_owned()
}

/* The Git hash of a file */

/// The bytes of `"blob "`.
pub open spec fn blob_word() -> Seq<u8> {
    seq![98u8, 108u8, 111u8, 98u8, 32u8]
}

/// The ASCII decimal digits of `n`.
pub open spec fn decimal_bytes(n: nat) -> Seq<u8>
    decreases n,
{
    if n < 10 {
        seq![(48 + n) as u8]
    } else {
        decimal_bytes(n / 10).push((48 + n % 10) as u8)
    }
}

/// The header that Git puts before the content of a file of `len` bytes:
/// `blob`, a space, the length in decimal, and a zero byte.
pub open spec fn git_header(len: nat) -> Seq<u8> {
    blob_word() + decimal_bytes(len) + seq![0u8]
}

/// The SHA-1 digest of `data`, as the `sha1` crate computes it.
pub uninterp spec fn sha1_of(data: Seq<u8>) -> Seq<u8>;

/// `Sha1::digest`: the SHA-1 digest of `data`.
///
/// Trusted: the digest is what `sha1_of` names.
#[verifier::external_body]
fn sha1_digest(data: &[u8]) -> (r: [u8; 20])
    ensures
        r@ == sha1_of(data@),
{
    Sha1::digest(data).into()
}

/// Add the ASCII decimal digits of `n` to `v`.
fn push_decimal(v: &mut Vec<u8>, n: usize)
    ensures
        final(v)@ == old(v)@ + decimal_bytes(n as nat),
    decreases n,
{
    if n >= 10 {
        push_decimal(v, n / 10);
    }
    let d: u8 = (n % 10) as u8;
    v.push(48 + d);
    proof {
        if n >= 10 {
            assert(final(v)@ =~= old(v)@ + decimal_bytes(n as nat));
        } else {
            assert(final(v)@ =~= old(v)@ + decimal_bytes(n as nat));
        }
    }
}

/// The header that Git puts before the content of a file of `len` bytes.
pub fn git_blob_header(len: usize) -> (r: Vec<u8>)
    ensures
        r@ == git_header(len as nat),
{
    let mut v: Vec<u8> = vec![98u8, 108u8, 111u8, 98u8, 32u8];
    proof {
        assert(v@ =~= blob_word());
    }
    push_decimal(&mut v, len);
    v.push(0u8);
    proof {
        assert(v@ =~= git_header(len as nat));
    }
    v
}

/// The hash that Git gives the content `data`: the SHA-1 digest of the
/// header for its length in bytes followed by its bytes.
pub fn git_hash_bytes(data: &[u8]) -> (r: [u8; 20])
    ensures
        r@ == sha1_of(git_header(data@.len()) + data@),
{
    let mut all = git_blob_header(data.len());
    let ghost head = all@;
    let mut i: usize = 0;
    while i < data.len()
        invariant
            i <= data@.len(),
            all@ == head + data@.take(i as int),
        decreases data@.len() - i,
    {
        all.push(data[i]);
        proof {
            assert(data@.take(i + 1) =~= data@.take(i as int).push(data@[i as int]));
            assert(all@ =~= head + data@.take(i + 1));
        }
        i += 1;
    }
    proof {
        assert(data@.take(i as int) =~= data@);
    }
    sha1_digest(all.as_slice())
}

/// The hash that Git gives the content `s`: the SHA-1 digest of the header
/// for its length in bytes followed by its bytes.
pub fn calculate_git_hash(s: &str) -> (r: [u8; 20])
    ensures
        r@ == sha1_of(git_header(s.spec_bytes().len()) + s.spec_bytes()),
{
    git_hash_bytes(s.as_bytes())
}

/// The value of a hexadecimal digit, upper or lower case.
pub open spec fn hex_digit(c: u8) -> Option<u8> {
    if 48 <= c <= 57 {
        Some((c - 48) as u8)
    } else if 97 <= c <= 102 {
        Some((c - 87) as u8)
    } else if 65 <= c <= 70 {
        Some((c - 55) as u8)
    } else {
        None
    }
}

/// Whether `s` is hexadecimal text: an even number of hexadecimal digits.
pub open spec fn is_hex(s: Seq<u8>) -> bool {
    s.len() % 2 == 0 && forall|i: int| 0 <= i < s.len() ==> (#[trigger] hex_digit(s[i])) is Some
}

/// The bytes that the hexadecimal text `s` writes, two digits each, the
/// first the high half.
pub open spec fn hex_bytes(s: Seq<u8>) -> Seq<u8> {
    Seq::new(s.len() / 2, |i: int| (hex_digit(s[2 * i])->0 * 16 + hex_digit(s[2 * i + 1])->0) as u8)
}

/// `hex::decode`: the bytes that hexadecimal text writes.
///
/// Trusted: an odd length or a character that is no hexadecimal digit
/// gives `None`; else each pair of digits, high half first, gives a byte.
#[verifier::external_body]
fn hex_decode(text: &str) -> (r: Option<Vec<u8>>)
    ensures
        match r {
            Some(v) => is_hex(text.spec_bytes()) && v@ == hex_bytes(text.spec_bytes()),
            None => !is_hex(text.spec_bytes()),
        },
{
    hex::decode(text.as_bytes()).ok()
}

/// The bytes of a hash written in hexadecimal, as the repository's listing
/// gives it; `None` where `sha` is not hexadecimal text.
pub fn decode_sha(sha: &str) -> (r: Option<Vec<u8>>)
    ensures
        match r {
            Some(v) => is_hex(sha.spec_bytes()) && v@ == hex_bytes(sha.spec_bytes()),
            None => !is_hex(sha.spec_bytes()),
        },
{
    hex_decode(sha)
}

/* The listing of the repository */

/// One entry of a directory listing of the dictionary repository: the
/// fields that the lookup reads, each where it is present and a string.
#[derive(Debug, Clone, PartialEq, Eq)]
pub struct RemoteEntry {
    pub name: Option<String>,
    /// The entry's type, `dir` for a directory
    pub kind: Option<String>,
    pub url: Option<String>,
    pub sha: Option<String>,
    pub download_url: Option<String>,
}

/// The value of a [`RemoteEntry`].
pub struct RemoteView {
    pub name: Option<Seq<char>>,
    pub kind: Option<Seq<char>>,
    pub url: Option<Seq<char>>,
    pub sha: Option<Seq<char>>,
    pub download_url: Option<Seq<char>>,
}

/// The value of an optional string.
pub open spec fn opt_text(o: Option<String>) -> Option<Seq<char>> {
    match o {
        Some(s) => Some(s@),
        None => None,
    }
}

impl View for RemoteEntry {
    type V = RemoteView;

    open spec fn view(&self) -> RemoteView {
        RemoteView {
            name: opt_text(self.name),
            kind: opt_text(self.kind),
            url: opt_text(self.url),
            sha: opt_text(self.sha),
            download_url: opt_text(self.download_url),
        }
    }
}

/// The values of a listing.
pub open spec fn listing_view(v: Seq<RemoteEntry>) -> Seq<RemoteView> {
    v.map_values(|e: RemoteEntry| e@)
}

/// Why the files of a language cannot be located.
#[derive(Debug, Clone, Copy, PartialEq, Eq)]
pub enum DownloadError {
    /// No directory of the listing has the language's name
    LanguageNotFound,
    /// The directory of the language has no URL
    BadFormat,
    /// A file that a dictionary needs is missing, or has no hash or download
    /// URL
    FileNotFound,
}

impl DownloadError {
    /// The message of the error.
    pub fn message(&self) -> (r: &'static str)
        ensures
            r@ == download_error_message(*self),
    {
        match self {
            DownloadError::LanguageNotFound => "Unable to locate language",
            DownloadError::BadFormat => "Data is incorrectly formatted",
            DownloadError::FileNotFound => "could not locate a necessary file",
        }
    }
}

/// The message of the error `e`.
pub open spec fn download_error_message(e: DownloadError) -> Seq<char> {
    match e {
        DownloadError::LanguageNotFound => "Unable to locate language"@,
        DownloadError::BadFormat => "Data is incorrectly formatted"@,
        DownloadError::FileNotFound => "could not locate a necessary file"@,
    }
}

/// Whether the entry `e` is the directory of the language `lang`.
pub open spec fn is_lang_dir(e: RemoteView, lang: Seq<char>) -> bool {
    e.name == Some(lang) && e.kind == Some("dir"@)
}

/// The position of the first entry of `es` that is the directory of
/// `lang`, or the length of `es`.
pub open spec fn lang_dir_index(es: Seq<RemoteView>, lang: Seq<char>) -> nat
    decreases es.len(),
{
    if es.len() == 0 {
        0
    } else if is_lang_dir(es[0], lang) {
        0
    } else {
        1 + lang_dir_index(es.drop_first(), lang)
    }
}

/// Whether `s` ends with `suffix`.
pub open spec fn has_suffix(s: Seq<char>, suffix: Seq<char>) -> bool {
    s.len() >= suffix.len() && s.skip(s.len() - suffix.len()) == suffix
}

/// Whether the entry `e` has a name that ends with `suffix`.
pub open spec fn name_ends(e: RemoteView, suffix: Seq<char>) -> bool {
    e.name matches Some(n) && has_suffix(n, suffix)
}

/// The position of the first entry of `es` whose name ends with `suffix`,
/// or the length of `es`.
pub open spec fn file_index(es: Seq<RemoteView>, suffix: Seq<char>) -> nat
    decreases es.len(),
{
    if es.len() == 0 {
        0
    } else if name_ends(es[0], suffix) {
        0
    } else {
        1 + file_index(es.drop_first(), suffix)
    }
}

/// The location of a file: `sha1$`, its hash, `$` and its download URL.
pub open spec fn file_location(sha: Seq<char>, url: Seq<char>) -> Seq<char> {
    "sha1$"@ + sha + "$"@ + url
}

/// The location of the first file of `es` whose name ends with `suffix`,
/// if there is one with a hash and a download URL.
pub open spec fn located_file(es: Seq<RemoteView>, suffix: Seq<char>) -> Option<Seq<char>> {
    let i = file_index(es, suffix);
    if i < es.len() {
        match (es[i as int].sha, es[i as int].download_url) {
            (Some(sha), Some(url)) => Some(file_location(sha, url)),
            _ => None,
        }
    } else {
        None
    }
}

proof fn lemma_index_step(es: Seq<RemoteView>, suffix: Seq<char>, lang: Seq<char>, i: int)
    requires
        0 <= i < es.len(),
    ensures
        file_index(es.skip(i), suffix) == if name_ends(es[i], suffix) {
            0
        } else {
            1 + file_index(es.skip(i + 1), suffix)
        },
        lang_dir_index(es.skip(i), lang) == if is_lang_dir(es[i], lang) {
            0
        } else {
            1 + lang_dir_index(es.skip(i + 1), lang)
        },
{
    assert(es.skip(i)[0] == es[i]);
    assert(es.skip(i).drop_first() =~= es.skip(i + 1));
}

proof fn lemma_index_bound(es: Seq<RemoteView>, suffix: Seq<char>, lang: Seq<char>)
    ensures
        file_index(es, suffix) <= es.len(),
        lang_dir_index(es, lang) <= es.len(),
    decreases es.len(),
{
    if es.len() > 0 {
        lemma_index_bound(es.drop_first(), suffix, lang);
    }
}

/// Whether `s` ends with `suffix`.
fn ends_with(s: &str, suffix: &str) -> (r: bool)
    ensures
        r == has_suffix(s@, suffix@),
{
    let a = chars_of(s);
    let b = chars_of(suffix);
    if b.len() > a.len() {
        return false;
    }
    let n = a.len();
    let off = n - b.len();
    let mut i: usize = 0;
    while i < b.len()
        invariant
            a@ == s@,
            b@ == suffix@,
            off == a@.len() - b@.len(),
            a@.len() >= b@.len(),
            n == a@.len(),
            i <= b@.len(),
            forall|k: int| 0 <= k < i ==> a@[off + k] == b@[k],
        decreases b@.len() - i,
    {
        assert(off + i < n);
        if a[off + i] != b[i] {
            proof {
                assert(s@.skip(s@.len() - suffix@.len())[i as int] != suffix@[i as int]);
            }
            return false;
        }
        i += 1;
    }
    proof {
        assert(s@.skip(s@.len() - suffix@.len()) =~= suffix@);
    }
    true
}

/// The location of the first file of the listing `tree` whose name ends
/// with `suffix`: `sha1$`, its hash, `$` and its download URL. An error
/// where there is no such file, or it has no hash or no download URL.
pub fn get_dl_url_from_tree(tree: &Vec<RemoteEntry>, suffix: &str) -> (r: Result<String, DownloadError>)
    ensures
        match located_file(listing_view(tree@), suffix@) {
            Some(loc) => r matches Ok(s) && s@ == loc,
            None => r == Err::<String, DownloadError>(DownloadError::FileNotFound),
        },
{
    let ghost es = listing_view(tree@);
    let mut i: usize = 0;
    proof {
        assert(es.skip(0) =~= es);
        lemma_index_bound(es, suffix@, Seq::empty());
    }
    while i < tree.len()
        invariant
            i <= tree@.len(),
            es == listing_view(tree@),
            file_index(es, suffix@) == i + file_index(es.skip(i as int), suffix@),
        decreases tree@.len() - i,
    {
        proof {
            lemma_index_step(es, suffix@, Seq::empty(), i as int);
            assert(es[i as int] == tree@[i as int]@);
        }
        let entry = &tree[i];
        let found = match &entry.name {
            Some(n) => ends_with(n.as_str(), suffix),
            None => false,
        };
        if found {
            let sha = match &entry.sha {
                Some(s) => s,
                None => {
                    return Err(DownloadError::FileNotFound);
                },
            };
            let url = match &entry.download_url {
                Some(u) => u,
                None => {
                    return Err(DownloadError::FileNotFound);
                },
            };
            let mut res = String::new();
            push_str(&mut res, "sha1$");
            push_str(&mut res, sha.as_str());
            push_str(&mut res, "$");
            push_str(&mut res, url.as_str());
            return Ok(res);
        }
        i += 1;
    }
    proof {
        assert(es.skip(i as int).len() == 0);
    }
    Err(DownloadError::FileNotFound)
}

/// The URL of the directory of the language `lang` in the listing `root`:
/// the first entry named `lang` whose type is `dir`.
pub fn find_dir_url(root: &Vec<RemoteEntry>, lang: &str) -> (r: Result<String, DownloadError>)
    ensures
        ({
            let es = listing_view(root@);
            let i = lang_dir_index(es, lang@);
            if i < es.len() {
                match es[i as int].url {
                    Some(u) => r matches Ok(s) && s@ == u,
                    None => r == Err::<String, DownloadError>(DownloadError::BadFormat),
                }
            } else {
                r == Err::<String, DownloadError>(DownloadError::LanguageNotFound)
            }
        }),
{
    let ghost es = listing_view(root@);
    let mut i: usize = 0;
    proof {
        assert(es.skip(0) =~= es);
        lemma_index_bound(es, Seq::empty(), lang@);
    }
    while i < root.len()
        invariant
            i <= root@.len(),
            es == listing_view(root@),
            lang_dir_index(es, lang@) == i + lang_dir_index(es.skip(i as int), lang@),
        decreases root@.len() - i,
    {
        proof {
            lemma_index_step(es, Seq::empty(), lang@, i as int);
            assert(es[i as int] == root@[i as int]@);
        }
        let entry = &root[i];
        let name_ok = match &entry.name {
            Some(n) => str_eq(n.as_str(), lang),
            None => false,
        };
        let kind_ok = match &entry.kind {
            Some(k) => str_eq(k.as_str(), "dir"),
            None => false,
        };
        if name_ok && kind_ok {
            return match &entry.url {
                Some(u) => Ok(u.clone()),
                None => Err(DownloadError::BadFormat),
            };
        }
        i += 1;
    }
    proof {
        assert(es.skip(i as int).len() == 0);
    }
    Err(DownloadError::LanguageNotFound)
}

/// The locations of the files of a dictionary, or their names.
#[derive(Debug, Clone, Default, PartialEq, Eq)]
pub struct DownloadInfo {
    pub affix: String,
    pub dictionary: String,
    pub license: String,
    pub lang: String,
}

/// The locations of the files of the dictionary of `lang` in the listing
/// `dir_listing` of its directory: its affix file (ending in `.aff`), its
/// dictionary file (ending in `.dic`) and its license (ending in
/// `license`).
pub fn download_info(lang: &str, dir_listing: &Vec<RemoteEntry>) -> (r: Result<DownloadInfo, DownloadError>)
    ensures
        ({
            let es = listing_view(dir_listing@);
            match (located_file(es, ".aff"@), located_file(es, ".dic"@), located_file(es, "license"@)) {
                (Some(a), Some(d), Some(l)) => r matches Ok(info) && info.affix@ == a && info.dictionary@ == d
                    && info.license@ == l && info.lang@ == lang@,
                _ => r == Err::<DownloadInfo, DownloadError>(DownloadError::FileNotFound),
            }
        }),
{
    let affix = match get_dl_url_from_tree(dir_listing, ".aff") {
        Ok(s) => s,
        Err(e) => {
            return Err(e);
        },
    };
    let dictionary = match get_dl_url_from_tree(dir_listing, ".dic") {
        Ok(s) => s,
        Err(e) => {
            return Err(e);
        },
    };
    let license = match get_dl_url_from_tree(dir_listing, "license") {
        Ok(s) => s,
        Err(e) => {
            return Err(e);
        },
    };
    Ok(DownloadInfo { affix, dictionary, license, lang: lang.to_owned() })
}

/// The position of the first `$` in `s`, or the length of `s`.
pub open spec fn dollar_index(s: Seq<char>) -> nat {
    crate::text::first_index(s, |c: char| c == '$')
}

/// Whether `s` holds two `$`.
pub open spec fn has_two_dollars(s: Seq<char>) -> bool {
    dollar_index(s) < s.len() && dollar_index(s.skip(dollar_index(s) as int + 1)) < s.skip(dollar_index(s) as int + 1).len()
}

/// Split a location `kind$hash$url` into its hash and its URL: the text
/// between the first two `$`, and the text after the second.
pub fn split_url_sha(s: &str) -> (r: (String, String))
    requires
        has_two_dollars(s@),
    ensures
        ({
            let rest = s@.skip(dollar_index(s@) as int + 1);
            r.0@ == rest.take(dollar_index(rest) as int) && r.1@ == rest.skip(dollar_index(rest) as int + 1)
        }),
{
    let cs = chars_of(s);
    proof {
        assert(s@.skip(0) =~= s@);
    }
    let n = cs.len();
    let a = find_dollar(cs.as_slice(), 0);
    assert(a < n);
    let b = find_dollar(cs.as_slice(), a + 1);
    let ghost rest = s@.skip(dollar_index(s@) as int + 1);
    proof {
        lemma_dollar_from(s@, a + 1);
        assert(rest.take((b - a - 1) as int) =~= s@.subrange(a + 1, b as int));
        assert(rest.skip((b - a - 1) + 1) =~= s@.subrange(b + 1, s@.len() as int));
    }
    let hash = crate::text::string_from(cs.as_slice(), a + 1, b);
    let url = crate::text::string_from(cs.as_slice(), b + 1, cs.len());
    (hash, url)
}

/// A location made of a hash without `$` and a URL splits back into that
/// hash and that URL.
pub proof fn law_location_round_trip(sha: Seq<char>, url: Seq<char>)
    requires
        forall|i: int| 0 <= i < sha.len() ==> sha[i] != '$',
    ensures
        has_two_dollars(file_location(sha, url)),
        ({
            let s = file_location(sha, url);
            let rest = s.skip(dollar_index(s) as int + 1);
            rest.take(dollar_index(rest) as int) == sha && rest.skip(dollar_index(rest) as int + 1) == url
        }),
{
    reveal_strlit("sha1$");
    reveal_strlit("$");
    let s = file_location(sha, url);
    let is_dollar = |c: char| c == '$';
    assert(s[4] == '$');
    assert forall|j: int| 0 <= j < 4 implies !is_dollar(#[trigger] s[j]) by {
        assert(s[j] == "sha1$"@[j]);
    }
    crate::text::lemma_first_index_at(s, is_dollar, 4);
    let rest = s.skip(5);
    assert(rest =~= sha + "$"@ + url);
    assert(rest[sha.len() as int] == '$');
    assert forall|j: int| 0 <= j < sha.len() implies !is_dollar(#[trigger] rest[j]) by {
        assert(rest[j] == sha[j]);
    }
    crate::text::lemma_first_index_at(rest, is_dollar, sha.len() as int);
    assert(rest.take(sha.len() as int) =~= sha);
    assert(rest.skip(sha.len() as int + 1) =~= url);
}

proof fn lemma_dollar_from(s: Seq<char>, from: int)
    requires
        0 <= from <= s.len(),
    ensures
        dollar_index(s.skip(from)) <= s.len() - from,
{
    crate::text::lemma_first_index_bound(s.skip(from), |c: char| c == '$');
}

/// The position of the first `$` of `t` from `from` on, or the length of
/// `t`.
fn find_dollar(t: &[char], from: usize) -> (r: usize)
    requires
        from <= t@.len(),
    ensures
        r == from + dollar_index(t@.skip(from as int)),
{
    let mut i: usize = from;
    proof {
        crate::text::lemma_first_index_bound(t@.skip(from as int), |c: char| c == '$');
    }
    while i < t.len()
        invariant
            from <= i <= t@.len(),
            from + dollar_index(t@.skip(from as int)) == i + dollar_index(t@.skip(i as int)),
        decreases t@.len() - i,
    {
        proof {
            assert(t@.skip(i as int)[0] == t@[i as int]);
            assert(t@.skip(i as int).drop_first() =~= t@.skip(i + 1));
        }
        if t[i] == '$' {
            return i;
        }
        i += 1;
    }
    proof {
        assert(t@.skip(i as int).len() == 0);
    }
    i
}

} // verus!
