//! Asset files served to clients under content-addressed names.
//!
//! Each asset is served under its file name with the SHA-1 of its content
//! inserted before the extension, so that clients can cache it forever.
use vstd::prelude::*;
use vstd::string::StrSliceExecFns;

use sha1::{Digest, Sha1};

use crate::client_config;
use crate::text::str_eq;

verus! {

/// The SHA-1 digest of `data`.
pub uninterp spec fn sha1_digest(data: Seq<u8>) -> Seq<u8>;

/// Computes the SHA-1 digest of `data` with `sha1::Sha1::digest`; the
/// contract claims that the result is the digest of `data` (named, not
/// stated) and that it is 20 bytes long (`Sha1Core::OutputSize` is `U20`).
#[verifier::external_body]
fn sha1(data: &[u8]) -> (r: Vec<u8>)
    ensures
        r@ == sha1_digest(data@),
        r@.len() == 20,
{
    Sha1::digest(data).to_vec()
}

/// Appends a character with `String::push`; the contract claims that the
/// string's characters are those before followed by `c`.
#[verifier::external_body]
fn push_char(s: &mut String, c: char)
    ensures
        final(s)@ == old(s)@.push(c),
{
    s.push(c)
}

/// The lower-case hexadecimal digit of `n`, for `n < 16`.
pub open spec fn hex_digit(n: u8) -> char {
    if n < 10 {
        (48 + n) as char
    } else {
        (87 + n) as char
    }
}

/// Two lower-case hexadecimal digits per byte.
pub open spec fn spec_hex(bytes: Seq<u8>) -> Seq<char>
    decreases bytes.len(),
{
    if bytes.len() == 0 {
        Seq::empty()
    } else {
        spec_hex(bytes.drop_last()) + seq![hex_digit(bytes.last() / 16), hex_digit(bytes.last() % 16)]
    }
}

fn hex_digit_char(n: u8) -> (c: char)
    requires
        n < 16,
    ensures
        c == hex_digit(n),
{
    if n < 10 {
        (48 + n) as char
    } else {
        (87 + n) as char
    }
}

/// The lower-case hexadecimal SHA-1 digest of a file's content.
pub fn hash_file_content(content: &[u8]) -> (hash: String)
    ensures
        hash@ == spec_hex(sha1_digest(content@)),
{
    let digest = sha1(content);
    let mut hash = String::new();
    let mut i: usize = 0;
    assert(digest@.take(0) =~= Seq::<u8>::empty());
    while i < digest.len()
        invariant
            i <= digest.len(),
            hash@ == spec_hex(digest@.take(i as int)),
        decreases digest.len() - i,
    {
        let b = digest[i];
        push_char(&mut hash, hex_digit_char(b / 16));
        push_char(&mut hash, hex_digit_char(b % 16));
        assert(digest@.take(i + 1).drop_last() =~= digest@.take(i as int));
        assert(hash@ =~= spec_hex(digest@.take(i as int)) + seq![hex_digit(b / 16), hex_digit(b % 16)]);
        i = i + 1;
    }
    assert(digest@.take(digest.len() as int) =~= digest@);
    hash
}

/// Index of the first `.` in `s` from `from` on.
pub open spec fn first_dot(s: Seq<char>, from: int) -> Option<int>
    decreases s.len() - from,
{
    if from < 0 || from >= s.len() {
        None
    } else if s[from] == '.' {
        Some(from)
    } else {
        first_dot(s, from + 1)
    }
}

/// The served name of a file: the hash inserted before the part after the
/// first `.`, or appended after a `.` if the name has none.
pub open spec fn spec_generate_filename(name: Seq<char>, hash: Seq<char>) -> Seq<char> {
    match first_dot(name, 0) {
        Some(i) => name.take(i) + "."@ + hash + "."@ + name.skip(i + 1),
        None => name + "."@ + hash,
    }
}

proof fn lemma_first_dot_bounds(s: Seq<char>, from: int)
    ensures
        first_dot(s, from) matches Some(i) ==> from <= i < s.len() && s[i] == '.',
    decreases s.len() - from,
{
    if 0 <= from < s.len() && s[from] != '.' {
        lemma_first_dot_bounds(s, from + 1);
    }
}

/// The name under which a file is served: `tileset.png` with hash `ab12`
/// becomes `tileset.ab12.png`.
pub fn generate_filename(local_filename: &str, hash: &str) -> (r: String)
    ensures
        r@ == spec_generate_filename(local_filename@, hash@),
{
    let n = local_filename.unicode_len();
    let mut i: usize = 0;
    while i < n
        invariant
            n == local_filename@.len(),
            i <= n,
            first_dot(local_filename@, 0) == first_dot(local_filename@, i as int),
        decreases n - i,
    {
        if local_filename.get_char(i) == '.' {
            let before_ext = local_filename.substring_char(0, i);
            let ext = local_filename.substring_char(i + 1, n);
            let r = String::from_str(before_ext).concat(".").concat(hash).concat(".").concat(ext);
            assert(ext@ =~= local_filename@.skip(i + 1));
            assert(before_ext@ =~= local_filename@.take(i as int));
            return r;
        }
        i = i + 1;
    }
    String::from_str(local_filename).concat(".").concat(hash)
}

/// Where an asset file lies on disk.
pub fn local_asset_path(local_filename: &str) -> (r: String)
    ensures
        r@ == "assets/"@ + local_filename@,
{
    String::from_str("assets/").concat(local_filename)
}

/// An asset: the name it is requested by, its request path and its file.
#[derive(Debug, Clone)]
pub struct AssetPath {
    pub request_filename: String,
    pub request_path: String,
    pub local_path: String,
}

/// The view of an [`AssetPath`].
pub struct AssetPathView {
    pub request_filename: Seq<char>,
    pub request_path: Seq<char>,
    pub local_path: Seq<char>,
}

impl View for AssetPath {
    type V = AssetPathView;

    open spec fn view(&self) -> AssetPathView {
        AssetPathView {
            request_filename: self.request_filename@,
            request_path: self.request_path@,
            local_path: self.local_path@,
        }
    }
}

/// The paths of the asset named `name` whose file holds `content`.
pub open spec fn spec_asset_path(name: Seq<char>, content: Seq<u8>) -> AssetPathView {
    let request_filename = spec_generate_filename(name, spec_hex(sha1_digest(content)));
    AssetPathView {
        request_filename,
        request_path: "/assets/"@ + request_filename,
        local_path: "assets/"@ + name,
    }
}

/// The paths of an asset, given the content of its file.
pub fn load_asset(local_filename: &str, content: &[u8]) -> (r: AssetPath)
    ensures
        r@ == spec_asset_path(local_filename@, content@),
{
    let local_path = local_asset_path(local_filename);
    let hash = hash_file_content(content);
    let request_filename = generate_filename(local_filename, hash.as_str());
    let request_path = String::from_str("/assets/").concat(request_filename.as_str());
    AssetPath { request_filename, request_path, local_path }
}

/// The file of the tileset.
pub const TILESET_FILE: &'static str = "tileset.png";

/// The file of the character sprites.
pub const CHARSET_FILE: &'static str = "charset.png";

/// The file of the font atlas.
pub const FONT_FILE: &'static str = "notosans.png";

/// The file of the font metrics.
pub const FONT_META_FILE: &'static str = "notosans.json";

/// The assets of the server: each served asset, and the request paths told
/// to clients.
#[derive(Debug, Clone)]
pub struct AssetPaths {
    /// The assets in the order tileset, charset, font, font metrics.
    pub lookup: Vec<AssetPath>,
    pub paths: client_config::AssetPaths,
}

/// The asset served under `filename`: the last one with that name.
pub open spec fn spec_lookup(lookup: Seq<AssetPath>, filename: Seq<char>) -> Option<int>
    decreases lookup.len(),
{
    if lookup.len() == 0 {
        None
    } else if lookup.last().request_filename@ == filename {
        Some(lookup.len() - 1)
    } else {
        spec_lookup(lookup.drop_last(), filename)
    }
}

impl AssetPaths {
    /// The asset requested under `filename`, if any.
    pub fn lookup_asset(&self, filename: &str) -> (r: Option<&AssetPath>)
        ensures
            match spec_lookup(self.lookup@, filename@) {
                None => r is None,
                Some(i) => r is Some && *r.unwrap() == self.lookup@[i],
            },
    {
        let ghost all = self.lookup@;
        let mut i: usize = self.lookup.len();
        assert(all.take(i as int) =~= all);
        while i > 0
            invariant
                all == self.lookup@,
                i <= all.len(),
                spec_lookup(all, filename@) == spec_lookup(all.take(i as int), filename@),
            decreases i,
        {
            let ghost t = all.take(i as int);
            assert(t.drop_last() =~= all.take(i - 1));
            assert(t.last() == all[i - 1]);
            if str_eq(self.lookup[i - 1].request_filename.as_str(), filename) {
                return Some(&self.lookup[i - 1]);
            }
            i = i - 1;
        }
        None
    }
}

/// The assets, given the contents of the tileset, charset, font and font
/// metrics files.
pub fn load_assets(tileset: &[u8], charset: &[u8], font: &[u8], font_meta: &[u8]) -> (r: AssetPaths)
    ensures
        r.lookup@.len() == 4,
        r.lookup@[0]@ == spec_asset_path(TILESET_FILE@, tileset@),
        r.lookup@[1]@ == spec_asset_path(CHARSET_FILE@, charset@),
        r.lookup@[2]@ == spec_asset_path(FONT_FILE@, font@),
        r.lookup@[3]@ == spec_asset_path(FONT_META_FILE@, font_meta@),
        r.paths.tileset@ == r.lookup@[0].request_path@,
        r.paths.charset@ == r.lookup@[1].request_path@,
        r.paths.font@ == r.lookup@[2].request_path@,
        r.paths.font_meta@ == r.lookup@[3].request_path@,
{
    let tileset = load_asset(TILESET_FILE, tileset);
    let charset = load_asset(CHARSET_FILE, charset);
    let font = load_asset(FONT_FILE, font);
    let font_meta = load_asset(FONT_META_FILE, font_meta);
    let paths = client_config::AssetPaths {
        tileset: tileset.request_path.clone(),
        charset: charset.request_path.clone(),
        font: font.request_path.clone(),
        font_meta: font_meta.request_path.clone(),
    };
    let mut lookup: Vec<AssetPath> = Vec::new();
    lookup.push(tileset);
    lookup.push(charset);
    lookup.push(font);
    lookup.push(font_meta);
    AssetPaths { lookup, paths }
}

} // verus!
