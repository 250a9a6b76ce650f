//! The package cache: where rockspecs, source archives and Rust build
//! artifacts are kept, and the names they are kept under.

use vstd::prelude::*;
use sha2::{Digest, Sha256};
use vstd::string::StringSliceAdditionalSpecFns;
use crate::path::{extension, extension_of, join, join_path, path_exists};
use crate::text::{concat2, concat3, contains, contains_str, owned, replace_pat, replace_str};

verus! {

/// The SHA-256 digest of a byte string.
pub uninterp spec fn sha256_digest(data: Seq<u8>) -> Seq<u8>;

/// SHA-256 of the bytes (`sha2::Sha256`: `new`, `update`, `finalize`).
/// Trusted: the digest is the function `sha256_digest` of the input and is
/// 32 bytes long, as the algorithm fixes.
#[verifier::external_body]
fn sha256(data: &[u8]) -> (r: Vec<u8>)
    ensures
        r@ == sha256_digest(data@),
        r@.len() == 32,
{
    let mut hasher = Sha256::new();
    hasher.update(data);
    hasher.finalize().to_vec()
}

/// The lowercase hexadecimal digit of a number below 16.
pub open spec fn hex_digit(n: int) -> char {
    seq!['0', '1', '2', '3', '4', '5', '6', '7', '8', '9', 'a', 'b', 'c', 'd', 'e', 'f'][n]
}

/// Each byte as two lowercase hexadecimal digits, high digit first.
pub open spec fn hex_of(bytes: Seq<u8>) -> Seq<char>
    decreases bytes.len(),
{
    if bytes.len() == 0 {
        Seq::<char>::empty()
    } else {
        hex_of(bytes.drop_last()) + seq![hex_digit(bytes.last() as int / 16), hex_digit(bytes.last() as int % 16)]
    }
}

/// `hex::encode`.
/// Trusted: each byte becomes two characters of `0123456789abcdef`, the high
/// half first, in the order of the bytes.
#[verifier::external_body]
fn hex_encode(data: &[u8]) -> (r: String)
    ensures
        r@ == hex_of(data@),
{
    hex::encode(data)
}

/// The cache name of a URL: the first 16 bytes of the SHA-256 of its UTF-8
/// bytes, in hexadecimal.
pub open spec fn url_hash_of(url: &str) -> Seq<char> {
    hex_of(sha256_digest(url.spec_bytes()).take(16))
}

/// The extension under which a source archive is kept: that of the URL's
/// last segment, else `tar.gz`.
pub open spec fn archive_extension(url: Seq<char>) -> Seq<char> {
    match extension(url) {
        Some(e) => e,
        None => "tar.gz"@,
    }
}

/// The extension of a native library for a target triple.
pub open spec fn library_extension(target: Seq<char>) -> Seq<char> {
    if contains(target, "windows"@) {
        "dll"@
    } else if contains(target, "darwin"@) || contains(target, "apple"@) {
        "dylib"@
    } else {
        "so"@
    }
}

/// The file name of a package's native library: `lib`, the package name
/// with `-` written `_`, a dot and the extension.
pub open spec fn library_file_name(package: Seq<char>, target: Seq<char>) -> Seq<char> {
    "lib"@ + replace_pat(package, "-"@, "_"@) + "."@ + library_extension(target)
}

/// The package cache, rooted at a directory.
#[derive(Debug, Clone)]
pub struct Cache {
    root: String,
}

impl Cache {
    /// The directory the cache is rooted at.
    pub closed spec fn root_dir(&self) -> Seq<char> {
        self.root@
    }

    pub open spec fn luarocks_dir_of(&self) -> Seq<char> {
        join_path(self.root_dir(), "luarocks"@)
    }

    pub open spec fn rockspecs_dir_of(&self) -> Seq<char> {
        join_path(self.luarocks_dir_of(), "rockspecs"@)
    }

    pub open spec fn sources_dir_of(&self) -> Seq<char> {
        join_path(self.luarocks_dir_of(), "sources"@)
    }

    pub open spec fn rust_builds_dir_of(&self) -> Seq<char> {
        join_path(self.root_dir(), "rust-builds"@)
    }

    /// Where the artifact of a Rust build is kept:
    /// `rust-builds/<package>/<version>/<lua version>/<target>/<library>`.
    pub open spec fn rust_build_path_of(
        &self,
        package: Seq<char>,
        version: Seq<char>,
        lua_version: Seq<char>,
        target: Seq<char>,
    ) -> Seq<char> {
        join_path(
            join_path(
                join_path(
                    join_path(join_path(self.rust_builds_dir_of(), package), version),
                    lua_version,
                ),
                target,
            ),
            library_file_name(package, target),
        )
    }

    /// A cache rooted at a directory. The directory itself is made by the
    /// caller.
    pub fn new(cache_root: String) -> (c: Self)
        ensures
            c.root_dir() == cache_root@,
    {
        Cache { root: cache_root }
    }

    /// The directory the cache is rooted at.
    pub fn root(&self) -> (r: &str)
        ensures
            r@ == self.root_dir(),
    {
        self.root.as_str()
    }

    /// Get the LuaRocks cache directory (`luarocks`).
    pub fn luarocks_dir(&self) -> (r: String)
        ensures
            r@ == self.luarocks_dir_of(),
    {
        join(self.root.as_str(), "luarocks")
    }

    /// Get the rockspecs cache directory (`luarocks/rockspecs`).
    pub fn rockspecs_dir(&self) -> (r: String)
        ensures
            r@ == self.rockspecs_dir_of(),
    {
        join(self.luarocks_dir().as_str(), "rockspecs")
    }

    /// Get the sources cache directory (`luarocks/sources`).
    pub fn sources_dir(&self) -> (r: String)
        ensures
            r@ == self.sources_dir_of(),
    {
        join(self.luarocks_dir().as_str(), "sources")
    }

    /// Get the Rust builds cache directory (`rust-builds`).
    pub fn rust_builds_dir(&self) -> (r: String)
        ensures
            r@ == self.rust_builds_dir_of(),
    {
        join(self.root.as_str(), "rust-builds")
    }

    /// Get the cached path for a rockspec file: `<package>-<version>.rockspec`
    /// in the rockspecs directory.
    pub fn rockspec_path(&self, package: &str, version: &str) -> (r: String)
        ensures
            r@ == join_path(self.rockspecs_dir_of(), package@ + "-"@ + version@ + ".rockspec"@),
    {
        let head = concat3(package, "-", version);
        let name = concat2(head.as_str(), ".rockspec");
        join(self.rockspecs_dir().as_str(), name.as_str())
    }

    /// The cache name of a URL: its SHA-256, cut to 16 bytes, in hex.
    pub fn url_hash(url: &str) -> (r: String)
        ensures
            r@ == url_hash_of(url),
            r@.len() == 32,
    {
        let digest = sha256(url.as_bytes());
        let mut head: Vec<u8> = Vec::new();
        let mut i: usize = 0;
        while i < 16
            invariant
                i <= 16,
                digest@.len() == 32,
                head@ == digest@.take(i as int),
            decreases 16 - i,
        {
            head.push(digest[i]);
            assert(digest@.take(i + 1) =~= digest@.take(i as int).push(digest@[i as int]));
            i += 1;
        }
        let r = hex_encode(head.as_slice());
        proof {
            lemma_hex_len(head@);
        }
        r
    }

    /// Get the cached path for a source archive: the URL's hash and
    /// extension, in the sources directory.
    pub fn source_path(&self, url: &str) -> (r: String)
        ensures
            r@ == join_path(self.sources_dir_of(), url_hash_of(url) + "."@ + archive_extension(url@)),
    {
        let hash = Self::url_hash(url);
        let ext = match extension_of(url) {
            Some(e) => e,
            None => owned("tar.gz"),
        };
        let name = concat3(hash.as_str(), ".", ext.as_str());
        join(self.sources_dir().as_str(), name.as_str())
    }

    /// Whether a file is present. Nothing is stated of the answer: it is
    /// what the file system says at the moment of the call.
    pub fn file_exists(&self, path: &str) -> bool {
        path_exists(path)
    }

    /// Get the cached path for a Rust build artifact, per package, version,
    /// Lua version and target.
    pub fn rust_build_path(&self, package: &str, version: &str, lua_version: &str, target: &str) -> (r: String)
        ensures
            r@ == self.rust_build_path_of(package@, version@, lua_version@, target@),
    {
        let d1 = join(self.rust_builds_dir().as_str(), package);
        let d2 = join(d1.as_str(), version);
        let d3 = join(d2.as_str(), lua_version);
        let dir = join(d3.as_str(), target);
        let ext = if contains_str(target, "windows") {
            "dll"
        } else if contains_str(target, "darwin") || contains_str(target, "apple") {
            "dylib"
        } else {
            "so"
        };
        proof {
            reveal_strlit("-");
        }
        let base = replace_str(package, "-", "_");
        let head = concat2("lib", base.as_str());
        let name = concat3(head.as_str(), ".", ext);
        join(dir.as_str(), name.as_str())
    }

    /// Whether a Rust build artifact is cached: whether the file at
    /// `rust_build_path` is present.
    pub fn has_rust_build(&self, package: &str, version: &str, lua_version: &str, target: &str) -> bool {
        let p = self.rust_build_path(package, version, lua_version, target);
        self.file_exists(p.as_str())
    }

    /// The cached Rust build artifact, given whether its file is present:
    /// its path in the cache when it is, nothing when it is not.
    pub fn rust_build_from(
        &self,
        package: &str,
        version: &str,
        lua_version: &str,
        target: &str,
        present: bool,
    ) -> (r: Option<String>)
        ensures
            present ==> (r matches Some(p) && p@ == self.rust_build_path_of(package@, version@, lua_version@, target@)),
            !present ==> r is None,
    {
        if present {
            Some(self.rust_build_path(package, version, lua_version, target))
        } else {
            None
        }
    }

    /// The cached Rust build artifact, if the file is present (see
    /// `rust_build_from`, given the file system's answer). What is handed
    /// back is always its path in the cache.
    pub fn get_rust_build(&self, package: &str, version: &str, lua_version: &str, target: &str) -> (r: Option<String>)
        ensures
            r matches Some(p) ==> p@ == self.rust_build_path_of(package@, version@, lua_version@, target@),
    {
        let p = self.rust_build_path(package, version, lua_version, target);
        let present = self.file_exists(p.as_str());
        self.rust_build_from(package, version, lua_version, target, present)
    }

    /// The checksum of some content, as the cache records it:
    /// `sha256:` and the digest in hex.
    pub fn checksum_of(data: &[u8]) -> (r: String)
        ensures
            r@ == "sha256:"@ + hex_of(sha256_digest(data@)),
    {
        let digest = sha256(data);
        let hex = hex_encode(digest.as_slice());
        concat2("sha256:", hex.as_str())
    }
}

proof fn lemma_hex_len(bytes: Seq<u8>)
    ensures
        hex_of(bytes).len() == 2 * bytes.len(),
    decreases bytes.len(),
{
    if bytes.len() > 0 {
        lemma_hex_len(bytes.drop_last());
    }
}

/// What a cleaning of the cache removed.
#[derive(Debug, Default, Clone, Copy, PartialEq, Eq)]
pub struct CacheCleanResult {
    pub files_removed: usize,
    pub bytes_freed: u64,
}

impl CacheCleanResult {
    /// Adds the counts of another cleaning to these.
    pub fn add_assign(&mut self, other: Self)
        requires
            old(self).files_removed + other.files_removed <= usize::MAX,
            old(self).bytes_freed + other.bytes_freed <= u64::MAX,
        ensures
            final(self).files_removed == old(self).files_removed + other.files_removed,
            final(self).bytes_freed == old(self).bytes_freed + other.bytes_freed,
    {
        self.files_removed = self.files_removed + other.files_removed;
        self.bytes_freed = self.bytes_freed + other.bytes_freed;
    }
}

} // verus!
