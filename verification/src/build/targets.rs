//! Cross-compilation targets for native modules.

use vstd::prelude::*;
use crate::error::{LpmError, LpmResult};
use crate::text::{concat3, contains, contains_str, eq_str, join, join_strings, owned, views};

verus! {

/// The supported target triples, in the order in which they are listed.
pub open spec fn supported_target_list() -> Seq<Seq<char>> {
    seq![
        "x86_64-unknown-linux-gnu"@,
        "x86_64-unknown-linux-musl"@,
        "aarch64-unknown-linux-gnu"@,
        "x86_64-pc-windows-gnu"@,
        "x86_64-apple-darwin"@,
        "aarch64-apple-darwin"@,
    ]
}

/// The supported target triples.
pub fn supported_targets() -> (r: Vec<String>)
    ensures
        views(r@) == supported_target_list(),
{
    let r = vec![
        owned("x86_64-unknown-linux-gnu"),
        owned("x86_64-unknown-linux-musl"),
        owned("aarch64-unknown-linux-gnu"),
        owned("x86_64-pc-windows-gnu"),
        owned("x86_64-apple-darwin"),
        owned("aarch64-apple-darwin"),
    ];
    assert(views(r@) =~= supported_target_list());
    r
}

/// The message for a triple that is not supported.
pub open spec fn unsupported_target_message(triple: Seq<char>) -> Seq<char> {
    "Unsupported target '"@ + triple + "'. Supported targets: "@ + join(supported_target_list(), ", "@)
}

/// A build target, named by its triple.
#[derive(Debug, Clone, PartialEq, Eq)]
pub struct Target {
    pub triple: String,
}

/// The triple that a platform builds for by default, by operating system
/// and architecture: Linux and macOS by their architecture, Windows always
/// `x86_64-pc-windows-gnu`, and any other system the x86-64 Linux triple.
pub open spec fn default_triple(os: Seq<char>, arch: Seq<char>) -> Seq<char> {
    if os == "linux"@ {
        if arch == "aarch64"@ { "aarch64-unknown-linux-gnu"@ } else { "x86_64-unknown-linux-gnu"@ }
    } else if os == "macos"@ {
        if arch == "aarch64"@ { "aarch64-apple-darwin"@ } else { "x86_64-apple-darwin"@ }
    } else if os == "windows"@ {
        "x86_64-pc-windows-gnu"@
    } else {
        "x86_64-unknown-linux-gnu"@
    }
}

/// Linux and macOS have a default target on x86-64 and AArch64 only.
pub open spec fn has_default_target(os: Seq<char>, arch: Seq<char>) -> bool {
    (os == "linux"@ || os == "macos"@) ==> (arch == "x86_64"@ || arch == "aarch64"@)
}

/// The default target of every platform that has one is a supported target.
pub proof fn lemma_default_target_supported(os: Seq<char>, arch: Seq<char>)
    requires
        has_default_target(os, arch),
    ensures
        supported_target_list().contains(default_triple(os, arch)),
{
    let t = default_triple(os, arch);
    let l = supported_target_list();
    if os == "linux"@ {
        if arch == "aarch64"@ { assert(l[2] == t); } else { assert(l[0] == t); }
    } else if os == "macos"@ {
        if arch == "aarch64"@ { assert(l[5] == t); } else { assert(l[4] == t); }
    } else if os == "windows"@ {
        assert(l[3] == t);
    } else {
        assert(l[0] == t);
    }
}

/// The file extension of a native module built for a triple.
pub open spec fn extension_for(triple: Seq<char>) -> Seq<char> {
    if contains(triple, "windows"@) {
        ".dll"@
    } else if contains(triple, "darwin"@) {
        ".dylib"@
    } else {
        ".so"@
    }
}

impl Target {
    /// A target for a supported triple; any other triple is refused with a
    /// message that lists the supported ones.
    pub fn new(triple: &str) -> (r: LpmResult<Self>)
        ensures
            supported_target_list().contains(triple@) ==> (r matches Ok(t) && t.triple@ == triple@),
            !supported_target_list().contains(triple@) ==> (r matches Err(e) && e matches LpmError::Package(m)
                && m@ == unsupported_target_message(triple@)),
    {
        let list = supported_targets();
        let mut i: usize = 0;
        while i < list.len()
            invariant
                i <= list@.len(),
                views(list@) == supported_target_list(),
                forall|j: int| 0 <= j < i ==> list@[j]@ != triple@,
            decreases list@.len() - i,
        {
            if eq_str(list[i].as_str(), triple) {
                proof {
                    assert(supported_target_list()[i as int] == list@[i as int]@);
                }
                return Ok(Target { triple: owned(triple) });
            }
            i += 1;
        }
        proof {
            if supported_target_list().contains(triple@) {
                let j = choose|j: int| 0 <= j < supported_target_list().len() && supported_target_list()[j] == triple@;
                assert(list@[j]@ == supported_target_list()[j]);
            }
        }
        let names = join_strings(&list, ", ");
        let head = concat3("Unsupported target '", triple, "'. Supported targets: ");
        let msg = crate::text::concat2(head.as_str(), names.as_str());
        Err(LpmError::Package(msg))
    }

    /// The default target of a platform, given its operating system and
    /// architecture as Rust names them (`linux`, `macos`, `windows`;
    /// `x86_64`, `aarch64`).
    pub fn default_target(os: &str, arch: &str) -> (t: Self)
        requires
            has_default_target(os@, arch@),
        ensures
            t.triple@ == default_triple(os@, arch@),
    {
        proof {
            reveal_strlit("linux");
            reveal_strlit("macos");
            reveal_strlit("windows");
            reveal_strlit("aarch64");
        }
        let aarch64 = eq_str(arch, "aarch64");
        let triple = if eq_str(os, "linux") {
            if aarch64 { "aarch64-unknown-linux-gnu" } else { "x86_64-unknown-linux-gnu" }
        } else if eq_str(os, "macos") {
            if aarch64 { "aarch64-apple-darwin" } else { "x86_64-apple-darwin" }
        } else if eq_str(os, "windows") {
            "x86_64-pc-windows-gnu"
        } else {
            "x86_64-unknown-linux-gnu"
        };
        Target { triple: owned(triple) }
    }

    /// The file extension of native modules on this target: `.dll` for
    /// Windows, `.dylib` for Darwin, `.so` otherwise.
    pub fn module_extension(&self) -> (ext: &'static str)
        ensures
            ext@ == extension_for(self.triple@),
    {
        if contains_str(self.triple.as_str(), "windows") {
            ".dll"
        } else if contains_str(self.triple.as_str(), "darwin") {
            ".dylib"
        } else {
            ".so"
        }
    }
}

} // verus!
