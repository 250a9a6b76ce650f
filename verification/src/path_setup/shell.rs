//! Whether the `lpm` executable is reachable through `PATH`, and what to tell
//! the user when it is not: the shell, its profile file, the Cargo `bin`
//! directory and the expansion of `PATH` entries.

use vstd::prelude::*;
use crate::error::{LpmError, LpmResult};
use crate::path::{join, join_path, path_has_prefix, path_starts_with};
use crate::text::{
    concat2, concat3, contains, contains_str, eq_str, owned, replace_pat, replace_str, split_char,
    split_char_str, starts_with, trim, trim_str, views,
};

verus! {

/// The separator of `PATH` entries: `;` on Windows, `:` elsewhere.
pub open spec fn separator_of(os: Seq<char>) -> char {
    if os == "windows"@ { ';' } else { ':' }
}

/// The separator of `PATH` entries on an operating system.
pub fn path_separator(os: &str) -> (c: char)
    ensures
        c == separator_of(os@),
{
    if eq_str(os, "windows") { ';' } else { ':' }
}

/// A `PATH` entry with `~` at its start, or else every `$HOME`, replaced by
/// the home directory, when that is known.
pub open spec fn expanded(path: Seq<char>, home: Option<Seq<char>>) -> Seq<char> {
    match home {
        None => path,
        Some(h) => if starts_with(path, "~"@) {
            h + path.skip(1)
        } else if contains(path, "$HOME"@) {
            replace_pat(path, "$HOME"@, h)
        } else {
            path
        },
    }
}

/// Expands `~` at the start of a path, or else `$HOME`, with the home
/// directory `home` (the value of `HOME`, if it is set).
pub fn expand_path_vars(path: &str, home: Option<&str>) -> (r: String)
    ensures
        r@ == expanded(path@, match home {
            Some(h) => Some(h@),
            None => None,
        }),
{
    proof {
        reveal_strlit("~");
        reveal_strlit("$HOME");
    }
    match home {
        None => owned(path),
        Some(h) => {
            let v = crate::text::chars_of(path);
            if v.len() > 0 && v[0] == '~' {
                assert(path@.take(1) =~= "~"@);
                let rest = crate::text::string_of(&v, 1, v.len());
                assert(rest@ =~= path@.skip(1));
                concat2(h, rest.as_str())
            } else {
                proof {
                    if starts_with(path@, "~"@) {
                        assert(path@[0] == "~"@[0]);
                    }
                }
                if contains_str(path, "$HOME") {
                    replace_str(path, "$HOME", h)
                } else {
                    owned(path)
                }
            }
        },
    }
}

/// The name of the user's shell: the last segment of `SHELL`, or of
/// `/bin/sh` when `SHELL` is not set.
pub open spec fn shell_name(shell_var: Option<Seq<char>>) -> Seq<char> {
    let v = match shell_var {
        Some(s) => s,
        None => "/bin/sh"@,
    };
    split_char(v, '/').last()
}

/// Detects the current shell from the value of `SHELL`.
pub fn detect_shell(shell_var: Option<&str>) -> (r: String)
    ensures
        r@ == shell_name(match shell_var {
            Some(s) => Some(s@),
            None => None,
        }),
{
    let v = match shell_var {
        Some(s) => s,
        None => "/bin/sh",
    };
    let parts = split_char_str(v, '/');
    proof {
        crate::text::lemma_split_char_len(v@, '/');
    }
    let last = parts[parts.len() - 1].clone();
    assert(last@ == views(parts@).last());
    last
}

/// The profile file of a shell.
pub open spec fn profile_of(shell: Seq<char>) -> Seq<char> {
    if shell == "zsh"@ {
        "~/.zshrc"@
    } else if shell == "bash"@ {
        "~/.bashrc"@
    } else if shell == "fish"@ {
        "~/.config/fish/config.fish"@
    } else {
        "~/.profile"@
    }
}

/// Get the shell profile file path.
pub fn get_shell_profile(shell: &str) -> (r: String)
    ensures
        r@ == profile_of(shell@),
{
    if eq_str(shell, "zsh") {
        owned("~/.zshrc")
    } else if eq_str(shell, "bash") {
        owned("~/.bashrc")
    } else if eq_str(shell, "fish") {
        owned("~/.config/fish/config.fish")
    } else {
        owned("~/.profile")
    }
}

/// Get the Cargo `bin` directory: `.cargo/bin` in `USERPROFILE` on
/// Windows and in `HOME` elsewhere; the error names the missing variable.
pub fn get_cargo_bin_dir(os: &str, userprofile: Option<&str>, home: Option<&str>) -> (r: LpmResult<String>)
    ensures
        os@ == "windows"@ ==> match userprofile {
            Some(u) => r matches Ok(p) && p@ == join_path(join_path(u@, ".cargo"@), "bin"@),
            None => r matches Err(e) && e matches LpmError::Path(m) && m@ == "USERPROFILE not set"@,
        },
        os@ != "windows"@ ==> match home {
            Some(h) => r matches Ok(p) && p@ == join_path(join_path(h@, ".cargo"@), "bin"@),
            None => r matches Err(e) && e matches LpmError::Path(m) && m@ == "HOME not set"@,
        },
{
    let base = if eq_str(os, "windows") {
        match userprofile {
            Some(u) => u,
            None => {
                return Err(LpmError::Path(owned("USERPROFILE not set")));
            },
        }
    } else {
        match home {
            Some(h) => h,
            None => {
                return Err(LpmError::Path(owned("HOME not set")));
            },
        }
    };
    let dot = join(base, ".cargo");
    Ok(join(dot.as_str(), "bin"))
}

/// Number of `/` at the end of a text.
pub open spec fn trailing_slashes(s: Seq<char>) -> nat
    decreases s.len(),
{
    if s.len() > 0 && s.last() == '/' {
        1 + trailing_slashes(s.drop_last())
    } else {
        0
    }
}

/// A path without the `/` at its end (`trim_end_matches('/')`).
pub open spec fn without_trailing_slashes(s: Seq<char>) -> Seq<char> {
    s.take(s.len() - trailing_slashes(s))
}

proof fn lemma_trailing_slashes(s: Seq<char>)
    ensures
        trailing_slashes(s) <= s.len(),
    decreases s.len(),
{
    if s.len() > 0 && s.last() == '/' {
        lemma_trailing_slashes(s.drop_last());
    }
}

/// Removes the `/` at the end of a path.
pub fn trim_trailing_slashes(s: &str) -> (r: String)
    ensures
        r@ == without_trailing_slashes(s@),
{
    let v = crate::text::chars_of(s);
    let mut n: usize = v.len();
    proof {
        lemma_trailing_slashes(s@);
        assert(v@.take(v@.len() as int) =~= v@);
    }
    while n > 0 && v[n - 1] == '/'
        invariant
            n <= v@.len(),
            v@ == s@,
            trailing_slashes(s@) == (v@.len() - n) + trailing_slashes(v@.take(n as int)),
        decreases n,
    {
        assert(v@.take(n as int).drop_last() =~= v@.take(n - 1));
        n -= 1;
    }
    proof {
        if n > 0 {
            assert(v@.take(n as int).last() == v@[n - 1]);
        }
    }
    crate::text::string_of(&v, 0, n)
}

/// The entries of `PATH` worth comparing: the non-empty ones, each trimmed
/// and then expanded with the home directory.
pub open spec fn path_entries_of(path_env: Seq<char>, os: Seq<char>, home: Option<Seq<char>>) -> Seq<Seq<char>> {
    split_char(path_env, separator_of(os)).filter(|d: Seq<char>| d.len() > 0).map_values(
        |d: Seq<char>| expanded(trim(d), home),
    )
}

/// The entries of a `PATH` value, as `path_entries_of` describes them.
pub fn path_entries(path_env: &str, os: &str, home: Option<&str>) -> (r: Vec<String>)
    ensures
        views(r@) == path_entries_of(path_env@, os@, match home {
            Some(h) => Some(h@),
            None => None,
        }),
{
    let ghost hv = match home {
        Some(h) => Some(h@),
        None => None,
    };
    let sep = path_separator(os);
    let parts = split_char_str(path_env, sep);
    let ghost all = views(parts@);
    let ghost nonempty = |d: Seq<char>| d.len() > 0;
    let ghost f = |d: Seq<char>| expanded(trim(d), hv);
    let mut out: Vec<String> = Vec::new();
    let mut i: usize = 0;
    while i < parts.len()
        invariant
            i <= parts@.len(),
            all == views(parts@),
            all == split_char(path_env@, separator_of(os@)),
            nonempty == (|d: Seq<char>| d.len() > 0),
            f == (|d: Seq<char>| expanded(trim(d), hv)),
            hv == (match home {
                Some(h) => Some(h@),
                None => None::<Seq<char>>,
            }),
            views(out@) == all.take(i as int).filter(nonempty).map_values(f),
        decreases parts@.len() - i,
    {
        proof {
            reveal_with_fuel(Seq::<Seq<char>>::filter, 1);
            assert(all.take(i + 1).drop_last() =~= all.take(i as int));
            assert(parts@[i as int]@ == all[i as int]);
        }
        let part = parts[i].as_str();
        if !part.is_empty() {
            let t = trim_str(part);
            let e = expand_path_vars(t.as_str(), home);
            let ghost before = views(out@);
            out.push(e);
            assert(views(out@) =~= before.push(e@));
            assert(e@ == f(all[i as int]));
            assert(all.take(i + 1).filter(nonempty) =~= all.take(i as int).filter(nonempty).push(all[i as int]));
            assert(views(out@) =~= all.take(i + 1).filter(nonempty).map_values(f));
        } else {
            assert(all.take(i + 1).filter(nonempty) =~= all.take(i as int).filter(nonempty));
        }
        i += 1;
    }
    assert(all.take(parts@.len() as int) =~= all);
    out
}

/// Whether one of the (normalised) `PATH` entries is the executable's
/// directory or the Cargo `bin` directory.
pub fn lpm_in_path(entries: &Vec<String>, exe_dir: &str, cargo_bin: &str) -> (b: bool)
    ensures
        b == exists|i: int| 0 <= i < entries@.len() && (entries@[i]@ == exe_dir@ || entries@[i]@ == cargo_bin@),
{
    let mut i: usize = 0;
    while i < entries.len()
        invariant
            i <= entries@.len(),
            forall|j: int| 0 <= j < i ==> !(entries@[j]@ == exe_dir@ || entries@[j]@ == cargo_bin@),
        decreases entries@.len() - i,
    {
        if eq_str(entries[i].as_str(), exe_dir) || eq_str(entries[i].as_str(), cargo_bin) {
            return true;
        }
        i += 1;
    }
    false
}

/// Where the `lpm` executable stands with respect to `PATH`.
#[derive(Debug, Clone, Copy, PartialEq, Eq, Structural)]
pub enum PathStatus {
    /// A `PATH` entry names its directory or the Cargo `bin` directory.
    InPath,
    /// It was installed by Cargo, but Cargo's `bin` is not on `PATH`.
    MissingFromPath,
    /// It runs from somewhere else; nothing is suggested.
    Elsewhere,
}

/// The standing of the executable: in `PATH` if an entry matches; else
/// missing when it lives in the Cargo `bin` directory; else elsewhere.
pub open spec fn path_status_of(in_path: bool, exe_dir: Seq<char>, cargo_bin: Seq<char>, under_cargo: bool) -> PathStatus {
    if in_path {
        PathStatus::InPath
    } else if exe_dir == cargo_bin || under_cargo {
        PathStatus::MissingFromPath
    } else {
        PathStatus::Elsewhere
    }
}

/// Decides where the executable stands, from the normalised `PATH` entries,
/// the normalised executable directory and Cargo `bin`, and the executable's
/// and Cargo `bin`'s paths as they are.
pub fn path_status(
    entries: &Vec<String>,
    exe_dir: &str,
    cargo_bin: &str,
    current_exe: &str,
    cargo_bin_path: &str,
) -> (s: PathStatus)
    ensures
        s == path_status_of(
            exists|i: int| 0 <= i < entries@.len() && (entries@[i]@ == exe_dir@ || entries@[i]@ == cargo_bin@),
            exe_dir@,
            cargo_bin@,
            path_has_prefix(current_exe@, cargo_bin_path@),
        ),
{
    if lpm_in_path(entries, exe_dir, cargo_bin) {
        PathStatus::InPath
    } else if eq_str(exe_dir, cargo_bin) || path_starts_with(current_exe, cargo_bin_path) {
        PathStatus::MissingFromPath
    } else {
        PathStatus::Elsewhere
    }
}

/// The advice printed when Cargo's `bin` is not on `PATH`, line by line.
pub open spec fn path_advice_lines(os: Seq<char>, profile: Seq<char>, cargo_bin: Seq<char>, current_exe: Seq<char>) -> Seq<Seq<char>> {
    let head = seq!["\n⚠️  LPM is not in your PATH"@, "\nTo add LPM to your PATH:"@];
    let body = if os == "windows"@ {
        seq![
            "  1. Open System Properties > Environment Variables"@,
            "  2. Add "@ + cargo_bin + " to your PATH"@,
            "\nOr run this in PowerShell (as Administrator):"@,
            "  [Environment]::SetEnvironmentVariable(\"Path\", $env:Path + \";"@ + cargo_bin + "\", \"User\")"@,
        ]
    } else {
        seq![
            "  Add this line to your "@ + profile + ":"@,
            "  export PATH=\"$HOME/.cargo/bin:$PATH\""@,
            "\nOr run this command:"@,
            "  echo 'export PATH=\"$HOME/.cargo/bin:$PATH\"' >> "@ + profile,
            "\nThen reload your shell:"@,
            "  source "@ + profile,
        ]
    };
    head + body + seq!["\nCurrent LPM location: "@ + current_exe]
}

/// The advice for a user whose Cargo `bin` is not on `PATH`.
pub fn path_advice(os: &str, profile: &str, cargo_bin: &str, current_exe: &str) -> (r: Vec<String>)
    ensures
        views(r@) == path_advice_lines(os@, profile@, cargo_bin@, current_exe@),
{
    let mut r: Vec<String> = Vec::new();
    r.push(owned("\n⚠️  LPM is not in your PATH"));
    r.push(owned("\nTo add LPM to your PATH:"));
    if eq_str(os, "windows") {
        r.push(owned("  1. Open System Properties > Environment Variables"));
        r.push(concat3("  2. Add ", cargo_bin, " to your PATH"));
        r.push(owned("\nOr run this in PowerShell (as Administrator):"));
        r.push(concat3(
            "  [Environment]::SetEnvironmentVariable(\"Path\", $env:Path + \";",
            cargo_bin,
            "\", \"User\")",
        ));
    } else {
        r.push(concat3("  Add this line to your ", profile, ":"));
        r.push(owned("  export PATH=\"$HOME/.cargo/bin:$PATH\""));
        r.push(owned("\nOr run this command:"));
        r.push(concat2("  echo 'export PATH=\"$HOME/.cargo/bin:$PATH\"' >> ", profile));
        r.push(owned("\nThen reload your shell:"));
        r.push(concat2("  source ", profile));
    }
    r.push(concat2("\nCurrent LPM location: ", current_exe));
    assert(views(r@) =~= path_advice_lines(os@, profile@, cargo_bin@, current_exe@));
    r
}

/// Whether a shell profile already puts Cargo's `bin` on `PATH`.
pub fn profile_has_cargo_path(content: &str) -> (b: bool)
    ensures
        b == (contains(content@, "$HOME/.cargo/bin"@) || contains(content@, ".cargo/bin"@)),
{
    contains_str(content, "$HOME/.cargo/bin") || contains_str(content, ".cargo/bin")
}

/// The profile file with `~` replaced by the home directory.
pub fn profile_path(profile: &str, home: &str) -> (r: String)
    ensures
        r@ == replace_pat(profile@, "~"@, home@),
{
    proof {
        reveal_strlit("~");
    }
    replace_str(profile, "~", home)
}

} // verus!
