//! Switching between installed Lua versions: where the versions live, the
//! file that names the current one, and the answers of each request.

use vstd::prelude::*;
use crate::error::{LpmError, LpmResult};
use crate::order::{sort_texts, sorted_texts};
use crate::path::{join, join_path};
use crate::text::{concat2, concat3, eq_str, join as join_texts, join_strings, owned, trim, trim_str, views};

verus! {

/// Where installed Lua versions are kept (`versions` in the LPM home) and
/// the file that names the current one (`current`).
#[derive(Debug)]
pub struct VersionSwitcher {
    pub versions_dir: String,
    pub current_file: String,
}

/// The message for a version that is not installed, naming those that are.
pub open spec fn not_installed_message(version: Seq<char>, installed: Seq<Seq<char>>) -> Seq<char> {
    "Lua "@ + version + " is not installed.\nInstalled versions: "@ + join_texts(installed, ", "@)
        + "\nRun: lpm lua install "@ + version
}

/// The message when no version is selected.
pub open spec fn no_current_message() -> Seq<char> {
    "No Lua version is currently selected.\nRun: lpm lua use <version>"@
}

/// The message when the current-version file names nothing.
pub open spec fn empty_current_message() -> Seq<char> {
    "Current version file is empty.\nRun: lpm lua use <version>"@
}

impl VersionSwitcher {
    /// A switcher over an LPM home directory.
    pub fn new(lpm_home: &str) -> (s: Self)
        ensures
            s.versions_dir@ == join_path(lpm_home@, "versions"@),
            s.current_file@ == join_path(lpm_home@, "current"@),
    {
        VersionSwitcher { versions_dir: join(lpm_home, "versions"), current_file: join(lpm_home, "current") }
    }

    /// The directory of an installed version.
    pub fn version_dir(&self, version: &str) -> (r: String)
        ensures
            r@ == join_path(self.versions_dir@, version@),
    {
        join(self.versions_dir.as_str(), version)
    }

    /// The `lua` binary of an installed version: `bin/lua` in its directory.
    pub fn lua_binary(&self, version: &str) -> (r: String)
        ensures
            r@ == join_path(join_path(join_path(self.versions_dir@, version@), "bin"@), "lua"@),
    {
        let d = self.version_dir(version);
        let b = join(d.as_str(), "bin");
        join(b.as_str(), "lua")
    }

    /// The error for switching to a version that is not installed.
    pub fn not_installed_error(version: &str, installed: &Vec<String>) -> (e: LpmError)
        ensures
            e matches LpmError::Package(m) && m@ == not_installed_message(version@, views(installed@)),
    {
        let list = join_strings(installed, ", ");
        let a = concat3("Lua ", version, " is not installed.\nInstalled versions: ");
        let b = concat3(a.as_str(), list.as_str(), "\nRun: lpm lua install ");
        LpmError::Package(concat2(b.as_str(), version))
    }

    /// The error for a version whose directory lacks its `lua` binary.
    pub fn incomplete_error(version: &str) -> (e: LpmError)
        ensures
            e matches LpmError::Package(m) && m@ == "Lua "@ + version@
                + " installation is incomplete (missing lua binary)"@,
    {
        LpmError::Package(concat3("Lua ", version, " installation is incomplete (missing lua binary)"))
    }

    /// The content written to the current-version file (and to a project's
    /// `.lua-version`): the version and a newline.
    pub fn version_file_content(version: &str) -> (r: String)
        ensures
            r@ == version@ + "\n"@,
    {
        concat2(version, "\n")
    }

    /// The error for a project version that is not installed.
    pub fn local_not_installed_error(version: &str) -> (e: LpmError)
        ensures
            e matches LpmError::Package(m) && m@ == "Lua "@ + version@ + " is not installed. Run: lpm lua install "@
                + version@,
    {
        let a = concat3("Lua ", version, " is not installed. Run: lpm lua install ");
        LpmError::Package(concat2(a.as_str(), version))
    }

    /// The current version as the current-version file names it, given the
    /// file's content when it exists: the trimmed content, unless there is
    /// no file or it names nothing.
    pub fn current_from(content: Option<&str>) -> (r: LpmResult<String>)
        ensures
            match content {
                None => r matches Err(e) && e matches LpmError::Package(m) && m@ == no_current_message(),
                Some(c) => if trim(c@).len() == 0 {
                    r matches Err(e) && e matches LpmError::Package(m) && m@ == empty_current_message()
                } else {
                    r matches Ok(v) && v@ == trim(c@)
                },
            },
    {
        match content {
            None => Err(LpmError::Package(owned("No Lua version is currently selected.\nRun: lpm lua use <version>"))),
            Some(c) => {
                let v = trim_str(c);
                if v.as_str().is_empty() {
                    Err(LpmError::Package(owned("Current version file is empty.\nRun: lpm lua use <version>")))
                } else {
                    Ok(v)
                }
            },
        }
    }

    /// The current version, given whether its version directory (see
    /// `version_dir`) is present: the version when it is, the error that it
    /// is no longer installed when it is not.
    pub fn installed_current(version: String, installed: bool) -> (r: LpmResult<String>)
        ensures
            installed ==> (r matches Ok(v) && v@ == version@),
            !installed ==> (r matches Err(e) && e matches LpmError::Package(m) && m@ == "Current version "@
                + version@ + " is no longer installed.\nRun: lpm lua use <version>"@),
    {
        if installed {
            Ok(version)
        } else {
            Err(Self::no_longer_installed_error(version.as_str()))
        }
    }

    /// The error for a current version whose directory is gone.
    pub fn no_longer_installed_error(version: &str) -> (e: LpmError)
        ensures
            e matches LpmError::Package(m) && m@ == "Current version "@ + version@
                + " is no longer installed.\nRun: lpm lua use <version>"@,
    {
        LpmError::Package(concat3("Current version ", version, " is no longer installed.\nRun: lpm lua use <version>"))
    }

    /// The installed versions, from the names of the version directories
    /// that hold a `lua` binary, sorted.
    pub fn sorted_versions(names: Vec<String>) -> (r: Vec<String>)
        ensures
            sorted_texts(views(r@)),
            views(r@).to_multiset() == views(names@).to_multiset(),
    {
        sort_texts(names)
    }

    /// Checks that a switch took effect: the current version is the one
    /// switched to.
    pub fn verify_switch(expected: &str, actual: &str) -> (r: LpmResult<()>)
        ensures
            expected@ == actual@ ==> r is Ok,
            expected@ != actual@ ==> (r matches Err(e) && e matches LpmError::Package(m) && m@
                == "Version switch verification failed: expected "@ + expected@ + ", got "@ + actual@),
    {
        if eq_str(expected, actual) {
            Ok(())
        } else {
            let a = concat3("Version switch verification failed: expected ", expected, ", got ");
            Err(LpmError::Package(concat2(a.as_str(), actual)))
        }
    }

    /// Whether a version may be uninstalled: it must be installed and not
    /// the active one.
    pub fn check_uninstall(version: &str, installed: bool, current: Option<&str>) -> (r: LpmResult<()>)
        ensures
            !installed ==> (r matches Err(e) && e matches LpmError::Package(m) && m@ == "Lua "@ + version@
                + " is not installed."@),
            installed && (current matches Some(c) && c@ == version@) ==> (r matches Err(e) && e matches LpmError::Package(m)
                && m@ == "Cannot uninstall Lua "@ + version@
                + " because it is currently active.\nSwitch to another version first: lpm lua use <version>"@),
            installed && !(current matches Some(c) && c@ == version@) ==> r is Ok,
    {
        if !installed {
            return Err(LpmError::Package(concat3("Lua ", version, " is not installed.")));
        }
        match current {
            Some(c) => {
                if eq_str(c, version) {
                    return Err(LpmError::Package(concat3(
                        "Cannot uninstall Lua ",
                        version,
                        " because it is currently active.\nSwitch to another version first: lpm lua use <version>",
                    )));
                }
            },
            None => {},
        }
        Ok(())
    }
}

} // verus!
