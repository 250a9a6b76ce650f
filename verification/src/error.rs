//! The library's error type, its messages, and the suggestions shown with it.

use vstd::prelude::*;
use crate::text::{concat2, contains, contains_str, owned};

verus! {

/// The class of an input/output failure, as far as suggestions tell them apart.
#[derive(Debug, Clone, Copy, PartialEq, Eq, Structural)]
pub enum IoErrorKind {
    NotFound,
    PermissionDenied,
    Other,
}

/// An input/output failure: its class and its message.
#[derive(Debug, Clone)]
pub struct IoFailure {
    pub kind: IoErrorKind,
    pub message: String,
}

/// A failed HTTP request: whether it timed out, whether connecting failed, and
/// its message.
#[derive(Debug, Clone)]
pub struct HttpFailure {
    pub timeout: bool,
    pub connect: bool,
    pub message: String,
}

/// Errors of the package manager.
#[derive(Debug, Clone)]
pub enum LpmError {
    Io(IoFailure),
    Yaml(String),
    Http(HttpFailure),
    Path(String),
    Config(String),
    Package(String),
    Version(String),
    Cache(String),
    NotImplemented(String),
    LuaRocks(String),
    Lua(String),
    WalkDir(String),
}

pub type LpmResult<T> = Result<T, LpmError>;

/// The text an error displays.
pub open spec fn error_message(e: LpmError) -> Seq<char> {
    match e {
        LpmError::Io(f) => "IO error: "@ + f.message@,
        LpmError::Yaml(m) => "YAML parsing error: "@ + m@,
        LpmError::Http(f) => "HTTP error: "@ + f.message@,
        LpmError::Path(m) => "Path error: "@ + m@,
        LpmError::Config(m) => "Configuration error: "@ + m@,
        LpmError::Package(m) => "Package error: "@ + m@,
        LpmError::Version(m) => "Version error: "@ + m@,
        LpmError::Cache(m) => "Cache error: "@ + m@,
        LpmError::NotImplemented(m) => "Not implemented: "@ + m@,
        LpmError::LuaRocks(m) => "LuaRocks error: "@ + m@,
        LpmError::Lua(m) => "Lua error: "@ + m@,
        LpmError::WalkDir(m) => "WalkDir error: "@ + m@,
    }
}

pub open spec fn init_hint() -> Seq<char> {
    "💡 Suggestion: Run 'lpm init' to create a new project, or navigate to a directory with package.yaml"@
}

pub open spec fn connection_hint() -> Seq<char> {
    "💡 Suggestion: Check your internet connection, or verify the LuaRocks server is accessible"@
}

pub open spec fn yaml_hint_head() -> Seq<char> {
    "💡 Suggestion: Check your YAML syntax. Common issues:\n  - Missing colons after keys\n  - Incorrect indentation\n  - Unclosed quotes\n  - Invalid characters\n\nError details: "@
}

/// The suggestion shown with an error, if there is one.
pub open spec fn error_help(e: LpmError) -> Option<Seq<char>> {
    match e {
        LpmError::Package(m) => if contains(m@, "package.yaml not found"@) {
            Some(init_hint())
        } else if contains(m@, "not found in manifest"@) {
            Some("💡 Suggestion: Check the package name spelling, or verify the package exists on LuaRocks"@)
        } else if contains(m@, "lua_modules directory not found"@) {
            Some("💡 Suggestion: Run 'lpm install' to install dependencies first"@)
        } else if contains(m@, "Circular dependencies"@) {
            Some("💡 Suggestion: Review your dependencies and remove circular references"@)
        } else if contains(m@, "Version conflict"@) {
            Some("💡 Suggestion: Update package versions to resolve conflicts, or use 'lpm update' to find compatible versions"@)
        } else {
            None
        },
        LpmError::Version(m) => if contains(m@, "Invalid version format"@) {
            Some("💡 Suggestion: Use SemVer format (e.g., '1.2.3', '^1.2.3', '~1.2.3', '>=1.2.3')"@)
        } else if contains(m@, "no version satisfies"@) {
            Some("💡 Suggestion: Try a different version constraint, or check available versions with 'lpm list'"@)
        } else {
            None
        },
        LpmError::Path(m) => if contains(m@, "Could not find package.yaml"@) {
            Some(init_hint())
        } else if contains(m@, "Could not determine"@) {
            Some("💡 Suggestion: Check your system environment variables (HOME, APPDATA, etc.)"@)
        } else {
            None
        },
        LpmError::Yaml(m) => Some(yaml_hint_head() + m@),
        LpmError::Http(f) => if f.timeout {
            Some("💡 Suggestion: Check your internet connection, or try again later"@)
        } else if f.connect {
            Some("💡 Suggestion: Check your internet connection and firewall settings"@)
        } else {
            Some(connection_hint())
        },
        LpmError::Io(f) => match f.kind {
            IoErrorKind::PermissionDenied => Some(
                "💡 Suggestion: Check file permissions, or try running with appropriate permissions"@,
            ),
            IoErrorKind::NotFound => Some(
                "💡 Suggestion: The file or directory may not exist. Check the path and try again"@,
            ),
            IoErrorKind::Other => None,
        },
        LpmError::LuaRocks(m) => if contains(m@, "Failed to fetch"@) {
            Some(connection_hint())
        } else {
            None
        },
        _ => None,
    }
}

/// The text shown for an error followed by its suggestion, if any.
pub open spec fn error_with_help(e: LpmError) -> Seq<char> {
    let head = "❌ Error: "@ + error_message(e);
    match error_help(e) {
        Some(h) => head + "\n\n"@ + h,
        None => head,
    }
}

impl LpmError {
    /// The text this error displays.
    pub fn to_string(&self) -> (r: String)
        ensures
            r@ == error_message(*self),
    {
        match self {
            LpmError::Io(f) => concat2("IO error: ", f.message.as_str()),
            LpmError::Yaml(m) => concat2("YAML parsing error: ", m.as_str()),
            LpmError::Http(f) => concat2("HTTP error: ", f.message.as_str()),
            LpmError::Path(m) => concat2("Path error: ", m.as_str()),
            LpmError::Config(m) => concat2("Configuration error: ", m.as_str()),
            LpmError::Package(m) => concat2("Package error: ", m.as_str()),
            LpmError::Version(m) => concat2("Version error: ", m.as_str()),
            LpmError::Cache(m) => concat2("Cache error: ", m.as_str()),
            LpmError::NotImplemented(m) => concat2("Not implemented: ", m.as_str()),
            LpmError::LuaRocks(m) => concat2("LuaRocks error: ", m.as_str()),
            LpmError::Lua(m) => concat2("Lua error: ", m.as_str()),
            LpmError::WalkDir(m) => concat2("WalkDir error: ", m.as_str()),
        }
    }
}

/// Provides helpful suggestions for common errors.
pub trait ErrorHelp {
    fn help(&self) -> Option<String>;
}

impl ErrorHelp for LpmError {
    fn help(&self) -> (r: Option<String>)
        ensures
            r matches Some(s) ==> error_help(*self) == Some(s@),
            r is None ==> error_help(*self) is None,
    {
        match self {
            LpmError::Package(m) => {
                if contains_str(m.as_str(), "package.yaml not found") {
                    Some(owned("💡 Suggestion: Run 'lpm init' to create a new project, or navigate to a directory with package.yaml"))
                } else if contains_str(m.as_str(), "not found in manifest") {
                    Some(owned("💡 Suggestion: Check the package name spelling, or verify the package exists on LuaRocks"))
                } else if contains_str(m.as_str(), "lua_modules directory not found") {
                    Some(owned("💡 Suggestion: Run 'lpm install' to install dependencies first"))
                } else if contains_str(m.as_str(), "Circular dependencies") {
                    Some(owned("💡 Suggestion: Review your dependencies and remove circular references"))
                } else if contains_str(m.as_str(), "Version conflict") {
                    Some(owned("💡 Suggestion: Update package versions to resolve conflicts, or use 'lpm update' to find compatible versions"))
                } else {
                    None
                }
            },
            LpmError::Version(m) => {
                if contains_str(m.as_str(), "Invalid version format") {
                    Some(owned("💡 Suggestion: Use SemVer format (e.g., '1.2.3', '^1.2.3', '~1.2.3', '>=1.2.3')"))
                } else if contains_str(m.as_str(), "no version satisfies") {
                    Some(owned("💡 Suggestion: Try a different version constraint, or check available versions with 'lpm list'"))
                } else {
                    None
                }
            },
            LpmError::Path(m) => {
                if contains_str(m.as_str(), "Could not find package.yaml") {
                    Some(owned("💡 Suggestion: Run 'lpm init' to create a new project, or navigate to a directory with package.yaml"))
                } else if contains_str(m.as_str(), "Could not determine") {
                    Some(owned("💡 Suggestion: Check your system environment variables (HOME, APPDATA, etc.)"))
                } else {
                    None
                }
            },
            LpmError::Yaml(m) => Some(concat2(
                "💡 Suggestion: Check your YAML syntax. Common issues:\n  - Missing colons after keys\n  - Incorrect indentation\n  - Unclosed quotes\n  - Invalid characters\n\nError details: ",
                m.as_str(),
            )),
            LpmError::Http(f) => {
                if f.timeout {
                    Some(owned("💡 Suggestion: Check your internet connection, or try again later"))
                } else if f.connect {
                    Some(owned("💡 Suggestion: Check your internet connection and firewall settings"))
                } else {
                    Some(owned("💡 Suggestion: Check your internet connection, or verify the LuaRocks server is accessible"))
                }
            },
            LpmError::Io(f) => match f.kind {
                IoErrorKind::PermissionDenied => Some(owned("💡 Suggestion: Check file permissions, or try running with appropriate permissions")),
                IoErrorKind::NotFound => Some(owned("💡 Suggestion: The file or directory may not exist. Check the path and try again")),
                IoErrorKind::Other => None,
            },
            LpmError::LuaRocks(m) => {
                if contains_str(m.as_str(), "Failed to fetch") {
                    Some(owned("💡 Suggestion: Check your internet connection, or verify the LuaRocks server is accessible"))
                } else {
                    None
                }
            },
            _ => None,
        }
    }
}

/// Format an error with helpful suggestions.
pub fn format_error_with_help(error: &LpmError) -> (r: String)
    ensures
        r@ == error_with_help(*error),
{
    let mut output = concat2("❌ Error: ", error.to_string().as_str());
    if let Some(help) = error.help() {
        output.append("\n\n");
        output.append(help.as_str());
    }
    output
}

} // verus!
