//! The subcommands of the command line, as values.

use vstd::prelude::*;

verus! {

/// Managing Lua versions.
#[derive(Debug, Clone, PartialEq, Eq)]
pub enum LuaCommands {
    /// List installed Lua versions.
    List,
    /// List the versions available for installation.
    ListRemote,
    /// Install a version (`5.4.8`, `latest`, `5.4`).
    Install { version: String },
    /// Switch to a version globally.
    Use { version: String },
    /// Set the version of the current project (`.lua-version`).
    Local { version: String },
    /// Show the active version.
    Current,
    /// Show which version will be used.
    Which,
    /// Uninstall a version.
    Uninstall { version: String },
    /// Run a command with a version.
    Exec { version: String, command: Vec<String> },
}

/// Managing templates.
#[derive(Debug, Clone, PartialEq, Eq)]
pub enum TemplateCommands {
    /// List templates, optionally filtered by a search query.
    List { search: Option<String> },
    /// Make a template of the current directory.
    Create { name: String, description: Option<String> },
}

/// Plugin configuration.
#[derive(Debug, Clone, PartialEq, Eq)]
pub enum ConfigSubcommand {
    Get { plugin: String, key: String },
    SetValue { plugin: String, key: String, value: String },
    Show { plugin: String },
}

/// Managing plugins.
#[derive(Debug, Clone, PartialEq, Eq)]
pub enum PluginSubcommand {
    List,
    Info { name: String },
    /// Update the named plugins, or all of them.
    Update { names: Option<Vec<String>> },
    Outdated,
    Search { query: Option<String> },
    Config { command: ConfigSubcommand },
}

/// The `plugin` command.
#[derive(Debug, Clone, PartialEq, Eq)]
pub struct PluginCommands {
    pub command: PluginSubcommand,
}

} // verus!
