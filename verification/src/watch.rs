//! Watch mode: which file changes restart the commands or reload the
//! browser, the configuration read from `package.yaml` and the command
//! line, and how each command is started.

use vstd::prelude::*;
use crate::error::{LpmError, LpmResult};
use crate::path::{extension, extension_of, join, join_path};
use crate::text::{
    concat2, concat3, ends_with, ends_with_str, eq_str, join as join_texts, join_strings, owned, views, words, words_of,
};

verus! {

/// Action to take when a file type changes.
#[derive(Debug, Clone, Copy, PartialEq, Eq, Structural)]
pub enum FileAction {
    /// Restart the commands.
    Restart,
    /// Reload the browser through the WebSocket.
    Reload,
    /// No action.
    Ignore,
}

/// The action a handler name stands for: `reload` and `ignore` as named,
/// anything else a restart.
pub open spec fn action_named(name: Seq<char>) -> FileAction {
    if name == "reload"@ {
        FileAction::Reload
    } else if name == "ignore"@ {
        FileAction::Ignore
    } else {
        FileAction::Restart
    }
}

/// The name of an action, in lower case.
pub open spec fn name_of_action(a: FileAction) -> Seq<char> {
    match a {
        FileAction::Restart => "restart"@,
        FileAction::Reload => "reload"@,
        FileAction::Ignore => "ignore"@,
    }
}

impl FileAction {
    /// The action a handler name stands for.
    pub fn from_name(name: &str) -> (a: Self)
        ensures
            a == action_named(name@),
    {
        if eq_str(name, "restart") {
            proof {
                reveal_strlit("restart");
                reveal_strlit("reload");
                reveal_strlit("ignore");
                assert("restart"@ != "reload"@ && "restart"@ != "ignore"@) by {
                    assert("restart"@[2] != "reload"@[2]);
                    assert("restart"@[0] != "ignore"@[0]);
                }
            }
            FileAction::Restart
        } else if eq_str(name, "reload") {
            FileAction::Reload
        } else if eq_str(name, "ignore") {
            FileAction::Ignore
        } else {
            FileAction::Restart
        }
    }

    /// The lower-case name of the action.
    pub fn name(&self) -> (r: &'static str)
        ensures
            r@ == name_of_action(*self),
    {
        match self {
            FileAction::Restart => "restart",
            FileAction::Reload => "reload",
            FileAction::Ignore => "ignore",
        }
    }
}

/// The action of the first handler for an extension, if any.
pub open spec fn handler_for(hs: Seq<(Seq<char>, FileAction)>, ext: Seq<char>) -> Option<FileAction>
    decreases hs.len(),
{
    if hs.len() == 0 {
        None
    } else if hs[0].0 == ext {
        Some(hs[0].1)
    } else {
        handler_for(hs.drop_first(), ext)
    }
}

/// The handlers as extension texts and actions.
pub open spec fn handler_views(hs: Seq<(String, FileAction)>) -> Seq<(Seq<char>, FileAction)> {
    hs.map_values(|h: (String, FileAction)| (h.0@, h.1))
}

/// The action handling an extension.
pub fn handler_get(hs: &Vec<(String, FileAction)>, ext: &str) -> (r: Option<FileAction>)
    ensures
        r == handler_for(handler_views(hs@), ext@),
{
    let ghost hv = handler_views(hs@);
    let mut i: usize = 0;
    assert(hv.skip(0) =~= hv);
    while i < hs.len()
        invariant
            i <= hs@.len(),
            hv == handler_views(hs@),
            handler_for(hv, ext@) == handler_for(hv.skip(i as int), ext@),
        decreases hs@.len() - i,
    {
        assert(hv.skip(i as int)[0] == hv[i as int]);
        assert(hv.skip(i as int).drop_first() =~= hv.skip(i + 1));
        if eq_str(hs[i].0.as_str(), ext) {
            return Some(hs[i].1);
        }
        i += 1;
    }
    None
}

/// Sets the action of an extension: the handler for it is replaced, or a
/// new one is added at the end.
pub fn handler_insert(hs: &mut Vec<(String, FileAction)>, ext: String, action: FileAction)
    ensures
        handler_for(handler_views(final(hs)@), ext@) == Some(action),
        forall|k: Seq<char>| k != ext@ ==> handler_for(handler_views(final(hs)@), k) == handler_for(
            handler_views(old(hs)@),
            k,
        ),
{
    let ghost old_v = handler_views(hs@);
    let mut i: usize = 0;
    while i < hs.len()
        invariant
            i <= hs@.len(),
            hs@ == old(hs)@,
            old_v == handler_views(hs@),
            forall|j: int| 0 <= j < i ==> hs@[j].0@ != ext@,
        decreases hs@.len() - i,
    {
        if eq_str(hs[i].0.as_str(), ext.as_str()) {
            let key = hs[i].0.clone();
            hs.set(i, (key, action));
            proof {
                let nv = handler_views(hs@);
                assert(nv =~= old_v.update(i as int, (ext@, action)));
                lemma_handler_update(old_v, i as int, ext@, action);
            }
            return;
        }
        i += 1;
    }
    let ghost k0 = ext@;
    hs.push((ext, action));
    proof {
        let nv = handler_views(hs@);
        assert(nv =~= old_v.push((k0, action)));
        lemma_handler_push(old_v, k0, action);
    }
}

proof fn lemma_handler_update(hs: Seq<(Seq<char>, FileAction)>, i: int, ext: Seq<char>, a: FileAction)
    requires
        0 <= i < hs.len(),
        hs[i].0 == ext,
        forall|j: int| 0 <= j < i ==> hs[j].0 != ext,
    ensures
        handler_for(hs.update(i, (ext, a)), ext) == Some(a),
        forall|k: Seq<char>| k != ext ==> handler_for(hs.update(i, (ext, a)), k) == handler_for(hs, k),
    decreases hs.len(),
{
    let nv = hs.update(i, (ext, a));
    if i > 0 {
        assert(nv.drop_first() =~= hs.drop_first().update(i - 1, (ext, a)));
        lemma_handler_update(hs.drop_first(), i - 1, ext, a);
        assert(nv[0] == hs[0]);
        assert(hs[0].0 != ext);
        assert forall|k: Seq<char>| k != ext implies handler_for(nv, k) == handler_for(hs, k) by {
            if hs[0].0 != k {
                assert(handler_for(nv, k) == handler_for(nv.drop_first(), k));
                assert(handler_for(hs, k) == handler_for(hs.drop_first(), k));
            }
        }
    } else {
        assert(nv.drop_first() =~= hs.drop_first());
        assert forall|k: Seq<char>| k != ext implies handler_for(nv, k) == handler_for(hs, k) by {
            assert(handler_for(nv, k) == handler_for(nv.drop_first(), k));
            assert(handler_for(hs, k) == handler_for(hs.drop_first(), k));
        }
    }
}

proof fn lemma_handler_push(hs: Seq<(Seq<char>, FileAction)>, ext: Seq<char>, a: FileAction)
    requires
        forall|j: int| 0 <= j < hs.len() ==> hs[j].0 != ext,
    ensures
        handler_for(hs.push((ext, a)), ext) == Some(a),
        forall|k: Seq<char>| k != ext ==> handler_for(hs.push((ext, a)), k) == handler_for(hs, k),
    decreases hs.len(),
{
    let nv = hs.push((ext, a));
    if hs.len() > 0 {
        assert(nv.drop_first() =~= hs.drop_first().push((ext, a)));
        lemma_handler_push(hs.drop_first(), ext, a);
        assert(nv[0] == hs[0]);
        assert(hs[0].0 != ext);
        assert forall|k: Seq<char>| k != ext implies handler_for(nv, k) == handler_for(hs, k) by {
            if hs[0].0 != k {
                assert(handler_for(nv, k) == handler_for(nv.drop_first(), k));
                assert(handler_for(hs, k) == handler_for(hs.drop_first(), k));
            }
        }
    } else {
        assert(nv.drop_first() =~= Seq::<(Seq<char>, FileAction)>::empty());
        assert forall|k: Seq<char>| k != ext implies handler_for(nv, k) == handler_for(hs, k) by {
            assert(handler_for(nv, k) == handler_for(nv.drop_first(), k));
        }
    }
}

/// The handlers of a watch by default: Lua and YAML files restart the
/// commands; HTML, CSS and JavaScript reload the browser.
pub open spec fn default_handlers() -> Seq<(Seq<char>, FileAction)> {
    seq![
        ("lua"@, FileAction::Restart),
        ("yaml"@, FileAction::Restart),
        ("yml"@, FileAction::Restart),
        ("html"@, FileAction::Reload),
        ("css"@, FileAction::Reload),
        ("js"@, FileAction::Reload),
    ]
}

/// The ignore patterns of a watch by default.
pub open spec fn default_ignore() -> Seq<Seq<char>> {
    seq!["lua_modules/**"@, "**/*_test.lua"@, "**/*.swp"@, "**/.git/**"@]
}

/// Configuration for watch mode.
#[derive(Debug)]
pub struct WatchConfig {
    /// Commands to run (several run side by side).
    pub commands: Vec<Vec<String>>,
    /// Paths to watch.
    pub paths: Vec<String>,
    /// Glob patterns of paths to ignore.
    pub ignore: Vec<String>,
    /// Clear the screen on restart.
    pub clear: bool,
    /// Debounce delay in milliseconds.
    pub debounce_ms: u64,
    /// What a change of each file extension does.
    pub file_handlers: Vec<(String, FileAction)>,
    /// WebSocket port (0: disabled).
    pub websocket_port: u16,
}

/// The commands as texts.
pub open spec fn command_views(cs: Seq<Vec<String>>) -> Seq<Seq<Seq<char>>> {
    cs.map_values(|c: Vec<String>| views(c@))
}

fn default_handler_table() -> (r: Vec<(String, FileAction)>)
    ensures
        handler_views(r@) == default_handlers(),
{
    let r = vec![
        (owned("lua"), FileAction::Restart),
        (owned("yaml"), FileAction::Restart),
        (owned("yml"), FileAction::Restart),
        (owned("html"), FileAction::Reload),
        (owned("css"), FileAction::Reload),
        (owned("js"), FileAction::Reload),
    ];
    assert(handler_views(r@) =~= default_handlers());
    r
}

fn default_command() -> (r: Vec<Vec<String>>)
    ensures
        command_views(r@) == seq![seq!["lua"@, "src/main.lua"@]],
{
    let c = vec![owned("lua"), owned("src/main.lua")];
    assert(views(c@) =~= seq!["lua"@, "src/main.lua"@]);
    let r = vec![c];
    assert(command_views(r@) =~= seq![seq!["lua"@, "src/main.lua"@]]);
    r
}

impl Default for WatchConfig {
    fn default() -> (c: Self)
        ensures
            command_views(c.commands@) == seq![seq!["lua"@, "src/main.lua"@]],
            views(c.paths@) == seq!["src"@, "lib"@],
            views(c.ignore@) == default_ignore(),
            c.clear,
            c.debounce_ms == 300,
            handler_views(c.file_handlers@) == default_handlers(),
            c.websocket_port == 0,
    {
        let paths = vec![owned("src"), owned("lib")];
        assert(views(paths@) =~= seq!["src"@, "lib"@]);
        let ignore = vec![owned("lua_modules/**"), owned("**/*_test.lua"), owned("**/*.swp"), owned("**/.git/**")];
        assert(views(ignore@) =~= default_ignore());
        WatchConfig {
            commands: default_command(),
            paths,
            ignore,
            clear: true,
            debounce_ms: 300,
            file_handlers: default_handler_table(),
            websocket_port: 0,
        }
    }
}

// ---------------------------------------------------------------------------
// Ignore patterns
// ---------------------------------------------------------------------------

/// Why a glob pattern cannot be made into a matcher, or `None` when it can
/// (`globset::Glob::new`, then `globset::GlobSetBuilder::build` of a set
/// holding that one glob, which refuses a glob whose regular expression is
/// too large).
pub uninterp spec fn glob_error(pattern: Seq<char>) -> Option<Seq<char>>;

/// Whether the matcher built from a glob pattern matches a path
/// (`globset::GlobSet::is_match` of the set holding that one glob).
pub uninterp spec fn glob_matches(pattern: Seq<char>, path: Seq<char>) -> bool;

/// Makes a glob pattern into a matcher and matches a path against it.
/// Trusted: the outcome is the function `glob_error` of the pattern and,
/// when a matcher is made, the function `glob_matches` of the pattern and
/// the path; the error is `globset::Error`'s message. Both steps report
/// failure as an error and do not panic.
#[verifier::external_body]
fn glob_match(pattern: &str, path: &str) -> (r: Result<bool, String>)
    ensures
        match r {
            Ok(b) => glob_error(pattern@) is None && b == glob_matches(pattern@, path@),
            Err(m) => glob_error(pattern@) == Some(m@),
        },
{
    let glob = match globset::Glob::new(pattern) {
        Ok(g) => g,
        Err(e) => return Err(e.to_string()),
    };
    match globset::GlobSetBuilder::new().add(glob).build() {
        Ok(set) => Ok(set.is_match(path)),
        Err(e) => Err(e.to_string()),
    }
}

/// Glob patterns of paths to ignore, each of which compiles.
#[derive(Debug)]
pub struct IgnoreSet {
    patterns: Vec<String>,
}

impl IgnoreSet {
    #[verifier::type_invariant]
    spec fn all_compile(self) -> bool {
        forall|i: int| 0 <= i < self.patterns@.len() ==> glob_error(#[trigger] self.patterns@[i]@) is None
    }

    /// The patterns.
    pub closed spec fn patterns_of(&self) -> Seq<Seq<char>> {
        views(self.patterns@)
    }

    /// The patterns, each compiled; the first that does not compile is
    /// refused with its message.
    pub fn new(patterns: &Vec<String>) -> (r: LpmResult<Self>)
        ensures
            match r {
                Ok(s) => s.patterns_of() == views(patterns@) && forall|i: int| 0 <= i < patterns@.len()
                    ==> glob_error(#[trigger] patterns@[i]@) is None,
                Err(e) => exists|i: int, m: Seq<char>| 0 <= i < patterns@.len()
                    && glob_error(patterns@[i]@) == Some(m)
                    && (forall|j: int| 0 <= j < i ==> glob_error(#[trigger] patterns@[j]@) is None)
                    && (e matches LpmError::Package(msg) && msg@ == "Invalid ignore pattern '"@ + patterns@[i]@
                    + "': "@ + m),
            },
    {
        let mut kept: Vec<String> = Vec::new();
        let mut i: usize = 0;
        while i < patterns.len()
            invariant
                i <= patterns@.len(),
                views(kept@) == views(patterns@).take(i as int),
                forall|j: int| 0 <= j < i ==> glob_error(#[trigger] patterns@[j]@) is None,
            decreases patterns@.len() - i,
        {
            match glob_match(patterns[i].as_str(), "") {
                Ok(_) => {},
                Err(m) => {
                    let a = concat3("Invalid ignore pattern '", patterns[i].as_str(), "': ");
                    return Err(LpmError::Package(concat2(a.as_str(), m.as_str())));
                },
            }
            let ghost before = views(kept@);
            kept.push(patterns[i].clone());
            assert(views(kept@) =~= before.push(patterns@[i as int]@));
            assert(views(patterns@).take(i + 1) =~= views(patterns@).take(i as int).push(patterns@[i as int]@));
            i += 1;
        }
        assert(views(patterns@).take(patterns@.len() as int) =~= views(patterns@));
        assert forall|i: int| 0 <= i < kept@.len() implies glob_error(#[trigger] kept@[i]@) is None by {
            assert(kept@[i]@ == views(kept@)[i]);
            assert(views(patterns@)[i] == patterns@[i]@);
        }
        let s = IgnoreSet { patterns: kept };
        Ok(s)
    }

    /// Whether some pattern matches a path.
    pub fn matches(&self, path: &str) -> (b: bool)
        ensures
            b == exists|i: int| 0 <= i < self.patterns_of().len() && glob_matches(#[trigger] self.patterns_of()[i], path@),
    {
        proof {
            use_type_invariant(self);
        }
        let mut i: usize = 0;
        while i < self.patterns.len()
            invariant
                i <= self.patterns@.len(),
                forall|j: int| 0 <= j < self.patterns@.len() ==> glob_error(#[trigger] self.patterns@[j]@) is None,
                forall|j: int| 0 <= j < i ==> !glob_matches(#[trigger] self.patterns_of()[j], path@),
            decreases self.patterns@.len() - i,
        {
            assert(self.patterns_of()[i as int] == self.patterns@[i as int]@);
            match glob_match(self.patterns[i].as_str(), path) {
                Ok(true) => {
                    return true;
                },
                Ok(false) => {},
                Err(_) => {
                    assert(false);
                },
            }
            i += 1;
        }
        false
    }
}

// ---------------------------------------------------------------------------
// What a change does
// ---------------------------------------------------------------------------

/// The action of one changed path: none if it is ignored; else the handler
/// of its extension; else a restart for Lua and YAML files.
pub open spec fn path_action(ignored: bool, hs: Seq<(Seq<char>, FileAction)>, path: Seq<char>) -> Option<FileAction> {
    if ignored {
        None
    } else if extension(path) matches Some(e) && handler_for(hs, e) is Some {
        handler_for(hs, extension(path)->0)
    } else if ends_with(path, ".lua"@) || ends_with(path, ".yaml"@) || ends_with(path, ".yml"@) {
        Some(FileAction::Restart)
    } else {
        None
    }
}

/// Whether some ignore pattern matches a path.
pub open spec fn ignored_by(patterns: Seq<Seq<char>>, path: Seq<char>) -> bool {
    exists|i: int| 0 <= i < patterns.len() && glob_matches(#[trigger] patterns[i], path)
}

/// The action of a batch of changed paths: that of the first path that has
/// one.
pub open spec fn batch_action(patterns: Seq<Seq<char>>, hs: Seq<(Seq<char>, FileAction)>, paths: Seq<Seq<char>>) -> Option<FileAction>
    decreases paths.len(),
{
    if paths.len() == 0 {
        None
    } else {
        match path_action(ignored_by(patterns, paths[0]), hs, paths[0]) {
            Some(a) => Some(a),
            None => batch_action(patterns, hs, paths.drop_first()),
        }
    }
}

/// What a batch of changed paths calls for, if anything.
pub fn should_reload(ignore: &IgnoreSet, handlers: &Vec<(String, FileAction)>, paths: &Vec<String>) -> (r: Option<FileAction>)
    ensures
        r == batch_action(ignore.patterns_of(), handler_views(handlers@), views(paths@)),
{
    let ghost pv = views(paths@);
    let ghost hv = handler_views(handlers@);
    let ghost pats = ignore.patterns_of();
    let mut i: usize = 0;
    assert(pv.skip(0) =~= pv);
    while i < paths.len()
        invariant
            i <= paths@.len(),
            pv == views(paths@),
            hv == handler_views(handlers@),
            pats == ignore.patterns_of(),
            batch_action(pats, hv, pv) == batch_action(pats, hv, pv.skip(i as int)),
        decreases paths@.len() - i,
    {
        let p = paths[i].as_str();
        proof {
            reveal_strlit(".lua");
            reveal_strlit(".yaml");
            reveal_strlit(".yml");
            assert(pv.skip(i as int)[0] == p@);
            assert(pv.skip(i as int).drop_first() =~= pv.skip(i + 1));
        }
        if !ignore.matches(p) {
            match extension_of(p) {
                Some(e) => {
                    match handler_get(handlers, e.as_str()) {
                        Some(a) => {
                            return Some(a);
                        },
                        None => {},
                    }
                },
                None => {},
            }
            if ends_with_str(p, ".lua") || ends_with_str(p, ".yaml") || ends_with_str(p, ".yml") {
                return Some(FileAction::Restart);
            }
        }
        i += 1;
    }
    None
}

/// What the watcher does about an action.
#[derive(Debug, Clone, Copy, PartialEq, Eq, Structural)]
pub enum WatchEffect {
    /// Stop the commands, clear the screen if asked, and start them again.
    Restart { clear: bool },
    /// Tell the browser to reload.
    SendReload,
    /// Warn that reloading needs the WebSocket.
    WarnNoWebSocket,
    /// Nothing.
    Nothing,
}

/// What an action calls for, given whether the screen is cleared and
/// whether the WebSocket is on.
pub open spec fn effect_of_action(action: FileAction, clear: bool, websocket: bool) -> WatchEffect {
    match action {
        FileAction::Restart => WatchEffect::Restart { clear },
        FileAction::Reload => if websocket { WatchEffect::SendReload } else { WatchEffect::WarnNoWebSocket },
        FileAction::Ignore => WatchEffect::Nothing,
    }
}

/// What an action calls for.
pub fn effect_of(action: FileAction, clear: bool, websocket: bool) -> (e: WatchEffect)
    ensures
        e == effect_of_action(action, clear, websocket),
{
    match action {
        FileAction::Restart => WatchEffect::Restart { clear },
        FileAction::Reload => if websocket { WatchEffect::SendReload } else { WatchEffect::WarnNoWebSocket },
        FileAction::Ignore => WatchEffect::Nothing,
    }
}

/// The label of a change: the first changed path, or `unknown`.
pub fn changed_file_label(paths: &Vec<String>) -> (r: String)
    ensures
        r@ == if paths@.len() > 0 { paths@[0]@ } else { "unknown"@ },
{
    if paths.len() > 0 {
        paths[0].clone()
    } else {
        owned("unknown")
    }
}

/// The commands as shown when the watch starts: each joined with spaces,
/// all joined with commas.
pub fn commands_summary(commands: &Vec<Vec<String>>) -> (r: String)
    ensures
        r@ == join_texts(command_views(commands@).map_values(|c: Seq<Seq<char>>| join_texts(c, " "@)), ", "@),
{
    let ghost target = command_views(commands@).map_values(|c: Seq<Seq<char>>| join_texts(c, " "@));
    let mut parts: Vec<String> = Vec::new();
    let mut i: usize = 0;
    while i < commands.len()
        invariant
            i <= commands@.len(),
            target == command_views(commands@).map_values(|c: Seq<Seq<char>>| join_texts(c, " "@)),
            views(parts@) == target.take(i as int),
        decreases commands@.len() - i,
    {
        let ghost before = views(parts@);
        parts.push(join_strings(&commands[i], " "));
        assert(views(parts@) =~= before.push(target[i as int]));
        assert(target.take(i + 1) =~= target.take(i as int).push(target[i as int]));
        i += 1;
    }
    assert(target.take(commands@.len() as int) =~= target);
    join_strings(&parts, ", ")
}

// ---------------------------------------------------------------------------
// Configuration from package.yaml and the command line
// ---------------------------------------------------------------------------

/// The `watch` section of `package.yaml`, as read.
#[derive(Debug)]
pub struct WatchSection {
    pub command: Option<String>,
    pub commands: Option<Vec<String>>,
    pub paths: Option<Vec<String>>,
    pub ignore: Option<Vec<String>>,
    pub websocket_port: Option<u16>,
    /// Extension and action name, in the order read.
    pub file_handlers: Option<Vec<(String, String)>>,
}

/// The watch settings that `package.yaml` gives.
#[derive(Debug)]
pub struct ManifestWatchConfig {
    pub commands: Option<Vec<Vec<String>>>,
    pub paths: Option<Vec<String>>,
    pub ignore: Option<Vec<String>>,
    pub websocket_port: Option<u16>,
    /// Extension and action name (normalised), when any are given.
    pub file_handlers: Option<Vec<(String, String)>>,
}

impl ManifestWatchConfig {
    /// No settings.
    pub fn empty() -> (c: Self)
        ensures
            c.commands is None,
            c.paths is None,
            c.ignore is None,
            c.websocket_port is None,
            c.file_handlers is None,
    {
        ManifestWatchConfig { commands: None, paths: None, ignore: None, websocket_port: None, file_handlers: None }
    }
}

/// Each command line split into words.
fn split_commands(cmds: &Vec<String>) -> (r: Vec<Vec<String>>)
    ensures
        command_views(r@) == views(cmds@).map_values(|c: Seq<char>| words(c)),
{
    let ghost target = views(cmds@).map_values(|c: Seq<char>| words(c));
    let mut r: Vec<Vec<String>> = Vec::new();
    let mut i: usize = 0;
    while i < cmds.len()
        invariant
            i <= cmds@.len(),
            target == views(cmds@).map_values(|c: Seq<char>| words(c)),
            command_views(r@) == target.take(i as int),
        decreases cmds@.len() - i,
    {
        let ghost before = command_views(r@);
        r.push(words_of(cmds[i].as_str()));
        assert(command_views(r@) =~= before.push(target[i as int]));
        assert(target.take(i + 1) =~= target.take(i as int).push(target[i as int]));
        i += 1;
    }
    assert(target.take(cmds@.len() as int) =~= target);
    r
}

/// Paths taken from the project root unless absolute.
fn rooted_paths(root: &str, ps: &Vec<String>) -> (r: Vec<String>)
    ensures
        views(r@) == views(ps@).map_values(|p: Seq<char>| join_path(root@, p)),
{
    let ghost target = views(ps@).map_values(|p: Seq<char>| join_path(root@, p));
    let mut r: Vec<String> = Vec::new();
    let mut i: usize = 0;
    while i < ps.len()
        invariant
            i <= ps@.len(),
            target == views(ps@).map_values(|p: Seq<char>| join_path(root@, p)),
            views(r@) == target.take(i as int),
        decreases ps@.len() - i,
    {
        let ghost before = views(r@);
        r.push(join(root, ps[i].as_str()));
        assert(views(r@) =~= before.push(target[i as int]));
        assert(target.take(i + 1) =~= target.take(i as int).push(target[i as int]));
        i += 1;
    }
    assert(target.take(ps@.len() as int) =~= target);
    r
}

/// A copy of a list of strings.
fn copy_strings(v: &Vec<String>) -> (r: Vec<String>)
    ensures
        views(r@) == views(v@),
{
    let mut r: Vec<String> = Vec::new();
    let mut i: usize = 0;
    while i < v.len()
        invariant
            i <= v@.len(),
            views(r@) == views(v@).take(i as int),
        decreases v@.len() - i,
    {
        let ghost before = views(r@);
        r.push(v[i].clone());
        assert(views(r@) =~= before.push(v@[i as int]@));
        assert(views(v@).take(i + 1) =~= views(v@).take(i as int).push(v@[i as int]@));
        i += 1;
    }
    assert(views(v@).take(v@.len() as int) =~= views(v@));
    r
}

/// The commands of a `watch` section: the `commands` list, else the single
/// `command`, each split into words.
pub open spec fn section_commands(commands: Option<Seq<Seq<char>>>, command: Option<Seq<char>>) -> Option<Seq<Seq<Seq<char>>>> {
    match commands {
        Some(cs) => Some(cs.map_values(|c: Seq<char>| words(c))),
        None => match command {
            Some(c) => Some(seq![words(c)]),
            None => None,
        },
    }
}

/// The handler names of a `watch` section, normalised: each name read as
/// an action and written back in lower case.
pub open spec fn normalised_handlers(hs: Seq<(Seq<char>, Seq<char>)>) -> Seq<(Seq<char>, Seq<char>)> {
    hs.map_values(|h: (Seq<char>, Seq<char>)| (h.0, name_of_action(action_named(h.1))))
}

/// The pairs as texts.
pub open spec fn pair_views(hs: Seq<(String, String)>) -> Seq<(Seq<char>, Seq<char>)> {
    hs.map_values(|h: (String, String)| (h.0@, h.1@))
}

/// The watch settings of a `watch` section of a project: commands split
/// into words, paths taken from the project root, handler names normalised
/// (none when there are none), the rest as given.
pub fn manifest_watch_config(section: &WatchSection, project_root: &str) -> (c: ManifestWatchConfig)
    ensures
        match c.commands {
            Some(cs) => section_commands(
                match section.commands { Some(v) => Some(views(v@)), None => None },
                match section.command { Some(s) => Some(s@), None => None },
            ) == Some(command_views(cs@)),
            None => section.commands is None && section.command is None,
        },
        match c.paths {
            Some(ps) => section.paths matches Some(sp) && views(ps@) == views(sp@).map_values(
                |p: Seq<char>| join_path(project_root@, p),
            ),
            None => section.paths is None,
        },
        match c.ignore {
            Some(ig) => section.ignore matches Some(si) && views(ig@) == views(si@),
            None => section.ignore is None,
        },
        c.websocket_port == section.websocket_port,
        match c.file_handlers {
            Some(hs) => section.file_handlers matches Some(sh) && sh@.len() > 0 && pair_views(hs@)
                == normalised_handlers(pair_views(sh@)),
            None => section.file_handlers is None || (section.file_handlers matches Some(sh) && sh@.len() == 0),
        },
{
    let commands = match &section.commands {
        Some(cs) => Some(split_commands(cs)),
        None => match &section.command {
            Some(c) => {
                let w = words_of(c.as_str());
                let r = vec![w];
                assert(command_views(r@) =~= seq![words(c@)]);
                Some(r)
            },
            None => None,
        },
    };
    let paths = match &section.paths {
        Some(ps) => Some(rooted_paths(project_root, ps)),
        None => None,
    };
    let ignore = match &section.ignore {
        Some(ig) => Some(copy_strings(ig)),
        None => None,
    };
    let file_handlers = match &section.file_handlers {
        Some(hs) => {
            let ghost target = normalised_handlers(pair_views(hs@));
            let mut out: Vec<(String, String)> = Vec::new();
            let mut i: usize = 0;
            while i < hs.len()
                invariant
                    i <= hs@.len(),
                    target == normalised_handlers(pair_views(hs@)),
                    pair_views(out@) == target.take(i as int),
                decreases hs@.len() - i,
            {
                let a = FileAction::from_name(hs[i].1.as_str());
                let ghost before = pair_views(out@);
                out.push((hs[i].0.clone(), owned(a.name())));
                assert(pair_views(out@) =~= before.push(target[i as int]));
                assert(target.take(i + 1) =~= target.take(i as int).push(target[i as int]));
                i += 1;
            }
            assert(target.take(hs@.len() as int) =~= target);
            if out.len() == 0 {
                None
            } else {
                Some(out)
            }
        },
        None => None,
    };
    ManifestWatchConfig { commands, paths, ignore, websocket_port: section.websocket_port, file_handlers }
}

/// The options of the `watch` command.
#[derive(Debug)]
pub struct WatchArgs {
    pub command: Option<Vec<String>>,
    pub paths: Option<Vec<String>>,
    pub ignore: Option<Vec<String>>,
    /// `--no-clear`.
    pub no_clear: bool,
    pub script: Option<String>,
    pub websocket_port: Option<u16>,
}

/// The commands of a watch: the command line's, else `lpm run <script>`,
/// else the manifest's, else `lua src/main.lua`.
pub open spec fn chosen_commands(
    command: Option<Seq<Seq<char>>>,
    script: Option<Seq<char>>,
    manifest: Option<Seq<Seq<Seq<char>>>>,
) -> Seq<Seq<Seq<char>>> {
    match command {
        Some(c) => seq![c],
        None => match script {
            Some(s) => seq![seq!["lpm"@, "run"@, s]],
            None => match manifest {
                Some(m) => m,
                None => seq![seq!["lua"@, "src/main.lua"@]],
            },
        },
    }
}

/// The ignore patterns of a watch when neither the command line nor the
/// manifest gives any.
pub open spec fn fallback_ignore() -> Seq<Seq<char>> {
    seq!["lua_modules/**"@, "**/*.swp"@, "**/.git/**"@]
}

/// The watch configuration of a run: the command line first, then the
/// manifest, then the defaults; handler names from the manifest are added
/// to the default handlers.
pub fn resolve_watch_config(args: WatchArgs, base: ManifestWatchConfig, project_root: &str) -> (c: WatchConfig)
    ensures
        command_views(c.commands@) == chosen_commands(
            match args.command { Some(v) => Some(views(v@)), None => None },
            match args.script { Some(s) => Some(s@), None => None },
            match base.commands { Some(m) => Some(command_views(m@)), None => None },
        ),
        views(c.paths@) == match args.paths {
            Some(ps) => views(ps@).map_values(|p: Seq<char>| join_path(project_root@, p)),
            None => match base.paths {
                Some(ps) => views(ps@).map_values(|p: Seq<char>| join_path(project_root@, p)),
                None => seq![join_path(project_root@, "src"@), join_path(project_root@, "lib"@)],
            },
        },
        views(c.ignore@) == match args.ignore {
            Some(ig) => views(ig@),
            None => match base.ignore {
                Some(ig) => views(ig@),
                None => fallback_ignore(),
            },
        },
        c.clear == !args.no_clear,
        c.debounce_ms == 300,
        c.websocket_port == match args.websocket_port {
            Some(p) => p,
            None => match base.websocket_port {
                Some(p) => p,
                None => 0,
            },
        },
        base.file_handlers is None ==> handler_views(c.file_handlers@) == default_handlers(),
        base.file_handlers matches Some(hs) ==> forall|k: Seq<char>| handler_for(handler_views(c.file_handlers@), k)
            == match handler_for(added_handlers(pair_views(hs@)), k) {
                Some(a) => Some(a),
                None => handler_for(default_handlers(), k),
            },
{
    let commands = match args.command {
        Some(c) => {
            let r = vec![c];
            proof {
                assert(command_views(r@) =~= seq![views(r@[0]@)]);
            }
            r
        },
        None => match args.script {
            Some(s) => {
                let ghost sv = s@;
                let c = vec![owned("lpm"), owned("run"), s];
                let r = vec![c];
                proof {
                    assert(views(r@[0]@) =~= seq!["lpm"@, "run"@, sv]);
                    assert(command_views(r@) =~= seq![seq!["lpm"@, "run"@, sv]]);
                }
                r
            },
            None => match base.commands {
                Some(m) => m,
                None => default_command(),
            },
        },
    };
    let paths = match &args.paths {
        Some(ps) => rooted_paths(project_root, ps),
        None => match &base.paths {
            Some(ps) => rooted_paths(project_root, ps),
            None => {
                let r = vec![join(project_root, "src"), join(project_root, "lib")];
                assert(views(r@) =~= seq![join_path(project_root@, "src"@), join_path(project_root@, "lib"@)]);
                r
            },
        },
    };
    let ignore = match args.ignore {
        Some(ig) => ig,
        None => match base.ignore {
            Some(ig) => ig,
            None => {
                let r = vec![owned("lua_modules/**"), owned("**/*.swp"), owned("**/.git/**")];
                assert(views(r@) =~= fallback_ignore());
                r
            },
        },
    };
    let mut file_handlers = default_handler_table();
    match &base.file_handlers {
        Some(hs) => {
            add_handlers(&mut file_handlers, hs);
        },
        None => {},
    }
    let websocket_port = match args.websocket_port {
        Some(p) => p,
        None => match base.websocket_port {
            Some(p) => p,
            None => 0,
        },
    };
    WatchConfig { commands, paths, ignore, clear: !args.no_clear, debounce_ms: 300, file_handlers, websocket_port }
}

/// The handlers that named actions add, later names for an extension
/// winning.
pub open spec fn added_handlers(hs: Seq<(Seq<char>, Seq<char>)>) -> Seq<(Seq<char>, FileAction)>
    decreases hs.len(),
{
    if hs.len() == 0 {
        Seq::<(Seq<char>, FileAction)>::empty()
    } else {
        seq![(hs.last().0, action_named(hs.last().1))] + added_handlers(hs.drop_last())
    }
}

/// Sets the action of each named handler, in order.
fn add_handlers(table: &mut Vec<(String, FileAction)>, hs: &Vec<(String, String)>)
    ensures
        forall|k: Seq<char>| handler_for(handler_views(final(table)@), k) == match handler_for(
            added_handlers(pair_views(hs@)),
            k,
        ) {
            Some(a) => Some(a),
            None => handler_for(handler_views(old(table)@), k),
        },
{
    let ghost start = handler_views(table@);
    let ghost pv = pair_views(hs@);
    let mut i: usize = 0;
    while i < hs.len()
        invariant
            i <= hs@.len(),
            pv == pair_views(hs@),
            forall|k: Seq<char>| handler_for(handler_views(table@), k) == match handler_for(
                added_handlers(pv.take(i as int)),
                k,
            ) {
                Some(a) => Some(a),
                None => handler_for(start, k),
            },
        decreases hs@.len() - i,
    {
        let a = FileAction::from_name(hs[i].1.as_str());
        let ghost before = handler_views(table@);
        handler_insert(table, hs[i].0.clone(), a);
        proof {
            let t1 = pv.take(i + 1);
            assert(t1.drop_last() =~= pv.take(i as int));
            assert(t1.last() == (hs@[i as int].0@, hs@[i as int].1@));
            assert forall|k: Seq<char>| handler_for(handler_views(table@), k) == match handler_for(
                added_handlers(t1),
                k,
            ) {
                Some(a) => Some(a),
                None => handler_for(start, k),
            } by {
                assert(added_handlers(t1) == seq![(t1.last().0, action_named(t1.last().1))] + added_handlers(pv.take(i as int)));
                let ah = added_handlers(t1);
                assert(ah[0] == (hs@[i as int].0@, a));
                assert(ah.drop_first() =~= added_handlers(pv.take(i as int)));
            }
        }
        i += 1;
    }
    assert(pv.take(hs@.len() as int) =~= pv);
}

// ---------------------------------------------------------------------------
// Starting a command
// ---------------------------------------------------------------------------

/// How a command is started.
#[derive(Debug)]
pub struct CommandPlan {
    pub program: String,
    pub args: Vec<String>,
    /// Environment variables to set.
    pub env: Vec<(String, String)>,
    /// Whether the `lpm.loader` module is installed first.
    pub install_loader: bool,
}

/// Whether a program is a Lua interpreter: `lua`, `luajit`, or a name
/// ending in `lua`.
pub open spec fn is_lua_program(p: Seq<char>) -> bool {
    p == "lua"@ || p == "luajit"@ || ends_with(p, "lua"@)
}

/// `LUA_PATH` for a `lua_modules` directory.
pub open spec fn lua_path_of(lm: Seq<char>) -> Seq<char> {
    lm + "/?.lua;"@ + lm + "/?/init.lua;"@ + lm + "/?/?.lua;"@
}

/// `LUA_CPATH` for a `lua_modules` directory and a library extension.
pub open spec fn lua_cpath_of(lm: Seq<char>, ext: Seq<char>) -> Seq<char> {
    lm + "/?."@ + ext + ";"@ + lm + "/?/init."@ + ext + ";"@
}

/// The chunk run before the program, which loads `lpm.loader`.
pub open spec fn loader_chunk(lpm_dir: Seq<char>) -> Seq<char> {
    "package.path = '"@ + lpm_dir + "' .. '/?.lua;' .. package.path; require('lpm.loader')"@
}

/// How to start a command in a project on an operating system. A Lua
/// interpreter gets the project's module paths and loads `lpm.loader`
/// first, which needs `lua_modules` to be there; other programs start as
/// they are.
pub fn command_plan(command: &Vec<String>, project_root: &str, os: &str, lua_modules_present: bool) -> (r: LpmResult<CommandPlan>)
    ensures
        command@.len() == 0 ==> (r matches Err(e) && e matches LpmError::Package(m) && m@ == "Empty command"@),
        command@.len() > 0 && is_lua_program(command@[0]@) && !lua_modules_present ==> (r matches Err(e)
            && e matches LpmError::Package(m) && m@ == "lua_modules directory not found. Run 'lpm install' first."@),
        command@.len() > 0 && is_lua_program(command@[0]@) && lua_modules_present ==> (r matches Ok(p) && ({
            let lm = join_path(project_root@, "lua_modules"@);
            &&& p.program@ == command@[0]@
            &&& p.install_loader
            &&& pair_views(p.env@) == seq![
                ("LUA_PATH"@, lua_path_of(lm)),
                ("LUA_CPATH"@, lua_cpath_of(lm, crate::path_setup::loader::native_extension(os@))),
            ]
            &&& views(p.args@) == seq!["-e"@, loader_chunk(join_path(lm, "lpm"@))] + views(command@).skip(1)
        })),
        command@.len() > 0 && !is_lua_program(command@[0]@) ==> (r matches Ok(p) && p.program@ == command@[0]@
            && !p.install_loader && p.env@.len() == 0 && views(p.args@) == views(command@).skip(1)),
{
    if command.len() == 0 {
        return Err(LpmError::Package(owned("Empty command")));
    }
    let prog = command[0].as_str();
    let is_lua = eq_str(prog, "lua") || eq_str(prog, "luajit") || ends_with_str(prog, "lua");
    let mut args: Vec<String> = Vec::new();
    let mut env: Vec<(String, String)> = Vec::new();
    if is_lua {
        if !lua_modules_present {
            return Err(LpmError::Package(owned("lua_modules directory not found. Run 'lpm install' first.")));
        }
        let lm = join(project_root, "lua_modules");
        let lms = lm.as_str();
        let p1 = concat3(lms, "/?.lua;", lms);
        let p2 = concat3(p1.as_str(), "/?/init.lua;", lms);
        let lua_path = concat2(p2.as_str(), "/?/?.lua;");
        let ext = if eq_str(os, "windows") {
            "dll"
        } else if eq_str(os, "macos") {
            "dylib"
        } else {
            "so"
        };
        proof {
            reveal_strlit("windows");
            reveal_strlit("macos");
        }
        let c1 = concat3(lms, "/?.", ext);
        let c2 = concat3(c1.as_str(), ";", lms);
        let c3 = concat3(c2.as_str(), "/?/init.", ext);
        let lua_cpath = concat2(c3.as_str(), ";");
        env.push((owned("LUA_PATH"), lua_path));
        env.push((owned("LUA_CPATH"), lua_cpath));
        let lpm_dir = join(lms, "lpm");
        let chunk = concat3("package.path = '", lpm_dir.as_str(), "' .. '/?.lua;' .. package.path; require('lpm.loader')");
        args.push(owned("-e"));
        args.push(chunk);
        let ghost head = views(args@);
        assert(head =~= seq!["-e"@, loader_chunk(join_path(lm@, "lpm"@))]);
        append_rest(&mut args, command);
        proof {
            assert(pair_views(env@) =~= seq![
                ("LUA_PATH"@, lua_path_of(lm@)),
                ("LUA_CPATH"@, lua_cpath_of(lm@, crate::path_setup::loader::native_extension(os@))),
            ]);
        }
        Ok(CommandPlan { program: command[0].clone(), args, env, install_loader: true })
    } else {
        append_rest(&mut args, command);
        assert(views(args@) =~= views(command@).skip(1));
        Ok(CommandPlan { program: command[0].clone(), args, env, install_loader: false })
    }
}

/// Appends the arguments of a command (all but its first word).
fn append_rest(args: &mut Vec<String>, command: &Vec<String>)
    requires
        command@.len() > 0,
    ensures
        views(final(args)@) == views(old(args)@) + views(command@).skip(1),
{
    let ghost start = views(args@);
    let mut i: usize = 1;
    while i < command.len()
        invariant
            1 <= i <= command@.len(),
            views(args@) == start + views(command@).subrange(1, i as int),
        decreases command@.len() - i,
    {
        let ghost before = views(args@);
        args.push(command[i].clone());
        assert(views(args@) =~= before.push(command@[i as int]@));
        assert(views(command@).subrange(1, i + 1) =~= views(command@).subrange(1, i as int).push(command@[i as int]@));
        i += 1;
    }
    assert(views(command@).subrange(1, command@.len() as int) =~= views(command@).skip(1));
}

// ---------------------------------------------------------------------------
// Terminal output
// ---------------------------------------------------------------------------

/// A number below 100 as two decimal digits.
pub open spec fn two_digits(n: int) -> Seq<char> {
    seq![crate::text::digit_char((n / 10) as nat), crate::text::digit_char((n % 10) as nat)]
}

/// The time of day (UTC) of a moment, as `HH:MM:SS`.
pub open spec fn clock_text(epoch_secs: int) -> Seq<char> {
    let t = epoch_secs % 86400;
    two_digits(t / 3600) + ":"@ + two_digits((t % 3600) / 60) + ":"@ + two_digits(t % 60)
}

fn push_two_digits(s: &mut String, n: u64)
    requires
        n < 100,
    ensures
        final(s)@ == old(s)@ + two_digits(n as int),
{
    let ghost before = s@;
    crate::text::push_char(s, (((n / 10) as u8) + 48u8) as char);
    crate::text::push_char(s, (((n % 10) as u8) + 48u8) as char);
    assert(s@ =~= before + two_digits(n as int));
}

/// The time of day (UTC) of a moment given in seconds since the Unix
/// epoch, as `HH:MM:SS`; watch mode stamps its messages with it.
pub fn timestamp_label(epoch_secs: u64) -> (r: String)
    ensures
        r@ == clock_text(epoch_secs as int),
{
    let t = epoch_secs % 86400;
    let hours = t / 3600;
    let minutes = (t % 3600) / 60;
    let seconds = t % 60;
    let mut r = String::new();
    push_two_digits(&mut r, hours);
    r.append(":");
    push_two_digits(&mut r, minutes);
    r.append(":");
    push_two_digits(&mut r, seconds);
    r
}

} // verus!
