use lpm::watch::{
    changed_file_label, command_plan, commands_summary, effect_of, handler_get, handler_insert, manifest_watch_config,
    resolve_watch_config, should_reload, FileAction, IgnoreSet, ManifestWatchConfig, WatchArgs, WatchConfig,
    WatchEffect, WatchSection,
};
use lpm::LpmError;

#[test]
fn action_names() {
    assert_eq!(FileAction::from_name("reload"), FileAction::Reload);
    assert_eq!(FileAction::from_name("ignore"), FileAction::Ignore);
    assert_eq!(FileAction::from_name("restart"), FileAction::Restart);
    assert_eq!(FileAction::from_name("bogus"), FileAction::Restart);
    assert_eq!(FileAction::Reload.name(), "reload");
}

#[test]
fn default_watch_config() {
    let c = WatchConfig::default();
    assert_eq!(c.commands, vec![vec!["lua".to_string(), "src/main.lua".to_string()]]);
    assert_eq!(c.paths, vec!["src", "lib"]);
    assert_eq!(c.ignore, vec!["lua_modules/**", "**/*_test.lua", "**/*.swp", "**/.git/**"]);
    assert!(c.clear);
    assert_eq!(c.debounce_ms, 300);
    assert_eq!(c.websocket_port, 0);
    assert_eq!(handler_get(&c.file_handlers, "css"), Some(FileAction::Reload));
    assert_eq!(handler_get(&c.file_handlers, "yml"), Some(FileAction::Restart));
    assert_eq!(handler_get(&c.file_handlers, "md"), None);
}

#[test]
fn handler_table_replaces_entries() {
    let mut hs = WatchConfig::default().file_handlers;
    handler_insert(&mut hs, "css".to_string(), FileAction::Ignore);
    handler_insert(&mut hs, "md".to_string(), FileAction::Reload);
    assert_eq!(handler_get(&hs, "css"), Some(FileAction::Ignore));
    assert_eq!(handler_get(&hs, "md"), Some(FileAction::Reload));
    assert_eq!(hs.len(), 7);
}

#[test]
fn ignore_patterns_must_compile() {
    match IgnoreSet::new(&vec!["ok/**".to_string(), "bad[".to_string()]) {
        Err(LpmError::Package(m)) => assert!(m.starts_with("Invalid ignore pattern 'bad[': ")),
        _ => panic!("expected a package error"),
    }
    let set = IgnoreSet::new(&vec!["lua_modules/**".to_string()]).unwrap();
    assert!(set.matches("lua_modules/x.lua"));
    assert!(!set.matches("src/x.lua"));
}

#[test]
fn reload_decisions() {
    let c = WatchConfig::default();
    let ignore = IgnoreSet::new(&c.ignore).unwrap();
    let p = |v: &[&str]| v.iter().map(|s| s.to_string()).collect::<Vec<String>>();
    assert_eq!(should_reload(&ignore, &c.file_handlers, &p(&["src/main.lua"])), Some(FileAction::Restart));
    assert_eq!(should_reload(&ignore, &c.file_handlers, &p(&["web/index.html"])), Some(FileAction::Reload));
    assert_eq!(should_reload(&ignore, &c.file_handlers, &p(&["README.md"])), None);
    assert_eq!(should_reload(&ignore, &c.file_handlers, &p(&["lua_modules/a.lua", "README.md"])), None);
    assert_eq!(should_reload(&ignore, &c.file_handlers, &p(&["lua_modules/a.lua", "x.css"])), Some(FileAction::Reload));
    assert_eq!(changed_file_label(&p(&["a.lua", "b.lua"])), "a.lua");
    assert_eq!(changed_file_label(&Vec::new()), "unknown");
}

#[test]
fn effects_of_actions() {
    assert_eq!(effect_of(FileAction::Restart, true, false), WatchEffect::Restart { clear: true });
    assert_eq!(effect_of(FileAction::Reload, true, true), WatchEffect::SendReload);
    assert_eq!(effect_of(FileAction::Reload, true, false), WatchEffect::WarnNoWebSocket);
    assert_eq!(effect_of(FileAction::Ignore, true, true), WatchEffect::Nothing);
    let cmds = vec![vec!["lua".to_string(), "a.lua".to_string()], vec!["make".to_string()]];
    assert_eq!(commands_summary(&cmds), "lua a.lua, make");
}

#[test]
fn manifest_section_is_normalised() {
    let section = WatchSection {
        command: Some("lua  src/app.lua --debug".to_string()),
        commands: None,
        paths: Some(vec!["src".to_string(), "/abs".to_string()]),
        ignore: None,
        websocket_port: Some(35729),
        file_handlers: Some(vec![("html".to_string(), "reload".to_string()), ("txt".to_string(), "whatever".to_string())]),
    };
    let c = manifest_watch_config(&section, "/p");
    assert_eq!(c.commands, Some(vec![vec!["lua".to_string(), "src/app.lua".to_string(), "--debug".to_string()]]));
    assert_eq!(c.paths, Some(vec!["/p/src".to_string(), "/abs".to_string()]));
    assert_eq!(c.websocket_port, Some(35729));
    assert_eq!(
        c.file_handlers,
        Some(vec![("html".to_string(), "reload".to_string()), ("txt".to_string(), "restart".to_string())])
    );
}

#[test]
fn command_line_wins_over_manifest() {
    let args = WatchArgs { command: None, paths: None, ignore: None, no_clear: true, script: Some("dev".to_string()), websocket_port: None };
    let mut base = ManifestWatchConfig::empty();
    base.websocket_port = Some(9000);
    base.file_handlers = Some(vec![("md".to_string(), "reload".to_string())]);
    let c = resolve_watch_config(args, base, "/p");
    assert_eq!(c.commands, vec![vec!["lpm".to_string(), "run".to_string(), "dev".to_string()]]);
    assert_eq!(c.paths, vec!["/p/src", "/p/lib"]);
    assert_eq!(c.ignore, vec!["lua_modules/**", "**/*.swp", "**/.git/**"]);
    assert!(!c.clear);
    assert_eq!(c.websocket_port, 9000);
    assert_eq!(handler_get(&c.file_handlers, "md"), Some(FileAction::Reload));
    assert_eq!(handler_get(&c.file_handlers, "lua"), Some(FileAction::Restart));
}

#[test]
fn command_plans() {
    match command_plan(&vec![], "/p", "linux", true) {
        Err(LpmError::Package(m)) => assert_eq!(m, "Empty command"),
        _ => panic!("expected a package error"),
    }
    let lua = vec!["lua".to_string(), "src/main.lua".to_string()];
    match command_plan(&lua, "/p", "linux", false) {
        Err(LpmError::Package(m)) => assert_eq!(m, "lua_modules directory not found. Run 'lpm install' first."),
        _ => panic!("expected a package error"),
    }
    let plan = command_plan(&lua, "/p", "linux", true).unwrap();
    assert_eq!(plan.program, "lua");
    assert!(plan.install_loader);
    assert_eq!(plan.env[0], ("LUA_PATH".to_string(), "/p/lua_modules/?.lua;/p/lua_modules/?/init.lua;/p/lua_modules/?/?.lua;".to_string()));
    assert_eq!(plan.env[1], ("LUA_CPATH".to_string(), "/p/lua_modules/?.so;/p/lua_modules/?/init.so;".to_string()));
    assert_eq!(
        plan.args,
        vec![
            "-e".to_string(),
            "package.path = '/p/lua_modules/lpm' .. '/?.lua;' .. package.path; require('lpm.loader')".to_string(),
            "src/main.lua".to_string()
        ]
    );
    let make = vec!["make".to_string(), "test".to_string()];
    let plan2 = command_plan(&make, "/p", "linux", false).unwrap();
    assert_eq!(plan2.args, vec!["test".to_string()]);
    assert!(plan2.env.is_empty() && !plan2.install_loader);
}

#[test]
fn timestamps_are_utc_clock_times() {
    assert_eq!(lpm::watch::timestamp_label(0), "00:00:00");
    assert_eq!(lpm::watch::timestamp_label(86399), "23:59:59");
    assert_eq!(lpm::watch::timestamp_label(1_700_000_000), "22:13:20");
}
