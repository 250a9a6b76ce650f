use lpm::bundler::bundle_core::{BundleOptions, Bundler};
use lpm::bundler::minifier::Minifier;
use lpm::bundler::parser::LuaParser;
use lpm::bundler::resolver::{DependencyResolver, ResolveStep};
use lpm::bundler::run::{entry_path, options_for_run, options_for_watch, output_path, BundleRunOptions};
use lpm::bundler::tree_shaker::TreeShaker;
use lpm::LpmError;

const SAMPLE: &str = "-- comment\nlocal x = 1\n\n  print(x)  \n--[[ block\nstill\n]]\nreturn x";

#[test]
fn minify_drops_comments_and_blank_lines() {
    let m = Minifier::new();
    assert_eq!(m.minify(SAMPLE).unwrap(), "local x = 1 print(x) return x");
    assert_eq!(m.minify_basic("a\r\nb").unwrap(), "a b");
    assert_eq!(m.minify("").unwrap(), "");
}

#[test]
fn minifier_strips_comments_line_by_line() {
    let m = Minifier::new();
    assert_eq!(m.strip_comments(SAMPLE).unwrap(), "local x = 1\n\n  print(x)  \nreturn x\n");
    assert_eq!(m.strip_comments("x = '--'").unwrap(), "x = '--'\n");
    assert_eq!(m.strip_comments("local v = t[i[1]]\nreturn v\n").unwrap(), "local v = t[i[1]]\nreturn v\n");
    assert_eq!(m.strip_comments("a\n--[[ one\ntwo ]]\nb\n").unwrap(), "a\nb\n");
    assert_eq!(m.minify("local v = t[i[1]]\nreturn v\n").unwrap(), "local v = t[i[1]] return v");
}

#[test]
fn bundler_strip_comments_keeps_block_markers() {
    let b = Bundler::new("/p".to_string(), "/p/src/main.lua".to_string(), "/p/out.lua".to_string(), BundleOptions::default());
    assert_eq!(b.strip_comments(SAMPLE), "local x = 1\n\n  print(x)  \n--[[ block\nstill\n]]\nreturn x");
}

#[test]
fn bundle_text_and_entry_name() {
    let mut opts = BundleOptions::default();
    opts.standalone = false;
    let b = Bundler::new("/p".to_string(), "/p/src/main.lua".to_string(), "/p/dist/b.lua".to_string(), opts);
    assert_eq!(b.get_entry_module_name().unwrap(), "src.main");
    let modules = vec![("util".to_string(), "return 1".to_string()), ("it's".to_string(), "x()".to_string())];
    assert_eq!(
        b.generate_bundle(&modules).unwrap(),
        "\n-- Module: util\n_BUNDLER_RUNTIME.modules['util'] = function()\nreturn 1\nend\n\n-- Module: it's\n_BUNDLER_RUNTIME.modules['it\\'s'] = function()\nx()\nend\n\n-- Entry point\nrequire('src.main')\n"
    );
    let standalone = Bundler::new("/p".to_string(), "/p/src/main.lua".to_string(), "/p/b.lua".to_string(), BundleOptions::default());
    let text = standalone.generate_bundle(&Vec::new()).unwrap();
    assert!(text.starts_with("-- LPM Bundler Runtime\n"));
    assert!(text.ends_with("__BUNDLER__ = _BUNDLER_RUNTIME\n\n\n-- Entry point\nrequire('src.main')\n"));
}

#[test]
fn entry_outside_root_is_refused() {
    let b = Bundler::new("/p".to_string(), "/q/main.lua".to_string(), "/p/b.lua".to_string(), BundleOptions::default());
    match b.get_entry_module_name() {
        Err(LpmError::Path(m)) => assert_eq!(m, "Entry path /q/main.lua is not within project root /p"),
        _ => panic!("expected a path error"),
    }
    assert!(b.generate_bundle(&Vec::new()).is_err());
}

#[test]
fn module_processing_follows_options() {
    let mut opts = BundleOptions::default();
    opts.comments = false;
    let b = Bundler::new("/p".to_string(), "/p/m.lua".to_string(), "/p/b.lua".to_string(), opts);
    assert_eq!(b.process_module("-- c\nx = 1".to_string()).unwrap(), "x = 1");
    let mut opts2 = BundleOptions::default();
    opts2.minify = true;
    let b2 = Bundler::new("/p".to_string(), "/p/m.lua".to_string(), "/p/b.lua".to_string(), opts2);
    assert_eq!(b2.process_module("x = 1\n\ny = 2".to_string()).unwrap(), "x = 1 y = 2");
    let b3 = Bundler::new("/p".to_string(), "/p/m.lua".to_string(), "/p/b.lua".to_string(), BundleOptions::default());
    assert_eq!(b3.process_module("-- kept".to_string()).unwrap(), "-- kept");
}

#[test]
fn rebuild_decisions() {
    assert!(Bundler::rebuild_needed(false, None, None, &vec![]));
    assert!(!Bundler::rebuild_needed(true, None, Some(10), &vec![20]));
    assert!(Bundler::rebuild_needed(true, Some(5), Some(10), &vec![]));
    assert!(Bundler::rebuild_needed(true, Some(15), Some(10), &vec![1, 20]));
    assert!(!Bundler::rebuild_needed(true, Some(15), Some(10), &vec![1, 15]));
}

#[test]
fn dynamic_require_warning() {
    assert!(Bundler::dynamic_warning(&vec![]).is_empty());
    let w = Bundler::dynamic_warning(&vec!["mod_name".to_string()]);
    assert_eq!(w, vec!["⚠️  Warning: Found 1 dynamic require(s):", "   - mod_name", "   These may not be included in the bundle."]);
}

#[test]
fn parser_scans_valid_and_invalid_lua() {
    let p = LuaParser::new();
    assert_eq!(p.extract_requires("local a = require('a')\nreturn a").unwrap(), vec!["a"]);
    assert_eq!(p.extract_requires("local json = require(\"json\")\nreturn json\n").unwrap(), vec!["json"]);
    let found = p.extract_requires("local a = require('a') ((( \nlocal b = require [[nope]]\nrequire \"c\"\nrequire([[d]])").unwrap();
    assert_eq!(found, vec!["a", "d", "c"]);
    assert_eq!(p.extract_requires_regex("require ( \"x.y\" )").unwrap(), vec!["x.y"]);
}

#[test]
fn resolver_walks_a_single_module() {
    let paths = vec!["src".to_string(), "lib".to_string()];
    let mut r = DependencyResolver::new("/nonexistent-lpm-root", &paths);
    assert!(r.dynamic_requires().is_empty());
    match r.start("/nonexistent-lpm-root/src/main.lua").unwrap() {
        ResolveStep::Read { module, path } => {
            assert_eq!(module, "src.main");
            assert_eq!(path, "/nonexistent-lpm-root/src/main.lua");
        }
        _ => panic!("expected a read"),
    }
    r.supply("print('hello')").unwrap();
    assert_eq!(r.advance().unwrap(), ResolveStep::Continue);
    assert_eq!(r.advance().unwrap(), ResolveStep::Done);
    assert_eq!(r.modules(), &vec![("src.main".to_string(), "/nonexistent-lpm-root/src/main.lua".to_string())]);
}

#[test]
fn resolver_reports_missing_modules() {
    let paths = vec!["src".to_string()];
    let mut r = DependencyResolver::new("/nonexistent-lpm-root", &paths);
    r.start("main.lua").unwrap();
    r.supply("local m = require('socket.core') (((").unwrap();
    assert_eq!(r.advance().unwrap(), ResolveStep::Missing("socket.core".to_string()));
    assert_eq!(r.advance().unwrap(), ResolveStep::Continue);
    assert_eq!(r.advance().unwrap(), ResolveStep::Done);
    assert_eq!(
        r.candidate_paths("a.b"),
        vec![
            "/nonexistent-lpm-root/src/a/b.lua",
            "/nonexistent-lpm-root/src/a/b/init.lua",
            "/nonexistent-lpm-root/lua_modules/a/b.lua",
            "/nonexistent-lpm-root/lua_modules/a/b/init.lua",
        ]
    );
}

#[test]
fn resolver_module_names() {
    let r = DependencyResolver::new("/p", &vec![]);
    assert_eq!(r.path_to_module_name("/p/src/net/http.lua").unwrap(), "src.net.http");
    assert_eq!(r.path_to_module_name("lib\\util.lua").unwrap(), "lib.util");
    assert_eq!(r.path_to_module_name("/lib.lua").is_err(), true);
}

#[test]
fn tree_shaker_keeps_entry_only() {
    let t = TreeShaker::new();
    let modules = vec![("a".to_string(), "/a.lua".to_string()), ("main".to_string(), "/main.lua".to_string())];
    assert_eq!(t.shake(&modules, "main"), vec![("main".to_string(), "/main.lua".to_string())]);
    assert!(t.shake(&modules, "zzz").is_empty());
}

#[test]
fn run_paths_and_options() {
    assert_eq!(entry_path("/p", &None), "/p/src/main.lua");
    assert_eq!(entry_path("/p", &Some("app.lua".to_string())), "/p/app.lua");
    assert_eq!(output_path("/p", &Some("/tmp/out.lua".to_string())), "/tmp/out.lua");
    assert_eq!(output_path("/p", &None), "/p/dist/bundle.lua");
    let opts = BundleRunOptions {
        entry: None,
        output: None,
        minify: true,
        source_map: false,
        no_comments: true,
        tree_shake: false,
        dynamic_requires: true,
        incremental: false,
    };
    let o = options_for_run(&opts, "/p");
    assert!(o.minify && !o.comments && o.standalone && o.dynamic_requires);
    assert_eq!(o.module_paths, vec!["/p/src", "/p/lib"]);
    let w = options_for_watch(false, true, false, "/p");
    assert!(w.incremental && w.comments && w.source_map && !w.dynamic_requires);
}

#[test]
fn resolver_takes_the_first_present_module_file() {
    let r = DependencyResolver::new("/p", &vec!["src".to_string()]);
    assert_eq!(r.candidate_paths("a.b"), vec!["/p/src/a/b.lua", "/p/src/a/b/init.lua", "/p/lua_modules/a/b.lua", "/p/lua_modules/a/b/init.lua"]);
    assert_eq!(r.module_from("a.b", &vec![false, false, true, true]), Some("/p/lua_modules/a/b.lua".to_string()));
    assert_eq!(r.module_from("a.b", &vec![false, true]), Some("/p/src/a/b/init.lua".to_string()));
    assert_eq!(r.module_from("a.b", &vec![false, false, false, false]), None);
    assert_eq!(r.find_module("a.b"), None);
}

#[test]
fn bundler_chooses_and_assembles_modules() {
    let mut opts = BundleOptions::default();
    opts.standalone = false;
    opts.comments = false;
    let b = Bundler::new("/p".to_string(), "/p/main.lua".to_string(), "/p/out.lua".to_string(), opts);
    let modules = vec![("util".to_string(), "/p/util.lua".to_string()), ("main".to_string(), "/p/main.lua".to_string())];
    assert_eq!(b.modules_to_bundle(&modules).unwrap(), modules);
    let text = b.assemble(&vec![("main".to_string(), "-- c\nprint(1)".to_string())]).unwrap();
    assert_eq!(text, "\n-- Module: main\n_BUNDLER_RUNTIME.modules['main'] = function()\nprint(1)\nend\n\n-- Entry point\nrequire('main')\n");
    let mut shake = BundleOptions::default();
    shake.tree_shake = true;
    let s = Bundler::new("/p".to_string(), "/p/main.lua".to_string(), "/p/out.lua".to_string(), shake);
    assert_eq!(s.modules_to_bundle(&modules).unwrap(), vec![("main".to_string(), "/p/main.lua".to_string())]);
    let mut shake2 = BundleOptions::default();
    shake2.tree_shake = true;
    let outside = Bundler::new("/p".to_string(), "/q/main.lua".to_string(), "/p/out.lua".to_string(), shake2);
    assert!(matches!(outside.modules_to_bundle(&modules), Err(LpmError::Path(_))));
}

#[test]
fn parser_finds_dynamic_requires() {
    let p = LuaParser::new();
    assert!(p.dynamic_requires("local a = require('a')\nlocal b = require(\"b\")\nlocal c = require([[c]])").is_empty());
    assert_eq!(p.dynamic_requires("local m = require(name)"), vec!["name"]);
    assert_eq!(
        p.dynamic_requires("local x = require( prefix .. \"x\" )\nlocal y = require(get(\"y\"))\nrequire()"),
        vec!["prefix .. \"x\"", "get(\"y\")"]
    );
    assert_eq!(p.dynamic_requires("require(open"), vec!["open"]);
}

#[test]
fn resolver_records_dynamic_requires() {
    let mut r = DependencyResolver::new("/nonexistent-lpm-root", &vec!["src".to_string()]);
    assert!(r.dynamic_requires().is_empty());
    r.start("/nonexistent-lpm-root/src/main.lua").unwrap();
    r.supply("local name = 'plugins.' .. kind\nlocal m = require(name)\nreturn m").unwrap();
    assert_eq!(r.dynamic_requires(), &vec!["name".to_string()]);
    assert_eq!(r.advance().unwrap(), ResolveStep::Continue);
    assert_eq!(r.advance().unwrap(), ResolveStep::Done);
    assert_eq!(r.dynamic_requires(), &vec!["name".to_string()]);
}
