use lpm::templates::{ignored_in_template, template_yaml, TemplateDiscovery, TemplateInfo, TemplateMetadata, TemplateSource};
use lpm::LpmError;

fn info(name: &str, description: &str) -> TemplateInfo {
    TemplateInfo { name: name.to_string(), description: description.to_string(), path: format!("/t/{}", name), source: TemplateSource::User }
}

#[test]
fn template_directories() {
    assert_eq!(TemplateDiscovery::user_templates_dir("/h"), "/h/templates");
    assert_eq!(TemplateDiscovery::builtin_templates_dir(None), "templates");
    assert_eq!(TemplateDiscovery::builtin_templates_dir(Some("/usr/bin")), "templates");
    let c = TemplateDiscovery::candidates(Some("/h/templates"), "templates", "web");
    assert_eq!(c, vec![("/h/templates/web".to_string(), TemplateSource::User), ("templates/web".to_string(), TemplateSource::Builtin)]);
    match TemplateDiscovery::not_found("web") {
        LpmError::Config(m) => assert_eq!(m, "Template 'web' not found"),
        _ => panic!("expected a config error"),
    }
}

#[test]
fn template_search_is_case_insensitive() {
    let ts = vec![info("Web-App", "A web server"), info("cli", "Command line TOOL"), info("lib", "library")];
    let found = TemplateDiscovery::filter(ts, "tool");
    assert_eq!(found.len(), 1);
    assert_eq!(found[0].name, "cli");
    let found2 = TemplateDiscovery::filter(vec![info("Web-App", "x"), info("b", "WEB")], "WEB");
    assert_eq!(found2.len(), 2);
}

#[test]
fn new_templates() {
    assert!(ignored_in_template("lua_modules", "/p/lua_modules"));
    assert!(ignored_in_template("x.lua", "/p/.git/x.lua"));
    assert!(!ignored_in_template("main.lua", "/p/src/main.lua"));
    let yaml = template_yaml("web", None);
    assert!(yaml.starts_with("name: web\ndescription: Template for web\nvariables:\n"));
    assert!(yaml.contains("    default: \"1.0.0\"\n"));
    let meta = TemplateMetadata { name: "n".to_string(), description: "d".to_string(), author: None, version: None, variables: vec![] };
    let i = TemplateDiscovery::info(&meta, "/p".to_string(), TemplateSource::Builtin);
    assert_eq!(i.name, "n");
    assert_eq!(i.path, "/p");
}
