//! Project templates: their metadata, where they are found, and how a
//! listing is searched.

use vstd::prelude::*;
use crate::error::LpmError;
use crate::path::{
    ancestor_dirs, ancestors, asked_in_order, first_answered, join, join_path, lemma_first_answered_member, path_exists,
    pick_present,
};
use crate::plugins::lowercase_of;
use crate::text::{concat3, contains, contains_str, owned, views};

verus! {

/// A variable a template asks for.
#[derive(Debug, Clone)]
pub struct TemplateVariable {
    pub name: String,
    pub description: Option<String>,
    pub default: Option<String>,
    pub required: bool,
}

/// The metadata of a template (`template.yaml`).
#[derive(Debug, Clone)]
pub struct TemplateMetadata {
    pub name: String,
    pub description: String,
    pub author: Option<String>,
    pub version: Option<String>,
    pub variables: Vec<TemplateVariable>,
}

/// Where a template comes from.
#[derive(Debug, Clone, Copy, PartialEq, Eq, Structural)]
pub enum TemplateSource {
    Builtin,
    User,
}

/// A template found on disk.
#[derive(Debug, Clone)]
pub struct TemplateInfo {
    pub name: String,
    pub description: String,
    pub path: String,
    pub source: TemplateSource,
}

/// A template as texts.
pub open spec fn info_view(t: TemplateInfo) -> (Seq<char>, Seq<char>, Seq<char>, TemplateSource) {
    (t.name@, t.description@, t.path@, t.source)
}

/// Whether a template (as texts) matches a lower-case query.
pub open spec fn view_matches(t: (Seq<char>, Seq<char>, Seq<char>, TemplateSource), query_lower: Seq<char>) -> bool {
    contains(lowercase_of(t.0), query_lower) || contains(lowercase_of(t.1), query_lower)
}

/// Finds templates: built-in ones, and the user's in the LPM home.
pub struct TemplateDiscovery;

impl TemplateDiscovery {
    /// The user's templates directory: `templates` in the LPM home.
    pub fn user_templates_dir(lpm_home: &str) -> (r: String)
        ensures
            r@ == join_path(lpm_home@, "templates"@),
    {
        join(lpm_home, "templates")
    }

    /// The built-in templates directory. For a development build (the
    /// executable's directory path holds `target`) it is `src/templates` in
    /// the nearest directory above that has a `Cargo.toml` and a `src`;
    /// otherwise `templates`.
    pub fn builtin_templates_dir(exe_dir: Option<&str>) -> (r: String)
        ensures
            r@ == "templates"@ || (exe_dir matches Some(e) && contains(e@, "target"@) && exists|d: Seq<char>|
                #[trigger] ancestors(e@).contains(d) && r@ == join_path(join_path(d, "src"@), "templates"@)),
    {
        match exe_dir {
            Some(e) => {
                if contains_str(e, "target") {
                    match find_workspace_root(e) {
                        Some(root) => {
                            let src = join(root.as_str(), "src");
                            return join(src.as_str(), "templates");
                        },
                        None => {},
                    }
                }
                owned("templates")
            },
            None => owned("templates"),
        }
    }

    /// The templates that match a search query, in order: those whose name
    /// or description, in lower case, holds the query in lower case.
    pub fn filter(templates: Vec<TemplateInfo>, query: &str) -> (r: Vec<TemplateInfo>)
        ensures
            r@.map_values(|t: TemplateInfo| info_view(t)) == templates@.map_values(|t: TemplateInfo| info_view(t)).filter(
                |v: (Seq<char>, Seq<char>, Seq<char>, TemplateSource)| view_matches(v, lowercase_of(query@)),
            ),
    {
        let q = crate::plugins::lowercase(query);
        let ghost all = templates@.map_values(|t: TemplateInfo| info_view(t));
        let ghost pred = |v: (Seq<char>, Seq<char>, Seq<char>, TemplateSource)| view_matches(v, lowercase_of(query@));
        let mut r: Vec<TemplateInfo> = Vec::new();
        let mut i: usize = 0;
        while i < templates.len()
            invariant
                i <= templates@.len(),
                q@ == lowercase_of(query@),
                all == templates@.map_values(|t: TemplateInfo| info_view(t)),
                pred == (|v: (Seq<char>, Seq<char>, Seq<char>, TemplateSource)| view_matches(v, lowercase_of(query@))),
                r@.map_values(|t: TemplateInfo| info_view(t)) == all.take(i as int).filter(pred),
            decreases templates@.len() - i,
        {
            proof {
                reveal_with_fuel(Seq::<(Seq<char>, Seq<char>, Seq<char>, TemplateSource)>::filter, 1);
                assert(all.take(i + 1).drop_last() =~= all.take(i as int));
                assert(all[i as int] == info_view(templates@[i as int]));
            }
            let t = &templates[i];
            let n = crate::plugins::lowercase(t.name.as_str());
            let d = crate::plugins::lowercase(t.description.as_str());
            if contains_str(n.as_str(), q.as_str()) || contains_str(d.as_str(), q.as_str()) {
                let ghost before = r@.map_values(|t: TemplateInfo| info_view(t));
                r.push(TemplateInfo {
                    name: t.name.clone(),
                    description: t.description.clone(),
                    path: t.path.clone(),
                    source: t.source,
                });
                assert(r@.map_values(|t: TemplateInfo| info_view(t)) =~= before.push(all[i as int]));
            }
            i += 1;
        }
        assert(all.take(templates@.len() as int) =~= all);
        r
    }

    /// Where a template is looked for, in order: the user's directory (when
    /// known), then the built-in one.
    pub fn candidates(user_dir: Option<&str>, builtin_dir: &str, name: &str) -> (r: Vec<(String, TemplateSource)>)
        ensures
            match user_dir {
                Some(u) => r@.len() == 2 && r@[0].0@ == join_path(u@, name@) && r@[0].1 == TemplateSource::User
                    && r@[1].0@ == join_path(builtin_dir@, name@) && r@[1].1 == TemplateSource::Builtin,
                None => r@.len() == 1 && r@[0].0@ == join_path(builtin_dir@, name@) && r@[0].1 == TemplateSource::Builtin,
            },
    {
        let mut r: Vec<(String, TemplateSource)> = Vec::new();
        match user_dir {
            Some(u) => r.push((join(u, name), TemplateSource::User)),
            None => {},
        }
        r.push((join(builtin_dir, name), TemplateSource::Builtin));
        r
    }

    /// The error for a template found nowhere.
    pub fn not_found(name: &str) -> (e: LpmError)
        ensures
            e matches LpmError::Config(m) && m@ == "Template '"@ + name@ + "' not found"@,
    {
        LpmError::Config(concat3("Template '", name, "' not found"))
    }

    /// The information of a template found at a path.
    pub fn info(metadata: &TemplateMetadata, path: String, source: TemplateSource) -> (t: TemplateInfo)
        ensures
            t.name@ == metadata.name@,
            t.description@ == metadata.description@,
            t.path@ == path@,
            t.source == source,
    {
        TemplateInfo { name: metadata.name.clone(), description: metadata.description.clone(), path, source }
    }
}

/// The names that keep a file out of a new template when its name or its
/// path holds one of them.
pub open spec fn template_ignores() -> Seq<Seq<char>> {
    seq!["lua_modules"@, ".git"@, ".lpm"@, "target"@, "node_modules"@, ".DS_Store"@, "*.lock"@]
}

/// Whether a file stays out of a new template.
pub fn ignored_in_template(name: &str, path: &str) -> (b: bool)
    ensures
        b == exists|i: int| 0 <= i < template_ignores().len() && (contains(name@, #[trigger] template_ignores()[i])
            || contains(path@, template_ignores()[i])),
{
    let pats = vec![
        owned("lua_modules"),
        owned(".git"),
        owned(".lpm"),
        owned("target"),
        owned("node_modules"),
        owned(".DS_Store"),
        owned("*.lock"),
    ];
    assert(views(pats@) =~= template_ignores());
    let mut i: usize = 0;
    while i < pats.len()
        invariant
            i <= pats@.len(),
            views(pats@) == template_ignores(),
            forall|j: int| 0 <= j < i ==> !(contains(name@, #[trigger] template_ignores()[j]) || contains(
                path@,
                template_ignores()[j],
            )),
        decreases pats@.len() - i,
    {
        assert(template_ignores()[i as int] == pats@[i as int]@);
        if contains_str(name, pats[i].as_str()) || contains_str(path, pats[i].as_str()) {
            return true;
        }
        i += 1;
    }
    false
}

/// The `template.yaml` of a new template.
pub open spec fn new_template_yaml(name: Seq<char>, description: Seq<char>) -> Seq<char> {
    "name: "@ + name + "\ndescription: "@ + description + "\nvariables:
  - name: project_name
    description: Project name
    required: true
  - name: project_version
    description: Project version
    default: \"1.0.0\"
    required: false
  - name: lua_version
    description: Lua version
    default: \"5.4\"
    required: false
"@
}

/// The `template.yaml` of a new template: its name, its description (by
/// default `Template for <name>`), and the project variables.
pub fn template_yaml(name: &str, description: Option<&str>) -> (r: String)
    ensures
        r@ == new_template_yaml(name@, match description {
            Some(d) => d@,
            None => "Template for "@ + name@,
        }),
{
    let desc = match description {
        Some(d) => owned(d),
        None => crate::text::concat2("Template for ", name),
    };
    let head = concat3("name: ", name, "\ndescription: ");
    concat3(head.as_str(), desc.as_str(), "\nvariables:
  - name: project_name
    description: Project name
    required: true
  - name: project_version
    description: Project version
    default: \"1.0.0\"
    required: false
  - name: lua_version
    description: Lua version
    default: \"5.4\"
    required: false
")
}

/// The error when a template already exists.
pub fn template_exists_error(name: &str, dir: &str) -> (e: LpmError)
    ensures
        e matches LpmError::Config(m) && m@ == "Template '"@ + name@ + "' already exists at "@ + dir@,
{
    let a = concat3("Template '", name, "' already exists at ");
    LpmError::Config(crate::text::concat2(a.as_str(), dir))
}

/// The nearest directory from `start` upwards that holds a `Cargo.toml` and
/// a `src`, as the file system says: `start` and its parents are asked in
/// order, stopping at the first that holds both.
fn find_workspace_root(start: &str) -> (r: Option<String>)
    ensures
        r matches Some(d) ==> ancestors(start@).contains(d@),
        exists|a: Seq<bool>|
            asked_in_order(a, ancestors(start@).len() as int) && match first_answered(ancestors(start@), a) {
                Some(d) => r matches Some(q) && q@ == d,
                None => r is None,
            },
{
    let dirs = ancestor_dirs(start);
    let present = probe_workspaces(&dirs);
    proof {
        lemma_first_answered_member(ancestors(start@), present@);
    }
    pick_present(&dirs, &present)
}

/// Whether each directory holds a `Cargo.toml` and a `src`, in order, up to
/// and including the first that does.
fn probe_workspaces(dirs: &Vec<String>) -> (present: Vec<bool>)
    ensures
        asked_in_order(present@, dirs@.len() as int),
{
    let mut present: Vec<bool> = Vec::new();
    let mut i: usize = 0;
    while i < dirs.len()
        invariant
            i <= dirs@.len(),
            present@.len() == i,
            forall|j: int| 0 <= j < i ==> !present@[j],
        decreases dirs@.len() - i,
    {
        let found = is_workspace(dirs[i].as_str());
        present.push(found);
        if found {
            return present;
        }
        i += 1;
    }
    present
}

/// Whether a directory holds a `Cargo.toml` and a `src`.
fn is_workspace(dir: &str) -> bool {
    let manifest = join(dir, "Cargo.toml");
    let src = join(dir, "src");
    path_exists(manifest.as_str()) && path_exists(src.as_str())
}

} // verus!
