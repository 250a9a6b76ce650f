//! Resolving the modules a bundle needs: a depth-first walk from the entry
//! file through the `require`s of each module, which the caller drives by
//! reading the file of each module the walk reaches.

use vstd::prelude::*;
use crate::bundler::parser::LuaParser;
use crate::error::{LpmError, LpmResult};
use crate::path::{
    asked_in_order, first_answered, join, join_path, lemma_first_answered_member, path_has_prefix, pick_present,
    probe_paths,
    strip_path_prefix, stripped,
};
use crate::text::{concat2, concat3, eq_str, owned, replace_pat, replace_str, views};

verus! {

/// The module name of a path relative to the project: without `.lua`,
/// with `\` read as `/`, without a leading `/`, and with `/` written `.`.
pub open spec fn module_name_from(rel: Seq<char>) -> Seq<char> {
    let n = replace_pat(replace_pat(rel, ".lua"@, ""@), "\\"@, "/"@);
    let n2 = if n.len() > 0 && n[0] == '/' { n.skip(1) } else { n };
    replace_pat(n2, "/"@, "."@)
}

/// The files a module name may live in, below a directory:
/// `a/b.lua` and `a/b/init.lua` for `a.b`.
pub open spec fn module_files(name: Seq<char>) -> Seq<Seq<char>> {
    let base = replace_pat(name, "."@, "/"@);
    seq![base + ".lua"@, base + "/init.lua"@]
}

/// One step of the walk.
#[derive(Debug, Clone, PartialEq, Eq)]
pub enum ResolveStep {
    /// Read this module's file and hand its content to `supply`.
    Read { module: String, path: String },
    /// A required module was found nowhere (it may be a C module or part of
    /// the standard library); the walk goes on.
    Missing(String),
    /// The walk moved on without needing anything: a required module was
    /// already resolved, or a module's requires were all walked.
    Continue,
    /// Every module has been resolved.
    Done,
}

/// A module whose requires are being walked.
#[derive(Debug)]
struct Frame {
    module: String,
    deps: Vec<String>,
    next: usize,
}

/// Resolves all module dependencies of an entry file.
#[derive(Debug)]
pub struct DependencyResolver {
    root: String,
    module_paths: Vec<String>,
    parser: LuaParser,
    dynamic_requires: Vec<String>,
    /// Each resolved module and its file, in the order they were reached.
    modules: Vec<(String, String)>,
    /// The modules whose requires are being walked, outermost first.
    frames: Vec<Frame>,
    /// The module whose file is being read.
    pending: Option<String>,
}

/// The names of module entries.
pub open spec fn names_of(ms: Seq<(String, String)>) -> Seq<Seq<char>> {
    ms.map_values(|m: (String, String)| m.0@)
}

/// A copy of module entries.
fn copy_modules(v: &Vec<(String, String)>) -> (r: Vec<(String, String)>)
    ensures
        r@.map_values(|m: (String, String)| (m.0@, m.1@)) == v@.map_values(|m: (String, String)| (m.0@, m.1@)),
        names_of(r@) == names_of(v@),
{
    let mut r: Vec<(String, String)> = Vec::new();
    let mut i: usize = 0;
    while i < v.len()
        invariant
            i <= v@.len(),
            r@.len() == i,
            forall|j: int| 0 <= j < i ==> r@[j].0@ == v@[j].0@ && r@[j].1@ == v@[j].1@,
        decreases v@.len() - i,
    {
        r.push((v[i].0.clone(), v[i].1.clone()));
        i += 1;
    }
    assert(r@.map_values(|m: (String, String)| (m.0@, m.1@)) =~= v@.map_values(|m: (String, String)| (m.0@, m.1@)));
    assert(names_of(r@) =~= names_of(v@));
    r
}

/// A stack whose innermost module has walked one require more.
pub open spec fn step_top(s: Seq<(Seq<char>, Seq<Seq<char>>, nat)>) -> Seq<(Seq<char>, Seq<Seq<char>>, nat)> {
    s.drop_last().push((s.last().0, s.last().1, s.last().2 + 1))
}

/// How the walk's other views read off its stack: the modules in progress
/// are those on the stack, then the one whose file is awaited; the next
/// require is the innermost module's first one not yet walked, and the
/// innermost requires are that module's.
pub proof fn lemma_stack_views(r: &DependencyResolver)
    ensures
        r.in_progress().len() == r.stack().len() + (if r.awaiting() { 1int } else { 0int }),
        forall|i: int| 0 <= i < r.stack().len() ==> r.in_progress()[i] == #[trigger] r.stack()[i].0,
        r.next_require() == (if r.stack().len() == 0 {
            None
        } else if r.stack().last().2 < r.stack().last().1.len() {
            Some(r.stack().last().1[r.stack().last().2 as int])
        } else {
            None
        }),
        r.innermost_requires() == (if r.stack().len() == 0 {
            Seq::<Seq<char>>::empty()
        } else {
            r.stack().last().1
        }),
{
    assert forall|i: int| 0 <= i < r.stack().len() implies r.in_progress()[i] == #[trigger] r.stack()[i].0 by {
        assert(r.frames@.map_values(|f: Frame| f.module@)[i] == r.frames@[i].module@);
    }
}

/// A copy of `a` followed by `b`.
fn append_strings(a: &Vec<String>, b: Vec<String>) -> (r: Vec<String>)
    ensures
        views(r@) == views(a@) + views(b@),
{
    let mut r: Vec<String> = Vec::new();
    let mut i: usize = 0;
    while i < a.len()
        invariant
            i <= a@.len(),
            views(r@) == views(a@).take(i as int),
        decreases a@.len() - i,
    {
        let ghost before = views(r@);
        r.push(a[i].clone());
        assert(views(r@) =~= before.push(a@[i as int]@));
        assert(views(a@).take(i + 1) =~= views(a@).take(i as int).push(a@[i as int]@));
        i += 1;
    }
    let mut j: usize = 0;
    while j < b.len()
        invariant
            j <= b@.len(),
            views(r@) == views(a@) + views(b@).take(j as int),
        decreases b@.len() - j,
    {
        let ghost before = views(r@);
        r.push(b[j].clone());
        assert(views(r@) =~= before.push(b@[j as int]@));
        assert(views(b@).take(j + 1) =~= views(b@).take(j as int).push(b@[j as int]@));
        j += 1;
    }
    assert(views(a@).take(a@.len() as int) =~= views(a@));
    assert(views(b@).take(b@.len() as int) =~= views(b@));
    r
}

/// No name occurs twice.
pub open spec fn distinct_names(ns: Seq<Seq<char>>) -> bool {
    forall|i: int, j: int| 0 <= i < j < ns.len() ==> ns[i] != ns[j]
}

impl DependencyResolver {
    /// The names of the resolved modules, in order.
    pub closed spec fn module_names(&self) -> Seq<Seq<char>> {
        names_of(self.modules@)
    }

    /// The resolved modules and their files, in order.
    pub closed spec fn resolved(&self) -> Seq<(Seq<char>, Seq<char>)> {
        self.modules@.map_values(|m: (String, String)| (m.0@, m.1@))
    }

    /// The modules being resolved: those on the walk's stack, then the one
    /// whose file is being read.
    pub closed spec fn in_progress(&self) -> Seq<Seq<char>> {
        self.frames@.map_values(|f: Frame| f.module@) + match self.pending {
            Some(p) => seq![p@],
            None => Seq::<Seq<char>>::empty(),
        }
    }

    /// Whether a file is awaited.
    pub closed spec fn awaiting(&self) -> bool {
        self.pending is Some
    }

    /// The require to be walked next: that of the innermost module, if it
    /// has one left.
    pub closed spec fn next_require(&self) -> Option<Seq<char>> {
        if self.frames@.len() == 0 {
            None
        } else {
            let f = self.frames@.last();
            if f.next < f.deps@.len() { Some(f.deps@[f.next as int]@) } else { None }
        }
    }

    /// The requires of the innermost module, all of them.
    pub closed spec fn innermost_requires(&self) -> Seq<Seq<char>> {
        if self.frames@.len() == 0 { Seq::<Seq<char>>::empty() } else { views(self.frames@.last().deps@) }
    }

    /// The module name of a file, as `path_to_module_name` makes it.
    pub open spec fn module_name_for(&self, path: Seq<char>) -> Seq<char> {
        if path.len() > 0 && path[0] == '/' {
            module_name_from(stripped(path, self.root_dir()))
        } else {
            module_name_from(path)
        }
    }

    /// The walk's stack, outermost first: each module whose requires are
    /// being walked, with those requires and how many of them are walked.
    pub closed spec fn stack(&self) -> Seq<(Seq<char>, Seq<Seq<char>>, nat)> {
        self.frames@.map_values(|f: Frame| (f.module@, views(f.deps@), f.next as nat))
    }

    pub closed spec fn root_dir(&self) -> Seq<char> {
        self.root@
    }

    pub closed spec fn search_dirs(&self) -> Seq<Seq<char>> {
        views(self.module_paths@)
    }

    #[verifier::type_invariant]
    closed spec fn wf(self) -> bool {
        &&& distinct_names(names_of(self.modules@))
        &&& distinct_names(self.in_progress())
        &&& forall|i: int| 0 <= i < self.in_progress().len() ==>
            names_of(self.modules@).contains(#[trigger] self.in_progress()[i])
        &&& forall|k: int| 0 <= k < self.frames@.len() ==> #[trigger] self.frames@[k].next <= self.frames@[k].deps@.len()
    }

    /// The dynamic requires recorded so far: those of each module whose
    /// content was handed over, in order.
    pub closed spec fn dynamic(&self) -> Seq<Seq<char>> {
        views(self.dynamic_requires@)
    }

    /// A resolver for a project root and the directories searched for
    /// modules.
    pub fn new(root: &str, module_paths: &Vec<String>) -> (r: Self)
        ensures
            r.root_dir() == root@,
            r.search_dirs() == views(module_paths@),
            r.resolved().len() == 0,
            r.in_progress().len() == 0,
            !r.awaiting(),
            r.dynamic().len() == 0,
    {
        let mut paths: Vec<String> = Vec::new();
        let mut i: usize = 0;
        while i < module_paths.len()
            invariant
                i <= module_paths@.len(),
                views(paths@) == views(module_paths@).take(i as int),
            decreases module_paths@.len() - i,
        {
            let ghost before = views(paths@);
            paths.push(module_paths[i].clone());
            assert(views(paths@) =~= before.push(module_paths@[i as int]@));
            assert(views(module_paths@).take(i + 1) =~= views(module_paths@).take(i as int).push(module_paths@[i as int]@));
            i += 1;
        }
        assert(views(module_paths@).take(module_paths@.len() as int) =~= views(module_paths@));
        let r = DependencyResolver {
            root: owned(root),
            module_paths: paths,
            parser: LuaParser::new(),
            dynamic_requires: Vec::new(),
            modules: Vec::new(),
            frames: Vec::new(),
            pending: None,
        };
        assert(names_of(r.modules@) =~= Seq::<Seq<char>>::empty());
        assert(r.in_progress() =~= Seq::<Seq<char>>::empty());
        assert(r.resolved() =~= Seq::<(Seq<char>, Seq<char>)>::empty());
        r
    }

    /// The requires found during resolution whose target is computed at run
    /// time, in the order the modules were read (see
    /// `LuaParser::dynamic_requires`).
    pub fn dynamic_requires(&self) -> (r: &Vec<String>)
        ensures
            views(r@) == self.dynamic(),
    {
        &self.dynamic_requires
    }

    /// The module name of a file: for an absolute path, its part inside the
    /// project root (a path outside the root is refused).
    pub fn path_to_module_name(&self, path: &str) -> (r: LpmResult<String>)
        ensures
            match r {
                Ok(n) => if path@.len() > 0 && path@[0] == '/' {
                    path_has_prefix(path@, self.root_dir()) && n@ == module_name_from(stripped(path@, self.root_dir()))
                } else {
                    n@ == module_name_from(path@)
                },
                Err(e) => path@.len() > 0 && path@[0] == '/' && !path_has_prefix(path@, self.root_dir())
                    && (e matches LpmError::Path(m) && m@ == "Path "@ + path@ + " is not within project root "@
                    + self.root_dir()),
            },
    {
        proof {
            reveal_strlit(".lua");
            reveal_strlit("\\");
            reveal_strlit("/");
        }
        let v = crate::text::chars_of(path);
        let rel = if v.len() > 0 && v[0] == '/' {
            match strip_path_prefix(path, self.root.as_str()) {
                Some(s) => s,
                None => {
                    let a = concat3("Path ", path, " is not within project root ");
                    return Err(LpmError::Path(concat2(a.as_str(), self.root.as_str())));
                },
            }
        } else {
            owned(path)
        };
        let a = replace_str(rel.as_str(), ".lua", "");
        let b = replace_str(a.as_str(), "\\", "/");
        let bv = crate::text::chars_of(b.as_str());
        let c = if bv.len() > 0 && bv[0] == '/' {
            crate::text::string_of(&bv, 1, bv.len())
        } else {
            b
        };
        proof {
            if bv@.len() > 0 && bv@[0] == '/' {
                assert(bv@.subrange(1, bv@.len() as int) =~= bv@.skip(1));
            }
        }
        Ok(replace_str(c.as_str(), "/", "."))
    }

    /// Where a module is looked for, in order: its two file forms in each
    /// search directory (taken from the root unless absolute), then in
    /// `lua_modules`.
    pub open spec fn candidates(&self, name: Seq<char>) -> Seq<Seq<char>> {
        let bases = self.search_dirs().map_values(|d: Seq<char>| join_path(self.root_dir(), d)).push(
            join_path(self.root_dir(), "lua_modules"@),
        );
        let files = module_files(name);
        Seq::new(2 * bases.len(), |k: int| join_path(bases[k / 2], files[k % 2]))
    }

    /// The candidate files of a module, in search order.
    pub fn candidate_paths(&self, name: &str) -> (r: Vec<String>)
        ensures
            views(r@) == self.candidates(name@),
    {
        proof {
            reveal_strlit(".");
        }
        let base = replace_str(name, ".", "/");
        let f1 = concat2(base.as_str(), ".lua");
        let f2 = concat2(base.as_str(), "/init.lua");
        let ghost files = module_files(name@);
        assert(files[0] == f1@ && files[1] == f2@);
        let ghost all = self.candidates(name@);
        let mut r: Vec<String> = Vec::new();
        let mut i: usize = 0;
        while i < self.module_paths.len()
            invariant
                i <= self.module_paths@.len(),
                files == module_files(name@),
                files[0] == f1@ && files[1] == f2@,
                all == self.candidates(name@),
                all.len() == 2 * (self.module_paths@.len() + 1),
                views(r@) == all.take(2 * i),
            decreases self.module_paths@.len() - i,
        {
            let dir = join(self.root.as_str(), self.module_paths[i].as_str());
            self.push_pair(&mut r, dir.as_str(), &f1, &f2, Ghost(all), i);
            i += 1;
        }
        let dir = join(self.root.as_str(), "lua_modules");
        self.push_pair(&mut r, dir.as_str(), &f1, &f2, Ghost(all), i);
        assert(all.take(2 * i + 2) =~= all);
        r
    }

    /// Appends a directory's two candidate files.
    fn push_pair(&self, r: &mut Vec<String>, dir: &str, f1: &String, f2: &String, Ghost(all): Ghost<Seq<Seq<char>>>, i: usize)
        requires
            i <= self.module_paths@.len(),
            all.len() == 2 * (self.module_paths@.len() + 1),
            views(old(r)@) == all.take(2 * i),
            all[2 * i] == join_path(dir@, f1@),
            all[2 * i + 1] == join_path(dir@, f2@),
        ensures
            views(final(r)@) == all.take(2 * i + 2),
    {
        let ghost before = views(r@);
        r.push(join(dir, f1.as_str()));
        r.push(join(dir, f2.as_str()));
        assert(views(r@) =~= before.push(join_path(dir@, f1@)).push(join_path(dir@, f2@)));
        assert(all.take(2 * i + 2) =~= all.take(2 * i).push(all[2 * i]).push(all[2 * i + 1]));
    }

    /// The file of a module, given whether each candidate file (in the order
    /// of `candidates`, as far as answers are given) is present: the first
    /// that is, if any.
    pub fn module_from(&self, name: &str, present: &Vec<bool>) -> (r: Option<String>)
        ensures
            match first_answered(self.candidates(name@), present@) {
                Some(p) => r matches Some(q) && q@ == p,
                None => r is None,
            },
    {
        let cs = self.candidate_paths(name);
        pick_present(&cs, present)
    }

    /// The first candidate file of a module that is present, if any (see
    /// `module_from`, which says which one, given the file system's
    /// answers); it is always a candidate.
    pub fn find_module(&self, name: &str) -> (r: Option<String>)
        ensures
            r matches Some(p) ==> self.candidates(name@).contains(p@),
            exists|a: Seq<bool>|
                asked_in_order(a, self.candidates(name@).len() as int) && match first_answered(
                    self.candidates(name@),
                    a,
                ) {
                    Some(p) => r matches Some(q) && q@ == p,
                    None => r is None,
                },
    {
        let cs = self.candidate_paths(name);
        let present = probe_paths(&cs);
        proof {
            lemma_first_answered_member(self.candidates(name@), present@);
        }
        self.module_from(name, &present)
    }

    /// Whether a name is among the resolved modules.
    fn is_resolved(&self, name: &str) -> (b: bool)
        ensures
            b == self.module_names().contains(name@),
    {
        let mut i: usize = 0;
        while i < self.modules.len()
            invariant
                i <= self.modules@.len(),
                forall|j: int| 0 <= j < i ==> self.modules@[j].0@ != name@,
            decreases self.modules@.len() - i,
        {
            if eq_str(self.modules[i].0.as_str(), name) {
                assert(self.module_names()[i as int] == name@);
                return true;
            }
            i += 1;
        }
        proof {
            if self.module_names().contains(name@) {
                let j = choose|j: int| 0 <= j < self.module_names().len() && self.module_names()[j] == name@;
                assert(self.modules@[j].0@ == self.module_names()[j]);
            }
        }
        false
    }

    /// Whether a name is among the modules being resolved.
    fn is_in_progress(&self, name: &str) -> (b: bool)
        ensures
            b == self.in_progress().contains(name@),
    {
        let ghost stack = self.frames@.map_values(|f: Frame| f.module@);
        let mut i: usize = 0;
        while i < self.frames.len()
            invariant
                i <= self.frames@.len(),
                stack == self.frames@.map_values(|f: Frame| f.module@),
                forall|j: int| 0 <= j < i ==> self.frames@[j].module@ != name@,
            decreases self.frames@.len() - i,
        {
            if eq_str(self.frames[i].module.as_str(), name) {
                assert(self.in_progress()[i as int] == name@);
                return true;
            }
            i += 1;
        }
        let hit = match &self.pending {
            Some(p) => eq_str(p.as_str(), name),
            None => false,
        };
        proof {
            if hit {
                assert(self.in_progress()[stack.len() as int] == name@);
            } else if self.in_progress().contains(name@) {
                let j = choose|j: int| 0 <= j < self.in_progress().len() && self.in_progress()[j] == name@;
                if j < stack.len() {
                    assert(self.frames@[j].module@ == stack[j]);
                }
            }
        }
        hit
    }

    /// Takes up a module: records it with its file and awaits the file's
    /// content.
    fn enter(&mut self, name: String, path: String)
        requires
            !old(self).module_names().contains(name@),
            !old(self).awaiting(),
        ensures
            final(self).resolved() == old(self).resolved().push((name@, path@)),
            final(self).in_progress() == old(self).in_progress().push(name@),
            final(self).awaiting(),
            final(self).root_dir() == old(self).root_dir(),
            final(self).search_dirs() == old(self).search_dirs(),
            final(self).stack() == old(self).stack(),
            final(self).dynamic() == old(self).dynamic(),
    {
        proof {
            use_type_invariant(&*self);
        }
        let ghost names = self.module_names();
        let ghost prog = self.in_progress();
        let ghost res = self.resolved();
        proof {
            assert(!prog.contains(name@)) by {
                if prog.contains(name@) {
                    let j = choose|j: int| 0 <= j < prog.len() && prog[j] == name@;
                    assert(names.contains(prog[j]));
                }
            }
            assert(!names.contains(name@));
        }
        let mut modules = copy_modules(&self.modules);
        modules.push((name.clone(), path));
        proof {
            assert(names_of(modules@) =~= names.push(name@));
            assert(modules@.map_values(|m: (String, String)| (m.0@, m.1@)) =~= res.push((name@, path@)));
        }
        proof {
            let nn = names.push(name@);
            assert(distinct_names(nn)) by {
                assert forall|a: int, b: int| 0 <= a < b < nn.len() implies nn[a] != nn[b] by {
                    if b == names.len() {
                        assert(names.contains(nn[a]));
                    }
                }
            }
            assert forall|k: int| 0 <= k < prog.len() implies nn.contains(#[trigger] prog[k]) by {
                assert(names.contains(prog[k]));
                let j = choose|j: int| 0 <= j < names.len() && names[j] == prog[k];
                assert(nn[j] == prog[k]);
            }
        }
        std::mem::swap(&mut modules, &mut self.modules);
        proof {
            assert(self.module_names() =~= names.push(name@));
            assert(self.resolved() =~= res.push((name@, path@)));
            assert(prog.push(name@) =~= self.frames@.map_values(|f: Frame| f.module@) + seq![name@]);
        }
        proof {
            let stack = self.frames@.map_values(|f: Frame| f.module@);
            assert(prog =~= stack);
            let np = stack + seq![name@];
            let nn = names_of(self.modules@);
            assert(nn =~= names.push(name@));
            assert(distinct_names(np)) by {
                assert forall|a: int, b: int| 0 <= a < b < np.len() implies np[a] != np[b] by {
                    if b == stack.len() {
                        assert(prog[a] == np[a]);
                    } else {
                        assert(prog[a] == np[a] && prog[b] == np[b]);
                    }
                }
            }
            assert forall|k: int| 0 <= k < np.len() implies nn.contains(#[trigger] np[k]) by {
                if k == stack.len() {
                    assert(nn[names.len() as int] == name@);
                } else {
                    assert(prog[k] == np[k]);
                    assert(names.contains(prog[k]));
                    let j = choose|j: int| 0 <= j < names.len() && names[j] == prog[k];
                    assert(nn[j] == prog[k]);
                }
            }
        }
        self.pending = Some(name);
    }

    /// Starts the walk at the entry file. The step asks for the entry's
    /// content, unless its name cannot be made.
    pub fn start(&mut self, entry: &str) -> (r: LpmResult<ResolveStep>)
        requires
            old(self).resolved().len() == 0,
            old(self).in_progress().len() == 0,
            !old(self).awaiting(),
        ensures
            final(self).root_dir() == old(self).root_dir(),
            final(self).search_dirs() == old(self).search_dirs(),
            final(self).dynamic() == old(self).dynamic(),
            match r {
                Ok(step) => step matches ResolveStep::Read { module, path } && path@ == entry@
                    && final(self).resolved() == seq![(module@, path@)] && final(self).awaiting(),
                Err(e) => final(self).resolved().len() == 0 && e is Path,
            },
    {
        let name = match self.path_to_module_name(entry) {
            Ok(n) => n,
            Err(e) => {
                return Err(e);
            },
        };
        proof {
            assert(!self.module_names().contains(name@)) by {
                if self.module_names().contains(name@) {
                    let j = choose|j: int| 0 <= j < self.module_names().len() && self.module_names()[j] == name@;
                }
            }
        }
        self.enter(name.clone(), owned(entry));
        assert(self.resolved() =~= seq![(name@, entry@)]);
        Ok(ResolveStep::Read { module: name, path: owned(entry) })
    }

    /// Hands over the content of the module whose file was asked for; its
    /// requires are walked next.
    pub fn supply(&mut self, content: &str) -> (r: LpmResult<()>)
        requires
            old(self).awaiting(),
        ensures
            final(self).resolved() == old(self).resolved(),
            final(self).root_dir() == old(self).root_dir(),
            final(self).search_dirs() == old(self).search_dirs(),
            r is Ok ==> !final(self).awaiting() && final(self).in_progress() == old(self).in_progress()
                && final(self).innermost_requires() == crate::bundler::parser::required_by_patterns(content@) && (final(self).innermost_requires().len() > 0 ==> final(self).next_require() == Some(final(self).innermost_requires()[0])),
            r is Ok ==> final(self).stack() == old(self).stack().push(
                (old(self).in_progress().last(), final(self).innermost_requires(), 0nat),
            ),
            r is Err <==> crate::bundler::parser::first_bad_pattern() is Some,
            r is Ok ==> final(self).dynamic() == old(self).dynamic() + crate::bundler::parser::dynamic_requires_of(
                content@,
            ),
            r is Err ==> final(self).dynamic() == old(self).dynamic(),
            r matches Err(e) ==> final(self).awaiting() && exists|m: Seq<char>|
                crate::bundler::parser::first_bad_pattern() == Some(m) && (e matches LpmError::Package(msg)
                && msg@ == "Invalid regex: "@ + m),
    {
        proof {
            use_type_invariant(&*self);
        }
        let deps = match self.parser.extract_requires(content) {
            Ok(d) => d,
            Err(e) => {
                return Err(e);
            },
        };
        let found = self.parser.dynamic_requires(content);
        let recorded = append_strings(&self.dynamic_requires, found);
        self.dynamic_requires = recorded;
        let ghost prog = self.in_progress();
        let ghost stack = self.frames@.map_values(|f: Frame| f.module@);
        let module = match &self.pending {
            Some(m) => m.clone(),
            None => {
                return Ok(());
            },
        };
        proof {
            assert(prog =~= stack.push(module@));
            assert(distinct_names(stack)) by {
                assert forall|i: int, j: int| 0 <= i < j < stack.len() implies stack[i] != stack[j] by {
                    assert(prog[i] == stack[i] && prog[j] == stack[j]);
                }
            }
            assert forall|i: int| 0 <= i < stack.len() implies self.module_names().contains(#[trigger] stack[i]) by {
                assert(prog[i] == stack[i]);
            }
            assert(stack + Seq::<Seq<char>>::empty() =~= stack);
        }
        let ghost stack0 = self.stack();
        let ghost mv = module@;
        let ghost dv = views(deps@);
        self.pending = None;
        let mut frames: Vec<Frame> = Vec::new();
        std::mem::swap(&mut frames, &mut self.frames);
        frames.push(Frame { module, deps, next: 0 });
        proof {
            assert(frames@.map_values(|f: Frame| f.module@) =~= prog);
            assert(frames@.map_values(|f: Frame| f.module@) + Seq::<Seq<char>>::empty() =~= prog);
        }
        self.frames = frames;
        proof {
            assert(self.stack() =~= stack0.push((mv, dv, 0nat)));
            assert(prog.last() == mv);
        }
        Ok(())
    }

    /// One step of the walk: the next require of the innermost module is
    /// looked for. A module found on the way in is a circular dependency; a
    /// module already resolved is passed over; a new one is taken up and its
    /// file asked for. A module whose requires are all walked is left.
    #[verifier::spinoff_prover]
    #[verifier::rlimit(40)]
    pub fn advance(&mut self) -> (r: LpmResult<ResolveStep>)
        requires
            !old(self).awaiting(),
        ensures
            final(self).root_dir() == old(self).root_dir(),
            final(self).search_dirs() == old(self).search_dirs(),
            final(self).dynamic() == old(self).dynamic(),
            match r {
                Ok(ResolveStep::Done) => old(self).in_progress().len() == 0 && final(self).resolved() == old(self).resolved()
                    && !final(self).awaiting(),
                Ok(ResolveStep::Read { module, path }) => {
                    &&& final(self).resolved() == old(self).resolved().push((module@, path@))
                    &&& !old(self).module_names().contains(module@)
                    &&& !old(self).in_progress().contains(module@)
                    &&& final(self).in_progress() == old(self).in_progress().push(module@)
                    &&& final(self).awaiting()
                    &&& old(self).next_require() matches Some(req) && old(self).candidates(req).contains(path@)
                        && exists|a: Seq<bool>|
                        asked_in_order(a, old(self).candidates(req).len() as int) && first_answered(
                            old(self).candidates(req),
                            a,
                        ) == Some(path@)
                    &&& module@ == old(self).module_name_for(path@)
                },
                Ok(ResolveStep::Missing(req)) => final(self).resolved() == old(self).resolved() && !final(self).awaiting()
                    && old(self).next_require() == Some(req@) && exists|a: Seq<bool>|
                    asked_in_order(a, old(self).candidates(req@).len() as int) && first_answered(
                        old(self).candidates(req@),
                        a,
                    ) is None,
                Ok(ResolveStep::Continue) => final(self).resolved() == old(self).resolved() && !final(self).awaiting(),
                Err(e) => {
                    &&& final(self).resolved() == old(self).resolved()
                    &&& !final(self).awaiting()
                    &&& old(self).next_require() matches Some(req)
                    &&& exists|p: Seq<char>|
                        old(self).candidates(req).contains(p) && ((e is Path && p.len() > 0 && p[0] == '/'
                            && !path_has_prefix(p, old(self).root_dir())) || (old(self).in_progress().contains(
                            old(self).module_name_for(p),
                        ) && (e matches LpmError::Package(m) && m@ == "Circular dependency detected: "@
                            + old(self).module_name_for(p))))
                },
            },
            old(self).in_progress().len() == 0 ==> r matches Ok(ResolveStep::Done),
            old(self).in_progress().len() > 0 && old(self).next_require() is None ==> (r matches Ok(
                ResolveStep::Continue,
            )) && final(self).stack() == old(self).stack().drop_last(),
            old(self).next_require() is Some ==> !(r matches Ok(ResolveStep::Done)) && final(self).stack()
                == step_top(old(self).stack()),
            old(self).next_require() matches Some(req) ==> ((r matches Ok(ResolveStep::Continue)) ==> exists|
                p: Seq<char>|
                old(self).candidates(req).contains(p) && old(self).module_names().contains(
                    old(self).module_name_for(p),
                ) && !old(self).in_progress().contains(old(self).module_name_for(p))),
    {
        proof {
            use_type_invariant(&*self);
        }
        let ghost prog0 = self.in_progress();
        let ghost stack0 = self.stack();
        let ghost names0 = self.module_names();
        if self.frames.len() == 0 {
            assert(prog0 =~= Seq::<Seq<char>>::empty());
            return Ok(ResolveStep::Done);
        }
        let mut frames: Vec<Frame> = Vec::new();
        std::mem::swap(&mut frames, &mut self.frames);
        let top = frames.pop().unwrap();
        proof {
            assert(frames@.map_values(|f: Frame| f.module@) =~= prog0.drop_last());
        }
        if top.next >= top.deps.len() {
            self.frames = frames;
            assert(self.stack() =~= stack0.drop_last());
            return Ok(ResolveStep::Continue);
        }
        let req = top.deps[top.next].clone();
        let next = top.next + 1;
        let module = top.module;
        let deps = top.deps;
        frames.push(Frame { module, deps, next });
        proof {
            assert(frames@.map_values(|f: Frame| f.module@) =~= prog0);
        }
        self.frames = frames;
        proof {
            assert(self.stack() =~= step_top(stack0));
            assert(self.in_progress() =~= prog0);
        }
        let found = self.find_module(req.as_str());
        proof {
            assert(self.candidates(req@) == old(self).candidates(req@));
        }
        let dep_path = match found {
            Some(p) => p,
            None => {
                proof {
                    let a = choose|a: Seq<bool>|
                        asked_in_order(a, self.candidates(req@).len() as int) && match first_answered(
                            self.candidates(req@),
                            a,
                        ) {
                            Some(p) => found matches Some(q) && q@ == p,
                            None => found is None,
                        };
                    assert(first_answered(old(self).candidates(req@), a) is None);
                }
                return Ok(ResolveStep::Missing(req));
            },
        };
        let dep = match self.path_to_module_name(dep_path.as_str()) {
            Ok(n) => n,
            Err(e) => {
                return Err(e);
            },
        };
        if self.is_in_progress(dep.as_str()) {
            return Err(LpmError::Package(concat2("Circular dependency detected: ", dep.as_str())));
        }
        if self.is_resolved(dep.as_str()) {
            proof {
                assert(old(self).next_require() == Some(req@));
                assert(old(self).candidates(req@).contains(dep_path@));
                assert(old(self).module_name_for(dep_path@) == dep@);
                assert(old(self).module_names() == self.module_names());
                assert(old(self).module_names().contains(dep@));
                assert(self.in_progress() == old(self).in_progress());
                assert(!old(self).in_progress().contains(dep@));
                assert(old(self).candidates(req@).contains(dep_path@) && old(self).module_names().contains(
                    old(self).module_name_for(dep_path@),
                ) && !old(self).in_progress().contains(old(self).module_name_for(dep_path@)));
            }
            return Ok(ResolveStep::Continue);
        }
        proof {
            let a = choose|a: Seq<bool>|
                asked_in_order(a, self.candidates(req@).len() as int) && match first_answered(
                    self.candidates(req@),
                    a,
                ) {
                    Some(p) => found matches Some(q) && q@ == p,
                    None => found is None,
                };
            assert(first_answered(old(self).candidates(req@), a) == Some(dep_path@));
        }
        self.enter(dep.clone(), dep_path.clone());
        Ok(ResolveStep::Read { module: dep, path: dep_path })
    }

    /// The resolved modules and their files, in the order they were reached.
    pub fn modules(&self) -> (r: &Vec<(String, String)>)
        ensures
            r@.map_values(|m: (String, String)| (m.0@, m.1@)) == self.resolved(),
            distinct_names(names_of(r@)),
            names_of(r@) == self.module_names(),
    {
        proof {
            use_type_invariant(self);
        }
        &self.modules
    }
}

} // verus!
