//! Tree-shaking: keeping only what the entry module needs.

use vstd::prelude::*;
use crate::text::eq_str;

verus! {

/// Keeps the modules a bundle needs. Only the entry module is kept: no
/// symbols are tracked across modules.
#[derive(Debug)]
pub struct TreeShaker;

impl TreeShaker {
    pub fn new() -> (t: Self) {
        TreeShaker
    }

    /// The modules kept of those resolved (name and file): the entry
    /// module's first entry, if it was resolved, and nothing else.
    pub fn shake(&self, modules: &Vec<(String, String)>, entry_module: &str) -> (r: Vec<(String, String)>)
        ensures
            r@.len() <= 1,
            r@.len() == 1 <==> exists|i: int| 0 <= i < modules@.len() && modules@[i].0@ == entry_module@,
            r@.len() == 1 ==> exists|i: int| 0 <= i < modules@.len() && modules@[i].0@ == entry_module@
                && r@[0].0@ == entry_module@ && r@[0].1@ == modules@[i].1@
                && forall|j: int| 0 <= j < i ==> modules@[j].0@ != entry_module@,
    {
        let mut i: usize = 0;
        while i < modules.len()
            invariant
                i <= modules@.len(),
                forall|j: int| 0 <= j < i ==> modules@[j].0@ != entry_module@,
            decreases modules@.len() - i,
        {
            if eq_str(modules[i].0.as_str(), entry_module) {
                let mut r: Vec<(String, String)> = Vec::new();
                r.push((modules[i].0.clone(), modules[i].1.clone()));
                return r;
            }
            i += 1;
        }
        Vec::new()
    }
}

} // verus!
