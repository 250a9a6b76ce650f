//! The environment in which cargo runs for native builds.
//!
//! Cargo's home is set to the project's own `.cargo` directory, so that a
//! build cannot reach the user's global cargo credentials; network access
//! stays on for fetching crates. Running the process is the caller's part.

use vstd::prelude::*;
use crate::error::LpmError;
use crate::path::{join, join_path};
use crate::text::{concat2, decimal, owned, u64_to_string};

verus! {

/// Runs cargo with a restricted environment.
pub struct BuildSandbox;

/// A process exit code as text, with a leading `-` where it is negative.
pub open spec fn code_text(code: int) -> Seq<char> {
    if code < 0 {
        "-"@ + decimal((-code) as nat)
    } else {
        decimal(code as nat)
    }
}

/// A list of (name, value) pairs of strings, as texts.
pub open spec fn pair_views(v: Seq<(String, String)>) -> Seq<(Seq<char>, Seq<char>)> {
    v.map_values(|p: (String, String)| (p.0@, p.1@))
}

/// A list of (name, value) pairs of string slices, as texts.
pub open spec fn str_pair_views(v: Seq<(&str, &str)>) -> Seq<(Seq<char>, Seq<char>)> {
    v.map_values(|p: (&str, &str)| (p.0@, p.1@))
}

/// The environment of a sandboxed cargo run, in the order in which it is
/// set (a later entry overrides an earlier one of the same name): the
/// caller's variables, then `CARGO_HOME` as the project's `.cargo`, then
/// `CARGO_NET_OFFLINE` as `false`.
pub open spec fn sandbox_env(root: Seq<char>, extra: Seq<(Seq<char>, Seq<char>)>) -> Seq<(Seq<char>, Seq<char>)> {
    extra + seq![("CARGO_HOME"@, join_path(root, ".cargo"@)), ("CARGO_NET_OFFLINE"@, "false"@)]
}

/// The message of a failed cargo run; a run that ended without an exit code
/// counts as code 1.
pub open spec fn cargo_failure_message(code: Option<i32>) -> Seq<char> {
    "Cargo build failed with exit code: "@ + code_text(
        match code {
            Some(c) => c as int,
            None => 1,
        },
    )
}

impl BuildSandbox {
    /// Cargo's home inside the project: `.cargo` under the project root.
    pub fn cargo_home(project_root: &str) -> (r: String)
        ensures
            r@ == join_path(project_root@, ".cargo"@),
    {
        join(project_root, ".cargo")
    }

    /// The environment variables to set for a cargo run in `project_root`,
    /// in order.
    pub fn cargo_env(project_root: &str, env_vars: &[(&str, &str)]) -> (r: Vec<(String, String)>)
        ensures
            pair_views(r@) == sandbox_env(project_root@, str_pair_views(env_vars@)),
    {
        let mut r: Vec<(String, String)> = Vec::new();
        let mut i: usize = 0;
        while i < env_vars.len()
            invariant
                i <= env_vars@.len(),
                pair_views(r@) == str_pair_views(env_vars@).take(i as int),
            decreases env_vars@.len() - i,
        {
            let (k, v) = env_vars[i];
            let ghost before = r@;
            r.push((owned(k), owned(v)));
            assert(pair_views(r@) =~= pair_views(before).push((k@, v@)));
            assert(str_pair_views(env_vars@).take(i + 1) =~= str_pair_views(env_vars@).take(i as int).push(
                (k@, v@),
            ));
            i = i + 1;
        }
        assert(str_pair_views(env_vars@).take(i as int) =~= str_pair_views(env_vars@));
        let ghost before = r@;
        r.push((owned("CARGO_HOME"), Self::cargo_home(project_root)));
        r.push((owned("CARGO_NET_OFFLINE"), owned("false")));
        assert(pair_views(r@) =~= pair_views(before) + seq![
            ("CARGO_HOME"@, join_path(project_root@, ".cargo"@)),
            ("CARGO_NET_OFFLINE"@, "false"@),
        ]);
        r
    }

    /// The error of a cargo run that did not succeed, from its exit code.
    pub fn cargo_failure(code: Option<i32>) -> (e: LpmError)
        ensures
            e matches LpmError::Package(m) && m@ == cargo_failure_message(code),
    {
        let c: i32 = match code {
            Some(c) => c,
            None => 1,
        };
        let text = if c < 0 {
            let magnitude: u64 = (-(c as i64)) as u64;
            concat2("-", u64_to_string(magnitude).as_str())
        } else {
            u64_to_string(c as u64)
        };
        LpmError::Package(concat2("Cargo build failed with exit code: ", text.as_str()))
    }
}

} // verus!
