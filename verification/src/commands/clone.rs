//! Cloning: a repository of dotfiles is fetched, then synced where it
//! landed.

use vstd::prelude::*;
use crate::args::{CloneArgs, GlobalArgs, SyncArgs};

verus! {

/// What `clone` is to do.
#[derive(Debug, PartialEq, Eq)]
pub struct ClonePlan {
    /// The arguments to call `git` with.
    pub git: Vec<String>,
    /// The arguments of the sync that follows.
    pub sync: SyncArgs,
    /// Where that sync works.
    pub global: GlobalArgs,
}

/// What `clone` is to do with these arguments: have `git` clone the
/// repository into the destination, then sync with the destination as the
/// root and the configuration file as given.
pub fn clone(args: &CloneArgs, global: &GlobalArgs) -> (plan: ClonePlan)
    ensures
        plan.git@.len() == 3,
        plan.git@[0]@ == "clone"@,
        plan.git@[1]@ == args.url@,
        plan.git@[2]@ == args.dest@,
        plan.sync.ask,
        plan.global.root@ == args.dest@,
        plan.global.config_path@ == global.config_path@,
{
    let mut git: Vec<String> = Vec::new();
    git.push("clone".to_owned());
    git.push(args.url.clone());
    git.push(args.dest.clone());
    ClonePlan {
        git,
        sync: SyncArgs { ask: true },
        global: GlobalArgs { config_path: global.config_path.clone(), root: args.dest.clone() },
    }
}

} // verus!
