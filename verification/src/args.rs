//! The arguments of the commands, as plain values.

use vstd::prelude::*;

verus! {

/// What every command takes: where the configuration file is and which
/// directory the command works on.
#[derive(Clone, Debug, PartialEq, Eq)]
pub struct GlobalArgs {
    /// Config file
    pub config_path: String,
    /// Root directory
    pub root: String,
}

impl Default for GlobalArgs {
    fn default() -> (args: GlobalArgs)
        ensures
            args.config_path@ == "sams.toml"@,
            args.root@ == "."@,
    {
        GlobalArgs { config_path: "sams.toml".to_owned(), root: ".".to_owned() }
    }
}

/// The arguments of `sync`.
#[derive(Clone, Copy, Debug, PartialEq, Eq)]
pub struct SyncArgs {
    /// Overwrite existing answers file
    pub ask: bool,
}

impl Default for SyncArgs {
    fn default() -> (args: SyncArgs)
        ensures
            !args.ask,
    {
        SyncArgs { ask: false }
    }
}

/// The arguments of `clone`.
#[derive(Clone, Debug, PartialEq, Eq)]
pub struct CloneArgs {
    /// Git repository URL
    pub url: String,
    /// Destination directory
    pub dest: String,
}

impl CloneArgs {
    /// The arguments that clone `url` into the usual place.
    pub fn new(url: String) -> (args: CloneArgs)
        ensures
            args.url == url,
            args.dest@ == "~/.config"@,
    {
        CloneArgs { url, dest: "~/.config".to_owned() }
    }
}

/// The arguments of `init`.
#[derive(Clone, Debug, PartialEq, Eq)]
pub struct InitArgs {
    /// Directory to initialize
    pub dir: String,
    /// Do not initialize a git repository
    pub no_git: bool,
    /// Config file
    pub file: String,
    /// Overwrite existing config file
    pub force: bool,
}

impl Default for InitArgs {
    fn default() -> (args: InitArgs)
        ensures
            args.dir@ == "."@,
            args.file@ == "sams.toml"@,
            !args.no_git,
            !args.force,
    {
        InitArgs { dir: ".".to_owned(), no_git: false, file: "sams.toml".to_owned(), force: false }
    }
}

/// The arguments of `ask`.
#[derive(Clone, Copy, Debug, PartialEq, Eq)]
pub struct AskArgs {
    /// Overwrite existing answers file
    pub force: bool,
}

impl Default for AskArgs {
    fn default() -> (args: AskArgs)
        ensures
            !args.force,
    {
        AskArgs { force: false }
    }
}

/// The arguments of the command that writes the configuration's schema.
#[derive(Clone, Debug, PartialEq, Eq)]
pub struct JsonSchemaArgs {
    /// Output file
    pub file: String,
}

impl Default for JsonSchemaArgs {
    fn default() -> (args: JsonSchemaArgs)
        ensures
            args.file@ == "sams.schema.json"@,
    {
        JsonSchemaArgs { file: "sams.schema.json".to_owned() }
    }
}

} // verus!
