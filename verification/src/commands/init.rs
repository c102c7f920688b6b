//! Initializing: a first configuration file, and a git repository around
//! it unless that is not wanted.

use vstd::prelude::*;
use vstd::string::StringExecFns;
use crate::args::InitArgs;
use crate::config::{Config, DataType, Parameter};
use crate::path::{join, joined};

verus! {

/// Why nothing was initialized.
#[derive(Debug, PartialEq, Eq)]
pub enum InitError {
    /// The configuration file is there already, and overwriting it was not
    /// asked for.
    AlreadyExists { path: String },
    /// `git init` did not end well.
    Git,
}

impl InitError {
    /// The error in words.
    pub fn message(&self) -> (text: String)
        ensures
            text@ == match self {
                InitError::AlreadyExists { path } => "File already exists: "@ + path@,
                InitError::Git => "Failed to initialize Git repository"@,
            },
    {
        match self {
            InitError::AlreadyExists { path } => {
                let mut text = "File already exists: ".to_owned();
                text.append(path.as_str());
                text
            },
            InitError::Git => "Failed to initialize Git repository".to_owned(),
        }
    }
}

/// What `init` is to do.
#[derive(Debug, PartialEq, Eq)]
pub struct InitPlan {
    /// The configuration to write.
    pub config: Config,
    /// The file to write it to.
    pub config_path: String,
    /// Where the repository's data would be, if a repository is wanted.
    pub git_dir: Option<String>,
    /// Whether a file that is there is overwritten.
    pub force: bool,
}

/// Whether `parameter` is the question for the user's name: a text named
/// `user`, kept as a string, with a description and a placeholder and no
/// default.
pub open spec fn asks_for_user(parameter: Parameter) -> bool {
    &&& parameter matches Parameter::Text { name, description, default, placeholder, data_type }
    &&& name@ == "user"@
    &&& description matches Some(d)
    &&& d@ == "Enter username"@
    &&& default is None
    &&& placeholder matches Some(p)
    &&& p@ == "username"@
    &&& data_type == DataType::Str
}

/// Whether `config` is the one that a new directory starts with: the usual
/// one, with one question, for the user's name.
pub open spec fn is_first_config(config: Config) -> bool {
    &&& config.answer_file@ == ".sams-answers.toml"@
    &&& config.exclude@.len() == 0
    &&& config.template_suffix@ == "tpl"@
    &&& config.link_suffix@ == "ln"@
    &&& config.respect_gitignore
    &&& config.tasks@.len() == 0
    &&& config.parameters@.len() == 1
    &&& asks_for_user(config.parameters@[0])
}

/// The configuration that a new directory starts with.
pub fn default_config() -> (config: Config)
    ensures
        is_first_config(config),
{
    let mut config = Config::default();
    config.parameters.push(
        Parameter::Text {
            name: "user".to_owned(),
            description: Some("Enter username".to_owned()),
            default: None,
            placeholder: Some("username".to_owned()),
            data_type: DataType::Str,
        },
    );
    config
}

/// What `init` is to do with these arguments: write the first
/// configuration to the named file in the directory and, unless `no_git`
/// is set, have a repository there.
pub fn init(args: &InitArgs) -> (plan: InitPlan)
    ensures
        plan.config_path@ == joined(args.dir@, args.file@),
        plan.force == args.force,
        plan.git_dir is Some <==> !args.no_git,
        plan.git_dir matches Some(dir) ==> dir@ == joined(args.dir@, ".git"@),
        is_first_config(plan.config),
{
    let git_dir = if args.no_git {
        None
    } else {
        Some(join(args.dir.as_str(), ".git"))
    };
    InitPlan {
        config: default_config(),
        config_path: join(args.dir.as_str(), args.file.as_str()),
        git_dir,
        force: args.force,
    }
}

/// Whether `git init` is to be run: only where no repository is there.
pub fn init_git_repo(git_dir_exists: bool) -> (run: bool)
    ensures
        run == !git_dir_exists,
{
    !git_dir_exists
}

/// What the end of `git init` means: an error unless it ended well.
pub fn git_outcome(success: bool) -> (r: Result<(), InitError>)
    ensures
        success ==> r is Ok,
        !success ==> r == Err::<(), InitError>(InitError::Git),
{
    if success {
        Ok(())
    } else {
        Err(InitError::Git)
    }
}

/// Whether the configuration may be written to `path`: not over a file
/// that is there, unless `force` is set.
pub fn write_config(path: &str, exists: bool, force: bool) -> (r: Result<(), InitError>)
    ensures
        exists && !force ==> (r matches Err(InitError::AlreadyExists { path: p }) && p@
            == path@),
        !(exists && !force) ==> r is Ok,
{
    if exists && !force {
        Err(InitError::AlreadyExists { path: path.to_owned() })
    } else {
        Ok(())
    }
}

} // verus!
