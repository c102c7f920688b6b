//! The configuration: where answers are kept, which files are templates or
//! links, which questions to ask and which tasks to run.

use vstd::prelude::*;
use crate::text::{decimal_text, float_literal, string_of, write_signed};

verus! {

/// A value that a parameter can take.
///
/// A float is held as the text that writes it; nothing here computes with
/// it.
#[derive(Debug, PartialEq, Eq)]
pub enum Value {
    Integer(i64),
    Float(String),
    String(String),
}

/// What a [`Value`] stands for.
pub enum ValueView {
    Integer(i64),
    Float(Seq<char>),
    String(Seq<char>),
}

impl ValueView {
    /// The text that shows the value: an integer in decimal notation, a
    /// float and a string as they are.
    pub open spec fn text(self) -> Seq<char> {
        match self {
            ValueView::Integer(i) => decimal_text(i as int),
            ValueView::Float(f) => f,
            ValueView::String(s) => s,
        }
    }

    /// Whether the value is what its variant says: the text of a float
    /// writes a floating-point number.
    pub open spec fn wf(self) -> bool {
        self matches ValueView::Float(f) ==> float_literal(f)
    }
}

impl View for Value {
    type V = ValueView;

    open spec fn view(&self) -> ValueView {
        match self {
            Value::Integer(i) => ValueView::Integer(*i),
            Value::Float(f) => ValueView::Float(f@),
            Value::String(s) => ValueView::String(s@),
        }
    }
}

impl Clone for Value {
    fn clone(&self) -> (copy: Value)
        ensures
            copy == *self,
    {
        match self {
            Value::Integer(i) => Value::Integer(*i),
            Value::Float(f) => Value::Float(f.clone()),
            Value::String(s) => Value::String(s.clone()),
        }
    }
}

impl Value {
    /// The text that shows the value, as a choice among options and in a
    /// rendered template.
    pub fn to_text(&self) -> (text: String)
        ensures
            text@ == self@.text(),
    {
        match self {
            Value::Integer(i) => {
                let digits = write_signed(*i);
                let text = string_of(digits.as_slice(), 0, digits.len());
                assert(text@ =~= digits@);
                text
            },
            Value::Float(f) => f.clone(),
            Value::String(s) => s.clone(),
        }
    }
}

/// How the text that the user enters for a parameter is read.
#[derive(Clone, Copy, Debug, PartialEq, Eq, Structural)]
pub enum DataType {
    Int,
    Float,
    Str,
}

/// A question to ask the user.
#[derive(Clone, Debug, PartialEq, Eq)]
pub enum Parameter {
    /// A choice among options.
    Select {
        /// The name of the parameter
        name: String,
        /// The description which will be displayed in the prompt
        description: Option<String>,
        /// A list of options to choose from
        options: Vec<Value>,
    },
    /// A text to enter.
    Text {
        /// The name of the parameter
        name: String,
        /// The description which will be displayed in the prompt
        description: Option<String>,
        /// The default value which will be used if the user does not provide any input
        default: Option<String>,
        /// A placeholder value which will be displayed in the prompt
        placeholder: Option<String>,
        /// The type of the user parameter
        data_type: DataType,
    },
}

impl Parameter {
    /// The name under which the answer is kept and by which templates refer
    /// to it.
    pub open spec fn spec_name(&self) -> Seq<char> {
        match self {
            Parameter::Select { name, .. } => name@,
            Parameter::Text { name, .. } => name@,
        }
    }

    /// What the prompt shows: the description, or the name where there is
    /// none.
    pub open spec fn spec_message(&self) -> Seq<char> {
        match self {
            Parameter::Select { name, description, .. } => match description {
                Some(d) => d@,
                None => name@,
            },
            Parameter::Text { name, description, .. } => match description {
                Some(d) => d@,
                None => name@,
            },
        }
    }

    /// The name under which the answer is kept.
    pub fn name(&self) -> (name: &String)
        ensures
            name@ == self.spec_name(),
    {
        match self {
            Parameter::Select { name, .. } => name,
            Parameter::Text { name, .. } => name,
        }
    }

    /// What the prompt shows.
    pub fn message(&self) -> (message: &String)
        ensures
            message@ == self.spec_message(),
    {
        match self {
            Parameter::Select { name, description, .. } => match description {
                Some(d) => d,
                None => name,
            },
            Parameter::Text { name, description, .. } => match description {
                Some(d) => d,
                None => name,
            },
        }
    }
}

/// One install step: a script, run by a shell in a working directory.
#[derive(Clone, Debug, PartialEq, Eq)]
pub struct Task {
    /// The script to run
    pub script: String,
    /// The name of the task
    pub name: Option<String>,
    /// The working directory in which the command will be executed
    pub workdir: String,
    /// The shell to use to run the command
    pub shell: String,
}

impl Task {
    /// A task that runs `script` with the usual shell in the usual place.
    pub fn new(script: String) -> (task: Task)
        ensures
            task.script == script,
            task.name is None,
            task.workdir@ == "."@,
            task.shell@ == "sh"@,
    {
        Task { script, name: None, workdir: default_workdir(), shell: default_shell() }
    }

    /// What the task is called in reports: its name, or its script where it
    /// has none.
    pub open spec fn spec_label(&self) -> Seq<char> {
        match self.name {
            Some(n) => n@,
            None => self.script@,
        }
    }

    /// What the task is called in reports.
    pub fn label(&self) -> (label: &String)
        ensures
            label@ == self.spec_label(),
    {
        match &self.name {
            Some(n) => n,
            None => &self.script,
        }
    }
}

/// The configuration of the application
#[derive(Clone, Debug, PartialEq, Eq)]
pub struct Config {
    /// The file in which user parameter will be stored
    pub answer_file: String,
    /// The list of files to exclude when copying the template
    pub exclude: Vec<String>,
    /// The suffix of the template files
    pub template_suffix: String,
    /// The suffix of the link files
    pub link_suffix: String,
    /// Whether to respect the `.gitignore` file when copying the template
    pub respect_gitignore: bool,
    /// The list of parameters to ask the user
    pub parameters: Vec<Parameter>,
    /// List of install task to run
    pub tasks: Vec<Task>,
}

impl Default for Config {
    fn default() -> (config: Config)
        ensures
            config.answer_file@ == ".sams-answers.toml"@,
            config.exclude@.len() == 0,
            config.template_suffix@ == "tpl"@,
            config.link_suffix@ == "ln"@,
            config.respect_gitignore,
            config.parameters@.len() == 0,
            config.tasks@.len() == 0,
    {
        Config {
            answer_file: default_answer_file(),
            exclude: default_exclude(),
            template_suffix: default_template_suffix(),
            link_suffix: default_link_suffix(),
            respect_gitignore: default_respect_gitignore(),
            parameters: default_parameters(),
            tasks: default_tasks(),
        }
    }
}

/// Where the answers are kept unless the configuration says otherwise.
pub fn default_answer_file() -> (path: String)
    ensures
        path@ == ".sams-answers.toml"@,
{
    ".sams-answers.toml".to_owned()
}

/// Nothing is excluded unless the configuration says so.
pub fn default_exclude() -> (globs: Vec<String>)
    ensures
        globs@.len() == 0,
{
    Vec::new()
}

/// The extension that marks a file whose content is rendered.
pub fn default_template_suffix() -> (suffix: String)
    ensures
        suffix@ == "tpl"@,
{
    "tpl".to_owned()
}

/// The extension that marks a file whose path is rendered and linked.
pub fn default_link_suffix() -> (suffix: String)
    ensures
        suffix@ == "ln"@,
{
    "ln".to_owned()
}

/// Ignore files are honoured unless the configuration says otherwise.
pub fn default_respect_gitignore() -> (yes: bool)
    ensures
        yes,
{
    true
}

/// No question is asked unless the configuration holds one.
pub fn default_parameters() -> (parameters: Vec<Parameter>)
    ensures
        parameters@.len() == 0,
{
    Vec::new()
}

/// No task is run unless the configuration holds one.
pub fn default_tasks() -> (tasks: Vec<Task>)
    ensures
        tasks@.len() == 0,
{
    Vec::new()
}

/// Entered text is kept as a string unless the parameter says otherwise.
pub fn default_data_type() -> (data_type: DataType)
    ensures
        data_type == DataType::Str,
{
    DataType::Str
}

/// A task runs in the root directory unless it names another.
pub fn default_workdir() -> (dir: String)
    ensures
        dir@ == "."@,
{
    ".".to_owned()
}

/// A task's script is run by `sh` unless it names another shell.
pub fn default_shell() -> (shell: String)
    ensures
        shell@ == "sh"@,
{
    "sh".to_owned()
}

} // verus!
