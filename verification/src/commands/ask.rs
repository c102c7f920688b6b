//! Asking: one prompt for each configured parameter, in the order of the
//! configuration, and the answers kept by name.

use vstd::prelude::*;
use vstd::string::StringExecFns;
use crate::args::{AskArgs, GlobalArgs};
use crate::config::{Config, DataType, Parameter, Value, ValueView};
use crate::context::AnswerMap;
use crate::path::{join, joined};
use crate::text::{chars_of, float_literal, is_float, parse_signed, signed_literal};

verus! {

/// An entered text that is not what its parameter asks for.
#[derive(Debug, PartialEq, Eq)]
pub struct ParseError {
    /// The text as it was entered.
    pub input: String,
    /// What it was to be read as.
    pub data_type: DataType,
}

impl ParseError {
    /// The error in words, with the text that was entered.
    pub fn message(&self) -> (text: String)
        ensures
            text@ == "Failed to parse '"@ + self.input@ + match self.data_type {
                DataType::Int => "' as integer"@,
                DataType::Float => "' as float"@,
                DataType::Str => "' as string"@,
            },
    {
        let mut text = "Failed to parse '".to_owned();
        text.append(self.input.as_str());
        match self.data_type {
            DataType::Int => text.append("' as integer"),
            DataType::Float => text.append("' as float"),
            DataType::Str => text.append("' as string"),
        }
        text
    }
}

/// What `input` is when read as `data_type`: the integer that it writes,
/// the float that it writes, or the text itself. `None` where it writes no
/// integer of 64 bits, or no float.
pub open spec fn parsed(input: Seq<char>, data_type: DataType) -> Option<ValueView> {
    match data_type {
        DataType::Int => match signed_literal(input) {
            Some(i) => Some(ValueView::Integer(i)),
            None => None,
        },
        DataType::Float => if float_literal(input) {
            Some(ValueView::Float(input))
        } else {
            None
        },
        DataType::Str => Some(ValueView::String(input)),
    }
}

/// Reads the text that the user entered as the parameter's type asks.
///
/// Fails where the text is to be an integer or a float and writes none; the
/// error holds the text. A float is kept as the text that was entered,
/// `1e3` as `1e3`; once written to the answer file and read back it is the
/// same number in its usual form.
pub fn parse_input(input: &str, data_type: DataType) -> (r: Result<Value, ParseError>)
    ensures
        match parsed(input@, data_type) {
            Some(value) => r matches Ok(v) && v@ == value && v@.wf(),
            None => r matches Err(e) && e.input@ == input@ && e.data_type == data_type,
        },
{
    match data_type {
        DataType::Int => {
            let chars = chars_of(input);
            match parse_signed(chars.as_slice()) {
                Some(i) => Ok(Value::Integer(i)),
                None => Err(ParseError { input: input.to_owned(), data_type }),
            }
        },
        DataType::Float => {
            let chars = chars_of(input);
            if is_float(chars.as_slice()) {
                Ok(Value::Float(input.to_owned()))
            } else {
                Err(ParseError { input: input.to_owned(), data_type })
            }
        },
        DataType::Str => Ok(Value::String(input.to_owned())),
    }
}


/// What the user is shown for a parameter.
#[derive(Debug, PartialEq, Eq)]
pub enum Prompt {
    /// A list to choose from; the options as the text that shows them.
    Select { message: String, options: Vec<String> },
    /// A line to fill in.
    Text { message: String, default: Option<String>, placeholder: Option<String> },
}

/// Whether `prompt` is the one for `parameter`: its message is the
/// parameter's description, or its name where it has none; a choice shows
/// the text of each option in order, a text field the default and the
/// placeholder of the parameter.
pub open spec fn prompt_shows(prompt: Prompt, parameter: Parameter) -> bool {
    match parameter {
        Parameter::Select { options, .. } => {
            &&& prompt matches Prompt::Select { message, options: shown }
            &&& message@ == parameter.spec_message()
            &&& shown@.len() == options@.len()
            &&& forall|i: int|
                0 <= i < shown@.len() ==> (#[trigger] shown@[i])@ == options@[i]@.text()
        },
        Parameter::Text { default, placeholder, .. } => {
            &&& prompt matches Prompt::Text { message, default: d, placeholder: p }
            &&& message@ == parameter.spec_message()
            &&& d == default
            &&& p == placeholder
        },
    }
}

/// The prompt for `parameter`.
pub fn prompt_for(parameter: &Parameter) -> (prompt: Prompt)
    ensures
        prompt_shows(prompt, *parameter),
{
    match parameter {
        Parameter::Select { options, .. } => {
            let mut shown: Vec<String> = Vec::new();
            let mut i: usize = 0;
            while i < options.len()
                invariant
                    i <= options@.len(),
                    shown@.len() == i,
                    forall|j: int| 0 <= j < i ==> (#[trigger] shown@[j])@ == options@[j]@.text(),
                decreases options@.len() - i,
            {
                shown.push(options[i].to_text());
                i += 1;
            }
            Prompt::Select { message: parameter.message().clone(), options: shown }
        },
        Parameter::Text { default, placeholder, .. } => Prompt::Text {
            message: parameter.message().clone(),
            default: default.clone(),
            placeholder: placeholder.clone(),
        },
    }
}

/// Why asking stopped before the answers were kept.
#[derive(Debug, PartialEq, Eq)]
pub enum AskError {
    /// The prompt gave no answer; what it said.
    Prompt(String),
    /// The entered text is not what the parameter asks for.
    Parse(ParseError),
    /// What came back does not fit what was asked.
    Unexpected,
    /// The answers could not be written; what the attempt said.
    Write(String),
}

/// Where asking stands.
#[derive(Debug)]
pub enum AskState {
    /// Not started.
    Idle,
    /// The prompt for the parameter at `index` is open; `answers` holds
    /// what the parameters before it were answered with.
    Asking { index: usize, answers: AnswerMap },
    /// The answers are being written.
    Writing,
    /// Over: the answers are kept, or were there already.
    Done,
    /// Over: nothing was written.
    Failed,
}

/// What happened since the last step.
#[derive(Debug, PartialEq, Eq)]
pub enum AskEvent {
    /// The command was called; whether the answer file is there.
    Start { answer_file_exists: bool },
    /// The user chose the option at this place in the list.
    Chosen(usize),
    /// The user entered this text.
    Entered(String),
    /// The answers were written.
    Written,
    /// The prompt or the writing failed; what it said.
    Failure(String),
}

/// What to do next.
#[derive(Debug)]
pub enum AskAction {
    /// Nothing: the answers are there already.
    Skip,
    /// Show this prompt and come back with the answer.
    Prompt(Prompt),
    /// Write these answers to this file, in place of what it holds.
    Write { path: String, answers: AnswerMap },
    /// Nothing more: the answers are kept.
    Finish,
    /// Give up with this error.
    Fail(AskError),
}

/// Where the answers are kept: the configured file, as seen from the root.
pub open spec fn answer_path(global: GlobalArgs, config: Config) -> Seq<char> {
    joined(global.root@, config.answer_file@)
}

/// Where the answers are kept.
pub fn answer_file(global: &GlobalArgs, config: &Config) -> (path: String)
    ensures
        path@ == answer_path(*global, *config),
{
    join(global.root.as_str(), config.answer_file.as_str())
}

/// Whether `r` goes on with the parameter at `index`, `answers` being
/// what is answered so far: the prompt for that parameter, or, past the
/// last one, the order to write the answers to the answer file under the
/// root.
pub open spec fn goes_on(
    global: GlobalArgs,
    config: Config,
    answers: Map<Seq<char>, ValueView>,
    index: int,
    r: (AskState, AskAction),
) -> bool {
    if 0 <= index < config.parameters@.len() {
        &&& r.0 matches AskState::Asking { index: i, answers: kept }
        &&& i == index
        &&& kept@ == answers
        &&& r.1 matches AskAction::Prompt(prompt)
        &&& prompt_shows(prompt, config.parameters@[index])
    } else {
        &&& r.0 is Writing
        &&& r.1 matches AskAction::Write { path, answers: kept }
        &&& path@ == answer_path(global, config)
        &&& kept@ == answers
    }
}

/// Whether `r` gives up with `Unexpected`.
pub open spec fn gives_up(r: (AskState, AskAction)) -> bool {
    r.0 is Failed && r.1 matches AskAction::Fail(AskError::Unexpected)
}

/// Whether `r` is the step that `ask` takes from `state` on `event`.
pub open spec fn ask_step(
    args: AskArgs,
    global: GlobalArgs,
    config: Config,
    state: AskState,
    event: AskEvent,
    r: (AskState, AskAction),
) -> bool {
    match (state, event) {
        (AskState::Idle, AskEvent::Start { answer_file_exists }) => if !args.force
            && answer_file_exists {
            r.0 is Done && r.1 is Skip
        } else {
            goes_on(global, config, Map::empty(), 0, r)
        },
        (AskState::Asking { index, answers }, AskEvent::Chosen(choice)) => if index
            < config.parameters@.len() {
            match config.parameters@[index as int] {
                Parameter::Select { name, options, .. } => if choice < options@.len() {
                    goes_on(
                        global,
                        config,
                        answers@.insert(name@, options@[choice as int]@),
                        index + 1,
                        r,
                    )
                } else {
                    gives_up(r)
                },
                Parameter::Text { .. } => gives_up(r),
            }
        } else {
            gives_up(r)
        },
        (AskState::Asking { index, answers }, AskEvent::Entered(text)) => if index
            < config.parameters@.len() {
            match config.parameters@[index as int] {
                Parameter::Text { name, data_type, .. } => match parsed(text@, data_type) {
                    Some(value) => goes_on(
                        global,
                        config,
                        answers@.insert(name@, value),
                        index + 1,
                        r,
                    ),
                    None => {
                        &&& r.0 is Failed
                        &&& r.1 matches AskAction::Fail(AskError::Parse(e))
                        &&& e.input@ == text@
                        &&& e.data_type == data_type
                    },
                },
                Parameter::Select { .. } => gives_up(r),
            }
        } else {
            gives_up(r)
        },
        (AskState::Asking { .. }, AskEvent::Failure(cause)) => {
            &&& r.0 is Failed
            &&& r.1 matches AskAction::Fail(AskError::Prompt(c))
            &&& c == cause
        },
        (AskState::Writing, AskEvent::Written) => r.0 is Done && r.1 is Finish,
        (AskState::Writing, AskEvent::Failure(cause)) => {
            &&& r.0 is Failed
            &&& r.1 matches AskAction::Fail(AskError::Write(c))
            &&& c == cause
        },
        _ => gives_up(r),
    }
}

/// Goes on with the parameter at `index`.
fn go_on(global: &GlobalArgs, config: &Config, answers: AnswerMap, index: usize) -> (r: (
    AskState,
    AskAction,
))
    ensures
        goes_on(*global, *config, answers@, index as int, r),
{
    if index < config.parameters.len() {
        let prompt = prompt_for(&config.parameters[index]);
        (AskState::Asking { index, answers }, AskAction::Prompt(prompt))
    } else {
        (AskState::Writing, AskAction::Write { path: answer_file(global, config), answers })
    }
}

/// Takes one step of asking: from where it stands and what happened, to
/// where it stands next and what to do.
///
/// Called without `force` when the answer file is there, it asks nothing
/// and writes nothing. Else it asks for each parameter in the order of the
/// configuration, reads what is entered as the parameter's type asks, and
/// after the last one has the answers written. An entered text that cannot
/// be read, or a prompt that fails, ends it with nothing written.
pub fn ask(
    args: &AskArgs,
    global: &GlobalArgs,
    config: &Config,
    state: AskState,
    event: AskEvent,
) -> (r: (AskState, AskAction))
    ensures
        ask_step(*args, *global, *config, state, event, r),
{
    let unexpected = (AskState::Failed, AskAction::Fail(AskError::Unexpected));
    match (state, event) {
        (AskState::Idle, AskEvent::Start { answer_file_exists }) => {
            if !args.force && answer_file_exists {
                (AskState::Done, AskAction::Skip)
            } else {
                go_on(global, config, AnswerMap::new(), 0)
            }
        },
        (AskState::Asking { index, answers }, AskEvent::Chosen(choice)) => {
            if index >= config.parameters.len() {
                return unexpected;
            }
            match &config.parameters[index] {
                Parameter::Select { name, options, .. } => {
                    if choice < options.len() {
                        let mut answers = answers;
                        answers.insert(name.clone(), options[choice].clone());
                        go_on(global, config, answers, index + 1)
                    } else {
                        unexpected
                    }
                },
                Parameter::Text { .. } => unexpected,
            }
        },
        (AskState::Asking { index, answers }, AskEvent::Entered(text)) => {
            if index >= config.parameters.len() {
                return unexpected;
            }
            match &config.parameters[index] {
                Parameter::Text { name, data_type, .. } => {
                    match parse_input(text.as_str(), *data_type) {
                        Ok(value) => {
                            let mut answers = answers;
                            answers.insert(name.clone(), value);
                            go_on(global, config, answers, index + 1)
                        },
                        Err(error) => (AskState::Failed, AskAction::Fail(AskError::Parse(error))),
                    }
                },
                Parameter::Select { .. } => unexpected,
            }
        },
        (AskState::Asking { .. }, AskEvent::Failure(cause)) => (
            AskState::Failed,
            AskAction::Fail(AskError::Prompt(cause)),
        ),
        (AskState::Writing, AskEvent::Written) => (AskState::Done, AskAction::Finish),
        (AskState::Writing, AskEvent::Failure(cause)) => (
            AskState::Failed,
            AskAction::Fail(AskError::Write(cause)),
        ),
        _ => unexpected,
    }
}


/// The answers are written only when every parameter is answered: on the
/// answer to the last one, or at the start where there is none to ask.
pub proof fn lemma_written_when_all_answered(
    args: AskArgs,
    global: GlobalArgs,
    config: Config,
    state: AskState,
    event: AskEvent,
    r: (AskState, AskAction),
)
    requires
        ask_step(args, global, config, state, event, r),
        r.1 is Write,
    ensures
        match state {
            AskState::Idle => config.parameters@.len() == 0 && event is Start,
            AskState::Asking { index, .. } => index + 1 == config.parameters@.len(),
            _ => false,
        },
        r.0 is Writing,
{
}

/// A prompt is shown only for the parameter that follows the one just
/// answered, so the parameters are asked in the order of the
/// configuration, each once.
pub proof fn lemma_asked_in_order(
    args: AskArgs,
    global: GlobalArgs,
    config: Config,
    state: AskState,
    event: AskEvent,
    r: (AskState, AskAction),
)
    requires
        ask_step(args, global, config, state, event, r),
        r.1 is Prompt,
    ensures
        r.0 matches AskState::Asking { index: next, .. } && next < config.parameters@.len()
            && match state {
            AskState::Idle => next == 0,
            AskState::Asking { index, .. } => next == index + 1,
            _ => false,
        },
{
}

} // verus!
