//! Rendering: for each file with the template suffix, its content with the
//! answers filled in, written beside it under the name without the suffix.

use vstd::prelude::*;
use crate::args::GlobalArgs;
use crate::config::{Config, ValueView};
use crate::context::AnswerMap;
use crate::path::{strip_extension, without_extension};
use crate::template::{outcome, render_template_str, TemplateError, TemplateErrorView};
use crate::walk::{made_ready, WalkError, WalkOptions, Walker};

verus! {

/// A file to write.
#[derive(Debug, PartialEq, Eq)]
pub struct Rendered {
    /// Where to write it, in place of what is there.
    pub destination: String,
    /// What to write.
    pub text: String,
}

/// Whether `r` is what the template file at `source`, which holds
/// `content`, gives with `answers`: the rendered content, to be written to
/// the path without the extension; the error of the rendering where that
/// fails.
pub open spec fn renders_file(
    source: Seq<char>,
    content: Seq<char>,
    answers: Map<Seq<char>, ValueView>,
    r: Result<Rendered, TemplateError>,
) -> bool {
    match outcome(content, answers) {
        Ok(text) => r matches Ok(out) && out.destination@ == without_extension(source)
            && out.text@ == text,
        Err(fault) => r matches Err(error) && error@ == fault,
    }
}

/// What is to be written for a template file, or why nothing is: the
/// destination and the text, or what the error stands for.
pub open spec fn rendered_view(r: Result<Rendered, TemplateError>) -> Result<
    (Seq<char>, Seq<char>),
    TemplateErrorView,
> {
    match r {
        Ok(out) => Ok((out.destination@, out.text@)),
        Err(error) => Err(error@),
    }
}

/// Rendering a template file twice, with the same content and the same
/// answers, asks for the same text at the same place both times, or fails
/// both times with the same error.
pub proof fn lemma_rendering_file_repeats(
    source: Seq<char>,
    content: Seq<char>,
    answers: Map<Seq<char>, ValueView>,
    first: Result<Rendered, TemplateError>,
    second: Result<Rendered, TemplateError>,
)
    requires
        renders_file(source, content, answers, first),
        renders_file(source, content, answers, second),
    ensures
        rendered_view(first) == rendered_view(second),
{
}

/// The walk that finds the files to render: the one that the
/// configuration asks for, over the files with the template suffix under
/// the root.
pub fn walker(config: &Config, global: &GlobalArgs) -> (r: Result<Walker, WalkError>)
    ensures
        made_ready(
            config.exclude@,
            Some(config.template_suffix@),
            false,
            config.respect_gitignore,
            global.root@,
            r,
        ),
{
    WalkOptions::from_config(config).with_extension(config.template_suffix.clone()).walk(
        global.root.as_str(),
    )
}

/// Renders the template file at `source`, which holds `content`.
///
/// The template file itself is left as it is: what is to be written goes
/// to the path without the extension.
pub fn render(source: &str, content: &str, answers: &AnswerMap) -> (r: Result<
    Rendered,
    TemplateError,
>)
    ensures
        renders_file(source@, content@, answers@, r),
{
    match render_template_str(content, answers) {
        Ok(text) => Ok(Rendered { destination: strip_extension(source), text }),
        Err(error) => Err(error),
    }
}

} // verus!
