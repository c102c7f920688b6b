//! Linking: for each file with the link suffix, a symbolic link to it at
//! the place that its path names once the suffix is off and the answers
//! are filled in.

use vstd::prelude::*;
use crate::args::GlobalArgs;
use crate::config::{Config, ValueView};
use crate::context::AnswerMap;
use crate::path::{strip_extension, without_extension};
use crate::template::{outcome, render_template_str, TemplateError};
use crate::walk::{made_ready, Found, WalkError, WalkOptions, Walker};

verus! {

/// A symbolic link to make.
#[derive(Debug, PartialEq, Eq)]
pub struct Link {
    /// The file that the link points to.
    pub source: String,
    /// Where the link stands.
    pub destination: String,
}

/// A file whose link could not be worked out.
#[derive(Debug, PartialEq, Eq)]
pub struct LinkFailure {
    /// The file.
    pub source: String,
    /// Why its path could not be rendered.
    pub error: TemplateError,
}

/// The links to make, in order, and the failure that ends them if there
/// is one.
#[derive(Debug, PartialEq, Eq)]
pub struct LinkPlan {
    pub links: Vec<Link>,
    pub failure: Option<LinkFailure>,
}

/// Whether `r` is what the file at `source` gives with `answers`: the link
/// to it from where its path without the extension, rendered as a
/// template, says; the error of the rendering where that fails.
pub open spec fn links_to(
    source: Seq<char>,
    answers: Map<Seq<char>, ValueView>,
    r: Result<Link, TemplateError>,
) -> bool {
    match outcome(without_extension(source), answers) {
        Ok(text) => r matches Ok(link) && link.source@ == source && link.destination@ == text,
        Err(fault) => r matches Err(error) && error@ == fault,
    }
}

/// The walk that finds the files to link: the one that the configuration
/// asks for, over the files with the link suffix under the root.
pub fn walker(config: &Config, global: &GlobalArgs) -> (r: Result<Walker, WalkError>)
    ensures
        made_ready(
            config.exclude@,
            Some(config.link_suffix@),
            false,
            config.respect_gitignore,
            global.root@,
            r,
        ),
{
    WalkOptions::from_config(config).with_extension(config.link_suffix.clone()).walk(
        global.root.as_str(),
    )
}

/// Works out the link for the file at `source`.
pub fn process_entry(source: &str, answers: &AnswerMap) -> (r: Result<Link, TemplateError>)
    ensures
        links_to(source@, answers@, r),
{
    let template = strip_extension(source);
    match render_template_str(template.as_str(), answers) {
        Ok(destination) => Ok(Link { source: source.to_owned(), destination }),
        Err(error) => Err(error),
    }
}

/// Works out the links for what a traversal found.
///
/// The links are those of the files that the walk yields, in the order
/// found. Where the path of one cannot be rendered, the plan ends there:
/// it holds the links before that file, and the failure.
pub fn link(walker: &Walker, answers: &AnswerMap, found: &Vec<Found>) -> (plan: LinkPlan)
    ensures
        plan.links@.len() <= walker.selected(found@).len(),
        forall|i: int|
            0 <= i < plan.links@.len() ==> links_to(
                walker.selected(found@)[i],
                answers@,
                Ok(#[trigger] plan.links@[i]),
            ),
        plan.failure is None <==> plan.links@.len() == walker.selected(found@).len(),
        plan.failure matches Some(failure) ==> {
            &&& failure.source@ == walker.selected(found@)[plan.links@.len() as int]
            &&& links_to(failure.source@, answers@, Err(failure.error))
        },
{
    let sources = walker.select(found);
    let mut links: Vec<Link> = Vec::new();
    let mut i: usize = 0;
    while i < sources.len()
        invariant
            i <= sources@.len(),
            sources@.len() == walker.selected(found@).len(),
            forall|j: int|
                0 <= j < sources@.len() ==> (#[trigger] sources@[j])@ == walker.selected(
                    found@,
                )[j],
            links@.len() == i,
            forall|j: int|
                0 <= j < i ==> links_to(
                    walker.selected(found@)[j],
                    answers@,
                    Ok(#[trigger] links@[j]),
                ),
        decreases sources@.len() - i,
    {
        match process_entry(sources[i].as_str(), answers) {
            Ok(link) => {
                links.push(link);
            },
            Err(error) => {
                let failure = LinkFailure { source: sources[i].clone(), error };
                return LinkPlan { links, failure: Some(failure) };
            },
        }
        i += 1;
    }
    LinkPlan { links, failure: None }
}

} // verus!
