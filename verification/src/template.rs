//! Templates: text in which `{{ name }}` stands for the answer to `name`,
//! and nothing else is a tag.

use vstd::prelude::*;
use vstd::string::StringExecFns;
use crate::config::ValueView;
use crate::context::AnswerMap;
use crate::text::{chars_of, digits_of, push_chars, string_of, write_unsigned};

verus! {

/// Whether `c` is blank: a space, a tab or the end of a line.
pub open spec fn is_blank(c: char) -> bool {
    c == ' ' || c == '\t' || c == '\r' || c == '\n'
}

/// Whether a name can start with `c`: a letter of the Latin alphabet or an
/// underscore.
pub open spec fn is_name_start(c: char) -> bool {
    ('a' <= c <= 'z') || ('A' <= c <= 'Z') || c == '_'
}

/// Whether a name can hold `c`: a letter, a digit or an underscore.
pub open spec fn is_name_char(c: char) -> bool {
    is_name_start(c) || ('0' <= c <= '9')
}

/// Whether `s` is a name: it starts as a name starts and holds nothing
/// that a name cannot hold.
pub open spec fn is_name(s: Seq<char>) -> bool {
    &&& s.len() > 0
    &&& is_name_start(s[0])
    &&& forall|i: int| 0 <= i < s.len() ==> is_name_char(#[trigger] s[i])
}

/// The end of the run of blanks that starts at `from`.
pub open spec fn blanks_end(s: Seq<char>, from: int) -> int
    decreases s.len() - from,
{
    if 0 <= from < s.len() && is_blank(s[from]) {
        blanks_end(s, from + 1)
    } else {
        from
    }
}

/// The end of the run of name characters that starts at `from`.
pub open spec fn name_end(s: Seq<char>, from: int) -> int
    decreases s.len() - from,
{
    if 0 <= from < s.len() && is_name_char(s[from]) {
        name_end(s, from + 1)
    } else {
        from
    }
}

/// Whether a tag opens at `at`: `{{`, `{%` or `{#`.
pub open spec fn opens_at(s: Seq<char>, at: int) -> bool {
    &&& 0 <= at
    &&& at + 1 < s.len()
    &&& s[at] == '{'
    &&& s[at + 1] == '{' || s[at + 1] == '%' || s[at + 1] == '#'
}

/// A placeholder in a template: the name it holds and where it ends.
pub struct Placeholder {
    pub name: Seq<char>,
    pub end: int,
}

/// The placeholder that starts at `at`: `{{`, a name with blanks before and
/// after it as one likes, and `}}`. `None` where what starts there is
/// anything else.
pub open spec fn placeholder_at(s: Seq<char>, at: int) -> Option<Placeholder> {
    let name_from = blanks_end(s, at + 2);
    let name_to = name_end(s, name_from);
    let close = blanks_end(s, name_to);
    if 0 <= at && at + 1 < s.len() && s[at] == '{' && s[at + 1] == '{' && name_from < name_to
        <= close && is_name_start(s[name_from]) && close + 1 < s.len() && s[close] == '}' && s[close
        + 1] == '}' {
        Some(Placeholder { name: s.subrange(name_from, name_to), end: close + 2 })
    } else {
        None
    }
}

/// Where the first tag opens that is no placeholder, in what follows the
/// first `from` characters of `s`; `None` where each tag that opens there
/// is a placeholder.
pub open spec fn fault_from(s: Seq<char>, from: int) -> Option<int>
    decreases s.len() - from,
{
    if from < 0 || from >= s.len() {
        None
    } else if opens_at(s, from) {
        match placeholder_at(s, from) {
            Some(p) => if p.end > from {
                fault_from(s, p.end)
            } else {
                Some(from)
            },
            None => Some(from),
        }
    } else {
        fault_from(s, from + 1)
    }
}

/// Where the first tag opens in `s` that is no placeholder.
pub open spec fn fault(s: Seq<char>) -> Option<int> {
    fault_from(s, 0)
}

/// Whether what follows the first `from` characters of `s` is plain: each
/// tag that opens in it is a placeholder.
pub open spec fn plain_from(s: Seq<char>, from: int) -> bool {
    fault_from(s, from) is None
}

/// Whether the template `s` is plain: text and placeholders, nothing else.
pub open spec fn plain(s: Seq<char>) -> bool {
    plain_from(s, 0)
}

/// `text` before what `rest` renders to; the name that `rest` misses where
/// it misses one.
pub open spec fn prepended(text: Seq<char>, rest: Result<Seq<char>, Seq<char>>) -> Result<
    Seq<char>,
    Seq<char>,
> {
    match rest {
        Ok(tail) => Ok(text + tail),
        Err(name) => Err(name),
    }
}

/// What follows the first `from` characters of the plain template `s`,
/// rendered with `answers`: the text as it stands, with the text of its
/// answer in place of each placeholder. The first name without an answer
/// where there is one.
pub open spec fn rendered_from(
    s: Seq<char>,
    from: int,
    answers: Map<Seq<char>, ValueView>,
) -> Result<Seq<char>, Seq<char>>
    decreases s.len() - from,
{
    if from < 0 || from >= s.len() {
        Ok(Seq::empty())
    } else if opens_at(s, from) {
        match placeholder_at(s, from) {
            Some(p) => if !answers.contains_key(p.name) {
                Err(p.name)
            } else if p.end > from {
                prepended(answers[p.name].text(), rendered_from(s, p.end, answers))
            } else {
                Ok(Seq::empty())
            },
            None => Ok(Seq::empty()),
        }
    } else {
        prepended(seq![s[from]], rendered_from(s, from + 1, answers))
    }
}

/// The plain template `s` rendered with `answers`.
pub open spec fn rendered(s: Seq<char>, answers: Map<Seq<char>, ValueView>) -> Result<
    Seq<char>,
    Seq<char>,
> {
    rendered_from(s, 0, answers)
}


/// The run of blanks that starts at `from` ends at `to`, where all between
/// them are blank and the one at `to`, if any, is not.
pub proof fn lemma_blanks_end(s: Seq<char>, from: int, to: int)
    requires
        0 <= from <= to <= s.len(),
        forall|i: int| from <= i < to ==> is_blank(#[trigger] s[i]),
        to < s.len() ==> !is_blank(s[to]),
    ensures
        blanks_end(s, from) == to,
    decreases to - from,
{
    if from < to {
        lemma_blanks_end(s, from + 1, to);
    }
}

/// The run of name characters that starts at `from` ends at `to`, where all
/// between them can stand in a name and the one at `to`, if any, cannot.
pub proof fn lemma_name_end(s: Seq<char>, from: int, to: int)
    requires
        0 <= from <= to <= s.len(),
        forall|i: int| from <= i < to ==> is_name_char(#[trigger] s[i]),
        to < s.len() ==> !is_name_char(s[to]),
    ensures
        name_end(s, from) == to,
    decreases to - from,
{
    if from < to {
        lemma_name_end(s, from + 1, to);
    }
}

/// Text before text before the rest is both texts, joined, before the rest.
pub proof fn lemma_prepended_twice(
    a: Seq<char>,
    b: Seq<char>,
    rest: Result<Seq<char>, Seq<char>>,
)
    ensures
        prepended(a, prepended(b, rest)) == prepended(a + b, rest),
{
    if let Ok(tail) = rest {
        assert(a + (b + tail) =~= (a + b) + tail);
    }
}

fn blank(c: char) -> (b: bool)
    ensures
        b == is_blank(c),
{
    c == ' ' || c == '\t' || c == '\r' || c == '\n'
}

fn name_start(c: char) -> (b: bool)
    ensures
        b == is_name_start(c),
{
    ('a' <= c && c <= 'z') || ('A' <= c && c <= 'Z') || c == '_'
}

fn name_char(c: char) -> (b: bool)
    ensures
        b == is_name_char(c),
{
    name_start(c) || ('0' <= c && c <= '9')
}

/// Finds the end of the run of blanks that starts at `from`.
fn scan_blanks(chars: &[char], from: usize) -> (to: usize)
    requires
        from <= chars@.len(),
    ensures
        to == blanks_end(chars@, from as int),
        from <= to <= chars@.len(),
{
    let mut to: usize = from;
    while to < chars.len() && blank(chars[to])
        invariant
            from <= to <= chars@.len(),
            forall|i: int| from <= i < to ==> is_blank(#[trigger] chars@[i]),
        decreases chars@.len() - to,
    {
        to += 1;
    }
    proof {
        lemma_blanks_end(chars@, from as int, to as int);
    }
    to
}

/// Finds the end of the run of name characters that starts at `from`.
fn scan_name(chars: &[char], from: usize) -> (to: usize)
    requires
        from <= chars@.len(),
    ensures
        to == name_end(chars@, from as int),
        from <= to <= chars@.len(),
{
    let mut to: usize = from;
    while to < chars.len() && name_char(chars[to])
        invariant
            from <= to <= chars@.len(),
            forall|i: int| from <= i < to ==> is_name_char(#[trigger] chars@[i]),
        decreases chars@.len() - to,
    {
        to += 1;
    }
    proof {
        lemma_name_end(chars@, from as int, to as int);
    }
    to
}

/// Whether a tag opens at `at`.
fn opens(chars: &[char], at: usize) -> (b: bool)
    requires
        at < chars@.len(),
    ensures
        b == opens_at(chars@, at as int),
{
    let n = chars.len();
    n - at > 1 && chars[at] == '{' && (chars[at + 1] == '{' || chars[at + 1] == '%' || chars[at
        + 1] == '#')
}

/// Where the name of the placeholder that starts at `at` starts and ends,
/// and where the placeholder ends.
fn find_placeholder(chars: &[char], at: usize) -> (found: Option<(usize, usize, usize)>)
    requires
        opens_at(chars@, at as int),
    ensures
        match placeholder_at(chars@, at as int) {
            Some(p) => found matches Some((from, to, end)) && from <= to <= end <= chars@.len()
                && p.name == chars@.subrange(from as int, to as int) && p.end == end && end
                > at,
            None => found is None,
        },
{
    let n = chars.len();
    if chars[at + 1] != '{' {
        return None;
    }
    let name_from = scan_blanks(chars, at + 2);
    let name_to = scan_name(chars, name_from);
    let close = scan_blanks(chars, name_to);
    if name_from < name_to && name_start(chars[name_from]) && n - close > 1 && chars[close] == '}'
        && chars[close + 1] == '}' {
        Some((name_from, name_to, close + 2))
    } else {
        None
    }
}

/// Finds where the first tag opens that is no placeholder.
pub fn find_fault(chars: &[char]) -> (at: Option<usize>)
    ensures
        at is Some <==> fault(chars@) is Some,
        at matches Some(i) ==> fault(chars@) == Some(i as int) && i < chars@.len(),
{
    let mut i: usize = 0;
    while i < chars.len()
        invariant
            i <= chars@.len(),
            fault(chars@) == fault_from(chars@, i as int),
        decreases chars@.len() - i,
    {
        if opens(chars, i) {
            match find_placeholder(chars, i) {
                Some((_, _, end)) => {
                    i = end;
                },
                None => {
                    return Some(i);
                },
            }
        } else {
            i += 1;
        }
    }
    None
}

/// Whether the template is plain: text and placeholders, nothing else.
pub fn is_plain(chars: &[char]) -> (b: bool)
    ensures
        b == plain(chars@),
{
    find_fault(chars).is_none()
}

/// Renders a plain template with `answers`; fails with the first name that
/// has no answer.
fn render_plain(chars: &[char], answers: &AnswerMap) -> (r: Result<Vec<char>, String>)
    requires
        plain(chars@),
    ensures
        match rendered(chars@, answers@) {
            Ok(text) => r matches Ok(out) && out@ == text,
            Err(name) => r matches Err(missing) && missing@ == name,
        },
{
    let mut out: Vec<char> = Vec::new();
    let mut i: usize = 0;
    while i < chars.len()
        invariant
            i <= chars@.len(),
            plain_from(chars@, i as int),
            rendered(chars@, answers@) == prepended(
                out@,
                rendered_from(chars@, i as int, answers@),
            ),
        decreases chars@.len() - i,
    {
        let ghost before = out@;
        if opens(chars, i) {
            match find_placeholder(chars, i) {
                Some((from, to, end)) => {
                    let name = string_of(chars, from, to);
                    match answers.get(name.as_str()) {
                        Some(value) => {
                            let text = chars_of(value.to_text().as_str());
                            push_chars(&mut out, text.as_slice(), 0, text.len());
                            proof {
                                assert(text@.subrange(0, text@.len() as int) =~= text@);
                                lemma_prepended_twice(
                                    before,
                                    text@,
                                    rendered_from(chars@, end as int, answers@),
                                );
                            }
                            i = end;
                        },
                        None => {
                            return Err(name);
                        },
                    }
                },
                None => {
                    assert(false);
                },
            }
        } else {
            out.push(chars[i]);
            proof {
                assert(out@ =~= before + seq![chars@[i as int]]);
                lemma_prepended_twice(
                    before,
                    seq![chars@[i as int]],
                    rendered_from(chars@, i + 1, answers@),
                );
            }
            i += 1;
        }
    }
    assert(out@ + Seq::<char>::empty() =~= out@);
    Ok(out)
}

/// Why a template was not rendered.
#[derive(Debug, PartialEq, Eq)]
pub enum TemplateError {
    /// The template asks for a name that has no answer.
    Undefined { name: String },
    /// A tag opens at this character of the template that is no
    /// placeholder; the first character counts as 0.
    Syntax { at: usize },
}

/// What a [`TemplateError`] stands for.
pub enum TemplateErrorView {
    Undefined { name: Seq<char> },
    Syntax { at: int },
}

impl View for TemplateError {
    type V = TemplateErrorView;

    open spec fn view(&self) -> TemplateErrorView {
        match self {
            TemplateError::Undefined { name } => TemplateErrorView::Undefined { name: name@ },
            TemplateError::Syntax { at } => TemplateErrorView::Syntax { at: *at as int },
        }
    }
}

impl TemplateError {
    /// The error in words.
    pub fn message(&self) -> (text: String)
        ensures
            text@ == match self {
                TemplateError::Undefined { name } => "Variable not found in context: "@ + name@,
                TemplateError::Syntax { at } => "Unsupported template syntax at character "@
                    + digits_of(*at as nat),
            },
    {
        match self {
            TemplateError::Undefined { name } => {
                let mut text = "Variable not found in context: ".to_owned();
                text.append(name.as_str());
                text
            },
            TemplateError::Syntax { at } => {
                let digits = write_unsigned(*at as u64);
                let place = string_of(digits.as_slice(), 0, digits.len());
                assert(place@ =~= digits@);
                let mut text = "Unsupported template syntax at character ".to_owned();
                text.append(place.as_str());
                text
            },
        }
    }
}

/// What the template `s` gives with `answers`: where it is plain, its text
/// with the text of its answer in place of each placeholder, or the error
/// of the first name without an answer; else the error of the first tag
/// that is no placeholder.
pub open spec fn outcome(s: Seq<char>, answers: Map<Seq<char>, ValueView>) -> Result<
    Seq<char>,
    TemplateErrorView,
> {
    match fault(s) {
        Some(at) => Err(TemplateErrorView::Syntax { at }),
        None => match rendered(s, answers) {
            Ok(text) => Ok(text),
            Err(name) => Err(TemplateErrorView::Undefined { name }),
        },
    }
}

/// What an outcome of rendering holds: the text, or what the error stands
/// for.
pub open spec fn outcome_view(r: Result<String, TemplateError>) -> Result<
    Seq<char>,
    TemplateErrorView,
> {
    match r {
        Ok(text) => Ok(text@),
        Err(error) => Err(error@),
    }
}

/// Whether `r` is what the template `s` gives with `answers`.
pub open spec fn renders_to(
    s: Seq<char>,
    answers: Map<Seq<char>, ValueView>,
    r: Result<String, TemplateError>,
) -> bool {
    outcome_view(r) == outcome(s, answers)
}

/// Rendering a template twice with the same answers gives the same
/// outcome: the same text, character for character, or the same error.
pub proof fn lemma_rendering_repeats(
    s: Seq<char>,
    answers: Map<Seq<char>, ValueView>,
    first: Result<String, TemplateError>,
    second: Result<String, TemplateError>,
)
    requires
        renders_to(s, answers, first),
        renders_to(s, answers, second),
    ensures
        outcome_view(first) == outcome_view(second),
{
}

/// The template that is one placeholder for `name`, without blanks.
pub open spec fn placeholder_for(name: Seq<char>) -> Seq<char> {
    seq!['{', '{'] + name + seq!['}', '}']
}

/// A template that is one placeholder is plain, and renders to the text of
/// the answer to its name: an integer in decimal notation, a float and a
/// string as they are.
pub proof fn lemma_placeholder_renders_answer(
    name: Seq<char>,
    answers: Map<Seq<char>, ValueView>,
)
    requires
        is_name(name),
        answers.contains_key(name),
    ensures
        plain(placeholder_for(name)),
        rendered(placeholder_for(name), answers) == Ok::<Seq<char>, Seq<char>>(
            answers[name].text(),
        ),
        outcome(placeholder_for(name), answers) == Ok::<Seq<char>, TemplateErrorView>(
            answers[name].text(),
        ),
{
    let s = placeholder_for(name);
    let n = name.len() as int;
    assert(s.len() == n + 4);
    assert(s[0] == '{' && s[1] == '{');
    assert(s[n + 2] == '}' && s[n + 3] == '}');
    assert forall|i: int| 2 <= i < n + 2 implies is_name_char(#[trigger] s[i]) by {
        assert(s[i] == name[i - 2]);
    }
    assert(s[2] == name[0]);
    lemma_blanks_end(s, 2, 2);
    lemma_name_end(s, 2, n + 2);
    lemma_blanks_end(s, n + 2, n + 2);
    assert(s.subrange(2, n + 2) =~= name);
    let p = placeholder_at(s, 0);
    assert(p == Some(Placeholder { name, end: n + 4 }));
    assert(opens_at(s, 0));
    assert(plain_from(s, n + 4));
    assert(rendered_from(s, n + 4, answers) == Ok::<Seq<char>, Seq<char>>(Seq::empty()));
    assert(answers[name].text() + Seq::<char>::empty() =~= answers[name].text());
}

/// A text in which no tag opens is a plain template, and renders to itself
/// whatever the answers.
pub proof fn lemma_text_renders_itself(s: Seq<char>, answers: Map<Seq<char>, ValueView>)
    requires
        forall|i: int| 0 <= i < s.len() ==> !opens_at(s, i),
    ensures
        plain(s),
        rendered(s, answers) == Ok::<Seq<char>, Seq<char>>(s),
        outcome(s, answers) == Ok::<Seq<char>, TemplateErrorView>(s),
{
    lemma_text_renders_itself_from(s, answers, 0);
    assert(s.skip(0) =~= s);
}

/// What follows the first `from` characters of a text in which no tag
/// opens is plain, and renders to itself.
pub proof fn lemma_text_renders_itself_from(
    s: Seq<char>,
    answers: Map<Seq<char>, ValueView>,
    from: int,
)
    requires
        0 <= from <= s.len(),
        forall|i: int| 0 <= i < s.len() ==> !opens_at(s, i),
    ensures
        plain_from(s, from),
        rendered_from(s, from, answers) == Ok::<Seq<char>, Seq<char>>(s.skip(from)),
    decreases s.len() - from,
{
    if from < s.len() {
        lemma_text_renders_itself_from(s, answers, from + 1);
        assert(seq![s[from]] + s.skip(from + 1) =~= s.skip(from));
    } else {
        assert(s.skip(from) =~= Seq::<char>::empty());
    }
}

/// Renders `template` with `answers`.
///
/// A template of text and `{{ name }}` placeholders gives its text with
/// the text of its answer in place of each placeholder, and fails where a
/// name has no answer, with the first such name. A value goes in as it is,
/// and what it holds is not rendered again. A template in which anything
/// else opens with `{{`, `{%` or `{#` is refused, with the place of the
/// first such tag.
pub fn render_template_str(template: &str, answers: &AnswerMap) -> (r: Result<
    String,
    TemplateError,
>)
    ensures
        renders_to(template@, answers@, r),
{
    let chars = chars_of(template);
    match find_fault(chars.as_slice()) {
        Some(at) => Err(TemplateError::Syntax { at }),
        None => match render_plain(chars.as_slice(), answers) {
            Ok(out) => {
                let text = string_of(out.as_slice(), 0, out.len());
                assert(text@ =~= out@);
                Ok(text)
            },
            Err(name) => Err(TemplateError::Undefined { name }),
        },
    }
}

} // verus!
