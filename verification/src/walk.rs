//! Which of the files under a root directory a stage works on.

use vstd::prelude::*;
use vstd::string::StringExecFns;
use crate::config::Config;
use crate::path::{
    component_at, contains_dir_component, contains_hidden, extension, extension_of, has_dir_component,
    has_hidden_component, join, joined,
};
use crate::text::{chars_of, string_of};

verus! {

/// `ignore::overrides::Override`: a compiled set of globs.
#[verifier::external_type_specification]
#[verifier::external_body]
pub struct ExGlobMatcher(ignore::overrides::Override);

/// `ignore::overrides::OverrideBuilder`: what collects the globs of a set.
#[verifier::external_type_specification]
#[verifier::external_body]
pub struct ExGlobBuilder(ignore::overrides::OverrideBuilder);

/// `ignore::Error`: why a line was not taken, or a set not built.
#[verifier::external_type_specification]
#[verifier::external_body]
pub struct ExGlobError(ignore::Error);

/// The directory that the globs of an `OverrideBuilder` are relative to,
/// as the builder keeps it.
pub uninterp spec fn builder_root(builder: ignore::overrides::OverrideBuilder) -> Seq<char>;

/// The lines of the globs that an `OverrideBuilder` holds, as it keeps
/// them and in the order in which they were added.
pub uninterp spec fn builder_lines(builder: ignore::overrides::OverrideBuilder) -> Seq<
    Seq<char>,
>;

/// The directory that the globs of an `Override` are relative to, as the
/// matcher keeps it.
pub uninterp spec fn matcher_root(matcher: ignore::overrides::Override) -> Seq<char>;

/// The lines of the globs that an `Override` was built from, as its
/// builder kept them and in the order in which they were added.
pub uninterp spec fn matcher_lines(matcher: ignore::overrides::Override) -> Seq<Seq<char>>;

/// Whether `OverrideBuilder::add` takes `line`, for a builder as
/// `OverrideBuilder::new` makes it: whether the glob that the line holds
/// can be compiled. A line that holds none is taken.
pub uninterp spec fn line_accepted(line: Seq<char>) -> bool;

/// Whether `OverrideBuilder::build` succeeds for a builder with this root
/// and these lines: whether their globs can be compiled into one set.
pub uninterp spec fn set_builds(root: Seq<char>, lines: Seq<Seq<char>>) -> bool;

/// What `Override::matched` says of `path`, a directory or not, for a
/// matcher with this root and these lines.
pub uninterp spec fn glob_verdict(
    root: Seq<char>,
    lines: Seq<Seq<char>>,
    path: Seq<char>,
    is_dir: bool,
) -> Verdict;

/// What a set of globs says of a path.
#[derive(Clone, Copy, Debug, PartialEq, Eq, Structural)]
pub enum Verdict {
    /// No glob matched.
    Unmatched,
    /// The glob that decides says that the path is left out.
    Ignore,
    /// The glob that decides says that the path is kept.
    Whitelist,
}

/// The root as a builder keeps it on Unix: without `./` at its start.
pub open spec fn kept_root(root: Seq<char>) -> Seq<char> {
    if root.len() >= 2 && root[0] == '.' && root[1] == '/' {
        root.skip(2)
    } else {
        root
    }
}

/// Whether `c` is white space, as `char::is_whitespace` has it.
pub open spec fn is_space(c: char) -> bool {
    ||| '\u{9}' <= c <= '\u{d}'
    ||| c == ' '
    ||| c == '\u{85}'
    ||| c == '\u{a0}'
    ||| c == '\u{1680}'
    ||| '\u{2000}' <= c <= '\u{200a}'
    ||| c == '\u{2028}'
    ||| c == '\u{2029}'
    ||| c == '\u{202f}'
    ||| c == '\u{205f}'
    ||| c == '\u{3000}'
}

/// `s` without the white space at its end.
pub open spec fn trimmed(s: Seq<char>) -> Seq<char>
    decreases s.len(),
{
    if s.len() > 0 && is_space(s.last()) {
        trimmed(s.drop_last())
    } else {
        s
    }
}

/// The line as a builder keeps it: without the white space at its end,
/// unless it ends in a backslash and a space.
pub open spec fn kept_line(line: Seq<char>) -> Seq<char> {
    if line.len() >= 2 && line[line.len() - 2] == '\\' && line[line.len() - 1] == ' ' {
        line
    } else {
        trimmed(line)
    }
}

/// Whether `line` holds a glob: it is no comment, which starts with `#`,
/// and not blank.
pub open spec fn holds_glob(line: Seq<char>) -> bool {
    !(line.len() > 0 && line[0] == '#') && kept_line(line).len() > 0
}

/// `OverrideBuilder::new`: a builder for globs relative to `root`, which
/// it keeps without `./` at its start, with no line yet.
#[verifier::external_body]
fn new_builder(root: &str) -> (builder: ignore::overrides::OverrideBuilder)
    ensures
        builder_root(builder) == kept_root(root@),
        builder_lines(builder).len() == 0,
{
    ignore::overrides::OverrideBuilder::new(root)
}

/// `OverrideBuilder::add`, on a builder as `OverrideBuilder::new` makes
/// it, which is the only kind here: a comment and a blank line are taken
/// and nothing is kept of them. Any other line is kept, without the white
/// space at its end, where its glob compiles; where it does not, the call
/// fails and leaves the builder as it was. Whether the glob compiles
/// depends on the line alone.
#[verifier::external_body]
fn add_line(builder: &mut ignore::overrides::OverrideBuilder, line: &str) -> (r: Result<
    (),
    ignore::Error,
>)
    ensures
        r is Ok <==> line_accepted(line@),
        !holds_glob(line@) ==> r is Ok,
        builder_root(*final(builder)) == builder_root(*old(builder)),
        r is Ok && holds_glob(line@) ==> builder_lines(*final(builder)) == builder_lines(
            *old(builder),
        ).push(kept_line(line@)),
        r is Err || !holds_glob(line@) ==> builder_lines(*final(builder)) == builder_lines(
            *old(builder),
        ),
{
    builder.add(line).map(|_| ())
}

/// `OverrideBuilder::build`: succeeds where the globs of the builder's
/// lines compile into one set, which depends on the builder alone, and
/// then gives a matcher with the builder's root and lines.
#[verifier::external_body]
fn build_matcher(builder: &ignore::overrides::OverrideBuilder) -> (r: Result<
    ignore::overrides::Override,
    ignore::Error,
>)
    ensures
        r is Ok <==> set_builds(builder_root(*builder), builder_lines(*builder)),
        r matches Ok(matcher) ==> matcher_root(matcher) == builder_root(*builder)
            && matcher_lines(matcher) == builder_lines(*builder),
{
    builder.build()
}

/// `Override::matched`: the verdict of the matcher's globs on `path`.
#[verifier::external_body]
fn verdict_on(matcher: &ignore::overrides::Override, path: &str, is_dir: bool) -> (verdict:
    Verdict)
    ensures
        verdict == glob_verdict(matcher_root(*matcher), matcher_lines(*matcher), path@, is_dir),
{
    match matcher.matched(path, is_dir) {
        ignore::Match::None => Verdict::Unmatched,
        ignore::Match::Ignore(_) => Verdict::Ignore,
        ignore::Match::Whitelist(_) => Verdict::Whitelist,
    }
}

/// How a walk chooses among the files under its root.
#[derive(Clone, Debug, PartialEq, Eq)]
pub struct WalkOptions {
    /// Filter files by extension
    pub filter_extension: Option<String>,
    /// Globs of what is left out
    pub excludes: Vec<String>,
    /// Ignore hidden files
    pub ignore_hidden: bool,
    /// Honour ignore files
    pub respect_gitignore: bool,
}

impl Default for WalkOptions {
    fn default() -> (options: WalkOptions)
        ensures
            options.filter_extension is None,
            options.excludes@.len() == 0,
            !options.ignore_hidden,
            options.respect_gitignore,
    {
        WalkOptions {
            filter_extension: None,
            excludes: Vec::new(),
            ignore_hidden: false,
            respect_gitignore: true,
        }
    }
}

/// Why a walk could not start.
#[derive(Debug, PartialEq, Eq)]
pub enum WalkError {
    /// The line is no glob.
    Glob { line: String },
    /// The globs could not be put together into one matcher.
    Matcher,
}

impl WalkError {
    /// The error in words.
    pub fn message(&self) -> (text: String)
        ensures
            text@ == match self {
                WalkError::Glob { line } => "Invalid glob: "@ + line@,
                WalkError::Matcher => "Failed to build the glob matcher"@,
            },
    {
        match self {
            WalkError::Glob { line } => {
                let mut text = "Invalid glob: ".to_owned();
                text.append(line.as_str());
                text
            },
            WalkError::Matcher => "Failed to build the glob matcher".to_owned(),
        }
    }
}

/// The name of the directory in which version control keeps its data.
pub open spec fn vcs_name() -> Seq<char> {
    seq!['.', 'g', 'i', 't']
}

/// The line that leaves out the version-control directory.
pub open spec fn vcs_line() -> Seq<char> {
    seq!['!', '.', 'g', 'i', 't', '/']
}

/// The line that leaves out what `glob` matches.
pub open spec fn exclude_line(glob: Seq<char>) -> Seq<char> {
    seq!['!'] + glob
}

/// The lines that a walk hands to its matcher: the one for the
/// version-control directory, then one for each glob of `excludes`.
pub open spec fn walk_lines(excludes: Seq<String>) -> Seq<Seq<char>> {
    Seq::new(
        excludes.len() + 1,
        |i: int|
            if i == 0 {
                vcs_line()
            } else {
                exclude_line(excludes[i - 1]@)
            },
    )
}

/// The lines as a matcher keeps them, each without the white space at its
/// end.
pub open spec fn kept_lines(lines: Seq<Seq<char>>) -> Seq<Seq<char>> {
    Seq::new(lines.len(), |i: int| kept_line(lines[i]))
}

/// Whether the globs leave `path` out: the verdict of a matcher at `root`
/// on `path`, or on one of the directories above it up to the root, is to
/// ignore it.
pub open spec fn left_out(
    root: Seq<char>,
    lines: Seq<Seq<char>>,
    path: Seq<char>,
    is_dir: bool,
) -> bool {
    ||| glob_verdict(kept_root(root), lines, joined(root, path), is_dir) == Verdict::Ignore
    ||| exists|k: int|
        0 < k < path.len() && path[k] == '/' && #[trigger] glob_verdict(
            kept_root(root),
            lines,
            joined(root, path.take(k)),
            true,
        ) == Verdict::Ignore
}

/// A line that starts with what is no white space and no `#` holds a glob,
/// and is kept with the same start.
pub proof fn lemma_kept_line(line: Seq<char>)
    requires
        line.len() > 0,
        !is_space(line[0]),
        line[0] != '#',
    ensures
        holds_glob(line),
        kept_line(line).len() > 0,
        kept_line(line)[0] == line[0],
{
    lemma_trimmed(line);
}

/// What is left of a text that starts with what is no white space starts
/// with the same.
pub proof fn lemma_trimmed(s: Seq<char>)
    requires
        s.len() > 0,
        !is_space(s[0]),
    ensures
        trimmed(s).len() > 0,
        trimmed(s)[0] == s[0],
    decreases s.len(),
{
    if is_space(s.last()) {
        assert(s.len() > 1);
        assert(s.drop_last()[0] == s[0]);
        lemma_trimmed(s.drop_last());
    }
}

/// Whether `r` is what making a walk ready at `root` gives: the walk with
/// these options where each of its lines is a glob and the globs make a
/// set; the error of the first line that is no glob; the error of the set
/// where each line is a glob and they make none.
pub open spec fn made_ready(
    excludes: Seq<String>,
    filter: Option<Seq<char>>,
    ignore_hidden: bool,
    respect_gitignore: bool,
    root: Seq<char>,
    r: Result<Walker, WalkError>,
) -> bool {
    let lines = walk_lines(excludes);
    match r {
        Ok(walker) => {
            &&& forall|i: int| 0 <= i < lines.len() ==> line_accepted(#[trigger] lines[i])
            &&& set_builds(kept_root(root), kept_lines(lines))
            &&& walker.root() == root
            &&& walker.lines() == kept_lines(lines)
            &&& walker.filter() == filter
            &&& walker.skips_hidden() == ignore_hidden
            &&& walker.honours_ignore_files() == respect_gitignore
        },
        Err(WalkError::Glob { line }) => exists|k: int|
            {
                &&& 0 <= k < lines.len()
                &&& !line_accepted(#[trigger] lines[k])
                &&& line@ == lines[k]
                &&& forall|j: int| 0 <= j < k ==> line_accepted(#[trigger] lines[j])
            },
        Err(WalkError::Matcher) => {
            &&& forall|i: int| 0 <= i < lines.len() ==> line_accepted(#[trigger] lines[i])
            &&& !set_builds(kept_root(root), kept_lines(lines))
        },
    }
}

/// A walk that is ready: its globs are compiled.
pub struct Walker {
    root: String,
    matcher: ignore::overrides::Override,
    filter_extension: Option<String>,
    ignore_hidden: bool,
    respect_gitignore: bool,
}

impl WalkOptions {
    /// The options that `config` asks for: its globs and its word on ignore
    /// files; hidden files are walked, and no extension is asked for.
    pub fn from_config(config: &Config) -> (options: WalkOptions)
        ensures
            options.filter_extension is None,
            options.excludes@ == config.exclude@,
            !options.ignore_hidden,
            options.respect_gitignore == config.respect_gitignore,
    {
        let excludes = config.exclude.clone();
        assert(excludes@ =~= config.exclude@);
        WalkOptions {
            filter_extension: None,
            excludes,
            ignore_hidden: false,
            respect_gitignore: config.respect_gitignore,
        }
    }

    /// The same options, with `extension` asked of every file.
    pub fn with_extension(self, extension: String) -> (options: WalkOptions)
        ensures
            options.filter_extension == Some(extension),
            options.excludes == self.excludes,
            options.ignore_hidden == self.ignore_hidden,
            options.respect_gitignore == self.respect_gitignore,
    {
        WalkOptions {
            filter_extension: Some(extension),
            excludes: self.excludes,
            ignore_hidden: self.ignore_hidden,
            respect_gitignore: self.respect_gitignore,
        }
    }

    /// Whether `r` is what compiling the globs of `excludes` at `root`
    /// gives: a matcher with the lines of the walk where each line is a
    /// glob and the globs make a set; the error of the first line that is
    /// no glob; the error of the set where they make none.
    pub open spec fn compiled(
        root: Seq<char>,
        excludes: Seq<String>,
        r: Result<ignore::overrides::Override, WalkError>,
    ) -> bool {
        let lines = walk_lines(excludes);
        match r {
            Ok(matcher) => {
                &&& forall|i: int| 0 <= i < lines.len() ==> line_accepted(#[trigger] lines[i])
                &&& set_builds(kept_root(root), kept_lines(lines))
                &&& matcher_root(matcher) == kept_root(root)
                &&& matcher_lines(matcher) == kept_lines(lines)
            },
            Err(WalkError::Glob { line }) => exists|k: int|
                {
                    &&& 0 <= k < lines.len()
                    &&& !line_accepted(#[trigger] lines[k])
                    &&& line@ == lines[k]
                    &&& forall|j: int| 0 <= j < k ==> line_accepted(#[trigger] lines[j])
                },
            Err(WalkError::Matcher) => {
                &&& forall|i: int| 0 <= i < lines.len() ==> line_accepted(#[trigger] lines[i])
                &&& !set_builds(kept_root(root), kept_lines(lines))
            },
        }
    }

    /// Compiles the globs of the walk: the one that leaves out the
    /// version-control directory, then the configured ones.
    fn build_glob(&self, root: &str) -> (r: Result<ignore::overrides::Override, WalkError>)
        ensures
            Self::compiled(root@, self.excludes@, r),
    {
        let ghost lines = walk_lines(self.excludes@);
        let ghost kept = kept_lines(lines);
        let mut builder = new_builder(root);
        let vcs = "!.git/";
        proof {
            reveal_strlit("!.git/");
            assert(vcs@ =~= vcs_line());
            assert(lines[0] == vcs_line());
            lemma_kept_line(vcs_line());
        }
        if add_line(&mut builder, vcs).is_err() {
            return Err(WalkError::Glob { line: vcs.to_owned() });
        }
        assert(builder_lines(builder) =~= kept.take(1));
        let mut i: usize = 0;
        while i < self.excludes.len()
            invariant
                i <= self.excludes@.len(),
                lines == walk_lines(self.excludes@),
                kept == kept_lines(lines),
                builder_root(builder) == kept_root(root@),
                builder_lines(builder) == kept.take(i + 1),
                forall|j: int| 0 <= j < i + 1 ==> line_accepted(#[trigger] lines[j]),
            decreases self.excludes@.len() - i,
        {
            let mut line = "!".to_owned();
            line.append(self.excludes[i].as_str());
            proof {
                reveal_strlit("!");
                assert(line@ =~= exclude_line(self.excludes@[i as int]@));
                assert(lines[i + 1] == line@);
                lemma_kept_line(line@);
            }
            if add_line(&mut builder, line.as_str()).is_err() {
                return Err(WalkError::Glob { line });
            }
            assert(builder_lines(builder) =~= kept.take(i + 2));
            i += 1;
        }
        assert(kept.take(i + 1) =~= kept);
        match build_matcher(&builder) {
            Ok(matcher) => Ok(matcher),
            Err(_) => Err(WalkError::Matcher),
        }
    }

    /// What the options ask of a file's extension.
    pub open spec fn spec_filter(&self) -> Option<Seq<char>> {
        match self.filter_extension {
            Some(ext) => Some(ext@),
            None => None,
        }
    }

    /// Makes the walk ready to start at `root`.
    ///
    /// Fails where a configured glob is no glob, with the line of the first
    /// such, and where the globs do not make a set; else it gives the walk.
    pub fn walk(self, root: &str) -> (r: Result<Walker, WalkError>)
        ensures
            made_ready(
                self.excludes@,
                self.spec_filter(),
                self.ignore_hidden,
                self.respect_gitignore,
                root@,
                r,
            ),
    {
        match self.build_glob(root) {
            Ok(matcher) => Ok(
                Walker {
                    root: root.to_owned(),
                    matcher,
                    filter_extension: self.filter_extension,
                    ignore_hidden: self.ignore_hidden,
                    respect_gitignore: self.respect_gitignore,
                },
            ),
            Err(error) => Err(error),
        }
    }
}

/// A file or a directory that a traversal came upon.
#[derive(Clone, Debug, PartialEq, Eq)]
pub struct Found {
    /// Its path from the root of the walk.
    pub path: String,
    /// Whether it is a directory.
    pub is_dir: bool,
}

impl Walker {
    /// The directory that the walk starts from.
    pub closed spec fn root(&self) -> Seq<char> {
        self.root@
    }

    /// The lines of the globs that the walk leaves out, as its matcher
    /// keeps them.
    pub closed spec fn lines(&self) -> Seq<Seq<char>> {
        matcher_lines(self.matcher)
    }

    /// The extension that the walk asks of a file, if it asks for one.
    pub closed spec fn filter(&self) -> Option<Seq<char>> {
        match self.filter_extension {
            Some(ext) => Some(ext@),
            None => None,
        }
    }

    /// Whether the walk passes over what is hidden.
    pub closed spec fn skips_hidden(&self) -> bool {
        self.ignore_hidden
    }

    /// Whether the traversal is to honour ignore files.
    pub closed spec fn honours_ignore_files(&self) -> bool {
        self.respect_gitignore
    }

    /// The matcher is the one of this walk: it stands at the root, which
    /// it keeps without `./` at its start.
    #[verifier::type_invariant]
    spec fn matcher_at_root(&self) -> bool {
        matcher_root(self.matcher) == kept_root(self.root@)
    }

    /// Whether the walk takes `path`, given from the root: a directory to
    /// go into, a file to yield.
    ///
    /// The version-control directory is not taken, nor anything under it;
    /// nothing that the globs leave out, nothing hidden where the walk
    /// passes over that, and no file without the extension that the walk
    /// asks for.
    pub open spec fn admitted(&self, path: Seq<char>, is_dir: bool) -> bool {
        &&& !has_dir_component(path, vcs_name(), is_dir)
        &&& !left_out(self.root(), self.lines(), path, is_dir)
        &&& !(self.skips_hidden() && has_hidden_component(path))
        &&& is_dir || self.filter() is None || extension(path) == self.filter()
    }

    /// The paths that the walk yields of what a traversal found: the files
    /// that it takes, in the order found, each as seen from the root's place.
    pub open spec fn selected(&self, found: Seq<Found>) -> Seq<Seq<char>>
        decreases found.len(),
    {
        if found.len() == 0 {
            Seq::empty()
        } else {
            let rest = self.selected(found.drop_last());
            let last = found.last();
            if !last.is_dir && self.admitted(last.path@, false) {
                rest.push(joined(self.root(), last.path@))
            } else {
                rest
            }
        }
    }

    /// The directory that the walk starts from.
    pub fn root_dir(&self) -> (root: &String)
        ensures
            root@ == self.root(),
    {
        &self.root
    }

    /// Whether the traversal is to honour ignore files.
    pub fn respects_gitignore(&self) -> (yes: bool)
        ensures
            yes == self.honours_ignore_files(),
    {
        self.respect_gitignore
    }

    /// Whether the globs leave `path` out.
    fn leaves_out(&self, chars: &[char], is_dir: bool) -> (out: bool)
        ensures
            out == left_out(self.root(), self.lines(), chars@, is_dir),
    {
        proof {
            use_type_invariant(self);
        }
        let n = chars.len();
        let mut k: usize = 1;
        while k < n
            invariant
                1 <= k,
                n == chars@.len(),
                matcher_root(self.matcher) == kept_root(self.root@),
                forall|j: int|
                    0 < j < k && j < n && chars@[j] == '/' ==> #[trigger] glob_verdict(
                        kept_root(self.root()),
                        self.lines(),
                        joined(self.root(), chars@.take(j)),
                        true,
                    ) != Verdict::Ignore,
            decreases n - k,
        {
            if chars[k] == '/' {
                let above = string_of(chars, 0, k);
                assert(above@ =~= chars@.take(k as int));
                let full = join(self.root.as_str(), above.as_str());
                if verdict_on(&self.matcher, full.as_str(), true) == Verdict::Ignore {
                    return true;
                }
            }
            k += 1;
        }
        let whole = string_of(chars, 0, n);
        assert(whole@ =~= chars@);
        let full = join(self.root.as_str(), whole.as_str());
        verdict_on(&self.matcher, full.as_str(), is_dir) == Verdict::Ignore
    }

    /// Whether the walk takes `path`, given from the root: a directory to
    /// go into, a file to yield.
    pub fn admits(&self, path: &str, is_dir: bool) -> (yes: bool)
        ensures
            yes == self.admitted(path@, is_dir),
    {
        let chars = chars_of(path);
        let vcs = ['.', 'g', 'i', 't'];
        assert(vcs@ =~= vcs_name());
        if contains_dir_component(chars.as_slice(), vcs.as_slice(), is_dir) {
            return false;
        }
        if self.ignore_hidden && contains_hidden(chars.as_slice()) {
            return false;
        }
        if self.leaves_out(chars.as_slice(), is_dir) {
            return false;
        }
        if is_dir {
            return true;
        }
        match &self.filter_extension {
            None => true,
            Some(wanted) => match extension_of(path) {
                Some(ext) => ext == *wanted,
                None => false,
            },
        }
    }

    /// The paths that the walk yields of what a traversal found.
    pub fn select(&self, found: &Vec<Found>) -> (paths: Vec<String>)
        ensures
            paths@.len() == self.selected(found@).len(),
            forall|i: int| 0 <= i < paths@.len() ==> (#[trigger] paths@[i])@ == self.selected(
                found@,
            )[i],
    {
        let mut paths: Vec<String> = Vec::new();
        let mut i: usize = 0;
        while i < found.len()
            invariant
                i <= found@.len(),
                paths@.len() == self.selected(found@.take(i as int)).len(),
                forall|j: int|
                    0 <= j < paths@.len() ==> (#[trigger] paths@[j])@ == self.selected(
                        found@.take(i as int),
                    )[j],
            decreases found@.len() - i,
        {
            let entry = &found[i];
            proof {
                let next = found@.take(i + 1);
                assert(next.drop_last() =~= found@.take(i as int));
                assert(next.last() == found@[i as int]);
            }
            if !entry.is_dir && self.admits(entry.path.as_str(), false) {
                paths.push(join(self.root.as_str(), entry.path.as_str()));
            }
            i += 1;
        }
        assert(found@.take(i as int) =~= found@);
        paths
    }
}


/// A walk takes neither the version-control directory nor anything under
/// it, whatever its options.
pub proof fn lemma_never_under_vcs(walker: Walker, path: Seq<char>, is_dir: bool)
    requires
        walker.admitted(path, is_dir),
    ensures
        !has_dir_component(path, vcs_name(), is_dir),
{
}

/// Nothing under a directory named as the version-control directory is
/// taken, wherever that directory stands.
pub proof fn lemma_nothing_under_vcs(
    walker: Walker,
    above: Seq<char>,
    rest: Seq<char>,
    is_dir: bool,
)
    requires
        above.len() == 0 || above.last() == '/',
    ensures
        !walker.admitted(above + vcs_name() + seq!['/'] + rest, is_dir),
{
    let path = above + vcs_name() + seq!['/'] + rest;
    let from = above.len() as int;
    let to = from + 4;
    assert(path.subrange(from, to) =~= vcs_name());
    assert(path[to] == '/');
    assert(from > 0 ==> path[from - 1] == above.last());
    assert forall|k: int| from <= k < to implies path[k] != '/' by {
        assert(path[k] == vcs_name()[k - from]);
    }
    assert(component_at(path, from, to));
}

/// A file that is only named as the version-control directory is not
/// passed over for its name: with no directory of that name above it, it
/// is taken where the globs, the hidden rule and the extension let it.
pub proof fn lemma_file_named_as_vcs(walker: Walker, above: Seq<char>)
    requires
        above.len() == 0 || above.last() == '/',
        !has_dir_component(above, vcs_name(), true),
    ensures
        !has_dir_component(above + vcs_name(), vcs_name(), false),
        walker.admitted(above + vcs_name(), false) <==> {
            &&& !left_out(walker.root(), walker.lines(), above + vcs_name(), false)
            &&& !(walker.skips_hidden() && has_hidden_component(above + vcs_name()))
            &&& walker.filter() is None || extension(above + vcs_name()) == walker.filter()
        },
{
    let path = above + vcs_name();
    let n = above.len() as int;
    assert forall|from: int, to: int| #[trigger]
        component_at(path, from, to) && path.subrange(from, to) == vcs_name() implies to
        == path.len() by {
        if to < path.len() {
            if to > n {
                assert(path[to] == vcs_name()[to - n]);
            } else if n > 0 {
                // The component lies in what is above, where none is so named.
                assert(above.subrange(from, to) =~= path.subrange(from, to));
                assert forall|k: int| from <= k < to implies above[k] != '/' by {
                    assert(above[k] == path[k]);
                }
                assert(from > 0 ==> above[from - 1] == path[from - 1]);
                assert(to < n ==> above[to] == path[to]);
                assert(component_at(above, from, to));
            }
        }
    }
}

/// A walk takes nothing that its globs say to ignore.
pub proof fn lemma_ignored_never_taken(walker: Walker, path: Seq<char>, is_dir: bool)
    requires
        glob_verdict(
            kept_root(walker.root()),
            walker.lines(),
            joined(walker.root(), path),
            is_dir,
        ) == Verdict::Ignore,
    ensures
        !walker.admitted(path, is_dir),
{
}

/// A walk takes nothing under a directory that its globs say to ignore.
pub proof fn lemma_nothing_under_ignored(
    walker: Walker,
    dir: Seq<char>,
    rest: Seq<char>,
    is_dir: bool,
)
    requires
        dir.len() > 0,
        glob_verdict(kept_root(walker.root()), walker.lines(), joined(walker.root(), dir), true)
            == Verdict::Ignore,
    ensures
        !walker.admitted(dir + seq!['/'] + rest, is_dir),
{
    let path = dir + seq!['/'] + rest;
    let k = dir.len() as int;
    assert(path[k] == '/');
    assert(path.take(k) =~= dir);
    assert(glob_verdict(
        kept_root(walker.root()),
        walker.lines(),
        joined(walker.root(), path.take(k)),
        true,
    ) == Verdict::Ignore);
}

/// Each path that a walk yields is that of a file that the traversal
/// found and the walk takes: one outside the version-control directory
/// that the globs do not leave out.
pub proof fn lemma_selected_are_admitted(walker: Walker, found: Seq<Found>, i: int)
    requires
        0 <= i < walker.selected(found).len(),
    ensures
        exists|k: int|
            {
                &&& 0 <= k < found.len()
                &&& !(#[trigger] found[k]).is_dir
                &&& walker.admitted(found[k].path@, false)
                &&& walker.selected(found)[i] == joined(walker.root(), found[k].path@)
            },
    decreases found.len(),
{
    let front = found.drop_last();
    let last = found.last();
    if i < walker.selected(front).len() {
        lemma_selected_are_admitted(walker, front, i);
        let k = choose|k: int|
            {
                &&& 0 <= k < front.len()
                &&& !(#[trigger] front[k]).is_dir
                &&& walker.admitted(front[k].path@, false)
                &&& walker.selected(front)[i] == joined(walker.root(), front[k].path@)
            };
        assert(found[k] == front[k]);
    } else {
        assert(found[found.len() - 1] == last);
    }
}


/// Each file that the traversal found and the walk takes is among the
/// paths that the walk yields.
pub proof fn lemma_admitted_are_selected(walker: Walker, found: Seq<Found>, k: int)
    requires
        0 <= k < found.len(),
        !found[k].is_dir,
        walker.admitted(found[k].path@, false),
    ensures
        exists|i: int|
            0 <= i < walker.selected(found).len() && #[trigger] walker.selected(found)[i]
                == joined(walker.root(), found[k].path@),
    decreases found.len(),
{
    let front = found.drop_last();
    if k == found.len() - 1 {
        let i = walker.selected(found).len() - 1;
        assert(walker.selected(found)[i] == joined(walker.root(), found[k].path@));
    } else {
        assert(front[k] == found[k]);
        lemma_admitted_are_selected(walker, front, k);
        let i = choose|i: int|
            0 <= i < walker.selected(front).len() && #[trigger] walker.selected(front)[i]
                == joined(walker.root(), front[k].path@);
        assert(walker.selected(found)[i] == walker.selected(front)[i]);
    }
}

} // verus!
