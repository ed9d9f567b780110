//! What becomes of one input line: the path it names, the branch state of
//! that path, and the text written for it.

use crate::template::{fill_template, filled};
use crate::text::{line_segments, split_spaces, trim_str};
use vstd::prelude::*;

verus! {

/// The template used when none is given.
pub const DEFAULT_FORMAT: &'static str = "{path} {branch}";

/// The placeholder for the path in a template.
pub const PATH_KEY: &'static str = "path";

/// The placeholder for the branch state in a template.
pub const BRANCH_KEY: &'static str = "branch";

/// How lines are read, filtered and rendered.
pub struct CliOptions {
    /// The output template, with `{path}` and `{branch}` placeholders;
    /// `DEFAULT_FORMAT` when absent.
    pub format: Option<String>,
    /// Which space-separated segment of a line is the path.
    pub nth: usize,
    /// Drop the lines whose path has no branch state.
    pub filter: bool,
    /// Drop the lines whose path is a bare git repository, which then has no
    /// branch state.
    pub no_bare: bool,
}

/// What was found of a git repository opened at a path.
pub struct GitRepoState {
    /// The repository has no working directory.
    pub is_bare: bool,
    /// The repository's working directory, where it has one.
    pub workdir: Option<String>,
    /// HEAD points at a commit rather than at a branch.
    pub head_detached: bool,
    /// The short name of HEAD, where HEAD could be read and has one.
    pub head_name: Option<String>,
}

/// What was found at the path of a line, by looking at the filesystem and
/// the repositories there.
pub struct RepoProbe {
    /// The path holds a `.jj` directory: it belongs to jujutsu, and git is
    /// not consulted.
    pub jj_marker: bool,
    /// Where the path holds a `.jj` directory and the ancestry walk from its
    /// working copy ended with a label, that label.
    pub jj_label: Option<String>,
    /// Where a git repository could be opened at the path, what was found.
    pub git: Option<GitRepoState>,
}

/// A line split into segments, the index of the segment that is the path,
/// and the branch state found for that path.
pub struct VcsInfo {
    pub path_index: usize,
    pub segments: Vec<String>,
    pub branch: Option<String>,
}

/// Whether two paths name the same location, compared component by component.
pub uninterp spec fn paths_equal(a: Seq<char>, b: Seq<char>) -> bool;

/// Relies on `Path`'s `==`: two paths are equal when their components are,
/// and a trailing separator is no component of its own.
#[verifier::external_body]
fn same_path(a: &str, b: &str) -> (r: bool)
    ensures
        r == paths_equal(a@, b@),
        a@ == b@ ==> r,
        a@.len() > 0 && b@ == a@.push('/') ==> r,
{
    std::path::Path::new(a) == std::path::Path::new(b)
}

/// The text of an optional string.
pub open spec fn opt_text(o: Option<String>) -> Option<Seq<char>> {
    match o {
        Some(s) => Some(s@),
        None => None,
    }
}

/// Whether `path` names the working directory `workdir`: the same text, the
/// same text with a trailing separator, or the same components.
pub open spec fn same_location(path: Seq<char>, workdir: Seq<char>) -> bool {
    path == workdir || (path.len() > 0 && workdir == path.push('/')) || paths_equal(path, workdir)
}

/// A label that is present and not empty.
pub open spec fn non_empty(o: Option<Seq<char>>) -> Option<Seq<char>> {
    match o {
        Some(l) => if l.len() > 0 {
            Some(l)
        } else {
            None
        },
        None => None,
    }
}

/// The segment at index `i`, if there is one.
pub open spec fn segment_at(segments: Seq<Seq<char>>, i: int) -> Option<Seq<char>> {
    if 0 <= i < segments.len() {
        Some(segments[i])
    } else {
        None
    }
}

/// The branch of a git repository opened at `path`: none for a bare
/// repository where bare ones are excluded, for a repository whose working
/// directory is not `path` itself, and for a detached HEAD.
pub open spec fn git_branch(no_bare: bool, path: Seq<char>, g: GitRepoState) -> Option<Seq<char>> {
    if no_bare && g.is_bare {
        None
    } else if !(g.workdir is Some && same_location(path, g.workdir->0@)) {
        None
    } else if g.head_detached {
        None
    } else {
        opt_text(g.head_name)
    }
}

/// The branch state of a path: the jujutsu bookmarks where the path holds a
/// `.jj` directory, else the git branch; an empty label counts as none.
pub open spec fn branch_of(no_bare: bool, path: Option<Seq<char>>, probe: RepoProbe) -> Option<
    Seq<char>,
> {
    match path {
        None => None,
        Some(p) => non_empty(
            if probe.jj_marker {
                opt_text(probe.jj_label)
            } else {
                match probe.git {
                    Some(g) => git_branch(no_bare, p, g),
                    None => None,
                }
            },
        ),
    }
}

/// The template of the options.
pub open spec fn template_of(opts: CliOptions) -> Seq<char> {
    match opts.format {
        Some(f) => f@,
        None => DEFAULT_FORMAT@,
    }
}

/// The text written for a line whose path is `path` and whose branch state
/// is `branch`: nothing for an unresolved line under `filter`, the bare path
/// for another unresolved line, else the template filled with both.
pub open spec fn rendered_line(opts: CliOptions, path: Option<Seq<char>>, branch: Option<Seq<char>>) -> Option<Seq<char>> {
    let shown = match path {
        Some(p) => p,
        None => Seq::empty(),
    };
    match branch {
        None => if opts.filter {
            None
        } else {
            Some(shown)
        },
        Some(b) => filled(template_of(opts), seq![(PATH_KEY@, shown), (BRANCH_KEY@, b)]),
    }
}

/// The path that a line names under the options.
pub open spec fn line_path(opts: CliOptions, line: Seq<char>) -> Option<Seq<char>> {
    segment_at(line_segments(line), opts.nth as int)
}

/// Whether the line is dropped because its path is a bare git repository
/// and bare repositories are excluded.
pub open spec fn bare_excluded(opts: CliOptions, path: Option<Seq<char>>, probe: RepoProbe) -> bool {
    &&& opts.no_bare
    &&& path is Some
    &&& !probe.jj_marker
    &&& probe.git is Some
    &&& probe.git->0.is_bare
}

/// The text written for `line`, given what was found at its path.
pub open spec fn line_output(opts: CliOptions, line: Seq<char>, probe: RepoProbe) -> Option<Seq<char>> {
    let path = line_path(opts, line);
    if bare_excluded(opts, path, probe) {
        None
    } else {
        rendered_line(opts, path, branch_of(opts.no_bare, path, probe))
    }
}

impl VcsInfo {
    pub fn new(segments: Vec<String>, path_index: usize) -> (r: Self)
        ensures
            r.segments == segments,
            r.path_index == path_index,
            r.branch is None,
    {
        VcsInfo { path_index, segments, branch: None }
    }

    /// The segment that is the path, if the line has that many.
    pub fn path_str(&self) -> (r: Option<&str>)
        ensures
            match r {
                Some(s) => segment_at(self.segments.deep_view(), self.path_index as int) == Some(
                    s@,
                ),
                None => segment_at(self.segments.deep_view(), self.path_index as int) is None,
            },
    {
        if self.path_index < self.segments.len() {
            Some(self.segments[self.path_index].as_str())
        } else {
            None
        }
    }

    /// Records the branch state of the path, from what was found there; where
    /// the line has no such segment, nothing is resolved and the branch state
    /// stays as it was.
    pub fn update_branch(&mut self, opts: &CliOptions, probe: &RepoProbe)
        ensures
            final(self).segments == old(self).segments,
            final(self).path_index == old(self).path_index,
            segment_at(old(self).segments.deep_view(), old(self).path_index as int) is None
                ==> final(self).branch == old(self).branch,
            segment_at(old(self).segments.deep_view(), old(self).path_index as int) is Some
                ==> opt_text(final(self).branch) == branch_of(
                opts.no_bare,
                segment_at(old(self).segments.deep_view(), old(self).path_index as int),
                *probe,
            ),
    {
        let path = match self.path_str() {
            Some(p) => p,
            None => {
                return;
            },
        };
        let found = if probe.jj_marker {
            probe.jj_label.clone()
        } else {
            match &probe.git {
                None => None,
                Some(g) => {
                    if opts.no_bare && g.is_bare {
                        None
                    } else {
                        let same = match &g.workdir {
                            Some(w) => same_path(path, w.as_str()),
                            None => false,
                        };
                        if !same || g.head_detached {
                            None
                        } else {
                            g.head_name.clone()
                        }
                    }
                },
            }
        };
        self.branch = match found {
            Some(l) => if l.as_str().unicode_len() == 0 {
                None
            } else {
                Some(l)
            },
            None => None,
        };
    }
}

/// The segments of a line: trimmed, then split on single spaces.
pub fn line_segments_of(line: &str) -> (r: Vec<String>)
    ensures
        r.deep_view() == line_segments(line@),
{
    split_spaces(trim_str(line))
}

/// Whether the path of `info` is a bare git repository that the options
/// exclude.
fn is_bare_excluded(opts: &CliOptions, info: &VcsInfo, probe: &RepoProbe) -> (r: bool)
    ensures
        r == bare_excluded(
            *opts,
            segment_at(info.segments.deep_view(), info.path_index as int),
            *probe,
        ),
{
    if !opts.no_bare || probe.jj_marker || info.path_index >= info.segments.len() {
        return false;
    }
    match &probe.git {
        Some(g) => g.is_bare,
        None => false,
    }
}

/// The text written for `line` under `opts`, given what was found at the
/// path that the line names; none when the line is dropped.
pub fn process_line(opts: &CliOptions, line: &str, probe: &RepoProbe) -> (r: Option<String>)
    ensures
        opt_text(r) == line_output(*opts, line@, *probe),
{
    let mut info = VcsInfo::new(line_segments_of(line), opts.nth);
    info.update_branch(opts, probe);
    if info.branch.is_none() && (opts.filter || is_bare_excluded(opts, &info, probe)) {
        return None;
    }
    let path: String = match info.path_str() {
        Some(p) => p.to_owned(),
        None => String::new(),
    };
    match info.branch {
        None => Some(path),
        Some(branch) => {
            let template: &str = match &opts.format {
                Some(f) => f.as_str(),
                None => DEFAULT_FORMAT,
            };
            let vars = vec![(PATH_KEY.to_owned(), path), (BRANCH_KEY.to_owned(), branch)];
            proof {
                assert(crate::template::vars_view(vars@) =~= seq![
                    (PATH_KEY@, vars@[0].1@),
                    (BRANCH_KEY@, vars@[1].1@),
                ]);
            }
            fill_template(template, &vars)
        },
    }
}

/// A path that holds no `.jj` directory and is the working directory of a
/// non-bare git repository whose HEAD names a branch has that branch's short
/// name as its branch state, whether or not bare repositories are excluded.
pub proof fn lemma_git_head_is_branch(no_bare: bool, path: Seq<char>, probe: RepoProbe)
    requires
        !probe.jj_marker,
        probe.git is Some,
        !probe.git->0.is_bare,
        probe.git->0.workdir is Some,
        same_location(path, probe.git->0.workdir->0@),
        !probe.git->0.head_detached,
        probe.git->0.head_name is Some,
        probe.git->0.head_name->0@.len() > 0,
    ensures
        branch_of(no_bare, Some(path), probe) == Some(probe.git->0.head_name->0@),
{
}

/// A path that holds a `.jj` directory is resolved by jujutsu alone: its
/// branch state is the label of the ancestry walk, and none where the walk
/// found no bookmark, whatever git would say of the path.
pub proof fn lemma_jj_marker_decides(no_bare: bool, path: Seq<char>, probe: RepoProbe)
    requires
        probe.jj_marker,
    ensures
        branch_of(no_bare, Some(path), probe) == non_empty(opt_text(probe.jj_label)),
        probe.jj_label is None ==> branch_of(no_bare, Some(path), probe) is None,
{
}

/// Where bare repositories are excluded, a path at which only a bare git
/// repository was found is unresolved, and its line is dropped.
pub proof fn lemma_bare_is_unresolved(opts: CliOptions, line: Seq<char>, probe: RepoProbe)
    requires
        opts.no_bare,
        line_path(opts, line) is Some,
        !probe.jj_marker,
        probe.git is Some,
        probe.git->0.is_bare,
    ensures
        branch_of(opts.no_bare, line_path(opts, line), probe) is None,
        line_output(opts, line, probe) is None,
{
}

/// Under `filter`, every line that is written had a branch state, which is
/// not empty, and it was written through the template with that state in
/// place of `{branch}`.
pub proof fn lemma_filter_keeps_resolved(opts: CliOptions, line: Seq<char>, probe: RepoProbe)
    requires
        opts.filter,
        line_output(opts, line, probe) is Some,
    ensures
        branch_of(opts.no_bare, line_path(opts, line), probe) is Some,
        branch_of(opts.no_bare, line_path(opts, line), probe)->0.len() > 0,
        line_output(opts, line, probe) == filled(
            template_of(opts),
            seq![
                (PATH_KEY@, line_path(opts, line)->0),
                (BRANCH_KEY@, branch_of(opts.no_bare, line_path(opts, line), probe)->0),
            ],
        ),
{
}

/// Processing is repeatable: two runs over the same line, with the same
/// options and the same findings at its path, write the same text.
pub proof fn lemma_process_repeatable(
    opts: CliOptions,
    line: Seq<char>,
    probe: RepoProbe,
    first: Option<String>,
    second: Option<String>,
)
    requires
        opt_text(first) == line_output(opts, line, probe),
        opt_text(second) == line_output(opts, line, probe),
    ensures
        opt_text(first) == opt_text(second),
{
}

} // verus!
