//! `version`: what a build was made from.
use crate::text::{cat2, cat4, is_blank, join, joined, same, texts, trim, trimmed};
use vstd::prelude::*;

verus! {

pub open spec fn unknown() -> Seq<char> {
    "unknown"@
}

/// Where a build comes from.
#[derive(Debug)]
pub struct BuildInfo {
    pub commit: String,
    pub branch: String,
    pub dirty: String,
    pub source_kind: String,
    pub source_ref: String,
}

#[verifier::ext_equal]
pub struct BuildModel {
    pub commit: Seq<char>,
    pub branch: Seq<char>,
    pub dirty: Seq<char>,
    pub source_kind: Seq<char>,
    pub source_ref: Seq<char>,
}

impl DeepView for BuildInfo {
    type V = BuildModel;

    open spec fn deep_view(&self) -> BuildModel {
        BuildModel {
            commit: self.commit@,
            branch: self.branch@,
            dirty: self.dirty@,
            source_kind: self.source_kind@,
            source_ref: self.source_ref@,
        }
    }
}

pub open spec fn source_text(kind: Seq<char>, source_ref: Seq<char>, branch: Seq<char>) -> Seq<
    char,
> {
    if kind == unknown() {
        "source unknown"@
    } else if source_ref == unknown() || source_ref == branch {
        "source "@ + kind
    } else {
        "source "@ + kind + " "@ + source_ref
    }
}

/// The source of a build. A reference that only repeats the branch is left out.
pub fn format_source(source_kind: &str, source_ref: &str, branch: &str) -> (r: String)
    ensures
        r@ == source_text(source_kind@, source_ref@, branch@),
{
    if same(source_kind, "unknown") {
        return "source unknown".to_owned();
    }
    if same(source_ref, "unknown") || same(source_ref, branch) {
        return cat2("source ", source_kind);
    }
    cat4("source ", source_kind, " ", source_ref)
}

pub open spec fn shortened(commit: Seq<char>) -> Seq<char> {
    if commit.len() <= 12 {
        commit
    } else {
        commit.take(12)
    }
}

/// The first characters of a commit's name, twelve at most.
pub fn short_commit(commit: &str) -> (r: &str)
    ensures
        r@ == shortened(commit@),
{
    let total: usize = commit.unicode_len();
    if total <= 12 {
        return commit;
    }
    let short = commit.substring_char(0, 12);
    assert(short@ =~= commit@.take(12));
    short
}

pub open spec fn version_details(b: BuildModel) -> Seq<Seq<char>> {
    let commit = if b.commit != unknown() {
        seq!["commit "@ + shortened(b.commit)]
    } else {
        Seq::empty()
    };
    let branch = if b.branch != unknown() {
        seq!["branch "@ + b.branch]
    } else {
        Seq::empty()
    };
    commit + branch + seq![source_text(b.source_kind, b.source_ref, b.branch), b.dirty]
}

/// The line that `version` prints.
pub fn version_line(package_name: &str, package_version: &str, build: &BuildInfo) -> (r: String)
    ensures
        r@ == package_name@ + " "@ + package_version@ + " ("@ + joined(
            version_details(build.deep_view()),
            ", "@,
        ) + ")"@,
{
    let mut details: Vec<String> = Vec::new();
    if !same(build.commit.as_str(), "unknown") {
        details.push(cat2("commit ", short_commit(build.commit.as_str())));
    }
    if !same(build.branch.as_str(), "unknown") {
        details.push(cat2("branch ", build.branch.as_str()));
    }
    details.push(
        format_source(
            build.source_kind.as_str(),
            build.source_ref.as_str(),
            build.branch.as_str(),
        ),
    );
    details.push(build.dirty.as_str().to_owned());
    assert(texts(details@) =~= version_details(build.deep_view()));
    let text = join(&details, ", ");
    let head = cat4(package_name, " ", package_version, " (");
    let line = cat2(head.as_str(), text.as_str());
    cat2(line.as_str(), ")")
}

/// What the environment of a build sets; a value of blanks is as good as none.
pub struct BuildEnvironment<'a> {
    pub commit: Option<&'a str>,
    pub branch: Option<&'a str>,
    pub dirty: Option<&'a str>,
    pub source_kind: Option<&'a str>,
    pub source_ref: Option<&'a str>,
}

/// What git says of the directory of a build, where it says anything.
pub struct GitState<'a> {
    pub commit: Option<&'a str>,
    pub branch: Option<&'a str>,
    pub status: Option<&'a str>,
}

/// A value that is set.
pub open spec fn set_value(value: Option<&str>) -> Option<Seq<char>> {
    match value {
        Some(value) if trimmed(value@).len() > 0 => Some(value@),
        _ => None,
    }
}

/// What a git command answered.
pub open spec fn git_answer(output: Option<&str>) -> Option<Seq<char>> {
    match output {
        Some(output) if trimmed(output@).len() > 0 => Some(trimmed(output@)),
        _ => None,
    }
}

pub open spec fn build_info(env: BuildEnvironment, git: GitState) -> BuildModel {
    let commit = match set_value(env.commit) {
        Some(commit) => commit,
        None => match git_answer(git.commit) {
            Some(commit) => commit,
            None => unknown(),
        },
    };
    let branch = match set_value(env.branch) {
        Some(branch) => branch,
        None => match git_answer(git.branch) {
            Some(branch) => if branch == "HEAD"@ {
                "detached"@
            } else {
                branch
            },
            None => unknown(),
        },
    };
    let dirty = match set_value(env.dirty) {
        Some(dirty) => dirty,
        None => if git_answer(git.status) is Some {
            "dirty"@
        } else {
            "clean"@
        },
    };
    let source_kind = match set_value(env.source_kind) {
        Some(kind) => kind,
        None => if dirty == "dirty"@ {
            "working-tree"@
        } else {
            "local-commit"@
        },
    };
    let source_ref = match set_value(env.source_ref) {
        Some(source_ref) => source_ref,
        None => branch,
    };
    BuildModel { commit, branch, dirty, source_kind, source_ref }
}

fn set_or<'a>(value: Option<&'a str>) -> (r: Option<&'a str>)
    ensures
        r.deep_view() == set_value(value),
{
    match value {
        Some(value) => if is_blank(value) {
            None
        } else {
            Some(value)
        },
        None => None,
    }
}

fn answer<'a>(output: Option<&'a str>) -> (r: Option<&'a str>)
    ensures
        r.deep_view() == git_answer(output),
{
    match output {
        Some(output) => if is_blank(output) {
            None
        } else {
            Some(trim(output))
        },
        None => None,
    }
}

/// Where a build comes from: what its environment sets, and for the rest what git says.
pub fn resolve_build_info(env: &BuildEnvironment, git: &GitState) -> (r: BuildInfo)
    ensures
        r.deep_view() == build_info(*env, *git),
{
    let commit: &str = match set_or(env.commit) {
        Some(commit) => commit,
        None => match answer(git.commit) {
            Some(commit) => commit,
            None => "unknown",
        },
    };
    let branch: &str = match set_or(env.branch) {
        Some(branch) => branch,
        None => match answer(git.branch) {
            Some(branch) => if same(branch, "HEAD") {
                "detached"
            } else {
                branch
            },
            None => "unknown",
        },
    };
    let dirty: &str = match set_or(env.dirty) {
        Some(dirty) => dirty,
        None => if answer(git.status).is_some() {
            "dirty"
        } else {
            "clean"
        },
    };
    let source_kind: &str = match set_or(env.source_kind) {
        Some(kind) => kind,
        None => if same(dirty, "dirty") {
            "working-tree"
        } else {
            "local-commit"
        },
    };
    let source_ref: &str = match set_or(env.source_ref) {
        Some(source_ref) => source_ref,
        None => branch,
    };
    BuildInfo {
        commit: commit.to_owned(),
        branch: branch.to_owned(),
        dirty: dirty.to_owned(),
        source_kind: source_kind.to_owned(),
        source_ref: source_ref.to_owned(),
    }
}

} // verus!
