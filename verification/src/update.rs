//! `update`: which tag the program is updated to, and with what.
use crate::paths::{join_path, joined_path};
use crate::text::{
    begins, begins_with, cat2, cat3, has_prefix, is_blank, pieces, same, split, starts_with, texts,
    trim, trimmed, viewed,
};
use vstd::prelude::*;

verus! {

/// What an update is asked for.
#[derive(Debug, PartialEq, Eq)]
pub enum UpdateAction {
    List,
    Latest,
    Version(String),
}

pub enum ActionModel {
    List,
    Latest,
    Version(Seq<char>),
}

impl DeepView for UpdateAction {
    type V = ActionModel;

    open spec fn deep_view(&self) -> ActionModel {
        match self {
            UpdateAction::List => ActionModel::List,
            UpdateAction::Latest => ActionModel::Latest,
            UpdateAction::Version(version) => ActionModel::Version(version@),
        }
    }
}

pub open spec fn no_target() -> Seq<char> {
    "更新対象が指定されていません。`list`、`latest`、または VERSION を指定してください。"@
}

/// What the arguments of `update` ask for: one target, and nothing else.
pub open spec fn update_args(args: Seq<Seq<char>>) -> Result<ActionModel, Seq<char>> {
    if args.len() == 0 {
        Err(no_target())
    } else if args.len() > 1 {
        Err("update に不要な引数があります: "@ + args[1])
    } else if args[0] == "list"@ {
        Ok(ActionModel::List)
    } else if args[0] == "latest"@ {
        Ok(ActionModel::Latest)
    } else if begins(args[0], '-') {
        Err("unknown option for update: "@ + args[0])
    } else if trimmed(args[0]).len() == 0 {
        Err(no_target())
    } else {
        Ok(ActionModel::Version(args[0]))
    }
}

pub fn parse_update_args(args: Vec<String>) -> (r: Result<UpdateAction, String>)
    ensures
        viewed(r) == update_args(texts(args@)),
{
    if args.len() == 0 {
        return Err(
            "更新対象が指定されていません。`list`、`latest`、または VERSION を指定してください。".to_owned(),
        );
    }
    if args.len() > 1 {
        return Err(cat2("update に不要な引数があります: ", args[1].as_str()));
    }
    let target = args[0].as_str();
    if same(target, "list") {
        Ok(UpdateAction::List)
    } else if same(target, "latest") {
        Ok(UpdateAction::Latest)
    } else if begins_with(target, '-') {
        Err(cat2("unknown option for update: ", target))
    } else if is_blank(target) {
        Err(
            "更新対象が指定されていません。`list`、`latest`、または VERSION を指定してください。".to_owned(),
        )
    } else {
        Ok(UpdateAction::Version(target.to_owned()))
    }
}

pub open spec fn default_repo_url() -> Seq<char> {
    "https://github.com/andmatcha/acs.git"@
}

/// The repository that is set, without the blanks around it, or the one of this program.
pub open spec fn url_of(set: Option<Seq<char>>) -> Seq<char> {
    match set {
        Some(value) if trimmed(value).len() > 0 => trimmed(value),
        _ => default_repo_url(),
    }
}

/// The repository that updates come from: the one that was set, or the project's own.
pub fn repo_url(set: Option<&str>) -> (url: String)
    ensures
        url@ == url_of(set.deep_view()),
        url@ == match set {
            Some(value) if trimmed(value@).len() > 0 => trimmed(value@),
            _ => default_repo_url(),
        },
{
    if let Some(value) = set {
        if !is_blank(value) {
            return trim(value).to_owned();
        }
    }
    "https://github.com/andmatcha/acs.git".to_owned()
}

// ---------------------------------------------------------------------------
// Tags
// ---------------------------------------------------------------------------

/// What follows the first occurrence of a marker.
pub open spec fn after_marker(s: Seq<char>, marker: Seq<char>) -> Option<Seq<char>>
    decreases s.len(),
{
    if has_prefix(s, marker) {
        Some(s.skip(marker.len() as int))
    } else if s.len() == 0 {
        None
    } else {
        after_marker(s.skip(1), marker)
    }
}

/// The tag that a line of the listing names, if it names one.
pub open spec fn tag_of(line: Seq<char>) -> Option<Seq<char>> {
    match after_marker(line, "refs/tags/"@) {
        Some(rest) if trimmed(rest).len() > 0 => Some(trimmed(rest)),
        _ => None,
    }
}

/// The tags that lines name, in their order.
pub open spec fn tags_of(lines: Seq<Seq<char>>) -> Seq<Seq<char>>
    decreases lines.len(),
{
    if lines.len() == 0 {
        Seq::empty()
    } else {
        let rest = tags_of(lines.drop_last());
        match tag_of(lines.last()) {
            Some(tag) => rest.push(tag),
            None => rest,
        }
    }
}

fn split_marker<'a>(s: &'a str, marker: &str) -> (r: Option<&'a str>)
    ensures
        r.deep_view() == after_marker(s@, marker@),
    decreases s@.len(),
{
    if starts_with(s, marker) {
        let total: usize = s.unicode_len();
        let from: usize = marker.unicode_len();
        assert(has_prefix(s@, marker@));
        let rest = s.substring_char(from, total);
        assert(rest@ =~= s@.skip(marker@.len() as int));
        return Some(rest);
    }
    let total: usize = s.unicode_len();
    if total == 0 {
        return None;
    }
    let rest = s.substring_char(1, total);
    assert(rest@ =~= s@.skip(1));
    split_marker(rest, marker)
}

/// The tags in a listing of remote references.
pub fn parse_ls_remote_tags(output: &str) -> (tags: Vec<String>)
    ensures
        texts(tags@) == tags_of(pieces(output@, '\n')),
{
    let lines = split(output, '\n');
    let ghost all = lines.deep_view();
    let mut tags: Vec<String> = Vec::new();
    let mut i: usize = 0;
    assert(texts(tags@) =~= tags_of(all.take(0)));
    while i < lines.len()
        invariant
            i <= lines.len(),
            all == lines.deep_view(),
            texts(tags@) == tags_of(all.take(i as int)),
        decreases lines.len() - i,
    {
        let ghost before = texts(tags@);
        proof {
            assert(all.take(i + 1).drop_last() == all.take(i as int));
            assert(all.take(i + 1).last() == lines@[i as int]@);
        }
        if let Some(rest) = split_marker(lines[i], "refs/tags/") {
            if !is_blank(rest) {
                let tag = trim(rest);
                tags.push(tag.to_owned());
                assert(texts(tags@) =~= before.push(trimmed(rest@)));
            }
        }
        i += 1;
    }
    assert(all.take(i as int) == all);
    tags
}

/// The tag that a requested version stands for. The leading `v` may be left out.
pub open spec fn requested_tag(version: Seq<char>, tags: Seq<Seq<char>>) -> Result<
    Seq<char>,
    Seq<char>,
> {
    let requested = trimmed(version);
    if requested.len() == 0 {
        Err("更新する VERSION が空です"@)
    } else if tags.contains(requested) {
        Ok(requested)
    } else if !begins(requested, 'v') && !begins(requested, 'V') && tags.contains(
        "v"@ + requested,
    ) {
        Ok("v"@ + requested)
    } else {
        Err("指定された VERSION は GitHub tag にありません: "@ + requested)
    }
}

fn has_tag(tags: &Vec<String>, tag: &str) -> (r: bool)
    ensures
        r == texts(tags@).contains(tag@),
{
    let mut i: usize = 0;
    while i < tags.len()
        invariant
            i <= tags.len(),
            forall|k: int| 0 <= k < i ==> (#[trigger] texts(tags@)[k]) != tag@,
        decreases tags.len() - i,
    {
        assert(texts(tags@)[i as int] == tags@[i as int]@);
        if same(tags[i].as_str(), tag) {
            return true;
        }
        i += 1;
    }
    false
}

pub fn resolve_requested_tag(version: &str, tags: &Vec<String>) -> (r: Result<String, String>)
    ensures
        viewed(r) == requested_tag(version@, texts(tags@)),
{
    if is_blank(version) {
        return Err("更新する VERSION が空です".to_owned());
    }
    let requested = trim(version);
    if has_tag(tags, requested) {
        return Ok(requested.to_owned());
    }
    if !begins_with(requested, 'v') && !begins_with(requested, 'V') {
        let prefixed = cat2("v", requested);
        if has_tag(tags, prefixed.as_str()) {
            return Ok(prefixed);
        }
    }
    Err(cat2("指定された VERSION は GitHub tag にありません: ", requested))
}

/// What is left to do for an update.
#[derive(Debug, PartialEq, Eq)]
pub enum UpdateStep {
    /// Show the tags.
    Show,
    /// Install the program as it is at a tag.
    Install(String),
}

pub enum StepModel {
    Show,
    Install(Seq<char>),
}

impl DeepView for UpdateStep {
    type V = StepModel;

    open spec fn deep_view(&self) -> StepModel {
        match self {
            UpdateStep::Show => StepModel::Show,
            UpdateStep::Install(tag) => StepModel::Install(tag@),
        }
    }
}

/// The step that an action takes where the repository has these tags, the newest first.
pub open spec fn update_step(action: ActionModel, url: Seq<char>, tags: Seq<Seq<char>>) -> Result<
    StepModel,
    Seq<char>,
> {
    if tags.len() == 0 {
        Err("GitHub 上に利用可能な tag がありません: "@ + url)
    } else {
        match action {
            ActionModel::List => Ok(StepModel::Show),
            ActionModel::Latest => Ok(StepModel::Install(tags[0])),
            ActionModel::Version(version) => match requested_tag(version, tags) {
                Ok(tag) => Ok(StepModel::Install(tag)),
                Err(e) => Err(e),
            },
        }
    }
}

pub fn resolve_update_step(action: &UpdateAction, repo_url: &str, tags: &Vec<String>) -> (r: Result<
    UpdateStep,
    String,
>)
    ensures
        viewed(r) == update_step(action.deep_view(), repo_url@, texts(tags@)),
{
    if tags.len() == 0 {
        return Err(cat2("GitHub 上に利用可能な tag がありません: ", repo_url));
    }
    match action {
        UpdateAction::List => Ok(UpdateStep::Show),
        UpdateAction::Latest => {
            assert(texts(tags@)[0] == tags@[0]@);
            Ok(UpdateStep::Install(tags[0].as_str().to_owned()))
        },
        UpdateAction::Version(version) => {
            let tag = resolve_requested_tag(version.as_str(), tags)?;
            Ok(UpdateStep::Install(tag))
        },
    }
}

/// An update only ever installs a tag that the repository has.
pub proof fn law_installed_tag_exists(action: ActionModel, url: Seq<char>, tags: Seq<Seq<char>>)
    ensures
        update_step(action, url, tags) matches Ok(StepModel::Install(tag)) ==> tags.contains(tag),
{
    if tags.len() > 0 {
        assert(tags.contains(tags[0]));
    }
}

/// A version that is a tag, written without blanks around it, stands for itself.
pub proof fn law_exact_tag_wins(version: Seq<char>, tags: Seq<Seq<char>>)
    requires
        tags.contains(version),
        trimmed(version) == version,
        version.len() > 0,
    ensures
        requested_tag(version, tags) == Ok::<Seq<char>, Seq<char>>(version),
{
}

// ---------------------------------------------------------------------------
// Commands
// ---------------------------------------------------------------------------

/// The message of a command that failed, with what it wrote to its error stream.
pub open spec fn failure_text(message: Seq<char>, stderr: Seq<char>) -> Seq<char> {
    if trimmed(stderr).len() == 0 {
        message + ": command failed"@
    } else {
        message + ": "@ + trimmed(stderr)
    }
}

/// The message of a command that failed, with what it wrote to its error stream.
pub fn format_command_failure(message: &str, stderr: &str) -> (r: String)
    ensures
        r@ == failure_text(message@, stderr@),
        r@ == if trimmed(stderr@).len() == 0 {
            message@ + ": command failed"@
        } else {
            message@ + ": "@ + trimmed(stderr@)
        },
{
    if is_blank(stderr) {
        cat2(message, ": command failed")
    } else {
        cat3(message, ": ", trim(stderr))
    }
}

pub open spec fn cargo_paths(
    cargo_home: Option<Seq<char>>,
    home: Option<Seq<char>>,
    name: Seq<char>,
) -> Seq<Seq<char>> {
    let in_cargo_home = match cargo_home {
        Some(dir) => seq![joined_path(joined_path(dir, "bin"@), name)],
        None => Seq::empty(),
    };
    let in_home = match home {
        Some(dir) => seq![joined_path(joined_path(joined_path(dir, ".cargo"@), "bin"@), name)],
        None => Seq::empty(),
    };
    in_cargo_home + in_home
}

/// Where cargo is looked for, in this order.
pub fn cargo_candidates(cargo_home: Option<&str>, home: Option<&str>, name: &str) -> (r: Vec<String>)
    ensures
        texts(r@) == cargo_paths(cargo_home.deep_view(), home.deep_view(), name@),
{
    let mut paths: Vec<String> = Vec::new();
    if let Some(dir) = cargo_home {
        let bin = join_path(dir, "bin");
        paths.push(join_path(bin.as_str(), name));
    }
    if let Some(dir) = home {
        let cargo = join_path(dir, ".cargo");
        let bin = join_path(cargo.as_str(), "bin");
        paths.push(join_path(bin.as_str(), name));
    }
    assert(texts(paths@) =~= cargo_paths(cargo_home.deep_view(), home.deep_view(), name@));
    paths
}

/// The first of the paths that is a file.
pub open spec fn first_file(paths: Seq<Seq<char>>, files: Seq<bool>) -> Option<Seq<char>>
    decreases paths.len(),
{
    if paths.len() == 0 {
        None
    } else if files[0] {
        Some(paths[0])
    } else {
        first_file(paths.skip(1), files.skip(1))
    }
}

/// The command that is set, else the first path that is a file, else the bare name.
pub open spec fn cargo_of(
    set: Option<Seq<char>>,
    paths: Seq<Seq<char>>,
    files: Seq<bool>,
    name: Seq<char>,
) -> Seq<char> {
    match set {
        Some(cargo) if cargo.len() > 0 => cargo,
        _ => match first_file(paths, files) {
            Some(path) => path,
            None => name,
        },
    }
}

/// The cargo that installs: the one that was set, the first that is there, or whichever one the
/// name finds.
pub fn cargo_command(set: Option<&str>, paths: &Vec<String>, files: &Vec<bool>, name: &str) -> (r:
    String)
    requires
        files.len() == paths.len(),
    ensures
        r@ == cargo_of(set.deep_view(), texts(paths@), files@, name@),
        r@ == match set {
            Some(cargo) if cargo@.len() > 0 => cargo@,
            _ => match first_file(texts(paths@), files@) {
                Some(path) => path,
                None => name@,
            },
        },
{
    if let Some(cargo) = set {
        if cargo.unicode_len() > 0 {
            return cargo.to_owned();
        }
    }
    let ghost all = texts(paths@);
    let mut i: usize = 0;
    assert(all.skip(0) =~= all);
    assert(files@.skip(0) =~= files@);
    while i < paths.len()
        invariant
            i <= paths.len(),
            files.len() == paths.len(),
            all == texts(paths@),
            !(set matches Some(cargo) && cargo@.len() > 0),
            first_file(all, files@) == first_file(all.skip(i as int), files@.skip(i as int)),
        decreases paths.len() - i,
    {
        assert(all.skip(i as int)[0] == paths@[i as int]@);
        if files[i] {
            return paths[i].as_str().to_owned();
        }
        assert(all.skip(i as int).skip(1) =~= all.skip(i + 1));
        assert(files@.skip(i as int).skip(1) =~= files@.skip(i + 1));
        i += 1;
    }
    name.to_owned()
}

} // verus!
