//! Laws of `update`, `version` and the lists of ports and devices.
use crate::commands::{
    device_text, ids_text, numbered, port_kind_text, DeviceInfo, PortInfo, PortKind,
};
use crate::paths::joined_path;
use crate::ports::{law_listed_number_means_the_port, port_meant};
use crate::text::{
    begins, decimal, group_holds, has_prefix, hex_fixed, holds, lemma_holds, trim_start, trimmed,
};
use crate::update::{
    after_marker, cargo_of, cargo_paths, failure_text, first_file, requested_tag, tags_of,
    update_args, update_step, url_of, ActionModel, StepModel,
};
use crate::version::{
    build_info, shortened, unknown, version_details, BuildEnvironment, BuildModel, GitState,
};
use vstd::prelude::*;

verus! {

// ---------------------------------------------------------------------------
// update
// ---------------------------------------------------------------------------

/// `update` takes one word: `list`, `latest`, or a version, which is any other word that is
/// neither blank nor begins with a dash.
pub proof fn law_update_words(args: Seq<Seq<char>>)
    ensures
        args.len() != 1 ==> update_args(args) is Err,
        args.len() == 1 ==> {
            let word = args[0];
            &&& word == "list"@ <==> update_args(args) == Ok::<ActionModel, Seq<char>>(
                ActionModel::List,
            )
            &&& word == "latest"@ <==> update_args(args) == Ok::<ActionModel, Seq<char>>(
                ActionModel::Latest,
            )
            &&& update_args(args) is Err <==> word.len() > 0 && word[0] == '-' || trimmed(word).len()
                == 0
            &&& update_args(args) matches Ok(ActionModel::Version(version)) ==> version == word
        },
{
    if args.len() == 1 {
        lemma_update_words();
    }
}

proof fn lemma_update_words()
    ensures
        "list"@ != "latest"@,
        !begins("list"@, '-'),
        !begins("latest"@, '-'),
        trimmed("list"@).len() > 0,
        trimmed("latest"@).len() > 0,
{
    reveal_strlit("list");
    reveal_strlit("latest");
    assert("list"@.len() != "latest"@.len());
    assert(trim_start("list"@) == "list"@);
    assert(trim_start("latest"@) == "latest"@);
}

/// `list` shows the tags, `latest` installs the first of them, and a version installs its tag;
/// without a tag there is nothing to do.
pub proof fn law_update_does_what_is_asked(
    url: Seq<char>,
    tags: Seq<Seq<char>>,
    version: Seq<char>,
)
    ensures
        tags.len() == 0 ==> update_step(ActionModel::List, url, tags) is Err && update_step(
            ActionModel::Latest,
            url,
            tags,
        ) is Err && update_step(ActionModel::Version(version), url, tags) is Err,
        tags.len() > 0 ==> {
            &&& update_step(ActionModel::List, url, tags) == Ok::<StepModel, Seq<char>>(
                StepModel::Show,
            )
            &&& update_step(ActionModel::Latest, url, tags) == Ok::<StepModel, Seq<char>>(
                StepModel::Install(tags[0]),
            )
            &&& tags.contains(trimmed(version)) && trimmed(version).len() > 0 ==> update_step(
                ActionModel::Version(version),
                url,
                tags,
            ) == Ok::<StepModel, Seq<char>>(StepModel::Install(trimmed(version)))
        },
{
}

/// A version may leave out the `v` of its tag, but only where no tag is called like it.
pub proof fn law_v_may_be_left_out(version: Seq<char>, tags: Seq<Seq<char>>)
    requires
        trimmed(version).len() > 0,
    ensures
        ({
            let v = trimmed(version);
            let with_v = "v"@ + v;
            let lacks_v = v[0] != 'v' && v[0] != 'V';
            let r = requested_tag(version, tags);
            &&& !tags.contains(v) && lacks_v && tags.contains(with_v) ==> r == Ok::<
                Seq<char>,
                Seq<char>,
            >(with_v)
            &&& r is Err <==> !tags.contains(v) && !(lacks_v && tags.contains(with_v))
        }),
{
}

/// What was found in a text that is read in two halves, line by line, is found in both.
pub proof fn law_tags_in_order(a: Seq<Seq<char>>, b: Seq<Seq<char>>)
    ensures
        tags_of(a + b) == tags_of(a) + tags_of(b),
    decreases b.len(),
{
    if b.len() == 0 {
        assert(a + b =~= a);
        assert(tags_of(a) + tags_of(b) =~= tags_of(a));
    } else {
        law_tags_in_order(a, b.drop_last());
        assert((a + b).drop_last() =~= a + b.drop_last());
        assert(tags_of(a + b) =~= tags_of(a) + tags_of(b));
    }
}

/// A line that names a tag gives its name: what stands behind `refs/tags/`.
pub proof fn law_tag_of_a_line(before: Seq<char>, name: Seq<char>)
    requires
        !before.contains('/'),
        trimmed(name) == name,
        name.len() > 0,
    ensures
        tags_of(seq![before + "refs/tags/"@ + name]) == seq![name],
        before.len() > 0 ==> tags_of(seq![before]) == Seq::<Seq<char>>::empty(),
{
    reveal_strlit("refs/tags/");
    let line = before + "refs/tags/"@ + name;
    lemma_after_marker(before, name);
    let one = seq![line];
    assert(one.drop_last() =~= Seq::<Seq<char>>::empty());
    assert(one.last() == line);
    assert(tags_of(one.drop_last()) =~= Seq::<Seq<char>>::empty());
    assert(tags_of(one) =~= seq![name]);
    lemma_no_marker(before);
    let other = seq![before];
    assert(other.drop_last() =~= Seq::<Seq<char>>::empty());
    assert(tags_of(other) =~= Seq::<Seq<char>>::empty());
}

proof fn lemma_no_marker(s: Seq<char>)
    requires
        !s.contains('/'),
    ensures
        after_marker(s, "refs/tags/"@) is None,
    decreases s.len(),
{
    reveal_strlit("refs/tags/");
    if has_prefix(s, "refs/tags/"@) {
        assert(s.take(10)[4] == '/');
        assert(s[4] == '/');
    } else if s.len() > 0 {
        assert forall|i: int| 0 <= i < s.skip(1).len() implies s.skip(1)[i] != '/' by {
            assert(s[i + 1] != '/');
        }
        lemma_no_marker(s.skip(1));
    }
}

proof fn lemma_after_marker(before: Seq<char>, name: Seq<char>)
    requires
        !before.contains('/'),
    ensures
        after_marker(before + "refs/tags/"@ + name, "refs/tags/"@) == Some(name),
    decreases before.len(),
{
    reveal_strlit("refs/tags/");
    let marker = "refs/tags/"@;
    let line = before + marker + name;
    if before.len() == 0 {
        assert(line.take(10) =~= marker);
        assert(line.skip(10) =~= name);
    } else {
        let d = before.len() as int;
        if has_prefix(line, marker) {
            assert(line.take(10)[4] == line[4]);
            if d > 4 {
                assert(line[4] == before[4]);
            } else {
                assert(line[d + 4] == marker[4]);
                assert(line.take(10)[d + 4] == line[d + 4]);
                assert(marker[d + 4] == '/');
            }
            assert(false);
        }
        let rest = before.skip(1);
        assert forall|i: int| 0 <= i < rest.len() implies rest[i] != '/' by {
            assert(before[i + 1] != '/');
        }
        assert(line.skip(1) =~= rest + marker + name);
        lemma_after_marker(rest, name);
    }
}

/// The first path that is a file is taken, and none exactly where none is one.
pub proof fn law_first_file(paths: Seq<Seq<char>>, files: Seq<bool>)
    requires
        paths.len() == files.len(),
    ensures
        first_file(paths, files) is None <==> !files.contains(true),
        first_file(paths, files) matches Some(path) ==> exists|i: int|
            0 <= i < paths.len() && #[trigger] files[i] && paths[i] == path && forall|k: int|
                0 <= k < i ==> !#[trigger] files[k],
    decreases paths.len(),
{
    if paths.len() > 0 {
        if files[0] {
            assert(files.contains(true));
        } else {
            let rest = files.skip(1);
            law_first_file(paths.skip(1), rest);
            if first_file(paths.skip(1), rest) is Some {
                let path = first_file(paths.skip(1), rest)->0;
                let i = choose|i: int|
                    0 <= i < paths.skip(1).len() && #[trigger] rest[i] && paths.skip(1)[i] == path
                        && forall|k: int| 0 <= k < i ==> !#[trigger] rest[k];
                assert(files[i + 1] && paths[i + 1] == path);
                assert forall|k: int| 0 <= k < i + 1 implies !#[trigger] files[k] by {
                    if k > 0 {
                        assert(!rest[k - 1]);
                    }
                }
                assert(files.contains(true));
            } else if files.contains(true) {
                let i = files.index_of(true);
                assert(rest[i - 1]);
                assert(rest.contains(true));
            }
        }
    }
}

// ---------------------------------------------------------------------------
// version
// ---------------------------------------------------------------------------

/// A value of the build that is set and not blank is taken as it is.
pub open spec fn is_set(value: Option<&str>) -> bool {
    value is Some && trimmed(value->0@).len() > 0
}

/// What the build sets counts; else what git says: the commit, the branch or that there is none,
/// and that the tree is dirty exactly where its status says something.
pub proof fn law_build_info(env: BuildEnvironment, git: GitState)
    ensures
        ({
            let b = build_info(env, git);
            &&& is_set(env.commit) ==> b.commit == env.commit->0@
            &&& is_set(env.branch) ==> b.branch == env.branch->0@
            &&& is_set(env.dirty) ==> b.dirty == env.dirty->0@
            &&& is_set(env.source_kind) ==> b.source_kind == env.source_kind->0@
            &&& is_set(env.source_ref) ==> b.source_ref == env.source_ref->0@
            &&& !is_set(env.commit) && is_set(git.commit) ==> b.commit == trimmed(git.commit->0@)
            &&& !is_set(env.commit) && !is_set(git.commit) ==> b.commit == "unknown"@
            &&& !is_set(env.branch) && is_set(git.branch) && trimmed(git.branch->0@) != "HEAD"@
                ==> b.branch == trimmed(git.branch->0@)
            &&& !is_set(env.branch) && is_set(git.branch) && trimmed(git.branch->0@) == "HEAD"@
                ==> b.branch == "detached"@
            &&& !is_set(env.branch) && !is_set(git.branch) ==> b.branch == "unknown"@
            &&& !is_set(env.dirty) ==> b.dirty == if is_set(git.status) {
                "dirty"@
            } else {
                "clean"@
            }
            &&& !is_set(env.source_kind) ==> b.source_kind == if b.dirty == "dirty"@ {
                "working-tree"@
            } else {
                "local-commit"@
            }
            &&& !is_set(env.source_ref) ==> b.source_ref == b.branch
        }),
{
}

/// A commit is shown by its first twelve characters, and a shorter one as it is.
pub proof fn law_short_commit(commit: Seq<char>)
    ensures
        shortened(commit).len() == if commit.len() < 12 {
            commit.len()
        } else {
            12
        },
        has_prefix(commit, shortened(commit)),
{
    assert(commit.take(commit.len() as int) =~= commit);
}

/// The details tell of the commit and of the branch where they are known, of the source, and end
/// with whether the tree is dirty.
pub proof fn law_version_details(b: BuildModel)
    ensures
        ({
            let d = version_details(b);
            let knows_commit = b.commit != "unknown"@;
            let knows_branch = b.branch != "unknown"@;
            &&& d.len() == 2 + (if knows_commit { 1int } else { 0 }) + (if knows_branch {
                1int
            } else {
                0
            })
            &&& d.last() == b.dirty
            &&& knows_commit ==> d[0] == "commit "@ + shortened(b.commit)
            &&& knows_branch ==> d[d.len() - 3] == "branch "@ + b.branch
            &&& b.source_kind == "unknown"@ ==> d[d.len() - 2] == "source unknown"@
            &&& b.source_kind != "unknown"@ ==> holds(d[d.len() - 2], b.source_kind)
            &&& b.source_kind != "unknown"@ && b.source_ref != "unknown"@ && b.source_ref != b.branch
                ==> holds(d[d.len() - 2], b.source_ref)
        }),
{
    let kind = b.source_kind;
    let none = Seq::<char>::empty();
    lemma_holds("source "@, kind, none);
    assert("source "@ + kind + none =~= "source "@ + kind);
    lemma_holds("source "@, kind, " "@ + b.source_ref);
    assert("source "@ + kind + (" "@ + b.source_ref) =~= "source "@ + kind + " "@ + b.source_ref);
    lemma_holds("source "@ + kind + " "@, b.source_ref, none);
    assert("source "@ + kind + " "@ + b.source_ref + none =~= "source "@ + kind + " "@
        + b.source_ref);
}

// ---------------------------------------------------------------------------
// Lists
// ---------------------------------------------------------------------------

/// A port that is listed can be named by the number in front of it, and its line holds its name
/// and, where it is at USB, its vendor and product.
pub proof fn law_port_line(names: Seq<Seq<char>>, port: PortInfo, i: nat)
    requires
        i < names.len() <= usize::MAX,
        names[i as int] == port.name@,
    ensures
        ({
            let line = numbered(i, port.name@ + " "@ + port_kind_text(port.kind));
            &&& line.len() > 0 && line[0] == '['
            &&& line.subrange(1, 1 + decimal(i).len() as int) == decimal(i)
            &&& port_meant(Some(decimal(i)), names) == Ok::<Seq<char>, Seq<char>>(port.name@)
            &&& holds(line, port.name@)
            &&& port.kind matches PortKind::Usb(info) ==> holds(
                line,
                " vid=0x"@ + hex_fixed(info.vendor_id as nat, 4) + " pid=0x"@ + hex_fixed(
                    info.product_id as nat,
                    4,
                ),
            )
        }),
{
    reveal_strlit("[");
    law_listed_number_means_the_port(names, i);
    let kind = port_kind_text(port.kind);
    let line = numbered(i, port.name@ + " "@ + kind);
    let front = "["@ + decimal(i) + "] "@;
    assert(line.subrange(1, 1 + decimal(i).len() as int) =~= decimal(i));
    lemma_holds(front, port.name@, " "@ + kind);
    assert(front + port.name@ + (" "@ + kind) =~= line);
    if let PortKind::Usb(info) = port.kind {
        let ids = ids_text(info.vendor_id, info.product_id);
        let head = front + port.name@ + " "@ + "type=usb"@;
        let tail = line.skip((head.len() + ids.len()) as int);
        lemma_holds(head, ids, tail);
        assert(line =~= head + ids + tail);
    }
}

/// The line of a device holds its number, transport, vendor and product, and path.
pub proof fn law_device_line(d: DeviceInfo, i: nat)
    ensures
        ({
            let line = numbered(i, device_text(d));
            &&& holds(line, "["@ + decimal(i) + "] "@)
            &&& holds(line, "transport="@ + d.transport@)
            &&& holds(
                line,
                " vid=0x"@ + hex_fixed(d.vendor_id as nat, 4) + " pid=0x"@ + hex_fixed(
                    d.product_id as nat,
                    4,
                ),
            )
            &&& holds(line, " path="@ + d.path@)
            &&& d.product_name matches Some(name) ==> holds(line, name@)
            &&& d.interface_number >= 0 ==> holds(
                line,
                " interface="@ + decimal(d.interface_number as nat),
            )
        }),
{
    broadcast use group_holds;

}

// ---------------------------------------------------------------------------
// Repository and cargo
// ---------------------------------------------------------------------------

/// A repository that is set is taken without the blanks around it; a blank one is none.
pub proof fn law_repository(set: Option<Seq<char>>)
    ensures
        set is Some && trimmed(set->0).len() > 0 ==> url_of(set) == trimmed(set->0),
        set is None || trimmed(set->0).len() == 0 ==> url_of(set) == url_of(None),
{
}

/// What a command that failed wrote to its error stream is told behind the message.
pub proof fn law_failure_text(message: Seq<char>, stderr: Seq<char>)
    ensures
        holds(failure_text(message, stderr), message),
        trimmed(stderr).len() > 0 ==> holds(failure_text(message, stderr), trimmed(stderr)),
{
    broadcast use group_holds;

}

/// The cargo that is set is used, else the first that is there, else whatever the name means.
pub proof fn law_cargo(
    set: Option<Seq<char>>,
    paths: Seq<Seq<char>>,
    files: Seq<bool>,
    name: Seq<char>,
    i: int,
)
    requires
        paths.len() == files.len(),
    ensures
        set is Some && set->0.len() > 0 ==> cargo_of(set, paths, files, name) == set->0,
        set is None && !files.contains(true) ==> cargo_of(set, paths, files, name) == name,
        set is None && 0 <= i < paths.len() && files[i] && (forall|k: int|
            0 <= k < i ==> !#[trigger] files[k]) ==> cargo_of(set, paths, files, name) == paths[i],
{
    law_first_file(paths, files);
    if set is None && 0 <= i < paths.len() && files[i] && (forall|k: int|
        0 <= k < i ==> !#[trigger] files[k]) {
        assert(files.contains(true));
        let path = first_file(paths, files)->0;
        let j = choose|j: int|
            0 <= j < paths.len() && #[trigger] files[j] && paths[j] == path && forall|k: int|
                0 <= k < j ==> !#[trigger] files[k];
        assert(i == j);
    }
}

/// Cargo is looked for in the directory that is set for it, then in the one of the user.
pub proof fn law_cargo_paths(dir: Seq<char>, home: Seq<char>, name: Seq<char>)
    ensures
        cargo_paths(Some(dir), Some(home), name) == seq![
            joined_path(joined_path(dir, "bin"@), name),
            joined_path(joined_path(joined_path(home, ".cargo"@), "bin"@), name),
        ],
        cargo_paths(None, Some(home), name) == cargo_paths(Some(dir), Some(home), name).skip(1),
        cargo_paths(Some(dir), None, name) == cargo_paths(Some(dir), Some(home), name).take(1),
        cargo_paths(None, None, name).len() == 0,
{
    assert(cargo_paths(Some(dir), Some(home), name) =~= seq![
        joined_path(joined_path(dir, "bin"@), name),
        joined_path(joined_path(joined_path(home, ".cargo"@), "bin"@), name),
    ]);
    assert(cargo_paths(None, Some(home), name) =~= cargo_paths(Some(dir), Some(home), name).skip(1));
    assert(cargo_paths(Some(dir), None, name) =~= cargo_paths(Some(dir), Some(home), name).take(1));
}

} // verus!
