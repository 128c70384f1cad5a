//! Paths as texts.
use crate::text::{begins, cat2, cat3, begins_with, chars_of};
use vstd::prelude::*;

verus! {

/// `path` seen from `base`: an absolute path stands for itself.
pub open spec fn joined_path(base: Seq<char>, path: Seq<char>) -> Seq<char> {
    if begins(path, '/') || base.len() == 0 {
        path
    } else if base.last() == '/' {
        base + path
    } else {
        base + "/"@ + path
    }
}

pub fn join_path(base: &str, path: &str) -> (r: String)
    ensures
        r@ == joined_path(base@, path@),
{
    let chars = chars_of(base);
    if begins_with(path, '/') || chars.len() == 0 {
        path.to_owned()
    } else if chars[chars.len() - 1] == '/' {
        cat2(base, path)
    } else {
        cat3(base, "/", path)
    }
}

/// The directory `logs` in the current directory, or in `.` where that is unknown.
pub open spec fn usual_log_dir(current_dir: Option<Seq<char>>) -> Seq<char> {
    joined_path(
        match current_dir {
            Some(dir) => dir,
            None => "."@,
        },
        "logs"@,
    )
}

/// The directory `logs` in the current directory, or in `.` where that is unknown.
pub fn default_log_dir(current_dir: Option<&str>) -> (r: String)
    ensures
        r@ == usual_log_dir(current_dir.deep_view()),
        r@ == joined_path(
            match current_dir {
                Some(dir) => dir@,
                None => "."@,
            },
            "logs"@,
        ),
{
    match current_dir {
        Some(dir) => join_path(dir, "logs"),
        None => join_path(".", "logs"),
    }
}

} // verus!
