//! Where configuration stands on disk.

use crate::text::{chars_of, concat, concat3};
use vstd::prelude::*;

verus! {

/// The path `rest` under `base`.
pub open spec fn joined_path(base: Seq<char>, rest: Seq<char>) -> Seq<char> {
    if base.len() == 0 {
        rest
    } else if base.last() == '/' {
        base + rest
    } else {
        base + "/"@ + rest
    }
}

/// The path `rest` under `base`.
pub fn join_path(base: &str, rest: &str) -> (res: String)
    ensures
        res@ == joined_path(base@, rest@),
{
    let chars = chars_of(base);
    if chars.len() == 0 {
        rest.to_owned()
    } else if chars[chars.len() - 1] == '/' {
        concat(base, rest)
    } else {
        concat3(base, "/", rest)
    }
}

/// The path `rest` under the home directory, as `HOME` or else `USERPROFILE` gives it.
pub open spec fn under_home(
    home: Option<Seq<char>>,
    user_profile: Option<Seq<char>>,
    rest: Seq<char>,
) -> Option<Seq<char>> {
    match (home, user_profile) {
        (Some(home), _) => Some(joined_path(home, rest)),
        (None, Some(profile)) => Some(joined_path(profile, rest)),
        (None, None) => None,
    }
}

/// The path `rest` under the home directory.
pub fn home_path(home: Option<&str>, user_profile: Option<&str>, rest: &str) -> (res: Option<
    String,
>)
    ensures
        res.deep_view() == under_home(home.deep_view(), user_profile.deep_view(), rest@),
{
    match (home, user_profile) {
        (Some(home), _) => Some(join_path(home, rest)),
        (None, Some(profile)) => Some(join_path(profile, rest)),
        (None, None) => None,
    }
}

/// The file of models of the user.
pub fn default_models_path(home: Option<&str>, user_profile: Option<&str>) -> (res: Option<String>)
    ensures
        res.deep_view() == under_home(
            home.deep_view(),
            user_profile.deep_view(),
            ".ri/agent/models.json"@,
        ),
{
    home_path(home, user_profile, ".ri/agent/models.json")
}

/// The file of models to read: the one that was named, else that of the user.
pub fn models_path(named: Option<&str>, home: Option<&str>, user_profile: Option<&str>) -> (res:
    Option<String>)
    ensures
        res.deep_view() == (match named.deep_view() {
            Some(path) => Some(path),
            None => under_home(
                home.deep_view(),
                user_profile.deep_view(),
                ".ri/agent/models.json"@,
            ),
        }),
{
    match named {
        Some(path) => Some(path.to_owned()),
        None => default_models_path(home, user_profile),
    }
}

} // verus!
