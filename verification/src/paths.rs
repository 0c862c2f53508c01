//! Paths of the agent's files.

use vstd::prelude::*;

use crate::text::{begins_with, finishes_with, starts_with, ends_with};

verus! {

/// A path, and a part below it. A part that starts at the root stands alone.
pub open spec fn below(base: Seq<char>, part: Seq<char>) -> Seq<char> {
    if starts_with(part, "/"@) || base.len() == 0 {
        part
    } else if ends_with(base, "/"@) {
        base + part
    } else {
        base + "/"@ + part
    }
}

/// A path, and a part below it. A part that starts at the root stands alone.
pub fn join_path(base: &str, part: &str) -> (path: String)
    ensures
        path@ == below(base@, part@),
{
    if begins_with(part, "/") || base.is_empty() {
        return part.to_owned();
    }
    let mut path = base.to_owned();
    if !finishes_with(base, "/") {
        path.append("/");
    }
    path.append(part);
    path
}

/// The directory of a profile.
pub open spec fn profile_directory(home: Seq<char>, profile: Seq<char>) -> Seq<char> {
    below(below(below(home, ".cua"@), "profiles"@), profile)
}

/// The directory of a profile.
pub fn profile_root(home: &str, profile: &str) -> (path: String)
    ensures
        path@ == profile_directory(home@, profile@),
{
    let path = join_path(home, ".cua");
    let path = join_path(path.as_str(), "profiles");
    join_path(path.as_str(), profile)
}

/// The file that holds the token of a profile.
pub fn profile_token_path(home: &str, profile: &str) -> (path: String)
    ensures
        path@ == below(profile_directory(home@, profile@), "http.token"@),
{
    join_path(profile_root(home, profile).as_str(), "http.token")
}

/// The socket of a profile's daemon.
pub fn profile_socket_path(home: &str, profile: &str) -> (path: String)
    ensures
        path@ == below(profile_directory(home@, profile@), "daemon.sock"@),
{
    join_path(profile_root(home, profile).as_str(), "daemon.sock")
}

/// The file that says that a permission was asked for. It belongs to the
/// application, not to a profile.
pub open spec fn permission_marker(home: Seq<char>, permission: Seq<char>) -> Seq<char> {
    below(below(below(below(home, ".cua"@), "permission-prompts"@), "io.saint0x.cua"@), permission)
}

/// The file that says that a permission was asked for.
pub fn desktop_permission_prompt_marker_path_under(home: &str, permission: &str) -> (path: String)
    ensures
        path@ == permission_marker(home@, permission@),
{
    let path = join_path(home, ".cua");
    let path = join_path(path.as_str(), "permission-prompts");
    let path = join_path(path.as_str(), "io.saint0x.cua");
    join_path(path.as_str(), permission)
}

/// The file that said so for one profile, before it belonged to the
/// application.
pub open spec fn legacy_marker(home: Seq<char>, profile: Seq<char>, permission: Seq<char>) -> Seq<
    char,
> {
    below(below(profile_directory(home, profile), "permission-prompts"@), permission)
}

/// The file that said so for one profile, before it belonged to the
/// application.
pub fn legacy_desktop_permission_prompt_marker_path_under(
    home: &str,
    profile: &str,
    permission: &str,
) -> (path: String)
    ensures
        path@ == legacy_marker(home@, profile@, permission@),
{
    let path = profile_root(home, profile);
    let path = join_path(path.as_str(), "permission-prompts");
    join_path(path.as_str(), permission)
}

/// What stands below a plain path ends with what was put there.
pub proof fn lemma_below_keeps_the_part(base: Seq<char>, part: Seq<char>)
    ensures
        ends_with(below(base, part), part),
{
    let path = below(base, part);
    assert(path.skip(path.len() - part.len()) =~= part);
}

/// A part stands below a directory with one separator between them; an absolute
/// part stands for itself, and so does a part below nothing.
pub proof fn lemma_one_separator(base: Seq<char>, part: Seq<char>)
    requires
        base.len() > 0,
        part.len() > 0,
    ensures
        part[0] == '/' ==> below(base, part) == part,
        part[0] != '/' && base.last() != '/' ==> below(base, part) == base + seq!['/'] + part,
        part[0] != '/' && base.last() == '/' ==> below(base, part) == base + part,
        below(Seq::empty(), part) == part,
{
    reveal_strlit("/");
    assert("/"@ =~= seq!['/']);
    assert(part.subrange(0, 1) =~= "/"@ <==> part[0] == '/') by {
        if part[0] == '/' {
            assert(part.subrange(0, 1) =~= "/"@);
        } else {
            assert(part.subrange(0, 1)[0] != "/"@[0]);
        }
    }
    let at = base.len() - 1;
    assert(base.subrange(at, at + 1) =~= "/"@ <==> base.last() == '/') by {
        if base.last() == '/' {
            assert(base.subrange(at, at + 1) =~= "/"@);
        } else {
            assert(base.subrange(at, at + 1)[0] != "/"@[0]);
        }
    }
}

} // verus!
