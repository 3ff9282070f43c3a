//! Where the socket lies, and which files count as plugins.

use vstd::prelude::*;
use crate::constants::{DOMAIN, MAIN_APP_ID};
use crate::json::same_text;

verus! {

/// The path `part` below the directory `base`: `part` itself where `base` is
/// empty, else `base`, a `/` unless `base` ends in one, and `part`.
pub open spec fn joined(base: Seq<char>, part: Seq<char>) -> Seq<char> {
    if base.len() == 0 {
        part
    } else if base.last() == '/' {
        base + part
    } else {
        base + seq!['/'] + part
    }
}

/// Joins a relative path to a directory.
fn join(base: &str, part: &str) -> (path: String)
    ensures
        path@ == joined(base@, part@),
{
    proof {
        reveal_strlit("/");
        assert("/"@ =~= seq!['/']);
    }
    let len = base.unicode_len();
    let mut path = base.to_owned();
    if len > 0 && base.get_char(len - 1) != '/' {
        path.append("/");
    }
    path.append(part);
    proof {
        if len == 0 {
            assert(path@ =~= part@);
        }
    }
    path
}

/// The directory that holds the socket, below the user's runtime directory.
pub open spec fn runtime_path(user_runtime_dir: Seq<char>) -> Seq<char> {
    joined(user_runtime_dir, DOMAIN@)
}

/// The path of the socket, below the user's runtime directory.
pub open spec fn socket_path(user_runtime_dir: Seq<char>) -> Seq<char> {
    joined(runtime_path(user_runtime_dir), MAIN_APP_ID@ + ".sock"@)
}

/// The directory that holds the socket.
pub fn runtime(user_runtime_dir: &str) -> (path: String)
    ensures
        path@ == runtime_path(user_runtime_dir@),
{
    join(user_runtime_dir, DOMAIN)
}

/// The path of the socket that the coordinator listens on.
pub fn socket(user_runtime_dir: &str) -> (path: String)
    ensures
        path@ == socket_path(user_runtime_dir@),
{
    let directory = runtime(user_runtime_dir);
    let mut name = MAIN_APP_ID.to_owned();
    name.append(".sock");
    join(directory.as_str(), name.as_str())
}

/// Whether a file with this name and these permission bits is a plugin to
/// launch: its name begins with `unirun-plugin`, and someone may execute it.
pub open spec fn plugin_binary(file_name: Seq<char>, mode: u32) -> bool {
    &&& file_name.len() >= "unirun-plugin"@.len()
    &&& file_name.subrange(0, "unirun-plugin"@.len() as int) == "unirun-plugin"@
    &&& mode & 0o111 != 0
}

/// Says whether a file is a plugin to launch.
pub fn is_plugin_binary(file_name: &str, mode: u32) -> (plugin: bool)
    ensures
        plugin == plugin_binary(file_name@, mode),
{
    proof {
        reveal_strlit("unirun-plugin");
    }
    let prefix = "unirun-plugin";
    let wanted = prefix.unicode_len();
    if file_name.unicode_len() < wanted {
        return false;
    }
    let head = file_name.substring_char(0, wanted);
    same_text(head, prefix) && mode & 0o111 != 0
}

/// Whether an icon is given as a file, not by name: its path is absolute.
pub open spec fn file_icon(icon: Seq<char>) -> bool {
    icon.len() > 0 && icon.first() == '/'
}

/// Says whether an icon is given as a file.
pub fn icon_is_file(icon: &str) -> (file: bool)
    ensures
        file == file_icon(icon@),
{
    icon.unicode_len() > 0 && icon.get_char(0) == '/'
}

} // verus!
