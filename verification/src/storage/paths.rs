//! Where the vault file is.
use crate::text;
use vstd::prelude::*;

verus! {

/// A relative path below a directory.
pub open spec fn below(dir: Seq<char>, part: Seq<char>) -> Seq<char> {
    if dir.len() == 0 {
        part
    } else if dir.last() == '/' {
        dir + part
    } else {
        dir + "/"@ + part
    }
}

/// A path below a directory starts with it and ends with the relative part, and
/// one slash stands between the two.
pub proof fn paths_stay_below(dir: Seq<char>, part: Seq<char>)
    requires
        dir.len() > 0,
    ensures
        dir.is_prefix_of(below(dir, part)),
        part.is_suffix_of(below(dir, part)),
        dir.last() != '/' ==> below(dir, part) == dir.push('/') + part,
        below(dir.push('/'), part) == dir.push('/') + part,
{
    reveal_strlit("/");
    let b = below(dir, part);
    assert(b.subrange(0, dir.len() as int) =~= dir);
    assert(b.subrange(b.len() - part.len(), b.len() as int) =~= part);
    assert(dir + "/"@ =~= dir.push('/'));
}

/// A relative path below a directory.
fn path_below(dir: &str, part: &str) -> (r: String)
    ensures
        r@ == below(dir@, part@),
{
    let v = text::chars_of(dir);
    if v.len() == 0 {
        part.to_owned()
    } else if v[v.len() - 1] == '/' {
        text::joined(dir, part)
    } else {
        text::joined3(dir, "/", part)
    }
}

/// The vault of the user whose home directory is `home`; without one it is
/// that of the administrator.
pub fn get_vault_path(home: Option<&str>) -> (r: String)
    ensures
        r@ == below(
            below(
                below(
                    below(
                        match home {
                            Some(h) => h@,
                            None => "/root"@,
                        },
                        ".local"@,
                    ),
                    "share"@,
                ),
                "op4"@,
            ),
            "vault.op4"@,
        ),
{
    let base = match home {
        Some(h) => h,
        None => "/root",
    };
    let local = path_below(base, ".local");
    let share = path_below(local.as_str(), "share");
    let op4 = path_below(share.as_str(), "op4");
    path_below(op4.as_str(), "vault.op4")
}

/// The vault in the private directory of an Android app.
pub fn get_vault_path_android(internal_data_path: &str) -> (r: String)
    ensures
        r@ == below(internal_data_path@, "vault.op4"@),
{
    path_below(internal_data_path, "vault.op4")
}

/// The marker beside a vault file: the path of the file with an ending behind
/// it.
pub open spec fn marker_name(path: Seq<char>) -> Seq<char> {
    path + ".seq"@
}

/// The path of the marker beside a vault file.
pub fn seq_marker_path(vault_path: &str) -> (r: String)
    ensures
        r@ == marker_name(vault_path@),
{
    text::joined(vault_path, ".seq")
}

} // verus!
