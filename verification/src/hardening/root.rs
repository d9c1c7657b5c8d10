//! Signs of a rooted phone. They are reported, not refused.
use crate::text;
use crate::text::{has_part, lines_from, texts};
use vstd::prelude::*;

verus! {

/// Whether a phone is rooted.
#[derive(Debug, Clone, PartialEq, Eq)]
pub enum RootStatus {
    NotRooted,
    /// With what was found.
    PossiblyRooted(String),
    /// With what was found.
    Rooted(String),
}

/// What a [`RootStatus`] means.
#[verifier::ext_equal]
pub enum RootView {
    NotRooted,
    PossiblyRooted(Seq<char>),
    Rooted(Seq<char>),
}

impl View for RootStatus {
    type V = RootView;

    open spec fn view(&self) -> RootView {
        match self {
            RootStatus::NotRooted => RootView::NotRooted,
            RootStatus::PossiblyRooted(s) => RootView::PossiblyRooted(s@),
            RootStatus::Rooted(s) => RootView::Rooted(s@),
        }
    }
}

/// Number of files that are looked for.
pub const ROOT_FILES: usize = 8;

/// The files that are looked for: `su` in six places, then Magisk in two.
pub open spec fn root_file(i: int) -> Seq<char> {
    if i == 0 {
        "/system/bin/su"@
    } else if i == 1 {
        "/system/xbin/su"@
    } else if i == 2 {
        "/sbin/su"@
    } else if i == 3 {
        "/system/su"@
    } else if i == 4 {
        "/data/local/su"@
    } else if i == 5 {
        "/data/local/bin/su"@
    } else if i == 6 {
        "/sbin/.magisk"@
    } else {
        "/data/adb/magisk"@
    }
}

/// The files that are looked for.
pub fn root_file_path(i: usize) -> (r: &'static str)
    ensures
        r@ == root_file(i as int),
{
    match i {
        0 => "/system/bin/su",
        1 => "/system/xbin/su",
        2 => "/sbin/su",
        3 => "/system/su",
        4 => "/data/local/su",
        5 => "/data/local/bin/su",
        6 => "/sbin/.magisk",
        _ => "/data/adb/magisk",
    }
}

/// What a file that was found means.
pub open spec fn found_text(i: int) -> Seq<char> {
    if i < 6 {
        "su binary found at "@ + root_file(i)
    } else {
        "Magisk found at "@ + root_file(i)
    }
}

/// The first file from `from` on that exists.
pub open spec fn found_from(exists_at: Seq<bool>, from: int) -> Option<int>
    decreases exists_at.len() - from,
{
    if from < 0 || from >= exists_at.len() {
        None
    } else if exists_at[from] {
        Some(from)
    } else {
        found_from(exists_at, from + 1)
    }
}

/// Whether a build property says that the build was signed with test keys.
pub open spec fn is_test_build(line: Seq<char>) -> bool {
    "ro.build.tags="@.is_prefix_of(line) && has_part(line, "test-keys"@)
}

/// Whether the build properties say that the build was signed with test keys.
pub open spec fn test_build(props: Seq<char>) -> bool {
    exists|i: int|
        0 <= i < lines_from(props, 0).len() && is_test_build(#[trigger] lines_from(props, 0)[i])
}

/// What was found on a phone: files first, then the build properties.
pub open spec fn root_found(exists_at: Seq<bool>, props: Option<Seq<char>>) -> RootView {
    match found_from(exists_at, 0) {
        Some(i) => RootView::Rooted(found_text(i)),
        None => match props {
            Some(p) => if test_build(p) {
                RootView::PossiblyRooted("build signed with test-keys"@)
            } else {
                RootView::NotRooted
            },
            None => RootView::NotRooted,
        },
    }
}

/// Whether the build properties say that the build was signed with test keys.
fn has_test_build(props: &str) -> (r: bool)
    ensures
        r == test_build(props@),
{
    let lines = text::lines(props);
    let ghost all = lines_from(props@, 0);
    let mut i: usize = 0;
    while i < lines.len()
        invariant
            i <= lines@.len(),
            all == texts(lines@),
            all == lines_from(props@, 0),
            forall|j: int| 0 <= j < i ==> !is_test_build(#[trigger] all[j]),
        decreases lines@.len() - i,
    {
        assert(all[i as int] == lines@[i as int]@);
        if text::starts_with(lines[i].as_str(), "ro.build.tags=") && text::contains(
            lines[i].as_str(),
            "test-keys",
        ) {
            assert(is_test_build(lines_from(props@, 0)[i as int]));
            return true;
        }
        i = i + 1;
    }
    false
}

/// Judges a phone by which of the files exist, and by its build properties
/// where they can be read.
pub fn check_root_status(exists_at: &Vec<bool>, props: Option<&str>) -> (r: RootStatus)
    requires
        exists_at@.len() == ROOT_FILES,
    ensures
        r@ == root_found(
            exists_at@,
            match props {
                Some(p) => Some(p@),
                None => None,
            },
        ),
{
    let mut i: usize = 0;
    while i < exists_at.len()
        invariant
            i <= exists_at@.len(),
            found_from(exists_at@, 0) == found_from(exists_at@, i as int),
        decreases exists_at@.len() - i,
    {
        if exists_at[i] {
            let what = if i < 6 {
                "su binary found at "
            } else {
                "Magisk found at "
            };
            return RootStatus::Rooted(text::joined(what, root_file_path(i)));
        }
        i = i + 1;
    }
    if let Some(p) = props {
        if has_test_build(p) {
            return RootStatus::PossiblyRooted("build signed with test-keys".to_owned());
        }
    }
    RootStatus::NotRooted
}

} // verus!
