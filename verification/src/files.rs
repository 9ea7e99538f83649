//! Where each store lives under the data directory, and the clock that
//! stamps records.

use vstd::prelude::*;
use std::path::{Path, PathBuf};
use std::time::{Duration, SystemTime, SystemTimeError};

verus! {

#[verifier::external_type_specification]
#[verifier::external_body]
pub struct ExPath(Path);

#[verifier::external_type_specification]
#[verifier::external_body]
pub struct ExPathBuf(PathBuf);

#[verifier::external_type_specification]
#[verifier::external_body]
pub struct ExSystemTime(SystemTime);

#[verifier::external_type_specification]
#[verifier::external_body]
pub struct ExSystemTimeError(SystemTimeError);

/// The path that `Path::join` makes of `base` and the relative file name
/// `file`.
pub uninterp spec fn joined_path(base: &Path, file: Seq<char>) -> PathBuf;

/// A single relative path component that names a file: not empty, not
/// `.` or `..`, and made of ASCII letters, digits, `.`, `_` and `-` only
/// (so no separator and no prefix on any platform).
pub open spec fn plain_file_name(s: Seq<char>) -> bool {
    &&& s.len() > 0
    &&& s != seq!['.']
    &&& s != seq!['.', '.']
    &&& name_chars_only(s)
}

/// Whether every character of `s` is an ASCII letter, digit, `.`, `_` or
/// `-`.
pub open spec fn name_chars_only(s: Seq<char>) -> bool
    decreases s.len(),
{
    if s.len() == 0 {
        true
    } else {
        let c = s[0];
        &&& ('a' <= c <= 'z' || 'A' <= c <= 'Z' || '0' <= c <= '9' || c == '.' || c == '_' || c
            == '-')
        &&& name_chars_only(s.drop_first())
    }
}

/// `base.join(file)`: `Path::join` depends on its two arguments alone,
/// and the contract names its result. Joining a plain file name appends it
/// as the last component (`Path::join`, `PathBuf::push`), which is what
/// `Path::file_name` then gives back; so two different plain file names
/// joined to the same base give different paths. Nothing more is claimed.
#[verifier::external_body]
fn join_file(base: &Path, file: &str) -> (r: PathBuf)
    ensures
        r == joined_path(base, file@),
        plain_file_name(file@) ==> forall|other: Seq<char>|
            plain_file_name(other) && other != file@ ==> #[trigger] joined_path(base, other) != r,
{
    base.join(file)
}

/// `SystemTime::now()`: the clock's reading, of which nothing is promised.
#[verifier::external_body]
fn system_now() -> SystemTime {
    SystemTime::now()
}

/// `t.duration_since(UNIX_EPOCH)`: the time since the Unix epoch, or an
/// error when `t` is before it; nothing more is promised of the outcome.
#[verifier::external_body]
fn since_unix_epoch(t: SystemTime) -> Result<Duration, SystemTimeError> {
    t.duration_since(SystemTime::UNIX_EPOCH)
}

/// `d.as_secs()`: the whole seconds of a duration, which has no view here,
/// so nothing is promised of the number.
#[verifier::external_body]
fn whole_seconds(d: Duration) -> u64 {
    d.as_secs()
}

/// The five store file names are plain file names, all different.
proof fn lemma_store_file_names()
    ensures
        plain_file_name("posts.json"@),
        plain_file_name("categories.json"@),
        plain_file_name("pages.json"@),
        plain_file_name("tags.json"@),
        plain_file_name("comments.json"@),
        "posts.json"@ != "categories.json"@,
        "posts.json"@ != "pages.json"@,
        "posts.json"@ != "tags.json"@,
        "posts.json"@ != "comments.json"@,
        "categories.json"@ != "pages.json"@,
        "categories.json"@ != "tags.json"@,
        "categories.json"@ != "comments.json"@,
        "pages.json"@ != "tags.json"@,
        "pages.json"@ != "comments.json"@,
        "tags.json"@ != "comments.json"@,
{
    reveal_strlit("posts.json");
    assert("posts.json"@ =~= seq!['p', 'o', 's', 't', 's', '.', 'j', 's', 'o', 'n']);
    assert(plain_file_name(seq!['p', 'o', 's', 't', 's', '.', 'j', 's', 'o', 'n'])) by {
        reveal_with_fuel(name_chars_only, 16);
    }
    reveal_strlit("categories.json");
    assert("categories.json"@ =~= seq!['c', 'a', 't', 'e', 'g', 'o', 'r', 'i', 'e', 's', '.', 'j', 's', 'o', 'n']);
    assert(plain_file_name(seq!['c', 'a', 't', 'e', 'g', 'o', 'r', 'i', 'e', 's', '.', 'j', 's', 'o', 'n'])) by {
        reveal_with_fuel(name_chars_only, 16);
    }
    reveal_strlit("pages.json");
    assert("pages.json"@ =~= seq!['p', 'a', 'g', 'e', 's', '.', 'j', 's', 'o', 'n']);
    assert(plain_file_name(seq!['p', 'a', 'g', 'e', 's', '.', 'j', 's', 'o', 'n'])) by {
        reveal_with_fuel(name_chars_only, 16);
    }
    reveal_strlit("tags.json");
    assert("tags.json"@ =~= seq!['t', 'a', 'g', 's', '.', 'j', 's', 'o', 'n']);
    assert(plain_file_name(seq!['t', 'a', 'g', 's', '.', 'j', 's', 'o', 'n'])) by {
        reveal_with_fuel(name_chars_only, 16);
    }
    reveal_strlit("comments.json");
    assert("comments.json"@ =~= seq!['c', 'o', 'm', 'm', 'e', 'n', 't', 's', '.', 'j', 's', 'o', 'n']);
    assert(plain_file_name(seq!['c', 'o', 'm', 'm', 'e', 'n', 't', 's', '.', 'j', 's', 'o', 'n'])) by {
        reveal_with_fuel(name_chars_only, 16);
    }
}

/// The posts file under the data directory.
pub fn posts_path(data_root: &Path) -> (r: PathBuf)
    ensures
        r == joined_path(data_root, "posts.json"@),
        r != joined_path(data_root, "categories.json"@),
        r != joined_path(data_root, "pages.json"@),
        r != joined_path(data_root, "tags.json"@),
        r != joined_path(data_root, "comments.json"@),
{
    proof {
        lemma_store_file_names();
    }
    join_file(data_root, "posts.json")
}

/// The categories file under the data directory.
pub fn categories_path(data_root: &Path) -> (r: PathBuf)
    ensures
        r == joined_path(data_root, "categories.json"@),
        r != joined_path(data_root, "posts.json"@),
        r != joined_path(data_root, "pages.json"@),
        r != joined_path(data_root, "tags.json"@),
        r != joined_path(data_root, "comments.json"@),
{
    proof {
        lemma_store_file_names();
    }
    join_file(data_root, "categories.json")
}

/// The pages file under the data directory.
pub fn pages_path(data_root: &Path) -> (r: PathBuf)
    ensures
        r == joined_path(data_root, "pages.json"@),
        r != joined_path(data_root, "posts.json"@),
        r != joined_path(data_root, "categories.json"@),
        r != joined_path(data_root, "tags.json"@),
        r != joined_path(data_root, "comments.json"@),
{
    proof {
        lemma_store_file_names();
    }
    join_file(data_root, "pages.json")
}

/// The tags file under the data directory.
pub fn tags_path(data_root: &Path) -> (r: PathBuf)
    ensures
        r == joined_path(data_root, "tags.json"@),
        r != joined_path(data_root, "posts.json"@),
        r != joined_path(data_root, "categories.json"@),
        r != joined_path(data_root, "pages.json"@),
        r != joined_path(data_root, "comments.json"@),
{
    proof {
        lemma_store_file_names();
    }
    join_file(data_root, "tags.json")
}

/// The comments file under the data directory.
pub fn comments_path(data_root: &Path) -> (r: PathBuf)
    ensures
        r == joined_path(data_root, "comments.json"@),
        r != joined_path(data_root, "posts.json"@),
        r != joined_path(data_root, "categories.json"@),
        r != joined_path(data_root, "pages.json"@),
        r != joined_path(data_root, "tags.json"@),
{
    proof {
        lemma_store_file_names();
    }
    join_file(data_root, "comments.json")
}

/// Seconds since the Unix epoch by the system clock, or 0 when the clock
/// reads earlier than the epoch.
pub fn now_unix() -> u64 {
    match since_unix_epoch(system_now()) {
        Ok(d) => whole_seconds(d),
        Err(_) => 0,
    }
}

} // verus!
