use vstd::prelude::*;
use vstd::string::*;

use crate::text::{lacks, substring};

verus! {

/// Position of the last `.` in `s`, or `-1` where it has none.
pub open spec fn last_dot(s: Seq<char>) -> int
    decreases s.len(),
{
    if s.len() == 0 {
        -1
    } else if s.last() == '.' {
        s.len() - 1
    } else {
        last_dot(s.drop_last())
    }
}

/// `s` names a file with a nonempty extension: its last dot is neither its
/// first nor its last character.
pub open spec fn has_extension(s: Seq<char>) -> bool {
    0 < last_dot(s) < s.len() - 1
}

/// The archive's file name: the name given, with `.zip` added where it has
/// no extension.
pub open spec fn archive_filename_of(s: Seq<char>) -> Seq<char> {
    if has_extension(s) {
        s
    } else {
        s + ".zip"@
    }
}

/// The name of the working directory and of the archive's root directory:
/// the archive's file name without its extension.
pub open spec fn work_dir_name_of(s: Seq<char>) -> Seq<char> {
    if has_extension(s) {
        s.take(last_dot(s))
    } else {
        s
    }
}

/// The names that an export derives from the destination file name.
pub struct ArchiveNames {
    pub archive_filename: String,
    pub work_dir_name: String,
}

proof fn lemma_last_dot_bounds(s: Seq<char>)
    ensures
        -1 <= last_dot(s) < s.len(),
        last_dot(s) >= 0 ==> s[last_dot(s)] == '.',
    decreases s.len(),
{
    if s.len() > 0 {
        lemma_last_dot_bounds(s.drop_last());
    }
}

/// Finds the position of the last `.` in `s`.
fn find_last_dot(s: &str) -> (r: Option<usize>)
    ensures
        r is None <==> last_dot(s@) == -1,
        r is Some ==> r->0 == last_dot(s@),
{
    let n = s.unicode_len();
    let mut found: Option<usize> = None;
    let mut i: usize = 0;
    while i < n
        invariant
            n == s@.len(),
            i <= n,
            found is None <==> last_dot(s@.take(i as int)) == -1,
            found is Some ==> found->0 == last_dot(s@.take(i as int)),
        decreases n - i,
    {
        proof {
            assert(s@.take(i + 1).drop_last() =~= s@.take(i as int));
            lemma_last_dot_bounds(s@.take(i as int));
        }
        if s.get_char(i) == '.' {
            found = Some(i);
        }
        i = i + 1;
    }
    proof {
        assert(s@.take(n as int) =~= s@);
    }
    found
}

/// Derives the archive's file name and the working directory's name from
/// the destination file name.
pub fn archive_names(dest_filename: &str) -> (r: ArchiveNames)
    ensures
        r.archive_filename@ == archive_filename_of(dest_filename@),
        r.work_dir_name@ == work_dir_name_of(dest_filename@),
{
    let n = dest_filename.unicode_len();
    let dot = find_last_dot(dest_filename);
    proof {
        lemma_last_dot_bounds(dest_filename@);
    }
    match dot {
        Some(d) if 0 < d && d + 1 < n => {
            proof {
                assert(dest_filename@.subrange(0, d as int) =~= dest_filename@.take(d as int));
            }
            ArchiveNames {
                archive_filename: String::from_str(dest_filename),
                work_dir_name: substring(dest_filename, 0, d),
            }
        },
        _ => ArchiveNames {
            archive_filename: String::from_str(dest_filename).concat(".zip"),
            work_dir_name: String::from_str(dest_filename),
        },
    }
}

/// A file name that joins a directory as one more path component: not
/// empty, no separator or drive colon, and neither `.` nor `..`.
pub open spec fn plain_file_name(name: Seq<char>) -> bool {
    &&& name.len() > 0
    &&& lacks(name, '/')
    &&& lacks(name, '\\')
    &&& lacks(name, ':')
    &&& name != seq!['.']
    &&& name != seq!['.', '.']
}

/// The path has a verbatim prefix (`\\?\`), under which a joined path is
/// rebuilt from its components.
pub open spec fn verbatim_path(path: Seq<char>) -> bool {
    path.len() >= 4 && path.take(4) == seq!['\\', '\\', '?', '\\']
}

/// What joining a plain file name to a directory gives on every platform,
/// for a directory without a verbatim prefix that is not a bare drive
/// (`C:`): the name alone under an empty directory, the name after a
/// directory that ends with `/`, and otherwise the name after the directory
/// and one separator, `/` or `\`.
pub open spec fn joined_path_shape(parent: Seq<char>, name: Seq<char>, r: Seq<char>) -> bool {
    plain_file_name(name) && !verbatim_path(parent) && (parent.len() == 0 || parent.last() != ':')
        ==> {
        &&& parent.len() == 0 ==> r == name
        &&& parent.len() > 0 && parent.last() == '/' ==> r == parent + name
        &&& parent.len() > 0 && parent.last() != '/' && parent.last() != '\\' ==> (r == parent
            + seq!['/'] + name || r == parent + seq!['\\'] + name)
    }
}

/// Relies on `std::path::Path::join` (`PathBuf::push`): a relative path is
/// appended after the platform's separator where the directory does not end
/// with a separator and is not a bare drive; only under a verbatim prefix is
/// the result normalized. A path made of two strings converts back
/// losslessly.
#[verifier::external_body]
fn join_path(parent: &str, name: &str) -> (r: String)
    ensures
        joined_path_shape(parent@, name@, r@),
{
    std::path::Path::new(parent).join(name).to_string_lossy().into_owned()
}

/// Where an export works and what it writes.
pub struct ExportPaths {
    /// The archive's file name.
    pub archive_filename: String,
    /// The working directory: named after the archive without its
    /// extension, inside the destination directory.
    pub work_dir: String,
    /// The archive, inside the destination directory.
    pub archive_path: String,
}

/// The paths of an export into `parent_dir` under the destination file
/// name `dest_filename`.
pub fn export_paths(parent_dir: &str, dest_filename: &str) -> (r: ExportPaths)
    ensures
        r.archive_filename@ == archive_filename_of(dest_filename@),
        joined_path_shape(parent_dir@, work_dir_name_of(dest_filename@), r.work_dir@),
        joined_path_shape(parent_dir@, archive_filename_of(dest_filename@), r.archive_path@),
{
    let names = archive_names(dest_filename);
    let work_dir = join_path(parent_dir, names.work_dir_name.as_str());
    let archive_path = join_path(parent_dir, names.archive_filename.as_str());
    ExportPaths { archive_filename: names.archive_filename, work_dir, archive_path }
}

} // verus!
