use vstd::prelude::*;
use vstd::string::*;

verus! {

/// One entry of a local directory.
#[derive(Debug, Clone)]
pub struct LocalEntry {
    pub name: String,
    pub is_dir: bool,
    pub size: u64,
    /// `YYYY-MM-DD HH:MM`, or empty when unknown.
    pub modified: String,
    pub path: String,
}

/// One entry of a directory, local or remote, for display.
#[derive(Debug, Clone)]
pub struct FileEntryInfo {
    pub name: String,
    pub is_dir: bool,
    pub size: u64,
    pub modified: String,
}

/// What `format!("{:?}", Path::new(p))` gives for the path text `p`: it is
/// quoted and escaped, and depends on the characters alone.
pub uninterp spec fn path_debug_of(p: Seq<char>) -> Seq<char>;

/// Relies on `<std::path::Path as Debug>::fmt`: the quoted, escaped form of the path.
#[verifier::external_body]
fn path_debug(p: &str) -> (r: String)
    ensures
        r@ == path_debug_of(p@),
{
    format!("{:?}", std::path::Path::new(p))
}

pub open spec fn missing_text(path: Seq<char>) -> Seq<char> {
    "文件不存在: "@ + path_debug_of(path)
}

pub open spec fn not_a_file_text(path: Seq<char>) -> Seq<char> {
    "路径不是一个文件: "@ + path_debug_of(path)
}

/// Whether `path` names an existing regular file, given what the file
/// system reports: whether something is there, and whether it is a file.
pub fn ensure_file_exists(path: &str, exists: bool, is_file: bool) -> (r: Result<(), String>)
    ensures
        !exists ==> r is Err && r->Err_0@ == missing_text(path@),
        exists && !is_file ==> r is Err && r->Err_0@ == not_a_file_text(path@),
        exists && is_file ==> r is Ok,
{
    if !exists {
        let mut m = String::from_str("文件不存在: ");
        let d = path_debug(path);
        m.append(d.as_str());
        Err(m)
    } else if !is_file {
        let mut m = String::from_str("路径不是一个文件: ");
        let d = path_debug(path);
        m.append(d.as_str());
        Err(m)
    } else {
        Ok(())
    }
}

/// Whether the file to upload exists and is a regular file, given what the
/// file system reports.
pub fn validate_upload_path(local_path: &str, exists: bool, is_file: bool) -> (r: Result<(), String>)
    ensures
        !exists ==> r is Err && r->Err_0@ == missing_text(local_path@),
        exists && !is_file ==> r is Err && r->Err_0@ == not_a_file_text(local_path@),
        exists && is_file ==> r is Ok,
{
    ensure_file_exists(local_path, exists, is_file)
}

} // verus!
