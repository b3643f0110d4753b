//! Scratch files: where a synthesized input is written, and what has to be
//! cleared away there first. A scratch file is named by the kernel, the
//! flavor and its purpose, so two targets never share one. Nothing removes
//! a scratch file when the work is done.

use vstd::prelude::*;
use vstd::string::StringExecFns;
use crate::probe::{kind_at, FileKind, Files, Snapshot};

verus! {

/// The directory that holds the scratch files.
pub const TEMP_DIR: &'static str = "/tmp";

/// What has to be removed before a scratch file is created.
#[derive(Debug, Clone, Copy, PartialEq, Eq, Structural)]
pub enum Removal {
    /// Nothing is in the way.
    Nothing,
    /// A file, or anything else that is no directory, is in the way.
    File,
    /// A directory is in the way.
    Directory,
}

/// How a scratch file comes to be: what is removed first, and where the
/// file is then created, empty.
#[derive(Debug, Clone, PartialEq, Eq)]
pub struct Scratch {
    pub path: String,
    pub removal: Removal,
}

/// The name of the scratch file of one target for one purpose.
pub open spec fn scratch_name(kernel: Seq<char>, flavor: Seq<char>, purpose: Seq<char>) -> Seq<
    char,
> {
    kernel + "-"@ + flavor + "-"@ + purpose
}

/// Where the scratch file called `name` lives.
pub open spec fn scratch_path(name: Seq<char>) -> Seq<char> {
    TEMP_DIR@ + "/"@ + name
}

/// What stands in the way of a new file where `found` was found.
pub open spec fn removal_for(found: FileKind) -> Removal {
    match found {
        FileKind::Missing => Removal::Nothing,
        FileKind::Directory => Removal::Directory,
        _ => Removal::File,
    }
}

/// The name of the scratch file of the target `kernel`, `flavor` for the
/// purpose `purpose`.
pub fn temp_name(kernel: &str, flavor: &str, purpose: &str) -> (name: String)
    ensures
        name@ == scratch_name(kernel@, flavor@, purpose@),
{
    let mut name = String::from_str(kernel);
    name.append("-");
    name.append(flavor);
    name.append("-");
    name.append(purpose);
    name
}

/// Where the scratch file called `name` lives.
pub fn temp_path(name: &str) -> (path: String)
    ensures
        path@ == scratch_path(name@),
{
    let mut path = String::from_str(TEMP_DIR);
    path.append("/");
    path.append(name);
    path
}

/// Plans the scratch file called `name`. Whatever `fs` shows at its path is
/// removed first, a directory as a directory and anything else as a file, so
/// that nothing written before is left in the new file.
pub fn temp_file(name: &str, fs: &Snapshot) -> (r: Scratch)
    ensures
        r.path@ == scratch_path(name@),
        r.removal == removal_for(kind_at(fs@, scratch_path(name@))),
{
    let path = temp_path(name);
    let removal = match fs.kind(path.as_str()) {
        FileKind::Missing => Removal::Nothing,
        FileKind::Directory => Removal::Directory,
        _ => Removal::File,
    };
    Scratch { path, removal }
}

/// Whatever is found at the path of a scratch file is removed before the
/// file is created, and where nothing is found nothing is removed.
pub proof fn law_scratch_is_cleared(name: Seq<char>, fs: Files) 
    ensures
        removal_for(kind_at(fs, scratch_path(name))) == Removal::Nothing <==> kind_at(
            fs,
            scratch_path(name),
        ) == FileKind::Missing,
        kind_at(fs, scratch_path(name)) == FileKind::Directory ==> removal_for(
            kind_at(fs, scratch_path(name)),
        ) == Removal::Directory,
{
}

} // verus!
