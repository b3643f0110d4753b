//! The checks a path has to pass before it is used as the input of a
//! section: it has to name a regular file, and a splash image has to start
//! like a BMP image.

use vstd::prelude::*;
use crate::error::{invalid_input, not_found, outcome, AppError, AppErrorView, IoCause};
use crate::path::{canonicalize, resolve};
use crate::probe::{head_at, kind_at, FileKind, Files, Snapshot};

verus! {

/// The two bytes every BMP image starts with: the letters B and M.
pub open spec fn is_bmp_magic(head: Seq<u8>) -> bool {
    head.len() > 1 && head[0] == 0x42 && head[1] == 0x4D
}

/// `infer::image::is_bmp` tells whether the buffer holds at least two bytes
/// and starts with the bytes 0x42 0x4D. It looks at nothing else.
pub assume_specification[ infer::image::is_bmp ](buf: &[u8]) -> (b: bool)
    ensures
        b == is_bmp_magic(buf@),
;

/// What `check_file` answers: the resolved path where a regular file was
/// found there, and otherwise the error that names the resolved path.
pub open spec fn checked_file(base: Seq<char>, candidate: Seq<char>, fs: Files) -> Result<
    Seq<char>,
    AppErrorView,
> {
    let path = resolve(base, candidate);
    match kind_at(fs, path) {
        FileKind::File => Ok(path),
        FileKind::Missing => Err(not_found(path)),
        _ => Err(invalid_input(path)),
    }
}

/// What `check_splash` answers: the resolved path where the file there
/// starts like a BMP image.
pub open spec fn checked_splash(base: Seq<char>, candidate: Seq<char>, fs: Files) -> Result<
    Seq<char>,
    AppErrorView,
> {
    let path = resolve(base, candidate);
    if is_bmp_magic(head_at(fs, path)) {
        Ok(path)
    } else {
        Err(AppErrorView::InvalidSplash)
    }
}

/// Resolves `path` against `relative_to` and checks in `fs` that a regular
/// file is there. Where nothing is there the error is `NotFound`, where
/// something else is there it is `InvalidInput`; both name the resolved path.
pub fn check_file(relative_to: &str, path: &str, fs: &Snapshot) -> (r: Result<String, AppError>)
    ensures
        outcome(r) == checked_file(relative_to@, path@, fs@),
{
    let resolved = canonicalize(relative_to, path);
    match fs.kind(resolved.as_str()) {
        FileKind::File => Ok(resolved),
        FileKind::Missing => Err(AppError::IoError { path: resolved, source: IoCause::NotFound }),
        _ => Err(AppError::IoError { path: resolved, source: IoCause::InvalidInput }),
    }
}

/// Resolves `path` against `relative_to` and checks in `fs` that the file
/// there starts with the two bytes of a BMP image. Only those two bytes are
/// looked at. A file whose first two bytes could not be read fails the check
/// like one that starts otherwise.
pub fn check_splash(relative_to: &str, path: &str, fs: &Snapshot) -> (r: Result<String, AppError>)
    ensures
        outcome(r) == checked_splash(relative_to@, path@, fs@),
{
    let resolved = canonicalize(relative_to, path);
    let head = fs.head(resolved.as_str());
    if infer::image::is_bmp(head.as_slice()) {
        Ok(resolved)
    } else {
        Err(AppError::InvalidSplash)
    }
}

} // verus!
