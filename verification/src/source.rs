//! Where the bytes of a section come from: a file that is already there, or
//! a scratch file that has to be written first, and what is written to it.

use vstd::prelude::*;
use vstd::string::StrSliceExecFns;
use vstd::utf8::encode_utf8;
use crate::error::{AppError, AppErrorView, IoCause, IoCauseView};
use crate::initrd::{merge_images, merged, reads_of};
use crate::os_release::{rewrite_os_release, rewritten_text};
use crate::temp::{scratch_path, temp_path};
use crate::text::views;

verus! {

/// The input of one section.
#[derive(Debug, Clone, PartialEq, Eq)]
pub enum Source {
    /// A regular file, used as it is.
    File(String),
    /// The scratch file `scratch`, to be written with `text`.
    Text { scratch: String, text: String },
    /// The scratch file `scratch`, to be written with the os-release file
    /// `base` rewritten for `flavor` under `title`.
    Rewrite { scratch: String, base: String, title: String, flavor: String },
    /// The scratch file `scratch`, to be written with the bytes of the
    /// files `parts`, one after the other.
    Concat { scratch: String, parts: Vec<String> },
}

/// The mathematical value of a `Source`.
pub enum SourceView {
    File(Seq<char>),
    Text { scratch: Seq<char>, text: Seq<char> },
    Rewrite { scratch: Seq<char>, base: Seq<char>, title: Seq<char>, flavor: Seq<char> },
    Concat { scratch: Seq<char>, parts: Seq<Seq<char>> },
}

impl View for Source {
    type V = SourceView;

    open spec fn view(&self) -> SourceView {
        match self {
            Source::File(path) => SourceView::File(path@),
            Source::Text { scratch, text } => SourceView::Text { scratch: scratch@, text: text@ },
            Source::Rewrite { scratch, base, title, flavor } => SourceView::Rewrite {
                scratch: scratch@,
                base: base@,
                title: title@,
                flavor: flavor@,
            },
            Source::Concat { scratch, parts } => SourceView::Concat {
                scratch: scratch@,
                parts: views(parts@),
            },
        }
    }
}

impl SourceView {
    /// The path that is handed on as the input of the section: the file
    /// itself, or the place of the scratch file.
    pub open spec fn path(self) -> Seq<char> {
        match self {
            SourceView::File(path) => path,
            SourceView::Text { scratch, .. } => scratch_path(scratch),
            SourceView::Rewrite { scratch, .. } => scratch_path(scratch),
            SourceView::Concat { scratch, .. } => scratch_path(scratch),
        }
    }

    /// Whether a scratch file has to be written before the path can be used.
    pub open spec fn synthesized(self) -> bool {
        !(self is File)
    }

    /// The files that have to be read before the scratch file can be
    /// written, in the order in which they are read: the os-release that is
    /// rewritten, or the images that are merged.
    pub open spec fn inputs(self) -> Seq<Seq<char>> {
        match self {
            SourceView::Rewrite { base, .. } => seq![base],
            SourceView::Concat { parts, .. } => parts,
            _ => Seq::empty(),
        }
    }
}

/// What reading a text gave: the text, or why it could not be read.
pub open spec fn text_read(r: Result<String, IoCause>) -> Result<Seq<char>, IoCauseView> {
    match r {
        Ok(text) => Ok(text@),
        Err(cause) => Err(cause@),
    }
}

/// The mathematical value of the outcome of telling a content.
pub open spec fn content_outcome(r: Result<Option<Vec<u8>>, AppError>) -> Result<
    Option<Seq<u8>>,
    AppErrorView,
> {
    match r {
        Ok(Some(bytes)) => Ok(Some(bytes@)),
        Ok(None) => Ok(None),
        Err(e) => Err(e@),
    }
}

/// What is written to the scratch file of `source`, where `base` is what
/// reading its os-release gave and `reads` what reading its images gave. A
/// file that is used as it is has no scratch file, and nothing is written.
/// A text is written as it is. A rewrite is the os-release that was read,
/// rewritten for the flavor under the title; where it could not be read, the
/// error names it. A merge is the bytes that were read, in their order; the
/// first image that could not be read gives the error, which names it. Text
/// is written in UTF-8.
pub open spec fn content_of(
    source: SourceView,
    base: Result<Seq<char>, IoCauseView>,
    reads: Seq<(Seq<char>, Result<Seq<u8>, IoCauseView>)>,
) -> Result<Option<Seq<u8>>, AppErrorView> {
    match source {
        SourceView::File(_) => Ok(None),
        SourceView::Text { text, .. } => Ok(Some(encode_utf8(text))),
        SourceView::Rewrite { base: path, title, flavor, .. } => match base {
            Ok(text) => Ok(Some(encode_utf8(rewritten_text(text, title, flavor)))),
            Err(cause) => Err(AppErrorView::IoError { path, source: cause }),
        },
        SourceView::Concat { .. } => match merged(reads) {
            Ok(bytes) => Ok(Some(bytes)),
            Err(e) => Err(e),
        },
    }
}

impl Source {
    /// The path that is handed on as the input of the section.
    pub fn path(&self) -> (p: String)
        ensures
            p@ == self@.path(),
    {
        match self {
            Source::File(path) => path.clone(),
            Source::Text { scratch, .. } => temp_path(scratch.as_str()),
            Source::Rewrite { scratch, .. } => temp_path(scratch.as_str()),
            Source::Concat { scratch, .. } => temp_path(scratch.as_str()),
        }
    }

    /// The files that have to be read before the scratch file can be
    /// written, in the order in which they are read.
    pub fn inputs(&self) -> (r: Vec<String>)
        ensures
            views(r@) == self@.inputs(),
    {
        let mut r: Vec<String> = Vec::new();
        match self {
            Source::Rewrite { base, .. } => {
                r.push(base.clone());
                proof {
                    assert(views(r@) =~= seq![base@]);
                }
            },
            Source::Concat { parts, .. } => {
                let mut i: usize = 0;
                while i < parts.len()
                    invariant
                        i <= parts.len(),
                        views(r@) == views(parts@).take(i as int),
                    decreases parts.len() - i,
                {
                    let ghost before = views(r@);
                    r.push(parts[i].clone());
                    proof {
                        assert(views(r@) =~= before.push(parts@[i as int]@));
                        assert(views(parts@).take(i + 1) =~= views(parts@).take(i as int).push(
                            parts@[i as int]@,
                        ));
                    }
                    i += 1;
                }
                proof {
                    assert(views(parts@).take(parts.len() as int) =~= views(parts@));
                }
            },
            _ => {
                proof {
                    assert(views(r@) =~= Seq::<Seq<char>>::empty());
                }
            },
        }
        r
    }

    /// What is written to the scratch file of the source: `base` is what
    /// reading the os-release of a rewrite gave, `reads` what reading the
    /// images of a merge gave, each image with its path. `None` where the
    /// source is a file that is used as it is.
    pub fn content(
        &self,
        base: &Result<String, IoCause>,
        reads: &Vec<(String, Result<Vec<u8>, IoCause>)>,
    ) -> (r: Result<Option<Vec<u8>>, AppError>)
        ensures
            content_outcome(r) == content_of(self@, text_read(*base), reads_of(reads@)),
    {
        match self {
            Source::File(_) => Ok(None),
            Source::Text { text, .. } => Ok(Some(text.as_str().as_bytes_vec())),
            Source::Rewrite { base: path, title, flavor, .. } => match base {
                Ok(text) => {
                    let rewritten = rewrite_os_release(
                        text.as_str(),
                        title.as_str(),
                        flavor.as_str(),
                    );
                    Ok(Some(rewritten.as_str().as_bytes_vec()))
                },
                Err(cause) => Err(
                    AppError::IoError { path: path.clone(), source: cause.duplicate() },
                ),
            },
            Source::Concat { .. } => match merge_images(reads) {
                Ok(bytes) => Ok(Some(bytes)),
                Err(e) => Err(e),
            },
        }
    }

    /// Whether a scratch file has to be written before the path can be used.
    pub fn is_synthesized(&self) -> (b: bool)
        ensures
            b == self@.synthesized(),
    {
        match self {
            Source::File(_) => false,
            _ => true,
        }
    }
}

} // verus!
