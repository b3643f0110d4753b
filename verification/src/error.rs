//! What can go wrong while the inputs of an image are resolved.

use vstd::prelude::*;
use vstd::string::StringExecFns;

verus! {

/// Why a file could not be used.
#[derive(Debug, Clone, PartialEq, Eq)]
pub enum IoCause {
    /// Nothing exists at the path.
    NotFound,
    /// Something exists at the path, but it is not a regular file.
    InvalidInput,
    /// Any other failure of the file system, in the words of the system.
    Other(String),
}

/// The mathematical value of an `IoCause`.
pub enum IoCauseView {
    NotFound,
    InvalidInput,
    Other(Seq<char>),
}

impl View for IoCause {
    type V = IoCauseView;

    open spec fn view(&self) -> IoCauseView {
        match self {
            IoCause::NotFound => IoCauseView::NotFound,
            IoCause::InvalidInput => IoCauseView::InvalidInput,
            IoCause::Other(words) => IoCauseView::Other(words@),
        }
    }
}

impl IoCause {
    /// A cause of its own that says the same.
    pub fn duplicate(&self) -> (r: Self)
        ensures
            r@ == self@,
    {
        match self {
            IoCause::NotFound => IoCause::NotFound,
            IoCause::InvalidInput => IoCause::InvalidInput,
            IoCause::Other(words) => IoCause::Other(words.clone()),
        }
    }
}

/// A failure of the resolution of one target. Every failure ends the work
/// on the target; nothing is tried again.
#[derive(Debug, Clone, PartialEq, Eq)]
pub enum AppError {
    /// The splash image cannot be read or does not start like a BMP image.
    InvalidSplash,
    /// A file could not be used; `path` names it and `source` says why.
    IoError { path: String, source: IoCause },
    /// A setting that has no default was not given.
    NotProvided(&'static str),
    /// Both the AMD and the Intel microcode image are present.
    MultipleMicrocode,
}

/// The mathematical value of an `AppError`.
pub enum AppErrorView {
    InvalidSplash,
    IoError { path: Seq<char>, source: IoCauseView },
    NotProvided(Seq<char>),
    MultipleMicrocode,
}

impl View for AppError {
    type V = AppErrorView;

    open spec fn view(&self) -> AppErrorView {
        match self {
            AppError::InvalidSplash => AppErrorView::InvalidSplash,
            AppError::IoError { path, source } => AppErrorView::IoError {
                path: path@,
                source: source@,
            },
            AppError::NotProvided(name) => AppErrorView::NotProvided(name@),
            AppError::MultipleMicrocode => AppErrorView::MultipleMicrocode,
        }
    }
}

impl IoCauseView {
    /// The cause in words.
    pub open spec fn reason(self) -> Seq<char> {
        match self {
            IoCauseView::NotFound => "entity not found"@,
            IoCauseView::InvalidInput => "invalid input parameter"@,
            IoCauseView::Other(words) => words,
        }
    }
}

impl AppErrorView {
    /// The failure in words, as it is shown to people.
    pub open spec fn message(self) -> Seq<char> {
        match self {
            AppErrorView::InvalidSplash => "Splash image is not a valid bmp file"@,
            AppErrorView::IoError { path, source } => "I/O error (path: \""@ + path
                + "\", reason: "@ + source.reason() + ")"@,
            AppErrorView::NotProvided(name) => "Argument "@ + name + " was not provided!"@,
            AppErrorView::MultipleMicrocode => "Multiple microcode images found"@,
        }
    }
}

impl IoCause {
    /// The cause in words.
    pub fn reason(&self) -> (words: String)
        ensures
            words@ == self@.reason(),
    {
        match self {
            IoCause::NotFound => String::from_str("entity not found"),
            IoCause::InvalidInput => String::from_str("invalid input parameter"),
            IoCause::Other(words) => words.clone(),
        }
    }
}

impl AppError {
    /// The failure in words, as it is shown to people.
    pub fn message(&self) -> (words: String)
        ensures
            words@ == self@.message(),
    {
        match self {
            AppError::InvalidSplash => String::from_str("Splash image is not a valid bmp file"),
            AppError::IoError { path, source } => {
                let mut words = String::from_str("I/O error (path: \"");
                words.append(path.as_str());
                words.append("\", reason: ");
                let reason = source.reason();
                words.append(reason.as_str());
                words.append(")");
                words
            },
            AppError::NotProvided(name) => {
                let mut words = String::from_str("Argument ");
                words.append(name);
                words.append(" was not provided!");
                words
            },
            AppError::MultipleMicrocode => String::from_str("Multiple microcode images found"),
        }
    }
}

/// The error for a path at which nothing exists.
pub open spec fn not_found(path: Seq<char>) -> AppErrorView {
    AppErrorView::IoError { path, source: IoCauseView::NotFound }
}

/// The error for a path at which something other than a regular file exists.
pub open spec fn invalid_input(path: Seq<char>) -> AppErrorView {
    AppErrorView::IoError { path, source: IoCauseView::InvalidInput }
}

/// The mathematical value of a result: that of what it holds.
pub open spec fn outcome<T: View, E: View>(r: Result<T, E>) -> Result<T::V, E::V> {
    match r {
        Ok(t) => Ok(t@),
        Err(e) => Err(e@),
    }
}

} // verus!
