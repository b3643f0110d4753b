//! The resolution of the sections of one target: which file backs each,
//! what has to be written first, and which paths are looked at on the way.

use vstd::prelude::*;
use vstd::string::StringExecFns;
use crate::config::{
    default_linux, Config, ConfigView, InlineOrPath, InlineOrPathView, OneOrMany, OneOrManyView,
    DEFAULT_OS_RELEASE, FALLBACK_OS_RELEASE,
};
use crate::error::{outcome, AppError, AppErrorView};
use crate::initrd::{
    detected_initrd, main_image, main_initrd, populate_initramfs, AMD_UCODE, INTEL_UCODE,
};
use crate::os_release::{rewrite_os_release, rewritten_text};
use crate::path::{canonicalize, resolve};
use crate::plan::{Resolved, ResolvedView};
use crate::probe::{head_at, kind_at, Files, Snapshot};
use crate::source::{Source, SourceView};
use crate::temp::{scratch_name, temp_name};
use crate::text::views;
use crate::validate::{check_file, check_splash, checked_file, checked_splash};

verus! {

/// What the scratch file of a rewritten os-release is for, in a
/// configuration read from a document.
pub const OS_RELEASE_PURPOSE: &'static str = "os-release";

/// What the scratch file of a rewritten os-release is for, in a
/// configuration made from arguments.
pub const OS_RELEASE_PURPOSE_DIRECT: &'static str = "os_release";

/// What the scratch file of an inline command line is for.
pub const CMDLINE_PURPOSE: &'static str = "cmdline";

/// What the scratch file of merged initial ramdisks is for.
pub const INITRD_PURPOSE: &'static str = "initrd.img";

/// The argument that names the linux image.
pub const LINUX_ARGUMENT: &'static str = "linux";

/// The argument that names the initial ramdisks.
pub const INITRD_ARGUMENT: &'static str = "initrd";

/// The mathematical value of an outcome that may hold a source.
pub open spec fn optional_source(r: Result<Option<Source>, AppError>) -> Result<
    Option<SourceView>,
    AppErrorView,
> {
    match r {
        Ok(Some(source)) => Ok(Some(source@)),
        Ok(None) => Ok(None),
        Err(e) => Err(e@),
    }
}

/// The mathematical value of an outcome that may hold a path.
pub open spec fn optional_path(r: Result<Option<String>, AppError>) -> Result<
    Option<Seq<char>>,
    AppErrorView,
> {
    match r {
        Ok(Some(path)) => Ok(Some(path@)),
        Ok(None) => Ok(None),
        Err(e) => Err(e@),
    }
}

/// The path of the source that was found.
pub open spec fn path_of(r: Result<SourceView, AppErrorView>) -> Result<Seq<char>, AppErrorView> {
    match r {
        Ok(source) => Ok(source.path()),
        Err(e) => Err(e),
    }
}

/// The path of the source that was found, if one was called for.
pub open spec fn optional_path_of(r: Result<Option<SourceView>, AppErrorView>) -> Result<
    Option<Seq<char>>,
    AppErrorView,
> {
    match r {
        Ok(Some(source)) => Ok(Some(source.path())),
        Ok(None) => Ok(None),
        Err(e) => Err(e),
    }
}

impl ConfigView {
    /// The name of the scratch file for the os-release of a target.
    pub open spec fn os_release_scratch(self, kernel: Seq<char>, flavor: Seq<char>) -> Seq<char> {
        if self.direct {
            scratch_name(kernel, flavor, OS_RELEASE_PURPOSE_DIRECT@)
        } else {
            scratch_name(kernel, flavor, OS_RELEASE_PURPOSE@)
        }
    }

    /// The os-release file that is used for the setting `candidate`: the
    /// file it names, where that is a regular file; else, in a
    /// configuration read from a document, the one of the second choice. The
    /// error, where there is one, is that of the last file tried.
    pub open spec fn os_release_base(self, candidate: Seq<char>, fs: Files) -> Result<
        Seq<char>,
        AppErrorView,
    > {
        let first = checked_file(self.location, candidate, fs);
        if first is Ok || self.direct {
            first
        } else {
            checked_file(self.location, FALLBACK_OS_RELEASE@, fs)
        }
    }

    /// Where the os-release section of a target comes from. With a title,
    /// the description is rewritten into a scratch file; without, a file is
    /// used as it is and a text is written out as it is.
    pub open spec fn os_release_source(
        self,
        kernel: Seq<char>,
        flavor: Seq<char>,
        fs: Files,
    ) -> Result<SourceView, AppErrorView> {
        let title = self.flavor(kernel, flavor).title;
        let scratch = self.os_release_scratch(kernel, flavor);
        match self.os_release_setting(kernel, flavor) {
            InlineOrPathView::Inline { inline } => Ok(
                SourceView::Text {
                    scratch,
                    text: match title {
                        Some(t) => rewritten_text(inline, t, flavor),
                        None => inline,
                    },
                },
            ),
            InlineOrPathView::Path(candidate) => match self.os_release_base(candidate, fs) {
                Err(e) => Err(e),
                Ok(base) => match title {
                    Some(t) => Ok(SourceView::Rewrite { scratch, base, title: t, flavor }),
                    None => Ok(SourceView::File(base)),
                },
            },
        }
    }

    /// Where the command line section of a target comes from; `None` where
    /// the target has no command line, and the section is left out.
    pub open spec fn cmdline_source(self, kernel: Seq<char>, flavor: Seq<char>, fs: Files) -> Result<
        Option<SourceView>,
        AppErrorView,
    > {
        match self.cmdline_setting(kernel, flavor) {
            Some(InlineOrPathView::Path(candidate)) => match checked_file(
                self.location,
                candidate,
                fs,
            ) {
                Ok(path) => Ok(Some(SourceView::File(path))),
                Err(e) => Err(e),
            },
            Some(InlineOrPathView::Inline { inline }) => Ok(
                Some(
                    SourceView::Text {
                        scratch: scratch_name(kernel, flavor, CMDLINE_PURPOSE@),
                        text: inline,
                    },
                ),
            ),
            None => Ok(None),
        }
    }

    /// The splash image of a target; `None` where the target has none, and
    /// the section is left out.
    pub open spec fn splash_image_path(
        self,
        kernel: Seq<char>,
        flavor: Seq<char>,
        fs: Files,
    ) -> Result<Option<Seq<char>>, AppErrorView> {
        match self.splash_image_setting(kernel, flavor) {
            Some(candidate) => match checked_splash(self.location, candidate, fs) {
                Ok(path) => Ok(Some(path)),
                Err(e) => Err(e),
            },
            None => Ok(None),
        }
    }

    /// The linux image of a target. Where none is named, a configuration
    /// read from a document takes the image that goes with the kernel's
    /// name, and one made from arguments fails.
    pub open spec fn linux_path(self, kernel: Seq<char>, flavor: Seq<char>, fs: Files) -> Result<
        Seq<char>,
        AppErrorView,
    > {
        match self.linux_setting(kernel, flavor) {
            Some(candidate) => checked_file(self.location, candidate, fs),
            None => if self.direct {
                Err(AppErrorView::NotProvided(LINUX_ARGUMENT@))
            } else {
                checked_file(self.location, default_linux(kernel), fs)
            },
        }
    }

    /// The initial ramdisks a target asks for. Where none is named, a
    /// configuration read from a document looks for what is there, and one
    /// made from arguments fails.
    pub open spec fn initrd_setting(self, kernel: Seq<char>, flavor: Seq<char>, fs: Files) -> Result<
        OneOrManyView,
        AppErrorView,
    > {
        match self.flavor(kernel, flavor).initrd {
            Some(setting) => Ok(setting),
            None => if self.direct {
                Err(AppErrorView::NotProvided(INITRD_ARGUMENT@))
            } else {
                detected_initrd(kernel, flavor, fs)
            },
        }
    }

    /// Where the initrd section of a target comes from: one image is
    /// checked and used as it is, several are merged into a scratch file in
    /// the order in which they are listed.
    pub open spec fn initrd_source(self, kernel: Seq<char>, flavor: Seq<char>, fs: Files) -> Result<
        SourceView,
        AppErrorView,
    > {
        match self.initrd_setting(kernel, flavor, fs) {
            Err(e) => Err(e),
            Ok(OneOrManyView::One(candidate)) => match checked_file(self.location, candidate, fs) {
                Ok(path) => Ok(SourceView::File(path)),
                Err(e) => Err(e),
            },
            Ok(OneOrManyView::Many(parts)) => Ok(
                SourceView::Concat { scratch: scratch_name(kernel, flavor, INITRD_PURPOSE@), parts },
            ),
        }
    }

    /// The EFI stub of a target.
    pub open spec fn efistub_path(self, kernel: Seq<char>, flavor: Seq<char>, fs: Files) -> Result<
        Seq<char>,
        AppErrorView,
    > {
        checked_file(self.location, self.efistub_setting(kernel, flavor), fs)
    }

    /// Where the image of a target is written. The path is taken as it is
    /// given; nothing has to exist there.
    pub open spec fn output_path(self, kernel: Seq<char>, flavor: Seq<char>) -> Seq<char> {
        self.flavor(kernel, flavor).output
    }
}

/// A list of its own with the same texts.
fn copies_of(texts: &Vec<String>) -> (r: Vec<String>)
    ensures
        views(r@) == views(texts@),
{
    let mut r: Vec<String> = Vec::new();
    let mut i: usize = 0;
    while i < texts.len()
        invariant
            i <= texts.len(),
            views(r@) == views(texts@).take(i as int),
        decreases texts.len() - i,
    {
        let ghost before = views(r@);
        r.push(texts[i].clone());
        proof {
            assert(views(r@) =~= before.push(texts@[i as int]@));
            assert(views(texts@).take(i + 1) =~= views(texts@).take(i as int).push(
                texts@[i as int]@,
            ));
        }
        i += 1;
    }
    proof {
        assert(views(texts@).take(texts.len() as int) =~= views(texts@));
    }
    r
}

impl Config {
    /// Where the os-release section of the target comes from, as `fs`
    /// shows the files.
    pub fn os_release_source(&self, kernel: &str, flavor: &str, fs: &Snapshot) -> (r: Result<
        Source,
        AppError,
    >)
        requires
            self@.has_target(kernel@, flavor@),
        ensures
            outcome(r) == self@.os_release_source(kernel@, flavor@, fs@),
    {
        let (_, f) = self.target(kernel, flavor);
        let scratch = if self.is_direct() {
            temp_name(kernel, flavor, OS_RELEASE_PURPOSE_DIRECT)
        } else {
            temp_name(kernel, flavor, OS_RELEASE_PURPOSE)
        };
        let candidate: &str = match &f.os_release {
            Some(InlineOrPath::Inline { inline }) => {
                let text = match &f.title {
                    Some(title) => rewrite_os_release(inline.as_str(), title.as_str(), flavor),
                    None => inline.clone(),
                };
                return Ok(Source::Text { scratch, text });
            },
            Some(InlineOrPath::Path(path)) => path.as_str(),
            None => DEFAULT_OS_RELEASE,
        };
        let first = check_file(self.location().as_str(), candidate, fs);
        let base = match first {
            Ok(path) => path,
            Err(e) => {
                if self.is_direct() {
                    return Err(e);
                }
                match check_file(self.location().as_str(), FALLBACK_OS_RELEASE, fs) {
                    Ok(path) => path,
                    Err(e) => {
                        return Err(e);
                    },
                }
            },
        };
        match &f.title {
            Some(title) => Ok(
                Source::Rewrite {
                    scratch,
                    base,
                    title: title.clone(),
                    flavor: flavor.to_owned(),
                },
            ),
            None => Ok(Source::File(base)),
        }
    }

    /// The path of the os-release section of the target.
    pub fn os_release_path(&self, kernel: &str, flavor: &str, fs: &Snapshot) -> (r: Result<
        String,
        AppError,
    >)
        requires
            self@.has_target(kernel@, flavor@),
        ensures
            outcome(r) == path_of(self@.os_release_source(kernel@, flavor@, fs@)),
    {
        match self.os_release_source(kernel, flavor, fs) {
            Ok(source) => Ok(source.path()),
            Err(e) => Err(e),
        }
    }

    /// Where the command line section of the target comes from, as `fs`
    /// shows the files.
    pub fn cmdline_source(&self, kernel: &str, flavor: &str, fs: &Snapshot) -> (r: Result<
        Option<Source>,
        AppError,
    >)
        requires
            self@.has_target(kernel@, flavor@),
        ensures
            optional_source(r) == self@.cmdline_source(kernel@, flavor@, fs@),
    {
        match self.cmdline_setting(kernel, flavor) {
            Some(InlineOrPath::Path(candidate)) => {
                match check_file(self.location().as_str(), candidate.as_str(), fs) {
                    Ok(path) => Ok(Some(Source::File(path))),
                    Err(e) => Err(e),
                }
            },
            Some(InlineOrPath::Inline { inline }) => Ok(
                Some(
                    Source::Text {
                        scratch: temp_name(kernel, flavor, CMDLINE_PURPOSE),
                        text: inline.clone(),
                    },
                ),
            ),
            None => Ok(None),
        }
    }

    /// The path of the command line section of the target, if it has one.
    pub fn cmdline_path(&self, kernel: &str, flavor: &str, fs: &Snapshot) -> (r: Result<
        Option<String>,
        AppError,
    >)
        requires
            self@.has_target(kernel@, flavor@),
        ensures
            optional_path(r) == optional_path_of(self@.cmdline_source(kernel@, flavor@, fs@)),
    {
        match self.cmdline_source(kernel, flavor, fs) {
            Ok(Some(source)) => Ok(Some(source.path())),
            Ok(None) => Ok(None),
            Err(e) => Err(e),
        }
    }

    /// The path of the splash image of the target, if it has one.
    pub fn splash_image_path(&self, kernel: &str, flavor: &str, fs: &Snapshot) -> (r: Result<
        Option<String>,
        AppError,
    >)
        requires
            self@.has_target(kernel@, flavor@),
        ensures
            optional_path(r) == self@.splash_image_path(kernel@, flavor@, fs@),
    {
        match self.splash_image_setting(kernel, flavor) {
            Some(candidate) => match check_splash(self.location().as_str(), candidate.as_str(), fs) {
                Ok(path) => Ok(Some(path)),
                Err(e) => Err(e),
            },
            None => Ok(None),
        }
    }

    /// The path of the linux image of the target.
    pub fn linux_path(&self, kernel: &str, flavor: &str, fs: &Snapshot) -> (r: Result<
        String,
        AppError,
    >)
        requires
            self@.has_target(kernel@, flavor@),
        ensures
            outcome(r) == self@.linux_path(kernel@, flavor@, fs@),
    {
        match self.linux_setting(kernel, flavor) {
            Some(candidate) => check_file(self.location().as_str(), candidate.as_str(), fs),
            None => {
                if self.is_direct() {
                    Err(AppError::NotProvided(LINUX_ARGUMENT))
                } else {
                    let mut candidate = String::from_str("/boot/vmlinuz-");
                    candidate.append(kernel);
                    check_file(self.location().as_str(), candidate.as_str(), fs)
                }
            },
        }
    }

    /// Where the initrd section of the target comes from, as `fs` shows
    /// the files.
    pub fn initrd_source(&self, kernel: &str, flavor: &str, fs: &Snapshot) -> (r: Result<
        Source,
        AppError,
    >)
        requires
            self@.has_target(kernel@, flavor@),
        ensures
            outcome(r) == self@.initrd_source(kernel@, flavor@, fs@),
    {
        let (_, f) = self.target(kernel, flavor);
        let detected: OneOrMany<String>;
        let setting: &OneOrMany<String> = match &f.initrd {
            Some(setting) => setting,
            None => {
                if self.is_direct() {
                    return Err(AppError::NotProvided(INITRD_ARGUMENT));
                }
                match populate_initramfs(kernel, flavor, fs) {
                    Ok(found) => {
                        detected = found;
                        &detected
                    },
                    Err(e) => {
                        return Err(e);
                    },
                }
            },
        };
        match setting {
            OneOrMany::One(candidate) => {
                match check_file(self.location().as_str(), candidate.as_str(), fs) {
                    Ok(path) => Ok(Source::File(path)),
                    Err(e) => Err(e),
                }
            },
            OneOrMany::Many(parts) => Ok(
                Source::Concat {
                    scratch: temp_name(kernel, flavor, INITRD_PURPOSE),
                    parts: copies_of(parts),
                },
            ),
        }
    }

    /// The path of the initrd section of the target.
    pub fn initrd_path(&self, kernel: &str, flavor: &str, fs: &Snapshot) -> (r: Result<
        String,
        AppError,
    >)
        requires
            self@.has_target(kernel@, flavor@),
        ensures
            outcome(r) == path_of(self@.initrd_source(kernel@, flavor@, fs@)),
    {
        match self.initrd_source(kernel, flavor, fs) {
            Ok(source) => Ok(source.path()),
            Err(e) => Err(e),
        }
    }

    /// The path of the EFI stub of the target.
    pub fn efistub_path(&self, kernel: &str, flavor: &str, fs: &Snapshot) -> (r: Result<
        String,
        AppError,
    >)
        requires
            self@.has_target(kernel@, flavor@),
        ensures
            outcome(r) == self@.efistub_path(kernel@, flavor@, fs@),
    {
        let candidate = self.efistub_setting(kernel, flavor);
        check_file(self.location().as_str(), candidate, fs)
    }

    /// The path the image of the target is written to.
    pub fn output_path(&self, kernel: &str, flavor: &str) -> (r: Result<String, AppError>)
        requires
            self@.has_target(kernel@, flavor@),
        ensures
            outcome(r) == Ok::<Seq<char>, AppErrorView>(self@.output_path(kernel@, flavor@)),
    {
        let (_, f) = self.target(kernel, flavor);
        Ok(f.output.clone())
    }
}

impl ConfigView {
    /// Whether the resolution of a target may look at the path `p`. These
    /// are the settings that name files, resolved, and the files that stand
    /// in for settings left out. The parts of a list of initial ramdisks are
    /// read when they are merged and are not looked at before.
    pub open spec fn looks_at(self, kernel: Seq<char>, flavor: Seq<char>, p: Seq<char>) -> bool {
        let own = self.flavor(kernel, flavor);
        ||| self.os_release_setting(kernel, flavor) matches InlineOrPathView::Path(c) && (p
            == resolve(self.location, c) || (!self.direct && p == resolve(
            self.location,
            FALLBACK_OS_RELEASE@,
        )))
        ||| self.cmdline_setting(kernel, flavor) matches Some(InlineOrPathView::Path(c)) && p
            == resolve(self.location, c)
        ||| self.splash_image_setting(kernel, flavor) matches Some(c) && p == resolve(
            self.location,
            c,
        )
        ||| self.linux_setting(kernel, flavor) matches Some(c) && p == resolve(self.location, c)
        ||| self.linux_setting(kernel, flavor) is None && !self.direct && p == resolve(
            self.location,
            default_linux(kernel),
        )
        ||| own.initrd matches Some(OneOrManyView::One(c)) && p == resolve(self.location, c)
        ||| own.initrd is None && !self.direct && (p == AMD_UCODE@ || p == INTEL_UCODE@ || p
            == resolve(self.location, main_initrd(kernel, flavor)))
        ||| p == resolve(self.location, self.efistub_setting(kernel, flavor))
    }
}

/// A list with one more item holds what it held and the item.
pub proof fn lemma_push_contains(s: Seq<Seq<char>>, x: Seq<char>)
    ensures
        forall|p: Seq<char>| #[trigger] s.push(x).contains(p) <==> s.contains(p) || p == x,
{
    assert forall|p: Seq<char>| #[trigger] s.push(x).contains(p) <==> s.contains(p) || p == x by {
        if s.contains(p) {
            let i = choose|i: int| 0 <= i < s.len() && s[i] == p;
            assert(s.push(x)[i] == p);
        }
        if p == x {
            assert(s.push(x)[s.len() as int] == p);
        }
        if s.push(x).contains(p) {
            let i = choose|i: int| 0 <= i < s.push(x).len() && s.push(x)[i] == p;
            if i < s.len() {
                assert(s[i] == p);
            }
        }
    }
}

/// Puts `path`, resolved against `location`, at the end of `paths`.
fn note(paths: &mut Vec<String>, location: &str, path: &str)
    ensures
        forall|p: Seq<char>| #[trigger]
            views(final(paths)@).contains(p) <==> views(old(paths)@).contains(p) || p == resolve(
                location@,
                path@,
            ),
{
    let ghost before = views(paths@);
    let resolved = canonicalize(location, path);
    paths.push(resolved);
    proof {
        assert(views(paths@) =~= before.push(resolve(location@, path@)));
        lemma_push_contains(before, resolve(location@, path@));
    }
}

impl Config {
    /// The paths that the resolution of the target may look at. A record
    /// that says what is at each of them is all the resolution needs.
    pub fn probe_paths(&self, kernel: &str, flavor: &str) -> (paths: Vec<String>)
        requires
            self@.has_target(kernel@, flavor@),
        ensures
            forall|p: Seq<char>| #[trigger]
                views(paths@).contains(p) <==> self@.looks_at(kernel@, flavor@, p),
    {
        let (_, f) = self.target(kernel, flavor);
        let location = self.location().as_str();
        let mut paths: Vec<String> = Vec::new();
        proof {
            assert(views(paths@) =~= Seq::<Seq<char>>::empty());
        }
        match &f.os_release {
            Some(InlineOrPath::Inline { .. }) => {},
            Some(InlineOrPath::Path(c)) => {
                note(&mut paths, location, c.as_str());
                if !self.is_direct() {
                    note(&mut paths, location, FALLBACK_OS_RELEASE);
                }
            },
            None => {
                note(&mut paths, location, DEFAULT_OS_RELEASE);
                if !self.is_direct() {
                    note(&mut paths, location, FALLBACK_OS_RELEASE);
                }
            },
        }
        match self.cmdline_setting(kernel, flavor) {
            Some(InlineOrPath::Path(c)) => {
                note(&mut paths, location, c.as_str());
            },
            _ => {},
        }
        match self.splash_image_setting(kernel, flavor) {
            Some(c) => {
                note(&mut paths, location, c.as_str());
            },
            None => {},
        }
        match self.linux_setting(kernel, flavor) {
            Some(c) => {
                note(&mut paths, location, c.as_str());
            },
            None => {
                if !self.is_direct() {
                    let mut candidate = String::from_str("/boot/vmlinuz-");
                    candidate.append(kernel);
                    note(&mut paths, location, candidate.as_str());
                }
            },
        }
        match &f.initrd {
            Some(OneOrMany::One(c)) => {
                note(&mut paths, location, c.as_str());
            },
            Some(OneOrMany::Many(_)) => {},
            None => {
                if !self.is_direct() {
                    let ghost before = views(paths@);
                    paths.push(String::from_str(AMD_UCODE));
                    proof {
                        assert(views(paths@) =~= before.push(AMD_UCODE@));
                        lemma_push_contains(before, AMD_UCODE@);
                    }
                    let ghost with_amd = views(paths@);
                    paths.push(String::from_str(INTEL_UCODE));
                    proof {
                        assert(views(paths@) =~= with_amd.push(INTEL_UCODE@));
                        lemma_push_contains(with_amd, INTEL_UCODE@);
                    }
                    let main = main_image(kernel, flavor);
                    note(&mut paths, location, main.as_str());
                }
            },
        }
        let efistub = self.efistub_setting(kernel, flavor);
        note(&mut paths, location, efistub);
        paths
    }
}

/// What the resolution of one target gives: the sections are resolved in
/// the order os-release, command line, splash image, linux image, initial
/// ramdisk, EFI stub, and the first failure is the failure of the target.
pub open spec fn resolved(config: ConfigView, kernel: Seq<char>, flavor: Seq<char>, fs: Files) -> Result<
    ResolvedView,
    AppErrorView,
> {
    match config.os_release_source(kernel, flavor, fs) {
        Err(e) => Err(e),
        Ok(os_release) => match config.cmdline_source(kernel, flavor, fs) {
            Err(e) => Err(e),
            Ok(cmdline) => match config.splash_image_path(kernel, flavor, fs) {
                Err(e) => Err(e),
                Ok(splash) => match config.linux_path(kernel, flavor, fs) {
                    Err(e) => Err(e),
                    Ok(linux) => match config.initrd_source(kernel, flavor, fs) {
                        Err(e) => Err(e),
                        Ok(initrd) => match config.efistub_path(kernel, flavor, fs) {
                            Err(e) => Err(e),
                            Ok(efistub) => Ok(
                                ResolvedView {
                                    os_release,
                                    cmdline,
                                    splash,
                                    linux,
                                    initrd,
                                    efistub,
                                    output: config.output_path(kernel, flavor),
                                },
                            ),
                        },
                    },
                },
            },
        },
    }
}

/// A resolution depends on the record only in what it says of the paths
/// the resolution looks at: two records that agree on those give the same.
pub proof fn law_probes_suffice(
    config: ConfigView,
    kernel: Seq<char>,
    flavor: Seq<char>,
    one: Files,
    other: Files,
)
    requires
        forall|p: Seq<char>| #[trigger]
            config.looks_at(kernel, flavor, p) ==> kind_at(one, p) == kind_at(other, p) && head_at(
                one,
                p,
            ) == head_at(other, p),
    ensures
        resolved(config, kernel, flavor, one) == resolved(config, kernel, flavor, other),
        config.os_release_source(kernel, flavor, one) == config.os_release_source(
            kernel,
            flavor,
            other,
        ),
        config.cmdline_source(kernel, flavor, one) == config.cmdline_source(kernel, flavor, other),
        config.splash_image_path(kernel, flavor, one) == config.splash_image_path(
            kernel,
            flavor,
            other,
        ),
        config.linux_path(kernel, flavor, one) == config.linux_path(kernel, flavor, other),
        config.initrd_source(kernel, flavor, one) == config.initrd_source(kernel, flavor, other),
        config.efistub_path(kernel, flavor, one) == config.efistub_path(kernel, flavor, other),
{
    let location = config.location;
    match config.os_release_setting(kernel, flavor) {
        InlineOrPathView::Path(c) => {
            assert(config.looks_at(kernel, flavor, resolve(location, c)));
            if !config.direct {
                assert(config.looks_at(
                    kernel,
                    flavor,
                    resolve(location, FALLBACK_OS_RELEASE@),
                ));
            }
        },
        _ => {},
    }
    match config.cmdline_setting(kernel, flavor) {
        Some(InlineOrPathView::Path(c)) => {
            assert(config.looks_at(kernel, flavor, resolve(location, c)));
        },
        _ => {},
    }
    match config.splash_image_setting(kernel, flavor) {
        Some(c) => {
            assert(config.looks_at(kernel, flavor, resolve(location, c)));
        },
        None => {},
    }
    match config.linux_setting(kernel, flavor) {
        Some(c) => {
            assert(config.looks_at(kernel, flavor, resolve(location, c)));
        },
        None => {
            if !config.direct {
                assert(config.looks_at(
                    kernel,
                    flavor,
                    resolve(location, default_linux(kernel)),
                ));
            }
        },
    }
    match config.flavor(kernel, flavor).initrd {
        Some(OneOrManyView::One(c)) => {
            assert(config.looks_at(kernel, flavor, resolve(location, c)));
        },
        Some(_) => {},
        None => {
            if !config.direct {
                assert(config.looks_at(kernel, flavor, AMD_UCODE@));
                assert(config.looks_at(kernel, flavor, INTEL_UCODE@));
                assert(config.looks_at(
                    kernel,
                    flavor,
                    resolve(location, main_initrd(kernel, flavor)),
                ));
            }
        },
    }
    assert(config.looks_at(
        kernel,
        flavor,
        resolve(location, config.efistub_setting(kernel, flavor)),
    ));
}

impl Config {
    /// Resolves every section of the target, as `fs` shows the files.
    pub fn resolve(&self, kernel: &str, flavor: &str, fs: &Snapshot) -> (r: Result<
        Resolved,
        AppError,
    >)
        requires
            self@.has_target(kernel@, flavor@),
        ensures
            outcome(r) == resolved(self@, kernel@, flavor@, fs@),
    {
        let os_release = match self.os_release_source(kernel, flavor, fs) {
            Ok(source) => source,
            Err(e) => {
                return Err(e);
            },
        };
        let cmdline = match self.cmdline_source(kernel, flavor, fs) {
            Ok(source) => source,
            Err(e) => {
                return Err(e);
            },
        };
        let splash = match self.splash_image_path(kernel, flavor, fs) {
            Ok(path) => path,
            Err(e) => {
                return Err(e);
            },
        };
        let linux = match self.linux_path(kernel, flavor, fs) {
            Ok(path) => path,
            Err(e) => {
                return Err(e);
            },
        };
        let initrd = match self.initrd_source(kernel, flavor, fs) {
            Ok(source) => source,
            Err(e) => {
                return Err(e);
            },
        };
        let efistub = match self.efistub_path(kernel, flavor, fs) {
            Ok(path) => path,
            Err(e) => {
                return Err(e);
            },
        };
        let output = match self.output_path(kernel, flavor) {
            Ok(path) => path,
            Err(e) => {
                return Err(e);
            },
        };
        Ok(Resolved { os_release, cmdline, splash, linux, initrd, efistub, output })
    }
}

} // verus!
