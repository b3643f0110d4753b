//! The sections of an image: their names, their load addresses, the files
//! that back them for one target, and the arguments that make the assembler
//! put them together.

use vstd::prelude::*;
use vstd::string::StringExecFns;
use crate::path::{parent, parent_of};
use crate::source::{Source, SourceView};
use crate::text::{from_chars, views};

verus! {

/// The sections that carry the inputs of an image, in the order in which
/// they are added.
#[derive(Debug, Clone, Copy, PartialEq, Eq, Structural)]
pub enum SectionKind {
    OsRelease,
    Cmdline,
    Splash,
    Linux,
    Initrd,
}

impl View for SectionKind {
    type V = SectionKind;

    open spec fn view(&self) -> SectionKind {
        *self
    }
}

impl SectionKind {
    /// The name of the section in the image.
    pub open spec fn label(self) -> Seq<char> {
        match self {
            SectionKind::OsRelease => ".osrel"@,
            SectionKind::Cmdline => ".cmdline"@,
            SectionKind::Splash => ".splash"@,
            SectionKind::Linux => ".linux"@,
            SectionKind::Initrd => ".initrd"@,
        }
    }

    /// The address the section is loaded at. The boot loader expects
    /// exactly these.
    pub open spec fn load_address(self) -> u64 {
        match self {
            SectionKind::OsRelease => 0x20000,
            SectionKind::Cmdline => 0x30000,
            SectionKind::Splash => 0x40000,
            SectionKind::Linux => 0x2000000,
            SectionKind::Initrd => 0x3000000,
        }
    }

    /// The name of the section in the image.
    pub fn name(self) -> (r: &'static str)
        ensures
            r@ == self.label(),
    {
        match self {
            SectionKind::OsRelease => ".osrel",
            SectionKind::Cmdline => ".cmdline",
            SectionKind::Splash => ".splash",
            SectionKind::Linux => ".linux",
            SectionKind::Initrd => ".initrd",
        }
    }

    /// The address the section is loaded at.
    pub fn address(self) -> (r: u64)
        ensures
            r == self.load_address(),
    {
        match self {
            SectionKind::OsRelease => 0x20000,
            SectionKind::Cmdline => 0x30000,
            SectionKind::Splash => 0x40000,
            SectionKind::Linux => 0x2000000,
            SectionKind::Initrd => 0x3000000,
        }
    }
}

/// The sixteen digits of hexadecimal numbers, lower case.
pub open spec fn hex_digit(d: int) -> char {
    seq!['0', '1', '2', '3', '4', '5', '6', '7', '8', '9', 'a', 'b', 'c', 'd', 'e', 'f'][d]
}

/// The digits of `n` in hexadecimal notation, without leading zeros.
pub open spec fn hex_digits(n: nat) -> Seq<char>
    decreases n,
{
    if n < 16 {
        seq![hex_digit(n as int)]
    } else {
        hex_digits(n / 16).push(hex_digit((n % 16) as int))
    }
}

/// `n` as the assembler reads it: `0x` and the hexadecimal digits.
pub open spec fn hex_text(n: nat) -> Seq<char> {
    "0x"@ + hex_digits(n)
}

/// The arguments that add one section: the section with its file, and the
/// change of its load address.
pub open spec fn section_arguments(kind: SectionKind, path: Seq<char>) -> Seq<Seq<char>> {
    seq![
        "--add-section"@,
        kind.label() + "=\""@ + path + "\""@,
        "--change-section-vma"@,
        kind.label() + "="@ + hex_text(kind.load_address() as nat),
    ]
}

/// The arguments that add the sections of `plan`, one after the other.
pub open spec fn plan_arguments(plan: Seq<(SectionKind, Seq<char>)>) -> Seq<Seq<char>>
    decreases plan.len(),
{
    if plan.len() == 0 {
        Seq::empty()
    } else {
        plan_arguments(plan.drop_last()) + section_arguments(plan.last().0, plan.last().1)
    }
}

/// `path` between double quotes.
pub open spec fn quoted(path: Seq<char>) -> Seq<char> {
    "\""@ + path + "\""@
}

/// What was resolved for one target: where each section comes from, the
/// EFI stub the sections are added to, and where the image is written.
#[derive(Debug, Clone, PartialEq, Eq)]
pub struct Resolved {
    pub os_release: Source,
    pub cmdline: Option<Source>,
    pub splash: Option<String>,
    pub linux: String,
    pub initrd: Source,
    pub efistub: String,
    pub output: String,
}

/// The mathematical value of a `Resolved`.
pub struct ResolvedView {
    pub os_release: SourceView,
    pub cmdline: Option<SourceView>,
    pub splash: Option<Seq<char>>,
    pub linux: Seq<char>,
    pub initrd: SourceView,
    pub efistub: Seq<char>,
    pub output: Seq<char>,
}

impl View for Resolved {
    type V = ResolvedView;

    open spec fn view(&self) -> ResolvedView {
        ResolvedView {
            os_release: self.os_release@,
            cmdline: match self.cmdline {
                Some(source) => Some(source@),
                None => None,
            },
            splash: match self.splash {
                Some(path) => Some(path@),
                None => None,
            },
            linux: self.linux@,
            initrd: self.initrd@,
            efistub: self.efistub@,
            output: self.output@,
        }
    }
}

impl ResolvedView {
    /// The sections of the image with the file of each, in the order in
    /// which they are added. A target without command line or without
    /// splash image has no such section.
    pub open spec fn plan(self) -> Seq<(SectionKind, Seq<char>)> {
        seq![(SectionKind::OsRelease, self.os_release.path())] + (match self.cmdline {
            Some(source) => seq![(SectionKind::Cmdline, source.path())],
            None => Seq::empty(),
        }) + (match self.splash {
            Some(path) => seq![(SectionKind::Splash, path)],
            None => Seq::empty(),
        }) + seq![(SectionKind::Linux, self.linux), (SectionKind::Initrd, self.initrd.path())]
    }

    /// The arguments for the assembler: the sections, then the EFI stub
    /// they are added to, then the image that is written.
    pub open spec fn arguments(self) -> Seq<Seq<char>> {
        plan_arguments(self.plan()) + seq![quoted(self.efistub), quoted(self.output)]
    }

    /// The directory the image is written into, which has to be there
    /// before it is; `None` where the output names no directory.
    pub open spec fn directory(self) -> Option<Seq<char>> {
        parent_of(self.output)
    }

    /// The sources that have to be written to scratch files before the
    /// image can be put together, in the order of their sections.
    pub open spec fn scratch(self) -> Seq<SourceView> {
        (if self.os_release.synthesized() {
            seq![self.os_release]
        } else {
            Seq::empty()
        }) + (match self.cmdline {
            Some(source) => if source.synthesized() {
                seq![source]
            } else {
                Seq::empty()
            },
            None => Seq::empty(),
        }) + (if self.initrd.synthesized() {
            seq![self.initrd]
        } else {
            Seq::empty()
        })
    }
}

/// The digits of `n` in hexadecimal notation.
fn hex(n: u64) -> (digits: Vec<char>)
    ensures
        digits@ == hex_digits(n as nat),
    decreases n,
{
    let table: [char; 16] = [
        '0',
        '1',
        '2',
        '3',
        '4',
        '5',
        '6',
        '7',
        '8',
        '9',
        'a',
        'b',
        'c',
        'd',
        'e',
        'f',
    ];
    if n < 16 {
        let mut digits: Vec<char> = Vec::new();
        digits.push(table[n as usize]);
        digits
    } else {
        let mut digits = hex(n / 16);
        digits.push(table[(n % 16) as usize]);
        digits
    }
}

/// The arguments that add the section `kind` backed by the file `path`.
fn push_section(arguments: &mut Vec<String>, kind: SectionKind, path: &str)
    ensures
        views(final(arguments)@) == views(old(arguments)@) + section_arguments(kind, path@),
{
    let ghost before = views(arguments@);
    let mut add = String::from_str(kind.name());
    add.append("=\"");
    add.append(path);
    add.append("\"");
    let mut vma = String::from_str(kind.name());
    vma.append("=");
    vma.append("0x");
    let digits = from_chars(&hex(kind.address()));
    vma.append(digits.as_str());
    proof {
        assert(vma@ =~= kind.label() + "="@ + hex_text(kind.load_address() as nat));
    }
    arguments.push(String::from_str("--add-section"));
    arguments.push(add);
    arguments.push(String::from_str("--change-section-vma"));
    arguments.push(vma);
    proof {
        assert(views(arguments@) =~= before + section_arguments(kind, path@));
    }
}

impl Resolved {
    /// The arguments for the assembler.
    pub fn arguments(&self) -> (r: Vec<String>)
        ensures
            views(r@) == self@.arguments(),
    {
        let mut r: Vec<String> = Vec::new();
        let ghost mut plan: Seq<(SectionKind, Seq<char>)> = Seq::empty();
        proof {
            assert(views(r@) =~= plan_arguments(plan));
        }
        let os_release = self.os_release.path();
        push_section(&mut r, SectionKind::OsRelease, os_release.as_str());
        proof {
            let next = plan.push((SectionKind::OsRelease, os_release@));
            assert(next.drop_last() =~= plan);
            plan = next;
            assert(views(r@) == plan_arguments(plan));
        }
        match &self.cmdline {
            Some(source) => {
                let path = source.path();
                push_section(&mut r, SectionKind::Cmdline, path.as_str());
                proof {
                    let next = plan.push((SectionKind::Cmdline, path@));
                    assert(next.drop_last() =~= plan);
                    plan = next;
                    assert(views(r@) == plan_arguments(plan));
                }
            },
            None => {},
        }
        match &self.splash {
            Some(path) => {
                push_section(&mut r, SectionKind::Splash, path.as_str());
                proof {
                    let next = plan.push((SectionKind::Splash, path@));
                    assert(next.drop_last() =~= plan);
                    plan = next;
                    assert(views(r@) == plan_arguments(plan));
                }
            },
            None => {},
        }
        push_section(&mut r, SectionKind::Linux, self.linux.as_str());
        proof {
            let next = plan.push((SectionKind::Linux, self.linux@));
            assert(next.drop_last() =~= plan);
            plan = next;
            assert(views(r@) == plan_arguments(plan));
        }
        let initrd = self.initrd.path();
        push_section(&mut r, SectionKind::Initrd, initrd.as_str());
        proof {
            let next = plan.push((SectionKind::Initrd, initrd@));
            assert(next.drop_last() =~= plan);
            plan = next;
            assert(views(r@) == plan_arguments(plan));
            assert(plan =~= self@.plan());
        }
        let ghost sections = views(r@);
        let mut efistub = String::from_str("\"");
        efistub.append(self.efistub.as_str());
        efistub.append("\"");
        let mut output = String::from_str("\"");
        output.append(self.output.as_str());
        output.append("\"");
        r.push(efistub);
        r.push(output);
        proof {
            assert(views(r@) =~= sections + seq![quoted(self.efistub@), quoted(self.output@)]);
        }
        r
    }

    /// The sections of the image with the file of each, in the order in
    /// which they are added.
    pub fn plan(&self) -> (r: Vec<(SectionKind, String)>)
        ensures
            views(r@) == self@.plan(),
    {
        let mut r: Vec<(SectionKind, String)> = Vec::new();
        r.push((SectionKind::OsRelease, self.os_release.path()));
        match &self.cmdline {
            Some(source) => {
                r.push((SectionKind::Cmdline, source.path()));
            },
            None => {},
        }
        match &self.splash {
            Some(path) => {
                r.push((SectionKind::Splash, path.clone()));
            },
            None => {},
        }
        r.push((SectionKind::Linux, self.linux.clone()));
        r.push((SectionKind::Initrd, self.initrd.path()));
        proof {
            assert(views(r@) =~= self@.plan());
        }
        r
    }

    /// The sources that have to be written to scratch files before the
    /// image can be put together, in the order of their sections.
    pub fn scratch(&self) -> (r: Vec<&Source>)
        ensures
            views(r@) == self@.scratch(),
    {
        let mut r: Vec<&Source> = Vec::new();
        if self.os_release.is_synthesized() {
            r.push(&self.os_release);
        }
        match &self.cmdline {
            Some(source) => {
                if source.is_synthesized() {
                    r.push(source);
                }
            },
            None => {},
        }
        if self.initrd.is_synthesized() {
            r.push(&self.initrd);
        }
        proof {
            assert(views(r@) =~= self@.scratch());
        }
        r
    }

    /// The directory the image is written into, if the output names one.
    pub fn directory(&self) -> (r: Option<String>)
        ensures
            match r {
                Some(d) => self@.directory() == Some(d@),
                None => self@.directory() is None,
            },
    {
        parent(self.output.as_str())
    }
}

} // verus!
