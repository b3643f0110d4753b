//! The configuration: kernels by name, each with its flavors by name, and
//! the settings of both. A kernel and one of its flavors make a target.

use vstd::prelude::*;
use vstd::string::StringExecFns;
use crate::text::{from_chars, same_text, split, split_chars, to_chars, views};

verus! {

/// A setting that is either the path of a file or the text itself.
#[derive(Debug, Clone, PartialEq, Eq)]
pub enum InlineOrPath {
    Path(String),
    Inline { inline: String },
}

/// The mathematical value of an `InlineOrPath`.
pub enum InlineOrPathView {
    Path(Seq<char>),
    Inline { inline: Seq<char> },
}

impl View for InlineOrPath {
    type V = InlineOrPathView;

    open spec fn view(&self) -> InlineOrPathView {
        match self {
            InlineOrPath::Path(path) => InlineOrPathView::Path(path@),
            InlineOrPath::Inline { inline } => InlineOrPathView::Inline { inline: inline@ },
        }
    }
}

/// A setting that is either one item or a list of items.
#[derive(Debug, Clone, PartialEq, Eq)]
pub enum OneOrMany<T> {
    One(T),
    Many(Vec<T>),
}

/// The mathematical value of a `OneOrMany` of paths.
pub enum OneOrManyView {
    One(Seq<char>),
    Many(Seq<Seq<char>>),
}

impl View for OneOrMany<String> {
    type V = OneOrManyView;

    open spec fn view(&self) -> OneOrManyView {
        match self {
            OneOrMany::One(path) => OneOrManyView::One(path@),
            OneOrMany::Many(paths) => OneOrManyView::Many(views(paths@)),
        }
    }
}

/// The mathematical value of an optional text.
pub open spec fn text_of(o: Option<String>) -> Option<Seq<char>> {
    match o {
        Some(s) => Some(s@),
        None => None,
    }
}

/// The mathematical value of an optional setting.
pub open spec fn setting_of(o: Option<InlineOrPath>) -> Option<InlineOrPathView> {
    match o {
        Some(s) => Some(s@),
        None => None,
    }
}

/// The mathematical value of an optional initrd setting.
pub open spec fn initrd_of(o: Option<OneOrMany<String>>) -> Option<OneOrManyView> {
    match o {
        Some(s) => Some(s@),
        None => None,
    }
}

/// One way to boot a kernel. Every setting but the output may be left out.
#[derive(Debug, Clone, PartialEq, Eq)]
pub struct Flavor {
    pub os_release: Option<InlineOrPath>,
    pub title: Option<String>,
    pub cmdline: Option<InlineOrPath>,
    pub splash_image: Option<String>,
    pub linux: Option<String>,
    pub initrd: Option<OneOrMany<String>>,
    pub efistub: Option<String>,
    pub output: String,
}

/// The mathematical value of a `Flavor`.
pub struct FlavorView {
    pub os_release: Option<InlineOrPathView>,
    pub title: Option<Seq<char>>,
    pub cmdline: Option<InlineOrPathView>,
    pub splash_image: Option<Seq<char>>,
    pub linux: Option<Seq<char>>,
    pub initrd: Option<OneOrManyView>,
    pub efistub: Option<Seq<char>>,
    pub output: Seq<char>,
}

impl View for Flavor {
    type V = FlavorView;

    open spec fn view(&self) -> FlavorView {
        FlavorView {
            os_release: setting_of(self.os_release),
            title: text_of(self.title),
            cmdline: setting_of(self.cmdline),
            splash_image: text_of(self.splash_image),
            linux: text_of(self.linux),
            initrd: initrd_of(self.initrd),
            efistub: text_of(self.efistub),
            output: self.output@,
        }
    }
}

impl Flavor {
    /// A flavor that writes its image to `output` and leaves every other
    /// setting to its kernel and to the defaults.
    pub fn new(output: &str) -> (f: Self)
        ensures
            f@ == (FlavorView {
                os_release: None,
                title: None,
                cmdline: None,
                splash_image: None,
                linux: None,
                initrd: None,
                efistub: None,
                output: output@,
            }),
    {
        Flavor {
            os_release: None,
            title: None,
            cmdline: None,
            splash_image: None,
            linux: None,
            initrd: None,
            efistub: None,
            output: output.to_owned(),
        }
    }
}

/// The value filed under `name` in a list of named values: that of the
/// first entry of that name.
pub open spec fn lookup<V>(entries: Seq<(Seq<char>, V)>, name: Seq<char>) -> Option<V>
    decreases entries.len(),
{
    if entries.len() == 0 {
        None
    } else if entries[0].0 == name {
        Some(entries[0].1)
    } else {
        lookup(entries.drop_first(), name)
    }
}

/// No name stands twice in the list.
pub open spec fn names_unique<V>(entries: Seq<(Seq<char>, V)>) -> bool {
    forall|i: int, j: int| 0 <= i < j < entries.len() ==> entries[i].0 != entries[j].0
}

/// The position of the first entry called `name`, or the length of the list.
pub open spec fn position<V>(entries: Seq<(Seq<char>, V)>, name: Seq<char>) -> int
    decreases entries.len(),
{
    if entries.len() == 0 || entries[0].0 == name {
        0
    } else {
        1 + position(entries.drop_first(), name)
    }
}

/// The list with `value` filed under `name`: in the place of the entry of
/// that name where there is one, and else at the end.
pub open spec fn inserted<V>(entries: Seq<(Seq<char>, V)>, name: Seq<char>, value: V) -> Seq<
    (Seq<char>, V),
> {
    let i = position(entries, name);
    if 0 <= i < entries.len() {
        entries.update(i, (name, value))
    } else {
        entries.push((name, value))
    }
}

/// `position` is pinned down by where the first entry of the name stands,
/// and `lookup` finds the value of that entry.
pub proof fn lemma_position<V>(entries: Seq<(Seq<char>, V)>, name: Seq<char>, i: int)
    requires
        0 <= i <= entries.len(),
        forall|k: int| 0 <= k < i ==> entries[k].0 != name,
        i == entries.len() || entries[i].0 == name,
    ensures
        position(entries, name) == i,
        i < entries.len() ==> lookup(entries, name) == Some(entries[i].1),
        i == entries.len() ==> lookup(entries, name) is None,
    decreases i,
{
    if i > 0 {
        let rest = entries.drop_first();
        assert forall|k: int| 0 <= k < i - 1 implies rest[k].0 != name by {
            assert(rest[k] == entries[k + 1]);
        }
        lemma_position(rest, name, i - 1);
    }
}

/// Where `position` points: at the first entry of the name, or behind the
/// list where no entry has the name.
pub proof fn lemma_position_bounds<V>(entries: Seq<(Seq<char>, V)>, name: Seq<char>)
    ensures
        0 <= position(entries, name) <= entries.len(),
        forall|k: int| 0 <= k < position(entries, name) ==> entries[k].0 != name,
        position(entries, name) < entries.len() ==> entries[position(entries, name)].0 == name,
    decreases entries.len(),
{
    if entries.len() == 0 || entries[0].0 == name {
    } else {
        let rest = entries.drop_first();
        lemma_position_bounds(rest, name);
        assert forall|k: int| 0 <= k < position(entries, name) implies entries[k].0 != name by {
            if k > 0 {
                assert(rest[k - 1] == entries[k]);
            }
        }
    }
}

/// What is filed under a name is found under that name; what is filed under
/// other names stays as it was; and a list without doubles stays without.
pub proof fn law_inserted<V>(
    entries: Seq<(Seq<char>, V)>,
    name: Seq<char>,
    value: V,
    other: Seq<char>,
)
    ensures
        lookup(inserted(entries, name, value), name) == Some(value),
        other != name ==> lookup(inserted(entries, name, value), other) == lookup(entries, other),
        names_unique(entries) ==> names_unique(inserted(entries, name, value)),
{
    let i = position(entries, name);
    let after = inserted(entries, name, value);
    lemma_position_bounds(entries, name);
    lemma_position(after, name, i);
    if other != name {
        let j = position(entries, other);
        lemma_position_bounds(entries, other);
        lemma_position(entries, other, j);
        if j < entries.len() {
            lemma_position(after, other, j);
        } else {
            lemma_position(after, other, after.len() as int);
        }
    }
}

/// A kernel: its flavors by name, and settings for the flavors that leave
/// them out. No two flavors of a kernel have the same name.
#[derive(Debug, PartialEq, Eq)]
pub struct Kernel {
    cmdline: Option<InlineOrPath>,
    linux: Option<String>,
    splash_image: Option<String>,
    efistub: Option<String>,
    flavors: Vec<(String, Flavor)>,
}

/// The mathematical value of a `Kernel`. The flavors stand in the order in
/// which they were first named.
pub struct KernelView {
    pub cmdline: Option<InlineOrPathView>,
    pub linux: Option<Seq<char>>,
    pub splash_image: Option<Seq<char>>,
    pub efistub: Option<Seq<char>>,
    pub flavors: Seq<(Seq<char>, FlavorView)>,
}

impl View for Kernel {
    type V = KernelView;

    closed spec fn view(&self) -> KernelView {
        KernelView {
            cmdline: setting_of(self.cmdline),
            linux: text_of(self.linux),
            splash_image: text_of(self.splash_image),
            efistub: text_of(self.efistub),
            flavors: views(self.flavors@),
        }
    }
}

/// The place of the first entry called `name` in `entries`.
fn place<T: View>(entries: &Vec<(String, T)>, name: &str) -> (i: usize)
    ensures
        i == position(views(entries@), name@),
        i <= entries.len(),
        i < entries.len() ==> entries[i as int].0@ == name@,
        i < entries.len() ==> lookup(views(entries@), name@) == Some(entries[i as int].1@),
        i == entries.len() ==> lookup(views(entries@), name@) is None,
{
    let mut i: usize = 0;
    while i < entries.len() && !same_text(entries[i].0.as_str(), name)
        invariant
            i <= entries.len(),
            forall|k: int| 0 <= k < i ==> views(entries@)[k].0 != name@,
        decreases entries.len() - i,
    {
        i += 1;
    }
    proof {
        lemma_position(views(entries@), name@, i as int);
    }
    i
}

/// Files `value` under `name` in `entries`, as `inserted` says.
fn file<T: View>(entries: &mut Vec<(String, T)>, name: &str, value: T)
    ensures
        views(final(entries)@) == inserted(views(old(entries)@), name@, value@),
{
    let i = place(entries, name);
    let ghost before = views(entries@);
    if i < entries.len() {
        entries[i] = (name.to_owned(), value);
        proof {
            assert(views(entries@) =~= before.update(i as int, (name@, value@)));
        }
    } else {
        entries.push((name.to_owned(), value));
        proof {
            assert(views(entries@) =~= before.push((name@, value@)));
        }
    }
}

impl Kernel {
    /// No two flavors have the same name.
    #[verifier::type_invariant]
    spec fn well_formed(self) -> bool {
        names_unique(views(self.flavors@))
    }

    /// A kernel without flavors and without settings of its own.
    pub fn new() -> (k: Self)
        ensures
            k@ == (KernelView {
                cmdline: None,
                linux: None,
                splash_image: None,
                efistub: None,
                flavors: Seq::empty(),
            }),
            names_unique(k@.flavors),
    {
        let flavors: Vec<(String, Flavor)> = Vec::new();
        proof {
            assert(views(flavors@) =~= Seq::empty());
        }
        Kernel { cmdline: None, linux: None, splash_image: None, efistub: None, flavors }
    }

    /// The kernel with these settings of its own, for the flavors that
    /// leave them out. Settings it had before are replaced, also by `None`;
    /// its flavors stay.
    pub fn with_defaults(
        self,
        cmdline: Option<InlineOrPath>,
        linux: Option<String>,
        splash_image: Option<String>,
        efistub: Option<String>,
    ) -> (k: Self)
        ensures
            k@ == (KernelView {
                cmdline: setting_of(cmdline),
                linux: text_of(linux),
                splash_image: text_of(splash_image),
                efistub: text_of(efistub),
                flavors: self@.flavors,
            }),
            names_unique(k@.flavors),
    {
        proof {
            use_type_invariant(&self);
        }
        let Kernel { cmdline: _, linux: _, splash_image: _, efistub: _, flavors } = self;
        Kernel { cmdline, linux, splash_image, efistub, flavors }
    }

    /// The kernel with `flavor` filed under `name`. A flavor of that name
    /// that is already there is replaced and keeps its place.
    pub fn with_flavor(self, name: &str, flavor: Flavor) -> (k: Self)
        ensures
            k@ == (KernelView { flavors: inserted(self@.flavors, name@, flavor@), ..self@ }),
            names_unique(k@.flavors),
    {
        proof {
            use_type_invariant(&self);
            law_inserted(views(self.flavors@), name@, flavor@, name@);
        }
        let Kernel { cmdline, linux, splash_image, efistub, flavors } = self;
        let mut flavors = flavors;
        file(&mut flavors, name, flavor);
        Kernel { cmdline, linux, splash_image, efistub, flavors }
    }

    /// The flavor called `name`, if there is one.
    pub fn flavor(&self, name: &str) -> (r: Option<&Flavor>)
        ensures
            match r {
                Some(f) => lookup(self@.flavors, name@) == Some(f@),
                None => lookup(self@.flavors, name@) is None,
            },
    {
        let i = place(&self.flavors, name);
        if i < self.flavors.len() {
            Some(&self.flavors[i].1)
        } else {
            None
        }
    }

    /// The names of the flavors, in the order in which they were first
    /// named.
    pub fn flavor_names(&self) -> (names: Vec<String>)
        ensures
            views(names@) == self@.flavors.map_values(|e: (Seq<char>, FlavorView)| e.0),
    {
        let mut names: Vec<String> = Vec::new();
        let mut i: usize = 0;
        let ghost all = self@.flavors.map_values(|e: (Seq<char>, FlavorView)| e.0);
        while i < self.flavors.len()
            invariant
                i <= self.flavors.len(),
                all == self@.flavors.map_values(|e: (Seq<char>, FlavorView)| e.0),
                self@.flavors == views(self.flavors@),
                views(names@) == all.take(i as int),
            decreases self.flavors.len() - i,
        {
            let ghost before = views(names@);
            names.push(self.flavors[i].0.clone());
            proof {
                assert(views(names@) =~= before.push(self.flavors@[i as int].0@));
                assert(all.take(i + 1) =~= all.take(i as int).push(all[i as int]));
            }
            i += 1;
        }
        proof {
            assert(all.take(self.flavors.len() as int) =~= all);
        }
        names
    }
}

/// The os-release description that is used where a flavor names none.
pub const DEFAULT_OS_RELEASE: &'static str = "/etc/os-release";

/// The os-release description that is used where the first choice cannot be.
pub const FALLBACK_OS_RELEASE: &'static str = "/usr/lib/os-release";

/// The EFI stub that is used where neither flavor nor kernel names one.
pub const DEFAULT_EFISTUB: &'static str = "/usr/lib/systemd/boot/efi/linuxx64.efi.stub";

/// The name of the one kernel, and of its one flavor, of a configuration
/// made from arguments.
pub const UNKNOWN: &'static str = "unknown";

/// The setting of the flavor where it has one, and else that of the kernel.
pub open spec fn preferred<T>(flavor: Option<T>, kernel: Option<T>) -> Option<T> {
    if flavor is Some {
        flavor
    } else {
        kernel
    }
}

/// The setting of the flavor where it has one, else that of the kernel
/// where it has one, and else the default.
pub open spec fn preferred_or<T>(flavor: Option<T>, kernel: Option<T>, fallback: T) -> T {
    match preferred(flavor, kernel) {
        Some(value) => value,
        None => fallback,
    }
}

/// The linux image that is used where neither flavor nor kernel names one.
pub open spec fn default_linux(kernel: Seq<char>) -> Seq<char> {
    "/boot/vmlinuz-"@ + kernel
}

/// A setting given by a flavor always wins over the one given by the
/// kernel, which always wins over the default. Nothing else is looked at.
pub proof fn law_override_precedence<T>(flavor: Option<T>, kernel: Option<T>, fallback: T)
    ensures
        flavor is Some ==> preferred_or(flavor, kernel, fallback) == flavor->0,
        flavor is None && kernel is Some ==> preferred_or(flavor, kernel, fallback) == kernel->0,
        flavor is None && kernel is None ==> preferred_or(flavor, kernel, fallback) == fallback,
        preferred(flavor, kernel) is None <==> flavor is None && kernel is None,
{
}

/// The configuration: where relative paths start, and the kernels by name.
#[derive(Debug, PartialEq, Eq)]
pub struct Config {
    location: String,
    direct: bool,
    kernels: Vec<(String, Kernel)>,
}

/// The mathematical value of a `Config`. `direct` tells a configuration
/// made from arguments from one made from a document. The kernels stand in
/// the order in which they were first named.
pub struct ConfigView {
    pub location: Seq<char>,
    pub direct: bool,
    pub kernels: Seq<(Seq<char>, KernelView)>,
}

impl View for Config {
    type V = ConfigView;

    closed spec fn view(&self) -> ConfigView {
        ConfigView {
            location: self.location@,
            direct: self.direct,
            kernels: views(self.kernels@),
        }
    }
}

/// The targets of the kernels of a list: each kernel, in the order of the
/// list, with each of its flavors, in the order of the kernel.
pub open spec fn targets_of(kernels: Seq<(Seq<char>, KernelView)>) -> Seq<(Seq<char>, Seq<char>)>
    decreases kernels.len(),
{
    if kernels.len() == 0 {
        Seq::empty()
    } else {
        targets_of(kernels.drop_last()) + kernels.last().1.flavors.map_values(
            |e: (Seq<char>, FlavorView)| (kernels.last().0, e.0),
        )
    }
}

/// Whether `kernels` holds a kernel `kernel` with a flavor `flavor`.
pub open spec fn is_target(
    kernels: Seq<(Seq<char>, KernelView)>,
    kernel: Seq<char>,
    flavor: Seq<char>,
) -> bool {
    match lookup(kernels, kernel) {
        Some(k) => lookup(k.flavors, flavor) is Some,
        None => false,
    }
}

/// Every entry of a list is found under its name; in a list without
/// doubles it is the entry itself that is found.
pub proof fn lemma_lookup_entry<V>(entries: Seq<(Seq<char>, V)>, i: int)
    requires
        0 <= i < entries.len(),
    ensures
        lookup(entries, entries[i].0) is Some,
        names_unique(entries) ==> lookup(entries, entries[i].0) == Some(entries[i].1),
{
    let name = entries[i].0;
    lemma_position_bounds(entries, name);
    let p = position(entries, name);
    lemma_position(entries, name, p);
}

/// What is found in a list is found in the list with one more entry at
/// its end.
pub proof fn lemma_lookup_longer<V>(entries: Seq<(Seq<char>, V)>, name: Seq<char>)
    requires
        entries.len() > 0,
        lookup(entries.drop_last(), name) is Some,
    ensures
        lookup(entries, name) == lookup(entries.drop_last(), name),
{
    let shorter = entries.drop_last();
    lemma_position_bounds(shorter, name);
    let p = position(shorter, name);
    lemma_position(shorter, name, p);
    assert forall|k: int| 0 <= k <= p implies entries[k] == shorter[k] by {}
    lemma_position(entries, name, p);
}

/// In a list of kernels without doubles, every pair that `targets_of`
/// lists is a target.
pub proof fn law_targets_exist(kernels: Seq<(Seq<char>, KernelView)>)
    requires
        names_unique(kernels),
    ensures
        forall|i: int|
            0 <= i < targets_of(kernels).len() ==> is_target(
                kernels,
                (#[trigger] targets_of(kernels)[i]).0,
                targets_of(kernels)[i].1,
            ),
    decreases kernels.len(),
{
    if kernels.len() > 0 {
        let shorter = kernels.drop_last();
        let last = kernels.last();
        law_targets_exist(shorter);
        let pairs = last.1.flavors.map_values(|e: (Seq<char>, FlavorView)| (last.0, e.0));
        assert forall|i: int| 0 <= i < targets_of(kernels).len() implies is_target(
            kernels,
            (#[trigger] targets_of(kernels)[i]).0,
            targets_of(kernels)[i].1,
        ) by {
            let t = targets_of(kernels)[i];
            if i < targets_of(shorter).len() {
                assert(t == targets_of(shorter)[i]);
                assert(is_target(shorter, t.0, t.1));
                lemma_lookup_longer(kernels, t.0);
            } else {
                let j = i - targets_of(shorter).len();
                assert(t == pairs[j]);
                lemma_lookup_entry(kernels, kernels.len() - 1);
                lemma_lookup_entry(last.1.flavors, j);
            }
        }
    }
}

/// No kernel of the list has two flavors of the same name.
pub open spec fn flavors_unique(kernels: Seq<(Seq<char>, KernelView)>) -> bool {
    forall|i: int| 0 <= i < kernels.len() ==> names_unique((#[trigger] kernels[i]).1.flavors)
}

/// In a list where no kernel stands twice and no kernel has a flavor twice,
/// `targets_of` lists no pair twice.
pub proof fn law_targets_distinct(kernels: Seq<(Seq<char>, KernelView)>)
    requires
        names_unique(kernels),
        flavors_unique(kernels),
    ensures
        targets_of(kernels).no_duplicates(),
    decreases kernels.len(),
{
    if kernels.len() > 0 {
        let shorter = kernels.drop_last();
        let last = kernels.last();
        let pairs = last.1.flavors.map_values(|e: (Seq<char>, FlavorView)| (last.0, e.0));
        let all = targets_of(kernels);
        let before = targets_of(shorter);
        assert(flavors_unique(shorter)) by {
            assert forall|i: int| 0 <= i < shorter.len() implies names_unique(
                (#[trigger] shorter[i]).1.flavors,
            ) by {
                assert(shorter[i] == kernels[i]);
            }
        }
        law_targets_distinct(shorter);
        law_targets_exist(shorter);
        lemma_position(shorter, last.0, shorter.len() as int);
        assert(names_unique(last.1.flavors)) by {
            assert(kernels[kernels.len() - 1] == last);
        }
        assert forall|i: int, j: int|
            0 <= i < all.len() && 0 <= j < all.len() && i != j implies all[i] != all[j] by {
            let (a, b) = if i < j {
                (i, j)
            } else {
                (j, i)
            };
            if b < before.len() {
                assert(all[a] == before[a] && all[b] == before[b]);
            } else if a < before.len() {
                assert(all[a] == before[a]);
                assert(is_target(shorter, before[a].0, before[a].1));
                assert(all[b] == pairs[b - before.len()]);
            } else {
                assert(all[a] == pairs[a - before.len()]);
                assert(all[b] == pairs[b - before.len()]);
            }
        }
    }
}

impl ConfigView {
    /// Whether there is a kernel `kernel` with a flavor `flavor`.
    pub open spec fn has_target(self, kernel: Seq<char>, flavor: Seq<char>) -> bool {
        is_target(self.kernels, kernel, flavor)
    }

    /// The kernel called `kernel`.
    pub open spec fn kernel(self, kernel: Seq<char>) -> KernelView {
        lookup(self.kernels, kernel)->0
    }

    /// The flavor `flavor` of the kernel `kernel`.
    pub open spec fn flavor(self, kernel: Seq<char>, flavor: Seq<char>) -> FlavorView {
        lookup(self.kernel(kernel).flavors, flavor)->0
    }

    /// Every target, kernel by kernel.
    pub open spec fn targets(self) -> Seq<(Seq<char>, Seq<char>)> {
        targets_of(self.kernels)
    }

    /// The os-release setting of a target. A kernel has none to offer.
    pub open spec fn os_release_setting(self, kernel: Seq<char>, flavor: Seq<char>) -> InlineOrPathView {
        match self.flavor(kernel, flavor).os_release {
            Some(setting) => setting,
            None => InlineOrPathView::Path(DEFAULT_OS_RELEASE@),
        }
    }

    /// The command line setting of a target, if it has one.
    pub open spec fn cmdline_setting(self, kernel: Seq<char>, flavor: Seq<char>) -> Option<
        InlineOrPathView,
    > {
        preferred(self.flavor(kernel, flavor).cmdline, self.kernel(kernel).cmdline)
    }

    /// The splash image setting of a target, if it has one.
    pub open spec fn splash_image_setting(self, kernel: Seq<char>, flavor: Seq<char>) -> Option<
        Seq<char>,
    > {
        preferred(self.flavor(kernel, flavor).splash_image, self.kernel(kernel).splash_image)
    }

    /// The linux image setting of a target, if it has one.
    pub open spec fn linux_setting(self, kernel: Seq<char>, flavor: Seq<char>) -> Option<
        Seq<char>,
    > {
        preferred(self.flavor(kernel, flavor).linux, self.kernel(kernel).linux)
    }

    /// The EFI stub setting of a target.
    pub open spec fn efistub_setting(self, kernel: Seq<char>, flavor: Seq<char>) -> Seq<char> {
        preferred_or(
            self.flavor(kernel, flavor).efistub,
            self.kernel(kernel).efistub,
            DEFAULT_EFISTUB@,
        )
    }
}

/// For every target and each of its five settings that can be overridden:
/// what the flavor sets is what counts; where the flavor sets nothing, what
/// the kernel sets; and where neither sets anything, the default where the
/// setting has one. An os-release is set by the flavor or not at all.
pub proof fn law_target_settings(config: ConfigView, kernel: Seq<char>, flavor: Seq<char>)
    ensures
        ({
            let k = config.kernel(kernel);
            let f = config.flavor(kernel, flavor);
            &&& f.cmdline is Some ==> config.cmdline_setting(kernel, flavor) == f.cmdline
            &&& f.cmdline is None ==> config.cmdline_setting(kernel, flavor) == k.cmdline
            &&& f.splash_image is Some ==> config.splash_image_setting(kernel, flavor)
                == f.splash_image
            &&& f.splash_image is None ==> config.splash_image_setting(kernel, flavor)
                == k.splash_image
            &&& f.linux is Some ==> config.linux_setting(kernel, flavor) == f.linux
            &&& f.linux is None ==> config.linux_setting(kernel, flavor) == k.linux
            &&& f.efistub is Some ==> config.efistub_setting(kernel, flavor) == f.efistub->0
            &&& f.efistub is None && k.efistub is Some ==> config.efistub_setting(kernel, flavor)
                == k.efistub->0
            &&& f.efistub is None && k.efistub is None ==> config.efistub_setting(kernel, flavor)
                == DEFAULT_EFISTUB@
            &&& f.os_release is Some ==> config.os_release_setting(kernel, flavor)
                == f.os_release->0
            &&& f.os_release is None ==> config.os_release_setting(kernel, flavor)
                == InlineOrPathView::Path(DEFAULT_OS_RELEASE@)
        }),
{
}

impl Config {
    /// No two kernels have the same name, and no two flavors of a kernel.
    #[verifier::type_invariant]
    spec fn well_formed(self) -> bool {
        names_unique(views(self.kernels@)) && flavors_unique(views(self.kernels@))
    }

    /// A configuration without kernels, read from a document in the
    /// directory `location`.
    pub fn new(location: &str) -> (c: Self)
        ensures
            c@ == (ConfigView { location: location@, direct: false, kernels: Seq::empty() }),
    {
        let c = Config { location: location.to_owned(), direct: false, kernels: Vec::new() };
        proof {
            assert(views(c.kernels@) =~= Seq::empty());
        }
        c
    }

    /// The configuration with `kernel` filed under `name`. A kernel of that
    /// name that is already there is replaced and keeps its place.
    pub fn with_kernel(self, name: &str, kernel: Kernel) -> (c: Self)
        ensures
            c@ == (ConfigView { kernels: inserted(self@.kernels, name@, kernel@), ..self@ }),
    {
        proof {
            use_type_invariant(&self);
            use_type_invariant(&kernel);
            law_inserted(views(self.kernels@), name@, kernel@, name@);
            lemma_position_bounds(views(self.kernels@), name@);
            let after = inserted(views(self.kernels@), name@, kernel@);
            assert forall|i: int| 0 <= i < after.len() implies names_unique(
                (#[trigger] after[i]).1.flavors,
            ) by {
                if i != position(views(self.kernels@), name@) {
                    assert(after[i] == views(self.kernels@)[i]);
                }
            }
        }
        let Config { location, direct, kernels } = self;
        let mut kernels = kernels;
        file(&mut kernels, name, kernel);
        Config { location, direct, kernels }
    }

    /// The directory that relative paths start from.
    pub fn location(&self) -> (l: &String)
        ensures
            l@ == self@.location,
    {
        &self.location
    }

    /// Whether the configuration was made from arguments.
    pub fn is_direct(&self) -> (b: bool)
        ensures
            b == self@.direct,
    {
        self.direct
    }

    /// The kernel called `name`, if there is one.
    pub fn kernel(&self, name: &str) -> (r: Option<&Kernel>)
        ensures
            match r {
                Some(k) => lookup(self@.kernels, name@) == Some(k@),
                None => lookup(self@.kernels, name@) is None,
            },
    {
        let i = place(&self.kernels, name);
        if i < self.kernels.len() {
            Some(&self.kernels[i].1)
        } else {
            None
        }
    }

    /// Whether there is a kernel `kernel` with a flavor `flavor`.
    pub fn has_target(&self, kernel: &str, flavor: &str) -> (b: bool)
        ensures
            b == self@.has_target(kernel@, flavor@),
    {
        match self.kernel(kernel) {
            Some(k) => k.flavor(flavor).is_some(),
            None => false,
        }
    }

    /// Every target, kernel by kernel in the order in which the kernels
    /// were first named, and within a kernel flavor by flavor likewise.
    pub fn targets(&self) -> (all: Vec<(String, String)>)
        ensures
            views(all@) == self@.targets(),
            views(all@).no_duplicates(),
            forall|i: int|
                0 <= i < all.len() ==> self@.has_target(
                    (#[trigger] all[i]).0@,
                    all[i].1@,
                ),
    {
        proof {
            use_type_invariant(self);
            law_targets_exist(self@.kernels);
            law_targets_distinct(self@.kernels);
        }
        let mut all: Vec<(String, String)> = Vec::new();
        let mut i: usize = 0;
        let ghost kernels = self@.kernels;
        proof {
            assert(views(all@) =~= targets_of(kernels.take(0)));
        }
        while i < self.kernels.len()
            invariant
                i <= self.kernels.len(),
                kernels == views(self.kernels@),
                views(all@) == targets_of(kernels.take(i as int)),
            decreases self.kernels.len() - i,
        {
            let name = &self.kernels[i].0;
            let flavors = self.kernels[i].1.flavor_names();
            let ghost before = views(all@);
            let ghost pairs = kernels[i as int].1.flavors.map_values(
                |e: (Seq<char>, FlavorView)| (kernels[i as int].0, e.0),
            );
            let mut j: usize = 0;
            proof {
                assert(views(flavors@).len() == pairs.len());
            }
            while j < flavors.len()
                invariant
                    j <= flavors.len(),
                    flavors.len() == pairs.len(),
                    i < self.kernels.len(),
                    name@ == kernels[i as int].0,
                    kernels == views(self.kernels@),
                    views(flavors@) == kernels[i as int].1.flavors.map_values(
                        |e: (Seq<char>, FlavorView)| e.0,
                    ),
                    pairs == kernels[i as int].1.flavors.map_values(
                        |e: (Seq<char>, FlavorView)| (kernels[i as int].0, e.0),
                    ),
                    views(all@) == before + pairs.take(j as int),
                decreases flavors.len() - j,
            {
                let ghost sofar = views(all@);
                all.push((name.clone(), flavors[j].clone()));
                proof {
                    assert(views(flavors@)[j as int] == flavors@[j as int]@);
                    assert(views(all@) =~= sofar.push((name@, flavors@[j as int]@)));
                    assert(pairs.take(j + 1) =~= pairs.take(j as int).push(pairs[j as int]));
                }
                j += 1;
            }
            proof {
                assert(views(flavors@).len() == pairs.len());
                assert(pairs.take(flavors.len() as int) =~= pairs);
                assert(kernels.take(i + 1).drop_last() =~= kernels.take(i as int));
                assert(kernels.take(i + 1).last() == kernels[i as int]);
            }
            i += 1;
        }
        proof {
            assert(kernels.take(self.kernels.len() as int) =~= kernels);
            assert forall|i: int| 0 <= i < all.len() implies self@.has_target(
                (#[trigger] all[i]).0@,
                all[i].1@,
            ) by {
                assert(views(all@)[i] == (all[i].0@, all[i].1@));
                assert(targets_of(kernels)[i] == views(all@)[i]);
            }
        }
        all
    }

    /// The command line setting of the target: that of the flavor, else
    /// that of the kernel.
    pub fn cmdline_setting(&self, kernel: &str, flavor: &str) -> (r: Option<&InlineOrPath>)
        requires
            self@.has_target(kernel@, flavor@),
        ensures
            match r {
                Some(setting) => self@.cmdline_setting(kernel@, flavor@) == Some(setting@),
                None => self@.cmdline_setting(kernel@, flavor@) is None,
            },
    {
        let (k, f) = self.target(kernel, flavor);
        match &f.cmdline {
            Some(setting) => Some(setting),
            None => match &k.cmdline {
                Some(setting) => Some(setting),
                None => None,
            },
        }
    }

    /// The splash image setting of the target: that of the flavor, else
    /// that of the kernel.
    pub fn splash_image_setting(&self, kernel: &str, flavor: &str) -> (r: Option<&String>)
        requires
            self@.has_target(kernel@, flavor@),
        ensures
            match r {
                Some(setting) => self@.splash_image_setting(kernel@, flavor@) == Some(setting@),
                None => self@.splash_image_setting(kernel@, flavor@) is None,
            },
    {
        let (k, f) = self.target(kernel, flavor);
        match &f.splash_image {
            Some(setting) => Some(setting),
            None => match &k.splash_image {
                Some(setting) => Some(setting),
                None => None,
            },
        }
    }

    /// The linux image setting of the target: that of the flavor, else
    /// that of the kernel.
    pub fn linux_setting(&self, kernel: &str, flavor: &str) -> (r: Option<&String>)
        requires
            self@.has_target(kernel@, flavor@),
        ensures
            match r {
                Some(setting) => self@.linux_setting(kernel@, flavor@) == Some(setting@),
                None => self@.linux_setting(kernel@, flavor@) is None,
            },
    {
        let (k, f) = self.target(kernel, flavor);
        match &f.linux {
            Some(setting) => Some(setting),
            None => match &k.linux {
                Some(setting) => Some(setting),
                None => None,
            },
        }
    }

    /// The EFI stub setting of the target: that of the flavor, else that
    /// of the kernel, else the default.
    pub fn efistub_setting(&self, kernel: &str, flavor: &str) -> (r: &str)
        requires
            self@.has_target(kernel@, flavor@),
        ensures
            r@ == self@.efistub_setting(kernel@, flavor@),
    {
        let (k, f) = self.target(kernel, flavor);
        match &f.efistub {
            Some(setting) => setting.as_str(),
            None => match &k.efistub {
                Some(setting) => setting.as_str(),
                None => DEFAULT_EFISTUB,
            },
        }
    }

    /// The kernel and the flavor of a target.
    pub(crate) fn target(&self, kernel: &str, flavor: &str) -> (r: (&Kernel, &Flavor))
        requires
            self@.has_target(kernel@, flavor@),
        ensures
            r.0@ == self@.kernel(kernel@),
            r.1@ == self@.flavor(kernel@, flavor@),
    {
        let i = place(&self.kernels, kernel);
        let k = &self.kernels[i].1;
        let j = place(&k.flavors, flavor);
        (k, &k.flavors[j].1)
    }
}

/// The settings of the one target of a configuration made from arguments.
/// `initrd` lists the initial ramdisks with commas between them.
#[derive(Debug, Clone, PartialEq, Eq)]
pub struct Arguments {
    pub os_release: Option<String>,
    pub cmdline: Option<String>,
    pub splash_image: Option<String>,
    pub linux: Option<String>,
    pub initrd: Option<String>,
    pub efistub: Option<String>,
    pub output: String,
}

/// The mathematical value of `Arguments`.
pub struct ArgumentsView {
    pub os_release: Option<Seq<char>>,
    pub cmdline: Option<Seq<char>>,
    pub splash_image: Option<Seq<char>>,
    pub linux: Option<Seq<char>>,
    pub initrd: Option<Seq<char>>,
    pub efistub: Option<Seq<char>>,
    pub output: Seq<char>,
}

impl View for Arguments {
    type V = ArgumentsView;

    open spec fn view(&self) -> ArgumentsView {
        ArgumentsView {
            os_release: text_of(self.os_release),
            cmdline: text_of(self.cmdline),
            splash_image: text_of(self.splash_image),
            linux: text_of(self.linux),
            initrd: text_of(self.initrd),
            efistub: text_of(self.efistub),
            output: self.output@,
        }
    }
}

/// A path given as an argument, as a setting.
pub open spec fn path_setting(path: Option<Seq<char>>) -> Option<InlineOrPathView> {
    match path {
        Some(p) => Some(InlineOrPathView::Path(p)),
        None => None,
    }
}

/// The initial ramdisks that a list with commas names: one path stands
/// alone, several make a list in the order in which they are written.
pub open spec fn initrd_list(text: Seq<char>) -> OneOrManyView {
    let parts = split(text, ',');
    if parts.len() == 1 {
        OneOrManyView::One(parts[0])
    } else {
        OneOrManyView::Many(parts)
    }
}

/// The flavor that arguments describe. It has no title.
pub open spec fn direct_flavor(args: ArgumentsView) -> FlavorView {
    FlavorView {
        os_release: path_setting(args.os_release),
        title: None,
        cmdline: path_setting(args.cmdline),
        splash_image: args.splash_image,
        linux: args.linux,
        initrd: match args.initrd {
            Some(text) => Some(initrd_list(text)),
            None => None,
        },
        efistub: args.efistub,
        output: args.output,
    }
}

/// The configuration that arguments describe: one kernel called `unknown`
/// with one flavor called `unknown`, and no settings of the kernel's own.
pub open spec fn direct_config(location: Seq<char>, args: ArgumentsView) -> ConfigView {
    ConfigView {
        location,
        direct: true,
        kernels: seq![
            (
                UNKNOWN@,
                KernelView {
                    cmdline: None,
                    linux: None,
                    splash_image: None,
                    efistub: None,
                    flavors: seq![(UNKNOWN@, direct_flavor(args))],
                },
            ),
        ],
    }
}

/// A path given as an argument, as a setting.
fn as_setting(path: &Option<String>) -> (r: Option<InlineOrPath>)
    ensures
        setting_of(r) == path_setting(text_of(*path)),
{
    match path {
        Some(p) => Some(InlineOrPath::Path(p.clone())),
        None => None,
    }
}

/// An optional text of its own with the same characters.
fn copy_of_optional(text: &Option<String>) -> (r: Option<String>)
    ensures
        text_of(r) == text_of(*text),
{
    match text {
        Some(t) => Some(t.clone()),
        None => None,
    }
}

/// The initial ramdisks that `text` lists with commas between them.
pub fn parse_initrd(text: &str) -> (r: OneOrMany<String>)
    ensures
        r@ == initrd_list(text@),
{
    let chars = to_chars(text);
    let pieces = split_chars(&chars, ',');
    let mut parts: Vec<String> = Vec::new();
    let mut i: usize = 0;
    while i < pieces.len()
        invariant
            i <= pieces.len(),
            views(parts@) == views(pieces@).take(i as int),
        decreases pieces.len() - i,
    {
        let ghost before = views(parts@);
        parts.push(from_chars(&pieces[i]));
        proof {
            assert(views(parts@) =~= before.push(pieces@[i as int]@));
            assert(views(pieces@).take(i + 1) =~= views(pieces@).take(i as int).push(
                pieces@[i as int]@,
            ));
        }
        i += 1;
    }
    proof {
        assert(views(pieces@).take(pieces.len() as int) =~= views(pieces@));
    }
    if parts.len() == 1 {
        let only = parts.pop();
        match only {
            Some(path) => OneOrMany::One(path),
            None => OneOrMany::Many(parts),
        }
    } else {
        OneOrMany::Many(parts)
    }
}

impl Config {
    /// The configuration that arguments describe, with relative paths
    /// starting from `location`.
    pub fn from_arguments(location: &str, args: &Arguments) -> (c: Self)
        ensures
            c@ == direct_config(location@, args@),
    {
        let flavor = Flavor {
            os_release: as_setting(&args.os_release),
            title: None,
            cmdline: as_setting(&args.cmdline),
            splash_image: copy_of_optional(&args.splash_image),
            linux: copy_of_optional(&args.linux),
            initrd: match &args.initrd {
                Some(text) => Some(parse_initrd(text.as_str())),
                None => None,
            },
            efistub: copy_of_optional(&args.efistub),
            output: args.output.clone(),
        };
        let mut flavors: Vec<(String, Flavor)> = Vec::new();
        flavors.push((String::from_str(UNKNOWN), flavor));
        proof {
            assert(views(flavors@) =~= seq![(UNKNOWN@, direct_flavor(args@))]);
        }
        let kernel = Kernel { cmdline: None, linux: None, splash_image: None, efistub: None, flavors };
        let mut kernels: Vec<(String, Kernel)> = Vec::new();
        kernels.push((String::from_str(UNKNOWN), kernel));
        proof {
            assert(views(kernels@) =~= direct_config(location@, args@).kernels);
        }
        Config { location: location.to_owned(), direct: true, kernels }
    }
}

} // verus!
