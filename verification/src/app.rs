//! The run over the targets that were asked for: each target is resolved in
//! turn, and the first one that fails ends the run.

use vstd::prelude::*;
use crate::config::{Config, ConfigView};
use crate::error::{outcome, AppError, AppErrorView};
use crate::plan::{Resolved, ResolvedView};
use crate::probe::{Files, Snapshot};
use crate::resolve::resolved;
use crate::select::{
    compile_patterns, law_selected_are_the_matching, law_selected_from_targets, select, selected,
    set_compiles, BadPattern, Patterns, Selection,
};
use crate::text::views;

verus! {

/// A configuration and the targets of it that are to be built.
#[derive(Debug)]
pub struct App {
    config: Config,
    to_build: Vec<(String, String)>,
}

/// The mathematical value of an `App`.
pub struct AppView {
    pub config: ConfigView,
    pub to_build: Seq<(Seq<char>, Seq<char>)>,
}

impl View for App {
    type V = AppView;

    closed spec fn view(&self) -> AppView {
        AppView { config: self.config@, to_build: views(self.to_build@) }
    }
}

/// What a run gives: what was resolved for each target, in the order of
/// the targets; or the failure of the first target that fails, and nothing
/// of the targets before or behind it.
pub open spec fn built(config: ConfigView, targets: Seq<(Seq<char>, Seq<char>)>, fs: Files) -> Result<
    Seq<ResolvedView>,
    AppErrorView,
>
    decreases targets.len(),
{
    if targets.len() == 0 {
        Ok(Seq::empty())
    } else {
        match built(config, targets.drop_last(), fs) {
            Err(e) => Err(e),
            Ok(done) => match resolved(config, targets.last().0, targets.last().1, fs) {
                Ok(r) => Ok(done.push(r)),
                Err(e) => Err(e),
            },
        }
    }
}

/// The mathematical value of the outcome of a run.
pub open spec fn run_outcome(r: Result<Vec<Resolved>, AppError>) -> Result<
    Seq<ResolvedView>,
    AppErrorView,
> {
    match r {
        Ok(all) => Ok(views(all@)),
        Err(e) => Err(e@),
    }
}

/// A run that has failed stays failed, with the same failure, whatever
/// targets come behind.
pub proof fn lemma_run_stops(
    config: ConfigView,
    targets: Seq<(Seq<char>, Seq<char>)>,
    fs: Files,
    i: int,
)
    requires
        0 <= i < targets.len(),
        built(config, targets.take(i + 1), fs) is Err,
    ensures
        built(config, targets, fs) == built(config, targets.take(i + 1), fs),
    decreases targets.len(),
{
    if i + 1 == targets.len() {
        assert(targets.take(i + 1) =~= targets);
    } else {
        assert(targets.drop_last().take(i + 1) =~= targets.take(i + 1));
        lemma_run_stops(config, targets.drop_last(), fs, i);
    }
}

impl App {
    /// Every target that is to be built is a target of the configuration,
    /// and none is to be built twice.
    #[verifier::type_invariant]
    spec fn well_formed(self) -> bool {
        &&& forall|i: int|
            0 <= i < self.to_build.len() ==> self.config@.has_target(
                (#[trigger] self.to_build[i]).0@,
                self.to_build[i].1@,
            )
        &&& views(self.to_build@).no_duplicates()
    }

    /// The run over every target of `config`.
    pub fn with_all(config: Config) -> (app: Self)
        ensures
            app@ == (AppView { config: config@, to_build: config@.targets() }),
    {
        let to_build = config.targets();
        App { config, to_build }
    }

    /// The run over the targets of `config` whose name `set` matches.
    pub fn with_set(config: Config, set: &Patterns) -> (app: Self)
        ensures
            app@ == (AppView {
                config: config@,
                to_build: selected(config@.targets(), set@),
            }),
    {
        let all = config.targets();
        let to_build = select(&all, set);
        proof {
            law_selected_from_targets(views(all@), set@);
            law_selected_are_the_matching(views(all@), set@);
            assert forall|i: int| 0 <= i < to_build.len() implies config@.has_target(
                (#[trigger] to_build[i]).0@,
                to_build[i].1@,
            ) by {
                let t = views(to_build@)[i];
                assert(t == (to_build[i].0@, to_build[i].1@));
                assert(views(all@).contains(t));
                let j = choose|j: int| 0 <= j < views(all@).len() && views(all@)[j] == t;
                assert(views(all@)[j] == (all[j].0@, all[j].1@));
            }
        }
        App { config, to_build }
    }

    /// The run over what `selection` asks for of `config`. All targets can
    /// always be had. A selection by expressions fails exactly where the
    /// expressions do not compile, which a list without expressions always
    /// does, and selects by them where they do.
    pub fn from_matches(config: Config, selection: &Selection) -> (r: Result<Self, BadPattern>)
        ensures
            match *selection {
                Selection::All => r matches Ok(app) && app@ == (AppView {
                    config: config@,
                    to_build: config@.targets(),
                }),
                Selection::Matching(patterns) => {
                    &&& r is Ok <==> set_compiles(views(patterns@))
                    &&& patterns@.len() == 0 ==> r is Ok
                    &&& r matches Ok(app) ==> app@ == (AppView {
                        config: config@,
                        to_build: selected(config@.targets(), views(patterns@)),
                    })
                },
            },
    {
        match selection {
            Selection::All => Ok(App::with_all(config)),
            Selection::Matching(patterns) => match compile_patterns(patterns) {
                Ok(set) => Ok(App::with_set(config, &set)),
                Err(e) => Err(e),
            },
        }
    }

    /// The configuration of the run.
    pub fn config(&self) -> (c: &Config)
        ensures
            c@ == self@.config,
    {
        &self.config
    }

    /// The targets that are to be built, in the order in which they are.
    pub fn to_build(&self) -> (t: &Vec<(String, String)>)
        ensures
            views(t@) == self@.to_build,
            views(t@).no_duplicates(),
            forall|i: int|
                0 <= i < t.len() ==> self@.config.has_target((#[trigger] t[i]).0@, t[i].1@),
    {
        proof {
            use_type_invariant(self);
        }
        &self.to_build
    }

    /// Resolves every section of one target, as `fs` shows the files.
    pub fn generate_for(&self, kernel: &str, flavor: &str, fs: &Snapshot) -> (r: Result<
        Resolved,
        AppError,
    >)
        requires
            self@.config.has_target(kernel@, flavor@),
        ensures
            outcome(r) == resolved(self@.config, kernel@, flavor@, fs@),
    {
        self.config.resolve(kernel, flavor, fs)
    }

    /// Resolves the targets that are to be built, one after the other, as
    /// `fs` shows the files. The first target that fails ends the run.
    pub fn run(&self, fs: &Snapshot) -> (r: Result<Vec<Resolved>, AppError>)
        ensures
            run_outcome(r) == built(self@.config, self@.to_build, fs@),
    {
        proof {
            use_type_invariant(self);
        }
        let mut done: Vec<Resolved> = Vec::new();
        let mut i: usize = 0;
        let ghost targets = views(self.to_build@);
        proof {
            assert(views(done@) =~= Seq::<ResolvedView>::empty());
        }
        while i < self.to_build.len()
            invariant
                i <= self.to_build.len(),
                targets == views(self.to_build@),
                forall|k: int|
                    0 <= k < self.to_build.len() ==> self.config@.has_target(
                        (#[trigger] self.to_build[k]).0@,
                        self.to_build[k].1@,
                    ),
                built(self.config@, targets.take(i as int), fs@) == Ok::<
                    Seq<ResolvedView>,
                    AppErrorView,
                >(views(done@)),
            decreases self.to_build.len() - i,
        {
            proof {
                assert(targets.take(i + 1).drop_last() =~= targets.take(i as int));
                assert(targets.take(i + 1).last() == targets[i as int]);
                assert(targets[i as int] == (self.to_build[i as int].0@, self.to_build[i as int].1@));
            }
            let ghost before = views(done@);
            match self.config.resolve(self.to_build[i].0.as_str(), self.to_build[i].1.as_str(), fs) {
                Ok(r) => {
                    done.push(r);
                    proof {
                        assert(views(done@) =~= before.push(r@));
                    }
                },
                Err(e) => {
                    proof {
                        lemma_run_stops(self.config@, targets, fs@, i as int);
                    }
                    return Err(e);
                },
            }
            i += 1;
        }
        proof {
            assert(targets.take(self.to_build.len() as int) =~= targets);
        }
        Ok(done)
    }
}

} // verus!
