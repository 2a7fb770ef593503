//! The build options of one configuration layer and the merge of two layers.

use crate::lists::{
    accumulate, append_novel, disjoint, purge, struck, without, without_is_disjoint,
};
use crate::mode::Mode;
use vstd::prelude::*;
use vstd::string::StringExecFns;

verus! {

/// Options exclusive to the build system, as one configuration layer gives
/// them.
#[derive(Debug)]
pub struct CargoConfig {
    /// Do not update the lock file.
    pub locked: bool,
    /// Do not update the lock file or any cache.
    pub frozen: bool,
    /// Profile to build with.
    pub profile: Option<String>,
    /// Number of jobs used to build the tests.
    pub jobs: Option<usize>,
    /// Build with every available feature.
    pub all_features: bool,
    /// Build without the default features.
    pub no_default_features: bool,
    /// Features to build with, separated by spaces.
    pub features: Option<String>,
    /// Build every package of the workspace.
    pub all: bool,
    /// Build in release mode.
    pub release: bool,
    /// Packages to build.
    pub packages: Vec<String>,
    /// Packages to leave out.
    pub exclude: Vec<String>,
    /// Target triple to build for.
    pub target: Option<String>,
    /// Build without access to the network.
    pub offline: bool,
    /// Unstable build-system features to enable.
    pub unstable_features: Vec<String>,
    /// Subcommand to run.
    pub command: Mode,
    /// Arguments forwarded to the test executables.
    pub varargs: Vec<String>,
}

/// What a [`CargoConfig`] holds, as mathematical values: a string is the
/// sequence of its characters.
pub struct CargoOptions {
    pub locked: bool,
    pub frozen: bool,
    pub profile: Option<Seq<char>>,
    pub jobs: Option<nat>,
    pub all_features: bool,
    pub no_default_features: bool,
    pub features: Option<Seq<char>>,
    pub all: bool,
    pub release: bool,
    pub packages: Seq<Seq<char>>,
    pub exclude: Seq<Seq<char>>,
    pub target: Option<Seq<char>>,
    pub offline: bool,
    pub unstable_features: Seq<Seq<char>>,
    pub command: Mode,
    pub varargs: Seq<Seq<char>>,
}

impl View for CargoConfig {
    type V = CargoOptions;

    open spec fn view(&self) -> CargoOptions {
        CargoOptions {
            locked: self.locked,
            frozen: self.frozen,
            profile: self.profile.deep_view(),
            jobs: match self.jobs {
                Some(count) => Some(count as nat),
                None => None,
            },
            all_features: self.all_features,
            no_default_features: self.no_default_features,
            features: self.features.deep_view(),
            all: self.all,
            release: self.release,
            packages: self.packages.deep_view(),
            exclude: self.exclude.deep_view(),
            target: self.target.deep_view(),
            offline: self.offline,
            unstable_features: self.unstable_features.deep_view(),
            command: self.command,
            varargs: self.varargs.deep_view(),
        }
    }
}

/// The primary value where it is set, else the secondary one.
pub open spec fn first_set<T>(primary: Option<T>, secondary: Option<T>) -> Option<T> {
    if primary.is_some() {
        primary
    } else {
        secondary
    }
}

/// The feature list of two layers: where both name features, the primary's,
/// one space and the secondary's; else the one that is set.
pub open spec fn joined_features(
    primary: Option<Seq<char>>,
    secondary: Option<Seq<char>>,
) -> Option<Seq<char>> {
    match (primary, secondary) {
        (Some(first), Some(second)) => Some(first + seq![' '] + second),
        (Some(first), None) => Some(first),
        (None, second) => second,
    }
}

impl CargoOptions {
    /// The options of a layer that sets nothing.
    pub open spec fn unset() -> CargoOptions {
        CargoOptions {
            locked: false,
            frozen: false,
            profile: None,
            jobs: None,
            all_features: false,
            no_default_features: false,
            features: None,
            all: false,
            release: false,
            packages: Seq::empty(),
            exclude: Seq::empty(),
            target: None,
            offline: false,
            unstable_features: Seq::empty(),
            command: Mode::Test,
            varargs: Seq::empty(),
        }
    }

    /// A job count, where one is set, is positive.
    pub open spec fn well_formed(self) -> bool {
        self.jobs matches Some(n) ==> n > 0
    }

    /// No package to build is also a package to leave out.
    pub open spec fn excludes_applied(self) -> bool {
        disjoint(self.packages, self.exclude)
    }

    /// The packages of both layers, before the excluded ones are struck.
    pub open spec fn gathered_packages(self, other: CargoOptions) -> Seq<Seq<char>> {
        accumulate(self.packages, other.packages)
    }

    /// The effective options when `other` is merged into `self`: `self` is
    /// the layer of higher precedence.
    pub open spec fn merged(self, other: CargoOptions) -> CargoOptions {
        let exclude = accumulate(self.exclude, other.exclude);
        CargoOptions {
            locked: self.locked || other.locked,
            frozen: self.frozen || other.frozen,
            profile: first_set(self.profile, other.profile),
            jobs: first_set(self.jobs, other.jobs),
            all_features: self.all_features || other.all_features,
            no_default_features: self.no_default_features || other.no_default_features,
            features: joined_features(self.features, other.features),
            all: self.all || other.all,
            release: self.release || other.release,
            packages: without(self.gathered_packages(other), exclude),
            exclude,
            target: first_set(self.target, other.target),
            offline: self.offline || other.offline,
            unstable_features: accumulate(self.unstable_features, other.unstable_features),
            command: self.command,
            varargs: accumulate(self.varargs, other.varargs),
        }
    }

    /// The packages that the merge of `other` into `self` strikes because
    /// they are excluded, in the order in which they stood.
    pub open spec fn struck_packages(self, other: CargoOptions) -> Seq<Seq<char>> {
        struck(self.gathered_packages(other), accumulate(self.exclude, other.exclude))
    }
}

/// Sets `slot` to a copy of `fallback` unless it is set already.
fn fill_unset(slot: &mut Option<String>, fallback: &Option<String>)
    ensures
        final(slot).deep_view() == first_set(old(slot).deep_view(), fallback.deep_view()),
{
    if slot.is_none() {
        *slot = fallback.clone();
    }
}

/// Adds the features of `extra` to `features`, behind one space where
/// `features` names some already.
fn join_features(features: &mut Option<String>, extra: &Option<String>)
    ensures
        final(features).deep_view() == joined_features(
            old(features).deep_view(),
            extra.deep_view(),
        ),
{
    if let Some(second) = extra {
        match features {
            Some(first) => {
                proof {
                    reveal_strlit(" ");
                }
                first.append(" ");
                first.append(second.as_str());
            },
            None => {
                *features = Some(second.clone());
            },
        }
    }
}

impl Default for CargoConfig {
    /// A layer that sets nothing: every flag off, every option unset, every
    /// list empty, and the subcommand that runs the tests.
    fn default() -> (config: CargoConfig)
        ensures
            config@ == CargoOptions::unset(),
            config@.well_formed(),
            config@.excludes_applied(),
    {
        let config = CargoConfig {
            locked: false,
            command: Mode::Test,
            no_default_features: false,
            features: None,
            unstable_features: Vec::new(),
            all: false,
            packages: Vec::new(),
            exclude: Vec::new(),
            varargs: Vec::new(),
            release: false,
            all_features: false,
            frozen: false,
            target: None,
            offline: false,
            profile: None,
            jobs: None,
        };
        assert(config@.packages =~= Seq::empty());
        assert(config@.exclude =~= Seq::empty());
        assert(config@.varargs =~= Seq::empty());
        assert(config@.unstable_features =~= Seq::empty());
        config
    }
}

impl Clone for CargoConfig {
    /// A copy that holds the same options.
    fn clone(&self) -> (copy: CargoConfig)
        ensures
            copy@ == self@,
    {
        let copy = CargoConfig {
            locked: self.locked,
            frozen: self.frozen,
            profile: self.profile.clone(),
            jobs: self.jobs,
            all_features: self.all_features,
            no_default_features: self.no_default_features,
            features: self.features.clone(),
            all: self.all,
            release: self.release,
            packages: self.packages.clone(),
            exclude: self.exclude.clone(),
            target: self.target.clone(),
            offline: self.offline,
            unstable_features: self.unstable_features.clone(),
            command: self.command,
            varargs: self.varargs.clone(),
        };
        copy
    }
}

impl CargoConfig {
    /// Merges `other` into `self`, which takes precedence.
    ///
    /// A flag is on if either layer turns it on. Profile, job count and
    /// target keep the value of `self` where it is set and take that of
    /// `other` where it is not. Features of both layers are joined by one
    /// space. Each list gains the names of `other` that it lacked. Last, every
    /// excluded package is struck from the packages; the struck names are
    /// returned, in order, for the caller to report. The subcommand stays.
    pub fn merge(&mut self, other: &CargoConfig) -> (removed: Vec<String>)
        ensures
            final(self)@ == old(self)@.merged(other@),
            removed.deep_view() == old(self)@.struck_packages(other@),
            final(self)@.excludes_applied(),
            final(self).command == old(self).command,
            old(self)@.well_formed() && other@.well_formed() ==> final(self)@.well_formed(),
    {
        self.no_default_features = self.no_default_features || other.no_default_features;
        self.release = self.release || other.release;
        self.all_features = self.all_features || other.all_features;
        self.offline = self.offline || other.offline;
        fill_unset(&mut self.target, &other.target);
        self.all = self.all || other.all;
        self.frozen = self.frozen || other.frozen;
        self.locked = self.locked || other.locked;
        if self.jobs.is_none() {
            self.jobs = other.jobs;
        }
        fill_unset(&mut self.profile, &other.profile);
        join_features(&mut self.features, &other.features);

        append_novel(&mut self.packages, &other.packages);
        append_novel(&mut self.exclude, &other.exclude);
        append_novel(&mut self.varargs, &other.varargs);
        append_novel(&mut self.unstable_features, &other.unstable_features);

        proof {
            without_is_disjoint(self.packages.deep_view(), self.exclude.deep_view());
        }
        purge(&mut self.packages, &self.exclude)
    }
}

} // verus!
