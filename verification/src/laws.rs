//! What holds of every merge, stated over the options that the two layers
//! hold.

use crate::cargo::CargoOptions;
use crate::lists::{accumulate, accumulate_of_known, without, without_is_disjoint, without_of_disjoint};
use vstd::prelude::*;

verus! {

/// Each of the seven flags is on after the merge exactly if one of the two
/// layers turns it on, whatever the other flags are.
pub proof fn merge_ors_each_flag(primary: CargoOptions, secondary: CargoOptions)
    ensures
        primary.merged(secondary).locked == (primary.locked || secondary.locked),
        primary.merged(secondary).frozen == (primary.frozen || secondary.frozen),
        primary.merged(secondary).all_features == (primary.all_features
            || secondary.all_features),
        primary.merged(secondary).no_default_features == (primary.no_default_features
            || secondary.no_default_features),
        primary.merged(secondary).all == (primary.all || secondary.all),
        primary.merged(secondary).release == (primary.release || secondary.release),
        primary.merged(secondary).offline == (primary.offline || secondary.offline),
{
}

/// Profile, job count and target keep the primary layer's value where it is
/// set, and take the secondary layer's where it is not.
pub proof fn merge_lets_first_set_win(primary: CargoOptions, secondary: CargoOptions)
    ensures
        primary.profile.is_some() ==> primary.merged(secondary).profile == primary.profile,
        primary.profile.is_none() ==> primary.merged(secondary).profile == secondary.profile,
        primary.jobs.is_some() ==> primary.merged(secondary).jobs == primary.jobs,
        primary.jobs.is_none() ==> primary.merged(secondary).jobs == secondary.jobs,
        primary.target.is_some() ==> primary.merged(secondary).target == primary.target,
        primary.target.is_none() ==> primary.merged(secondary).target == secondary.target,
{
}

/// Merging a layer into itself, or a copy of it into it, changes none of
/// profile, job count and target. It changes no flag either, nor the
/// subcommand, nor a list but the packages, which lose the excluded ones.
pub proof fn merge_with_itself(options: CargoOptions)
    ensures
        options.merged(options).profile == options.profile,
        options.merged(options).jobs == options.jobs,
        options.merged(options).target == options.target,
        options.merged(options).locked == options.locked,
        options.merged(options).frozen == options.frozen,
        options.merged(options).all_features == options.all_features,
        options.merged(options).no_default_features == options.no_default_features,
        options.merged(options).all == options.all,
        options.merged(options).release == options.release,
        options.merged(options).offline == options.offline,
        options.merged(options).command == options.command,
        options.merged(options).exclude == options.exclude,
        options.merged(options).varargs == options.varargs,
        options.merged(options).unstable_features == options.unstable_features,
        options.merged(options).packages == without(options.packages, options.exclude),
{
    accumulate_of_itself(options.packages);
    accumulate_of_itself(options.exclude);
    accumulate_of_itself(options.varargs);
    accumulate_of_itself(options.unstable_features);
}

/// The subcommand after the merge is the primary layer's, whatever the
/// secondary layer's is.
pub proof fn merge_keeps_command(primary: CargoOptions, secondary: CargoOptions)
    ensures
        primary.merged(secondary).command == primary.command,
{
}

/// After the merge no package to build is an excluded package, whichever
/// layer excluded it.
pub proof fn merge_applies_excludes(primary: CargoOptions, secondary: CargoOptions)
    ensures
        primary.merged(secondary).excludes_applied(),
{
    without_is_disjoint(
        primary.gathered_packages(secondary),
        accumulate(primary.exclude, secondary.exclude),
    );
}

/// Merging two layers whose job counts are positive where set gives a job
/// count that is positive where set.
pub proof fn merge_keeps_well_formed(primary: CargoOptions, secondary: CargoOptions)
    requires
        primary.well_formed(),
        secondary.well_formed(),
    ensures
        primary.merged(secondary).well_formed(),
{
}

/// Merging a layer that sets nothing into a layer whose packages hold no
/// excluded one changes nothing, and strikes no package.
pub proof fn merge_of_unset_layer(options: CargoOptions)
    requires
        options.excludes_applied(),
    ensures
        options.merged(CargoOptions::unset()) == options,
        options.struck_packages(CargoOptions::unset()) == Seq::<Seq<char>>::empty(),
{
    let nothing = Seq::<Seq<char>>::empty();
    accumulate_of_known(options.packages, nothing);
    accumulate_of_known(options.exclude, nothing);
    accumulate_of_known(options.varargs, nothing);
    accumulate_of_known(options.unstable_features, nothing);
    without_of_disjoint(options.packages, options.exclude);
}

/// A list accumulated with itself is that list.
proof fn accumulate_of_itself(names: Seq<Seq<char>>)
    ensures
        accumulate(names, names) == names,
{
    accumulate_of_known(names, names);
}

} // verus!
