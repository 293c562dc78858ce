//! Merging parsed command-line arguments into configuration values.
use vstd::prelude::*;

use clap::ArgMatches;

verus! {

/// `clap::ArgMatches`, known to Verus as an opaque type.
#[verifier::external_type_specification]
#[verifier::external_body]
pub struct ExArgMatches(clap::ArgMatches);

/// A value that command-line arguments can be merged into.
pub trait ClapMerge: Sized {
    /// Merging `args` into `self` may give `merged`, reported as `updated`.
    /// A type that says nothing of its merge allows any outcome.
    open spec fn merges_to(&self, args: &ArgMatches, merged: Self, updated: bool) -> bool {
        true
    }

    /// Merge the arguments from `args` into `self`; `true` if `self` has
    /// been updated.
    fn merge(&mut self, args: &ArgMatches) -> (updated: bool)
        ensures
            old(self).merges_to(args, *final(self), updated),
    ;
}

impl<T: ClapMerge + Default> ClapMerge for Option<T> {
    /// A present value is merged in place. An absent one takes a default
    /// value with the arguments merged in where that merge updates it, and
    /// stays absent otherwise.
    open spec fn merges_to(&self, args: &ArgMatches, merged: Self, updated: bool) -> bool {
        match self {
            Some(v) => merged matches Some(w) && v.merges_to(args, w, updated),
            None => exists|d: T, w: T|
                call_ensures(T::default, (), d) && #[trigger] d.merges_to(args, w, updated) && (
                if updated {
                    merged == Some(w)
                } else {
                    merged is None
                }),
        }
    }

    fn merge(&mut self, args: &ArgMatches) -> (updated: bool) {
        match self {
            Some(v) => {
                return v.merge(args);
            },
            None => {},
        }
        let mut v = T::default();
        let ghost d = v;
        let updated = v.merge(args);
        assert(d.merges_to(args, v, updated));
        if updated {
            *self = Some(v);
            return true;
        }
        false
    }
}

} // verus!
