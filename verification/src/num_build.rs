//! Reserving the identities of a grammar's rules.

use crate::builder::{BuildError, Builder};
use crate::registry::{Num, Registry};
use vstd::prelude::*;
use vstd::string::*;

verus! {

/// Builds the numbering of a grammar's rules.
pub trait NumBuild {
    /// Gives the grammar its range of identities in `registry`, one
    /// identity for every rule.
    fn num_build(&self, registry: &mut Registry) -> (r: Result<Num, BuildError>)
        requires
            old(registry).wf(),
        ensures
            final(registry).wf(),
            r matches Ok(num) ==> num.wf(),
    ;
}

/// The registry `after` is the registry `before`.
pub open spec fn untouched(before: Registry, after: Registry) -> bool {
    &&& after.next() == before.next()
    &&& after.registered() == before.registered()
}

impl NumBuild for Builder {
    /// Reserves as many identities as the grammar has rules, under the
    /// grammar's name, and only once: where the name has a range already,
    /// that range is returned and nothing is reserved.
    ///
    /// Fails where the name has a range for another number of rules, and
    /// where the registry has too few identities left. The registry then
    /// stays as it was.
    fn num_build(&self, registry: &mut Registry) -> (r: Result<Num, BuildError>)
        ensures
            match r {
                Ok(num) => {
                    &&& num.count == self.rules.len()
                    &&& final(registry).registered().contains((self.ident@, num))
                    &&& if old(registry).knows(self.ident@) {
                        untouched(*old(registry), *final(registry))
                    } else {
                        &&& num.base == old(registry).next()
                        &&& final(registry).next() == old(registry).next() + self.rules.len()
                        &&& final(registry).registered() == old(registry).registered().push(
                            (self.ident@, num),
                        )
                    }
                },
                Err(BuildError::Redefined) => {
                    &&& exists|num: Num| #[trigger]
                        old(registry).registered().contains((self.ident@, num)) && num.count
                            != self.rules.len()
                    &&& untouched(*old(registry), *final(registry))
                },
                Err(BuildError::Identities) => {
                    &&& !old(registry).knows(self.ident@)
                    &&& old(registry).next() + self.rules.len() > usize::MAX
                    &&& untouched(*old(registry), *final(registry))
                },
                Err(BuildError::Pattern) => false,
            },
    {
        let count: usize = self.rules.len();
        match registry.lookup(self.ident.as_str()) {
            Some(num) => {
                proof {
                    let known = registry.registered();
                    let i = choose|i: int| 0 <= i < known.len() && known[i] == (self.ident@, num);
                    assert(known[i].0 == self.ident@);
                }
                if num.count == count {
                    Ok(num)
                } else {
                    Err(BuildError::Redefined)
                }
            },
            None => {
                if registry.has_room(count) {
                    let num = registry.reserve_as(self.ident.as_str(), count);
                    proof {
                        let known = registry.registered();
                        assert(known[known.len() - 1] == (self.ident@, num));
                    }
                    Ok(num)
                } else {
                    Err(BuildError::Identities)
                }
            },
        }
    }
}

} // verus!
