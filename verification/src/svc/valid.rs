//! Targets that are known to be good.
use crate::stack::Stack;
use vstd::prelude::*;

verus! {

/// A utility that stores a validated stack and target.
pub struct ValidMakeService<T, N> {
    pub make_service: N,
    pub target: T,
}

impl<T: Clone, N: Clone> Clone for ValidMakeService<T, N> {
    fn clone(&self) -> (r: Self)
        ensures
            cloned(self.make_service, r.make_service),
            cloned(self.target, r.target),
    {
        ValidMakeService { make_service: self.make_service.clone(), target: self.target.clone() }
    }
}

impl<T: Clone, N: Stack<T> + Clone> ValidMakeService<T, N> {
    /// Builds a service for a target and, if that succeeds, keeps the target for more.
    pub fn try_new(make_service: &N, target: &T) -> (r: Result<(N::Value, Self), N::Error>)
        requires
            make_service.accepts(*target),
        ensures
            match r {
                Ok((client, valid)) => {
                    &&& make_service.makes(*target, Ok(client))
                    &&& cloned(*make_service, valid.make_service)
                    &&& cloned(*target, valid.target)
                },
                Err(e) => make_service.makes(*target, Err(e)),
            },
    {
        match make_service.make(target) {
            Ok(client) => Ok(
                (
                    client,
                    ValidMakeService { make_service: make_service.clone(), target: target.clone() },
                ),
            ),
            Err(e) => Err(e),
        }
    }
}

impl<T, N: Stack<T>> ValidMakeService<T, N> {
    /// The target.
    pub fn target(&self) -> (t: &T)
        ensures
            *t == self.target,
    {
        &self.target
    }

    /// The stack builds a service for the target whenever it is asked to.
    pub open spec fn valid(self) -> bool {
        &&& self.make_service.accepts(self.target)
        &&& forall|r: Result<N::Value, N::Error>| #[trigger]
            self.make_service.makes(self.target, r) ==> r is Ok
    }

    /// Builds another service.
    pub fn make_service(&self) -> (v: N::Value)
        requires
            self.valid(),
        ensures
            self.make_service.makes(self.target, Ok(v)),
    {
        match self.make_service.make(&self.target) {
            Ok(v) => v,
            Err(_) => vstd::pervasive::unreached(),
        }
    }
}

/// A target is kept exactly if a service could be built for it. More services are built for that
/// target.
pub proof fn good_targets_are_kept<T: Clone, N: Stack<T> + Clone>(
    make: N,
    target: T,
    r: Result<(N::Value, ValidMakeService<T, N>), N::Error>,
)
    requires
        call_ensures(ValidMakeService::<T, N>::try_new, (&make, &target), r),
    ensures
        r matches Ok((client, valid)) ==> make.makes(target, Ok(client)) && cloned(
            target,
            valid.target,
        ) && cloned(make, valid.make_service),
        r matches Err(e) ==> make.makes(target, Err(e)),
{
}

} // verus!
