//! Request targets.
use crate::addr::Authority;
use vstd::prelude::*;
use vstd::string::StringExecFns;

verus! {

/// A path, and the query after it.
#[derive(Debug, PartialEq, Eq, Hash)]
pub struct PathAndQuery {
    pub path: String,
    pub query: Option<String>,
}

impl Clone for PathAndQuery {
    fn clone(&self) -> (r: Self)
        ensures
            r == *self,
    {
        PathAndQuery {
            path: self.path.clone(),
            query: match &self.query {
                Some(q) => Some(q.clone()),
                None => None,
            },
        }
    }
}

/// A request target, in one of the forms that HTTP knows: a path alone, an authority
/// alone, or a scheme with an authority and a path.
#[derive(Debug, PartialEq)]
pub struct Uri {
    pub scheme: Option<String>,
    pub authority: Option<Authority>,
    pub path_and_query: Option<PathAndQuery>,
}

/// Which parts can stand together in a request target: a scheme takes both an authority
/// and a path, and without a scheme there is at most one of the two.
pub open spec fn parts_fit(
    scheme: Option<String>,
    authority: Option<Authority>,
    path_and_query: Option<PathAndQuery>,
) -> bool {
    if scheme is Some {
        authority is Some && path_and_query is Some
    } else {
        authority is None || path_and_query is None
    }
}

impl Uri {
    /// The parts stand together as HTTP allows.
    pub open spec fn wf(self) -> bool {
        parts_fit(self.scheme, self.authority, self.path_and_query)
    }

    /// Puts a request target together, if the parts fit.
    pub fn from_parts(
        scheme: Option<String>,
        authority: Option<Authority>,
        path_and_query: Option<PathAndQuery>,
    ) -> (r: Option<Uri>)
        ensures
            r == (if parts_fit(scheme, authority, path_and_query) {
                Some(Uri { scheme, authority, path_and_query })
            } else {
                None
            }),
    {
        let fit: bool = if scheme.is_some() {
            authority.is_some() && path_and_query.is_some()
        } else {
            authority.is_none() || path_and_query.is_none()
        };
        if fit {
            Some(Uri { scheme, authority, path_and_query })
        } else {
            None
        }
    }

    /// The path of the target; empty if it has none.
    pub open spec fn spec_path(self) -> Seq<char> {
        match self.path_and_query {
            Some(pq) => pq.path@,
            None => Seq::empty(),
        }
    }

    /// The path of the target; empty if it has none.
    pub fn path(&self) -> (s: String)
        ensures
            s@ == self.spec_path(),
    {
        match &self.path_and_query {
            Some(pq) => pq.path.clone(),
            None => String::new(),
        }
    }
}

impl Clone for Uri {
    fn clone(&self) -> (r: Self)
        ensures
            r == *self,
    {
        Uri {
            scheme: match &self.scheme {
                Some(s) => Some(s.clone()),
                None => None,
            },
            authority: match &self.authority {
                Some(a) => Some(a.clone()),
                None => None,
            },
            path_and_query: match &self.path_and_query {
                Some(pq) => Some(pq.clone()),
                None => None,
            },
        }
    }
}

/// The path of a target is the part before the query, and empty where there is none.
pub proof fn path_comes_without_query(uri: Uri, s: String)
    requires
        call_ensures(Uri::path, (&uri,), s),
    ensures
        uri.path_and_query matches Some(pq) ==> s@ == pq.path@,
        uri.path_and_query is None ==> s@.len() == 0,
{
}

/// A target is put together from a path alone, an authority alone, nothing, or all three parts,
/// and from no other choice of them. The parts are kept.
pub proof fn targets_are_put_together(
    scheme: Option<String>,
    authority: Option<Authority>,
    path_and_query: Option<PathAndQuery>,
    r: Option<Uri>,
)
    requires
        call_ensures(Uri::from_parts, (scheme, authority, path_and_query), r),
    ensures
        scheme is Some && authority is Some && path_and_query is Some ==> r is Some,
        scheme is Some && (authority is None || path_and_query is None) ==> r is None,
        scheme is None && authority is Some && path_and_query is Some ==> r is None,
        scheme is None && (authority is None || path_and_query is None) ==> r is Some,
        r matches Some(uri) ==> uri.scheme == scheme && uri.authority == authority
            && uri.path_and_query == path_and_query,
{
}

} // verus!
