//! Name Resolver Trait and default impl
use vstd::prelude::*;

use crate::error::{Error, ErrorKind};

verus! {

/// [`IntoAddr`] outcome that can be polled to completion. `A` is an address.
pub enum IntoAddrOutcome<A> {
    Idle,
    Active,
    Finished(Vec<A>),
}

/// A request to resolve an address that can be polled to completion.
pub trait IntoAddr {
    /// An address.
    type Addr;

    /// Whether [`IntoAddr::poll`] may lead from this request to `post` with the result `r`.
    open spec fn polls(&self, post: &Self, r: Result<IntoAddrOutcome<Self::Addr>, Error>) -> bool {
        true
    }

    fn poll(&mut self) -> (r: Result<IntoAddrOutcome<Self::Addr>, Error>)
        ensures
            old(self).polls(final(self), r),
    ;
}

/// Provides instances of [`IntoAddr`] for a given string
pub trait ResolveAddr {
    type IntoAddr: IntoAddr;

    /// Whether [`ResolveAddr::resolve_addr`] of `s` may give `r`.
    open spec fn resolves(&self, s: String, r: Result<Self::IntoAddr, Error>) -> bool {
        true
    }

    fn resolve_addr(&self, s: String) -> (r: Result<Self::IntoAddr, Error>)
        ensures
            self.resolves(s, r),
    ;
}

/// A resolver that can handle multiple impls: name lookup by the system, or any [`ResolveAddr`].
pub enum AddrResolver<D> {
    ToSocketAddrs(ToSocketAddrResolver),
    Dyn(D),
}

impl<D: ResolveAddr> AddrResolver<D> {
    /// Start to resolve an address.
    pub fn resolve_addr(&self, s: String) -> (r: Result<AnyIntoAddr<D::IntoAddr>, Error>)
        ensures
            match self {
                AddrResolver::ToSocketAddrs(_) => {
                    &&& r matches Ok(AnyIntoAddr::ToSocketAddrIntoAddr(x))
                    &&& x.name() == Some(s)
                },
                AddrResolver::Dyn(x) => exists|y: Result<D::IntoAddr, Error>| #[trigger]
                    x.resolves(s, y) && r == match y {
                        Ok(into_addr) => Ok(AnyIntoAddr::Dyn(into_addr)),
                        Err(e) => Err(e),
                    },
            },
    {
        match self {
            Self::ToSocketAddrs(x) => Ok(AnyIntoAddr::ToSocketAddrIntoAddr(x.resolve_addr(s)?)),
            Self::Dyn(x) => {
                let resolved = x.resolve_addr(s);
                assert(x.resolves(s, resolved));
                Ok(AnyIntoAddr::Dyn(resolved?))
            },
        }
    }
}

impl<D> Default for AddrResolver<D> {
    fn default() -> (r: Self)
        ensures
            r is ToSocketAddrs,
    {
        Self::ToSocketAddrs(ToSocketAddrResolver)
    }
}

/// What polling a request gave: a name that is to be looked up, or an outcome.
pub enum AddrStep<A> {
    Lookup(String),
    Outcome(IntoAddrOutcome<A>),
}

/// A request of an [`AddrResolver`], which can handle multiple impls.
pub enum AnyIntoAddr<E> {
    ToSocketAddrIntoAddr(ToSocketAddrIntoAddr),
    Dyn(E),
}

impl<E: IntoAddr> AnyIntoAddr<E> {
    /// Whether polling the request `x` may lead to `post` with the result `r`.
    pub open spec fn polls_dyn(x: &E, post: &E, r: Result<AddrStep<E::Addr>, Error>) -> bool {
        exists|y: Result<IntoAddrOutcome<E::Addr>, Error>| #[trigger]
            x.polls(post, y) && r == match y {
                Ok(outcome) => Ok(AddrStep::Outcome(outcome)),
                Err(e) => Err(e),
            }
    }

    /// Poll the request. A name is to be looked up, and what came of it handed to [`looked_up`].
    pub fn poll(&mut self) -> (r: Result<AddrStep<E::Addr>, Error>)
        ensures
            match *old(self) {
                AnyIntoAddr::ToSocketAddrIntoAddr(x) => {
                    &&& *final(self) matches AnyIntoAddr::ToSocketAddrIntoAddr(post)
                    &&& post.name() is None
                    &&& match x.name() {
                        Some(name) => r == Ok::<_, Error>(AddrStep::<E::Addr>::Lookup(name)),
                        None => crate::error::fails(r, ErrorKind::Other, "done!"@),
                    }
                },
                AnyIntoAddr::Dyn(x) => {
                    &&& *final(self) matches AnyIntoAddr::Dyn(post)
                    &&& Self::polls_dyn(&x, &post, r)
                },
            },
    {
        match self {
            Self::ToSocketAddrIntoAddr(x) => Ok(AddrStep::Lookup(x.begin_poll()?)),
            Self::Dyn(x) => {
                let ghost pre = *x;
                let polled = x.poll();
                assert(pre.polls(x, polled));
                let step = match polled {
                    Ok(outcome) => Ok(AddrStep::Outcome(outcome)),
                    Err(e) => Err(e),
                };
                assert(Self::polls_dyn(&pre, x, step));
                step
            },
        }
    }
}

/// Provides instances of [`ToSocketAddrIntoAddr`]
pub struct ToSocketAddrResolver;

impl ToSocketAddrResolver {
    pub fn resolve_addr(&self, s: String) -> (r: Result<ToSocketAddrIntoAddr, Error>)
        ensures
            r matches Ok(x) && x.name() == Some(s),
    {
        Ok(ToSocketAddrIntoAddr { s: Some(s) })
    }
}

/// Looks up a name by the system, which may block for a moment. It can be polled once.
pub struct ToSocketAddrIntoAddr {
    s: Option<String>,
}

impl ToSocketAddrIntoAddr {
    /// The name that is to be looked up.
    pub closed spec fn name(&self) -> Option<String> {
        self.s
    }

    /// Take the name that is to be looked up. What came of it is handed to [`looked_up`].
    pub fn begin_poll(&mut self) -> (r: Result<String, Error>)
        ensures
            final(self).name() is None,
            match old(self).name() {
                Some(name) => r == Ok::<String, Error>(name),
                None => crate::error::fails(r, ErrorKind::Other, "done!"@),
            },
    {
        match self.s.take() {
            Some(x) => Ok(x),
            None => Err(Error::new(ErrorKind::Other, "done!")),
        }
    }
}

/// The outcome of looking up a name.
pub fn looked_up<A>(result: Result<Vec<A>, Error>) -> (r: Result<IntoAddrOutcome<A>, Error>)
    ensures
        match result {
            Ok(addrs) => r == Ok::<_, Error>(IntoAddrOutcome::Finished(addrs)),
            Err(e) => r == Err::<IntoAddrOutcome<A>, Error>(e),
        },
{
    match result {
        Ok(addrs) => Ok(IntoAddrOutcome::Finished(addrs)),
        Err(err) => Err(err),
    }
}

/// What polling a request gives is what the resolver's own request gives: its outcome or its error.
pub proof fn outcome_of_request_is_passed_on<E: IntoAddr>(x: E, post: E, r: Result<AddrStep<E::Addr>, Error>)
    requires
        AnyIntoAddr::<E>::polls_dyn(&x, &post, r),
    ensures
        match r {
            Ok(AddrStep::Outcome(outcome)) => x.polls(&post, Ok(outcome)),
            Ok(AddrStep::Lookup(_)) => false,
            Err(e) => x.polls(&post, Err(e)),
        },
{
}

} // verus!
