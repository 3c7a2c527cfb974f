//! Computations and what they wait for.
use vstd::prelude::*;

verus! {

/// A file descriptor, as the operating system numbers it.
pub type RawFd = i32;

/// The kind of readiness a registration cares about.
#[derive(Debug, Clone, Copy, PartialEq, Eq, Structural)]
pub enum Interest {
    /// The descriptor has data to read.
    Read,
    /// The descriptor is about to be closed: interest in it must be dropped.
    Close,
}

/// A condition that must become true before a computation can go on.
#[derive(Debug, Clone, Copy, PartialEq, Eq, Structural)]
pub enum Waitable {
    /// Registered file descriptor.
    Fd(RawFd, Interest),
}

impl Waitable {
    /// The descriptor that the condition is about.
    pub open spec fn spec_fd(self) -> RawFd {
        match self {
            Waitable::Fd(fd, _) => fd,
        }
    }

    /// The kind of readiness waited for.
    pub open spec fn spec_interest(self) -> Interest {
        match self {
            Waitable::Fd(_, interest) => interest,
        }
    }

    /// The descriptor that the condition is about.
    #[verifier::when_used_as_spec(spec_fd)]
    pub fn fd(self) -> (fd: RawFd)
        ensures
            fd == self.spec_fd(),
    {
        match self {
            Waitable::Fd(fd, _) => fd,
        }
    }

    /// The kind of readiness waited for.
    #[verifier::when_used_as_spec(spec_interest)]
    pub fn interest(self) -> (interest: Interest)
        ensures
            interest == self.spec_interest(),
    {
        match self {
            Waitable::Fd(_, interest) => interest,
        }
    }
}

/// A unit of work that is polled until it has a result.
///
/// `poll` is given the conditions that became true since the last call and
/// answers with the conditions it needs next. An answer without any condition
/// to wait for means that `take` is to be called. `poll` never blocks.
///
/// `take` hands out the result once: it returns `None` before completion and
/// after the result has been handed out.
///
/// An implementation may say what its two methods do by defining `polls` and
/// `takes`. Left as they are, they promise nothing, and what is said of a
/// driven computation then holds whatever its methods return.
pub trait Future {
    type Output;

    /// Whether `poll`, called on `self` with `ready`, may leave the
    /// computation as `after` and return `wanted`.
    open spec fn polls(&self, ready: Seq<Waitable>, after: &Self, wanted: Seq<Waitable>) -> bool {
        true
    }

    /// Whether `take`, called on `self`, may leave the computation as `after`
    /// and return `output`.
    open spec fn takes(&self, after: &Self, output: Option<Self::Output>) -> bool {
        true
    }

    fn poll(&mut self, ready: &[Waitable]) -> (wanted: Vec<Waitable>)
        ensures
            old(self).polls(ready@, final(self), wanted@),
    ;

    fn take(&mut self) -> (output: Option<Self::Output>)
        ensures
            old(self).takes(final(self), output),
    ;
}

/// A conversion into an asynchronous computation.
pub trait IntoFuture {
    type Output;

    type IntoFuture: Future<Output = Self::Output>;

    /// Whether `into_future`, called on `self`, may return `future`. Left as
    /// it is, this promises nothing.
    open spec fn becomes(&self, future: &Self::IntoFuture) -> bool {
        true
    }

    fn into_future(self) -> (future: Self::IntoFuture)
        ensures
            self.becomes(&future),
    ;
}

/// A computation is converted into itself.
impl<T> IntoFuture for T where T: Future {
    type Output = T::Output;

    type IntoFuture = T;

    open spec fn becomes(&self, future: &T) -> bool {
        *future == *self
    }

    fn into_future(self) -> (future: T) {
        self
    }
}

} // verus!
