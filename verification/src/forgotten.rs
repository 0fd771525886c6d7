//! Data wrapped with a forgetting level.
//!
//! A [`Forgotten<T, L>`] carries its data unchanged; the level `L` lives
//! only in the type. Irreversibility is two-dimensional: forgetting
//! consumes the wrapper (it cannot be used again), and the level can only
//! move to a strictly deeper one, which [`CanForgetTo`] enforces at
//! compile time.

use core::marker::PhantomData;

use vstd::prelude::*;

use crate::levels::{All, CanForgetTo, Context, Design, ForgetLevel, Impl, Nothing};

verus! {

/// A value whose surrounding information is forgotten to level `L`.
#[derive(Debug)]
pub struct Forgotten<T, L: ForgetLevel> {
    inner: T,
    _level: PhantomData<L>,
}

impl<T, L: ForgetLevel> Forgotten<T, L> {
    /// The data carried by the wrapper.
    pub closed spec fn inner_value(&self) -> T {
        self.inner
    }

    /// Raise the forgetting level. The wrapper is consumed, the data is
    /// kept unchanged, and the target must be a strictly deeper level.
    pub fn forget<M: ForgetLevel>(self) -> (r: Forgotten<T, M>) where L: CanForgetTo<M>
        ensures
            r.inner_value() == self.inner_value(),
    {
        Forgotten { inner: self.inner, _level: PhantomData }
    }

    /// The depth of the wrapper's level.
    pub fn depth(&self) -> (d: u8)
        ensures
            d == L::DEPTH,
    {
        L::DEPTH
    }

    /// The name of the wrapper's level.
    pub fn level_name(&self) -> (r: &'static str)
        ensures
            r == L::NAME,
    {
        L::NAME
    }

    /// Borrow the carried data without consuming the wrapper.
    pub fn peek(&self) -> (r: &T)
        ensures
            *r == self.inner_value(),
    {
        &self.inner
    }

    /// Unwrap the carried data, discarding the level. Kept inside the
    /// crate: the safe road back is [`crate::recover::Recoverable`].
    pub(crate) fn into_inner(self) -> (r: T)
        ensures
            r == self.inner_value(),
    {
        self.inner
    }
}

impl<T> Forgotten<T, Nothing> {
    /// Wrap data with nothing forgotten.
    pub fn new(data: T) -> (r: Self)
        ensures
            r.inner_value() == data,
    {
        Forgotten { inner: data, _level: PhantomData }
    }
}

impl<'a, L: ForgetLevel> Forgotten<&'a str, L> {
    /// Rendering of a forgotten string slice: the level's name and the
    /// data.
    pub fn display_string(&self) -> (r: String)
        ensures
            r.view() == "Forgotten<".view() + L::NAME.view() + ">(".view()
                + self.inner_value().view() + ")  ".view(),
    {
        let mut s = "Forgotten<".to_owned();
        s.append(L::NAME);
        s.append(">(");
        s.append(self.peek());
        s.append(")  ");
        proof {
            assert(s.view() =~= "Forgotten<".view() + L::NAME.view() + ">(".view()
                + self.inner_value().view() + ")  ".view());
        }
        s
    }
}

impl<T> From<Forgotten<T, Nothing>> for Forgotten<T, Context> {
    fn from(f: Forgotten<T, Nothing>) -> Self {
        f.forget()
    }
}

impl<T> vstd::std_specs::convert::FromSpecImpl<Forgotten<T, Nothing>> for Forgotten<T, Context> {
    open spec fn obeys_from_spec() -> bool {
        false
    }

    open spec fn from_spec(f: Forgotten<T, Nothing>) -> Self {
        choose|r: Forgotten<T, Context>| r.inner_value() == f.inner_value()
    }
}

impl<T> From<Forgotten<T, Context>> for Forgotten<T, Design> {
    fn from(f: Forgotten<T, Context>) -> Self {
        f.forget()
    }
}

impl<T> vstd::std_specs::convert::FromSpecImpl<Forgotten<T, Context>> for Forgotten<T, Design> {
    open spec fn obeys_from_spec() -> bool {
        false
    }

    open spec fn from_spec(f: Forgotten<T, Context>) -> Self {
        choose|r: Forgotten<T, Design>| r.inner_value() == f.inner_value()
    }
}

impl<T> From<Forgotten<T, Design>> for Forgotten<T, Impl> {
    fn from(f: Forgotten<T, Design>) -> Self {
        f.forget()
    }
}

impl<T> vstd::std_specs::convert::FromSpecImpl<Forgotten<T, Design>> for Forgotten<T, Impl> {
    open spec fn obeys_from_spec() -> bool {
        false
    }

    open spec fn from_spec(f: Forgotten<T, Design>) -> Self {
        choose|r: Forgotten<T, Impl>| r.inner_value() == f.inner_value()
    }
}

impl<T> From<Forgotten<T, Impl>> for Forgotten<T, All> {
    fn from(f: Forgotten<T, Impl>) -> Self {
        f.forget()
    }
}

impl<T> vstd::std_specs::convert::FromSpecImpl<Forgotten<T, Impl>> for Forgotten<T, All> {
    open spec fn obeys_from_spec() -> bool {
        false
    }

    open spec fn from_spec(f: Forgotten<T, Impl>) -> Self {
        choose|r: Forgotten<T, All>| r.inner_value() == f.inner_value()
    }
}

} // verus!
