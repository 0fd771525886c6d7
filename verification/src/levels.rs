//! The hierarchy of forgetting levels.
//!
//! A level states how much of a value's surrounding information has been
//! deliberately given up: nothing at depth 0, the conversational context at
//! depth 1, the design intent at depth 2, the implementation detail at
//! depth 3, and everything at depth 4. Forgetting only ever moves to a
//! strictly deeper level; the type system rules out the reverse direction.

use vstd::prelude::*;

verus! {

/// Closes the level hierarchy: only the five levels declared in this module
/// implement [`ForgetLevel`].
pub trait Sealed {}

/// A degree of deliberate information loss.
///
/// `DEPTH` grows with the amount forgotten: 0 keeps everything, 4 keeps
/// nothing. `NAME` is the level's display name.
pub trait ForgetLevel: Sealed + core::fmt::Debug + Copy + Sized + 'static {
    /// How deep the forgetting goes: 0 forgets nothing, 4 forgets all.
    const DEPTH: u8;

    /// The level's display name.
    const NAME: &'static str;
}

/// Depth 0: nothing has been forgotten.
#[derive(Debug, Copy, Clone)]
pub struct Nothing;

/// Depth 1: the surrounding context is forgotten.
#[derive(Debug, Copy, Clone)]
pub struct Context;

/// Depth 2: the design intent is forgotten.
#[derive(Debug, Copy, Clone)]
pub struct Design;

/// Depth 3: the implementation detail is forgotten.
#[derive(Debug, Copy, Clone)]
pub struct Impl;

/// Depth 4: everything is forgotten.
#[derive(Debug, Copy, Clone)]
pub struct All;

impl Sealed for Nothing {}

impl Sealed for Context {}

impl Sealed for Design {}

impl Sealed for Impl {}

impl Sealed for All {}

impl ForgetLevel for Nothing {
    const DEPTH: u8 = 0;

    const NAME: &'static str = "Nothing";
}

impl ForgetLevel for Context {
    const DEPTH: u8 = 1;

    const NAME: &'static str = "Context";
}

impl ForgetLevel for Design {
    const DEPTH: u8 = 2;

    const NAME: &'static str = "Design";
}

impl ForgetLevel for Impl {
    const DEPTH: u8 = 3;

    const NAME: &'static str = "Impl";
}

impl ForgetLevel for All {
    const DEPTH: u8 = 4;

    const NAME: &'static str = "All";
}

/// Permission to forget from level `Self` down to level `M`.
///
/// It is implemented exactly for the pairs whose depth strictly grows, so
/// recovering information (moving to a shallower level) cannot even be
/// written down.
pub trait CanForgetTo<M: ForgetLevel>: ForgetLevel {}

impl CanForgetTo<Context> for Nothing {}

impl CanForgetTo<Design> for Nothing {}

impl CanForgetTo<Impl> for Nothing {}

impl CanForgetTo<All> for Nothing {}

impl CanForgetTo<Design> for Context {}

impl CanForgetTo<Impl> for Context {}

impl CanForgetTo<All> for Context {}

impl CanForgetTo<Impl> for Design {}

impl CanForgetTo<All> for Design {}

impl CanForgetTo<All> for Impl {}

} // verus!
