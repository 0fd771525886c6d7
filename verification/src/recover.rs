//! Recovery from forgetting.
//!
//! A type implements [`Recoverable<L>`] exactly when its values survive
//! forgetting to level `L` without loss: the implementation's existence is
//! the compile-time witness of full recoverability, and its contract says
//! the recovered value is the one that was wrapped.

use vstd::prelude::*;

use crate::forgotten::Forgotten;
use crate::levels::{Context, Design, ForgetLevel, Impl};

verus! {

/// Full recovery from forgetting to level `L`: implemented only where no
/// information was lost at that level.
pub trait Recoverable<L: ForgetLevel>: Sized {
    /// The value the wrapper was built from, back unchanged.
    fn recover(forgotten: Forgotten<Self, L>) -> (r: Self)
        ensures
            r == forgotten.inner_value(),
    ;
}

/// A concept: skeleton knowledge that survives even the forgetting of
/// implementation detail.
#[derive(Debug, Clone, PartialEq)]
pub struct Concept {
    pub name: String,
    pub definition: String,
}

/// A workflow: procedure knowledge that survives the forgetting of its
/// context but not of its design rationale.
#[derive(Debug, Clone, PartialEq)]
pub struct Workflow {
    pub id: String,
    pub steps: Vec<String>,
    pub design_rationale: String,
}

/// Volatile session state: lost under any forgetting, so it implements no
/// recovery at all.
#[derive(Debug, Clone, PartialEq)]
pub struct SessionState {
    pub context: String,
    pub wm_variables: Vec<(String, String)>,
}

impl Recoverable<Context> for Concept {
    fn recover(forgotten: Forgotten<Self, Context>) -> (r: Self) {
        forgotten.into_inner()
    }
}

impl Recoverable<Design> for Concept {
    fn recover(forgotten: Forgotten<Self, Design>) -> (r: Self) {
        forgotten.into_inner()
    }
}

impl Recoverable<Impl> for Concept {
    fn recover(forgotten: Forgotten<Self, Impl>) -> (r: Self) {
        forgotten.into_inner()
    }
}

impl Recoverable<Context> for Workflow {
    fn recover(forgotten: Forgotten<Self, Context>) -> (r: Self) {
        forgotten.into_inner()
    }
}

/// Whether `T` recovers fully from forgetting to level `L`: that this call
/// compiles is itself the proof, so it always answers yes.
pub fn is_recoverable<T: Recoverable<L>, L: ForgetLevel>() -> (r: bool)
    ensures
        r,
{
    true
}

} // verus!
