//! How native objects are tied to the JavaScript objects that stand for them.

pub mod clientrectlist;
pub mod event;

use vstd::prelude::*;

use crate::dom::{JSContext, JSObject};

verus! {

/// A request to the JavaScript engine to create the object that stands for a native object.
#[derive(Clone, Copy, Debug, PartialEq, Eq)]
pub struct WrapRequest {
    /// The context in which the object lives.
    pub cx: JSContext,
    /// The object in whose scope it is created, if there is one.
    pub scope: Option<JSObject>,
}

} // verus!
