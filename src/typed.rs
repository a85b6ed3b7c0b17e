//! A response whose JSON body has been decoded into a typed value.

use vstd::prelude::*;

verus! {

/// A response with a typed body.
#[derive(Debug, Clone)]
pub struct SeewoTypedResponse<T> {
    pub request_id: Option<String>,
    pub message: Option<String>,
    pub body: T,
}

} // verus!
