//! HTTP plumbing types shared with the network layer: the conversion
//! traits its response and chunk types implement, and the error value it
//! reports.

use vstd::prelude::*;
use vstd::string::StringExecFns;

verus! {

/// A deserialized HTTP response body that can be turned into the caller's
/// result type. Implemented by the response types of the network layer.
pub trait HttpResponse<R>: Sized {
    /// The caller-facing value this response carries.
    fn convert_into(&self) -> R;

    /// Assemble a response from accumulated content and a completion time.
    fn new(content: String, end_time: u64) -> Self;
}

/// One chunk of a streamed HTTP response. Implemented by the chunk types of
/// the network layer.
pub trait HttpChunk: Sized {
    /// Assemble a chunk from its creation time, status word and content.
    fn new(created: i64, status: &str, content: &str) -> Self;
}

/// An error reported by the HTTP layer: a message and the kind of failure.
#[derive(Clone, Debug, PartialEq)]
pub struct HttpResponseError {
    pub message: String,
    pub kind: String,
}

impl HttpResponseError {
    /// Build an error from its message and kind.
    pub fn new(msg: &str, kind: &str) -> (e: HttpResponseError)
        ensures
            e.message@ == msg@,
            e.kind@ == kind@,
    {
        HttpResponseError { message: String::from_str(msg), kind: String::from_str(kind) }
    }

    /// The error as a bare message string.
    pub fn to_error_string(&self) -> (r: String)
        ensures
            r@ == self.message@,
    {
        self.message.clone()
    }
}

} // verus!
