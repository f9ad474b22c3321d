//! The error taxonomy every operation answers with.

use vstd::prelude::*;

verus! {

/// How a request can be refused. Secret-dependent failures all collapse
/// into `Unauthenticated` so that no cause leaks; an unsupported key
/// algorithm is surfaced distinctly because it depends on no secret.
#[derive(Clone, Copy, Debug, PartialEq, Eq, Structural)]
pub enum ApiError {
    /// Bad credentials, an unknown, expired or replayed ticket, or an
    /// unknown session.
    Unauthenticated,
    /// The registered key's algorithm cannot carry the challenge.
    UnsupportedAlgorithm,
    /// An unknown identifier.
    NotFound,
    /// A duplicate unique value.
    Conflict,
    /// Authenticated but lacking rights.
    Forbidden,
    /// A storage, transaction or codec failure; detail stays server-side.
    Internal,
}

/// The opaque payload of an internal failure: detail is logged
/// server-side and never shown to a caller.
pub struct ServerError {
    message: String,
}

impl ServerError {
    /// Wraps a server-side detail message.
    pub fn new(message: String) -> (r: Self)
        ensures
            r@ == message@,
    {
        ServerError { message }
    }

    /// The server-side detail, for logging only.
    pub fn detail(&self) -> (r: &String)
        ensures
            r@ == self@,
    {
        &self.message
    }

    /// What a caller is shown, whatever the detail was.
    pub fn public_text(&self) -> (r: String)
        ensures
            r@ == "An internal error occurred"@,
    {
        String::from_str("An internal error occurred")
    }
}

impl View for ServerError {
    type V = Seq<char>;

    closed spec fn view(&self) -> Seq<char> {
        self.message@
    }
}

} // verus!
