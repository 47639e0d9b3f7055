//! The chat client's state.
use vstd::prelude::*;

verus! {

/// Where the client stands: logging in, or logged in with a token.
pub enum State {
    Login,
    Token(String),
}

} // verus!
