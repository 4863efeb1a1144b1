//! The error taxonomy surfaced on the status line.

use vstd::prelude::*;

verus! {

/// An error raised while handling one input action. Transport and store-side
/// failures arrive as `Vault`; user-facing policy violations are
/// `Application`. Neither terminates the session: the caller displays the
/// message and carries on.
#[derive(Debug)]
pub enum Error {
    /// A transport or store-side failure, with a human-readable message.
    Vault(String),
    /// A user-facing policy violation (empty key name, duplicate key, ...).
    Application(String),
}

impl Error {
    /// The one-line status message this error displays as.
    pub open spec fn message_spec(&self) -> Seq<char> {
        match self {
            Error::Vault(m) => "vault error: "@ + m@,
            Error::Application(m) => m@,
        }
    }

    /// Render the one-line status message.
    pub fn message(&self) -> (r: String)
        ensures
            r@ == self.message_spec(),
    {
        match self {
            Error::Vault(m) => {
                let mut s = String::new();
                s.append("vault error: ");
                s.append(m.as_str());
                s
            },
            Error::Application(m) => m.clone(),
        }
    }
}

} // verus!
