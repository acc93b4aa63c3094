//! The envelopes that carry payloads over the connection.
use vstd::prelude::*;

verus! {

/// Message from the server to a client.
#[derive(Debug, PartialEq, Eq)]
pub struct ServerMessage {
    /// Identity of the connection that the message answers.
    pub id: usize,
    pub text: String,
}

/// Message from a client to the server.
#[derive(Debug, PartialEq, Eq)]
pub struct ClientMessage {
    pub text: String,
}

impl ServerMessage {
    /// A message on connection `id` that carries `text`.
    pub fn new(id: usize, text: String) -> (r: ServerMessage)
        ensures
            r.id == id,
            r.text@ == text@,
    {
        ServerMessage { id, text }
    }
}

impl ClientMessage {
    /// A message that carries `text`.
    pub fn new(text: String) -> (r: ClientMessage)
        ensures
            r.text@ == text@,
    {
        ClientMessage { text }
    }
}

} // verus!
