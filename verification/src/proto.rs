//! Message payloads of the networked variant.  The envelopes carry exactly
//! the core types; how they go over the wire is the transport layer's
//! business.

use vstd::prelude::*;

use crate::field::Field;
use crate::input::Input;

verus! {

/// What a client sends the server.
#[derive(Clone, Debug)]
pub enum ClientToServer {
    Join { client_id: u32 },
    Input { input: Input, up: bool },
    Tick {},
}

/// What the server sends a client.  A joining client receives a full
/// snapshot of another participant's session.
#[derive(Clone, Debug)]
pub enum ServerToClient {
    Join { client_id: u32, field: Field },
    Leave { client_id: u32 },
    Input { client_id: u32, input: Input, up: bool },
    Tick { client_id: u32 },
}

} // verus!
