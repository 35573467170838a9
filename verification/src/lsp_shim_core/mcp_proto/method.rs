//! JSON-RPC method names.
use vstd::prelude::*;

verus! {

/// Handshake, replied to with the server's name and capabilities.
pub const INITIALIZE: &'static str = "initialize";

/// Notification after the handshake; it gets no reply.
pub const INITIALIZED: &'static str = "notifications/initialized";

/// Asks for the tools.
pub const TOOLS_LIST: &'static str = "tools/list";

/// Invokes one tool: `params.name` selects it, `params.arguments` holds its
/// arguments.
pub const TOOLS_CALL: &'static str = "tools/call";

/// Asks the server to shut its backend down.
pub const SHUTDOWN: &'static str = "shutdown";

} // verus!
