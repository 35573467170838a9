//! What the two language-server shims share: the wire framing, the method names
//! and error codes of the outer protocol, and the names of environment
//! variables.
pub mod compat;
pub mod framing;
pub mod mcp_proto;
