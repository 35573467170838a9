//! Framing of clangd traffic, with failures in the terms of this server.
use vstd::prelude::*;
use vstd::utf8::*;

use crate::io_error::{IoError, IoErrorKind, IoErrorView};
use crate::json::{self, Json, JsonView};
use crate::lsp_cpp::error::{ShimError, ShimErrorView};
use crate::lsp_shim_core::framing;

verus! {

/// A framing failure in the terms of this server: malformed data is a failure
/// of the protocol, anything else one of input and output.
pub open spec fn shim_error(e: IoErrorView) -> ShimErrorView {
    if e.kind == IoErrorKind::InvalidData {
        ShimErrorView::Protocol(e.message)
    } else {
        ShimErrorView::Io(e)
    }
}

/// Puts a framing failure in the terms of this server.
pub fn into_shim_error(e: IoError) -> (r: ShimError)
    ensures
        r@ == shim_error(e@),
{
    if e.kind == IoErrorKind::InvalidData {
        ShimError::Protocol(e.message)
    } else {
        ShimError::Io(e)
    }
}

/// The bytes of a message to clangd. Receiving them gives the message back.
pub fn send(payload: &Json) -> (bytes: Vec<u8>)
    ensures
        bytes@ == framing::framed(encode_utf8(json::json_text(payload@))),
        json::plain_within(payload@, json::read_back_depth()) ==> forall|more: Seq<u8>|
            #[trigger] framing::recv_outcome(bytes@ + more) == Ok::<
                (JsonView, Seq<u8>),
                IoErrorView,
            >((payload@, more)),
{
    framing::send_frame(payload)
}

/// Reads the message at the head of `input` and tells how many bytes it took.
pub fn recv(input: &[u8]) -> (r: Result<(Json, usize), ShimError>)
    ensures
        match (r, framing::recv_outcome(input@)) {
            (Ok((j, used)), Ok((v, rest))) => j@ == v && used <= input@.len() && input@.subrange(
                used as int,
                input@.len() as int,
            ) == rest,
            (Err(e), Err(f)) => e@ == shim_error(f),
            _ => false,
        },
{
    match framing::recv_frame(input) {
        Ok(v) => Ok(v),
        Err(e) => Err(into_shim_error(e)),
    }
}

/// Malformed data is a failure of the protocol, in the same words; any other
/// failure stays what it is.
pub proof fn law_failures_keep_their_words(e: IoErrorView)
    ensures
        e.kind == IoErrorKind::InvalidData ==> shim_error(e) == ShimErrorView::Protocol(e.message),
        e.kind != IoErrorKind::InvalidData ==> shim_error(e) == ShimErrorView::Io(e),
{
}

} // verus!
