//! `Content-Length` framing of JSON-RPC messages.
//!
//! A message is a block of header lines, ended by an empty line, and a body of
//! as many bytes as the header `Content-Length` says.
use vstd::prelude::*;
use vstd::utf8::*;

use crate::io_error::{IoError, IoErrorKind, IoErrorView};
use crate::json::{self, Json, JsonView};
use crate::text;

verus! {

/// Error code: the server dropped the request because the document changed.
pub const LSP_ERROR_CONTENT_MODIFIED: i64 = -32801;

/// Error code: the server cancelled the request.
pub const LSP_ERROR_SERVER_CANCELLED: i64 = -32802;

/// A failure of kind `InvalidData`.
pub open spec fn invalid_data(message: Seq<char>) -> IoErrorView {
    IoErrorView { kind: IoErrorKind::InvalidData, message }
}

/// A failure of kind `UnexpectedEof`.
pub open spec fn unexpected_eof(message: Seq<char>) -> IoErrorView {
    IoErrorView { kind: IoErrorKind::UnexpectedEof, message }
}

/// Agreement of a result with what it should be.
pub open spec fn length_agrees(r: Result<usize, IoError>, v: Result<nat, IoErrorView>) -> bool {
    match (r, v) {
        (Ok(n), Ok(m)) => n == m,
        (Err(e), Err(f)) => e@ == f,
        _ => false,
    }
}

/// The length declared by the first of the lines that is a `Content-Length`.
pub open spec fn first_length(lines: Seq<Seq<char>>) -> Result<nat, IoErrorView>
    decreases lines.len(),
{
    if lines.len() == 0 {
        Err(invalid_data("missing Content-Length header"@))
    } else {
        match text::stripped_prefix(lines[0], "Content-Length:"@) {
            Some(rest) => match text::parse_uint(text::trimmed(rest), usize::MAX as nat) {
                Ok(n) => Ok(n),
                Err(fault) => Err(
                    invalid_data("bad Content-Length: "@ + text::fault_text(fault)),
                ),
            },
            None => first_length(lines.subrange(1, lines.len() as int)),
        }
    }
}

/// Length of the body that a header block declares. The first `Content-Length`
/// line counts.
pub fn parse_content_length(headers: &str) -> (r: Result<usize, IoError>)
    ensures
        length_agrees(r, first_length(text::split_crlf(headers@))),
        match (r, first_length(text::split_crlf(headers@))) {
            (Ok(n), Ok(told)) => n == told,
            (Err(e), Err(told)) => e@ == told,
            _ => false,
        },
{
    let lines = text::split_at_crlf(headers);
    let ghost cut = text::split_crlf(headers@);
    let mut i: usize = 0;
    assert(cut.subrange(0, cut.len() as int) =~= cut);
    while i < lines.len()
        invariant
            i <= lines.len(),
            cut == text::views(lines@),
            cut == text::split_crlf(headers@),
            first_length(cut) == first_length(cut.subrange(i as int, cut.len() as int)),
        decreases lines.len() - i,
    {
        proof {
            let rest = cut.subrange(i as int, cut.len() as int);
            assert(rest[0] == lines@[i as int]@);
            assert(rest.subrange(1, rest.len() as int) =~= cut.subrange(i + 1, cut.len() as int));
        }
        match text::strip_prefix(lines[i].as_str(), "Content-Length:") {
            Some(rest) => {
                let trimmed = text::trim(rest.as_str());
                return match text::parse_usize(trimmed.as_str()) {
                    Ok(n) => Ok(n),
                    Err(fault) => {
                        let message = text::concat("bad Content-Length: ", fault.message());
                        Err(IoError::new(IoErrorKind::InvalidData, message.as_str()))
                    },
                };
            },
            None => {},
        }
        i += 1;
    }
    Err(IoError::new(IoErrorKind::InvalidData, "missing Content-Length header"))
}

/// A message without the line end that closes it.
pub open spec fn trim_eol(line: Seq<char>) -> Seq<char>
    decreases line.len(),
{
    if line.len() > 0 && (line.last() == '\r' || line.last() == '\n') {
        trim_eol(line.drop_last())
    } else {
        line
    }
}

/// A line without the line ends that close it.
fn drop_eol(line: &str) -> (r: String)
    ensures
        r@ == trim_eol(line@),
{
    let chars = text::chars_of(line);
    let mut to: usize = chars.len();
    assert(line@.subrange(0, line@.len() as int) =~= line@);
    while to > 0 && (chars[to - 1] == '\r' || chars[to - 1] == '\n')
        invariant
            chars@ == line@,
            to <= chars.len(),
            trim_eol(line@) == trim_eol(line@.subrange(0, to as int)),
        decreases to,
    {
        assert(line@.subrange(0, to as int).drop_last() =~= line@.subrange(0, to - 1));
        to -= 1;
    }
    text::slice_of(&chars, 0, to)
}

/// What one header line leads to.
#[derive(Debug)]
pub enum HeaderStep {
    /// The block goes on; this is the length declared so far.
    More(Option<usize>),
    /// The block is over; the body has this many bytes.
    Body(usize),
    /// The block cannot be used.
    Fail(IoError),
}

/// What a [`HeaderStep`] stands for.
pub enum HeaderStepView {
    More(Option<nat>),
    Body(nat),
    Fail(IoErrorView),
}

/// The view of a declared length.
pub open spec fn length_view(seen: Option<usize>) -> Option<nat> {
    match seen {
        Some(n) => Some(n as nat),
        None => None,
    }
}

impl View for HeaderStep {
    type V = HeaderStepView;

    open spec fn view(&self) -> HeaderStepView {
        match self {
            HeaderStep::More(seen) => HeaderStepView::More(length_view(*seen)),
            HeaderStep::Body(n) => HeaderStepView::Body(*n as nat),
            HeaderStep::Fail(e) => HeaderStepView::Fail(e@),
        }
    }
}

/// What one header line leads to, after `seen` was declared. An empty line ends
/// the block; of several `Content-Length` lines the last counts; other headers
/// are passed over.
pub open spec fn header_step(seen: Option<nat>, line: Seq<char>) -> HeaderStepView {
    let bare = trim_eol(line);
    if bare.len() == 0 {
        match seen {
            Some(n) => HeaderStepView::Body(n),
            None => HeaderStepView::Fail(
                invalid_data("language server response missing Content-Length"@),
            ),
        }
    } else {
        match text::stripped_prefix(bare, "Content-Length:"@) {
            Some(rest) => match text::parse_uint(text::trimmed(rest), usize::MAX as nat) {
                Ok(n) => HeaderStepView::More(Some(n)),
                Err(fault) => HeaderStepView::Fail(
                    invalid_data(
                        "invalid Content-Length "@ + text::quoted(rest) + ": "@ + text::fault_text(
                            fault,
                        ),
                    ),
                ),
            },
            None => HeaderStepView::More(seen),
        }
    }
}

/// Takes in one header line, with its line end.
pub fn header_line(seen: Option<usize>, line: &str) -> (step: HeaderStep)
    ensures
        step@ == header_step(length_view(seen), line@),
{
    let bare = drop_eol(line);
    if bare.as_str().is_empty() {
        return match seen {
            Some(n) => HeaderStep::Body(n),
            None => HeaderStep::Fail(
                IoError::new(
                    IoErrorKind::InvalidData,
                    "language server response missing Content-Length",
                ),
            ),
        };
    }
    match text::strip_prefix(bare.as_str(), "Content-Length:") {
        Some(rest) => {
            let trimmed = text::trim(rest.as_str());
            match text::parse_usize(trimmed.as_str()) {
                Ok(n) => HeaderStep::More(Some(n)),
                Err(fault) => {
                    let mut message = "invalid Content-Length ".to_owned();
                    message.append(text::quote(rest.as_str()).as_str());
                    message.append(": ");
                    message.append(fault.message());
                    HeaderStep::Fail(IoError::new(IoErrorKind::InvalidData, message.as_str()))
                },
            }
        },
        None => HeaderStep::More(seen),
    }
}

/// What the body of a message holds.
pub open spec fn body_outcome(body: Seq<u8>) -> Result<JsonView, IoErrorView> {
    match json::json_of_bytes(body) {
        Ok(v) => Ok(v),
        Err(words) => Err(invalid_data("bad JSON body: "@ + words)),
    }
}

/// Reads the body of a message.
pub fn body_value(body: &[u8]) -> (r: Result<Json, IoError>)
    ensures
        match (r, body_outcome(body@)) {
            (Ok(j), Ok(v)) => j@ == v,
            (Err(e), Err(f)) => e@ == f,
            _ => false,
        },
{
    match Json::parse_bytes(body) {
        Ok(v) => Ok(v),
        Err(words) => {
            let message = text::concat("bad JSON body: ", words.as_str());
            Err(IoError::new(IoErrorKind::InvalidData, message.as_str()))
        },
    }
}

/// Number of bytes up to and with the first line feed, or of all bytes where
/// there is none.
pub open spec fn line_len(bytes: Seq<u8>) -> nat
    decreases bytes.len(),
{
    if bytes.len() == 0 {
        0
    } else if bytes[0] == 10 {
        1
    } else {
        1 + line_len(bytes.subrange(1, bytes.len() as int))
    }
}

/// A line is part of the bytes, and of some length where there are any.
pub proof fn lemma_line_len(bytes: Seq<u8>)
    ensures
        line_len(bytes) <= bytes.len(),
        bytes.len() > 0 ==> line_len(bytes) > 0,
    decreases bytes.len(),
{
    if bytes.len() > 0 {
        lemma_line_len(bytes.subrange(1, bytes.len() as int));
    }
}

/// Length of the body that the header block at the head of `bytes` declares,
/// and what follows the block.
pub open spec fn read_headers(bytes: Seq<u8>, seen: Option<nat>) -> Result<
    (nat, Seq<u8>),
    IoErrorView,
>
    decreases bytes.len(),
{
    if bytes.len() == 0 {
        Err(
            unexpected_eof(
                "language server closed stdout before sending a complete message"@,
            ),
        )
    } else {
        proof {
            lemma_line_len(bytes);
        }
        let n = line_len(bytes) as int;
        let line = bytes.subrange(0, n);
        let rest = bytes.subrange(n, bytes.len() as int);
        if !valid_utf8(line) {
            Err(invalid_data("stream did not contain valid UTF-8"@))
        } else {
            match header_step(seen, decode_utf8(line)) {
                HeaderStepView::More(declared) => read_headers(rest, declared),
                HeaderStepView::Body(len) => Ok((len, rest)),
                HeaderStepView::Fail(e) => Err(e),
            }
        }
    }
}

/// The message at the head of `bytes`, and what follows it.
pub open spec fn recv_outcome(bytes: Seq<u8>) -> Result<(JsonView, Seq<u8>), IoErrorView> {
    match read_headers(bytes, None) {
        Err(e) => Err(e),
        Ok((len, rest)) => if rest.len() < len {
            Err(unexpected_eof("failed to fill whole buffer"@))
        } else {
            match body_outcome(rest.subrange(0, len as int)) {
                Ok(v) => Ok((v, rest.subrange(len as int, rest.len() as int))),
                Err(e) => Err(e),
            }
        },
    }
}

/// End of the line that begins at `from`.
fn line_end(input: &[u8], from: usize) -> (end: usize)
    requires
        from <= input@.len(),
    ensures
        from <= end <= input@.len(),
        end - from == line_len(input@.subrange(from as int, input@.len() as int)),
{
    let ghost all = input@.subrange(from as int, input@.len() as int);
    let mut end: usize = from;
    assert(input@.subrange(from as int, input@.len() as int) =~= all);
    while end < input.len()
        invariant
            from <= end <= input@.len(),
            all == input@.subrange(from as int, input@.len() as int),
            line_len(all) == (end - from) + line_len(
                input@.subrange(end as int, input@.len() as int),
            ),
        decreases input@.len() - end,
    {
        let ghost rest = input@.subrange(end as int, input@.len() as int);
        assert(rest.subrange(1, rest.len() as int) =~= input@.subrange(
            end + 1,
            input@.len() as int,
        ));
        end += 1;
        if input[end - 1] == 10 {
            return end;
        }
    }
    end
}

/// Reads the message at the head of `input` and tells how many bytes it took.
pub fn recv_frame(input: &[u8]) -> (r: Result<(Json, usize), IoError>)
    ensures
        match (r, recv_outcome(input@)) {
            (Ok((j, used)), Ok((v, rest))) => j@ == v && used <= input@.len() && input@.subrange(
                used as int,
                input@.len() as int,
            ) == rest,
            (Err(e), Err(f)) => e@ == f,
            _ => false,
        },
{
    let mut seen: Option<usize> = None;
    let mut pos: usize = 0;
    assert(input@.subrange(0, input@.len() as int) =~= input@);
    while pos < input.len()
        invariant
            pos <= input@.len(),
            read_headers(input@, None) == read_headers(
                input@.subrange(pos as int, input@.len() as int),
                length_view(seen),
            ),
        decreases input@.len() - pos,
    {
        let ghost rest = input@.subrange(pos as int, input@.len() as int);
        proof {
            lemma_line_len(rest);
        }
        let end = line_end(input, pos);
        let line_bytes = vstd::slice::slice_subrange(input, pos, end);
        proof {
            assert(rest.subrange(0, end - pos) =~= line_bytes@);
            assert(rest.subrange(end - pos, rest.len() as int) =~= input@.subrange(
                end as int,
                input@.len() as int,
            ));
        }
        match text::text_of_bytes(line_bytes) {
            None => {
                return Err(
                    IoError::new(IoErrorKind::InvalidData, "stream did not contain valid UTF-8"),
                );
            },
            Some(line) => match header_line(seen, line) {
                HeaderStep::More(declared) => {
                    seen = declared;
                },
                HeaderStep::Fail(e) => {
                    return Err(e);
                },
                HeaderStep::Body(len) => {
                    let ghost after = input@.subrange(end as int, input@.len() as int);
                    if input.len() - end < len {
                        return Err(
                            IoError::new(IoErrorKind::UnexpectedEof, "failed to fill whole buffer"),
                        );
                    }
                    let body = vstd::slice::slice_subrange(input, end, end + len);
                    proof {
                        assert(after.subrange(0, len as int) =~= body@);
                        assert(after.subrange(len as int, after.len() as int) =~= input@.subrange(
                            end + len,
                            input@.len() as int,
                        ));
                    }
                    return match body_value(body) {
                        Ok(v) => Ok((v, end + len)),
                        Err(e) => Err(e),
                    };
                },
            },
        }
        pos = end;
    }
    Err(
        IoError::new(
            IoErrorKind::UnexpectedEof,
            "language server closed stdout before sending a complete message",
        ),
    )
}

/// The header block for a body of `n` bytes.
pub open spec fn frame_header(n: nat) -> Seq<char> {
    "Content-Length: "@ + text::dec(n) + "\r\n\r\n"@
}

/// A body with its header block.
pub open spec fn framed(body: Seq<u8>) -> Seq<u8> {
    encode_utf8(frame_header(body.len())) + body
}

/// The line ends at the first line feed.
proof fn lemma_line_found(bytes: Seq<u8>, k: int)
    requires
        0 <= k < bytes.len(),
        forall|i: int| 0 <= i < k ==> #[trigger] bytes[i] != 10,
        bytes[k] == 10,
    ensures
        line_len(bytes) == k + 1,
    decreases k,
{
    if k > 0 {
        assert(bytes[0] != 10);
        let rest = bytes.subrange(1, bytes.len() as int);
        assert forall|i: int| 0 <= i < k - 1 implies #[trigger] rest[i] != 10 by {
            assert(rest[i] == bytes[i + 1]);
        }
        lemma_line_found(rest, k - 1);
    }
}

/// The line of a declared length, read.
proof fn lemma_length_line(n: nat)
    requires
        n <= usize::MAX,
    ensures
        header_step(None, "Content-Length: "@ + text::dec(n) + "\r\n"@) == HeaderStepView::More(
            Some(n),
        ),
        header_step(Some(n), "\r\n"@) == HeaderStepView::Body(n),
{
    reveal_strlit("Content-Length: ");
    reveal_strlit("Content-Length:");
    reveal_strlit("\r\n");
    text::lemma_dec_is_digits(n);
    let bare = "Content-Length: "@ + text::dec(n);
    let line = bare + "\r\n"@;
    assert(line.last() == '\n');
    assert(line.drop_last().last() == '\r');
    assert(line.drop_last().drop_last() =~= bare);
    assert(bare.last() == text::dec(n).last());
    assert(text::is_digit(text::dec(n)[text::dec(n).len() - 1]));
    reveal_with_fuel(trim_eol, 3);
    assert(trim_eol(line) == bare);
    let rest = bare.subrange(15, bare.len() as int);
    assert(bare.subrange(0, 15) =~= "Content-Length:"@);
    assert(rest =~= seq![' '] + text::dec(n));
    assert(rest.subrange(1, rest.len() as int) =~= text::dec(n));
    assert(text::is_digit(text::dec(n)[0]));
    reveal_with_fuel(text::trim_start, 2);
    text::lemma_trim_nothing(text::dec(n));
    assert(text::trimmed(rest) == text::dec(n));
    text::lemma_parse_dec(n, usize::MAX as nat);
    assert("\r\n"@.drop_last().drop_last() =~= Seq::empty());
    assert(trim_eol("\r\n"@).len() == 0);
}

/// The header block of a framed body reads as the body's length, and the body
/// and all that follows it are left.
pub proof fn law_framed_headers(body: Seq<u8>, more: Seq<u8>)
    requires
        body.len() <= usize::MAX,
    ensures
        read_headers(framed(body) + more, None) == Ok::<(nat, Seq<u8>), IoErrorView>(
            (body.len(), body + more),
        ),
{
    let n = body.len();
    let first = "Content-Length: "@ + text::dec(n) + "\r\n"@;
    let second = "\r\n"@;
    let header = frame_header(n);
    let bytes = framed(body) + more;
    let k = first.len() as int;
    reveal_strlit("Content-Length: ");
    reveal_strlit("\r\n");
    reveal_strlit("\r\n\r\n");
    text::lemma_dec_is_digits(n);
    assert(header =~= first + second);
    assert forall|i: int| 0 <= i < header.len() implies '\0' <= #[trigger] header[i]
        <= '\u{7f}' by {
        if 16 <= i < 16 + text::dec(n).len() {
            assert(header[i] == text::dec(n)[i - 16]);
        }
    }
    is_ascii_chars_encode_utf8(header);
    let hb = encode_utf8(header);
    // The first line.
    assert forall|i: int| 0 <= i < first.len() implies '\0' <= #[trigger] first[i]
        <= '\u{7f}' by {
        assert(first[i] == header[i]);
    }
    is_ascii_chars_encode_utf8(first);
    assert(bytes.subrange(0, k) =~= encode_utf8(first)) by {
        assert forall|i: int| 0 <= i < k implies bytes[i] == encode_utf8(first)[i] by {
            assert(bytes[i] == hb[i]);
            assert(header[i] == first[i]);
        }
    }
    assert forall|i: int| 0 <= i < k - 1 implies #[trigger] bytes[i] != 10 by {
        assert(bytes[i] == hb[i]);
        assert(header[i] == first[i]);
        if 16 <= i < 16 + text::dec(n).len() {
            assert(header[i] == text::dec(n)[i - 16]);
        }
    }
    assert(header[k - 1] == '\n');
    assert(bytes[k - 1] == hb[k - 1]);
    lemma_line_found(bytes, k - 1);
    encode_utf8_valid_utf8(first);
    encode_utf8_decode_utf8(first);
    lemma_length_line(n);
    // The empty line.
    let rest = bytes.subrange(k, bytes.len() as int);
    is_ascii_chars_encode_utf8(second);
    assert(rest[0] == hb[k] && header[k] == '\r');
    assert(rest[1] == hb[k + 1] && header[k + 1] == '\n');
    lemma_line_found(rest, 1);
    assert(second[0] == '\r' && second[1] == '\n');
    assert(rest.subrange(0, 2) =~= encode_utf8(second));
    encode_utf8_valid_utf8(second);
    encode_utf8_decode_utf8(second);
    assert(rest.subrange(2, rest.len() as int) =~= body + more);
    assert(read_headers(rest, Some(n)) == Ok::<(nat, Seq<u8>), IoErrorView>((n, body + more)));
}

/// Receiving a framed body gives what the body holds, and takes exactly the
/// frame.
pub proof fn law_recv_of_framed(body: Seq<u8>, more: Seq<u8>)
    requires
        body.len() <= usize::MAX,
    ensures
        recv_outcome(framed(body) + more) == match body_outcome(body) {
            Ok(v) => Ok::<(JsonView, Seq<u8>), IoErrorView>((v, more)),
            Err(e) => Err(e),
        },
{
    law_framed_headers(body, more);
    let rest = body + more;
    assert(rest.subrange(0, body.len() as int) =~= body);
    assert(rest.subrange(body.len() as int, rest.len() as int) =~= more);
}

/// A body with its header block.
fn frame(body: &[u8]) -> (bytes: Vec<u8>)
    ensures
        bytes@ == framed(body@),
        body@.len() <= usize::MAX,
{
    let mut header = "Content-Length: ".to_owned();
    header.append(text::dec_usize(body.len()).as_str());
    header.append("\r\n\r\n");
    let mut bytes = vstd::slice::slice_to_vec(header.as_str().as_bytes());
    bytes.extend_from_slice(body);
    bytes
}

/// The bytes of a message: its compact JSON text, framed. Receiving them gives
/// the message back, whatever follows.
pub fn send_frame(payload: &Json) -> (bytes: Vec<u8>)
    ensures
        bytes@ == framed(encode_utf8(json::json_text(payload@))),
        json::plain_within(payload@, json::read_back_depth()) ==> forall|more: Seq<u8>|
            #[trigger] recv_outcome(bytes@ + more) == Ok::<(JsonView, Seq<u8>), IoErrorView>(
                (payload@, more),
            ),
{
    let text = payload.to_text();
    let body = text.as_str().as_bytes();
    let bytes = frame(body);
    proof {
        if json::plain_within(payload@, json::read_back_depth()) {
            assert forall|more: Seq<u8>|
                #[trigger] recv_outcome(bytes@ + more) == Ok::<(JsonView, Seq<u8>), IoErrorView>(
                    (payload@, more),
                ) by {
                law_recv_of_framed(body@, more);
            }
        }
    }
    bytes
}

/// One JSON-RPC request.
#[derive(Debug)]
pub struct Request {
    /// Version of the protocol, `"2.0"`.
    pub jsonrpc: &'static str,
    /// Number of the request; the response carries the same.
    pub id: u64,
    /// Method name, such as `"textDocument/definition"`.
    pub method: String,
    /// Parameters of the method; `null` where it takes none.
    pub params: Json,
}

/// The members of a request, in the order in which they are written.
pub open spec fn request_members(req: Request) -> Seq<(Seq<char>, JsonView)> {
    seq![
        ("jsonrpc"@, JsonView::Str(req.jsonrpc@)),
        ("id"@, json::json_int(req.id as int)),
        ("method"@, JsonView::Str(req.method@)),
        ("params"@, req.params@),
    ]
}

/// A request as JSON.
pub open spec fn request_json(req: Request) -> JsonView {
    JsonView::Object(
        map![
            "jsonrpc"@ => JsonView::Str(req.jsonrpc@),
            "id"@ => json::json_int(req.id as int),
            "method"@ => JsonView::Str(req.method@),
            "params"@ => req.params@,
        ],
    )
}

/// The body of a request: its compact JSON text.
pub open spec fn request_body(req: Request) -> Seq<u8> {
    encode_utf8(json::object_text(request_members(req)))
}

/// The bytes of a request, framed, for a single write. Encoding cannot fail.
/// The header block declares the length of the body, and receiving the bytes
/// gives the request back, whatever follows.
pub fn encode_frame(req: &Request) -> (r: Result<Vec<u8>, IoError>)
    ensures
        r is Ok,
        r->Ok_0@ == framed(request_body(*req)),
        first_length(text::split_crlf(frame_header(request_body(*req).len()))) == Ok::<
            nat,
            IoErrorView,
        >(request_body(*req).len()),
        json::plain_within(req.params@, (json::read_back_depth() - 1) as nat) ==> forall|
            more: Seq<u8>,
        | #[trigger]
            recv_outcome(r->Ok_0@ + more) == Ok::<(JsonView, Seq<u8>), IoErrorView>(
                (request_json(*req), more),
            ),
{
    let members = vec![
        ("jsonrpc".to_owned(), Json::str(req.jsonrpc)),
        ("id".to_owned(), Json::uint(req.id)),
        ("method".to_owned(), Json::str(req.method.as_str())),
        ("params".to_owned(), req.params.clone()),
    ];
    assert(json::entry_views(members@) =~= request_members(*req));
    let body = Json::ordered_bytes(&members);
    let bytes = frame(body.as_slice());
    proof {
        let body = body@;
        law_header_declares_length(body.len());
        if json::plain_within(req.params@, (json::read_back_depth() - 1) as nat) {
            lemma_request_reads_back(*req);
            assert forall|more: Seq<u8>| #[trigger]
                recv_outcome(bytes@ + more) == Ok::<(JsonView, Seq<u8>), IoErrorView>(
                    (request_json(*req), more),
                ) by {
                law_recv_of_framed(body, more);
            }
        }
    }
    Ok(bytes)
}

/// The members of a request have four names and make up the request, which
/// nests one deeper than its parameters.
proof fn lemma_request_reads_back(req: Request)
    requires
        json::plain_within(req.params@, (json::read_back_depth() - 1) as nat),
    ensures
        json::entries_map(request_members(req)) == request_json(req)->Object_0,
        json::reads_back(request_members(req)),
{
    let entries = request_members(req);
    reveal_strlit("jsonrpc");
    reveal_strlit("id");
    reveal_strlit("method");
    reveal_strlit("params");
    assert("jsonrpc"@.len() == 7 && "id"@.len() == 2 && "method"@.len() == 6 && "params"@.len()
        == 6);
    assert("method"@[0] != "params"@[0]);
    reveal_with_fuel(json::entries_map, 5);
    assert(entries.drop_last() =~= seq![entries[0], entries[1], entries[2]]);
    assert(entries.drop_last().drop_last() =~= seq![entries[0], entries[1]]);
    assert(entries.drop_last().drop_last().drop_last() =~= seq![entries[0]]);
    assert(entries.drop_last().drop_last().drop_last().drop_last() =~= Seq::empty());
    let members = request_json(req)->Object_0;
    assert(json::entries_map(entries) =~= members);
    reveal_with_fuel(json::plain_within, 2);
    assert forall|k: Seq<char>| members.contains_key(k) implies #[trigger] json::plain_within(
        members[k],
        (json::read_back_depth() - 1) as nat,
    ) by {
        assert(k == "jsonrpc"@ || k == "id"@ || k == "method"@ || k == "params"@);
    }
}

/// What a request carries is found under its names when it is read back.
pub proof fn law_request_carries_its_fields(req: Request)
    ensures
        json::member_str(request_json(req), "jsonrpc"@) == Some(req.jsonrpc@),
        json::member_u64(request_json(req), "id"@) == Some(req.id),
        json::member_str(request_json(req), "method"@) == Some(req.method@),
        json::json_get(request_json(req), "params"@) == Some(req.params@),
{
    reveal_strlit("jsonrpc");
    reveal_strlit("id");
    reveal_strlit("method");
    reveal_strlit("params");
    assert("jsonrpc"@.len() == 7 && "id"@.len() == 2 && "method"@.len() == 6 && "params"@.len()
        == 6);
    assert("method"@[0] != "params"@[0]);
}

/// Text without a line feed is one piece.
proof fn lemma_one_piece(s: Seq<char>)
    requires
        forall|i: int| 0 <= i < s.len() ==> #[trigger] s[i] != '\n',
    ensures
        text::split_crlf(s) == seq![s],
    decreases s.len(),
{
    if s.len() > 0 {
        let before = s.drop_last();
        assert forall|i: int| 0 <= i < before.len() implies #[trigger] before[i] != '\n' by {
            assert(before[i] == s[i]);
        }
        lemma_one_piece(before);
        assert(s.last() == s[s.len() - 1]);
        assert(seq![before].drop_last().push(before.push(s.last())) =~= seq![s]) by {
            assert(before.push(s.last()) =~= s);
        }
    } else {
        assert(s =~= Seq::empty());
    }
}

/// The header block in front of a body declares the length of the body.
pub proof fn law_header_declares_length(n: nat)
    requires
        n <= usize::MAX,
    ensures
        first_length(text::split_crlf(frame_header(n))) == Ok::<nat, IoErrorView>(n),
{
    reveal_strlit("Content-Length: ");
    reveal_strlit("Content-Length:");
    reveal_strlit("\r\n\r\n");
    text::lemma_dec_is_digits(n);
    let bare = "Content-Length: "@ + text::dec(n);
    let header = frame_header(n);
    let k = bare.len() as int;
    let open = bare.push('\r');
    let line = open.push('\n');
    let again = line.push('\r');
    assert(header =~= again.push('\n'));
    assert forall|i: int| 0 <= i < open.len() implies #[trigger] open[i] != '\n' by {
        if 16 <= i < k {
            assert(open[i] == text::dec(n)[i - 16]);
        }
    }
    lemma_one_piece(open);
    assert(line.drop_last() =~= open);
    assert(open.drop_last() =~= bare);
    let first = seq![bare, Seq::<char>::empty()];
    assert(text::split_crlf(line) =~= first);
    assert(again.drop_last() =~= line);
    let second = seq![bare, seq!['\r']];
    assert(first.drop_last().push(first.last().push('\r')) =~= second) by {
        assert(Seq::<char>::empty().push('\r') =~= seq!['\r']);
    }
    assert(text::split_crlf(again) == second);
    assert(header.drop_last() =~= again);
    assert(text::split_crlf(header)[0] == bare);
    let rest = bare.subrange(15, k);
    assert(bare.subrange(0, 15) =~= "Content-Length:"@);
    assert(rest =~= seq![' '] + text::dec(n));
    assert(rest.subrange(1, rest.len() as int) =~= text::dec(n));
    assert(text::is_digit(text::dec(n)[0]));
    assert(text::is_digit(text::dec(n)[text::dec(n).len() - 1]));
    reveal_with_fuel(text::trim_start, 2);
    text::lemma_trim_nothing(text::dec(n));
    text::lemma_parse_dec(n, usize::MAX as nat);
}

/// A response: the answer, or the error that the server reported.
#[derive(Debug)]
pub enum RpcOutcome {
    /// The answer. It may be `null`: the request succeeded and found nothing.
    Result(Json),
    /// The error, as the server reported it.
    Error {
        /// Error code.
        code: i64,
        /// Message for a human.
        message: String,
        /// Further data, where the server gave any.
        data: Option<Json>,
    },
}

/// What an [`RpcOutcome`] stands for.
pub enum RpcView {
    Result(JsonView),
    Error { code: i64, message: Seq<char>, data: Option<JsonView> },
}

impl View for RpcOutcome {
    type V = RpcView;

    open spec fn view(&self) -> RpcView {
        match self {
            RpcOutcome::Result(j) => RpcView::Result(j@),
            RpcOutcome::Error { code, message, data } => RpcView::Error {
                code: *code,
                message: message@,
                data: json::owned_view(*data),
            },
        }
    }
}

/// A value that is there and not `null`.
pub open spec fn present(v: Option<JsonView>) -> Option<JsonView> {
    match v {
        Some(JsonView::Null) => None,
        other => other,
    }
}

/// The parts of a reported error: code, message and data, by name or, in an
/// array, by position.
pub open spec fn error_parts(e: JsonView) -> (Option<JsonView>, Option<JsonView>, Option<JsonView>) {
    match e {
        JsonView::Array(items) => if items.len() == 2 {
            (Some(items[0]), Some(items[1]), None)
        } else if items.len() == 3 {
            (Some(items[0]), Some(items[1]), Some(items[2]))
        } else {
            (None, None, None)
        },
        _ => (
            json::json_get(e, "code"@),
            json::json_get(e, "message"@),
            json::json_get(e, "data"@),
        ),
    }
}

/// The error that a response reports, where it is well formed.
pub open spec fn reported_error(e: JsonView) -> Option<RpcView> {
    let (code, message, data) = error_parts(e);
    match (code, message) {
        (Some(c), Some(m)) => match (json::json_i64(c), json::json_str(m)) {
            (Some(c), Some(m)) => Some(
                RpcView::Error { code: c, message: m, data: present(data) },
            ),
            _ => None,
        },
        _ => None,
    }
}

/// What a response says, where it is one: an object with a `jsonrpc` member
/// and, if it reports an error, one with a code and a message.
pub open spec fn response_outcome(v: JsonView) -> Option<RpcView> {
    if json::json_get(v, "jsonrpc"@) is None {
        None
    } else {
        match present(json::json_get(v, "error"@)) {
            Some(e) => reported_error(e),
            None => Some(
                RpcView::Result(
                    match json::json_get(v, "result"@) {
                        Some(r) => r,
                        None => JsonView::Null,
                    },
                ),
            ),
        }
    }
}

/// What the body of a response says, or why it is none.
pub open spec fn parsed_response(body: Seq<u8>) -> Result<RpcView, IoErrorView> {
    match json::json_of_bytes(body) {
        Err(words) => Err(invalid_data("response not valid JSON: "@ + words)),
        Ok(v) => match response_outcome(v) {
            Some(outcome) => Ok(outcome),
            None => Err(
                invalid_data("response not valid JSON: not a JSON-RPC response"@),
            ),
        },
    }
}

fn copy_present(v: Option<&Json>) -> (r: Option<Json>)
    ensures
        json::owned_view(r) == present(json::opt_json_view(v)),
{
    match v {
        Some(j) => if j.is_null() {
            None
        } else {
            Some(j.clone())
        },
        None => None,
    }
}

fn read_error(e: &Json) -> (r: Option<RpcOutcome>)
    ensures
        match r {
            Some(outcome) => reported_error(e@) == Some(outcome@),
            None => reported_error(e@) is None,
        },
{
    let mut code: Option<&Json> = None;
    let mut message: Option<&Json> = None;
    let mut data: Option<&Json> = None;
    match e.as_array() {
        Some(items) => {
            if items.len() == 2 || items.len() == 3 {
                code = Some(&items[0]);
                message = Some(&items[1]);
                if items.len() == 3 {
                    data = Some(&items[2]);
                }
            }
        },
        None => {
            code = e.get("code");
            message = e.get("message");
            data = e.get("data");
        },
    }
    match (code, message) {
        (Some(c), Some(m)) => match (c.as_i64(), m.as_str()) {
            (Some(c), Some(m)) => Some(
                RpcOutcome::Error { code: c, message: m.to_owned(), data: copy_present(data) },
            ),
            _ => None,
        },
        _ => None,
    }
}

/// Tells what a response says.
pub fn response_of(v: &Json) -> (r: Option<RpcOutcome>)
    ensures
        match r {
            Some(outcome) => response_outcome(v@) == Some(outcome@),
            None => response_outcome(v@) is None,
        },
{
    if v.get("jsonrpc").is_none() {
        return None;
    }
    match copy_present(v.get("error")) {
        Some(e) => read_error(&e),
        None => {
            let result = match v.get("result") {
                Some(r) => r.clone(),
                None => Json::Null,
            };
            Some(RpcOutcome::Result(result))
        },
    }
}

/// Reads the body of a response. An error that the server reports is a response
/// like any other; `Err` is for a body that is none. Of members under one name
/// the last counts.
pub fn parse_response(body: &[u8]) -> (r: Result<RpcOutcome, IoError>)
    ensures
        match (r, parsed_response(body@)) {
            (Ok(outcome), Ok(v)) => outcome@ == v,
            (Err(e), Err(f)) => e@ == f,
            _ => false,
        },
{
    match Json::parse_bytes(body) {
        Err(words) => {
            let message = text::concat("response not valid JSON: ", words.as_str());
            Err(IoError::new(IoErrorKind::InvalidData, message.as_str()))
        },
        Ok(v) => match response_of(&v) {
            Some(outcome) => Ok(outcome),
            None => Err(
                IoError::new(
                    IoErrorKind::InvalidData,
                    "response not valid JSON: not a JSON-RPC response",
                ),
            ),
        },
    }
}

/// A `null` answer is an answer: a response is an error exactly where it
/// carries one that is not `null`, and then it carries no answer.
pub proof fn law_null_result_is_no_error(v: JsonView)
    requires
        response_outcome(v) is Some,
    ensures
        response_outcome(v)->0 is Error <==> present(json::json_get(v, "error"@)) is Some,
        json::json_get(v, "error"@) is None && json::json_get(v, "result"@) == Some(
            JsonView::Null,
        ) ==> response_outcome(v) == Some(RpcView::Result(JsonView::Null)),
{
}

/// What a response says is what it carries: its result as it is, whatever it is,
/// where it reports no error, and the error with its code, its message and its
/// data where it reports one.
pub proof fn law_response_says_what_it_carries(v: JsonView, code: i64, message: Seq<char>)
    requires
        json::json_get(v, "jsonrpc"@) is Some,
    ensures
        json::json_get(v, "error"@) is None && json::json_get(v, "result"@) is Some
            ==> response_outcome(v) == Some(RpcView::Result(json::json_get(v, "result"@)->0)),
        json::json_get(v, "error"@) == Some(JsonView::Null) && json::json_get(v, "result"@) is Some
            ==> response_outcome(v) == Some(RpcView::Result(json::json_get(v, "result"@)->0)),
        json::json_get(v, "error"@) is None && json::json_get(v, "result"@) is None
            ==> response_outcome(v) == Some(RpcView::Result(JsonView::Null)),
        ({
            let e = json::json_get(v, "error"@)->0;
            json::json_get(v, "error"@) is Some && json::json_get(e, "code"@) == Some(
                json::json_int(code as int),
            ) && json::json_get(e, "message"@) == Some(JsonView::Str(message)) ==> {
                &&& response_outcome(v) is Some
                &&& response_outcome(v)->0 is Error
                &&& response_outcome(v)->0->code == code
                &&& response_outcome(v)->0->message == message
                &&& json::json_get(e, "data"@) is None ==> response_outcome(v)->0->data is None
                &&& json::json_get(e, "data"@) is Some && !(json::json_get(e, "data"@)->0 is Null)
                    ==> response_outcome(v)->0->data == json::json_get(e, "data"@)
            }
        }),
{
    assert(json::json_int(code as int)->Number_0->Int_0 == code);
}

/// What is no response is told from one: a value without `jsonrpc` says nothing,
/// and neither does an error without a code and a message.
pub proof fn law_no_response_says_nothing(v: JsonView)
    ensures
        json::json_get(v, "jsonrpc"@) is None ==> response_outcome(v) is None,
        json::json_get(v, "error"@) matches Some(JsonView::Object(e)) && (!e.contains_key("code"@)
            || !e.contains_key("message"@)) ==> response_outcome(v) is None,
        json::json_get(v, "error"@) matches Some(JsonView::Str(_)) ==> response_outcome(v) is None,
{
}

/// The body of a response is read as JSON, and what that says is what the body
/// says; a body that is no JSON is none.
pub proof fn law_body_says_what_its_value_says(body: Seq<u8>, v: JsonView)
    ensures
        json::json_of_bytes(body) == json::read_ok(v) && response_outcome(v) is Some
            ==> parsed_response(body) == Ok::<RpcView, IoErrorView>(response_outcome(v)->0),
        json::json_of_bytes(body) == json::read_ok(v) && response_outcome(v) is None
            ==> parsed_response(body) is Err,
        json::json_of_bytes(body) is Err ==> parsed_response(body) is Err,
        parsed_response(body) is Err ==> parsed_response(body)->Err_0.kind
            == IoErrorKind::InvalidData,
{
}

/// A frame is a header line with the number of bytes, an empty line, and the
/// bytes.
pub proof fn law_frame_is_header_and_body(body: Seq<u8>)
    ensures
        framed(body) == encode_utf8(
            "Content-Length: "@ + text::dec(body.len()) + "\r\n\r\n"@,
        ) + body,
{
}

/// In a header block an empty line ends the block with the length that was seen,
/// a line with a length replaces the one that was seen, and any other line
/// changes nothing.
pub proof fn law_header_lines(seen: Option<nat>, n: nat, line: Seq<char>)
    requires
        n <= usize::MAX,
    ensures
        seen is Some ==> header_step(seen, "\r\n"@) == HeaderStepView::Body(seen->0),
        seen is None ==> header_step(seen, "\r\n"@) is Fail,
        header_step(seen, "Content-Length: "@ + text::dec(n) + "\r\n"@) == HeaderStepView::More(
            Some(n),
        ),
        line.len() > 0 && line.last() != '\r' && line.last() != '\n' && !text::has_prefix(
            line,
            "Content-Length:"@,
        ) ==> header_step(seen, line) == HeaderStepView::More(seen),
{
    lemma_length_line(n);
    reveal_strlit("\r\n");
    assert(trim_eol("\r\n"@) =~= Seq::empty()) by {
        assert("\r\n"@.drop_last() =~= seq!['\r']);
        assert(seq!['\r'].drop_last() =~= Seq::empty());
        reveal_with_fuel(trim_eol, 3);
    }
    assert(header_step(seen, "Content-Length: "@ + text::dec(n) + "\r\n"@) == header_step(
        None,
        "Content-Length: "@ + text::dec(n) + "\r\n"@,
    ));
}

/// Of several headers the first with a length counts, and lines before it that
/// are other headers do not.
pub proof fn law_first_length_counts(before: Seq<Seq<char>>, n: nat, after: Seq<Seq<char>>)
    requires
        n <= usize::MAX,
        forall|i: int|
            0 <= i < before.len() ==> !text::has_prefix(#[trigger] before[i], "Content-Length:"@),
    ensures
        first_length(before + seq!["Content-Length: "@ + text::dec(n)] + after) == Ok::<
            nat,
            IoErrorView,
        >(n),
        first_length(before) is Err,
    decreases before.len(),
{
    let line = "Content-Length: "@ + text::dec(n);
    let all = before + seq![line] + after;
    if before.len() == 0 {
        assert(all[0] == line);
        reveal_strlit("Content-Length: ");
        reveal_strlit("Content-Length:");
        let rest = seq![' '] + text::dec(n);
        assert(line =~= "Content-Length:"@ + rest);
        text::lemma_strip_prefix("Content-Length:"@, rest);
        text::lemma_dec_is_digits(n);
        assert(text::trimmed(rest) == text::dec(n)) by {
            assert(rest[0] == ' ');
            assert(rest.subrange(1, rest.len() as int) =~= text::dec(n));
            assert(text::is_digit(text::dec(n)[0]));
            assert(text::is_digit(text::dec(n)[text::dec(n).len() - 1]));
            reveal_with_fuel(text::trim_start, 3);
            text::lemma_trim_nothing(text::dec(n));
        }
        text::lemma_parse_dec(n, usize::MAX as nat);
    } else {
        let rest = before.subrange(1, before.len() as int);
        assert forall|i: int| 0 <= i < rest.len() implies !text::has_prefix(
            #[trigger] rest[i],
            "Content-Length:"@,
        ) by {
            assert(rest[i] == before[i + 1]);
        }
        law_first_length_counts(rest, n, after);
        assert(all[0] == before[0]);
        assert(all.subrange(1, all.len() as int) =~= rest + seq![line] + after);
    }
}

/// A length that is no number ends the reading, with an error that quotes it; so
/// does a header that is no text.
pub proof fn law_bad_headers_are_told(
    seen: Option<nat>,
    rest: Seq<char>,
    line: Seq<u8>,
    more: Seq<u8>,
)
    requires
        rest.len() > 0,
        rest.last() != '\r',
        rest.last() != '\n',
    ensures
        text::parse_uint(text::trimmed(rest), usize::MAX as nat) matches Err(fault) ==> header_step(
            seen,
            "Content-Length:"@ + rest + "\r\n"@,
        ) == HeaderStepView::Fail(
            IoErrorView {
                kind: IoErrorKind::InvalidData,
                message: "invalid Content-Length "@ + text::quoted(rest) + ": "@
                    + text::fault_text(fault),
            },
        ),
        line.len() > 0 && line_len(line + more) == line.len() && !valid_utf8(line) ==> {
            &&& read_headers(line + more, seen) is Err
            &&& read_headers(line + more, seen)->Err_0.kind == IoErrorKind::InvalidData
        },
{
    reveal_strlit("\r\n");
    let bare = "Content-Length:"@ + rest;
    let whole = bare + "\r\n"@;
    assert(whole.drop_last() =~= bare.push('\r'));
    assert(bare.push('\r').drop_last() =~= bare);
    assert(whole.last() == '\n');
    assert(bare.last() == rest.last());
    assert(trim_eol(whole) == bare) by {
        assert(trim_eol(bare) == bare);
        assert(trim_eol(bare.push('\r')) == trim_eol(bare));
        assert(trim_eol(whole) == trim_eol(bare.push('\r')));
    }
    text::lemma_strip_prefix("Content-Length:"@, rest);
    if line.len() > 0 && line_len(line + more) == line.len() {
        assert((line + more).subrange(0, line.len() as int) =~= line);
    }
}

/// An error that is written as a list says what it says as an object: a code, a
/// message and, where there is a third, data.
pub proof fn law_listed_error_says_the_same(
    v: JsonView,
    w: JsonView,
    code: i64,
    message: Seq<char>,
    data: JsonView,
)
    requires
        json::json_get(v, "jsonrpc"@) is Some,
        json::json_get(w, "jsonrpc"@) is Some,
        json::json_get(v, "error"@) == Some(
            JsonView::Array(seq![json::json_int(code as int), JsonView::Str(message), data]),
        ),
        json::json_get(w, "error"@) == Some(
            JsonView::Array(seq![json::json_int(code as int), JsonView::Str(message)]),
        ),
    ensures
        response_outcome(v) == Some(
            RpcView::Error {
                code,
                message,
                data: if data is Null {
                    None
                } else {
                    Some(data)
                },
            },
        ),
        response_outcome(w) == Some(RpcView::Error { code, message, data: None }),
{
    assert(json::json_int(code as int)->Number_0->Int_0 == code);
}

/// An outcome is seen as it is.
pub proof fn law_outcome_is_seen_as_it_is(outcome: RpcOutcome)
    ensures
        match outcome {
            RpcOutcome::Result(v) => outcome@ == RpcView::Result(v@),
            RpcOutcome::Error { code, message, data } => {
                &&& outcome@ is Error
                &&& outcome@->code == code
                &&& outcome@->message == message@
                &&& data is Some ==> outcome@->data == Some(data->0@)
                &&& data is None ==> outcome@->data is None
            },
        },
{
}

/// Headers without a length, and a body that is no JSON, are told as data that is
/// not valid, with words that say which.
pub proof fn law_bad_frames_are_told(lines: Seq<Seq<char>>, body: Seq<u8>)
    requires
        forall|i: int|
            0 <= i < lines.len() ==> !text::has_prefix(#[trigger] lines[i], "Content-Length:"@),
    ensures
        first_length(lines) == Err::<nat, IoErrorView>(
            IoErrorView {
                kind: IoErrorKind::InvalidData,
                message: "missing Content-Length header"@,
            },
        ),
        json::json_of_bytes(body) matches Err(words) ==> body_outcome(body) == Err::<
            JsonView,
            IoErrorView,
        >(
            IoErrorView {
                kind: IoErrorKind::InvalidData,
                message: "bad JSON body: "@ + words,
            },
        ),
        json::json_of_bytes(body) matches Ok(v) ==> body_outcome(body) == Ok::<
            JsonView,
            IoErrorView,
        >(v),
    decreases lines.len(),
{
    if lines.len() > 0 {
        let rest = lines.subrange(1, lines.len() as int);
        assert(!text::has_prefix(lines[0], "Content-Length:"@));
        assert forall|i: int| 0 <= i < rest.len() implies !text::has_prefix(
            #[trigger] rest[i],
            "Content-Length:"@,
        ) by {
            assert(rest[i] == lines[i + 1]);
        }
        law_bad_frames_are_told(rest, body);
    }
}

} // verus!
