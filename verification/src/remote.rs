//! Talking to a NostDB server: credentials, the mapping of remote
//! failures to exit codes, and the snapshot streams.
//!
//! The connection itself is the caller's; these functions decide what a
//! reply means and what to send or write next.
use vstd::prelude::*;

use crate::args::{fails_with, usage, ErrorView};
use crate::error::{CliError, EXIT_DATABASE, EXIT_IO, EXIT_QUERY, EXIT_USAGE};
use crate::render::{byte_len, utf8};
use crate::text::{append, char_is_whitespace, chars_of, decimal, is_whitespace, join2, owned, push_decimal, string_of};

verus! {

/// The server error codes that the client tells apart.
#[derive(Clone, Copy, Debug, PartialEq, Eq, Structural)]
pub enum RemoteCode {
    QueryError,
    ResourceLimit,
    Cancelled,
    /// Any other code.
    Other,
}

/// What went wrong with a server request.
#[derive(Clone, Copy, Debug, PartialEq, Eq, Structural)]
pub enum RemoteFailureKind {
    /// The server answered with an error.
    Server(RemoteCode),
    /// The exchange broke the protocol.
    Protocol,
    /// The connection failed.
    Io,
}

/// A failed server request: its kind and the text of the failure.
#[derive(Debug)]
pub struct RemoteFailure {
    pub kind: RemoteFailureKind,
    pub text: String,
}

/// Query errors, exhausted limits and cancellations are query failures, a
/// protocol failure is a usage error, and every other server or
/// connection failure is a database failure.
pub open spec fn remote_code(kind: RemoteFailureKind) -> u8 {
    match kind {
        RemoteFailureKind::Server(RemoteCode::QueryError) => EXIT_QUERY,
        RemoteFailureKind::Server(RemoteCode::ResourceLimit) => EXIT_QUERY,
        RemoteFailureKind::Server(RemoteCode::Cancelled) => EXIT_QUERY,
        RemoteFailureKind::Protocol => EXIT_USAGE,
        _ => EXIT_DATABASE,
    }
}

pub fn map_remote_error(error: RemoteFailure) -> (result: CliError)
    ensures
        result.code == remote_code(error.kind),
        result.message@ == error.text@,
{
    let code = match error.kind {
        RemoteFailureKind::Server(RemoteCode::QueryError) => EXIT_QUERY,
        RemoteFailureKind::Server(RemoteCode::ResourceLimit) => EXIT_QUERY,
        RemoteFailureKind::Server(RemoteCode::Cancelled) => EXIT_QUERY,
        RemoteFailureKind::Protocol => EXIT_USAGE,
        _ => EXIT_DATABASE,
    };
    CliError::new(code, error.text)
}

/// The answer to a Database selection: whether the server confirmed the
/// selection, or the failure of the request.
pub fn expect_selected(reply: Result<bool, RemoteFailure>) -> (result: Result<(), CliError>)
    ensures
        match reply {
            Ok(true) => result is Ok,
            Ok(false) => fails_with(
                result,
                (EXIT_DATABASE, "server returned an unexpected Database-selection response"@),
            ),
            Err(f) => fails_with(result, (remote_code(f.kind), f.text@)),
        },
{
    match reply {
        Ok(true) => Ok(()),
        Ok(false) => Err(
            CliError::new(
                EXIT_DATABASE,
                owned("server returned an unexpected Database-selection response"),
            ),
        ),
        Err(f) => Err(map_remote_error(f)),
    }
}

/// The error for a reply that does not fit a Database administration
/// request.
pub open spec fn unexpected_response() -> ErrorView {
    (EXIT_DATABASE, "server returned an unexpected Database administration response"@)
}

pub fn unexpected_database_response<T>() -> (result: Result<T, CliError>)
    ensures
        fails_with(result, unexpected_response()),
{
    Err(
        CliError::new(
            EXIT_DATABASE,
            owned("server returned an unexpected Database administration response"),
        ),
    )
}

/// The failure to write to standard output.
pub fn output_error(message: &str) -> (result: CliError)
    ensures
        result.code == EXIT_IO,
        result.message@ == "cannot write output: "@ + message@,
{
    CliError::new(EXIT_IO, join2("cannot write output: ", message))
}

/// The text without its trailing carriage returns and line feeds.
pub open spec fn trim_line_chars(s: Seq<char>) -> Seq<char>
    decreases s.len(),
{
    if s.len() > 0 && (s.last() == '\r' || s.last() == '\n') {
        trim_line_chars(s.drop_last())
    } else {
        s
    }
}

/// The error for a credential that is not one token of at least 32 bytes.
pub open spec fn bad_credential() -> ErrorView {
    usage("credential must be one non-whitespace token of at least 32 characters"@)
}

/// A credential is the text without its trailing line ending; it must be
/// at least 32 bytes long and hold no whitespace.
pub open spec fn credential_spec(text: Seq<char>) -> Result<Seq<char>, ErrorView> {
    let token = trim_line_chars(text);
    if utf8(token).len() < 32 || exists|i: int| 0 <= i < token.len() && is_whitespace(
        #[trigger] token[i],
    ) {
        Err(bad_credential())
    } else {
        Ok(token)
    }
}

/// Checks the credential read from a file or the environment.
pub fn check_credential(text: &str) -> (result: Result<String, CliError>)
    ensures
        match credential_spec(text@) {
            Ok(token) => result matches Ok(t) && t@ == token,
            Err(e) => fails_with(result, e),
        },
{
    let chars = chars_of(text);
    let mut end: usize = chars.len();
    assert(chars@.take(chars@.len() as int) == chars@);
    while end > 0 && (chars[end - 1] == '\r' || chars[end - 1] == '\n')
        invariant
            end <= chars@.len(),
            chars@ == text@,
            trim_line_chars(chars@.take(end as int)) == trim_line_chars(text@),
        decreases end,
    {
        assert(chars@.take(end - 1) == chars@.take(end as int).drop_last());
        end -= 1;
    }
    let token = string_of(&chars, 0, end);
    assert(chars@.subrange(0, end as int) == chars@.take(end as int));
    assert(token@ == trim_line_chars(text@));
    if byte_len(token.as_str()) < 32 {
        return Err(
            CliError::usage(
                owned("credential must be one non-whitespace token of at least 32 characters"),
            ),
        );
    }
    let mut i: usize = 0;
    while i < end
        invariant
            i <= end <= chars@.len(),
            token@ == chars@.subrange(0, end as int),
            token@ == trim_line_chars(text@),
            utf8(token@).len() >= 32,
            forall|j: int| 0 <= j < i ==> !is_whitespace(#[trigger] token@[j]),
        decreases end - i,
    {
        if char_is_whitespace(chars[i]) {
            assert(token@[i as int] == chars@[i as int]);
            return Err(
                CliError::usage(
                    owned("credential must be one non-whitespace token of at least 32 characters"),
                ),
            );
        }
        assert(token@[i as int] == chars@[i as int]);
        i += 1;
    }
    Ok(token)
}

/// The character of a six-bit value in the standard Base64 alphabet
/// (RFC 4648): `A`-`Z`, `a`-`z`, `0`-`9`, `+` and `/`.
pub open spec fn base64_digit(v: int) -> char {
    if v < 26 {
        (65 + v) as char
    } else if v < 52 {
        (71 + v) as char
    } else if v < 62 {
        (v - 4) as char
    } else if v == 62 {
        '+'
    } else {
        '/'
    }
}

/// The Base64 text (standard alphabet, with padding) of the bytes: each
/// group of three bytes becomes four characters of six bits each, and a
/// last group of one or two bytes is padded with `=` to four characters.
pub open spec fn base64_encoded(bytes: Seq<u8>) -> Seq<char>
    decreases bytes.len(),
{
    let b0 = bytes[0] as int;
    let b1 = bytes[1] as int;
    let b2 = bytes[2] as int;
    if bytes.len() == 0 {
        seq![]
    } else if bytes.len() == 1 {
        seq![base64_digit(b0 / 4), base64_digit((b0 % 4) * 16), '=', '=']
    } else if bytes.len() == 2 {
        seq![
            base64_digit(b0 / 4),
            base64_digit((b0 % 4) * 16 + b1 / 16),
            base64_digit((b1 % 16) * 4),
            '=',
        ]
    } else {
        seq![
            base64_digit(b0 / 4),
            base64_digit((b0 % 4) * 16 + b1 / 16),
            base64_digit((b1 % 16) * 4 + b2 / 64),
            base64_digit(b2 % 64),
        ] + base64_encoded(bytes.skip(3))
    }
}

/// A Base64 text has four characters per started group of three bytes.
pub proof fn lemma_base64_length(bytes: Seq<u8>)
    ensures
        base64_encoded(bytes).len() == 4 * ((bytes.len() + 2) / 3),
    decreases bytes.len(),
{
    if bytes.len() >= 3 {
        lemma_base64_length(bytes.skip(3));
    }
}

/// What decoding a Base64 text (standard alphabet, canonical padding)
/// gives: the bytes, or the message of the decoding error.
pub uninterp spec fn base64_decoding(text: Seq<char>) -> Result<Seq<u8>, Seq<char>>;

/// A successful decoding to the given bytes.
pub open spec fn decoded_as(bytes: Seq<u8>) -> Result<Seq<u8>, Seq<char>> {
    Ok(bytes)
}

/// `STANDARD.encode` of the `base64` crate: the Base64 text of the bytes
/// (standard alphabet, padded), which `STANDARD.decode` reads back as the
/// same bytes.
#[verifier::external_body]
pub(crate) fn encode_chunk(bytes: &[u8]) -> (encoded: String)
    requires
        bytes@.len() <= usize::MAX / 2,
    ensures
        encoded@ == base64_encoded(bytes@),
        base64_decoding(encoded@) == decoded_as(bytes@),

{
    base64::Engine::encode(&base64::engine::general_purpose::STANDARD, bytes)
}

/// `STANDARD.decode` of the `base64` crate, with the decoding error as its
/// `Display` text.
#[verifier::external_body]
fn decode_base64(text: &str) -> (result: Result<Vec<u8>, String>)
    ensures
        match base64_decoding(text@) {
            Ok(bytes) => result matches Ok(v) && v@ == bytes,
            Err(message) => result matches Err(m) && m@ == message,
        },
{
    match base64::Engine::decode(&base64::engine::general_purpose::STANDARD, text) {
        Ok(bytes) => Ok(bytes),
        Err(error) => Err(error.to_string()),
    }
}

/// The replies that can arrive in a snapshot stream.
#[derive(Debug)]
pub enum StreamReply {
    /// The server failed the request: its code and the failure's text.
    Error(RemoteCode, String),
    SnapshotStart { total_bytes: u64 },
    SnapshotChunk { sequence: u64, data: String },
    SnapshotEnd { chunks: u64 },
    /// Any other reply.
    Other,
}

/// A reply frame and the request it answers.
#[derive(Debug)]
pub struct Frame {
    pub request_id: u64,
    pub reply: StreamReply,
}

/// The error for a frame that answers another request.
pub open spec fn mismatched_frame(got: u64, expected: u64) -> ErrorView {
    (
        EXIT_DATABASE,
        "database protocol returned response "@ + decimal(got as nat) + " while waiting for "@
            + decimal(expected as nat),
    )
}

/// A frame must answer the request waited for; a server error it carries
/// is the request's failure.
pub open spec fn frame_spec(frame: Frame, request_id: u64) -> Result<StreamReply, ErrorView> {
    if frame.request_id != request_id {
        Err(mismatched_frame(frame.request_id, request_id))
    } else {
        match frame.reply {
            StreamReply::Error(code, text) => Err(
                (remote_code(RemoteFailureKind::Server(code)), text@),
            ),
            reply => Ok(reply),
        }
    }
}

pub fn frame_response(frame: Frame, request_id: u64) -> (result: Result<StreamReply, CliError>)
    ensures
        match frame_spec(frame, request_id) {
            Ok(reply) => result == Ok::<StreamReply, CliError>(reply),
            Err(e) => fails_with(result, e),
        },
{
    if frame.request_id != request_id {
        let mut message = owned("database protocol returned response ");
        push_decimal(&mut message, frame.request_id);
        append(&mut message, " while waiting for ");
        push_decimal(&mut message, request_id);
        return Err(CliError::new(EXIT_DATABASE, message));
    }
    match frame.reply {
        StreamReply::Error(code, text) => Err(
            map_remote_error(RemoteFailure { kind: RemoteFailureKind::Server(code), text }),
        ),
        reply => Ok(reply),
    }
}

/// The progress of a snapshot download: the request, the declared size,
/// the next chunk expected and the bytes received so far.
#[derive(Clone, Copy, Debug, PartialEq, Eq, Structural)]
pub struct ExportState {
    pub request_id: u64,
    pub total_bytes: u64,
    pub expected_sequence: u64,
    pub received: u64,
}

fn database_error(message: &str) -> (result: CliError)
    ensures
        result.code == EXIT_DATABASE,
        result.message@ == message@,
{
    CliError::new(EXIT_DATABASE, owned(message))
}

/// The first frame of a snapshot download must start the stream; it
/// declares the size of the snapshot.
pub open spec fn start_spec(frame: Frame, request_id: u64) -> Result<ExportState, ErrorView> {
    match frame_spec(frame, request_id) {
        Err(e) => Err(e),
        Ok(StreamReply::SnapshotStart { total_bytes }) => Ok(
            ExportState { request_id, total_bytes, expected_sequence: 0, received: 0 },
        ),
        Ok(_) => Err((EXIT_DATABASE, "snapshot stream did not start correctly"@)),
    }
}

pub fn snapshot_start(frame: Frame, request_id: u64) -> (result: Result<ExportState, CliError>)
    ensures
        match start_spec(frame, request_id) {
            Ok(state) => result == Ok::<ExportState, CliError>(state),
            Err(e) => fails_with(result, e),
        },
{
    match frame_response(frame, request_id) {
        Err(e) => Err(e),
        Ok(StreamReply::SnapshotStart { total_bytes }) => Ok(
            ExportState { request_id, total_bytes, expected_sequence: 0, received: 0 },
        ),
        Ok(_) => Err(database_error("snapshot stream did not start correctly")),
    }
}

/// What to do after a frame of a snapshot download.
#[derive(Debug)]
pub enum ExportAction {
    /// Append these bytes to the snapshot file.
    Write(Vec<u8>),
    /// The snapshot is complete: persist and install the file.
    Finish,
}

/// `a + b`, or `u64::MAX` when the sum does not fit.
pub open spec fn saturating(a: int, b: int) -> u64 {
    if a + b > u64::MAX {
        u64::MAX
    } else {
        (a + b) as u64
    }
}

/// One reply of a snapshot download after its start: a chunk must be the
/// next in sequence and valid Base64, and its bytes are written; the end
/// must declare as many chunks as arrived, and the bytes received must be
/// the size declared at the start; any other reply breaks the stream.
/// The result is the next state and the bytes to write, or `None` once the
/// stream is complete.
pub open spec fn reply_step(st: ExportState, reply: StreamReply) -> Result<
    (ExportState, Option<Seq<u8>>),
    ErrorView,
> {
    match reply {
        StreamReply::SnapshotChunk { sequence, data } => if sequence != st.expected_sequence {
            Err((EXIT_DATABASE, "snapshot chunk sequence is not contiguous"@))
        } else {
            match base64_decoding(data@) {
                Err(message) => Err((EXIT_DATABASE, "invalid snapshot chunk: "@ + message)),
                Ok(bytes) => Ok(
                    (
                        ExportState {
                            received: saturating(st.received as int, bytes.len() as int),
                            expected_sequence: (st.expected_sequence + 1) as u64,
                            ..st
                        },
                        Some(bytes),
                    ),
                ),
            }
        },
        StreamReply::SnapshotEnd { chunks } => if chunks != st.expected_sequence || st.received
            != st.total_bytes {
            Err((EXIT_DATABASE, "snapshot byte or chunk count does not match its declaration"@))
        } else {
            Ok((st, None))
        },
        _ => Err((EXIT_DATABASE, "unexpected frame in snapshot stream"@)),
    }
}

/// One frame of a snapshot download after its start.
pub open spec fn export_step(st: ExportState, frame: Frame) -> Result<
    (ExportState, Option<Seq<u8>>),
    ErrorView,
> {
    match frame_spec(frame, st.request_id) {
        Err(e) => Err(e),
        Ok(reply) => reply_step(st, reply),
    }
}

/// Takes the next frame of a snapshot download.
pub fn snapshot_step(state: &mut ExportState, frame: Frame) -> (result: Result<
    ExportAction,
    CliError,
>)
    requires
        old(state).expected_sequence < u64::MAX,
    ensures
        match export_step(*old(state), frame) {
            Ok((next, Some(bytes))) => *final(state) == next && (result matches Ok(
                ExportAction::Write(b),
            ) && b@ == bytes),
            Ok((next, None)) => *final(state) == next && (result matches Ok(ExportAction::Finish)),
            Err(e) => fails_with(result, e),
        },
{
    let reply = match frame_response(frame, state.request_id) {
        Ok(reply) => reply,
        Err(e) => return Err(e),
    };
    match reply {
        StreamReply::SnapshotChunk { sequence, data } => {
            if sequence != state.expected_sequence {
                return Err(database_error("snapshot chunk sequence is not contiguous"));
            }
            match decode_base64(data.as_str()) {
                Err(message) => {
                    let mut text = owned("invalid snapshot chunk: ");
                    append(&mut text, message.as_str());
                    Err(CliError::new(EXIT_DATABASE, text))
                },
                Ok(bytes) => {
                    let length = bytes.len() as u64;
                    state.received = state.received.saturating_add(length);
                    state.expected_sequence = state.expected_sequence + 1;
                    Ok(ExportAction::Write(bytes))
                },
            }
        },
        StreamReply::SnapshotEnd { chunks } => {
            if chunks != state.expected_sequence || state.received != state.total_bytes {
                return Err(
                    database_error("snapshot byte or chunk count does not match its declaration"),
                );
            }
            Ok(ExportAction::Finish)
        },
        _ => Err(database_error("unexpected frame in snapshot stream")),
    }
}

/// The outcome of feeding replies to a snapshot download: the bytes
/// written once the stream completes, the first error, or `None` when the
/// replies run out first.
pub open spec fn export_run(st: ExportState, replies: Seq<StreamReply>) -> Option<
    Result<Seq<u8>, ErrorView>,
>
    decreases replies.len(),
{
    if replies.len() == 0 {
        None
    } else {
        match reply_step(st, replies[0]) {
            Err(e) => Some(Err(e)),
            Ok((_, None)) => Some(Ok(Seq::empty())),
            Ok((next, Some(bytes))) => match export_run(next, replies.drop_first()) {
                Some(Ok(rest)) => Some(Ok(bytes + rest)),
                other => other,
            },
        }
    }
}

/// Whether the replies are the chunks `first, first + 1, ...` whose data
/// decode to `chunks`, followed by the end of the stream.
pub open spec fn well_formed_stream(
    replies: Seq<StreamReply>,
    chunks: Seq<Seq<u8>>,
    first: u64,
) -> bool {
    &&& replies.len() == chunks.len() + 1
    &&& forall|i: int|
        0 <= i < chunks.len() ==> (#[trigger] replies[i] matches StreamReply::SnapshotChunk {
            sequence,
            data,
        } && sequence == first + i && base64_decoding(data@) == Ok::<Seq<u8>, Seq<char>>(
            chunks[i],
        ))
    &&& replies.last() matches StreamReply::SnapshotEnd { chunks: n } && n == first + chunks.len()
}

/// A snapshot stream whose chunks arrive in sequence, decode, and add up
/// to the size declared at its start is written completely: the file
/// receives exactly the decoded chunks, in order.
pub proof fn lemma_export_writes_declared_stream(
    st: ExportState,
    replies: Seq<StreamReply>,
    chunks: Seq<Seq<u8>>,
)
    requires
        well_formed_stream(replies, chunks, st.expected_sequence),
        st.expected_sequence + chunks.len() < u64::MAX,
        st.received + chunks.flatten().len() == st.total_bytes,
    ensures
        export_run(st, replies) == Some(Ok::<Seq<u8>, ErrorView>(chunks.flatten())),
    decreases chunks.len(),
{
    if chunks.len() == 0 {
        assert(replies[0] == replies.last());
    } else {
        let bytes = chunks[0];
        assert(replies[0] matches StreamReply::SnapshotChunk { .. });
        let next = ExportState {
            received: (st.received + bytes.len()) as u64,
            expected_sequence: (st.expected_sequence + 1) as u64,
            ..st
        };
        assert(reply_step(st, replies[0]) == Ok::<(ExportState, Option<Seq<u8>>), ErrorView>(
            (next, Some(bytes)),
        ));
        let rest = replies.drop_first();
        let later = chunks.drop_first();
        assert forall|i: int| 0 <= i < later.len() implies (#[trigger] rest[i] matches StreamReply::SnapshotChunk {
            sequence,
            data,
        } && sequence == next.expected_sequence + i && base64_decoding(data@) == Ok::<
            Seq<u8>,
            Seq<char>,
        >(later[i])) by {
            assert(rest[i] == replies[i + 1]);
            assert(later[i] == chunks[i + 1]);
        }
        assert(rest.last() == replies.last());
        lemma_export_writes_declared_stream(next, rest, later);
    }
}

/// The error when neither the environment nor a file gives a credential.
pub fn missing_credential() -> (result: CliError)
    ensures
        result.code == EXIT_USAGE,
        result.message@ == "set NOSTDB_CREDENTIAL or pass --credential-file PATH"@,
{
    CliError::usage(owned("set NOSTDB_CREDENTIAL or pass --credential-file PATH"))
}

/// A ping must be answered by a pong.
pub fn ping_reply(is_pong: bool) -> (result: Result<(), CliError>)
    ensures
        is_pong ==> result is Ok,
        !is_pong ==> fails_with(
            result,
            (EXIT_DATABASE, "server returned an unexpected ping response"@),
        ),
{
    if is_pong {
        Ok(())
    } else {
        Err(database_error("server returned an unexpected ping response"))
    }
}

/// A query must be answered by a statement result (`None` stands for any
/// other reply).
pub fn query_reply<T>(reply: Option<T>) -> (result: Result<T, CliError>)
    ensures
        match reply {
            Some(statement) => result == Ok::<T, CliError>(statement),
            None => fails_with(
                result,
                (EXIT_DATABASE, "server returned an unexpected query response"@),
            ),
        },
{
    match reply {
        Some(statement) => Ok(statement),
        None => Err(database_error("server returned an unexpected query response")),
    }
}

} // verus!
