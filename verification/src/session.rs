//! The session state machine: each message read off the stream is parsed
//! and dispatched. `version` answers with a `Version` response, `stop`
//! ends the session silently, `execute` and `execute_asm` run the trace
//! pipeline, and anything else is a fatal protocol error. A fatal error
//! terminates the session after a single `Error` response; the session
//! never resynchronizes after a bad request.

use vstd::prelude::*;
use crate::codec::le_value_of;
use crate::pipeline::{drain_transcript, is_completed, trace_views};
use crate::queue::PathResult;
use crate::request::{parse_hex, parse_hex_spec, parse_request, parse_request_spec, Request,
    RequestView};
use crate::response::ResponseView;

verus! {

/// Why a session terminates with a protocol-level error.
pub enum SessionError {
    /// The request matched no command shape.
    InvalidCommand,
    /// The `execute` argument was not a 32-bit hexadecimal opcode.
    BadOpcode { arg: Vec<u8> },
    /// The external assembler rejected the `execute_asm` argument.
    AssemblyFailed { arg: Vec<u8> },
    /// An explored path reported an error.
    PathError { message: Vec<u8> },
}

/// The mathematical shape of a session error.
pub enum SessionErrorView {
    InvalidCommand,
    BadOpcode { arg: Seq<u8> },
    AssemblyFailed { arg: Seq<u8> },
    PathError { message: Seq<u8> },
}

impl View for SessionError {
    type V = SessionErrorView;

    open spec fn view(&self) -> SessionErrorView {
        match self {
            SessionError::InvalidCommand => SessionErrorView::InvalidCommand,
            SessionError::BadOpcode { arg } => SessionErrorView::BadOpcode { arg: arg@ },
            SessionError::AssemblyFailed { arg } => SessionErrorView::AssemblyFailed {
                arg: arg@,
            },
            SessionError::PathError { message } => SessionErrorView::PathError {
                message: message@,
            },
        }
    }
}

/// What the session does with one parsed request.
pub enum Step {
    /// Answer with a `Version` response and await the next request.
    SendVersion,
    /// End the session cleanly, sending nothing.
    Halt,
    /// Run the execution pipeline on this opcode.
    RunOpcode { opcode: u32 },
    /// Hand this text to the external assembler, then decide again.
    Assemble { text: Vec<u8> },
    /// Terminate the session with a fatal error.
    Abort { error: SessionError },
}

/// The mathematical shape of a session step.
pub enum StepView {
    SendVersion,
    Halt,
    RunOpcode { opcode: u32 },
    Assemble { text: Seq<u8> },
    Abort { error: SessionErrorView },
}

impl View for Step {
    type V = StepView;

    open spec fn view(&self) -> StepView {
        match self {
            Step::SendVersion => StepView::SendVersion,
            Step::Halt => StepView::Halt,
            Step::RunOpcode { opcode } => StepView::RunOpcode { opcode: *opcode },
            Step::Assemble { text } => StepView::Assemble { text: text@ },
            Step::Abort { error } => StepView::Abort { error: error@ },
        }
    }
}

/// The step one raw message leads to: `version` and `stop` decide at
/// once; `execute` must carry a parseable 32-bit hexadecimal opcode or
/// the session aborts; `execute_asm` defers to the assembler; any other
/// request shape aborts the session.
pub open spec fn dispatch_spec(msg: Seq<u8>) -> StepView {
    match parse_request_spec(msg) {
        RequestView::Version => StepView::SendVersion,
        RequestView::Stop => StepView::Halt,
        RequestView::Execute(arg) => match parse_hex_spec(arg) {
            Some(op) => StepView::RunOpcode { opcode: op },
            None => StepView::Abort { error: SessionErrorView::BadOpcode { arg } },
        },
        RequestView::ExecuteAsm(arg) => StepView::Assemble { text: arg },
        RequestView::Invalid => StepView::Abort { error: SessionErrorView::InvalidCommand },
    }
}

/// Parse one raw message and decide the session's next step.
pub fn dispatch(msg: &[u8]) -> (s: Step)
    ensures
        s@ == dispatch_spec(msg@),
{
    match parse_request(msg) {
        Request::Version => Step::SendVersion,
        Request::Stop => Step::Halt,
        Request::Execute(arg) => match parse_hex(arg.as_slice()) {
            Some(op) => Step::RunOpcode { opcode: op },
            None => Step::Abort { error: SessionError::BadOpcode { arg } },
        },
        Request::ExecuteAsm(arg) => Step::Assemble { text: arg },
        Request::Invalid => Step::Abort { error: SessionError::InvalidCommand },
    }
}

/// The step the assembler's verdict leads to: its raw little-endian bytes
/// reinterpreted as a 32-bit opcode, or a fatal error.
pub open spec fn after_assembly_spec(text: Seq<u8>, bytes: Option<Seq<u8>>) -> StepView {
    match bytes {
        Some(b) => StepView::RunOpcode { opcode: le_value_of(b) },
        None => StepView::Abort { error: SessionErrorView::AssemblyFailed { arg: text } },
    }
}

/// Decide the session's next step from the external assembler's verdict
/// on an `execute_asm` request: exactly 4 raw instruction bytes, read as
/// a little-endian 32-bit opcode, or failure.
pub fn after_assembly(text: Vec<u8>, bytes: Option<&[u8]>) -> (s: Step)
    requires
        bytes matches Some(b) ==> b@.len() == 4,
    ensures
        s@ == after_assembly_spec(text@, match bytes {
            Some(b) => Some(b@),
            None => None,
        }),
{
    match bytes {
        Some(b) => {
            let op: u32 = (b[0] as u32) | ((b[1] as u32) << 8) | ((b[2] as u32) << 16) | ((
            b[3] as u32) << 24);
            proof {
                assert(b@ =~= seq![b@[0], b@[1], b@[2], b@[3]]);
            }
            Step::RunOpcode { opcode: op }
        },
        None => Step::Abort { error: SessionError::AssemblyFailed { arg: text } },
    }
}

/// Every response the peer receives for one `execute` pipeline run: the
/// stream opens with `StartTraces` before any result is known, and closes
/// with `EndTraces` on success or a single `Error` on a path error.
pub open spec fn execute_wire(entries: Seq<PathResult>) -> Seq<ResponseView> {
    let t = drain_transcript(entries);
    seq![ResponseView::StartTraces] + t.0 + (match t.1 {
        Some(_) => seq![ResponseView::Error],
        None => Seq::<ResponseView>::empty(),
    })
}

/// Every response the peer receives for one request, given what the
/// engine's queue held (`entries`) and the assembler's verdict (`assembled`).
/// A fatal error of any kind ends the session after one `Error`.
pub open spec fn session_wire(
    msg: Seq<u8>,
    version: Seq<u8>,
    entries: Seq<PathResult>,
    assembled: Option<Seq<u8>>,
) -> Seq<ResponseView> {
    match dispatch_spec(msg) {
        StepView::SendVersion => seq![ResponseView::Version(version)],
        StepView::Halt => Seq::<ResponseView>::empty(),
        StepView::RunOpcode { .. } => execute_wire(entries),
        StepView::Assemble { .. } => match assembled {
            Some(_) => execute_wire(entries),
            None => seq![ResponseView::Error],
        },
        StepView::Abort { .. } => seq![ResponseView::Error],
    }
}

/// A `version` request always yields exactly one `Version` response,
/// carrying the worker's version bytes, and no others.
pub proof fn lemma_version_wire(
    msg: Seq<u8>,
    version: Seq<u8>,
    entries: Seq<PathResult>,
    assembled: Option<Seq<u8>>,
)
    requires
        parse_request_spec(msg) is Version,
    ensures
        session_wire(msg, version, entries, assembled) == seq![ResponseView::Version(version)],
{
}

/// A `stop` request always yields zero responses: the session terminates
/// cleanly and silently.
pub proof fn lemma_stop_wire(
    msg: Seq<u8>,
    version: Seq<u8>,
    entries: Seq<PathResult>,
    assembled: Option<Seq<u8>>,
)
    requires
        parse_request_spec(msg) is Stop,
    ensures
        session_wire(msg, version, entries, assembled) == Seq::<ResponseView>::empty(),
{
}

/// An invalid request yields exactly one `Error` response and the
/// session terminates.
pub proof fn lemma_invalid_wire(
    msg: Seq<u8>,
    version: Seq<u8>,
    entries: Seq<PathResult>,
    assembled: Option<Seq<u8>>,
)
    requires
        parse_request_spec(msg) is Invalid,
    ensures
        session_wire(msg, version, entries, assembled) == seq![ResponseView::Error],
{
}

/// When the assembler rejects an `execute_asm` request, the session
/// terminates with a single `Error` and `StartTraces` is never sent.
pub proof fn lemma_assembly_failure_wire(
    msg: Seq<u8>,
    version: Seq<u8>,
    entries: Seq<PathResult>,
)
    requires
        parse_request_spec(msg) is ExecuteAsm,
    ensures
        session_wire(msg, version, entries, None) == seq![ResponseView::Error],
        !session_wire(msg, version, entries, None).contains(ResponseView::StartTraces),
{
    let wire = session_wire(msg, version, entries, None);
    assert forall|i: int| 0 <= i < wire.len() implies wire[i] != ResponseView::StartTraces by {
        assert(wire[i] == ResponseView::Error);
    }
}

/// An `execute` whose opcode yields zero explorable paths produces
/// exactly `StartTraces` followed immediately by `EndTraces`: an empty
/// trace set is not an error.
pub proof fn lemma_execute_empty_wire(
    msg: Seq<u8>,
    version: Seq<u8>,
    entries: Seq<PathResult>,
    assembled: Option<Seq<u8>>,
)
    requires
        dispatch_spec(msg) is RunOpcode,
        entries.len() == 0,
    ensures
        session_wire(msg, version, entries, assembled) =~= seq![
            ResponseView::StartTraces,
            ResponseView::EndTraces,
        ],
{
}

/// An `execute` whose paths all complete without error produces
/// `StartTraces`, exactly one `Trace` per path in queue order — each with
/// its own outcome flag and serialized trace payload — then `EndTraces`.
pub proof fn lemma_execute_complete_wire(
    msg: Seq<u8>,
    version: Seq<u8>,
    entries: Seq<PathResult>,
    assembled: Option<Seq<u8>>,
)
    requires
        dispatch_spec(msg) is RunOpcode,
        forall|i: int| 0 <= i < entries.len() ==> is_completed(#[trigger] entries[i]),
    ensures
        session_wire(msg, version, entries, assembled) =~= seq![ResponseView::StartTraces]
            + trace_views(entries) + seq![ResponseView::EndTraces],
{
    crate::pipeline::lemma_all_completed_drain(entries);
}

/// When an explored path reports an error, the session emits
/// `StartTraces`, one `Trace` per path completed before the first error,
/// then `Error` — and `EndTraces` never appears on the wire.
pub proof fn lemma_execute_failure_wire(
    msg: Seq<u8>,
    version: Seq<u8>,
    entries: Seq<PathResult>,
    assembled: Option<Seq<u8>>,
    k: int,
    message: Seq<u8>,
)
    requires
        dispatch_spec(msg) is RunOpcode,
        0 <= k < entries.len(),
        entries[k]@ == (crate::queue::PathResultView::Failed { message }),
        forall|i: int| 0 <= i < k ==> is_completed(#[trigger] entries[i]),
    ensures
        session_wire(msg, version, entries, assembled) =~= seq![ResponseView::StartTraces]
            + trace_views(entries.take(k)) + seq![ResponseView::Error],
        !session_wire(msg, version, entries, assembled).contains(ResponseView::EndTraces),
{
    crate::pipeline::lemma_first_failure_drain(entries, k, message);
    let wire = session_wire(msg, version, entries, assembled);
    let traces = trace_views(entries.take(k));
    assert forall|i: int| 0 <= i < wire.len() implies wire[i] != ResponseView::EndTraces by {
        if 0 < i < wire.len() - 1 {
            assert(wire[i] == traces[i - 1]);
            assert(traces[i - 1] == crate::pipeline::trace_view_of(entries.take(k)[i - 1]));
        }
    }
}

} // verus!
