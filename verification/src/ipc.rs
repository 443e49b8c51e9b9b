//! The `nullbyte-emu` ↔ app protocol handshake. The very first line each side sends is
//! an [`IpcHello`] carrying the protocol version; a mismatch means a stale emulator
//! binary, and the connection should be dropped with a clear message.

use vstd::prelude::*;

verus! {

/// Raised whenever the wire format of commands, statuses or the handshake changes.
pub const IPC_PROTOCOL_VERSION: u32 = 2;

/// The protocol-version handshake, the same type in both directions.
#[derive(Debug, Clone, Copy, PartialEq, Eq, Structural)]
pub struct IpcHello {
    pub protocol_version: u32,
}

impl IpcHello {
    /// The handshake of this build.
    pub fn current() -> (h: Self)
        ensures
            h.protocol_version == IPC_PROTOCOL_VERSION,
    {
        Self { protocol_version: IPC_PROTOCOL_VERSION }
    }

    /// Whether a received handshake matches this build's protocol version.
    pub fn is_compatible(&self) -> (b: bool)
        ensures
            b == (self.protocol_version == IPC_PROTOCOL_VERSION),
    {
        self.protocol_version == IPC_PROTOCOL_VERSION
    }
}

/// A build always accepts its own handshake, and accepts no other version.
pub proof fn lemma_handshake_accepts_exactly_own_version(h: IpcHello)
    ensures
        (IpcHello { protocol_version: IPC_PROTOCOL_VERSION }).protocol_version == IPC_PROTOCOL_VERSION,
        (h.protocol_version == IPC_PROTOCOL_VERSION) <==> h == (IpcHello { protocol_version: IPC_PROTOCOL_VERSION }),
{
}

/// The kind of a status line from the emulator, as far as routing it goes.
#[derive(Debug, Clone, Copy, PartialEq, Eq, Structural)]
pub enum StatusKind {
    /// The game loaded.
    Loaded,
    /// The emulator reports an error.
    Error,
    /// Any other status (statistics, saved or loaded states, stopped).
    Other,
}

/// Where a status line goes.
#[derive(Debug, Clone, Copy, PartialEq, Eq, Structural)]
pub enum StatusRoute {
    /// It answers the pending start of the game.
    AnswerLoad,
    /// It is an error after the start was answered: shown to the user.
    ReportError,
    /// It is handed to the session's status handler, or dropped.
    Pass,
}

/// The route of a status while the start of the game is (`awaiting_load`) or is no longer
/// waiting for its answer, and whether it still waits afterwards. The first `Loaded` or
/// `Error` answers the start; later errors are reported; everything else passes.
pub open spec fn route_spec(awaiting_load: bool, kind: StatusKind) -> (StatusRoute, bool) {
    if awaiting_load && kind != StatusKind::Other {
        (StatusRoute::AnswerLoad, false)
    } else if !awaiting_load && kind == StatusKind::Error {
        (StatusRoute::ReportError, false)
    } else {
        (StatusRoute::Pass, awaiting_load)
    }
}

/// Routes one status (see [`route_spec`]).
pub fn route_status(awaiting_load: bool, kind: StatusKind) -> (r: (StatusRoute, bool))
    ensures
        r == route_spec(awaiting_load, kind),
{
    match (awaiting_load, kind) {
        (true, StatusKind::Loaded) | (true, StatusKind::Error) => (StatusRoute::AnswerLoad, false),
        (false, StatusKind::Error) => (StatusRoute::ReportError, false),
        _ => (StatusRoute::Pass, awaiting_load),
    }
}

/// The routes of a stream of statuses, starting from `awaiting_load`, and whether the start
/// still waits at the end.
pub open spec fn route_all(awaiting_load: bool, kinds: Seq<StatusKind>) -> (Seq<StatusRoute>, bool)
    decreases kinds.len(),
{
    if kinds.len() == 0 {
        (Seq::empty(), awaiting_load)
    } else {
        let (first, next) = route_spec(awaiting_load, kinds[0]);
        let (rest, end) = route_all(next, kinds.drop_first());
        (seq![first] + rest, end)
    }
}

/// The position of the first `Loaded` or `Error` in `kinds`, if any.
pub open spec fn first_answer(kinds: Seq<StatusKind>) -> Option<int>
    decreases kinds.len(),
{
    if kinds.len() == 0 {
        None
    } else if kinds[0] != StatusKind::Other {
        Some(0)
    } else {
        match first_answer(kinds.drop_first()) {
            Some(i) => Some(i + 1),
            None => None,
        }
    }
}

/// Over any stream of statuses that starts with the start of the game waiting, the start
/// is answered exactly once if a `Loaded` or `Error` ever arrives, by the first of them,
/// and never otherwise; it keeps waiting exactly when none arrived.
pub proof fn lemma_start_answered_once_by_first_result(kinds: Seq<StatusKind>)
    ensures
        route_all(true, kinds).0.len() == kinds.len(),
        route_all(true, kinds).1 <==> first_answer(kinds) is None,
        first_answer(kinds) matches Some(k) ==> 0 <= k < kinds.len(),
        forall|i: int|
            0 <= i < kinds.len() ==> (#[trigger] route_all(true, kinds).0[i] == StatusRoute::AnswerLoad
                <==> first_answer(kinds) == Some(i)),
    decreases kinds.len(),
{
    lemma_routes_length(true, kinds);
    if kinds.len() > 0 {
        let rest = kinds.drop_first();
        if kinds[0] != StatusKind::Other {
            lemma_no_answer_once_answered(rest);
            assert forall|i: int| 0 <= i < kinds.len() implies (#[trigger] route_all(true, kinds).0[i]
                == StatusRoute::AnswerLoad <==> first_answer(kinds) == Some(i)) by {
                if i > 0 {
                    assert(route_all(true, kinds).0[i] == route_all(false, rest).0[i - 1]);
                }
            }
        } else {
            lemma_start_answered_once_by_first_result(rest);
            assert forall|i: int| 0 <= i < kinds.len() implies (#[trigger] route_all(true, kinds).0[i]
                == StatusRoute::AnswerLoad <==> first_answer(kinds) == Some(i)) by {
                if i > 0 {
                    assert(route_all(true, kinds).0[i] == route_all(true, rest).0[i - 1]);
                }
            }
        }
    }
}

proof fn lemma_routes_length(awaiting_load: bool, kinds: Seq<StatusKind>)
    ensures
        route_all(awaiting_load, kinds).0.len() == kinds.len(),
    decreases kinds.len(),
{
    if kinds.len() > 0 {
        lemma_routes_length(route_spec(awaiting_load, kinds[0]).1, kinds.drop_first());
    }
}

proof fn lemma_no_answer_once_answered(kinds: Seq<StatusKind>)
    ensures
        !route_all(false, kinds).1,
        forall|i: int| 0 <= i < kinds.len() ==> #[trigger] route_all(false, kinds).0[i] != StatusRoute::AnswerLoad,
    decreases kinds.len(),
{
    lemma_routes_length(false, kinds);
    if kinds.len() > 0 {
        lemma_no_answer_once_answered(kinds.drop_first());
        assert forall|i: int| 0 <= i < kinds.len() implies #[trigger] route_all(false, kinds).0[i]
            != StatusRoute::AnswerLoad by {
            if i > 0 {
                assert(route_all(false, kinds).0[i] == route_all(false, kinds.drop_first()).0[i - 1]);
            }
        }
    }
}

} // verus!
