use vstd::prelude::*;
use crate::channels::{ChannelMsg, ChannelMsgWithSender};
use crate::error::ServieError;
use crate::identity::ShortIdStr;
use crate::messages::{
    C2SAck, C2SAuthRes, C2SConnectToUserResult, ConnectToUser, S2CAuthReq, S2CAuthResult,
    S2CConnectToUserResult, AUTH_SIZE,
};
use rand::RngCore;
use rand::SeedableRng;

verus! {

// ---------------------------------------------------------------------------
// Handshake: the per-connection authentication state machine, run once at
// connection start. Failure at any step is terminal for the connection.
// ---------------------------------------------------------------------------

/// The handshake's states.
#[derive(Debug)]
pub enum HandshakeState {
    /// Waiting for the client to name itself.
    AwaitAck,
    /// Challenge sent; waiting for the signed response.
    AwaitAuthResponse { username: ShortIdStr },
    /// The session is authenticated: it may register and start brokering.
    Authenticated { username: ShortIdStr },
    /// Terminal: the connection must close.
    Rejected,
}

/// The username a handshake state carries, where it carries one.
pub open spec fn handshake_username(s: HandshakeState) -> Seq<char> {
    match s {
        HandshakeState::AwaitAuthResponse { username } => username@,
        HandshakeState::Authenticated { username } => username@,
        _ => Seq::empty(),
    }
}

/// What the service does with a received `Ack`.
#[derive(Debug)]
pub enum AckOutcome {
    /// Close the connection with this error.
    Refuse(ServieError),
    /// Send this challenge and await the signed response.
    Challenge(S2CAuthReq),
}

/// Handles the client's `Ack`: a username already online is refused before
/// any challenge is issued (duplicate-login prevention); a username without
/// a public-key record is refused with the same outward failure as a bad
/// signature, so usernames cannot be enumerated; otherwise the challenge is
/// issued.
pub fn handshake_on_ack(
    state: HandshakeState,
    ack: C2SAck,
    already_online: bool,
    record_found: bool,
    challenge: Vec<u8>,
) -> (r: (HandshakeState, AckOutcome))
    requires
        state is AwaitAck,
        ack.wf(),
        challenge@.len() == AUTH_SIZE,
    ensures
        already_online ==> {
            &&& r.0 is Rejected
            &&& (r.1 matches AckOutcome::Refuse(e) && e is AlreadyOnline)
        },
        !already_online && !record_found ==> {
            &&& r.0 is Rejected
            &&& (r.1 matches AckOutcome::Refuse(e) && e is AuthFailure)
        },
        !already_online && record_found ==> {
            &&& r.0 is AwaitAuthResponse
            &&& handshake_username(r.0) == ack.username@
            &&& (r.1 matches AckOutcome::Challenge(req) && req.random@ == challenge@ && req.wf())
        },
{
    if already_online {
        (HandshakeState::Rejected, AckOutcome::Refuse(ServieError::AlreadyOnline))
    } else if !record_found {
        (HandshakeState::Rejected, AckOutcome::Refuse(ServieError::AuthFailure))
    } else {
        (
            HandshakeState::AwaitAuthResponse { username: ack.username },
            AckOutcome::Challenge(S2CAuthReq { random: challenge }),
        )
    }
}

/// Handles the signed response. The signature check itself is a pluggable
/// primitive; its verdict is handed in. Success authenticates the session;
/// any failure is terminal, and only the `Failure` result leaves for the
/// client before the connection closes.
pub fn handshake_on_auth_response(
    state: HandshakeState,
    _response: C2SAuthRes,
    signature_ok: bool,
) -> (r: (HandshakeState, S2CAuthResult))
    requires
        state is AwaitAuthResponse,
    ensures
        signature_ok ==> {
            &&& r.0 is Authenticated
            &&& handshake_username(r.0) == handshake_username(state)
            &&& r.1 == S2CAuthResult::Success
        },
        !signature_ok ==> r.0 is Rejected && r.1 == S2CAuthResult::Failure,
{
    match state {
        HandshakeState::AwaitAuthResponse { username } => {
            if signature_ok {
                (HandshakeState::Authenticated { username }, S2CAuthResult::Success)
            } else {
                (HandshakeState::Rejected, S2CAuthResult::Failure)
            }
        },
        _ => {
            proof {
                assert(false);
            }
            (HandshakeState::Rejected, S2CAuthResult::Failure)
        },
    }
}

/// A fresh authentication challenge of the fixed size, or nothing when the
/// system's entropy source fails.
pub fn make_auth_request() -> (r: Option<S2CAuthReq>)
    ensures
        r matches Some(req) ==> req.wf(),
{
    match random_bytes(AUTH_SIZE) {
        Some(random) => Some(S2CAuthReq { random }),
        None => None,
    }
}

/// Relies on `rand_chacha::ChaCha20Rng` through `rand`'s `SeedableRng` and
/// `RngCore`: `n` bytes from a CSPRNG seeded from the operating system, or
/// `None` when the OS entropy source fails. Of random bytes only the length
/// can be promised.
#[verifier::external_body]
fn random_bytes(n: usize) -> (r: Option<Vec<u8>>)
    ensures
        r matches Some(v) ==> v@.len() == n,
{
    let mut rng = match rand_chacha::ChaCha20Rng::try_from_os_rng() {
        Ok(rng) => rng,
        Err(_) => {
            return None;
        },
    };
    let mut v = vec![0u8; n];
    rng.fill_bytes(&mut v);
    Some(v)
}

// ---------------------------------------------------------------------------
// Brokering: the decisions of the per-session loop. The loop multiplexes
// transport frames and mailbox events; each decision point is a function
// here, and the asynchronous runner only performs what these decide.
// ---------------------------------------------------------------------------

/// The brokering sub-state of an authenticated session.
#[derive(Debug)]
pub enum SessionState {
    /// Neither asking nor asked.
    Idle,
    /// This session put a `ConnectToUser` into `peer`'s mailbox and listens
    /// on its own mailbox for `peer`'s answer, until a fixed deadline.
    Listening { peer: ShortIdStr },
    /// This session forwarded `peer`'s request to its local client and
    /// awaits the client's verdict; meanwhile it serves nothing else.
    AwaitingClientReply { peer: ShortIdStr },
}

/// The initiator's first step for a `ConnectToUser` frame.
#[derive(Debug, Clone, Copy, PartialEq, Eq, Structural)]
pub enum InitiateStep {
    /// Answer the client at once.
    ReplyNow(S2CConnectToUserResult),
    /// The request sits in the target's single slot: listen for the answer.
    AwaitPeer,
}

pub open spec fn spec_initiate(target_online: bool, request_enqueued: bool) -> InitiateStep {
    if !target_online {
        InitiateStep::ReplyNow(S2CConnectToUserResult::UserOffline)
    } else if !request_enqueued {
        InitiateStep::ReplyNow(S2CConnectToUserResult::UserBusy)
    } else {
        InitiateStep::AwaitPeer
    }
}

/// Decides the initiator's first step from the target's lookup and the
/// attempt to enqueue the request: an offline target is answered
/// `UserOffline` with no mailbox traffic; a target whose single mailbox slot
/// was occupied is answered `UserBusy` at once, with no waiting; only when
/// the request took the slot does the session start listening.
pub fn initiate_connect(target_online: bool, request_enqueued: bool) -> (r: InitiateStep)
    ensures
        r == spec_initiate(target_online, request_enqueued),
{
    if !target_online {
        InitiateStep::ReplyNow(S2CConnectToUserResult::UserOffline)
    } else if !request_enqueued {
        InitiateStep::ReplyNow(S2CConnectToUserResult::UserBusy)
    } else {
        InitiateStep::AwaitPeer
    }
}

pub open spec fn spec_reply_for_listen(outcome: Option<ChannelMsg>) -> S2CConnectToUserResult {
    match outcome {
        Some(ChannelMsg::ConnectToUserReject) => S2CConnectToUserResult::Reject,
        Some(ChannelMsg::UserBusy) => S2CConnectToUserResult::UserBusy,
        None => S2CConnectToUserResult::UserBusy,
        Some(ChannelMsg::ConnectToUserAccept) => S2CConnectToUserResult::Accept,
        Some(ChannelMsg::ConnectToUser) => S2CConnectToUserResult::Accept,
    }
}

/// Maps what `listen` yielded to the initiator's answer: a reject passes
/// through; a busy notice and the elapsed deadline (`None`) both read as
/// `UserBusy` — by design the two are indistinguishable; an accept reads as
/// `Accept`, and so does a crossing `ConnectToUser` from the same peer: the
/// implicit mutual accept, with no confirmation round trip.
pub fn reply_for_listen(outcome: Option<ChannelMsg>) -> (r: S2CConnectToUserResult)
    ensures
        r == spec_reply_for_listen(outcome),
{
    match outcome {
        Some(ChannelMsg::ConnectToUserReject) => S2CConnectToUserResult::Reject,
        Some(ChannelMsg::UserBusy) => S2CConnectToUserResult::UserBusy,
        None => S2CConnectToUserResult::UserBusy,
        Some(ChannelMsg::ConnectToUserAccept) => S2CConnectToUserResult::Accept,
        Some(ChannelMsg::ConnectToUser) => S2CConnectToUserResult::Accept,
    }
}

/// One mailbox event seen while listening for a given peer.
#[derive(Debug)]
pub enum ListenStep {
    /// The expected peer answered: the wait is over.
    Deliver(ChannelMsg),
    /// Someone else knocked while this user was waiting: notify them this
    /// user is busy, best-effort, and keep waiting — with the same deadline,
    /// which is never extended by such events.
    NotifyBusy(ShortIdStr),
}

pub open spec fn spec_listen_step(expected: Seq<char>, msg: ChannelMsgWithSender) -> ListenStep {
    if msg.from@ == expected {
        ListenStep::Deliver(msg.message)
    } else {
        ListenStep::NotifyBusy(msg.from)
    }
}

/// Filters one mailbox event against the expected sender: only that sender's
/// message is delivered; any other sender is told `UserBusy` and the event
/// is not queued back.
pub fn listen_step(expected: &ShortIdStr, msg: ChannelMsgWithSender) -> (r: ListenStep)
    ensures
        r == spec_listen_step(expected@, msg),
{
    if msg.from == *expected {
        ListenStep::Deliver(msg.message)
    } else {
        ListenStep::NotifyBusy(msg.from)
    }
}

/// What an idle session does with a mailbox event.
#[derive(Debug)]
pub enum HearStep {
    /// Forward the request to the local client and await its verdict.
    Forward(ConnectToUser),
    /// Any other event in the idle state breaks the protocol invariant:
    /// fatal for the session, not a recoverable condition.
    Violation,
}

pub open spec fn spec_hear_idle(msg: ChannelMsgWithSender) -> HearStep {
    if msg.message is ConnectToUser {
        HearStep::Forward(ConnectToUser { username: msg.from })
    } else {
        HearStep::Violation
    }
}

/// Decides what an idle session does when its mailbox yields an event: a
/// `ConnectToUser` is forwarded to the local client, naming the requester;
/// anything else is a protocol violation.
pub fn hear_idle(msg: ChannelMsgWithSender) -> (r: HearStep)
    ensures
        r == spec_hear_idle(msg),
{
    match msg.message {
        ChannelMsg::ConnectToUser => HearStep::Forward(ConnectToUser { username: msg.from }),
        _ => HearStep::Violation,
    }
}

pub open spec fn spec_reply_msg(reply: C2SConnectToUserResult) -> ChannelMsg {
    match reply {
        C2SConnectToUserResult::Reject => ChannelMsg::ConnectToUserReject,
        C2SConnectToUserResult::Accept => ChannelMsg::ConnectToUserAccept,
    }
}

pub open spec fn spec_reply_blocking(reply: C2SConnectToUserResult) -> bool {
    reply is Accept
}

/// Turns the asked client's verdict into the event sent back to the
/// initiator, and says how to send it: the accept goes with the blocking
/// send — the initiator is known, by protocol construction, to be listening
/// for exactly this message — while the reject is best-effort, since the
/// initiator's own deadline resolves a dropped reject to `UserBusy`.
pub fn client_reply_action(reply: C2SConnectToUserResult) -> (r: (ChannelMsg, bool))
    ensures
        r.0 == spec_reply_msg(reply),
        r.1 == spec_reply_blocking(reply),
{
    match reply {
        C2SConnectToUserResult::Reject => (ChannelMsg::ConnectToUserReject, false),
        C2SConnectToUserResult::Accept => (ChannelMsg::ConnectToUserAccept, true),
    }
}

} // verus!
