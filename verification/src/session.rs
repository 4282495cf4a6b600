//! The per-session state machine of the order stream: every message loops
//! through here, and the returned action is all the I/O layer has to do.
//!
//! The transport reads messages and performs actions; which message moves a
//! session where, and what is sent or asked in response, is decided — and
//! proved — here.

use vstd::prelude::*;
use vstd::string::StringExecFns;
use crate::common::{InvId, Password, SeqNum, Timestamp};
use crate::portal_types::{PortalRequest, PortalRequestV};
use crate::wire::{
    parsable_order_request, parse_order_request, parse_seqnum, parsed_order_request, spec_seqnum,
    RpcOrderRequest, RpcOrderRequestKind, RpcOrderRequestKindV,
};

verus! {

/// Where one order-stream session stands.
#[derive(Debug, PartialEq, Eq, Structural, Clone, Copy)]
pub enum SessionState {
    /// Nothing received yet; the first message must be a login.
    AwaitLogin,
    /// A login with this investor id and sequence number awaits the portal's
    /// verdict.
    LoginPending(InvId, SeqNum),
    /// The investor holds the session.
    Authenticated(InvId),
    /// The session is over; no further input is accepted.
    Closed,
}

/// What a session receives: a wire message, the portal's login verdict, or
/// the end of the transport stream.
pub enum SessionInput {
    Inbound(RpcOrderRequest),
    LoginResult(bool),
    StreamEnd,
}

/// What the I/O layer must do next.
pub enum SessionAction {
    /// Ask the portal whether this investor and password may log in, then
    /// feed the verdict back as `LoginResult`.
    AttemptLogin(InvId, Password, SeqNum),
    /// Register the investor's channel and send a login acknowledgement.
    AcceptLogin(InvId, SeqNum),
    /// Send a login rejection with this reason and close the session.
    RejectLogin(SeqNum, String),
    /// Hand the request to the portal and fan its tasks out.
    Dispatch(InvId, SeqNum, PortalRequest),
    /// Close the session without another word.
    Close,
}

/// View of a [`SessionInput`].
pub enum SessionInputV {
    Inbound(Option<RpcOrderRequestKindV>),
    LoginResult(bool),
    StreamEnd,
}

impl View for SessionInput {
    type V = SessionInputV;

    open spec fn view(&self) -> SessionInputV {
        match self {
            SessionInput::Inbound(m) => SessionInputV::Inbound(m@),
            SessionInput::LoginResult(b) => SessionInputV::LoginResult(*b),
            SessionInput::StreamEnd => SessionInputV::StreamEnd,
        }
    }
}

/// View of a [`SessionAction`].
pub enum SessionActionV {
    AttemptLogin(InvId, Seq<char>, SeqNum),
    AcceptLogin(InvId, SeqNum),
    RejectLogin(SeqNum, Seq<char>),
    Dispatch(InvId, SeqNum, PortalRequestV),
    Close,
}

impl View for SessionAction {
    type V = SessionActionV;

    open spec fn view(&self) -> SessionActionV {
        match self {
            SessionAction::AttemptLogin(i, p, n) => SessionActionV::AttemptLogin(*i, p@, *n),
            SessionAction::AcceptLogin(i, n) => SessionActionV::AcceptLogin(*i, *n),
            SessionAction::RejectLogin(n, m) => SessionActionV::RejectLogin(*n, m@),
            SessionAction::Dispatch(i, n, r) => SessionActionV::Dispatch(*i, *n, r@),
            SessionAction::Close => SessionActionV::Close,
        }
    }
}

/// The session machine: a session not yet authenticated accepts only a
/// login; a failed verdict or a stream end closes it; an authenticated one
/// forwards each request to the portal under its sequence number.
pub open spec fn session_step_spec(
    state: SessionState,
    input: SessionInputV,
    timestamp: Timestamp,
) -> (SessionState, SessionActionV) {
    match (state, input) {
        (SessionState::AwaitLogin, SessionInputV::Inbound(m)) => match m {
            Some(RpcOrderRequestKindV::Login { seqnum, investor_id, password }) => (
                SessionState::LoginPending(investor_id, seqnum),
                SessionActionV::AttemptLogin(investor_id, password, seqnum),
            ),
            _ => (
                SessionState::Closed,
                SessionActionV::RejectLogin(0, "invalid first request"@),
            ),
        },
        (SessionState::LoginPending(inv_id, seqnum), SessionInputV::LoginResult(ok)) => {
            if ok {
                (SessionState::Authenticated(inv_id), SessionActionV::AcceptLogin(inv_id, seqnum))
            } else {
                (SessionState::Closed, SessionActionV::RejectLogin(seqnum, "login failed"@))
            }
        },
        (SessionState::Authenticated(inv_id), SessionInputV::Inbound(m)) => (
            SessionState::Authenticated(inv_id),
            SessionActionV::Dispatch(
                inv_id,
                spec_seqnum(m->Some_0),
                parsed_order_request(inv_id, m, timestamp),
            ),
        ),
        _ => (SessionState::Closed, SessionActionV::Close),
    }
}

/// In these states the machine accepts the input: an authenticated session
/// only takes parsable order or cancel messages (the transport decodes them,
/// so an undecodable frame never reaches this step), and a pending login
/// only takes the portal's verdict.
pub open spec fn session_input_ok(state: SessionState, input: SessionInputV) -> bool {
    match (state, input) {
        (SessionState::Authenticated(_), SessionInputV::Inbound(m)) => parsable_order_request(m),
        (SessionState::LoginPending(_, _), SessionInputV::Inbound(_)) => false,
        (_, SessionInputV::LoginResult(_)) => state is LoginPending,
        _ => true,
    }
}

/// Drive one session one step.
pub fn session_step(state: SessionState, input: SessionInput, timestamp: Timestamp) -> (r: (
    SessionState,
    SessionAction,
))
    requires
        session_input_ok(state, input@),
    ensures
        r.0 == session_step_spec(state, input@, timestamp).0,
        r.1@ == session_step_spec(state, input@, timestamp).1,
{
    match (state, input) {
        (SessionState::AwaitLogin, SessionInput::Inbound(m)) => match m.request {
            Some(RpcOrderRequestKind::Login { seqnum, investor_id, password }) => (
                SessionState::LoginPending(investor_id, seqnum),
                SessionAction::AttemptLogin(investor_id, password, seqnum),
            ),
            _ => (
                SessionState::Closed,
                SessionAction::RejectLogin(0, String::from_str("invalid first request")),
            ),
        },
        (SessionState::LoginPending(inv_id, seqnum), SessionInput::LoginResult(ok)) => {
            if ok {
                (SessionState::Authenticated(inv_id), SessionAction::AcceptLogin(inv_id, seqnum))
            } else {
                (
                    SessionState::Closed,
                    SessionAction::RejectLogin(seqnum, String::from_str("login failed")),
                )
            }
        },
        (SessionState::Authenticated(inv_id), SessionInput::Inbound(m)) => {
            let seqnum = parse_seqnum(&m);
            let portal_req = parse_order_request(inv_id, m, timestamp);
            (
                SessionState::Authenticated(inv_id),
                SessionAction::Dispatch(inv_id, seqnum, portal_req),
            )
        },
        (_, _) => (SessionState::Closed, SessionAction::Close),
    }
}

} // verus!
