//! The per-session state machine of the order stream.

use ses::portal_types::PortalRequest;
use ses::session::{session_step, SessionAction, SessionInput, SessionState};
use ses::wire::{RpcOrderRequest, RpcOrderRequestKind};

fn login_msg(seqnum: u64, investor_id: u64, password: &str) -> RpcOrderRequest {
    RpcOrderRequest {
        request: Some(RpcOrderRequestKind::Login {
            seqnum,
            investor_id,
            password: password.to_string(),
        }),
    }
}

#[test]
fn test_session_login_flow() {
    let (state, action) = session_step(
        SessionState::AwaitLogin,
        SessionInput::Inbound(login_msg(0, 1, "pw1")),
        10,
    );
    assert_eq!(state, SessionState::LoginPending(1, 0));
    match action {
        SessionAction::AttemptLogin(inv_id, password, seqnum) => {
            assert_eq!(inv_id, 1);
            assert_eq!(password, "pw1");
            assert_eq!(seqnum, 0);
        }
        other => panic!("unexpected action {:?}", action_name(&other)),
    }

    let (state, action) = session_step(state, SessionInput::LoginResult(true), 11);
    assert_eq!(state, SessionState::Authenticated(1));
    assert!(matches!(action, SessionAction::AcceptLogin(1, 0)));

    let (state, action) = session_step(
        state,
        SessionInput::Inbound(RpcOrderRequest {
            request: Some(RpcOrderRequestKind::CancelOrder {
                seqnum: 1,
                order_id: 4,
            }),
        }),
        12,
    );
    assert_eq!(state, SessionState::Authenticated(1));
    match action {
        SessionAction::Dispatch(inv_id, seqnum, PortalRequest::CancelOrder(i, o)) => {
            assert_eq!(inv_id, 1);
            assert_eq!(seqnum, 1);
            assert_eq!(i, 1);
            assert_eq!(o, 4);
        }
        other => panic!("unexpected action {:?}", action_name(&other)),
    }

    let (state, action) = session_step(state, SessionInput::StreamEnd, 13);
    assert_eq!(state, SessionState::Closed);
    assert!(matches!(action, SessionAction::Close));
}

#[test]
fn test_session_invalid_first_request() {
    let (state, action) = session_step(
        SessionState::AwaitLogin,
        SessionInput::Inbound(RpcOrderRequest {
            request: Some(RpcOrderRequestKind::CancelOrder {
                seqnum: 5,
                order_id: 1,
            }),
        }),
        10,
    );
    assert_eq!(state, SessionState::Closed);
    match action {
        SessionAction::RejectLogin(seqnum, reason) => {
            assert_eq!(seqnum, 0);
            assert_eq!(reason, "invalid first request");
        }
        other => panic!("unexpected action {:?}", action_name(&other)),
    }
}

#[test]
fn test_session_login_failed() {
    let (state, _) = session_step(
        SessionState::AwaitLogin,
        SessionInput::Inbound(login_msg(2, 1, "wrong")),
        10,
    );
    let (state, action) = session_step(state, SessionInput::LoginResult(false), 11);
    assert_eq!(state, SessionState::Closed);
    match action {
        SessionAction::RejectLogin(seqnum, reason) => {
            assert_eq!(seqnum, 2);
            assert_eq!(reason, "login failed");
        }
        other => panic!("unexpected action {:?}", action_name(&other)),
    }
}

fn action_name(a: &SessionAction) -> &'static str {
    match a {
        SessionAction::AttemptLogin(..) => "AttemptLogin",
        SessionAction::AcceptLogin(..) => "AcceptLogin",
        SessionAction::RejectLogin(..) => "RejectLogin",
        SessionAction::Dispatch(..) => "Dispatch",
        SessionAction::Close => "Close",
    }
}
