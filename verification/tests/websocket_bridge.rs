use inspect_core::acl::{AclDstHostRuleSet, AclExactHostRule};
use inspect_core::action::ProtocolInspectAction;
use inspect_core::error::{ErrorClass, ServerTaskError};
use inspect_core::net::{Host, UpstreamAddr};
use inspect_core::websocket::close_frame::decode_close_status;
use inspect_core::websocket::h2::{
    block_result, blocked_error, close_on_detour_error, close_result, do_block,
};
use inspect_core::websocket::{
    BridgeAction, BridgeEvent, CloseFrames, CloseReason, ClientCloseFrame, DetourAction,
    H2WebsocketInterceptObject, ServerCloseFrame,
};

fn object(action: ProtocolInspectAction) -> H2WebsocketInterceptObject {
    let mut exact = AclExactHostRule::new(ProtocolInspectAction::Intercept);
    exact.add_domain("ws.example.com".to_string(), action);
    let mut policy = AclDstHostRuleSet::new(ProtocolInspectAction::Intercept);
    policy.set_exact(exact);
    let upstream = UpstreamAddr::new(Host::Domain("ws.example.com".to_string()), 443);
    H2WebsocketInterceptObject::new(&policy, upstream)
}

#[test]
fn close_frame_bytes() {
    assert_eq!(
        ServerCloseFrame::encode_with_status_code(1001),
        [0x88, 0x02, 0x03, 0xe9]
    );
    assert_eq!(
        ServerCloseFrame::encode_with_status_code(1011),
        [0x88, 0x02, 0x03, 0xf3]
    );
    assert_eq!(
        ClientCloseFrame::encode_with_status_code(1001),
        [0x88, 0x82, 0x00, 0x00, 0x00, 0x00, 0x03, 0xe9]
    );
    assert_eq!(
        ClientCloseFrame::encode_with_status_code(0xffff),
        [0x88, 0x82, 0x00, 0x00, 0x00, 0x00, 0xff, 0xff]
    );
}

#[test]
fn close_frames_decode_to_their_status() {
    for status in [0u16, 1, 255, 256, 1000, 1001, 1011, 4999, 0xffff] {
        assert_eq!(
            decode_close_status(&ServerCloseFrame::encode_with_status_code(status)),
            Some(status)
        );
        assert_eq!(
            decode_close_status(&ClientCloseFrame::encode_with_status_code(status)),
            Some(status)
        );
    }
    // a masked frame with a mask that is not zero
    assert_eq!(
        decode_close_status(&[0x88, 0x82, 0x01, 0x02, 0x03, 0x04, 0x02, 0xeb]),
        Some(1001)
    );
    // a reason behind the status
    assert_eq!(decode_close_status(&[0x88, 0x04, 0x03, 0xe8, b'o', b'k']), Some(1000));
    assert_eq!(decode_close_status(&[0x88, 0x00]), None);
    assert_eq!(decode_close_status(&[0x88, 0x01, 0x03]), None);
    assert_eq!(decode_close_status(&[0x88, 0x02, 0x03]), None);
    assert_eq!(decode_close_status(&[0x88, 0x02, 0x03, 0xe9, 0x00]), None);
    assert_eq!(decode_close_status(&[0x81, 0x02, 0x03, 0xe9]), None);
    assert_eq!(decode_close_status(&[0x08, 0x02, 0x03, 0xe9]), None);
    assert_eq!(decode_close_status(&[0x88]), None);
    assert_eq!(decode_close_status(&[0x88, 0x7e, 0x00, 0x02, 0x03, 0xe9]), None);
}

#[test]
fn websocket_block() {
    let mut obj = object(ProtocolInspectAction::Block);
    assert_eq!(obj.inspect_action(), ProtocolInspectAction::Block);
    assert_eq!(obj.upstream_addr().port(), 443);
    assert!(!obj.finished());
    let action = obj.intercept();
    assert_eq!(
        action,
        BridgeAction::Close {
            finish_detour: false,
            frames: CloseFrames {
                to_upstream: [0x88, 0x82, 0x00, 0x00, 0x00, 0x00, 0x03, 0xe9],
                to_client: [0x88, 0x02, 0x03, 0xe9],
            },
            reason: CloseReason::Blocked,
        }
    );
    assert!(obj.finished());
    assert_eq!(
        blocked_error(),
        ServerTaskError::InternalAdapterError("websocket blocked by inspection policy".to_string())
    );
    assert_eq!(blocked_error().class(), ErrorClass::InternalAdapter);
    assert_eq!(do_block().to_client, [0x88, 0x02, 0x03, 0xe9]);
    assert_eq!(obj.step(BridgeEvent::TransitEnded), BridgeAction::Ignore);
    assert!(obj.finished());
}

#[test]
fn blocked_flow_ends_with_the_error_of_the_policy() {
    let expected = Err(ServerTaskError::InternalAdapterError(
        "websocket blocked by inspection policy".to_string(),
    ));
    for upstream_sent in [false, true] {
        for client_sent in [false, true] {
            assert_eq!(block_result(upstream_sent, client_sent), expected);
            assert_eq!(
                close_result(CloseReason::Blocked, "unused", upstream_sent, client_sent),
                expected
            );
            assert_eq!(
                close_result(CloseReason::DetourFailed, "no route", upstream_sent, client_sent),
                Err(ServerTaskError::InternalAdapterError("no route".to_string()))
            );
        }
    }
    let mut obj = object(ProtocolInspectAction::Block);
    assert!(obj.matched());
    match obj.intercept() {
        BridgeAction::Close { reason, .. } => {
            assert_eq!(close_result(reason, "", true, true), expected)
        }
        other => panic!("{other:?}"),
    }
    assert!(obj.matched());
}

#[test]
fn websocket_intercept_and_bypass_pass_bytes_on() {
    for action in [ProtocolInspectAction::Intercept, ProtocolInspectAction::Bypass] {
        let mut obj = object(action);
        assert_eq!(obj.intercept(), BridgeAction::Transit { finish_detour: false });
        assert!(!obj.finished());
        assert_eq!(obj.intercept(), BridgeAction::Ignore);
        assert_eq!(obj.step(BridgeEvent::DetourOpened), BridgeAction::Ignore);
        assert_eq!(obj.step(BridgeEvent::TransitEnded), BridgeAction::Report);
        assert!(obj.finished());
    }
}

#[test]
fn websocket_detour() {
    let mut obj = object(ProtocolInspectAction::Detour);
    assert_eq!(obj.intercept(), BridgeAction::OpenDetour);
    assert_eq!(obj.do_detour(BridgeEvent::DetourOpened), BridgeAction::CheckDetour);
    assert_eq!(
        obj.do_detour(BridgeEvent::DetourVerdict(DetourAction::Continue)),
        BridgeAction::Relay
    );
    assert_eq!(obj.step(BridgeEvent::TransitEnded), BridgeAction::Report);
    assert!(obj.finished());

    let mut obj = object(ProtocolInspectAction::Detour);
    obj.intercept();
    assert_eq!(
        obj.do_detour(BridgeEvent::NoDetourClient),
        BridgeAction::Transit { finish_detour: false }
    );

    let mut obj = object(ProtocolInspectAction::Detour);
    obj.intercept();
    obj.do_detour(BridgeEvent::DetourOpened);
    assert_eq!(
        obj.do_detour(BridgeEvent::DetourVerdict(DetourAction::Bypass)),
        BridgeAction::Transit { finish_detour: true }
    );
    assert!(!obj.finished());

    let mut obj = object(ProtocolInspectAction::Detour);
    obj.intercept();
    obj.do_detour(BridgeEvent::DetourOpened);
    assert_eq!(
        obj.do_detour(BridgeEvent::DetourVerdict(DetourAction::Block)),
        BridgeAction::Close {
            finish_detour: true,
            frames: do_block(),
            reason: CloseReason::Blocked,
        }
    );
    assert!(obj.finished());
}

#[test]
fn websocket_detour_failures_close_the_flow() {
    let frames = CloseFrames {
        to_upstream: [0x88, 0x82, 0x00, 0x00, 0x00, 0x00, 0x03, 0xe9],
        to_client: [0x88, 0x02, 0x03, 0xf3],
    };
    assert_eq!(close_on_detour_error(), frames);
    let mut obj = object(ProtocolInspectAction::Detour);
    obj.intercept();
    assert_eq!(
        obj.do_detour(BridgeEvent::DetourOpenFailed),
        BridgeAction::Close { finish_detour: false, frames, reason: CloseReason::DetourFailed }
    );
    assert!(obj.finished());

    let mut obj = object(ProtocolInspectAction::Detour);
    obj.intercept();
    obj.do_detour(BridgeEvent::DetourOpened);
    assert_eq!(
        obj.do_detour(BridgeEvent::DetourCheckFailed),
        BridgeAction::Close { finish_detour: true, frames, reason: CloseReason::DetourFailed }
    );
    assert!(obj.finished());
}

#[test]
fn websocket_policy_miss_uses_the_missed_action() {
    let policy = AclDstHostRuleSet::new(ProtocolInspectAction::Block);
    let upstream = UpstreamAddr::new(Host::Domain("other.example".to_string()), 80);
    let mut obj = H2WebsocketInterceptObject::new(&policy, upstream);
    assert_eq!(obj.inspect_action(), ProtocolInspectAction::Block);
    assert!(matches!(obj.intercept(), BridgeAction::Close { .. }));
}
