use voltguard::api::{
    Capability, ComponentId, IpcRequest, IpcResponse, PowerProfile, ProtocolVersion,
};
use voltguard::ipc::{
    connection_step, ConnectionAction, ConnectionPhase, check_hello_reply, choose_socket_path, expect_components, expect_profile, expect_success,
    expect_total_power, hello_response, outcome_response, parse_profile_name, route_request,
    ClientError, RequestRoute,
};

fn error_text(r: &IpcResponse) -> &str {
    match r {
        IpcResponse::Error(t) => t,
        other => panic!("unexpected {other:?}"),
    }
}

#[test]
fn hello_with_same_major_is_acknowledged() {
    let (r, go_on) = hello_response(&IpcRequest::Hello(ProtocolVersion { major: 1, minor: 7 }));
    assert!(go_on);
    assert!(matches!(r, IpcResponse::HelloAck(ProtocolVersion { major: 1, minor: 1 })));
}

#[test]
fn hello_with_other_major_or_no_hello_ends_the_connection() {
    let (r, go_on) = hello_response(&IpcRequest::Hello(ProtocolVersion { major: 2, minor: 0 }));
    assert!(!go_on);
    assert_eq!(error_text(&r), "Protocol major mismatch");
    let (r, go_on) = hello_response(&IpcRequest::GetProfile);
    assert!(!go_on);
    assert_eq!(error_text(&r), "Expected Hello");
}

#[test]
fn reads_are_served_to_everyone() {
    for root in [true, false] {
        assert!(matches!(route_request(IpcRequest::GetProfile, root), RequestRoute::GetProfile));
        assert!(matches!(route_request(IpcRequest::GetComponents, root), RequestRoute::GetComponents));
        assert!(matches!(route_request(IpcRequest::GetTotalPower, root), RequestRoute::GetTotalPower));
    }
}

#[test]
fn changes_need_root() {
    assert!(matches!(
        route_request(IpcRequest::SetProfile(PowerProfile::PowerSave), true),
        RequestRoute::SetProfile(PowerProfile::PowerSave)
    ));
    let apply = || IpcRequest::ApplyCapability {
        id: ComponentId(8),
        capability: Capability::Apm { level: 1 },
    };
    match route_request(apply(), true) {
        RequestRoute::ApplyCapability { id, capability } => {
            assert_eq!(id, ComponentId(8));
            assert_eq!(capability, Capability::Apm { level: 1 });
        }
        other => panic!("unexpected {other:?}"),
    }
    for req in [IpcRequest::SetProfile(PowerProfile::Performance), apply()] {
        match route_request(req, false) {
            RequestRoute::Reply(r) => assert_eq!(error_text(&r), "Permission denied"),
            other => panic!("unexpected {other:?}"),
        }
    }
}

#[test]
fn second_hello_is_refused() {
    match route_request(IpcRequest::Hello(ProtocolVersion { major: 1, minor: 1 }), true) {
        RequestRoute::Reply(r) => assert_eq!(error_text(&r), "Already said hello"),
        other => panic!("unexpected {other:?}"),
    }
}

#[test]
fn outcomes_become_responses() {
    assert!(matches!(outcome_response(Ok(())), IpcResponse::Success));
    assert_eq!(error_text(&outcome_response(Err("boom".into()))), "boom");
}

#[test]
fn client_reads_replies() {
    assert!(check_hello_reply(IpcResponse::HelloAck(ProtocolVersion { major: 1, minor: 9 })).is_ok());
    assert!(matches!(
        check_hello_reply(IpcResponse::HelloAck(ProtocolVersion { major: 2, minor: 0 })),
        Err(ClientError::UnexpectedHello(IpcResponse::HelloAck(_)))
    ));
    assert!(matches!(check_hello_reply(IpcResponse::Error("no".into())), Err(ClientError::HelloRejected(t)) if t == "no"));
    assert!(matches!(check_hello_reply(IpcResponse::Success), Err(ClientError::UnexpectedHello(IpcResponse::Success))));
    assert_eq!(expect_profile(IpcResponse::Profile(PowerProfile::Custom)).unwrap(), PowerProfile::Custom);
    assert!(matches!(expect_profile(IpcResponse::Error("x".into())), Err(ClientError::Remote(t)) if t == "x"));
    assert!(matches!(expect_profile(IpcResponse::Success), Err(ClientError::Unexpected(IpcResponse::Success))));
    assert!(expect_success(IpcResponse::Success).is_ok());
    assert!(matches!(expect_success(IpcResponse::TotalPower(0)), Err(ClientError::Unexpected(_))));
    assert!(expect_components(IpcResponse::Components(vec![])).unwrap().is_empty());
    assert!(matches!(expect_components(IpcResponse::Error("e".into())), Err(ClientError::Remote(_))));
    assert_eq!(expect_total_power(IpcResponse::TotalPower(12.5f64.to_bits())).unwrap(), 12.5f64.to_bits());
    assert!(matches!(expect_total_power(IpcResponse::Success), Err(ClientError::Unexpected(_))));
}

#[test]
fn socket_path_preference() {
    assert_eq!(choose_socket_path(Some("a"), Some("b"), "c"), "a");
    assert_eq!(choose_socket_path(None, Some("b"), "c"), "b");
    assert_eq!(choose_socket_path(None, None, "c"), "c");
}

#[test]
fn profile_names_ignore_case() {
    assert_eq!(parse_profile_name("performance"), Some(PowerProfile::Performance));
    assert_eq!(parse_profile_name("Balanced"), Some(PowerProfile::Balanced));
    assert_eq!(parse_profile_name("POWERSAVE"), Some(PowerProfile::PowerSave));
    assert_eq!(parse_profile_name("power-save"), None);
    assert_eq!(parse_profile_name("custom"), None);
    assert_eq!(parse_profile_name(""), None);
    assert_eq!(parse_profile_name(" balanced"), None);
}

#[test]
fn connection_requires_hello_before_serving() {
    let (p, a) = connection_step(ConnectionPhase::AwaitingHello, Ok(IpcRequest::GetProfile), true);
    assert_eq!(p, ConnectionPhase::Closed);
    assert!(matches!(a, ConnectionAction::Respond(IpcResponse::Error(t)) if t == "Expected Hello"));
    let (p, a) = connection_step(ConnectionPhase::AwaitingHello, Err("EOF while parsing".into()), true);
    assert_eq!(p, ConnectionPhase::Closed);
    assert!(matches!(a, ConnectionAction::Fail(t) if t == "EOF while parsing"));
    let (p, a) = connection_step(
        ConnectionPhase::AwaitingHello,
        Ok(IpcRequest::Hello(ProtocolVersion { major: 3, minor: 0 })),
        true,
    );
    assert_eq!(p, ConnectionPhase::Closed);
    assert!(matches!(a, ConnectionAction::Respond(IpcResponse::Error(t)) if t == "Protocol major mismatch"));
    let (p, a) = connection_step(
        ConnectionPhase::AwaitingHello,
        Ok(IpcRequest::Hello(ProtocolVersion { major: 1, minor: 0 })),
        false,
    );
    assert_eq!(p, ConnectionPhase::Serving);
    assert!(matches!(a, ConnectionAction::Respond(IpcResponse::HelloAck(v)) if v.major == 1 && v.minor == 1));
    let (p, a) = connection_step(ConnectionPhase::Serving, Err("expected value".into()), false);
    assert_eq!(p, ConnectionPhase::Serving);
    assert!(matches!(a, ConnectionAction::Respond(IpcResponse::Error(t)) if t == "Parse error: expected value"));
    let (p, a) = connection_step(ConnectionPhase::Serving, Ok(IpcRequest::SetProfile(PowerProfile::Balanced)), false);
    assert_eq!(p, ConnectionPhase::Serving);
    assert!(matches!(a, ConnectionAction::Serve(RequestRoute::Reply(IpcResponse::Error(t))) if t == "Permission denied"));
    let (p, a) = connection_step(ConnectionPhase::Closed, Ok(IpcRequest::GetProfile), true);
    assert_eq!(p, ConnectionPhase::Closed);
    assert!(matches!(a, ConnectionAction::Ignore));
}

#[test]
fn session_after_hello_answers_every_line() {
    let lines: Vec<Result<IpcRequest, String>> = vec![
        Ok(IpcRequest::Hello(ProtocolVersion { major: 1, minor: 0 })),
        Ok(IpcRequest::GetProfile),
        Err("expected value".to_string()),
        Ok(IpcRequest::SetProfile(PowerProfile::PowerSave)),
        Ok(IpcRequest::GetComponents),
    ];
    let mut phase = ConnectionPhase::AwaitingHello;
    let mut actions = Vec::new();
    for line in lines {
        let (next, action) = connection_step(phase, line, false);
        assert_eq!(next, ConnectionPhase::Serving);
        phase = next;
        actions.push(action);
    }
    assert_eq!(actions.len(), 5);
    assert!(matches!(&actions[0], ConnectionAction::Respond(IpcResponse::HelloAck(v)) if v.major == 1 && v.minor == 1));
    assert!(matches!(&actions[1], ConnectionAction::Serve(RequestRoute::GetProfile)));
    assert!(matches!(&actions[2], ConnectionAction::Respond(IpcResponse::Error(t)) if t == "Parse error: expected value"));
    assert!(matches!(&actions[3], ConnectionAction::Serve(RequestRoute::Reply(IpcResponse::Error(t))) if t == "Permission denied"));
    assert!(matches!(&actions[4], ConnectionAction::Serve(RequestRoute::GetComponents)));
}
