use portbridge::duplex::{
    copy_direction, duplex_result, splice_step, CopyEvent, DirOutcome, SpliceAction,
};
use portbridge::opt::Opt;
use portbridge::readiness::{
    accept_step, bridge_run, bridge_step, AcceptStep, Attempt, BridgeStep, ACCEPT_POLL_MILLIS,
};
use portbridge::tls_state::{
    tls_data_step, tls_flush_step, HandshakeEvent, TlsFlushAction, TlsIoAction, TlsState,
};
use portbridge::tunnel::{
    run_accept_loop, tunnel_accept_step, tunnel_dial_step, AcceptOutcome, DialStep, SessionError,
    SessionModel, TunnelStep, Tunnel,
};

#[test]
fn bridge_retries_would_block_and_returns_first_decisive() {
    assert!(matches!(
        bridge_step::<u8, i32>(Attempt::Ready(7)),
        BridgeStep::Return(Ok(7))
    ));
    assert!(matches!(
        bridge_step::<u8, i32>(Attempt::WouldBlock),
        BridgeStep::ClearAndRetry
    ));
    assert!(matches!(
        bridge_step::<u8, i32>(Attempt::Failed(-5)),
        BridgeStep::Return(Err(-5))
    ));
    let attempts: Vec<Attempt<u8, i32>> = vec![
        Attempt::WouldBlock,
        Attempt::WouldBlock,
        Attempt::Ready(3),
        Attempt::Failed(-1),
    ];
    assert!(matches!(bridge_run(attempts), Some(Ok(3))));
    let only_blocks: Vec<Attempt<u8, i32>> = vec![Attempt::WouldBlock];
    assert!(bridge_run(only_blocks).is_none());
    let err_first: Vec<Attempt<u8, i32>> = vec![Attempt::Failed(-2), Attempt::Ready(1)];
    assert!(matches!(bridge_run(err_first), Some(Err(-2))));
}

#[test]
fn accept_bridge_sleeps_bounded_on_would_block() {
    assert!(matches!(
        accept_step::<u8, i32>(Attempt::WouldBlock),
        AcceptStep::SleepAndRetry(ACCEPT_POLL_MILLIS)
    ));
    assert_eq!(ACCEPT_POLL_MILLIS, 10);
    assert!(matches!(
        accept_step::<u8, i32>(Attempt::Ready(1)),
        AcceptStep::Return(Ok(1))
    ));
    assert!(matches!(
        accept_step::<u8, i32>(Attempt::Failed(9)),
        AcceptStep::Return(Err(9))
    ));
}

#[test]
fn tls_stream_transitions_to_streaming_exactly_once() {
    let (s1, a1) = tls_data_step::<i32>(TlsState::Handshaking, HandshakeEvent::Pending);
    assert_eq!(s1, TlsState::Handshaking);
    assert!(matches!(a1, TlsIoAction::Suspend));
    let (s2, a2) = tls_data_step::<i32>(s1, HandshakeEvent::Completed);
    assert_eq!(s2, TlsState::Streaming);
    assert!(matches!(a2, TlsIoAction::DelegateToStream));
    // Once streaming, further observations never leave the state.
    let (s3, a3) = tls_data_step::<i32>(s2, HandshakeEvent::Failed(-1));
    assert_eq!(s3, TlsState::Streaming);
    assert!(matches!(a3, TlsIoAction::DelegateToStream));
}

#[test]
fn tls_handshake_failure_returns_error_without_transition() {
    let (s, a) = tls_data_step::<i32>(TlsState::Handshaking, HandshakeEvent::Failed(-7));
    assert_eq!(s, TlsState::Handshaking);
    assert!(matches!(a, TlsIoAction::ReturnError(-7)));
}

#[test]
fn tls_flush_and_close_are_noops_while_handshaking() {
    assert_eq!(
        tls_flush_step(TlsState::Handshaking),
        TlsFlushAction::NoopSuccess
    );
    assert_eq!(
        tls_flush_step(TlsState::Streaming),
        TlsFlushAction::DelegateToStream
    );
}

#[test]
fn copy_direction_forwards_all_bytes_up_to_eof() {
    let events = vec![
        CopyEvent::Data(vec![1, 2, 3]),
        CopyEvent::Data(vec![]),
        CopyEvent::Data(vec![4]),
        CopyEvent::Eof,
        CopyEvent::Data(vec![9]),
    ];
    let (bytes, outcome) = copy_direction(events);
    assert_eq!(bytes, vec![1, 2, 3, 4]);
    assert_eq!(outcome, DirOutcome::CleanEof);
}

#[test]
fn copy_direction_keeps_bytes_up_to_failure() {
    let events = vec![
        CopyEvent::Data(vec![5, 6]),
        CopyEvent::Fail(-13),
        CopyEvent::Data(vec![7]),
    ];
    let (bytes, outcome) = copy_direction(events);
    assert_eq!(bytes, vec![5, 6]);
    assert_eq!(outcome, DirOutcome::Error(-13));
}

#[test]
fn copy_direction_without_terminal_event_stays_open() {
    let (bytes, outcome) = copy_direction(vec![CopyEvent::Data(vec![8])]);
    assert_eq!(bytes, vec![8]);
    assert_eq!(outcome, DirOutcome::StillOpen);
}

#[test]
fn duplex_succeeds_only_when_both_directions_end_cleanly() {
    assert_eq!(
        duplex_result(DirOutcome::CleanEof, DirOutcome::CleanEof),
        Ok(())
    );
    assert_eq!(
        duplex_result(DirOutcome::Error(-1), DirOutcome::CleanEof),
        Err(-1)
    );
    assert_eq!(
        duplex_result(DirOutcome::CleanEof, DirOutcome::Error(-2)),
        Err(-2)
    );
    assert_eq!(
        duplex_result(DirOutcome::Error(-1), DirOutcome::Error(-2)),
        Err(-1)
    );
}

#[test]
fn splice_halts_other_direction_after_peer_failure() {
    let (own, action) = splice_step(
        DirOutcome::StillOpen,
        DirOutcome::Error(-9),
        CopyEvent::Data(vec![1]),
    );
    assert_eq!(own, DirOutcome::StillOpen);
    assert!(matches!(action, SpliceAction::Halt));
    // With a healthy peer the chunk flows through unmodified.
    let (own2, action2) = splice_step(
        DirOutcome::StillOpen,
        DirOutcome::StillOpen,
        CopyEvent::Data(vec![1, 2]),
    );
    assert_eq!(own2, DirOutcome::StillOpen);
    match action2 {
        SpliceAction::Forward(bytes) => assert_eq!(bytes, vec![1, 2]),
        SpliceAction::Halt => panic!("chunk was not forwarded"),
    }
    let (own3, action3) = splice_step(
        DirOutcome::StillOpen,
        DirOutcome::StillOpen,
        CopyEvent::Eof,
    );
    assert_eq!(own3, DirOutcome::CleanEof);
    assert!(matches!(action3, SpliceAction::Halt));
}

#[test]
fn session_handshake_then_auth_then_forward() {
    let mut session = SessionModel::new();
    assert!(!session.authenticated());
    session.complete_handshake();
    assert!(!session.authenticated());
    assert_eq!(session.complete_auth(true), Ok(()));
    assert!(session.authenticated());
    let listener = session.open_forward_listener(8081);
    assert_eq!(listener.port, 8081);
}

#[test]
fn rejected_auth_is_an_error_and_keeps_state() {
    let mut session = SessionModel::new();
    session.complete_handshake();
    assert_eq!(session.complete_auth(false), Err(SessionError::AuthRejected));
    assert!(!session.authenticated());
    // The session can still try again.
    assert_eq!(session.complete_auth(true), Ok(()));
    assert!(session.authenticated());
}

#[test]
fn tunnel_keeps_ports_and_needs_authenticated_session() {
    let mut session = SessionModel::new();
    session.complete_handshake();
    session.complete_auth(true).unwrap();
    let tunnel = Tunnel::new(8080, 8081, session);
    assert_eq!(tunnel.client_port(), 8080);
    assert_eq!(tunnel.server_port(), 8081);
    let listener = tunnel.start_listener(49152);
    assert_eq!(listener.port, 49152);
}

#[test]
fn accept_loop_survives_transient_failures() {
    assert_eq!(
        tunnel_accept_step(AcceptOutcome::TransientError(-1)),
        TunnelStep::ContinueListening
    );
    assert_eq!(
        tunnel_accept_step(AcceptOutcome::Accepted),
        TunnelStep::DialLocal
    );
    assert_eq!(
        tunnel_accept_step(AcceptOutcome::SessionFatal(-2)),
        TunnelStep::StopTunnel(-2)
    );
    let outcomes = vec![
        AcceptOutcome::TransientError(-1),
        AcceptOutcome::TransientError(-3),
        AcceptOutcome::TransientError(-4),
        AcceptOutcome::Accepted,
    ];
    assert_eq!(run_accept_loop(&outcomes), (1, None));
}

#[test]
fn accept_loop_stops_only_on_session_fatal_error() {
    let outcomes = vec![
        AcceptOutcome::Accepted,
        AcceptOutcome::TransientError(-1),
        AcceptOutcome::Accepted,
        AcceptOutcome::SessionFatal(-8),
        AcceptOutcome::Accepted,
    ];
    assert_eq!(run_accept_loop(&outcomes), (2, Some(-8)));
    assert_eq!(run_accept_loop(&vec![]), (0, None));
}

#[test]
fn dial_failure_abandons_only_that_connection() {
    assert_eq!(tunnel_dial_step(Ok(())), DialStep::Splice);
    assert_eq!(tunnel_dial_step(Err(-11)), DialStep::AbandonConnection(-11));
}

#[test]
fn opt_carries_the_config_path_in_both_modes() {
    let client = Opt::Client {
        config: "proxy.toml".to_string(),
    };
    assert_eq!(client.config_path().as_str(), "proxy.toml");
    let server = Opt::Server {
        config: "proxy.toml".to_string(),
        port: 9000,
        tls: true,
    };
    assert_eq!(server.config_path().as_str(), "proxy.toml");
}
