use tango_signaling_server::config::{Config, Environment};
use tango_signaling_server::handlers::messages::{
    handle_answer, handle_ice_candidate, handle_start, link_peers,
};
use tango_signaling_server::handlers::websocket::{
    accept, forward, handle, handle_packet, handle_ws_message, join, rejection,
    send_abort_packet, send_answer_packet, send_hello_packet, send_ice_candidate_packet,
    send_offer_packet, send_ping_packet, Action, Event, ForwardAction, ForwardEvent,
    OutgoingMessage, WsMessage, UNEXPECTED_PACKET,
};
use tango_signaling_server::handlers::{HandlerError, Outcome, Outgoing, Step};
use tango_signaling_server::hub::{Connection, MatchmakingHub};
use tango_signaling_server::models::{ConnectionId, IceServer, SessionAttachment};
use tango_signaling_server::pb::{
    self, Abort, AbortReason, Answer, Hello, IceCandidate, Offer, Packet, Ping, Reason, Start,
    Which,
};

const A: ConnectionId = ConnectionId { value: 1 };
const B: ConnectionId = ConnectionId { value: 2 };
const C: ConnectionId = ConnectionId { value: 3 };

fn start(sdp: &str, connection_id: Option<&str>) -> Start {
    Start {
        offer_sdp: sdp.to_string(),
        connection_id: connection_id.map(|s| s.to_string()),
    }
}

fn answer(sdp: &str) -> Answer {
    Answer {
        sdp: sdp.to_string(),
    }
}

fn candidate(text: &str) -> IceCandidate {
    IceCandidate {
        candidate: text.to_string(),
    }
}

fn to(id: ConnectionId, which: Which) -> Outgoing {
    Outgoing {
        to: id,
        packet: Packet { which: Some(which) },
    }
}

fn silent() -> Step {
    Step::silent(Ok(()))
}

fn hub_of(members: &[(&str, ConnectionId)]) -> MatchmakingHub {
    let mut hub = MatchmakingHub::new();
    for (session, id) in members {
        join(&mut hub, session, None, *id);
    }
    hub
}

fn config(min: Option<&str>) -> Config {
    Config::from_env(Environment {
        server_host: None,
        server_port: None,
        turn_addr: None,
        turn_user: None,
        turn_credential: None,
        turn_secret: None,
        turn_credential_ttl: None,
        debug: None,
        use_static_turn_credential: None,
        log_level: None,
        broadcast_server: None,
        server_name: None,
        server_description: None,
        server_country_code_alpha2: None,
        endpoint_address: None,
        min_protocol_version: min.map(|s| s.to_string()),
        max_protocol_version: None,
    })
}

fn received(which: Which) -> Event {
    Event::Received(WsMessage::Binary(Ok(Packet { which: Some(which) })))
}

fn offer_to(id: ConnectionId, sdp: &str) -> Step {
    let sdp = sdp.to_string();
    Step::required(to(id, Which::Offer(Offer { sdp })), Ok(()))
}

fn relayed_to(id: ConnectionId, text: &str) -> Step {
    Step::best_effort(to(id, Which::IceCandidate(candidate(text))))
}

#[test]
fn two_clients_exchange_descriptions_and_candidates() {
    let mut hub = hub_of(&[("s", A), ("s", B)]);
    assert_eq!(handle_start(A, &mut hub, "s", &start("offer", None)), silent());
    assert_eq!(hub.find_offerer("s").map(|c| c.id), Some(A));
    assert_eq!(
        handle_start(B, &mut hub, "s", &start("ignored", None)),
        offer_to(B, "offer")
    );
    assert_eq!(
        handle_answer(B, &mut hub, "s", &answer("answer")),
        Step::best_effort(to(A, Which::Answer(answer("answer"))))
    );
    assert_eq!(
        handle_ice_candidate(A, &hub, "s", &candidate("a")),
        relayed_to(B, "a")
    );
    assert_eq!(
        handle_ice_candidate(B, &hub, "s", &candidate("b")),
        relayed_to(A, "b")
    );
}

#[test]
fn a_duplicate_start_refreshes_the_offer() {
    let mut hub = hub_of(&[("s", A), ("s", B)]);
    handle_start(A, &mut hub, "s", &start("first", None));
    assert_eq!(
        handle_start(A, &mut hub, "s", &start("second", Some("x"))),
        silent()
    );
    let own = hub.find_offerer("s").unwrap();
    assert_eq!(own.attachment.offer_sdp, Some("second".to_string()));
    assert_eq!(own.attachment.connection_id, Some("x".to_string()));
    assert_eq!(
        handle_start(B, &mut hub, "s", &start("", None)),
        offer_to(B, "second")
    );
}

#[test]
fn a_reconnecting_offerer_replaces_its_offer() {
    let mut hub = hub_of(&[("s", A), ("s", B), ("s", C)]);
    handle_start(A, &mut hub, "s", &start("first", Some("x")));
    assert_eq!(
        handle_start(B, &mut hub, "s", &start("second", Some("x"))),
        silent()
    );
    let waiting = hub.find_offerer("s").unwrap();
    assert_eq!(waiting.id, A);
    assert_eq!(waiting.attachment.offer_sdp, Some("second".to_string()));
    assert_eq!(
        handle_start(C, &mut hub, "s", &start("", Some("y"))),
        offer_to(C, "second")
    );
}

#[test]
fn clients_without_an_identity_are_different_clients() {
    let mut hub = hub_of(&[("s", A), ("s", B)]);
    handle_start(A, &mut hub, "s", &start("first", None));
    assert_eq!(
        handle_start(B, &mut hub, "s", &start("second", None)),
        offer_to(B, "first")
    );
}

#[test]
fn the_empty_offer_is_an_offer() {
    let mut hub = hub_of(&[("s", A), ("s", B)]);
    handle_start(A, &mut hub, "s", &start("", None));
    assert_eq!(
        handle_start(B, &mut hub, "s", &start("x", None)),
        offer_to(B, "")
    );
}

#[test]
fn an_answer_needs_an_offer() {
    let mut hub = hub_of(&[("s", A), ("t", B)]);
    handle_start(B, &mut hub, "t", &start("elsewhere", None));
    assert_eq!(
        handle_answer(A, &mut hub, "s", &answer("x")),
        Step::silent(Err(HandlerError::UnexpectedAnswer))
    );
}

#[test]
fn a_session_holds_at_most_one_offer() {
    let mut hub = hub_of(&[("s", A), ("s", B), ("s", C), ("t", A)]);
    for id in [A, B, C, B, A] {
        handle_start(id, &mut hub, "s", &start("x", None));
    }
    handle_start(A, &mut hub, "t", &start("y", None));
    let offers = [A, B, C]
        .iter()
        .filter(|id| {
            let c = hub.find_connection_by_id("s", **id).unwrap();
            c.attachment.offer_sdp.is_some()
        })
        .count();
    assert_eq!(offers, 1);
    let t = hub.find_offerer("t").unwrap();
    assert_eq!(t.attachment.offer_sdp, Some("y".to_string()));
}

#[test]
fn candidates_fall_back_to_the_only_other_connection() {
    let hub = hub_of(&[("s", A), ("t", C), ("s", B)]);
    assert_eq!(
        handle_ice_candidate(A, &hub, "s", &candidate("x")),
        relayed_to(B, "x")
    );
    assert_eq!(handle_ice_candidate(C, &hub, "t", &candidate("x")), silent());
    let crowded = hub_of(&[("s", A), ("s", B), ("s", C)]);
    assert_eq!(
        handle_ice_candidate(A, &crowded, "s", &candidate("x")),
        silent()
    );
}

#[test]
fn a_pairing_outlasts_newcomers_and_ends_with_the_peer() {
    let mut hub = hub_of(&[("s", A), ("s", B)]);
    link_peers(A, B, &mut hub, "s");
    join(&mut hub, "s", None, C);
    assert_eq!(
        handle_ice_candidate(A, &hub, "s", &candidate("x")),
        relayed_to(B, "x")
    );
    hub.remove_connection("s", B);
    // The peer is gone: only the newcomer is left.
    assert_eq!(
        handle_ice_candidate(A, &hub, "s", &candidate("x")),
        relayed_to(C, "x")
    );
}

#[test]
fn other_sessions_are_untouched() {
    let mut hub = hub_of(&[("s", A), ("t", A), ("s", B)]);
    handle_start(A, &mut hub, "s", &start("x", Some("k")));
    handle_start(B, &mut hub, "s", &start("y", None));
    assert_eq!(
        hub.find_connection_by_id("t", A).unwrap().attachment,
        SessionAttachment::new("t".to_string())
    );
    hub.remove_connection("s", A);
    assert!(hub.find_connection_by_id("s", A).is_none());
    assert!(hub.find_connection_by_id("t", A).is_some());
}

#[test]
fn leaving_undoes_joining() {
    let mut hub = hub_of(&[("s", A)]);
    join(&mut hub, "s", Some(7), B);
    assert_eq!(
        hub.find_connection_by_id("s", B)
            .unwrap()
            .attachment
            .protocol_version,
        Some(7)
    );
    hub.remove_connection("s", B);
    assert!(hub.find_connection_by_id("s", B).is_none());
    assert!(hub.find_other_connection("s", A).is_none());
    assert_eq!(hub.find_other_connection("s", B).map(|c| c.id), Some(A));
}

#[test]
fn the_hub_keeps_what_it_is_given() {
    let mut hub = MatchmakingHub::new();
    let mut attachment = SessionAttachment::new("s".to_string());
    attachment.protocol_version = Some(5);
    let connection = Connection { id: A, attachment };
    hub.add_connection(connection.clone());
    assert_eq!(hub.find_connection_by_id("s", A), Some(&connection));
    hub.store_offer("s", A, &"o".to_string(), &Some("k".to_string()));
    hub.record_peer("s", A, B);
    let c = hub.find_offerer("s").unwrap();
    assert_eq!(c.attachment.offer_sdp, Some("o".to_string()));
    assert_eq!(c.attachment.connection_id, Some("k".to_string()));
    assert_eq!(c.attachment.peer_id, Some(B));
    assert_eq!(c.attachment.protocol_version, Some(5));
}

#[test]
fn outdated_clients_are_turned_away_without_a_trace() {
    let mut hub = hub_of(&[("s", A)]);
    let result = accept(&mut hub, &config(Some("50")), "s", Some(0x4f));
    let refusal = result.unwrap_err();
    assert_eq!(refusal.reason, Reason::ProtocolVersionTooOld);
    assert_eq!(refusal.packet, rejection(Reason::ProtocolVersionTooOld));
    assert!(hub.find_other_connection("s", A).is_none());
    assert_eq!(
        rejection(Reason::ProtocolVersionTooOld),
        Packet {
            which: Some(Which::Abort(Abort {
                reason: AbortReason::Named(Reason::ProtocolVersionTooOld)
            }))
        }
    );
}

#[test]
fn accepted_clients_join_under_random_identities() {
    let mut hub = MatchmakingHub::new();
    let c = config(Some("50"));
    let mut seen = Vec::new();
    for _ in 0..64 {
        let id = accept(&mut hub, &c, "s", Some(0x50)).unwrap();
        assert_eq!((id.value >> 76) & 0xf, 4);
        assert_eq!((id.value >> 62) & 0x3, 2);
        assert_eq!(
            uuid::Uuid::from_u128(id.value).get_version(),
            Some(uuid::Version::Random)
        );
        assert!(!seen.contains(&id));
        let joined = hub.find_connection_by_id("s", id).unwrap();
        assert_eq!(joined.attachment.protocol_version, Some(0x50));
        assert_eq!(joined.attachment.offer_sdp, None);
        assert_eq!(joined.attachment.peer_id, None);
        seen.push(id);
    }
}

#[test]
fn packets_are_addressed_and_filled() {
    let servers = vec![
        IceServer {
            urls: vec!["stun:a".to_string(), "stun:b".to_string()],
            username: None,
            credential: None,
        },
        IceServer {
            urls: vec![],
            username: Some("u".to_string()),
            credential: Some("c".to_string()),
        },
    ];
    let listed = vec![
        pb::IceServer {
            urls: vec!["stun:a".to_string(), "stun:b".to_string()],
            username: None,
            credential: None,
        },
        pb::IceServer {
            urls: vec![],
            username: Some("u".to_string()),
            credential: Some("c".to_string()),
        },
    ];
    assert_eq!(
        send_hello_packet(A, &servers),
        to(A, Which::Hello(Hello { ice_servers: listed }))
    );
    let sdp = "sdp".to_string();
    assert_eq!(send_offer_packet(B, "sdp"), to(B, Which::Offer(Offer { sdp })));
    assert_eq!(
        send_answer_packet(B, "sdp"),
        to(B, Which::Answer(answer("sdp")))
    );
    assert_eq!(send_ping_packet(C), to(C, Which::Ping(Ping {})));
    assert_eq!(
        send_ice_candidate_packet(A, "c"),
        to(A, Which::IceCandidate(candidate("c")))
    );
    assert_eq!(
        send_abort_packet(A, -3),
        to(
            A,
            Which::Abort(Abort {
                reason: AbortReason::Code(-3)
            })
        )
    );
}

#[test]
fn server_only_packets_are_refused() {
    let refused = [
        Which::Hello(Hello {
            ice_servers: vec![],
        }),
        Which::Offer(Offer { sdp: String::new() }),
        Which::Abort(Abort {
            reason: AbortReason::Code(0),
        }),
    ];
    for which in refused {
        let mut hub = hub_of(&[("s", A)]);
        let packet = Packet { which: Some(which) };
        assert!(packet.is_server_only());
        assert_eq!(
            handle_packet(A, &mut hub, "s", Ok(packet)),
            Step::required(
                send_abort_packet(A, UNEXPECTED_PACKET),
                Err(HandlerError::ServerOnlyPacket)
            )
        );
    }
    assert_eq!(UNEXPECTED_PACKET, 1);
    let allowed = [
        Which::Start(start("", None)),
        Which::Answer(answer("")),
        Which::Ping(Ping {}),
        Which::IceCandidate(candidate("")),
    ];
    for which in allowed {
        assert!(!Packet { which: Some(which) }.is_server_only());
    }
    assert!(!Packet { which: None }.is_server_only());
}

#[test]
fn packets_are_dispatched_by_their_content() {
    let mut hub = hub_of(&[("s", A), ("s", B)]);
    let packet = |which| Ok(Packet { which: Some(which) });
    assert_eq!(
        handle_packet(A, &mut hub, "s", packet(Which::Start(start("o", None)))),
        silent()
    );
    assert_eq!(
        handle_packet(B, &mut hub, "s", packet(Which::Start(start("p", None)))),
        offer_to(B, "o")
    );
    assert_eq!(
        handle_packet(B, &mut hub, "s", packet(Which::Answer(answer("r")))),
        Step::best_effort(to(A, Which::Answer(answer("r"))))
    );
    assert_eq!(
        handle_packet(B, &mut hub, "s", packet(Which::IceCandidate(candidate("i")))),
        relayed_to(A, "i")
    );
    assert_eq!(
        handle_packet(B, &mut hub, "s", packet(Which::Ping(Ping {}))),
        Step::required(send_ping_packet(B), Ok(()))
    );
    assert_eq!(
        handle_packet(B, &mut hub, "s", Ok(Packet { which: None })),
        silent()
    );
    assert_eq!(
        handle_packet(B, &mut hub, "s", Err("bad".to_string())),
        Step::silent(Err(HandlerError::Decode("bad".to_string())))
    );
}

#[test]
fn socket_messages_are_told_apart() {
    let mut hub = hub_of(&[("s", A)]);
    assert_eq!(
        handle_ws_message(A, &mut hub, "s", WsMessage::Close),
        Step::silent(Err(HandlerError::ConnectionClosed))
    );
    assert_eq!(handle_ws_message(A, &mut hub, "s", WsMessage::Other), silent());
    assert_eq!(
        handle_ws_message(A, &mut hub, "s", WsMessage::Binary(Err("e".to_string()))),
        Step::silent(Err(HandlerError::Decode("e".to_string())))
    );
}

#[test]
fn failed_deliveries_count_where_they_must() {
    let required = Outcome {
        required: true,
        result: Err(HandlerError::ServerOnlyPacket),
    };
    assert_eq!(
        required.settle(Err("gone".to_string())),
        Err(HandlerError::Send("gone".to_string()))
    );
    let required = Outcome {
        required: true,
        result: Err(HandlerError::ServerOnlyPacket),
    };
    assert_eq!(required.settle(Ok(())), Err(HandlerError::ServerOnlyPacket));
    let optional = Outcome {
        required: false,
        result: Ok(()),
    };
    assert_eq!(optional.settle(Err("gone".to_string())), Ok(()));
}

#[test]
fn errors_are_reported_in_words() {
    assert_eq!(
        HandlerError::ServerOnlyPacket.message(),
        "Unexpected packet type from client"
    );
    assert_eq!(
        HandlerError::UnexpectedAnswer.message(),
        "Unexpected answer - no offerer"
    );
    assert_eq!(HandlerError::ConnectionClosed.message(), "Connection closed");
    assert_eq!(HandlerError::Decode("d".to_string()).message(), "d");
    assert_eq!(HandlerError::Send("s".to_string()).message(), "s");
}

#[test]
fn a_client_is_greeted_served_and_released() {
    let mut hub = hub_of(&[("s", A)]);
    let hello = to(
        A,
        Which::Hello(Hello {
            ice_servers: vec![],
        }),
    );
    assert_eq!(
        handle(A, &mut hub, "s", Event::IceServers(vec![])),
        Action::Greet(hello)
    );
    assert_eq!(
        handle(A, &mut hub, "s", Event::Greeted(Ok(()))),
        Action::Forward
    );
    assert_eq!(handle(A, &mut hub, "s", Event::Forwarding), Action::Receive);
    let action = handle(A, &mut hub, "s", received(Which::Ping(Ping {})));
    let (outgoing, outcome) = match action {
        Action::Deliver { outgoing, outcome } => (outgoing, outcome),
        other => panic!("{:?}", other),
    };
    assert_eq!(outgoing, send_ping_packet(A));
    let delivery = Ok(());
    assert_eq!(
        handle(A, &mut hub, "s", Event::Delivered { outcome, delivery }),
        Action::Receive
    );
    assert_eq!(
        handle(A, &mut hub, "s", Event::Received(WsMessage::Other)),
        Action::Receive
    );
    assert!(hub.find_connection_by_id("s", A).is_some());
    assert_eq!(
        handle(A, &mut hub, "s", Event::SocketEnded),
        Action::Finish(None)
    );
    assert!(hub.find_connection_by_id("s", A).is_none());
}

#[test]
fn every_end_of_a_connection_releases_it() {
    let ends = vec![
        (
            Event::Greeted(Err("gone".to_string())),
            Some(HandlerError::Send("gone".to_string())),
        ),
        (Event::SocketFailed, None),
        (Event::SocketEnded, None),
        (
            Event::Received(WsMessage::Close),
            Some(HandlerError::ConnectionClosed),
        ),
        (
            Event::Received(WsMessage::Binary(Err("bad".to_string()))),
            Some(HandlerError::Decode("bad".to_string())),
        ),
        (
            received(Which::Answer(answer("x"))),
            Some(HandlerError::UnexpectedAnswer),
        ),
        (
            Event::Delivered {
                outcome: Outcome {
                    required: true,
                    result: Ok(()),
                },
                delivery: Err("full".to_string()),
            },
            Some(HandlerError::Send("full".to_string())),
        ),
    ];
    for (event, error) in ends {
        let mut hub = hub_of(&[("s", A), ("s", B)]);
        assert_eq!(handle(A, &mut hub, "s", event), Action::Finish(error));
        assert!(hub.find_connection_by_id("s", A).is_none());
        assert!(hub.find_connection_by_id("s", B).is_some());
    }
}

#[test]
fn a_refused_packet_ends_the_connection() {
    for delivery in [Ok(()), Err("gone".to_string())] {
        let mut hub = hub_of(&[("s", A)]);
        let offer = Offer { sdp: String::new() };
        let outcome = match handle(A, &mut hub, "s", received(Which::Offer(offer))) {
            Action::Deliver { outgoing, outcome } => {
                assert_eq!(outgoing, send_abort_packet(A, 1));
                outcome
            }
            other => panic!("{:?}", other),
        };
        let end = handle(A, &mut hub, "s", Event::Delivered { outcome, delivery });
        assert!(matches!(end, Action::Finish(Some(_))));
        assert!(hub.find_connection_by_id("s", A).is_none());
    }
}

#[test]
fn a_lost_peer_does_not_end_the_sender() {
    let mut hub = hub_of(&[("s", A), ("s", B)]);
    handle_start(A, &mut hub, "s", &start("o", None));
    for which in [
        Which::Answer(answer("r")),
        Which::IceCandidate(candidate("i")),
    ] {
        let outcome = match handle(B, &mut hub, "s", received(which)) {
            Action::Deliver { outgoing, outcome } => {
                assert_eq!(outgoing.to, A);
                outcome
            }
            other => panic!("{:?}", other),
        };
        let delivery = Err("gone".to_string());
        assert_eq!(
            handle(B, &mut hub, "s", Event::Delivered { outcome, delivery }),
            Action::Receive
        );
    }
}

#[test]
fn channels_are_forwarded_until_they_end() {
    assert_eq!(
        forward(ForwardEvent::Queued(OutgoingMessage::Binary(vec![1, 2]))),
        ForwardAction::Transmit(vec![1, 2])
    );
    assert_eq!(
        forward(ForwardEvent::Queued(OutgoingMessage::Close)),
        ForwardAction::CloseSocket
    );
    assert_eq!(forward(ForwardEvent::Sent), ForwardAction::Await);
    assert_eq!(forward(ForwardEvent::Refused), ForwardAction::Stop);
    assert_eq!(forward(ForwardEvent::QueueClosed), ForwardAction::Stop);
}

#[test]
fn a_queue_is_written_up_to_the_order_to_close() {
    let queue = vec![
        OutgoingMessage::Binary(vec![1]),
        OutgoingMessage::Binary(vec![]),
        OutgoingMessage::Binary(vec![2, 3]),
        OutgoingMessage::Close,
        OutgoingMessage::Binary(vec![4]),
    ];
    let mut queue = queue.into_iter();
    let mut written = Vec::new();
    let mut action = ForwardAction::Await;
    loop {
        let event = match action {
            ForwardAction::Await => match queue.next() {
                Some(message) => ForwardEvent::Queued(message),
                None => ForwardEvent::QueueClosed,
            },
            ForwardAction::Transmit(data) => {
                written.push(data);
                ForwardEvent::Sent
            }
            ForwardAction::CloseSocket | ForwardAction::Stop => break,
        };
        action = forward(event);
    }
    assert_eq!(action, ForwardAction::CloseSocket);
    assert_eq!(written, vec![vec![1], vec![], vec![2, 3]]);
    assert_eq!(queue.next(), Some(OutgoingMessage::Binary(vec![4])));
}

#[test]
fn nobody_else_leaves_with_a_client() {
    let mut hub = hub_of(&[("s", A), ("s", B), ("t", A)]);
    handle(A, &mut hub, "s", Event::SocketEnded);
    assert!(hub.find_connection_by_id("s", A).is_none());
    assert!(hub.find_connection_by_id("s", B).is_some());
    assert!(hub.find_connection_by_id("t", A).is_some());
}
