use mini_jabber::auth::PlaintextCredentials;
use mini_jabber::handshake::{
    client_step, fresh_token, server_advance, server_step, ClientEvent, ClientStage, ClientState, HandshakeError, ServerEvent,
    ServerOutput, ServerStage,
};
use mini_jabber::jid::Jid;

/// The outcome of a full exchange between the two sides.
struct Outcome {
    client: ClientState,
    server: ServerStage,
    registered: Vec<(String, String)>,
}

/// Runs client and server against each other; `stored` answers the
/// server's password lookups.
fn run(client_jid: Jid, password: &str, stored: Option<&str>) -> Outcome {
    let credentials = PlaintextCredentials::new(client_jid.bare(), password.to_string());
    let mut client = ClientState::new(client_jid, credentials);
    let mut server = ServerStage::AwaitOpen;
    let mut registered = Vec::new();
    let mut tokens = 0;
    let mut fresh = || {
        tokens += 1;
        format!("token{}", tokens)
    };
    let (c, mut to_server) = client_step(&client, &ClientEvent::Begin, &fresh());
    client = c;
    let mut rounds = 0;
    while !to_server.is_empty() && rounds < 50 {
        rounds += 1;
        let mut to_client = Vec::new();
        for frame in to_server.drain(..) {
            let mut events = vec![ServerEvent::Frame(frame)];
            while let Some(event) = events.pop() {
                let (s, outputs) = server_step(&server, &event, &fresh());
                server = s;
                for o in outputs {
                    match o {
                        ServerOutput::Send(f) => to_client.push(f),
                        ServerOutput::LookUpUser(_) => {
                            events.push(ServerEvent::StoredPassword(stored.map(|p| p.to_string())))
                        }
                        ServerOutput::Register { username, password } => {
                            registered.push((username, password))
                        }
                    }
                }
            }
        }
        for frame in to_client {
            let (c, frames) = client_step(&client, &ClientEvent::Frame(frame), &fresh());
            client = c;
            to_server.extend(frames);
        }
    }
    Outcome { client, server, registered }
}

#[test]
fn handshake_binds_the_requested_resource() {
    let out = run(Jid::new("alice", "x").with_resource("phone"), "secret", Some("secret"));
    assert_eq!(out.client.stage, ClientStage::Bound);
    assert_eq!(out.client.jid, Jid::new("alice", "x").with_resource("phone"));
    assert_eq!(out.server, ServerStage::Bound { jid: Jid::new("alice", "x").with_resource("phone") });
    assert!(out.registered.is_empty());
}

#[test]
fn handshake_without_hint_gets_a_fresh_resource() {
    let out = run(Jid::new("alice", "x"), "secret", Some("secret"));
    assert_eq!(out.client.stage, ClientStage::Bound);
    let resource = out.client.jid.resource_part().cloned().unwrap();
    assert!(resource.starts_with("token"));
    assert_eq!(out.server, ServerStage::Bound { jid: out.client.jid.clone() });
}

#[test]
fn handshake_with_wrong_password_fails() {
    let out = run(Jid::new("alice", "x"), "guess", Some("secret"));
    assert_eq!(out.server, ServerStage::Failed { error: HandshakeError::AuthenticationFailed });
    assert_ne!(out.client.stage, ClientStage::Bound);
}

#[test]
fn handshake_registers_a_new_user() {
    let out = run(Jid::new("newbie", "x"), "pw", None);
    assert_eq!(out.client.stage, ClientStage::Bound);
    assert_eq!(out.registered, vec![("newbie@x".to_string(), "pw".to_string())]);
}

#[test]
fn server_answers_header_with_fresh_id_and_offers() {
    let (stage, out) = server_step(
        &ServerStage::AwaitOpen,
        &ServerEvent::Frame("<stream:stream from=\"a@b\" to=\"localhost\">".to_string()),
        "id1",
    );
    assert_eq!(stage, ServerStage::AwaitStartTls);
    assert_eq!(
        out,
        vec![
            ServerOutput::Send("<stream:stream id=\"id1\" from=\"a@b\" to=\"localhost\">".to_string()),
            ServerOutput::Send(
                [
                    "<stream:features>",
                    "<starttls xmlns=\"urn:ietf:params:xml:ns:xmpp-tls\"><required/></starttls>",
                    "<mechanisms xmlns=\"urn:ietf:params:xml:ns:xmpp-sasl\"><mechanism>PLAIN</mechanism></mechanisms>",
                    "</stream:features>",
                ]
                .concat()
            ),
        ]
    );
}

#[test]
fn server_rejects_malformed_and_out_of_order_input() {
    let (stage, out) = server_step(&ServerStage::AwaitOpen, &ServerEvent::Frame("<oops".to_string()), "t");
    assert_eq!(stage, ServerStage::Failed { error: HandshakeError::Malformed });
    assert!(out.is_empty());
    let (stage, _) = server_step(&ServerStage::AwaitOpen, &ServerEvent::StoredPassword(None), "t");
    assert_eq!(stage, ServerStage::Failed { error: HandshakeError::ProtocolViolation });
}

#[test]
fn server_verdict_with_username_that_is_no_address() {
    let stage = ServerStage::AwaitVerdict { username: "nobody".to_string(), password: "p".to_string() };
    let (next, out) = server_step(&stage, &ServerEvent::StoredPassword(None), "t");
    assert_eq!(next, ServerStage::Failed { error: HandshakeError::BadAddress });
    assert_eq!(
        out,
        vec![ServerOutput::Register { username: "nobody".to_string(), password: "p".to_string() }]
    );
}

fn client_at(stage: ClientStage) -> ClientState {
    let mut c = ClientState::new(
        Jid::new("a", "b"),
        PlaintextCredentials::new("a@b".to_string(), "p".to_string()),
    );
    c.stage = stage;
    c
}

#[test]
fn client_refuses_features_without_plain() {
    let c = client_at(ClientStage::AwaitFeatures);
    let frame = "<stream:features><mechanisms xmlns=\"urn:ietf:params:xml:ns:xmpp-sasl\"></mechanisms></stream:features>";
    let (next, out) = client_step(&c, &ClientEvent::Frame(frame.to_string()), "t");
    assert_eq!(next.stage, ClientStage::Failed(HandshakeError::UnsupportedMechanism));
    assert!(out.is_empty());
}

#[test]
fn client_with_nothing_to_negotiate_reopens() {
    let c = client_at(ClientStage::AwaitFeatures);
    let (next, out) = client_step(&c, &ClientEvent::Frame("<stream:features/>".to_string()), "t");
    assert_eq!(next.stage, ClientStage::AwaitNegotiatedReply);
    assert_eq!(out.len(), 1);
    assert!(out[0].starts_with("<stream:stream "));
}

#[test]
fn client_stops_on_tls_failure_and_ignores_unreadable_answers() {
    let c = client_at(ClientStage::AwaitTlsResult);
    let failure = "<failure xmlns=\"urn:ietf:params:xml:ns:xmpp-tls\"/>";
    let (next, _) = client_step(&c, &ClientEvent::Frame(failure.to_string()), "t");
    assert_eq!(next.stage, ClientStage::Failed(HandshakeError::TlsFailed));
    let (next, out) = client_step(&c, &ClientEvent::Frame("<proceed/>".to_string()), "t");
    assert_eq!(next.stage, ClientStage::AwaitNegotiatedReply);
    assert_eq!(out.len(), 1);
}

#[test]
fn client_needs_a_bind_offer() {
    let c = client_at(ClientStage::AwaitBindFeatures);
    let (next, _) = client_step(&c, &ClientEvent::Frame("<stream:features></stream:features>".to_string()), "t");
    assert_eq!(next.stage, ClientStage::Failed(HandshakeError::MissingBind));
}

#[test]
fn fresh_tokens_are_distinct_uuids() {
    let a = fresh_token();
    let b = fresh_token();
    assert_eq!(a.len(), 36);
    assert_ne!(a, b);
}

#[test]
fn server_advance_draws_the_stream_id() {
    let (stage, out) = server_advance(
        &ServerStage::AwaitOpen,
        &ServerEvent::Frame("<stream:stream to=\"localhost\">".to_string()),
    );
    assert_eq!(stage, ServerStage::AwaitStartTls);
    match &out[0] {
        ServerOutput::Send(header) => {
            assert!(header.starts_with("<stream:stream id=\""));
            assert_eq!(header.len(), "<stream:stream id=\"\" to=\"localhost\">".len() + 36);
        }
        other => panic!("unexpected output {:?}", other),
    }
}

#[test]
fn client_binds_without_tls_when_none_is_required() {
    let c = ClientState::new(
        Jid::new("alice", "x").with_resource("laptop"),
        PlaintextCredentials::new("alice@x".to_string(), "pw".to_string()),
    );
    let header = "<stream:stream id=\"s1\" from=\"localhost\">".to_string();
    let frames = [
        header.clone(),
        "<stream:features><mechanisms xmlns=\"urn:ietf:params:xml:ns:xmpp-sasl\"><mechanism>PLAIN</mechanism></mechanisms></stream:features>".to_string(),
        header.clone(),
        "<success xmlns=\"urn:ietf:params:xml:ns:xmpp-sasl\"/>".to_string(),
        header,
        "<stream:features><bind xmlns=\"urn:ietf:params:xml:ns:xmpp-bind\"/></stream:features>".to_string(),
        "<iq id=\"b1\" type=\"result\"><bind xmlns=\"urn:ietf:params:xml:ns:xmpp-bind\"><jid>alice@x/laptop</jid></bind></iq>".to_string(),
    ];
    let (mut c, sent) = client_step(&c, &ClientEvent::Begin, "b1");
    assert_eq!(sent.len(), 1);
    let mut all_sent = sent;
    for f in frames {
        let (next, sent) = client_step(&c, &ClientEvent::Frame(f), "b1");
        c = next;
        all_sent.extend(sent);
    }
    assert_eq!(c.stage, ClientStage::Bound);
    assert_eq!(c.jid, Jid::new("alice", "x").with_resource("laptop"));
    assert_eq!(c.id, Some("s1".to_string()));
    assert!(all_sent.iter().all(|f| !f.starts_with("<starttls")));
    assert!(all_sent.iter().any(|f| f.contains("<resource>laptop</resource>")));
}
