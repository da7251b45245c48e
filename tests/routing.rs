use mini_jabber::jid::Jid;
use mini_jabber::registry::ServerState;
use mini_jabber::router::{route, Outgoing, RouteError};
use mini_jabber::stanza::{Bind, Friends, Iq, Message, Payload, Presence, Stanza};

fn jid(text: &str) -> Jid {
    Jid::parse(text).unwrap()
}

fn state_of(addresses: &[&str]) -> ServerState {
    let mut state = ServerState::new();
    for a in addresses {
        let j = jid(a);
        let resource = j.resource_part().unwrap().clone();
        state.insert(resource, j);
    }
    state
}

fn message_to(to: &str) -> Message {
    let mut m = Message::new();
    m.to = Some(to.to_string());
    m.body = Some("hi".to_string());
    m
}

fn delivered_to(out: &[Outgoing]) -> Vec<String> {
    out.iter()
        .filter_map(|o| match o {
            Outgoing::Deliver { resource, .. } => Some(resource.clone()),
            Outgoing::Reply { .. } => None,
        })
        .collect()
}

#[test]
fn resourceful_message_reaches_only_that_resource() {
    let state = state_of(&["alice@x/r1", "bob@x/r2", "bob@x/r3"]);
    let m = message_to("bob@x/r2");
    let out = route(&state, &jid("alice@x/r1"), &Stanza::Message(m.clone())).unwrap();
    assert_eq!(
        out,
        vec![Outgoing::Deliver { resource: "r2".to_string(), text: m.write_xml_string() }]
    );
}

#[test]
fn resourceful_message_to_unknown_resource_tells_sender() {
    let state = state_of(&["alice@x/r1", "bob@x/r2"]);
    let out = route(&state, &jid("alice@x/r1"), &Stanza::Message(message_to("bob@x/r9"))).unwrap();
    assert_eq!(out, vec![Outgoing::Reply { text: "no such resource".to_string() }]);
}

#[test]
fn message_to_own_resource_is_dropped() {
    let state = state_of(&["alice@x/r1", "bob@x/r2"]);
    let out = route(&state, &jid("alice@x/r1"), &Stanza::Message(message_to("alice@x/r1"))).unwrap();
    assert!(out.is_empty());
}

#[test]
fn bare_message_reaches_every_resource_of_the_user() {
    let state = state_of(&["alice@x/r1", "bob@x/r2", "bob@x/r3", "carol@x/r4"]);
    let out = route(&state, &jid("alice@x/r1"), &Stanza::Message(message_to("bob@x"))).unwrap();
    assert_eq!(delivered_to(&out), vec!["r2".to_string(), "r3".to_string()]);
}

#[test]
fn bare_message_to_self_skips_own_resource() {
    let state = state_of(&["alice@x/r1", "alice@x/r2"]);
    let out = route(&state, &jid("alice@x/r1"), &Stanza::Message(message_to("alice@x"))).unwrap();
    assert_eq!(delivered_to(&out), vec!["r2".to_string()]);
}

#[test]
fn message_without_recipient_goes_nowhere() {
    let state = state_of(&["alice@x/r1", "bob@x/r2"]);
    let out = route(&state, &jid("alice@x/r1"), &Stanza::Message(Message::new())).unwrap();
    assert!(out.is_empty());
}

#[test]
fn message_to_bad_address_is_an_error() {
    let state = state_of(&["alice@x/r1"]);
    let out = route(&state, &jid("alice@x/r1"), &Stanza::Message(message_to("nobody")));
    assert_eq!(out, Err(RouteError::BadAddress));
}

#[test]
fn friends_query_lists_other_users() {
    let state = state_of(&["alice@x/r1", "alice@x/r2", "bob@y/r1b"]);
    let mut q = Iq::new("q1".to_string());
    q.type_ = Some("get".to_string());
    q.payload = Some(Payload::Friends(Friends::new("mini.jabber.com/friends".to_string())));
    let out = route(&state, &jid("alice@x/r1"), &Stanza::Iq(q)).unwrap();
    let text = match &out[..] {
        [Outgoing::Reply { text }] => text.clone(),
        _ => panic!("expected one reply, got {:?}", out),
    };
    let answer = Iq::read_xml_string(&text).unwrap();
    assert_eq!(answer.id, "q1");
    assert_eq!(answer.type_, Some("result".to_string()));
    assert_eq!(
        answer.payload,
        Some(Payload::Friends(Friends {
            xmlns: "mini.jabber.com/friends".to_string(),
            friend_list: Some(vec![jid("bob@y/r1b")]),
        }))
    );
}

#[test]
fn unsupported_iq_payload_is_reported() {
    let state = state_of(&["alice@x/r1"]);
    let mut q = Iq::new("b".to_string());
    q.payload = Some(Payload::Bind(Bind::new("urn:ietf:params:xml:ns:xmpp-bind".to_string())));
    let out = route(&state, &jid("alice@x/r1"), &Stanza::Iq(q)).unwrap();
    assert_eq!(out, vec![Outgoing::Reply { text: "unsupported IQ call".to_string() }]);
}

#[test]
fn presence_reaches_other_users_only() {
    let state = state_of(&["alice@x/r1", "alice@x/r2", "bob@y/r3"]);
    let mut p = Presence::new();
    p.from = Some("alice@x/r1".to_string());
    let out = route(&state, &jid("alice@x/r1"), &Stanza::Presence(p.clone())).unwrap();
    assert_eq!(
        out,
        vec![Outgoing::Deliver { resource: "r3".to_string(), text: p.write_xml_string() }]
    );
}

#[test]
fn registry_replaces_an_entry_for_the_same_resource() {
    let mut state = ServerState::new();
    state.insert("r1".to_string(), jid("alice@x/r1"));
    state.insert("r2".to_string(), jid("bob@x/r2"));
    state.insert("r1".to_string(), jid("carol@x/r1"));
    assert_eq!(state.len(), 2);
    assert_eq!(state.get("r1"), Some(&jid("carol@x/r1")));
    assert_eq!(state.get("r3"), None);
    assert_eq!(state.sessions()[1].resource, "r2");
}

#[test]
fn registry_remove_drops_only_that_resource() {
    let mut state = ServerState::new();
    state.insert("r1".to_string(), jid("alice@x/r1"));
    state.insert("r2".to_string(), jid("bob@x/r2"));
    state.insert("r3".to_string(), jid("carol@x/r3"));
    state.remove("r2");
    state.remove("missing");
    assert_eq!(state.len(), 2);
    assert_eq!(state.get("r2"), None);
    assert_eq!(state.sessions()[0].resource, "r1");
    assert_eq!(state.sessions()[1].resource, "r3");
    let out = route(&state, &jid("alice@x/r1"), &Stanza::Message(message_to("bob@x/r2"))).unwrap();
    assert_eq!(out, vec![Outgoing::Reply { text: "no such resource".to_string() }]);
}

fn state_with_keys(entries: &[(&str, &str)]) -> ServerState {
    let mut state = ServerState::new();
    for (key, address) in entries {
        state.insert(key.to_string(), jid(address));
    }
    state
}

#[test]
fn presence_reaches_another_user_stored_under_the_senders_resource() {
    let state = state_with_keys(&[("a1", "alice@x/r1"), ("r2", "alice@x/r2"), ("r1", "bob@y/r1")]);
    let mut p = Presence::new();
    p.from = Some("alice@x/r1".to_string());
    let out = route(&state, &jid("alice@x/r1"), &Stanza::Presence(p.clone())).unwrap();
    assert_eq!(
        out,
        vec![Outgoing::Deliver { resource: "r1".to_string(), text: p.write_xml_string() }]
    );
}

#[test]
fn friends_query_lists_another_user_stored_under_the_senders_resource() {
    let state = state_with_keys(&[("a1", "alice@x/r1"), ("r2", "alice@x/r2"), ("r1", "bob@y/r1")]);
    let mut q = Iq::new("q2".to_string());
    q.payload = Some(Payload::Friends(Friends::new("mini.jabber.com/friends".to_string())));
    let out = route(&state, &jid("alice@x/r1"), &Stanza::Iq(q)).unwrap();
    let text = match &out[..] {
        [Outgoing::Reply { text }] => text.clone(),
        _ => panic!("expected one reply, got {:?}", out),
    };
    let answer = Iq::read_xml_string(&text).unwrap();
    assert_eq!(
        answer.payload,
        Some(Payload::Friends(Friends {
            xmlns: "mini.jabber.com/friends".to_string(),
            friend_list: Some(vec![jid("bob@y/r1")]),
        }))
    );
}

#[test]
fn presence_after_another_user_rebinds_the_same_resource() {
    let mut state = ServerState::new();
    state.insert("r1".to_string(), jid("alice@x/r1"));
    state.insert("r1".to_string(), jid("bob@y/r1"));
    let out = route(&state, &jid("alice@x/r1"), &Stanza::Presence(Presence::new())).unwrap();
    assert_eq!(delivered_to(&out), vec!["r1".to_string()]);
}

#[test]
fn bare_message_skips_only_the_senders_own_session() {
    let state = state_with_keys(&[("k1", "alice@x/r1"), ("k2", "alice@x/r2")]);
    let out = route(&state, &jid("alice@x/r1"), &Stanza::Message(message_to("alice@x"))).unwrap();
    assert_eq!(delivered_to(&out), vec!["k2".to_string()]);
}
