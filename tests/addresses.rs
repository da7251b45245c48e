use mini_jabber::auth::{CredentialsError, PlaintextCredentials};
use mini_jabber::jid::{Jid, JidError};
use mini_jabber::stanza::{Bind, Friends, Iq, Message, Payload, Presence, Stanza};

#[test]
fn parse_splits_on_first_at_and_first_slash_after_it() {
    let j = Jid::parse("a@b@c/d/e").unwrap();
    assert_eq!(j.local_part(), "a");
    assert_eq!(j.domain_part(), "b@c");
    assert_eq!(j.resource_part(), Some(&"d/e".to_string()));
}

#[test]
fn parse_without_at_fails() {
    assert_eq!(Jid::parse("no-at-here/x"), Err(JidError::MissingAt));
    assert_eq!(Jid::parse(""), Err(JidError::MissingAt));
}

#[test]
fn format_then_parse_gives_the_address_back() {
    for j in [
        Jid::new("alice", "example.com"),
        Jid::new("alice", "example.com").with_resource("phone"),
        Jid::new("ü", "ß.de").with_resource("a/b@c"),
    ] {
        assert_eq!(Jid::parse(&j.to_string()).unwrap(), j);
    }
}

#[test]
fn to_string_forms() {
    assert_eq!(Jid::new("a", "d").to_string(), "a@d");
    assert_eq!(Jid::new("a", "d").with_resource("r").to_string(), "a@d/r");
}

#[test]
fn bare_ignores_the_resource() {
    let r1 = Jid::new("a", "d").with_resource("r1");
    let r2 = Jid::new("a", "d").with_resource("r2");
    assert_eq!(r1.bare(), r2.bare());
    assert_eq!(r1.bare(), "a@d");
    assert_ne!(Jid::new("a", "d").bare(), Jid::new("b", "d").bare());
}

#[test]
fn credentials_text_layout() {
    let c = PlaintextCredentials::new("jid".to_string(), "password".to_string());
    assert_eq!(c.to_text(), "\0jid\0password");
    assert_eq!(c.to_base64(), "AGppZABwYXNzd29yZA==");
}

#[test]
fn credentials_round_trip_through_base64() {
    let c = PlaintextCredentials::new("juliet@im".to_string(), "r0m30".to_string());
    let back = PlaintextCredentials::from_base64(&c.to_base64()).unwrap();
    assert_eq!(back, c);
}

#[test]
fn credentials_without_leading_nul_are_read_too() {
    let c = PlaintextCredentials::from_base64("amlkAHBhc3N3b3Jk").unwrap();
    assert_eq!(c.username, "jid");
    assert_eq!(c.password, "password");
}

#[test]
fn credentials_errors() {
    assert_eq!(PlaintextCredentials::from_base64("***"), Err(CredentialsError::Encoding));
    // base64 of the bytes ff fe
    assert_eq!(PlaintextCredentials::from_base64("//4="), Err(CredentialsError::Text));
    // base64 of "nonul"
    assert_eq!(PlaintextCredentials::from_base64("bm9udWw="), Err(CredentialsError::MissingUsername));
}

#[test]
fn stanzas_read_back_as_written() {
    let mut m = Message::new();
    m.id = Some("1".to_string());
    m.to = Some("bob@x/r".to_string());
    m.body = Some("a < b & \"c\"".to_string());
    let mut p = Presence::new();
    p.from = Some("alice@x/r1".to_string());
    let mut bind = Bind::new("urn:ietf:params:xml:ns:xmpp-bind".to_string());
    bind.resource = Some("phone".to_string());
    bind.jid = Some(Jid::new("a", "b").with_resource("c"));
    let mut q = Iq::new("7".to_string());
    q.type_ = Some("set".to_string());
    q.payload = Some(Payload::Bind(bind));
    let mut f = Iq::new("8".to_string());
    f.payload = Some(Payload::Friends(Friends {
        xmlns: "mini.jabber.com/friends".to_string(),
        friend_list: Some(vec![]),
    }));
    for s in [Stanza::Message(m), Stanza::Presence(p), Stanza::Iq(q), Stanza::Iq(f)] {
        assert_eq!(Stanza::read_xml_string(&s.write_xml_string()).unwrap(), s);
    }
}

#[test]
fn empty_text_elements_read_back() {
    let mut m = Message::new();
    m.body = Some(String::new());
    let text = Stanza::Message(m.clone()).write_xml_string();
    assert_eq!(text, "<message><body></body></message>");
    assert_eq!(Stanza::read_xml_string(&text).unwrap(), Stanza::Message(m));

    let mut bind = Bind::new("urn:ietf:params:xml:ns:xmpp-bind".to_string());
    bind.resource = Some(String::new());
    let text = bind.write_xml_string();
    assert_eq!(text, "<bind xmlns=\"urn:ietf:params:xml:ns:xmpp-bind\"><resource></resource></bind>");
    assert_eq!(Bind::read_xml_string(&text).unwrap(), bind);
}

#[test]
fn written_text_escapes_values_and_text() {
    let mut m = Message::new();
    m.to = Some("a\"<b>".to_string());
    m.body = Some("x & 'y'".to_string());
    assert_eq!(
        m.write_xml_string(),
        "<message to=\"a&quot;&lt;b&gt;\"><body>x &amp; &apos;y&apos;</body></message>"
    );
}

#[test]
fn credentials_from_to_base64_round_trip() {
    let c = PlaintextCredentials::new("a@b".to_string(), "p w".to_string());
    assert_eq!(PlaintextCredentials::from_base64(&c.to_base64()), Ok(c));
}
