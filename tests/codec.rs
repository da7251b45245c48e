use mini_jabber::auth::{AuthRequest, AuthSuccess};
use mini_jabber::features::{Bind as BindOffer, Features, Mechanism, Mechanisms, StartTls};
use mini_jabber::initial::InitialHeader;
use mini_jabber::jid::Jid;
use mini_jabber::stanza::{Bind, Friends, Iq, Message, Payload, Presence, Stanza};

#[test]
fn jid_serialize_without_resource() {
    let jid = Jid::new("user", "mail.com");
    let serialized = jid.write_xml_string();
    assert_eq!(serialized, "<jid>user@mail.com</jid>");
}

#[test]
fn jid_serialize_with_resource() {
    let jid = Jid::new("user", "mail.com").with_resource("my-resource");
    let serialized = jid.write_xml_string();
    assert_eq!(serialized, "<jid>user@mail.com/my-resource</jid>");
}

#[test]
fn jid_deserialize_without_resource() {
    let raw = "<jid>user@mail.com</jid>";
    let jid = Jid::read_xml_string(raw).unwrap();
    assert_eq!(jid.local_part(), "user");
    assert_eq!(jid.domain_part(), "mail.com");
    assert_eq!(jid.resource_part(), None);
}

#[test]
fn jid_deserialize_with_resource() {
    let raw = "<jid>user@mail.com/my-resource</jid>";
    let jid = Jid::read_xml_string(raw).unwrap();
    assert_eq!(jid.local_part(), "user");
    assert_eq!(jid.domain_part(), "mail.com");
    assert_eq!(jid.resource_part(), Some(&"my-resource".to_string()));
}

#[test]
fn iq_test_iq() {
    let xml = r#"<iq id="123" from="alice@mail" type="set">
            <bind xmlns="urn:ietf:params:xml:ns:xmpp-bind">
                <jid> alice@mail.com </jid>
                <resource> phone </resource>
            </bind>
        </iq>"#;

    let iq = Iq::read_xml_string(xml).unwrap();
    assert_eq!(
        iq,
        Iq {
            id: "123".to_string(),
            from: Some("alice@mail".to_string()),
            type_: Some("set".to_string()),
            payload: Some(Payload::Bind(Bind {
                xmlns: "urn:ietf:params:xml:ns:xmpp-bind".to_string(),
                jid: Some(Jid::new("alice", "mail.com")),
                resource: Some("phone".to_string()),
            })),
        }
    );
}

#[test]
fn iq_test_iq_payload() {
    let xml = r#"<bind xmlns="urn:ietf:params:xml:ns:xmpp-bind">
            <jid> alice@mail.com </jid>
            <resource> phone </resource>
        </bind>"#;

    let payload = Payload::read_xml_string(xml).unwrap();
    assert_eq!(
        payload,
        Payload::Bind(Bind {
            xmlns: "urn:ietf:params:xml:ns:xmpp-bind".to_string(),
            jid: Some(Jid::new("alice", "mail.com")),
            resource: Some("phone".to_string()),
        })
    );
}

#[test]
fn iq_test_bind() {
    let xml = r#"<bind xmlns="urn:ietf:params:xml:ns:xmpp-bind">
            <jid>alice@mail.com</jid>
            <resource>phone</resource>
        </bind>"#;

    let bind = Bind::read_xml_string(xml).unwrap();
    assert_eq!(
        bind,
        Bind {
            xmlns: "urn:ietf:params:xml:ns:xmpp-bind".to_string(),
            jid: Some(Jid::new("alice", "mail.com")),
            resource: Some("phone".to_string()),
        }
    );

    let mut bind = Bind::new("urn:ietf:params:xml:ns:xmpp-bind".to_string());
    bind.jid = Some(Jid::new("zet", "mail"));
    bind.resource = Some("phone".to_string());
    let xml = bind.write_xml_string();
    assert_eq!(
        xml,
        [
            "<bind xmlns=\"urn:ietf:params:xml:ns:xmpp-bind\">",
            "<jid>zet@mail</jid>",
            "<resource>phone</resource>",
            "</bind>"
        ]
        .concat()
    );
}

#[test]
fn iq_test_friends() {
    let xml = r#"<friends xmlns="mini.jabber.com/friends">
            <jid> alice@mail.com/phone </jid>
            <jid> bob@mail.com/phone </jid>
        </friends>"#;

    let friends = Friends::read_xml_string(xml).unwrap();
    assert_eq!(
        friends,
        Friends {
            xmlns: "mini.jabber.com/friends".to_string(),
            friend_list: Some(vec![
                Jid::new("alice", "mail.com").with_resource("phone"),
                Jid::new("bob", "mail.com").with_resource("phone"),
            ]),
        }
    );
}

#[test]
fn iq_test_fail_friends() {
    // Fail when there's no end tag
    let xml = r#"<friends xmlns="mini.jabber.com/friends">
            <jid> alice@mail.com/phone </jid>
            <jid> bob@mail.com/phone </jid>
        "#;

    let friends = Friends::read_xml_string(xml);
    assert!(friends.is_err());
}

#[test]
fn test_stanza_read() {
    let presence_xml = r#"<presence
            id='123'
            from='alice@mail.com'
            to='bob@mail.com'
        />"#;

    let stanza = Stanza::read_xml_string(presence_xml).unwrap();
    assert_eq!(
        stanza,
        Stanza::Presence(Presence {
            id: Some("123".to_string()),
            from: Some("alice@mail.com".to_string()),
            to: Some("bob@mail.com".to_string()),
        })
    );

    let message_xml = r#"
            <message 
                id='123'
                from='alice@mail.com'
                to='bob@mail.com'
                xml:lang='en'>
                    <body>hello</body>
            </message>
        "#;
    let stanza = Stanza::read_xml_string(message_xml).unwrap();
    assert_eq!(
        stanza,
        Stanza::Message(Message {
            id: Some("123".to_string()),
            from: Some("alice@mail.com".to_string()),
            to: Some("bob@mail.com".to_string()),
            xml_lang: Some("en".to_string()),
            body: Some("hello".to_string()),
        })
    );

    let iq_xml = r#"
            <iq 
                id='123'
                from='alice@mail.com'
                type='get'>
                    <friends xmlns='urn:example:friends'/>
            </iq>
        "#;

    let stanza = Stanza::read_xml_string(iq_xml).unwrap();
    assert_eq!(
        stanza,
        Stanza::Iq(Iq {
            id: "123".into(),
            from: Some("alice@mail.com".to_string()),
            type_: Some("get".to_string()),
            payload: Some(Payload::Friends(Friends {
                xmlns: "urn:example:friends".to_string(),
                friend_list: None,
            })),
        })
    );
}

#[test]
fn test_presence_empty() {
    let presence: Presence = Presence::new();

    let serialized = presence.write_xml_string();
    assert_eq!(serialized, "<presence/>");

    let presence: Presence = Presence::read_xml_string(serialized.as_str()).unwrap();
    assert_eq!(presence, Presence::new());
}

#[test]
fn test_presence() {
    let mut presence: Presence = Presence::new();
    presence.id = Some("123".to_string());
    presence.from = Some("alice@mail.com/phone".to_string());
    presence.to = Some("bob@mail.com/phone".to_string());

    let serialized = presence.write_xml_string();
    assert_eq!(
        serialized,
        [
            "<presence ",
            "id=\"123\" ",
            "from=\"alice@mail.com/phone\" ",
            "to=\"bob@mail.com/phone\"/>",
        ]
        .concat()
    );

    let read: Presence = Presence::read_xml_string(serialized.as_str()).unwrap();
    assert_eq!(read, presence);
}

#[test]
fn features_test_mechanism() {
    let mechanism = Mechanism::Plain;
    assert_eq!(mechanism.to_string(), "PLAIN");
}

#[test]
fn test_mechanism() {
    let mechanism = Mechanism::Plain;
    assert_eq!(mechanism.to_string(), "PLAIN");
}

#[test]
fn features_test_mechanisms() {
    let mechanisms = Mechanisms {
        xmlns: "urn:ietf:params:xml:ns:xmpp-sasl".to_string(),
        mechanisms: vec![Mechanism::Plain],
    };

    let serialized = mechanisms.write_xml_string();
    assert_eq!(
        serialized,
        "<mechanisms xmlns=\"urn:ietf:params:xml:ns:xmpp-sasl\"><mechanism>PLAIN</mechanism></mechanisms>"
    );

    let deserialized = Mechanisms::read_xml_string(&serialized).unwrap();
    assert_eq!(mechanisms.xmlns, deserialized.xmlns);
    assert_eq!(
        deserialized,
        Mechanisms {
            xmlns: "urn:ietf:params:xml:ns:xmpp-sasl".to_string(),
            mechanisms: vec![Mechanism::Plain],
        }
    );
}

#[test]
fn features_test_starttls() {
    let starttls = StartTls {
        xmlns: "urn:ietf:params:xml:ns:xmpp-tls".to_string(),
        required: true,
    };

    let serialized = starttls.write_xml_string();
    assert_eq!(
        serialized,
        "<starttls xmlns=\"urn:ietf:params:xml:ns:xmpp-tls\"><required/></starttls>"
    );

    let deserialized = StartTls::read_xml_string(&serialized).unwrap();
    assert_eq!(
        deserialized,
        StartTls {
            xmlns: "urn:ietf:params:xml:ns:xmpp-tls".to_string(),
            required: true,
        }
    )
}

#[test]
fn features_test_bind() {
    let bind = BindOffer {
        xmlns: "urn:ietf:params:xml:ns:xmpp-bind".to_string(),
        resource: Some("resource".to_string()),
    };

    let serialized = bind.write_xml_string();
    assert_eq!(
        serialized,
        [
            "<bind xmlns=\"urn:ietf:params:xml:ns:xmpp-bind\">",
            "<resource>resource</resource>",
            "</bind>"
        ]
        .concat()
    );

    let deserialized = BindOffer::read_xml_string(&serialized).unwrap();
    assert_eq!(
        deserialized,
        BindOffer {
            xmlns: "urn:ietf:params:xml:ns:xmpp-bind".to_string(),
            resource: Some("resource".to_string()),
        }
    )
}

#[test]
fn features_test_features() {
    let features = Features {
        start_tls: Some(StartTls {
            xmlns: "urn:ietf:params:xml:ns:xmpp-tls".to_string(),
            required: true,
        }),
        mechanisms: Some(Mechanisms {
            xmlns: "urn:ietf:params:xml:ns:xmpp-sasl".to_string(),
            mechanisms: vec![Mechanism::Plain],
        }),
        bind: Some(BindOffer {
            xmlns: "urn:ietf:params:xml:ns:xmpp-bind".to_string(),
            resource: Some("resource".to_string()),
        }),
    };

    let serialized = features.write_xml_string();
    assert_eq!(
        serialized,
        [
            "<stream:features>",
            "<starttls xmlns=\"urn:ietf:params:xml:ns:xmpp-tls\"><required/></starttls>",
            "<mechanisms xmlns=\"urn:ietf:params:xml:ns:xmpp-sasl\"><mechanism>PLAIN</mechanism></mechanisms>",
            "<bind xmlns=\"urn:ietf:params:xml:ns:xmpp-bind\"><resource>resource</resource></bind>",
            "</stream:features>"
        ]
        .concat()
    );

    let deserialized = Features::read_xml_string(&serialized).unwrap();
    assert_eq!(deserialized, features);
}

#[test]
fn features_test_features_empty() {
    let features = Features::new();

    let serialized = features.write_xml_string();
    assert_eq!(serialized, "<stream:features></stream:features>");

    let read = Features::read_xml_string(&serialized).unwrap();
    assert!(features.is_empty());
    assert!(read.is_empty());
}

#[test]
fn test_message_empty() {
    let message: Message = Message::new();

    let serialized = message.write_xml_string();
    let expected = r#"<message></message>"#;
    assert_eq!(serialized, expected);
}

#[test]
fn test_message_full() {
    let message = Message {
        id: Some("123".to_string()),
        from: Some("alice@mail.com".to_string()),
        to: Some("bob@mail.com".to_string()),
        body: Some("Hello, world!".to_string()),
        xml_lang: Some("en".to_string()),
    };

    let serialized = message.write_xml_string();
    let expected = [
        "<message ",
        "id=\"123\" ",
        "from=\"alice@mail.com\" ",
        "to=\"bob@mail.com\" ",
        "xml:lang=\"en\">",
        "<body>Hello, world!</body>",
        "</message>",
    ]
    .concat();
    assert_eq!(serialized, expected);

    let deserialized: Message = Message::read_xml_string(serialized.as_str()).unwrap();
    assert_eq!(deserialized, message);
}

#[test]
fn test_auth_request() {
    let xml = r#"
            <auth xmlns='urn:ietf:params:xml:ns:xmpp-sasl' mechanism='PLAIN'>
                AGp1bGlldAByMG0zMG15cjBtMzA=
            </auth>
        "#;
    let auth = AuthRequest::read_xml_string(xml).unwrap();
    assert_eq!(auth.xmlns, "urn:ietf:params:xml:ns:xmpp-sasl");
    assert_eq!(auth.mechanism.to_string(), Mechanism::Plain.to_string());
    assert_eq!(auth.value, "AGp1bGlldAByMG0zMG15cjBtMzA=");
}

#[test]
fn test_auth_success() {
    let xml = r#"<success xmlns="urn:ietf:params:xml:ns:xmpp-sasl"/>"#;
    let success = AuthSuccess::read_xml_string(xml).unwrap();
    assert_eq!(success.xmlns, "urn:ietf:params:xml:ns:xmpp-sasl");
}

#[test]
fn test_serialize() {
    let stream_header = InitialHeader {
        id: Some("++TR84Sm6A3hnt3Q065SnAbbk3Y=".to_string()),
        from: Some("im.example.com".to_string()),
        to: Some("juliet@im.example.com".to_string()),
        version: Some("1.0".to_string()),
        xml_lang: Some("en".to_string()),
        xmlns: Some("jabber:client".to_string()),
        xmlns_stream: Some("http://etherx.jabber.org/streams".to_string()),
    };

    let expected = [
        "<stream:stream ",
        "id=\"++TR84Sm6A3hnt3Q065SnAbbk3Y=\" ",
        "from=\"im.example.com\" ",
        "to=\"juliet@im.example.com\" ",
        "version=\"1.0\" ",
        "xml:lang=\"en\" ",
        "xmlns=\"jabber:client\" ",
        "xmlns:stream=\"http://etherx.jabber.org/streams\">",
    ]
    .concat();

    let serialized = stream_header.write_xml_string();
    assert_eq!(serialized, expected);
}

#[test]
fn test_deserialize() {
    let raw = r#"
        <stream:stream
            from='im.example.com'
            id='++TR84Sm6A3hnt3Q065SnAbbk3Y='
            to='juliet@im.example.com'
            version='1.0'
            xml:lang='en'
            xmlns='jabber:client'
            xmlns:stream='http://etherx.jabber.org/streams'>
        "#;

    let stream_header = InitialHeader::read_xml_string(raw).unwrap();

    assert_eq!(
        stream_header.id,
        Some("++TR84Sm6A3hnt3Q065SnAbbk3Y=".to_string())
    );
    assert_eq!(stream_header.from, Some("im.example.com".to_string()));
    assert_eq!(stream_header.to, Some("juliet@im.example.com".to_string()));
    assert_eq!(stream_header.version, Some("1.0".to_string()));
    assert_eq!(stream_header.xml_lang, Some("en".to_string()));
    assert_eq!(stream_header.xmlns, Some("jabber:client".to_string()));
    assert_eq!(
        stream_header.xmlns_stream,
        Some("http://etherx.jabber.org/streams".to_string())
    );
}

#[test]
fn header_response_carries_the_new_id() {
    let mut header = InitialHeader::new();
    header.from = Some("juliet@im.example.com".to_string());
    let answer = header.into_response("abc".to_string());
    assert_eq!(answer.id, Some("abc".to_string()));
    assert_eq!(answer.from, Some("juliet@im.example.com".to_string()));
    assert_eq!(
        answer.write_xml_string(),
        "<stream:stream id=\"abc\" from=\"juliet@im.example.com\">"
    );
}
