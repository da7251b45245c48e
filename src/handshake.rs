//! The stream handshake, on both sides, as step functions: from a stage and
//! an event to the next stage and what to do. Whoever owns the connection
//! performs the outputs and feeds back the next event.

use vstd::prelude::*;
use vstd::string::*;
use vstd::utf8::encode_utf8;

use crate::auth::{
    base64_of, credentials_text,
    auth_request_tokens, auth_success_tokens, credentials_of_base64, dec_auth_request,
    dec_auth_success, AuthRequest, AuthRequestV, AuthSuccess, AuthSuccessV,
    PlaintextCredentials, PlaintextCredentialsV,
};
use crate::constants::{NAMESPACE_BIND, NAMESPACE_SASL, NAMESPACE_TLS};
use crate::features::{
    dec_features, dec_response, dec_starttls, features_tokens, response_tokens, starttls_tokens,
    BindV as BindOfferV, Bind as BindOffer, Features, FeaturesV, Mechanism, Mechanisms, MechanismsV,
    StartTls, StartTlsResponse, StartTlsResponseV, StartTlsResult, StartTlsV,
};
use crate::initial::{dec_header, header_tokens, InitialHeader, InitialHeaderV};
use crate::jid::{clone_opt, format_jid, opt_view, parse_jid, Jid, JidV};
use crate::stanza::{dec_iq, first_element, iq_tokens, Bind, BindV, Iq, IqV, Payload, PayloadV};
use crate::xml::{text_of, TokenV};

verus! {

/// Why a handshake failed.
#[derive(Debug, Clone, Copy, PartialEq, Eq, Structural)]
pub enum HandshakeError {
    /// A frame did not hold the element expected at this point.
    Malformed,
    /// An event came that this stage does not expect.
    ProtocolViolation,
    /// The server does not offer plain text authentication.
    UnsupportedMechanism,
    /// The server refused the TLS upgrade.
    TlsFailed,
    /// The password does not match the stored one.
    AuthenticationFailed,
    /// The username is not an address.
    BadAddress,
    /// The server offered no resource binding.
    MissingBind,
}

/// Relies on uuid's `Uuid::new_v4` and its hyphenated text form, which is
/// 36 characters long.
#[verifier::external_body]
pub fn fresh_token() -> (r: String)
    ensures
        r@.len() == 36,
{
    uuid::Uuid::new_v4().to_string()
}

//
// Server side
//

pub enum ServerStageV {
    AwaitOpen,
    AwaitStartTls,
    AwaitReopen,
    AwaitAuth,
    AwaitVerdict { username: Seq<char>, password: Seq<char> },
    AwaitRebind { jid: JidV },
    AwaitBind { jid: JidV },
    Bound { jid: JidV },
    Failed { error: HandshakeError },
}

/// Where the server stands in a handshake with one client.
#[derive(Debug, Clone, PartialEq, Eq)]
pub enum ServerStage {
    /// Waiting for the client's first stream header.
    AwaitOpen,
    /// Features sent; waiting for the TLS request.
    AwaitStartTls,
    /// Waiting for the header that reopens the stream.
    AwaitReopen,
    /// Waiting for the authentication request.
    AwaitAuth,
    /// Waiting for the stored password of `username`.
    AwaitVerdict { username: String, password: String },
    /// Authenticated as `jid`; waiting for the header that reopens the stream.
    AwaitRebind { jid: Jid },
    /// Binding offered; waiting for the bind request.
    AwaitBind { jid: Jid },
    /// Done: the session is bound to `jid`.
    Bound { jid: Jid },
    Failed { error: HandshakeError },
}

impl View for ServerStage {
    type V = ServerStageV;

    open spec fn view(&self) -> ServerStageV {
        match self {
            ServerStage::AwaitOpen => ServerStageV::AwaitOpen,
            ServerStage::AwaitStartTls => ServerStageV::AwaitStartTls,
            ServerStage::AwaitReopen => ServerStageV::AwaitReopen,
            ServerStage::AwaitAuth => ServerStageV::AwaitAuth,
            ServerStage::AwaitVerdict { username, password } => ServerStageV::AwaitVerdict {
                username: username@,
                password: password@,
            },
            ServerStage::AwaitRebind { jid } => ServerStageV::AwaitRebind { jid: jid@ },
            ServerStage::AwaitBind { jid } => ServerStageV::AwaitBind { jid: jid@ },
            ServerStage::Bound { jid } => ServerStageV::Bound { jid: jid@ },
            ServerStage::Failed { error } => ServerStageV::Failed { error: *error },
        }
    }
}

pub enum ServerEventV {
    Frame(Seq<char>),
    StoredPassword(Option<Seq<char>>),
}

/// What happened since the last step.
#[derive(Debug, Clone, PartialEq, Eq)]
pub enum ServerEvent {
    /// A frame arrived from the client.
    Frame(String),
    /// The stored password of the user asked for, if the user exists.
    StoredPassword(Option<String>),
}

impl View for ServerEvent {
    type V = ServerEventV;

    open spec fn view(&self) -> ServerEventV {
        match self {
            ServerEvent::Frame(f) => ServerEventV::Frame(f@),
            ServerEvent::StoredPassword(p) => ServerEventV::StoredPassword(opt_view(*p)),
        }
    }
}

pub enum ServerOutputV {
    Send(Seq<char>),
    LookUpUser(Seq<char>),
    Register { username: Seq<char>, password: Seq<char> },
}

/// Something the server must do, in order.
#[derive(Debug, Clone, PartialEq, Eq)]
pub enum ServerOutput {
    /// Send a frame to the client.
    Send(String),
    /// Look up the stored password of a user and report it.
    LookUpUser(String),
    /// Store a new user.
    Register { username: String, password: String },
}

impl View for ServerOutput {
    type V = ServerOutputV;

    open spec fn view(&self) -> ServerOutputV {
        match self {
            ServerOutput::Send(f) => ServerOutputV::Send(f@),
            ServerOutput::LookUpUser(u) => ServerOutputV::LookUpUser(u@),
            ServerOutput::Register { username, password } => ServerOutputV::Register {
                username: username@,
                password: password@,
            },
        }
    }
}

pub open spec fn server_outputs_view(s: Seq<ServerOutput>) -> Seq<ServerOutputV> {
    s.map_values(|o: ServerOutput| o@)
}

pub open spec fn read_header(text: Seq<char>) -> Option<InitialHeaderV> {
    first_element(text, |t: Seq<TokenV>, i: int| dec_header(t, i))
}

/// The header a side answers with: the one received, with a fresh id.
pub open spec fn header_reply(frame: Seq<char>, fresh: Seq<char>) -> Option<Seq<char>> {
    match read_header(frame) {
        Some(h) => Some(text_of(header_tokens(InitialHeaderV { id: Some(fresh), ..h }))),
        None => None,
    }
}

/// The features offered first: plain text authentication, and TLS, required.
pub open spec fn tls_offer() -> FeaturesV {
    FeaturesV {
        start_tls: Some(StartTlsV { xmlns: NAMESPACE_TLS@, required: true }),
        mechanisms: Some(MechanismsV { xmlns: NAMESPACE_SASL@, mechanisms: seq![Mechanism::Plain] }),
        bind: None,
    }
}

/// The features offered after authentication: resource binding.
pub open spec fn bind_offer() -> FeaturesV {
    FeaturesV {
        start_tls: None,
        mechanisms: None,
        bind: Some(BindOfferV { xmlns: NAMESPACE_BIND@, resource: None }),
    }
}

pub open spec fn proceed() -> StartTlsResponseV {
    StartTlsResponseV { xmlns: NAMESPACE_TLS@, result: StartTlsResult::Proceed }
}

pub open spec fn success() -> AuthSuccessV {
    AuthSuccessV { xmlns: NAMESPACE_SASL@ }
}

/// The answer to a bind request with id `id`: the full address.
pub open spec fn bind_result(id: Seq<char>, full: JidV) -> IqV {
    IqV {
        id,
        from: None,
        type_: Some("result"@),
        payload: Some(PayloadV::Bind(BindV { xmlns: NAMESPACE_BIND@, jid: Some(full), resource: None })),
    }
}

/// The resource a bind request gets: the one it asks for, else a fresh one.
pub open spec fn chosen_resource(b: BindV, fresh: Seq<char>) -> Seq<char> {
    match b.resource {
        Some(r) => r,
        None => fresh,
    }
}

pub open spec fn server_fail(e: HandshakeError) -> (ServerStageV, Seq<ServerOutputV>) {
    (ServerStageV::Failed { error: e }, seq![])
}

/// One step of the server's handshake; `fresh` is a newly drawn token.
pub open spec fn server_next(stage: ServerStageV, ev: ServerEventV, fresh: Seq<char>) -> (
    ServerStageV,
    Seq<ServerOutputV>,
) {
    match (stage, ev) {
        (ServerStageV::AwaitOpen, ServerEventV::Frame(f)) => match header_reply(f, fresh) {
            Some(r) => (
                ServerStageV::AwaitStartTls,
                seq![ServerOutputV::Send(r), ServerOutputV::Send(text_of(features_tokens(tls_offer())))],
            ),
            None => server_fail(HandshakeError::Malformed),
        },
        (ServerStageV::AwaitStartTls, ServerEventV::Frame(f)) => if first_element(
            f,
            |t: Seq<TokenV>, i: int| dec_starttls(t, i),
        ) is Some {
            (ServerStageV::AwaitReopen, seq![ServerOutputV::Send(text_of(response_tokens(proceed())))])
        } else {
            server_fail(HandshakeError::Malformed)
        },
        (ServerStageV::AwaitReopen, ServerEventV::Frame(f)) => match header_reply(f, fresh) {
            Some(r) => (ServerStageV::AwaitAuth, seq![ServerOutputV::Send(r)]),
            None => server_fail(HandshakeError::Malformed),
        },
        (ServerStageV::AwaitAuth, ServerEventV::Frame(f)) => match first_element(
            f,
            |t: Seq<TokenV>, i: int| dec_auth_request(t, i),
        ) {
            Some(a) => match credentials_of_base64(a.value) {
                Ok(c) => (
                    ServerStageV::AwaitVerdict { username: c.username, password: c.password },
                    seq![ServerOutputV::LookUpUser(c.username)],
                ),
                Err(_) => server_fail(HandshakeError::Malformed),
            },
            None => server_fail(HandshakeError::Malformed),
        },
        (
            ServerStageV::AwaitVerdict { username, password },
            ServerEventV::StoredPassword(stored),
        ) => {
            let register = match stored {
                None => seq![ServerOutputV::Register { username, password }],
                Some(_) => seq![],
            };
            if stored matches Some(p) && p != password {
                server_fail(HandshakeError::AuthenticationFailed)
            } else {
                match parse_jid(username) {
                    Some(j) => (
                        ServerStageV::AwaitRebind { jid: j },
                        register + seq![ServerOutputV::Send(text_of(auth_success_tokens(success())))],
                    ),
                    None => (ServerStageV::Failed { error: HandshakeError::BadAddress }, register),
                }
            }
        },
        (ServerStageV::AwaitRebind { jid }, ServerEventV::Frame(f)) => match header_reply(f, fresh) {
            Some(r) => (
                ServerStageV::AwaitBind { jid },
                seq![ServerOutputV::Send(r), ServerOutputV::Send(text_of(features_tokens(bind_offer())))],
            ),
            None => server_fail(HandshakeError::Malformed),
        },
        (ServerStageV::AwaitBind { jid }, ServerEventV::Frame(f)) => match first_element(
            f,
            |t: Seq<TokenV>, i: int| dec_iq(t, i),
        ) {
            Some(q) => match q.payload {
                Some(PayloadV::Bind(b)) => {
                    let full = JidV { resource: Some(chosen_resource(b, fresh)), ..jid };
                    (
                        ServerStageV::Bound { jid: full },
                        seq![ServerOutputV::Send(text_of(iq_tokens(bind_result(q.id, full))))],
                    )
                },
                _ => server_fail(HandshakeError::ProtocolViolation),
            },
            None => server_fail(HandshakeError::Malformed),
        },
        (ServerStageV::Bound { jid }, _) => (ServerStageV::Bound { jid }, seq![]),
        (ServerStageV::Failed { error }, _) => (ServerStageV::Failed { error }, seq![]),
        _ => server_fail(HandshakeError::ProtocolViolation),
    }
}

/// The header received in `frame`, with id `fresh`, as text.
fn answer_header(frame: &str, fresh: &str) -> (r: Option<String>)
    ensures
        opt_view(r) == header_reply(frame@, fresh@),
{
    match InitialHeader::read_xml_string(frame) {
        Ok(h) => Some(h.into_response(String::from_str(fresh)).write_xml_string()),
        Err(_) => None,
    }
}

fn one_output(o: ServerOutput) -> (r: Vec<ServerOutput>)
    ensures
        server_outputs_view(r@) == seq![o@],
{
    let mut v: Vec<ServerOutput> = Vec::new();
    v.push(o);
    assert(server_outputs_view(v@) =~= seq![o@]);
    v
}

fn two_outputs(a: ServerOutput, b: ServerOutput) -> (r: Vec<ServerOutput>)
    ensures
        server_outputs_view(r@) == seq![a@, b@],
{
    let mut v: Vec<ServerOutput> = Vec::new();
    v.push(a);
    v.push(b);
    assert(server_outputs_view(v@) =~= seq![a@, b@]);
    v
}

fn fail_server(e: HandshakeError) -> (r: (ServerStage, Vec<ServerOutput>))
    ensures
        (r.0@, server_outputs_view(r.1@)) == server_fail(e),
{
    let v: Vec<ServerOutput> = Vec::new();
    assert(server_outputs_view(v@) =~= seq![]);
    (ServerStage::Failed { error: e }, v)
}

/// The features that the server offers first, as text.
pub fn tls_offer_text() -> (r: String)
    ensures
        r@ == text_of(features_tokens(tls_offer())),
{
    let mut mechanisms = Mechanisms::new(String::from_str(NAMESPACE_SASL));
    mechanisms.mechanisms.push(Mechanism::Plain);
    let f = Features {
        start_tls: Some(StartTls { xmlns: String::from_str(NAMESPACE_TLS), required: true }),
        mechanisms: Some(mechanisms),
        bind: None,
    };
    assert(f@.mechanisms.unwrap().mechanisms =~= seq![Mechanism::Plain]);
    assert(f@ == tls_offer());
    f.write_xml_string()
}

/// The features that the server offers after authentication, as text.
pub fn bind_offer_text() -> (r: String)
    ensures
        r@ == text_of(features_tokens(bind_offer())),
{
    let f = Features {
        start_tls: None,
        mechanisms: None,
        bind: Some(BindOffer::new(String::from_str(NAMESPACE_BIND))),
    };
    f.write_xml_string()
}

/// One step of the server's handshake with one client; `fresh` is a newly
/// drawn token, used as stream id or as resource.
pub fn server_step(stage: &ServerStage, event: &ServerEvent, fresh: &str) -> (r: (
    ServerStage,
    Vec<ServerOutput>,
))
    ensures
        (r.0@, server_outputs_view(r.1@)) == server_next(stage@, event@, fresh@),
{
    match (stage, event) {
        (ServerStage::AwaitOpen, ServerEvent::Frame(f)) => match answer_header(f.as_str(), fresh) {
            Some(r) => (
                ServerStage::AwaitStartTls,
                two_outputs(ServerOutput::Send(r), ServerOutput::Send(tls_offer_text())),
            ),
            None => fail_server(HandshakeError::Malformed),
        },
        (ServerStage::AwaitStartTls, ServerEvent::Frame(f)) => match StartTls::read_xml_string(
            f.as_str(),
        ) {
            Ok(_) => {
                let resp = StartTlsResponse {
                    xmlns: String::from_str(NAMESPACE_TLS),
                    result: StartTlsResult::Proceed,
                };
                (ServerStage::AwaitReopen, one_output(ServerOutput::Send(resp.write_xml_string())))
            },
            Err(_) => fail_server(HandshakeError::Malformed),
        },
        (ServerStage::AwaitReopen, ServerEvent::Frame(f)) => match answer_header(f.as_str(), fresh) {
            Some(r) => (ServerStage::AwaitAuth, one_output(ServerOutput::Send(r))),
            None => fail_server(HandshakeError::Malformed),
        },
        (ServerStage::AwaitAuth, ServerEvent::Frame(f)) => match AuthRequest::read_xml_string(
            f.as_str(),
        ) {
            Ok(a) => match PlaintextCredentials::from_base64(a.value.as_str()) {
                Ok(c) => {
                    let look = ServerOutput::LookUpUser(c.username.clone());
                    (
                        ServerStage::AwaitVerdict { username: c.username, password: c.password },
                        one_output(look),
                    )
                },
                Err(_) => fail_server(HandshakeError::Malformed),
            },
            Err(_) => fail_server(HandshakeError::Malformed),
        },
        (
            ServerStage::AwaitVerdict { username, password },
            ServerEvent::StoredPassword(stored),
        ) => {
            let mut out: Vec<ServerOutput> = Vec::new();
            match stored {
                Some(p) => {
                    if !p.eq(password) {
                        return fail_server(HandshakeError::AuthenticationFailed);
                    }
                },
                None => {
                    out.push(
                        ServerOutput::Register { username: username.clone(), password: password.clone() },
                    );
                },
            }
            let ghost reg = server_outputs_view(out@);
            match Jid::parse(username.as_str()) {
                Ok(j) => {
                    let notice = AuthSuccess::new(String::from_str(NAMESPACE_SASL));
                    out.push(ServerOutput::Send(notice.write_xml_string()));
                    assert(server_outputs_view(out@) =~= reg + seq![
                        ServerOutputV::Send(text_of(auth_success_tokens(success()))),
                    ]);
                    assert(server_outputs_view(out@) =~= server_next(stage@, event@, fresh@).1);
                    (ServerStage::AwaitRebind { jid: j }, out)
                },
                Err(_) => {
                    assert(server_outputs_view(out@) =~= server_next(stage@, event@, fresh@).1);
                    (ServerStage::Failed { error: HandshakeError::BadAddress }, out)
                },
            }
        },
        (ServerStage::AwaitRebind { jid }, ServerEvent::Frame(f)) => match answer_header(
            f.as_str(),
            fresh,
        ) {
            Some(r) => (
                ServerStage::AwaitBind { jid: jid.cloned() },
                two_outputs(ServerOutput::Send(r), ServerOutput::Send(bind_offer_text())),
            ),
            None => fail_server(HandshakeError::Malformed),
        },
        (ServerStage::AwaitBind { jid }, ServerEvent::Frame(f)) => match Iq::read_xml_string(
            f.as_str(),
        ) {
            Ok(q) => match &q.payload {
                Some(Payload::Bind(b)) => {
                    let resource = match &b.resource {
                        Some(r) => r.clone(),
                        None => String::from_str(fresh),
                    };
                    let full = Jid { resource_part: Some(resource), ..jid.cloned() };
                    let reply = Iq {
                        id: q.id.clone(),
                        from: None,
                        type_: Some(String::from_str("result")),
                        payload: Some(
                            Payload::Bind(
                                Bind {
                                    xmlns: String::from_str(NAMESPACE_BIND),
                                    jid: Some(full.cloned()),
                                    resource: None,
                                },
                            ),
                        ),
                    };
                    let text = reply.write_xml_string();
                    (ServerStage::Bound { jid: full }, one_output(ServerOutput::Send(text)))
                },
                _ => fail_server(HandshakeError::ProtocolViolation),
            },
            Err(_) => fail_server(HandshakeError::Malformed),
        },
        (ServerStage::Bound { jid }, _) => {
            let v: Vec<ServerOutput> = Vec::new();
            assert(server_outputs_view(v@) =~= seq![]);
            (ServerStage::Bound { jid: jid.cloned() }, v)
        },
        (ServerStage::Failed { error }, _) => {
            let v: Vec<ServerOutput> = Vec::new();
            assert(server_outputs_view(v@) =~= seq![]);
            (ServerStage::Failed { error: *error }, v)
        },
        _ => fail_server(HandshakeError::ProtocolViolation),
    }
}

//
// Client side
//

/// Where the client stands in its handshake.
#[derive(Debug, Clone, Copy, PartialEq, Eq, Structural)]
pub enum ClientStage {
    /// Nothing sent yet.
    Start,
    /// Header sent; waiting for the server's.
    AwaitOpenReply,
    /// Waiting for the features offered.
    AwaitFeatures,
    /// TLS requested; waiting for the answer.
    AwaitTlsResult,
    /// Header sent after negotiation; waiting for the server's.
    AwaitNegotiatedReply,
    /// Credentials sent; waiting for the verdict.
    AwaitAuthResult,
    /// Header sent after authentication; waiting for the server's.
    AwaitAuthedReply,
    /// Waiting for the binding offer.
    AwaitBindFeatures,
    /// Bind request sent; waiting for the full address.
    AwaitBindResult,
    /// Done: `jid` is the bound address.
    Bound,
    Failed(HandshakeError),
}

pub struct ClientStateV {
    pub jid: JidV,
    pub credentials: PlaintextCredentialsV,
    pub id: Option<Seq<char>>,
    pub stage: ClientStage,
}

/// The client's side of a handshake: its address (with the resource it
/// asks for, if any), credentials, current stream id and stage.
#[derive(Debug, Clone, PartialEq, Eq)]
pub struct ClientState {
    pub jid: Jid,
    pub credentials: PlaintextCredentials,
    pub id: Option<String>,
    pub stage: ClientStage,
}

impl View for ClientState {
    type V = ClientStateV;

    open spec fn view(&self) -> ClientStateV {
        ClientStateV {
            jid: self.jid@,
            credentials: self.credentials@,
            id: opt_view(self.id),
            stage: self.stage,
        }
    }
}

pub enum ClientEventV {
    Begin,
    Frame(Seq<char>),
}

/// What happened since the last step.
#[derive(Debug, Clone, PartialEq, Eq)]
pub enum ClientEvent {
    /// The connection is open.
    Begin,
    /// A frame arrived from the server.
    Frame(String),
}

impl View for ClientEvent {
    type V = ClientEventV;

    open spec fn view(&self) -> ClientEventV {
        match self {
            ClientEvent::Begin => ClientEventV::Begin,
            ClientEvent::Frame(f) => ClientEventV::Frame(f@),
        }
    }
}

pub open spec fn strings_view(s: Seq<String>) -> Seq<Seq<char>> {
    s.map_values(|x: String| x@)
}

/// The header the client opens (and reopens) the stream with.
pub open spec fn client_header(jid: JidV, id: Option<Seq<char>>) -> InitialHeaderV {
    InitialHeaderV {
        id,
        from: Some(format_jid(jid)),
        to: Some("localhost"@),
        version: Some("1.0"@),
        xml_lang: Some("en"@),
        xmlns: Some("jabber:client"@),
        xmlns_stream: Some("http://etherx.jabber.org/streams"@),
    }
}

pub open spec fn header_frame(s: ClientStateV) -> Seq<char> {
    text_of(header_tokens(client_header(s.jid, s.id)))
}

/// The client's authentication request.
pub open spec fn auth_frame(c: PlaintextCredentialsV) -> Seq<char> {
    text_of(
        auth_request_tokens(
            AuthRequestV {
                xmlns: NAMESPACE_SASL@,
                mechanism: Mechanism::Plain,
                value: base64_of(encode_utf8(credentials_text(c.username, c.password))),
            },
        ),
    )
}

/// The client's bind request, with `id`, for `jid`, asking for `hint`.
pub open spec fn bind_request(id: Seq<char>, jid: JidV, hint: Option<Seq<char>>) -> IqV {
    IqV {
        id,
        from: None,
        type_: Some("set"@),
        payload: Some(PayloadV::Bind(BindV { xmlns: NAMESPACE_BIND@, jid: Some(jid), resource: hint })),
    }
}

pub open spec fn with_stage(s: ClientStateV, stage: ClientStage) -> ClientStateV {
    ClientStateV { stage, ..s }
}

pub open spec fn client_fail(s: ClientStateV, e: HandshakeError) -> (ClientStateV, Seq<Seq<char>>) {
    (with_stage(s, ClientStage::Failed(e)), seq![])
}

/// One step of the client's handshake; `fresh` is a newly drawn token.
pub open spec fn client_next(s: ClientStateV, ev: ClientEventV, fresh: Seq<char>) -> (
    ClientStateV,
    Seq<Seq<char>>,
) {
    match (s.stage, ev) {
        (ClientStage::Start, ClientEventV::Begin) => (
            with_stage(s, ClientStage::AwaitOpenReply),
            seq![header_frame(s)],
        ),
        (ClientStage::AwaitOpenReply, ClientEventV::Frame(f)) => match read_header(f) {
            Some(h) => (ClientStateV { id: h.id, stage: ClientStage::AwaitFeatures, ..s }, seq![]),
            None => client_fail(s, HandshakeError::Malformed),
        },
        (ClientStage::AwaitFeatures, ClientEventV::Frame(f)) => match first_element(
            f,
            |t: Seq<TokenV>, i: int| dec_features(t, i),
        ) {
            None => client_fail(s, HandshakeError::Malformed),
            Some(ft) => if ft.mechanisms matches Some(m) && !m.mechanisms.contains(
                Mechanism::Plain,
            ) {
                client_fail(s, HandshakeError::UnsupportedMechanism)
            } else if ft.start_tls matches Some(t) && t.required {
                (
                    with_stage(s, ClientStage::AwaitTlsResult),
                    seq![text_of(starttls_tokens(StartTlsV { xmlns: NAMESPACE_TLS@, required: true }))],
                )
            } else {
                (with_stage(s, ClientStage::AwaitNegotiatedReply), seq![header_frame(s)])
            },
        },
        (ClientStage::AwaitTlsResult, ClientEventV::Frame(f)) => if first_element(
            f,
            |t: Seq<TokenV>, i: int| dec_response(t, i),
        ) matches Some(r) && r.result == StartTlsResult::Failure {
            client_fail(s, HandshakeError::TlsFailed)
        } else {
            (with_stage(s, ClientStage::AwaitNegotiatedReply), seq![header_frame(s)])
        },
        (ClientStage::AwaitNegotiatedReply, ClientEventV::Frame(f)) => match read_header(f) {
            Some(h) => (
                ClientStateV { id: h.id, stage: ClientStage::AwaitAuthResult, ..s },
                seq![auth_frame(s.credentials)],
            ),
            None => client_fail(s, HandshakeError::Malformed),
        },
        (ClientStage::AwaitAuthResult, ClientEventV::Frame(f)) => if first_element(
            f,
            |t: Seq<TokenV>, i: int| dec_auth_success(t, i),
        ) is Some {
            (with_stage(s, ClientStage::AwaitAuthedReply), seq![header_frame(s)])
        } else {
            client_fail(s, HandshakeError::AuthenticationFailed)
        },
        (ClientStage::AwaitAuthedReply, ClientEventV::Frame(f)) => match read_header(f) {
            Some(h) => (ClientStateV { id: h.id, stage: ClientStage::AwaitBindFeatures, ..s }, seq![]),
            None => client_fail(s, HandshakeError::Malformed),
        },
        (ClientStage::AwaitBindFeatures, ClientEventV::Frame(f)) => match first_element(
            f,
            |t: Seq<TokenV>, i: int| dec_features(t, i),
        ) {
            None => client_fail(s, HandshakeError::Malformed),
            Some(ft) => if ft.bind is None {
                client_fail(s, HandshakeError::MissingBind)
            } else {
                let bare = JidV { resource: None, ..s.jid };
                (
                    ClientStateV { jid: bare, stage: ClientStage::AwaitBindResult, ..s },
                    seq![text_of(iq_tokens(bind_request(fresh, bare, s.jid.resource)))],
                )
            },
        },
        (ClientStage::AwaitBindResult, ClientEventV::Frame(f)) => match first_element(
            f,
            |t: Seq<TokenV>, i: int| dec_iq(t, i),
        ) {
            Some(q) => match q.payload {
                Some(PayloadV::Bind(b)) => (
                    ClientStateV {
                        jid: JidV {
                            resource: match b.jid {
                                Some(j) => j.resource,
                                None => None,
                            },
                            ..s.jid
                        },
                        stage: ClientStage::Bound,
                        ..s
                    },
                    seq![],
                ),
                _ => client_fail(s, HandshakeError::Malformed),
            },
            None => client_fail(s, HandshakeError::Malformed),
        },
        (ClientStage::Bound, _) => (s, seq![]),
        (ClientStage::Failed(_), _) => (s, seq![]),
        _ => client_fail(s, HandshakeError::ProtocolViolation),
    }
}

impl ClientState {
    /// A client about to open a stream as `jid`.
    pub fn new(jid: Jid, credentials: PlaintextCredentials) -> (r: ClientState)
        ensures
            r@ == (ClientStateV {
                jid: jid@,
                credentials: credentials@,
                id: None,
                stage: ClientStage::Start,
            }),
    {
        ClientState { jid, credentials, id: None, stage: ClientStage::Start }
    }

    fn copy_with(&self, stage: ClientStage) -> (r: ClientState)
        ensures
            r@ == with_stage(self@, stage),
    {
        ClientState {
            jid: self.jid.cloned(),
            credentials: PlaintextCredentials::new(
                self.credentials.username.clone(),
                self.credentials.password.clone(),
            ),
            id: clone_opt(&self.id),
            stage,
        }
    }

    /// The header that (re)opens the stream, as text.
    fn header_text(&self) -> (r: String)
        ensures
            r@ == header_frame(self@),
    {
        let h = InitialHeader {
            id: clone_opt(&self.id),
            from: Some(self.jid.to_string()),
            to: Some(String::from_str("localhost")),
            version: Some(String::from_str("1.0")),
            xml_lang: Some(String::from_str("en")),
            xmlns: Some(String::from_str("jabber:client")),
            xmlns_stream: Some(String::from_str("http://etherx.jabber.org/streams")),
        };
        h.write_xml_string()
    }
}

fn fail_client(s: &ClientState, e: HandshakeError) -> (r: (ClientState, Vec<String>))
    ensures
        (r.0@, strings_view(r.1@)) == client_fail(s@, e),
{
    let v: Vec<String> = Vec::new();
    assert(strings_view(v@) =~= seq![]);
    (s.copy_with(ClientStage::Failed(e)), v)
}

fn one_frame(f: String) -> (r: Vec<String>)
    ensures
        strings_view(r@) == seq![f@],
{
    let mut v: Vec<String> = Vec::new();
    v.push(f);
    assert(strings_view(v@) =~= seq![f@]);
    v
}

/// One step of the client's handshake; `fresh` is a newly drawn token, used
/// as the id of the bind request.
pub fn client_step(state: &ClientState, event: &ClientEvent, fresh: &str) -> (r: (
    ClientState,
    Vec<String>,
))
    ensures
        (r.0@, strings_view(r.1@)) == client_next(state@, event@, fresh@),
{
    let none: Vec<String> = Vec::new();
    assert(strings_view(none@) =~= seq![]);
    match (state.stage, event) {
        (ClientStage::Start, ClientEvent::Begin) => (
            state.copy_with(ClientStage::AwaitOpenReply),
            one_frame(state.header_text()),
        ),
        (ClientStage::AwaitOpenReply, ClientEvent::Frame(f)) => match InitialHeader::read_xml_string(
            f.as_str(),
        ) {
            Ok(h) => {
                let next = ClientState { id: h.id, ..state.copy_with(ClientStage::AwaitFeatures) };
                (next, none)
            },
            Err(_) => fail_client(state, HandshakeError::Malformed),
        },
        (ClientStage::AwaitFeatures, ClientEvent::Frame(f)) => match Features::read_xml_string(
            f.as_str(),
        ) {
            Err(_) => fail_client(state, HandshakeError::Malformed),
            Ok(ft) => {
                let plain_missing = match &ft.mechanisms {
                    Some(m) => !m.contains_plain(),
                    None => false,
                };
                let tls_required = match &ft.start_tls {
                    Some(t) => t.required,
                    None => false,
                };
                if plain_missing {
                    fail_client(state, HandshakeError::UnsupportedMechanism)
                } else if tls_required {
                    let req = StartTls { xmlns: String::from_str(NAMESPACE_TLS), required: true };
                    (state.copy_with(ClientStage::AwaitTlsResult), one_frame(req.write_xml_string()))
                } else {
                    (
                        state.copy_with(ClientStage::AwaitNegotiatedReply),
                        one_frame(state.header_text()),
                    )
                }
            },
        },
        (ClientStage::AwaitTlsResult, ClientEvent::Frame(f)) => {
            let refused = match StartTlsResponse::read_xml_string(f.as_str()) {
                Ok(r) => r.result == StartTlsResult::Failure,
                Err(_) => false,
            };
            if refused {
                fail_client(state, HandshakeError::TlsFailed)
            } else {
                (
                    state.copy_with(ClientStage::AwaitNegotiatedReply),
                    one_frame(state.header_text()),
                )
            }
        },
        (ClientStage::AwaitNegotiatedReply, ClientEvent::Frame(f)) => match InitialHeader::read_xml_string(
            f.as_str(),
        ) {
            Ok(h) => {
                let auth = AuthRequest::new(
                    String::from_str(NAMESPACE_SASL),
                    Mechanism::Plain,
                    state.credentials.to_base64(),
                );
                let next = ClientState { id: h.id, ..state.copy_with(ClientStage::AwaitAuthResult) };
                (next, one_frame(auth.write_xml_string()))
            },
            Err(_) => fail_client(state, HandshakeError::Malformed),
        },
        (ClientStage::AwaitAuthResult, ClientEvent::Frame(f)) => match AuthSuccess::read_xml_string(
            f.as_str(),
        ) {
            Ok(_) => (
                state.copy_with(ClientStage::AwaitAuthedReply),
                one_frame(state.header_text()),
            ),
            Err(_) => fail_client(state, HandshakeError::AuthenticationFailed),
        },
        (ClientStage::AwaitAuthedReply, ClientEvent::Frame(f)) => match InitialHeader::read_xml_string(
            f.as_str(),
        ) {
            Ok(h) => {
                let next = ClientState { id: h.id, ..state.copy_with(ClientStage::AwaitBindFeatures) };
                (next, none)
            },
            Err(_) => fail_client(state, HandshakeError::Malformed),
        },
        (ClientStage::AwaitBindFeatures, ClientEvent::Frame(f)) => match Features::read_xml_string(
            f.as_str(),
        ) {
            Err(_) => fail_client(state, HandshakeError::Malformed),
            Ok(ft) => {
                if ft.bind.is_none() {
                    fail_client(state, HandshakeError::MissingBind)
                } else {
                    let bare = Jid { resource_part: None, ..state.jid.cloned() };
                    let req = Iq {
                        id: String::from_str(fresh),
                        from: None,
                        type_: Some(String::from_str("set")),
                        payload: Some(
                            Payload::Bind(
                                Bind {
                                    xmlns: String::from_str(NAMESPACE_BIND),
                                    jid: Some(bare.cloned()),
                                    resource: clone_opt(&state.jid.resource_part),
                                },
                            ),
                        ),
                    };
                    let next = ClientState {
                        jid: bare,
                        ..state.copy_with(ClientStage::AwaitBindResult)
                    };
                    (next, one_frame(req.write_xml_string()))
                }
            },
        },
        (ClientStage::AwaitBindResult, ClientEvent::Frame(f)) => match Iq::read_xml_string(
            f.as_str(),
        ) {
            Ok(q) => match q.payload {
                Some(Payload::Bind(b)) => {
                    let resource = match b.jid {
                        Some(j) => j.resource_part,
                        None => None,
                    };
                    let jid = Jid { resource_part: resource, ..state.jid.cloned() };
                    (ClientState { jid, ..state.copy_with(ClientStage::Bound) }, none)
                },
                _ => fail_client(state, HandshakeError::Malformed),
            },
            Err(_) => fail_client(state, HandshakeError::Malformed),
        },
        (ClientStage::Bound, _) => (state.copy_with(ClientStage::Bound), none),
        (ClientStage::Failed(e), _) => (state.copy_with(ClientStage::Failed(e)), none),
        _ => fail_client(state, HandshakeError::ProtocolViolation),
    }
}

//
// Drawing fresh tokens
//

/// One step of the server's handshake, with a newly drawn token.
pub fn server_advance(stage: &ServerStage, event: &ServerEvent) -> (r: (
    ServerStage,
    Vec<ServerOutput>,
))
    ensures
        exists|fresh: Seq<char>|
            fresh.len() == 36 && (r.0@, server_outputs_view(r.1@)) == server_next(
                stage@,
                event@,
                fresh,
            ),
{
    let token = fresh_token();
    server_step(stage, event, token.as_str())
}

/// One step of the client's handshake, with a newly drawn token.
pub fn client_advance(state: &ClientState, event: &ClientEvent) -> (r: (ClientState, Vec<String>))
    ensures
        exists|fresh: Seq<char>|
            fresh.len() == 36 && (r.0@, strings_view(r.1@)) == client_next(state@, event@, fresh),
{
    let token = fresh_token();
    client_step(state, event, token.as_str())
}

//
// Laws
//

/// The stage the server reaches through a sequence of events, drawing
/// `fresh[k]` at step `k`.
pub open spec fn run_server(stage: ServerStageV, events: Seq<ServerEventV>, fresh: Seq<Seq<char>>) -> ServerStageV
    decreases events.len(),
{
    if events.len() == 0 {
        stage
    } else {
        run_server(server_next(stage, events[0], fresh[0]).0, events.drop_first(), fresh.drop_first())
    }
}

pub open spec fn read_auth(text: Seq<char>) -> Option<AuthRequestV> {
    first_element(text, |t: Seq<TokenV>, i: int| dec_auth_request(t, i))
}

pub open spec fn read_iq(text: Seq<char>) -> Option<IqV> {
    first_element(text, |t: Seq<TokenV>, i: int| dec_iq(t, i))
}

/// The credentials that an authentication frame carries.
pub open spec fn frame_credentials(auth: Seq<char>) -> PlaintextCredentialsV {
    credentials_of_base64(read_auth(auth).unwrap().value)->Ok_0
}

/// The bind request that a frame carries.
pub open spec fn frame_bind(bind: Seq<char>) -> BindV {
    read_iq(bind).unwrap().payload.unwrap()->Bind_0
}

/// A password that differs from the stored one fails the handshake with
/// `AuthenticationFailed`; a user with no stored password is registered with
/// the password given, and the handshake goes on.
pub proof fn lemma_server_verdict(
    username: Seq<char>,
    password: Seq<char>,
    stored: Seq<char>,
    fresh: Seq<char>,
)
    ensures
        stored != password ==> server_next(
            ServerStageV::AwaitVerdict { username, password },
            ServerEventV::StoredPassword(Some(stored)),
            fresh,
        ) == server_fail(HandshakeError::AuthenticationFailed),
        parse_jid(username) matches Some(j) ==> server_next(
            ServerStageV::AwaitVerdict { username, password },
            ServerEventV::StoredPassword(None),
            fresh,
        ) == (
            ServerStageV::AwaitRebind { jid: j },
            seq![
                ServerOutputV::Register { username, password },
                ServerOutputV::Send(text_of(auth_success_tokens(success()))),
            ],
        ),
{
    if let Some(j) = parse_jid(username) {
        let out = server_next(
            ServerStageV::AwaitVerdict { username, password },
            ServerEventV::StoredPassword(None),
            fresh,
        ).1;
        assert(out =~= seq![
            ServerOutputV::Register { username, password },
            ServerOutputV::Send(text_of(auth_success_tokens(success()))),
        ]);
    }
}

/// A client that opens the stream, asks for TLS, reopens it, authenticates
/// with the stored password (or as a new user) under a username that is an
/// address, reopens the stream and asks to bind, ends bound to that address
/// with the resource it asked for, or with the token drawn at the last step
/// where it asked for none.
pub proof fn lemma_server_handshake_binds(
    open1: Seq<char>,
    tls: Seq<char>,
    open2: Seq<char>,
    auth: Seq<char>,
    stored: Option<Seq<char>>,
    open3: Seq<char>,
    bind: Seq<char>,
    fresh: Seq<Seq<char>>,
)
    requires
        fresh.len() == 7,
        read_header(open1) is Some,
        first_element(tls, |t: Seq<TokenV>, i: int| dec_starttls(t, i)) is Some,
        read_header(open2) is Some,
        read_auth(auth) is Some,
        credentials_of_base64(read_auth(auth).unwrap().value) is Ok,
        parse_jid(frame_credentials(auth).username) is Some,
        stored is None || stored == Some(frame_credentials(auth).password),
        read_header(open3) is Some,
        read_iq(bind) is Some,
        read_iq(bind).unwrap().payload matches Some(PayloadV::Bind(_)),
    ensures
        run_server(
            ServerStageV::AwaitOpen,
            seq![
                ServerEventV::Frame(open1),
                ServerEventV::Frame(tls),
                ServerEventV::Frame(open2),
                ServerEventV::Frame(auth),
                ServerEventV::StoredPassword(stored),
                ServerEventV::Frame(open3),
                ServerEventV::Frame(bind),
            ],
            fresh,
        ) == (ServerStageV::Bound {
            jid: JidV {
                resource: Some(chosen_resource(frame_bind(bind), fresh[6])),
                ..parse_jid(frame_credentials(auth).username).unwrap()
            },
        }),
{
    let e = seq![
        ServerEventV::Frame(open1),
        ServerEventV::Frame(tls),
        ServerEventV::Frame(open2),
        ServerEventV::Frame(auth),
        ServerEventV::StoredPassword(stored),
        ServerEventV::Frame(open3),
        ServerEventV::Frame(bind),
    ];
    let c = frame_credentials(auth);
    let j = parse_jid(c.username).unwrap();
    let s1 = server_next(ServerStageV::AwaitOpen, e[0], fresh[0]).0;
    assert(s1 == ServerStageV::AwaitStartTls);
    let s2 = server_next(s1, e[1], fresh[1]).0;
    assert(s2 == ServerStageV::AwaitReopen);
    let s3 = server_next(s2, e[2], fresh[2]).0;
    assert(s3 == ServerStageV::AwaitAuth);
    let s4 = server_next(s3, e[3], fresh[3]).0;
    assert(s4 == ServerStageV::AwaitVerdict { username: c.username, password: c.password });
    let s5 = server_next(s4, e[4], fresh[4]).0;
    assert(s5 == ServerStageV::AwaitRebind { jid: j });
    let s6 = server_next(s5, e[5], fresh[5]).0;
    assert(s6 == ServerStageV::AwaitBind { jid: j });
    let s7 = server_next(s6, e[6], fresh[6]).0;
    let stages = seq![ServerStageV::AwaitOpen, s1, s2, s3, s4, s5, s6, s7];
    assert forall|m: int| 0 <= m <= 7 implies run_server(stages[m], e.subrange(m, 7), fresh.subrange(m, 7))
        == s7 by {
        lemma_run_tail(stages, e, fresh, m);
    }
    assert(e.subrange(0, 7) =~= e);
    assert(fresh.subrange(0, 7) =~= fresh);
}

proof fn lemma_run_tail(
    stages: Seq<ServerStageV>,
    e: Seq<ServerEventV>,
    fresh: Seq<Seq<char>>,
    m: int,
)
    requires
        stages.len() == 8,
        e.len() == 7,
        fresh.len() == 7,
        0 <= m <= 7,
        forall|k: int| 0 <= k < 7 ==> #[trigger] stages[k + 1] == server_next(stages[k], e[k], fresh[k]).0,
    ensures
        run_server(stages[m], e.subrange(m, 7), fresh.subrange(m, 7)) == stages[7],
    decreases 7 - m,
{
    if m < 7 {
        lemma_run_tail(stages, e, fresh, m + 1);
        assert(e.subrange(m, 7).drop_first() =~= e.subrange(m + 1, 7));
        assert(fresh.subrange(m, 7).drop_first() =~= fresh.subrange(m + 1, 7));
        assert(stages[m + 1] == server_next(stages[m], e[m], fresh[m]).0);
    }
}

/// A client waiting for its bind result takes the resource of the address
/// that the server's answer carries, and is bound.
pub proof fn lemma_client_takes_bound_resource(
    s: ClientStateV,
    frame: Seq<char>,
    fresh: Seq<char>,
    id: Seq<char>,
    full: JidV,
)
    requires
        s.stage == ClientStage::AwaitBindResult,
        read_iq(frame) == Some(bind_result(id, full)),
    ensures
        client_next(s, ClientEventV::Frame(frame), fresh).0.stage == ClientStage::Bound,
        client_next(s, ClientEventV::Frame(frame), fresh).0.jid.resource == full.resource,
{
}

/// The state the client reaches through a sequence of events, drawing
/// `fresh[k]` at step `k`.
pub open spec fn run_client(s: ClientStateV, events: Seq<ClientEventV>, fresh: Seq<Seq<char>>) -> ClientStateV
    decreases events.len(),
{
    if events.len() == 0 {
        s
    } else {
        run_client(client_next(s, events[0], fresh[0]).0, events.drop_first(), fresh.drop_first())
    }
}

pub open spec fn read_features(text: Seq<char>) -> Option<FeaturesV> {
    first_element(text, |t: Seq<TokenV>, i: int| dec_features(t, i))
}

proof fn lemma_run_client_tail(
    states: Seq<ClientStateV>,
    e: Seq<ClientEventV>,
    fresh: Seq<Seq<char>>,
    m: int,
)
    requires
        states.len() == e.len() + 1,
        fresh.len() == e.len(),
        0 <= m <= e.len(),
        forall|k: int|
            0 <= k < e.len() ==> #[trigger] states[k + 1] == client_next(states[k], e[k], fresh[k]).0,
    ensures
        run_client(states[m], e.subrange(m, e.len() as int), fresh.subrange(m, e.len() as int))
            == states[e.len() as int],
    decreases e.len() - m,
{
    if m < e.len() {
        lemma_run_client_tail(states, e, fresh, m + 1);
        assert(e.subrange(m, e.len() as int).drop_first() =~= e.subrange(m + 1, e.len() as int));
        assert(fresh.subrange(m, e.len() as int).drop_first() =~= fresh.subrange(
            m + 1,
            e.len() as int,
        ));
        assert(states[m + 1] == client_next(states[m], e[m], fresh[m]).0);
    }
}

/// A client whose server answers its headers, offers plain text
/// authentication without requiring TLS, accepts its credentials, offers
/// binding and answers the bind request with a full address, ends bound to
/// that address's resource.
pub proof fn lemma_client_handshake_binds(
    s: ClientStateV,
    open1: Seq<char>,
    features: Seq<char>,
    open2: Seq<char>,
    success: Seq<char>,
    open3: Seq<char>,
    bind_features: Seq<char>,
    bound: Seq<char>,
    fresh: Seq<Seq<char>>,
)
    requires
        s.stage == ClientStage::Start,
        fresh.len() == 8,
        read_header(open1) is Some,
        read_features(features) is Some,
        read_features(features).unwrap().mechanisms matches Some(m) ==> m.mechanisms.contains(
            Mechanism::Plain,
        ),
        read_features(features).unwrap().start_tls matches Some(t) ==> !t.required,
        read_header(open2) is Some,
        first_element(success, |t: Seq<TokenV>, i: int| dec_auth_success(t, i)) is Some,
        read_header(open3) is Some,
        read_features(bind_features) matches Some(f) && f.bind is Some,
        read_iq(bound) matches Some(q) && q.payload matches Some(PayloadV::Bind(b)) && b.jid is Some,
    ensures
        ({
            let end = run_client(
                s,
                seq![
                    ClientEventV::Begin,
                    ClientEventV::Frame(open1),
                    ClientEventV::Frame(features),
                    ClientEventV::Frame(open2),
                    ClientEventV::Frame(success),
                    ClientEventV::Frame(open3),
                    ClientEventV::Frame(bind_features),
                    ClientEventV::Frame(bound),
                ],
                fresh,
            );
            &&& end.stage == ClientStage::Bound
            &&& end.jid == (JidV { resource: frame_bind(bound).jid.unwrap().resource, ..s.jid })
        }),
{
    let e = seq![
        ClientEventV::Begin,
        ClientEventV::Frame(open1),
        ClientEventV::Frame(features),
        ClientEventV::Frame(open2),
        ClientEventV::Frame(success),
        ClientEventV::Frame(open3),
        ClientEventV::Frame(bind_features),
        ClientEventV::Frame(bound),
    ];
    let s1 = client_next(s, e[0], fresh[0]).0;
    assert(s1.stage == ClientStage::AwaitOpenReply && s1.jid == s.jid);
    let s2 = client_next(s1, e[1], fresh[1]).0;
    assert(s2.stage == ClientStage::AwaitFeatures && s2.jid == s.jid);
    let s3 = client_next(s2, e[2], fresh[2]).0;
    assert(s3.stage == ClientStage::AwaitNegotiatedReply && s3.jid == s.jid);
    let s4 = client_next(s3, e[3], fresh[3]).0;
    assert(s4.stage == ClientStage::AwaitAuthResult && s4.jid == s.jid);
    let s5 = client_next(s4, e[4], fresh[4]).0;
    assert(s5.stage == ClientStage::AwaitAuthedReply && s5.jid == s.jid);
    let s6 = client_next(s5, e[5], fresh[5]).0;
    assert(s6.stage == ClientStage::AwaitBindFeatures && s6.jid == s.jid);
    let s7 = client_next(s6, e[6], fresh[6]).0;
    assert(s7.stage == ClientStage::AwaitBindResult && s7.jid == JidV { resource: None, ..s.jid });
    let s8 = client_next(s7, e[7], fresh[7]).0;
    assert(s8.stage == ClientStage::Bound);
    let states = seq![s, s1, s2, s3, s4, s5, s6, s7, s8];
    lemma_run_client_tail(states, e, fresh, 0);
    assert(e.subrange(0, 8) =~= e);
    assert(fresh.subrange(0, 8) =~= fresh);
}

/// The bind step of the server: the session is bound to the authenticated
/// address with the resource asked for (or the token drawn), and the one
/// frame sent is the result answering the request's id with that address.
pub proof fn lemma_server_bind_reply(jid: JidV, bind: Seq<char>, fresh: Seq<char>)
    requires
        read_iq(bind) is Some,
        read_iq(bind).unwrap().payload matches Some(PayloadV::Bind(_)),
    ensures
        ({
            let full = JidV { resource: Some(chosen_resource(frame_bind(bind), fresh)), ..jid };
            server_next(ServerStageV::AwaitBind { jid }, ServerEventV::Frame(bind), fresh) == (
                ServerStageV::Bound { jid: full },
                seq![ServerOutputV::Send(text_of(iq_tokens(bind_result(read_iq(bind).unwrap().id, full))))],
            )
        }),
{
}

/// The stored password of `username` in a table of users, if any.
pub open spec fn stored_in(users: Map<Seq<char>, Seq<char>>, username: Seq<char>) -> Option<Seq<char>> {
    if users.contains_key(username) {
        Some(users[username])
    } else {
        None
    }
}

/// Authentication against a table of users: it fails with
/// `AuthenticationFailed`, sending nothing, exactly when the user exists
/// with another password; the user is registered exactly when it is new;
/// otherwise (for a username that is an address) the success notice is sent.
pub proof fn lemma_server_verdict_table(
    users: Map<Seq<char>, Seq<char>>,
    username: Seq<char>,
    password: Seq<char>,
    fresh: Seq<char>,
)
    ensures
        ({
            let r = server_next(
                ServerStageV::AwaitVerdict { username, password },
                ServerEventV::StoredPassword(stored_in(users, username)),
                fresh,
            );
            &&& (r.0 == ServerStageV::Failed { error: HandshakeError::AuthenticationFailed }) <==> (
            users.contains_key(username) && users[username] != password)
            &&& (r.0 == ServerStageV::Failed { error: HandshakeError::AuthenticationFailed }) ==> r.1
                == Seq::<ServerOutputV>::empty()
            &&& r.1.contains(ServerOutputV::Register { username, password }) <==> !users.contains_key(
                username,
            )
            &&& (parse_jid(username) is Some && !(users.contains_key(username) && users[username]
                != password)) ==> r.1.last() == ServerOutputV::Send(
                text_of(auth_success_tokens(success())),
            )
        }),
{
    let r = server_next(
        ServerStageV::AwaitVerdict { username, password },
        ServerEventV::StoredPassword(stored_in(users, username)),
        fresh,
    );
    let reg = ServerOutputV::Register { username, password };
    if !users.contains_key(username) {
        assert(r.1[0] == reg);
    } else if users[username] == password {
        assert forall|k: int| 0 <= k < r.1.len() implies r.1[k] != reg by {
        }
    }
}

} // verus!
