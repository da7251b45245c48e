//! Stanzas, the routed units of the protocol: messages, presence and
//! info/query requests, with the tokens that carry them.

use vstd::prelude::*;
use vstd::string::*;

use crate::jid::{format_jid, lemma_parse_format, opt_view, parse_jid, valid_jid, Jid, JidV};
use crate::xml::{
    attr_at, attrs_view, attr_token_at, empty_at, empty_token, end_at, end_token, is_empty,
    is_end, is_start, lemma_lookup_concat, lemma_lookup_opt_attr, lookup, open_name, opt_attr,
    plain_start_token, push_attr, push_token, start_at, xmlns_attr_list, read_tokens, write_tokens,
    tokens_of, text_of, start_token, text_at, text_token, text_token_at, tokens_view,
    Attr, AttrV, TokenV, XmlToken,
};

verus! {

//
// Values
//

pub struct MessageV {
    pub id: Option<Seq<char>>,
    pub from: Option<Seq<char>>,
    pub to: Option<Seq<char>>,
    pub body: Option<Seq<char>>,
    pub xml_lang: Option<Seq<char>>,
}

/// A chat message.
#[derive(Debug, Clone, PartialEq, Eq)]
pub struct Message {
    pub id: Option<String>,
    pub from: Option<String>,
    pub to: Option<String>,
    pub body: Option<String>,
    pub xml_lang: Option<String>,
}

impl View for Message {
    type V = MessageV;

    open spec fn view(&self) -> MessageV {
        MessageV {
            id: opt_view(self.id),
            from: opt_view(self.from),
            to: opt_view(self.to),
            body: opt_view(self.body),
            xml_lang: opt_view(self.xml_lang),
        }
    }
}

pub struct PresenceV {
    pub id: Option<Seq<char>>,
    pub from: Option<Seq<char>>,
    pub to: Option<Seq<char>>,
}

/// Presence information of a user.
#[derive(Debug, Clone, PartialEq, Eq)]
pub struct Presence {
    pub id: Option<String>,
    pub from: Option<String>,
    pub to: Option<String>,
}

impl View for Presence {
    type V = PresenceV;

    open spec fn view(&self) -> PresenceV {
        PresenceV { id: opt_view(self.id), from: opt_view(self.from), to: opt_view(self.to) }
    }
}

pub open spec fn opt_jid_view(o: Option<Jid>) -> Option<JidV> {
    match o {
        Some(j) => Some(j@),
        None => None,
    }
}

pub open spec fn jids_view(l: Seq<Jid>) -> Seq<JidV> {
    l.map_values(|j: Jid| j@)
}

pub struct BindV {
    pub xmlns: Seq<char>,
    pub jid: Option<JidV>,
    pub resource: Option<Seq<char>>,
}

/// Resource binding request or result.
#[derive(Debug, Clone, PartialEq, Eq)]
pub struct Bind {
    pub xmlns: String,
    pub jid: Option<Jid>,
    pub resource: Option<String>,
}

impl View for Bind {
    type V = BindV;

    open spec fn view(&self) -> BindV {
        BindV { xmlns: self.xmlns@, jid: opt_jid_view(self.jid), resource: opt_view(self.resource) }
    }
}

pub struct FriendsV {
    pub xmlns: Seq<char>,
    pub friend_list: Option<Seq<JidV>>,
}

/// Query for, or list of, the other users online.
#[derive(Debug, Clone, PartialEq, Eq)]
pub struct Friends {
    pub xmlns: String,
    pub friend_list: Option<Vec<Jid>>,
}

impl View for Friends {
    type V = FriendsV;

    open spec fn view(&self) -> FriendsV {
        FriendsV {
            xmlns: self.xmlns@,
            friend_list: match self.friend_list {
                Some(l) => Some(jids_view(l@)),
                None => None,
            },
        }
    }
}

pub enum PayloadV {
    Bind(BindV),
    Friends(FriendsV),
}

/// What an info/query stanza carries.
#[derive(Debug, Clone, PartialEq, Eq)]
pub enum Payload {
    Bind(Bind),
    Friends(Friends),
}

impl View for Payload {
    type V = PayloadV;

    open spec fn view(&self) -> PayloadV {
        match self {
            Payload::Bind(b) => PayloadV::Bind(b@),
            Payload::Friends(f) => PayloadV::Friends(f@),
        }
    }
}

pub struct IqV {
    pub id: Seq<char>,
    pub from: Option<Seq<char>>,
    pub type_: Option<Seq<char>>,
    pub payload: Option<PayloadV>,
}

/// Info/query stanza: a request or its response, correlated by `id`.
#[derive(Debug, Clone, PartialEq, Eq)]
pub struct Iq {
    pub id: String,
    pub from: Option<String>,
    pub type_: Option<String>,
    pub payload: Option<Payload>,
}

impl View for Iq {
    type V = IqV;

    open spec fn view(&self) -> IqV {
        IqV {
            id: self.id@,
            from: opt_view(self.from),
            type_: opt_view(self.type_),
            payload: match self.payload {
                Some(p) => Some(p@),
                None => None,
            },
        }
    }
}

pub enum StanzaV {
    Message(MessageV),
    Presence(PresenceV),
    Iq(IqV),
}

/// The unit of communication between users.
#[derive(Debug, Clone, PartialEq, Eq)]
pub enum Stanza {
    Message(Message),
    Presence(Presence),
    Iq(Iq),
}

impl View for Stanza {
    type V = StanzaV;

    open spec fn view(&self) -> StanzaV {
        match self {
            Stanza::Message(m) => StanzaV::Message(m@),
            Stanza::Presence(p) => StanzaV::Presence(p@),
            Stanza::Iq(q) => StanzaV::Iq(q@),
        }
    }
}

/// Why text could not be read as a protocol element.
#[derive(Debug, Clone, Copy, PartialEq, Eq, Structural)]
pub enum CodecError {
    Malformed,
}

//
// Writing: the tokens of each element
//

pub open spec fn jid_tokens(j: JidV) -> Seq<TokenV> {
    seq![
        TokenV::Start { name: "jid"@, attrs: seq![] },
        TokenV::Text { text: format_jid(j) },
        TokenV::End { name: "jid"@ },
    ]
}

pub open spec fn jids_tokens(l: Seq<JidV>) -> Seq<TokenV>
    decreases l.len(),
{
    if l.len() == 0 {
        seq![]
    } else {
        jids_tokens(l.drop_last()) + jid_tokens(l.last())
    }
}

pub open spec fn presence_attrs(p: PresenceV) -> Seq<AttrV> {
    opt_attr("id"@, p.id) + opt_attr("from"@, p.from) + opt_attr("to"@, p.to)
}

pub open spec fn presence_tokens(p: PresenceV) -> Seq<TokenV> {
    seq![TokenV::Empty { name: "presence"@, attrs: presence_attrs(p) }]
}

pub open spec fn message_attrs(m: MessageV) -> Seq<AttrV> {
    opt_attr("id"@, m.id) + opt_attr("from"@, m.from) + opt_attr("to"@, m.to) + opt_attr(
        "xml:lang"@,
        m.xml_lang,
    )
}

/// `<name>text</name>` where the text is present (`<name></name>` where it
/// is empty), else nothing.
pub open spec fn text_element(name: Seq<char>, v: Option<Seq<char>>) -> Seq<TokenV> {
    match v {
        Some(x) => if x.len() == 0 {
            seq![TokenV::Start { name, attrs: seq![] }, TokenV::End { name }]
        } else {
            seq![
            TokenV::Start { name, attrs: seq![] },
            TokenV::Text { text: x },
            TokenV::End { name },
            ]
        },
        None => seq![],
    }
}

pub open spec fn message_tokens(m: MessageV) -> Seq<TokenV> {
    seq![TokenV::Start { name: "message"@, attrs: message_attrs(m) }] + text_element(
        "body"@,
        m.body,
    ) + seq![TokenV::End { name: "message"@ }]
}

pub open spec fn xmlns_attrs(x: Seq<char>) -> Seq<AttrV> {
    seq![("xmlns"@, x)]
}

pub open spec fn opt_jid_tokens(j: Option<JidV>) -> Seq<TokenV> {
    match j {
        Some(x) => jid_tokens(x),
        None => seq![],
    }
}

pub open spec fn bind_tokens(b: BindV) -> Seq<TokenV> {
    if b.jid is None && b.resource is None {
        seq![TokenV::Empty { name: "bind"@, attrs: xmlns_attrs(b.xmlns) }]
    } else {
        seq![TokenV::Start { name: "bind"@, attrs: xmlns_attrs(b.xmlns) }] + opt_jid_tokens(b.jid)
            + text_element("resource"@, b.resource) + seq![TokenV::End { name: "bind"@ }]
    }
}

pub open spec fn friends_tokens(f: FriendsV) -> Seq<TokenV> {
    match f.friend_list {
        None => seq![TokenV::Empty { name: "friends"@, attrs: xmlns_attrs(f.xmlns) }],
        Some(l) => seq![TokenV::Start { name: "friends"@, attrs: xmlns_attrs(f.xmlns) }]
            + jids_tokens(l) + seq![TokenV::End { name: "friends"@ }],
    }
}

pub open spec fn payload_tokens(p: PayloadV) -> Seq<TokenV> {
    match p {
        PayloadV::Bind(b) => bind_tokens(b),
        PayloadV::Friends(f) => friends_tokens(f),
    }
}

pub open spec fn iq_attrs(q: IqV) -> Seq<AttrV> {
    seq![("id"@, q.id)] + opt_attr("from"@, q.from) + opt_attr("type"@, q.type_)
}

pub open spec fn iq_tokens(q: IqV) -> Seq<TokenV> {
    match q.payload {
        None => seq![TokenV::Empty { name: "iq"@, attrs: iq_attrs(q) }],
        Some(p) => seq![TokenV::Start { name: "iq"@, attrs: iq_attrs(q) }] + payload_tokens(p)
            + seq![TokenV::End { name: "iq"@ }],
    }
}

pub open spec fn stanza_tokens(s: StanzaV) -> Seq<TokenV> {
    match s {
        StanzaV::Message(m) => message_tokens(m),
        StanzaV::Presence(p) => presence_tokens(p),
        StanzaV::Iq(q) => iq_tokens(q),
    }
}

//
// Reading: the element that starts at a position, and where it ends
//

pub open spec fn dec_jid(t: Seq<TokenV>, i: int) -> Option<(JidV, int)> {
    if is_start(t, i, "jid"@) && is_end(t, i + 2, "jid"@) {
        match text_at(t, i + 1) {
            Some(x) => match parse_jid(x) {
                Some(j) => Some((j, i + 3)),
                None => None,
            },
            None => None,
        }
    } else {
        None
    }
}

pub open spec fn dec_jids(t: Seq<TokenV>, i: int) -> Option<(Seq<JidV>, int)>
    decreases t.len() - i,
{
    if is_start(t, i, "jid"@) {
        match dec_jid(t, i) {
            Some((j, k)) => match dec_jids(t, k) {
                Some((l, e)) => Some((seq![j] + l, e)),
                None => None,
            },
            None => None,
        }
    } else {
        Some((seq![], i))
    }
}

/// `<name>text</name>` at `i`, or nothing there.
pub open spec fn dec_text_element(t: Seq<TokenV>, i: int, name: Seq<char>) -> Option<
    (Option<Seq<char>>, int),
> {
    if is_start(t, i, name) && is_end(t, i + 1, name) {
        Some((Some(seq![]), i + 2))
    } else if is_start(t, i, name) {
        match text_at(t, i + 1) {
            Some(x) => if is_end(t, i + 2, name) {
                Some((Some(x), i + 3))
            } else {
                None
            },
            None => None,
        }
    } else {
        Some((None, i))
    }
}

pub open spec fn dec_opt_jid(t: Seq<TokenV>, i: int) -> Option<(Option<JidV>, int)> {
    if is_start(t, i, "jid"@) {
        match dec_jid(t, i) {
            Some((j, k)) => Some((Some(j), k)),
            None => None,
        }
    } else {
        Some((None, i))
    }
}

pub open spec fn dec_presence(t: Seq<TokenV>, i: int) -> Option<(PresenceV, int)> {
    let p = PresenceV {
        id: attr_at(t, i, "id"@),
        from: attr_at(t, i, "from"@),
        to: attr_at(t, i, "to"@),
    };
    if is_empty(t, i, "presence"@) {
        Some((p, i + 1))
    } else if is_start(t, i, "presence"@) && is_end(t, i + 1, "presence"@) {
        Some((p, i + 2))
    } else {
        None
    }
}

pub open spec fn dec_message(t: Seq<TokenV>, i: int) -> Option<(MessageV, int)> {
    if is_start(t, i, "message"@) {
        match dec_text_element(t, i + 1, "body"@) {
            Some((body, k)) => if is_end(t, k, "message"@) {
                Some(
                    (
                        MessageV {
                            id: attr_at(t, i, "id"@),
                            from: attr_at(t, i, "from"@),
                            to: attr_at(t, i, "to"@),
                            body,
                            xml_lang: attr_at(t, i, "xml:lang"@),
                        },
                        k + 1,
                    ),
                )
            } else {
                None
            },
            None => None,
        }
    } else {
        None
    }
}

pub open spec fn dec_bind(t: Seq<TokenV>, i: int) -> Option<(BindV, int)> {
    match attr_at(t, i, "xmlns"@) {
        None => None,
        Some(x) => if is_empty(t, i, "bind"@) {
            Some((BindV { xmlns: x, jid: None, resource: None }, i + 1))
        } else if is_start(t, i, "bind"@) {
            match dec_opt_jid(t, i + 1) {
                None => None,
                Some((j, k)) => match dec_text_element(t, k, "resource"@) {
                    None => None,
                    Some((r, k2)) => if is_end(t, k2, "bind"@) {
                        Some((BindV { xmlns: x, jid: j, resource: r }, k2 + 1))
                    } else {
                        None
                    },
                },
            }
        } else {
            None
        },
    }
}

pub open spec fn dec_friends(t: Seq<TokenV>, i: int) -> Option<(FriendsV, int)> {
    match attr_at(t, i, "xmlns"@) {
        None => None,
        Some(x) => if is_empty(t, i, "friends"@) {
            Some((FriendsV { xmlns: x, friend_list: None }, i + 1))
        } else if is_start(t, i, "friends"@) {
            match dec_jids(t, i + 1) {
                Some((l, k)) => if is_end(t, k, "friends"@) {
                    Some((FriendsV { xmlns: x, friend_list: Some(l) }, k + 1))
                } else {
                    None
                },
                None => None,
            }
        } else {
            None
        },
    }
}

pub open spec fn dec_payload(t: Seq<TokenV>, i: int) -> Option<(PayloadV, int)> {
    if 0 <= i < t.len() && open_name(t[i]) == Some("bind"@) {
        match dec_bind(t, i) {
            Some((b, k)) => Some((PayloadV::Bind(b), k)),
            None => None,
        }
    } else if 0 <= i < t.len() && open_name(t[i]) == Some("friends"@) {
        match dec_friends(t, i) {
            Some((f, k)) => Some((PayloadV::Friends(f), k)),
            None => None,
        }
    } else {
        None
    }
}

pub open spec fn dec_iq(t: Seq<TokenV>, i: int) -> Option<(IqV, int)> {
    match attr_at(t, i, "id"@) {
        None => None,
        Some(id) => {
            let q = IqV {
                id,
                from: attr_at(t, i, "from"@),
                type_: attr_at(t, i, "type"@),
                payload: None,
            };
            if is_empty(t, i, "iq"@) {
                Some((q, i + 1))
            } else if is_start(t, i, "iq"@) {
                if is_end(t, i + 1, "iq"@) {
                    Some((q, i + 2))
                } else {
                    match dec_payload(t, i + 1) {
                        Some((p, k)) => if is_end(t, k, "iq"@) {
                            Some((IqV { payload: Some(p), ..q }, k + 1))
                        } else {
                            None
                        },
                        None => None,
                    }
                }
            } else {
                None
            }
        },
    }
}

/// The stanza that the tokens start with.
pub open spec fn dec_stanza(t: Seq<TokenV>) -> Option<StanzaV> {
    if t.len() > 0 && open_name(t[0]) == Some("message"@) {
        match dec_message(t, 0) {
            Some((m, _)) => Some(StanzaV::Message(m)),
            None => None,
        }
    } else if t.len() > 0 && open_name(t[0]) == Some("presence"@) {
        match dec_presence(t, 0) {
            Some((p, _)) => Some(StanzaV::Presence(p)),
            None => None,
        }
    } else if t.len() > 0 && open_name(t[0]) == Some("iq"@) {
        match dec_iq(t, 0) {
            Some((q, _)) => Some(StanzaV::Iq(q)),
            None => None,
        }
    } else {
        None
    }
}

//
// Reading and writing
//

/// `<name>text</name>` where `v` is present.
pub fn write_text_element(out: &mut Vec<XmlToken>, name: &str, v: &Option<String>)
    ensures
        tokens_view(final(out)@) == tokens_view(old(out)@) + text_element(name@, opt_view(*v)),
{
    match v {
        Some(x) => {
            push_token(out, plain_start_token(name));
            if !x.as_str().is_empty() {
                push_token(out, text_token(x));
            }
            push_token(out, end_token(name));
        },
        None => {},
    }
    assert(tokens_view(out@) =~= tokens_view(old(out)@) + text_element(name@, opt_view(*v)));
}

/// Reads `<name>text</name>` at `i`, or nothing there.
pub fn read_text_element(t: &Vec<XmlToken>, i: usize, name: &str) -> (r: Option<(Option<String>, usize)>)
    requires
        i <= t@.len(),
    ensures
        match r {
            Some((v, k)) => dec_text_element(tokens_view(t@), i as int, name@) == Some(
                (opt_view(v), k as int),
            ) && k <= t@.len(),
            None => dec_text_element(tokens_view(t@), i as int, name@) is None,
        },
{
    if !start_at(t, i, name) {
        return Some((None, i));
    }
    if end_at(t, i + 1, name) {
        return Some((Some(String::new()), i + 2));
    }
    match text_token_at(t, i + 1) {
        Some(x) => {
            if end_at(t, i + 2, name) {
                Some((Some(x), i + 3))
            } else {
                None
            }
        },
        None => None,
    }
}

/// Writes `<jid>address</jid>`.
pub fn write_jid(j: &Jid, out: &mut Vec<XmlToken>)
    ensures
        tokens_view(final(out)@) == tokens_view(old(out)@) + jid_tokens(j@),
{
    push_token(out, plain_start_token("jid"));
    push_token(out, text_token(&j.to_string()));
    push_token(out, end_token("jid"));
    assert(tokens_view(out@) =~= tokens_view(old(out)@) + jid_tokens(j@));
}

/// Reads `<jid>address</jid>` at `i`.
pub fn read_jid(t: &Vec<XmlToken>, i: usize) -> (r: Option<(Jid, usize)>)
    ensures
        match r {
            Some((j, k)) => dec_jid(tokens_view(t@), i as int) == Some((j@, k as int)) && k
                <= t@.len(),
            None => dec_jid(tokens_view(t@), i as int) is None,
        },
{
    if !start_at(t, i, "jid") {
        return None;
    }
    match text_token_at(t, i + 1) {
        Some(x) => {
            if !end_at(t, i + 2, "jid") {
                return None;
            }
            match Jid::parse(x.as_str()) {
                Ok(j) => Some((j, i + 3)),
                Err(_) => None,
            }
        },
        None => None,
    }
}

/// Writes one `<jid>` element per address.
fn write_jids(l: &Vec<Jid>, out: &mut Vec<XmlToken>)
    ensures
        tokens_view(final(out)@) == tokens_view(old(out)@) + jids_tokens(jids_view(l@)),
{
    let ghost start = tokens_view(out@);
    let mut i: usize = 0;
    assert(jids_view(l@).take(0) =~= seq![]);
    assert(start + jids_tokens(seq![]) =~= start);
    while i < l.len()
        invariant
            i <= l@.len(),
            tokens_view(out@) == start + jids_tokens(jids_view(l@).take(i as int)),
        decreases l@.len() - i,
    {
        let ghost before = tokens_view(out@);
        write_jid(&l[i], out);
        assert(jids_view(l@).take(i + 1).drop_last() =~= jids_view(l@).take(i as int));
        assert(jids_view(l@).take(i + 1).last() == l@[i as int]@);
        assert(tokens_view(out@) =~= start + jids_tokens(jids_view(l@).take(i + 1)));
        i = i + 1;
    }
    assert(jids_view(l@).take(l@.len() as int) =~= jids_view(l@));
}

/// Reads consecutive `<jid>` elements from `i`.
fn read_jids(t: &Vec<XmlToken>, i: usize) -> (r: Option<(Vec<Jid>, usize)>)
    requires
        i <= t@.len(),
    ensures
        match r {
            Some((l, k)) => dec_jids(tokens_view(t@), i as int) == Some(
                (jids_view(l@), k as int),
            ) && k <= t@.len(),
            None => dec_jids(tokens_view(t@), i as int) is None,
        },
{
    let ghost tv = tokens_view(t@);
    let mut out: Vec<Jid> = Vec::new();
    let mut k = i;
    assert(jids_view(out@) =~= seq![]);
    while start_at(t, k, "jid")
        invariant
            tv == tokens_view(t@),
            k <= t@.len(),
            dec_jids(tv, i as int) == (match dec_jids(tv, k as int) {
                Some((l, e)) => Some((jids_view(out@) + l, e)),
                None => None,
            }),
        decreases t@.len() - k,
    {
        match read_jid(t, k) {
            Some((j, k2)) => {
                let ghost prev = jids_view(out@);
                out.push(j);
                assert(jids_view(out@) =~= prev.push(j@));
                proof {
                    match dec_jids(tv, k2 as int) {
                        Some((l, e)) => {
                            assert(prev + (seq![j@] + l) =~= jids_view(out@) + l);
                        },
                        None => {},
                    }
                }
                k = k2;
            },
            None => {
                return None;
            },
        }
    }
    assert(jids_view(out@) + seq![] =~= jids_view(out@));
    Some((out, k))
}

impl Presence {
    pub fn new() -> (r: Presence)
        ensures
            r@ == (PresenceV { id: None, from: None, to: None }),
    {
        Presence { id: None, from: None, to: None }
    }

    /// Writes `<presence .../>`.
    pub fn write_xml(&self, out: &mut Vec<XmlToken>)
        ensures
            tokens_view(final(out)@) == tokens_view(old(out)@) + presence_tokens(self@),
    {
        let mut attrs: Vec<Attr> = Vec::new();
        assert(attrs_view(attrs@) =~= seq![]);
        push_attr(&mut attrs, "id", &self.id);
        push_attr(&mut attrs, "from", &self.from);
        push_attr(&mut attrs, "to", &self.to);
        push_token(out, empty_token("presence", attrs));
        assert(tokens_view(out@) =~= tokens_view(old(out)@) + presence_tokens(self@));
    }

    /// Reads the presence element at `i`.
    pub fn read_xml(t: &Vec<XmlToken>, i: usize) -> (r: Option<(Presence, usize)>)
        ensures
            match r {
                Some((p, k)) => dec_presence(tokens_view(t@), i as int) == Some((p@, k as int))
                    && k <= t@.len(),
                None => dec_presence(tokens_view(t@), i as int) is None,
            },
    {
        let p = Presence {
            id: attr_token_at(t, i, "id"),
            from: attr_token_at(t, i, "from"),
            to: attr_token_at(t, i, "to"),
        };
        if empty_at(t, i, "presence") {
            Some((p, i + 1))
        } else if start_at(t, i, "presence") && end_at(t, i + 1, "presence") {
            Some((p, i + 2))
        } else {
            None
        }
    }
}

impl Message {
    pub fn new() -> (r: Message)
        ensures
            r@ == (MessageV { id: None, from: None, to: None, body: None, xml_lang: None }),
    {
        Message { id: None, from: None, to: None, body: None, xml_lang: None }
    }

    /// Writes `<message ...><body>...</body></message>`.
    pub fn write_xml(&self, out: &mut Vec<XmlToken>)
        ensures
            tokens_view(final(out)@) == tokens_view(old(out)@) + message_tokens(self@),
    {
        let mut attrs: Vec<Attr> = Vec::new();
        assert(attrs_view(attrs@) =~= seq![]);
        push_attr(&mut attrs, "id", &self.id);
        push_attr(&mut attrs, "from", &self.from);
        push_attr(&mut attrs, "to", &self.to);
        push_attr(&mut attrs, "xml:lang", &self.xml_lang);
        push_token(out, start_token("message", attrs));
        write_text_element(out, "body", &self.body);
        push_token(out, end_token("message"));
        assert(tokens_view(out@) =~= tokens_view(old(out)@) + message_tokens(self@));
    }

    /// Reads the message element at `i`.
    pub fn read_xml(t: &Vec<XmlToken>, i: usize) -> (r: Option<(Message, usize)>)
        ensures
            match r {
                Some((m, k)) => dec_message(tokens_view(t@), i as int) == Some((m@, k as int))
                    && k <= t@.len(),
                None => dec_message(tokens_view(t@), i as int) is None,
            },
    {
        if !start_at(t, i, "message") {
            return None;
        }
        match read_text_element(t, i + 1, "body") {
            Some((body, k)) => {
                if end_at(t, k, "message") {
                    Some(
                        (
                            Message {
                                id: attr_token_at(t, i, "id"),
                                from: attr_token_at(t, i, "from"),
                                to: attr_token_at(t, i, "to"),
                                body,
                                xml_lang: attr_token_at(t, i, "xml:lang"),
                            },
                            k + 1,
                        ),
                    )
                } else {
                    None
                }
            },
            None => None,
        }
    }
}

impl Bind {
    pub fn new(xmlns: String) -> (r: Bind)
        ensures
            r@ == (BindV { xmlns: xmlns@, jid: None, resource: None }),
    {
        Bind { xmlns, jid: None, resource: None }
    }

    /// Neither an address nor a resource.
    pub fn is_empty(&self) -> (r: bool)
        ensures
            r == (self@.jid is None && self@.resource is None),
    {
        self.jid.is_none() && self.resource.is_none()
    }

    /// Writes `<bind xmlns/>` or `<bind xmlns><jid>..</jid><resource>..</resource></bind>`.
    pub fn write_xml(&self, out: &mut Vec<XmlToken>)
        ensures
            tokens_view(final(out)@) == tokens_view(old(out)@) + bind_tokens(self@),
    {
        if self.is_empty() {
            push_token(out, empty_token("bind", xmlns_attr_list(&self.xmlns)));
        } else {
            push_token(out, start_token("bind", xmlns_attr_list(&self.xmlns)));
            match &self.jid {
                Some(j) => write_jid(j, out),
                None => {},
            }
            write_text_element(out, "resource", &self.resource);
            push_token(out, end_token("bind"));
        }
        assert(tokens_view(out@) =~= tokens_view(old(out)@) + bind_tokens(self@));
    }

    /// Reads the bind element at `i`.
    pub fn read_xml(t: &Vec<XmlToken>, i: usize) -> (r: Option<(Bind, usize)>)
        ensures
            match r {
                Some((b, k)) => dec_bind(tokens_view(t@), i as int) == Some((b@, k as int)) && k
                    <= t@.len(),
                None => dec_bind(tokens_view(t@), i as int) is None,
            },
    {
        let xmlns = match attr_token_at(t, i, "xmlns") {
            Some(x) => x,
            None => {
                return None;
            },
        };
        if empty_at(t, i, "bind") {
            return Some((Bind::new(xmlns), i + 1));
        }
        if !start_at(t, i, "bind") {
            return None;
        }
        let (jid, k) = if start_at(t, i + 1, "jid") {
            match read_jid(t, i + 1) {
                Some((j, k)) => (Some(j), k),
                None => {
                    return None;
                },
            }
        } else {
            (None, i + 1)
        };
        match read_text_element(t, k, "resource") {
            Some((resource, k2)) => {
                if end_at(t, k2, "bind") {
                    Some((Bind { xmlns, jid, resource }, k2 + 1))
                } else {
                    None
                }
            },
            None => None,
        }
    }
}

impl Friends {
    pub fn new(xmlns: String) -> (r: Friends)
        ensures
            r@ == (FriendsV { xmlns: xmlns@, friend_list: None }),
    {
        Friends { xmlns, friend_list: None }
    }

    /// Writes `<friends xmlns/>` or `<friends xmlns><jid>..</jid>...</friends>`.
    pub fn write_xml(&self, out: &mut Vec<XmlToken>)
        ensures
            tokens_view(final(out)@) == tokens_view(old(out)@) + friends_tokens(self@),
    {
        match &self.friend_list {
            None => {
                push_token(out, empty_token("friends", xmlns_attr_list(&self.xmlns)));
            },
            Some(l) => {
                push_token(out, start_token("friends", xmlns_attr_list(&self.xmlns)));
                write_jids(l, out);
                push_token(out, end_token("friends"));
            },
        }
        assert(tokens_view(out@) =~= tokens_view(old(out)@) + friends_tokens(self@));
    }

    /// Reads the friends element at `i`.
    pub fn read_xml(t: &Vec<XmlToken>, i: usize) -> (r: Option<(Friends, usize)>)
        ensures
            match r {
                Some((f, k)) => dec_friends(tokens_view(t@), i as int) == Some((f@, k as int))
                    && k <= t@.len(),
                None => dec_friends(tokens_view(t@), i as int) is None,
            },
    {
        let xmlns = match attr_token_at(t, i, "xmlns") {
            Some(x) => x,
            None => {
                return None;
            },
        };
        if empty_at(t, i, "friends") {
            return Some((Friends::new(xmlns), i + 1));
        }
        if !start_at(t, i, "friends") {
            return None;
        }
        match read_jids(t, i + 1) {
            Some((l, k)) => {
                if end_at(t, k, "friends") {
                    Some((Friends { xmlns, friend_list: Some(l) }, k + 1))
                } else {
                    None
                }
            },
            None => None,
        }
    }
}

/// Name of the tag at `i`, where it is a start or empty tag.
pub fn open_name_at(t: &Vec<XmlToken>, i: usize, name: &str) -> (r: bool)
    ensures
        r == (0 <= i < t@.len() && open_name(tokens_view(t@)[i as int]) == Some(name@)),
{
    start_at(t, i, name) || empty_at(t, i, name)
}

impl Payload {
    pub fn write_xml(&self, out: &mut Vec<XmlToken>)
        ensures
            tokens_view(final(out)@) == tokens_view(old(out)@) + payload_tokens(self@),
    {
        match self {
            Payload::Bind(b) => b.write_xml(out),
            Payload::Friends(f) => f.write_xml(out),
        }
    }

    /// Reads the payload element at `i`.
    pub fn read_xml(t: &Vec<XmlToken>, i: usize) -> (r: Option<(Payload, usize)>)
        ensures
            match r {
                Some((p, k)) => dec_payload(tokens_view(t@), i as int) == Some((p@, k as int))
                    && k <= t@.len(),
                None => dec_payload(tokens_view(t@), i as int) is None,
            },
    {
        if open_name_at(t, i, "bind") {
            match Bind::read_xml(t, i) {
                Some((b, k)) => Some((Payload::Bind(b), k)),
                None => None,
            }
        } else if open_name_at(t, i, "friends") {
            match Friends::read_xml(t, i) {
                Some((f, k)) => Some((Payload::Friends(f), k)),
                None => None,
            }
        } else {
            None
        }
    }
}

impl Iq {
    pub fn new(id: String) -> (r: Iq)
        ensures
            r@ == (IqV { id: id@, from: None, type_: None, payload: None }),
    {
        Iq { id, from: None, type_: None, payload: None }
    }

    /// Writes `<iq id .../>` or `<iq id ...>payload</iq>`.
    pub fn write_xml(&self, out: &mut Vec<XmlToken>)
        ensures
            tokens_view(final(out)@) == tokens_view(old(out)@) + iq_tokens(self@),
    {
        let mut attrs: Vec<Attr> = Vec::new();
        assert(attrs_view(attrs@) =~= seq![]);
        push_attr(&mut attrs, "id", &Some(self.id.clone()));
        push_attr(&mut attrs, "from", &self.from);
        push_attr(&mut attrs, "type", &self.type_);
        assert(opt_attr("id"@, Some(self.id@)) =~= seq![("id"@, self.id@)]);
        match &self.payload {
            None => {
                push_token(out, empty_token("iq", attrs));
            },
            Some(p) => {
                push_token(out, start_token("iq", attrs));
                p.write_xml(out);
                push_token(out, end_token("iq"));
            },
        }
        assert(tokens_view(out@) =~= tokens_view(old(out)@) + iq_tokens(self@));
    }

    /// Reads the iq element at `i`.
    pub fn read_xml(t: &Vec<XmlToken>, i: usize) -> (r: Option<(Iq, usize)>)
        ensures
            match r {
                Some((q, k)) => dec_iq(tokens_view(t@), i as int) == Some((q@, k as int)) && k
                    <= t@.len(),
                None => dec_iq(tokens_view(t@), i as int) is None,
            },
    {
        let id = match attr_token_at(t, i, "id") {
            Some(x) => x,
            None => {
                return None;
            },
        };
        let q = Iq {
            id,
            from: attr_token_at(t, i, "from"),
            type_: attr_token_at(t, i, "type"),
            payload: None,
        };
        if empty_at(t, i, "iq") {
            Some((q, i + 1))
        } else if start_at(t, i, "iq") {
            if end_at(t, i + 1, "iq") {
                Some((q, i + 2))
            } else {
                match Payload::read_xml(t, i + 1) {
                    Some((p, k)) => {
                        if end_at(t, k, "iq") {
                            Some((Iq { payload: Some(p), ..q }, k + 1))
                        } else {
                            None
                        }
                    },
                    None => None,
                }
            }
        } else {
            None
        }
    }
}

impl Stanza {
    pub fn write_xml(&self, out: &mut Vec<XmlToken>)
        ensures
            tokens_view(final(out)@) == tokens_view(old(out)@) + stanza_tokens(self@),
    {
        match self {
            Stanza::Message(m) => m.write_xml(out),
            Stanza::Presence(p) => p.write_xml(out),
            Stanza::Iq(q) => q.write_xml(out),
        }
    }

    /// Reads the stanza that the tokens start with.
    pub fn read_xml(t: &Vec<XmlToken>) -> (r: Option<Stanza>)
        ensures
            match r {
                Some(s) => dec_stanza(tokens_view(t@)) == Some(s@),
                None => dec_stanza(tokens_view(t@)) is None,
            },
    {
        if open_name_at(t, 0, "message") {
            match Message::read_xml(t, 0) {
                Some((m, _)) => Some(Stanza::Message(m)),
                None => None,
            }
        } else if open_name_at(t, 0, "presence") {
            match Presence::read_xml(t, 0) {
                Some((p, _)) => Some(Stanza::Presence(p)),
                None => None,
            }
        } else if open_name_at(t, 0, "iq") {
            match Iq::read_xml(t, 0) {
                Some((q, _)) => Some(Stanza::Iq(q)),
                None => None,
            }
        } else {
            None
        }
    }
}

//
// Text
//

/// The stanza that a text holds.
pub open spec fn read_stanza(text: Seq<char>) -> Option<StanzaV> {
    match tokens_of(text) {
        Some(t) => dec_stanza(t),
        None => None,
    }
}

/// The element of kind `dec` that a text starts with.
pub open spec fn first_element<V>(text: Seq<char>, dec: spec_fn(Seq<TokenV>, int) -> Option<(V, int)>) -> Option<V> {
    match tokens_of(text) {
        Some(t) => match dec(t, 0) {
            Some((v, _)) => Some(v),
            None => None,
        },
        None => None,
    }
}

impl Stanza {
    /// The stanza as XML text.
    pub fn write_xml_string(&self) -> (r: String)
        ensures
            r@ == text_of(stanza_tokens(self@)),
    {
        let mut t: Vec<XmlToken> = Vec::new();
        assert(tokens_view(t@) =~= seq![]);
        self.write_xml(&mut t);
        assert(tokens_view(t@) =~= stanza_tokens(self@));
        write_tokens(&t)
    }

    /// Reads a stanza from XML text.
    pub fn read_xml_string(text: &str) -> (r: Result<Stanza, CodecError>)
        ensures
            match r {
                Ok(s) => read_stanza(text@) == Some(s@),
                Err(_) => read_stanza(text@) is None,
            },
    {
        match read_tokens(text) {
            Some(t) => match Stanza::read_xml(&t) {
                Some(s) => Ok(s),
                None => Err(CodecError::Malformed),
            },
            None => Err(CodecError::Malformed),
        }
    }
}

impl Jid {
    /// The element as XML text.
    pub fn write_xml_string(&self) -> (r: String)
        ensures
            r@ == text_of(jid_tokens(self@)),
    {
        let mut t: Vec<XmlToken> = Vec::new();
        assert(tokens_view(t@) =~= seq![]);
        write_jid(self, &mut t);
        assert(tokens_view(t@) =~= jid_tokens(self@));
        write_tokens(&t)
    }

    /// Reads the element from XML text.
    pub fn read_xml_string(text: &str) -> (r: Result<Jid, CodecError>)
        ensures
            match r {
                Ok(v) => first_element(text@, |t: Seq<TokenV>, i: int| dec_jid(t, i)) == Some(v@),
                Err(_) => first_element(text@, |t: Seq<TokenV>, i: int| dec_jid(t, i)) is None,
            },
    {
        match read_tokens(text) {
            Some(t) => match read_jid(&t, 0) {
                Some((v, _)) => Ok(v),
                None => Err(CodecError::Malformed),
            },
            None => Err(CodecError::Malformed),
        }
    }
}

impl Presence {
    /// The element as XML text.
    pub fn write_xml_string(&self) -> (r: String)
        ensures
            r@ == text_of(presence_tokens(self@)),
    {
        let mut t: Vec<XmlToken> = Vec::new();
        assert(tokens_view(t@) =~= seq![]);
        self.write_xml(&mut t);
        assert(tokens_view(t@) =~= presence_tokens(self@));
        write_tokens(&t)
    }

    /// Reads the element from XML text.
    pub fn read_xml_string(text: &str) -> (r: Result<Presence, CodecError>)
        ensures
            match r {
                Ok(v) => first_element(text@, |t: Seq<TokenV>, i: int| dec_presence(t, i)) == Some(v@),
                Err(_) => first_element(text@, |t: Seq<TokenV>, i: int| dec_presence(t, i)) is None,
            },
    {
        match read_tokens(text) {
            Some(t) => match Presence::read_xml(&t, 0) {
                Some((v, _)) => Ok(v),
                None => Err(CodecError::Malformed),
            },
            None => Err(CodecError::Malformed),
        }
    }
}

impl Message {
    /// The element as XML text.
    pub fn write_xml_string(&self) -> (r: String)
        ensures
            r@ == text_of(message_tokens(self@)),
    {
        let mut t: Vec<XmlToken> = Vec::new();
        assert(tokens_view(t@) =~= seq![]);
        self.write_xml(&mut t);
        assert(tokens_view(t@) =~= message_tokens(self@));
        write_tokens(&t)
    }

    /// Reads the element from XML text.
    pub fn read_xml_string(text: &str) -> (r: Result<Message, CodecError>)
        ensures
            match r {
                Ok(v) => first_element(text@, |t: Seq<TokenV>, i: int| dec_message(t, i)) == Some(v@),
                Err(_) => first_element(text@, |t: Seq<TokenV>, i: int| dec_message(t, i)) is None,
            },
    {
        match read_tokens(text) {
            Some(t) => match Message::read_xml(&t, 0) {
                Some((v, _)) => Ok(v),
                None => Err(CodecError::Malformed),
            },
            None => Err(CodecError::Malformed),
        }
    }
}

impl Bind {
    /// The element as XML text.
    pub fn write_xml_string(&self) -> (r: String)
        ensures
            r@ == text_of(bind_tokens(self@)),
    {
        let mut t: Vec<XmlToken> = Vec::new();
        assert(tokens_view(t@) =~= seq![]);
        self.write_xml(&mut t);
        assert(tokens_view(t@) =~= bind_tokens(self@));
        write_tokens(&t)
    }

    /// Reads the element from XML text.
    pub fn read_xml_string(text: &str) -> (r: Result<Bind, CodecError>)
        ensures
            match r {
                Ok(v) => first_element(text@, |t: Seq<TokenV>, i: int| dec_bind(t, i)) == Some(v@),
                Err(_) => first_element(text@, |t: Seq<TokenV>, i: int| dec_bind(t, i)) is None,
            },
    {
        match read_tokens(text) {
            Some(t) => match Bind::read_xml(&t, 0) {
                Some((v, _)) => Ok(v),
                None => Err(CodecError::Malformed),
            },
            None => Err(CodecError::Malformed),
        }
    }
}

impl Friends {
    /// The element as XML text.
    pub fn write_xml_string(&self) -> (r: String)
        ensures
            r@ == text_of(friends_tokens(self@)),
    {
        let mut t: Vec<XmlToken> = Vec::new();
        assert(tokens_view(t@) =~= seq![]);
        self.write_xml(&mut t);
        assert(tokens_view(t@) =~= friends_tokens(self@));
        write_tokens(&t)
    }

    /// Reads the element from XML text.
    pub fn read_xml_string(text: &str) -> (r: Result<Friends, CodecError>)
        ensures
            match r {
                Ok(v) => first_element(text@, |t: Seq<TokenV>, i: int| dec_friends(t, i)) == Some(v@),
                Err(_) => first_element(text@, |t: Seq<TokenV>, i: int| dec_friends(t, i)) is None,
            },
    {
        match read_tokens(text) {
            Some(t) => match Friends::read_xml(&t, 0) {
                Some((v, _)) => Ok(v),
                None => Err(CodecError::Malformed),
            },
            None => Err(CodecError::Malformed),
        }
    }
}

impl Payload {
    /// The element as XML text.
    pub fn write_xml_string(&self) -> (r: String)
        ensures
            r@ == text_of(payload_tokens(self@)),
    {
        let mut t: Vec<XmlToken> = Vec::new();
        assert(tokens_view(t@) =~= seq![]);
        self.write_xml(&mut t);
        assert(tokens_view(t@) =~= payload_tokens(self@));
        write_tokens(&t)
    }

    /// Reads the element from XML text.
    pub fn read_xml_string(text: &str) -> (r: Result<Payload, CodecError>)
        ensures
            match r {
                Ok(v) => first_element(text@, |t: Seq<TokenV>, i: int| dec_payload(t, i)) == Some(v@),
                Err(_) => first_element(text@, |t: Seq<TokenV>, i: int| dec_payload(t, i)) is None,
            },
    {
        match read_tokens(text) {
            Some(t) => match Payload::read_xml(&t, 0) {
                Some((v, _)) => Ok(v),
                None => Err(CodecError::Malformed),
            },
            None => Err(CodecError::Malformed),
        }
    }
}

impl Iq {
    /// The element as XML text.
    pub fn write_xml_string(&self) -> (r: String)
        ensures
            r@ == text_of(iq_tokens(self@)),
    {
        let mut t: Vec<XmlToken> = Vec::new();
        assert(tokens_view(t@) =~= seq![]);
        self.write_xml(&mut t);
        assert(tokens_view(t@) =~= iq_tokens(self@));
        write_tokens(&t)
    }

    /// Reads the element from XML text.
    pub fn read_xml_string(text: &str) -> (r: Result<Iq, CodecError>)
        ensures
            match r {
                Ok(v) => first_element(text@, |t: Seq<TokenV>, i: int| dec_iq(t, i)) == Some(v@),
                Err(_) => first_element(text@, |t: Seq<TokenV>, i: int| dec_iq(t, i)) is None,
            },
    {
        match read_tokens(text) {
            Some(t) => match Iq::read_xml(&t, 0) {
                Some((v, _)) => Ok(v),
                None => Err(CodecError::Malformed),
            },
            None => Err(CodecError::Malformed),
        }
    }
}

//
// Reading what was written
//

/// A stanza that text can carry: every address in it can be written as
/// text.
pub open spec fn constructible(s: StanzaV) -> bool {
    match s {
        StanzaV::Iq(q) => match q.payload {
            Some(PayloadV::Bind(b)) => match b.jid {
                Some(j) => valid_jid(j),
                None => true,
            },
            Some(PayloadV::Friends(f)) => match f.friend_list {
                Some(l) => forall|k: int| 0 <= k < l.len() ==> valid_jid(#[trigger] l[k]),
                None => true,
            },
            None => true,
        },
        _ => true,
    }
}

pub proof fn lemma_literals()
    ensures
        "id"@ != "from"@,
        "id"@ != "to"@,
        "id"@ != "xml:lang"@,
        "id"@ != "type"@,
        "from"@ != "to"@,
        "from"@ != "xml:lang"@,
        "from"@ != "type"@,
        "to"@ != "xml:lang"@,
        "resource"@ != "jid"@,
        "message"@ != "presence"@,
        "message"@ != "iq"@,
        "presence"@ != "iq"@,
        "bind"@ != "friends"@,
{
    reveal_strlit("id");
    reveal_strlit("from");
    reveal_strlit("to");
    reveal_strlit("xml:lang");
    reveal_strlit("type");
    reveal_strlit("resource");
    reveal_strlit("jid");
    reveal_strlit("message");
    reveal_strlit("presence");
    reveal_strlit("iq");
    reveal_strlit("bind");
    reveal_strlit("friends");
    assert("id"@[0] != "to"@[0]);
    assert("resource"@.len() != "jid"@.len());
    assert("message"@.len() != "presence"@.len());
    assert("bind"@.len() != "friends"@.len());
    assert("from"@[0] != "type"@[0]);
}

/// Looking up a key in attributes made of optional pieces.
proof fn lemma_lookup_pieces(
    k1: Seq<char>,
    v1: Option<Seq<char>>,
    k2: Seq<char>,
    v2: Option<Seq<char>>,
    k3: Seq<char>,
    v3: Option<Seq<char>>,
    rest: Seq<AttrV>,
    k: Seq<char>,
)
    ensures
        lookup(opt_attr(k1, v1) + opt_attr(k2, v2) + opt_attr(k3, v3) + rest, k) == (if k == k1
            && v1 is Some {
            v1
        } else if k == k2 && v2 is Some {
            v2
        } else if k == k3 && v3 is Some {
            v3
        } else {
            lookup(rest, k)
        }),
{
    let a = opt_attr(k1, v1);
    let b = opt_attr(k2, v2);
    let c = opt_attr(k3, v3);
    lemma_lookup_concat(a + b + c, rest, k);
    lemma_lookup_concat(a + b, c, k);
    lemma_lookup_concat(a, b, k);
    lemma_lookup_opt_attr(k1, v1, k);
    lemma_lookup_opt_attr(k2, v2, k);
    lemma_lookup_opt_attr(k3, v3, k);
}

/// A piece of a piece of `t` is a piece of `t`.
pub proof fn lemma_slice(t: Seq<TokenV>, i: int, whole: Seq<TokenV>, off: int, part: Seq<TokenV>)
    requires
        0 <= i,
        i + whole.len() <= t.len(),
        t.subrange(i, i + whole.len()) == whole,
        0 <= off,
        off + part.len() <= whole.len(),
        whole.subrange(off, off + part.len()) == part,
    ensures
        t.subrange(i + off, i + off + part.len()) == part,
{
    assert forall|m: int| 0 <= m < part.len() implies t.subrange(i + off, i + off + part.len())[m]
        == part[m] by {
        assert(t.subrange(i, i + whole.len())[off + m] == t[i + off + m]);
        assert(whole.subrange(off, off + part.len())[m] == whole[off + m]);
    }
    assert(t.subrange(i + off, i + off + part.len()) =~= part);
}

proof fn lemma_jid_at(t: Seq<TokenV>, i: int, j: JidV)
    requires
        valid_jid(j),
        0 <= i,
        i + 3 <= t.len(),
        t.subrange(i, i + 3) == jid_tokens(j),
    ensures
        dec_jid(t, i) == Some((j, i + 3)),
{
    assert(t[i] == jid_tokens(j)[0]);
    assert(t[i + 1] == jid_tokens(j)[1]);
    assert(t[i + 2] == jid_tokens(j)[2]);
    lemma_parse_format(j);
}

proof fn lemma_jids_tokens_len(l: Seq<JidV>)
    ensures
        jids_tokens(l).len() == 3 * l.len(),
    decreases l.len(),
{
    if l.len() > 0 {
        lemma_jids_tokens_len(l.drop_last());
    }
}

proof fn lemma_jids_tokens_front(l: Seq<JidV>)
    requires
        l.len() > 0,
    ensures
        jids_tokens(l) == jid_tokens(l[0]) + jids_tokens(l.drop_first()),
    decreases l.len(),
{
    if l.len() == 1 {
        assert(l.drop_last() =~= seq![]);
        assert(l.drop_first() =~= seq![]);
        assert(jids_tokens(l) =~= jid_tokens(l[0]) + jids_tokens(l.drop_first()));
    } else {
        lemma_jids_tokens_front(l.drop_last());
        assert(l.drop_last().drop_first() =~= l.drop_first().drop_last());
        assert(l.drop_first().last() == l.last());
        assert(l.drop_last()[0] == l[0]);
        assert(jids_tokens(l) =~= jid_tokens(l[0]) + jids_tokens(l.drop_first()));
    }
}

proof fn lemma_jids_at(t: Seq<TokenV>, i: int, l: Seq<JidV>)
    requires
        forall|k: int| 0 <= k < l.len() ==> valid_jid(#[trigger] l[k]),
        0 <= i,
        i + 3 * l.len() < t.len(),
        t.subrange(i, i + 3 * l.len()) == jids_tokens(l),
        !is_start(t, i + 3 * l.len(), "jid"@),
    ensures
        dec_jids(t, i) == Some((l, i + 3 * l.len())),
    decreases l.len(),
{
    lemma_jids_tokens_len(l);
    if l.len() == 0 {
        assert(dec_jids(t, i) == Some((Seq::<JidV>::empty(), i)));
        assert(l =~= seq![]);
    } else {
        lemma_jids_tokens_front(l);
        let rest = l.drop_first();
        lemma_jids_tokens_len(rest);
        let whole = jids_tokens(l);
        assert(whole.subrange(0, 3) =~= jid_tokens(l[0]));
        lemma_slice(t, i, whole, 0, jid_tokens(l[0]));
        assert(valid_jid(l[0]));
        lemma_jid_at(t, i, l[0]);
        assert(whole.subrange(3, 3 + 3 * rest.len() as int) =~= jids_tokens(rest));
        lemma_slice(t, i, whole, 3, jids_tokens(rest));
        assert forall|k: int| 0 <= k < rest.len() implies valid_jid(#[trigger] rest[k]) by {
            assert(rest[k] == l[k + 1]);
        }
        lemma_jids_at(t, i + 3, rest);
        assert(t[i] == jids_tokens(l)[0]);
        assert(seq![l[0]] + rest =~= l);
    }
}

pub proof fn lemma_text_element_at(t: Seq<TokenV>, i: int, name: Seq<char>, v: Option<Seq<char>>)
    requires
        0 <= i,
        i + text_element(name, v).len() < t.len(),
        t.subrange(i, i + text_element(name, v).len()) == text_element(name, v),
        v is None ==> !is_start(t, i, name),
    ensures
        dec_text_element(t, i, name) == Some((v, i + text_element(name, v).len())),
{
    if let Some(x) = v {
        assert(t[i] == text_element(name, v)[0]);
        assert(t[i + 1] == text_element(name, v)[1]);
        if x.len() == 0 {
            assert(x =~= seq![]);
        } else {
            assert(t[i + 2] == text_element(name, v)[2]);
        }
    }
}

proof fn lemma_presence_round_trip(p: PresenceV)
    ensures
        dec_presence(presence_tokens(p), 0) == Some((p, 1int)),
{
    lemma_literals();
    let t = presence_tokens(p);
    let a = presence_attrs(p);
    assert(a == opt_attr("id"@, p.id) + opt_attr("from"@, p.from) + opt_attr("to"@, p.to) + seq![]) by {
        assert(a =~= opt_attr("id"@, p.id) + opt_attr("from"@, p.from) + opt_attr("to"@, p.to) + seq![]);
    }
    lemma_lookup_pieces("id"@, p.id, "from"@, p.from, "to"@, p.to, seq![], "id"@);
    lemma_lookup_pieces("id"@, p.id, "from"@, p.from, "to"@, p.to, seq![], "from"@);
    lemma_lookup_pieces("id"@, p.id, "from"@, p.from, "to"@, p.to, seq![], "to"@);
}

proof fn lemma_message_round_trip(m: MessageV)
    ensures
        dec_message(message_tokens(m), 0) == Some((m, message_tokens(m).len() as int)),
{
    lemma_literals();
    let t = message_tokens(m);
    let body = text_element("body"@, m.body);
    let a = message_attrs(m);
    let l = opt_attr("xml:lang"@, m.xml_lang);
    lemma_lookup_pieces("id"@, m.id, "from"@, m.from, "to"@, m.to, l, "id"@);
    lemma_lookup_pieces("id"@, m.id, "from"@, m.from, "to"@, m.to, l, "from"@);
    lemma_lookup_pieces("id"@, m.id, "from"@, m.from, "to"@, m.to, l, "to"@);
    lemma_lookup_pieces("id"@, m.id, "from"@, m.from, "to"@, m.to, l, "xml:lang"@);
    lemma_lookup_opt_attr("xml:lang"@, m.xml_lang, "id"@);
    lemma_lookup_opt_attr("xml:lang"@, m.xml_lang, "from"@);
    lemma_lookup_opt_attr("xml:lang"@, m.xml_lang, "to"@);
    lemma_lookup_opt_attr("xml:lang"@, m.xml_lang, "xml:lang"@);
    assert(t.subrange(1, 1 + body.len() as int) =~= body);
    lemma_text_element_at(t, 1, "body"@, m.body);
    assert(t[1 + body.len() as int] == TokenV::End { name: "message"@ });
}

proof fn lemma_bind_at(t: Seq<TokenV>, i: int, b: BindV)
    requires
        b.jid matches Some(j) ==> valid_jid(j),
        0 <= i,
        i + bind_tokens(b).len() <= t.len(),
        t.subrange(i, i + bind_tokens(b).len()) == bind_tokens(b),
    ensures
        dec_bind(t, i) == Some((b, i + bind_tokens(b).len())),
{
    lemma_literals();
    let bt = bind_tokens(b);
    assert(t[i] == bt[0]);
    reveal_strlit("xmlns");
    if !(b.jid is None && b.resource is None) {
        let jt = opt_jid_tokens(b.jid);
        let rt = text_element("resource"@, b.resource);
        let k = i + 1 + jt.len();
        match b.jid {
            Some(j) => {
                assert(bt.subrange(1, 4) =~= jid_tokens(j));
                lemma_slice(t, i, bt, 1, jid_tokens(j));
                lemma_jid_at(t, i + 1, j);
            },
            None => {
                assert(t[i + 1] == bt[1]);
            },
        }
        assert(bt.subrange(1 + jt.len() as int, 1 + jt.len() + rt.len() as int) =~= rt);
        lemma_slice(t, i, bt, 1 + jt.len() as int, rt);
        assert(t[k] == bt[1 + jt.len() as int]);
        lemma_text_element_at(t, k, "resource"@, b.resource);
        assert(t[k + rt.len()] == bt[1 + jt.len() + rt.len() as int]);
    }
}

proof fn lemma_friends_at(t: Seq<TokenV>, i: int, f: FriendsV)
    requires
        f.friend_list matches Some(l) ==> forall|k: int| 0 <= k < l.len() ==> valid_jid(#[trigger] l[k]),
        0 <= i,
        i + friends_tokens(f).len() <= t.len(),
        t.subrange(i, i + friends_tokens(f).len()) == friends_tokens(f),
    ensures
        dec_friends(t, i) == Some((f, i + friends_tokens(f).len())),
{
    let ft = friends_tokens(f);
    assert(t[i] == ft[0]);
    reveal_strlit("xmlns");
    match f.friend_list {
        Some(l) => {
            lemma_jids_tokens_len(l);
            assert(ft.subrange(1, 1 + 3 * l.len() as int) =~= jids_tokens(l));
            lemma_slice(t, i, ft, 1, jids_tokens(l));
            assert(t[i + 1 + 3 * l.len()] == ft[1 + 3 * l.len() as int]);
            lemma_jids_at(t, i + 1, l);
        },
        None => {},
    }
}

proof fn lemma_iq_round_trip(q: IqV)
    requires
        constructible(StanzaV::Iq(q)),
    ensures
        dec_iq(iq_tokens(q), 0) == Some((q, iq_tokens(q).len() as int)),
{
    lemma_literals();
    let t = iq_tokens(q);
    let a = iq_attrs(q);
    assert(a =~= opt_attr("id"@, Some(q.id)) + opt_attr("from"@, q.from) + opt_attr("type"@, q.type_) + seq![]);
    lemma_lookup_pieces("id"@, Some(q.id), "from"@, q.from, "type"@, q.type_, seq![], "id"@);
    lemma_lookup_pieces("id"@, Some(q.id), "from"@, q.from, "type"@, q.type_, seq![], "from"@);
    lemma_lookup_pieces("id"@, Some(q.id), "from"@, q.from, "type"@, q.type_, seq![], "type"@);
    match q.payload {
        None => {},
        Some(p) => {
            let pt = payload_tokens(p);
            assert(t.subrange(1, 1 + pt.len() as int) =~= pt);
            assert(t[1 + pt.len() as int] == TokenV::End { name: "iq"@ });
            match p {
                PayloadV::Bind(b) => {
                    lemma_bind_at(t, 1, b);
                    assert(t[1] == pt[0]);
                },
                PayloadV::Friends(f) => {
                    lemma_friends_at(t, 1, f);
                    assert(t[1] == pt[0]);
                },
            }
            assert(pt.len() >= 1);
        },
    }
}

/// Writing a stanza as tokens and reading the tokens back gives the same
/// stanza, field for field.
pub proof fn lemma_stanza_round_trip(s: StanzaV)
    requires
        constructible(s),
    ensures
        dec_stanza(stanza_tokens(s)) == Some(s),
{
    lemma_literals();
    match s {
        StanzaV::Message(m) => lemma_message_round_trip(m),
        StanzaV::Presence(p) => lemma_presence_round_trip(p),
        StanzaV::Iq(q) => lemma_iq_round_trip(q),
    }
}

} // verus!
