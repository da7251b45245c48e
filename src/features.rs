//! Stream features that a server offers and the STARTTLS exchange.

use vstd::prelude::*;
use vstd::string::*;

use crate::jid::opt_view;
use crate::stanza::{
    dec_text_element, lemma_slice, lemma_text_element_at, first_element, open_name_at, read_text_element, text_element,
    write_text_element, xmlns_attrs, CodecError,
};
use crate::xml::{
    attr_at, attr_token_at, attrs_view, empty_at, empty_token, end_at, end_token, is_empty,
    is_end, is_start, open_name, plain_start_token, push_token, read_tokens, start_at,
    start_token, text_at, text_of, text_token, text_token_at, tokens_view, write_tokens,
    xmlns_attr_list, TokenV, XmlToken,
};

verus! {

/// Authentication mechanism; only plain text is supported.
#[derive(Debug, Clone, Copy, PartialEq, Eq, Structural)]
pub enum Mechanism {
    Plain,
}

/// Name of a mechanism on the wire.
pub open spec fn mechanism_name(m: Mechanism) -> Seq<char> {
    match m {
        Mechanism::Plain => "PLAIN"@,
    }
}

impl Mechanism {
    /// Name of the mechanism on the wire.
    pub fn to_string(&self) -> (r: String)
        ensures
            r@ == mechanism_name(*self),
    {
        match self {
            Mechanism::Plain => String::from_str("PLAIN"),
        }
    }

    /// The mechanism with the given name.
    pub fn from_name(name: &str) -> (r: Result<Mechanism, CodecError>)
        ensures
            match r {
                Ok(m) => name@ == mechanism_name(m),
                Err(_) => name@ != "PLAIN"@,
            },
    {
        if String::from_str(name).eq(&String::from_str("PLAIN")) {
            Ok(Mechanism::Plain)
        } else {
            Err(CodecError::Malformed)
        }
    }
}

pub struct MechanismsV {
    pub xmlns: Seq<char>,
    pub mechanisms: Seq<Mechanism>,
}

/// The authentication mechanisms offered.
#[derive(Debug, Clone, PartialEq, Eq)]
pub struct Mechanisms {
    pub xmlns: String,
    pub mechanisms: Vec<Mechanism>,
}

impl View for Mechanisms {
    type V = MechanismsV;

    open spec fn view(&self) -> MechanismsV {
        MechanismsV { xmlns: self.xmlns@, mechanisms: self.mechanisms@ }
    }
}

pub struct StartTlsV {
    pub xmlns: Seq<char>,
    pub required: bool,
}

/// Offer of, or request for, a TLS upgrade.
#[derive(Debug, Clone, PartialEq, Eq)]
pub struct StartTls {
    pub xmlns: String,
    /// Whether the upgrade is required.
    pub required: bool,
}

impl View for StartTls {
    type V = StartTlsV;

    open spec fn view(&self) -> StartTlsV {
        StartTlsV { xmlns: self.xmlns@, required: self.required }
    }
}

/// Outcome of a TLS upgrade request.
#[derive(Debug, Clone, Copy, PartialEq, Eq, Structural)]
pub enum StartTlsResult {
    Proceed,
    Failure,
}

pub struct StartTlsResponseV {
    pub xmlns: Seq<char>,
    pub result: StartTlsResult,
}

/// The server's answer to a TLS upgrade request.
#[derive(Debug, Clone, PartialEq, Eq)]
pub struct StartTlsResponse {
    pub xmlns: String,
    pub result: StartTlsResult,
}

impl View for StartTlsResponse {
    type V = StartTlsResponseV;

    open spec fn view(&self) -> StartTlsResponseV {
        StartTlsResponseV { xmlns: self.xmlns@, result: self.result }
    }
}

pub struct BindV {
    pub xmlns: Seq<char>,
    pub resource: Option<Seq<char>>,
}

/// Offer of resource binding, with an optional resource.
#[derive(Debug, Clone, PartialEq, Eq)]
pub struct Bind {
    pub xmlns: String,
    pub resource: Option<String>,
}

impl View for Bind {
    type V = BindV;

    open spec fn view(&self) -> BindV {
        BindV { xmlns: self.xmlns@, resource: opt_view(self.resource) }
    }
}

pub struct FeaturesV {
    pub start_tls: Option<StartTlsV>,
    pub mechanisms: Option<MechanismsV>,
    pub bind: Option<BindV>,
}

/// Stream features to negotiate after a stream is opened.
#[derive(Debug, Clone, PartialEq, Eq)]
pub struct Features {
    pub start_tls: Option<StartTls>,
    pub mechanisms: Option<Mechanisms>,
    pub bind: Option<Bind>,
}

impl View for Features {
    type V = FeaturesV;

    open spec fn view(&self) -> FeaturesV {
        FeaturesV {
            start_tls: match self.start_tls {
                Some(s) => Some(s@),
                None => None,
            },
            mechanisms: match self.mechanisms {
                Some(m) => Some(m@),
                None => None,
            },
            bind: match self.bind {
                Some(b) => Some(b@),
                None => None,
            },
        }
    }
}

//
// Tokens
//

pub open spec fn mechanism_tokens(m: Mechanism) -> Seq<TokenV> {
    seq![
        TokenV::Start { name: "mechanism"@, attrs: seq![] },
        TokenV::Text { text: mechanism_name(m) },
        TokenV::End { name: "mechanism"@ },
    ]
}

pub open spec fn mechanism_list_tokens(l: Seq<Mechanism>) -> Seq<TokenV>
    decreases l.len(),
{
    if l.len() == 0 {
        seq![]
    } else {
        mechanism_list_tokens(l.drop_last()) + mechanism_tokens(l.last())
    }
}

pub open spec fn mechanisms_tokens(m: MechanismsV) -> Seq<TokenV> {
    seq![TokenV::Start { name: "mechanisms"@, attrs: xmlns_attrs(m.xmlns) }]
        + mechanism_list_tokens(m.mechanisms) + seq![TokenV::End { name: "mechanisms"@ }]
}

pub open spec fn starttls_tokens(s: StartTlsV) -> Seq<TokenV> {
    if s.required {
        seq![
            TokenV::Start { name: "starttls"@, attrs: xmlns_attrs(s.xmlns) },
            TokenV::Empty { name: "required"@, attrs: seq![] },
            TokenV::End { name: "starttls"@ },
        ]
    } else {
        seq![TokenV::Empty { name: "starttls"@, attrs: xmlns_attrs(s.xmlns) }]
    }
}

pub open spec fn result_name(r: StartTlsResult) -> Seq<char> {
    match r {
        StartTlsResult::Proceed => "proceed"@,
        StartTlsResult::Failure => "failure"@,
    }
}

pub open spec fn response_tokens(r: StartTlsResponseV) -> Seq<TokenV> {
    seq![TokenV::Empty { name: result_name(r.result), attrs: xmlns_attrs(r.xmlns) }]
}

pub open spec fn bind_offer_tokens(b: BindV) -> Seq<TokenV> {
    match b.resource {
        None => seq![TokenV::Empty { name: "bind"@, attrs: xmlns_attrs(b.xmlns) }],
        Some(r) => seq![TokenV::Start { name: "bind"@, attrs: xmlns_attrs(b.xmlns) }]
            + text_element("resource"@, Some(r)) + seq![TokenV::End { name: "bind"@ }],
    }
}

pub open spec fn features_tokens(f: FeaturesV) -> Seq<TokenV> {
    seq![TokenV::Start { name: "stream:features"@, attrs: seq![] }] + match f.start_tls {
        Some(s) => starttls_tokens(s),
        None => seq![],
    } + match f.mechanisms {
        Some(m) => mechanisms_tokens(m),
        None => seq![],
    } + match f.bind {
        Some(b) => bind_offer_tokens(b),
        None => seq![],
    } + seq![TokenV::End { name: "stream:features"@ }]
}

pub open spec fn dec_mechanism(t: Seq<TokenV>, i: int) -> Option<(Mechanism, int)> {
    if is_start(t, i, "mechanism"@) && text_at(t, i + 1) == Some("PLAIN"@) && is_end(
        t,
        i + 2,
        "mechanism"@,
    ) {
        Some((Mechanism::Plain, i + 3))
    } else {
        None
    }
}

pub open spec fn dec_mechanism_list(t: Seq<TokenV>, i: int) -> Option<(Seq<Mechanism>, int)>
    decreases t.len() - i,
{
    if is_start(t, i, "mechanism"@) {
        match dec_mechanism(t, i) {
            Some((m, k)) => match dec_mechanism_list(t, k) {
                Some((l, e)) => Some((seq![m] + l, e)),
                None => None,
            },
            None => None,
        }
    } else {
        Some((seq![], i))
    }
}

pub open spec fn dec_mechanisms(t: Seq<TokenV>, i: int) -> Option<(MechanismsV, int)> {
    match attr_at(t, i, "xmlns"@) {
        Some(x) => if is_start(t, i, "mechanisms"@) {
            match dec_mechanism_list(t, i + 1) {
                Some((l, k)) => if is_end(t, k, "mechanisms"@) {
                    Some((MechanismsV { xmlns: x, mechanisms: l }, k + 1))
                } else {
                    None
                },
                None => None,
            }
        } else {
            None
        },
        None => None,
    }
}

pub open spec fn dec_starttls(t: Seq<TokenV>, i: int) -> Option<(StartTlsV, int)> {
    match attr_at(t, i, "xmlns"@) {
        Some(x) => if is_empty(t, i, "starttls"@) {
            Some((StartTlsV { xmlns: x, required: false }, i + 1))
        } else if is_start(t, i, "starttls"@) {
            if is_empty(t, i + 1, "required"@) && is_end(t, i + 2, "starttls"@) {
                Some((StartTlsV { xmlns: x, required: true }, i + 3))
            } else if is_end(t, i + 1, "starttls"@) {
                Some((StartTlsV { xmlns: x, required: false }, i + 2))
            } else {
                None
            }
        } else {
            None
        },
        None => None,
    }
}

pub open spec fn dec_response(t: Seq<TokenV>, i: int) -> Option<(StartTlsResponseV, int)> {
    match attr_at(t, i, "xmlns"@) {
        Some(x) => if is_empty(t, i, "proceed"@) {
            Some((StartTlsResponseV { xmlns: x, result: StartTlsResult::Proceed }, i + 1))
        } else if is_empty(t, i, "failure"@) {
            Some((StartTlsResponseV { xmlns: x, result: StartTlsResult::Failure }, i + 1))
        } else {
            None
        },
        None => None,
    }
}

pub open spec fn dec_bind_offer(t: Seq<TokenV>, i: int) -> Option<(BindV, int)> {
    match attr_at(t, i, "xmlns"@) {
        Some(x) => if is_empty(t, i, "bind"@) {
            Some((BindV { xmlns: x, resource: None }, i + 1))
        } else if is_start(t, i, "bind"@) {
            match dec_text_element(t, i + 1, "resource"@) {
                Some((r, k)) => if is_end(t, k, "bind"@) {
                    Some((BindV { xmlns: x, resource: r }, k + 1))
                } else {
                    None
                },
                None => None,
            }
        } else {
            None
        },
        None => None,
    }
}

/// The element `name` at `i` read by `dec`, or nothing there.
pub open spec fn dec_optional<V>(
    t: Seq<TokenV>,
    i: int,
    name: Seq<char>,
    dec: spec_fn(Seq<TokenV>, int) -> Option<(V, int)>,
) -> Option<(Option<V>, int)> {
    if 0 <= i < t.len() && open_name(t[i]) == Some(name) {
        match dec(t, i) {
            Some((v, k)) => Some((Some(v), k)),
            None => None,
        }
    } else {
        Some((None, i))
    }
}

pub open spec fn dec_features(t: Seq<TokenV>, i: int) -> Option<(FeaturesV, int)> {
    if is_empty(t, i, "stream:features"@) {
        Some((FeaturesV { start_tls: None, mechanisms: None, bind: None }, i + 1))
    } else if is_start(t, i, "stream:features"@) {
        match dec_optional(t, i + 1, "starttls"@, |t: Seq<TokenV>, i: int| dec_starttls(t, i)) {
            None => None,
            Some((s, k1)) => match dec_optional(
                t,
                k1,
                "mechanisms"@,
                |t: Seq<TokenV>, i: int| dec_mechanisms(t, i),
            ) {
                None => None,
                Some((m, k2)) => match dec_optional(
                    t,
                    k2,
                    "bind"@,
                    |t: Seq<TokenV>, i: int| dec_bind_offer(t, i),
                ) {
                    None => None,
                    Some((b, k3)) => if is_end(t, k3, "stream:features"@) {
                        Some((FeaturesV { start_tls: s, mechanisms: m, bind: b }, k3 + 1))
                    } else {
                        None
                    },
                },
            },
        }
    } else {
        None
    }
}

//
// Reading and writing
//

impl Mechanism {
    pub fn write_xml(&self, out: &mut Vec<XmlToken>)
        ensures
            tokens_view(final(out)@) == tokens_view(old(out)@) + mechanism_tokens(*self),
    {
        push_token(out, plain_start_token("mechanism"));
        push_token(out, text_token(&self.to_string()));
        push_token(out, end_token("mechanism"));
        assert(tokens_view(out@) =~= tokens_view(old(out)@) + mechanism_tokens(*self));
    }

    pub fn read_xml(t: &Vec<XmlToken>, i: usize) -> (r: Option<(Mechanism, usize)>)
        ensures
            match r {
                Some((m, k)) => dec_mechanism(tokens_view(t@), i as int) == Some((m, k as int))
                    && k <= t@.len(),
                None => dec_mechanism(tokens_view(t@), i as int) is None,
            },
    {
        if !start_at(t, i, "mechanism") {
            return None;
        }
        match text_token_at(t, i + 1) {
            Some(x) => {
                match Mechanism::from_name(x.as_str()) {
                    Ok(m) => {
                        if end_at(t, i + 2, "mechanism") {
                            Some((m, i + 3))
                        } else {
                            None
                        }
                    },
                    Err(_) => None,
                }
            },
            None => None,
        }
    }
}

impl Mechanisms {
    pub fn new(xmlns: String) -> (r: Mechanisms)
        ensures
            r@ == (MechanismsV { xmlns: xmlns@, mechanisms: seq![] }),
    {
        Mechanisms { xmlns, mechanisms: Vec::new() }
    }

    /// Whether plain text authentication is offered.
    pub fn contains_plain(&self) -> (r: bool)
        ensures
            r == self@.mechanisms.contains(Mechanism::Plain),
    {
        let mut i: usize = 0;
        while i < self.mechanisms.len()
            invariant
                i <= self.mechanisms@.len(),
                forall|j: int| 0 <= j < i ==> self.mechanisms@[j] != Mechanism::Plain,
            decreases self.mechanisms@.len() - i,
        {
            if self.mechanisms[i] == Mechanism::Plain {
                return true;
            }
            i = i + 1;
        }
        false
    }

    pub fn write_xml(&self, out: &mut Vec<XmlToken>)
        ensures
            tokens_view(final(out)@) == tokens_view(old(out)@) + mechanisms_tokens(self@),
    {
        push_token(out, start_token("mechanisms", xmlns_attr_list(&self.xmlns)));
        let ghost start = tokens_view(out@);
        let l = &self.mechanisms;
        let mut i: usize = 0;
        assert(l@.take(0) =~= seq![]);
        assert(start + mechanism_list_tokens(seq![]) =~= start);
        while i < l.len()
            invariant
                i <= l@.len(),
                tokens_view(out@) == start + mechanism_list_tokens(l@.take(i as int)),
            decreases l@.len() - i,
        {
            l[i].write_xml(out);
            assert(l@.take(i + 1).drop_last() =~= l@.take(i as int));
            assert(tokens_view(out@) =~= start + mechanism_list_tokens(l@.take(i + 1)));
            i = i + 1;
        }
        assert(l@.take(l@.len() as int) =~= l@);
        push_token(out, end_token("mechanisms"));
        assert(tokens_view(out@) =~= tokens_view(old(out)@) + mechanisms_tokens(self@));
    }

    pub fn read_xml(t: &Vec<XmlToken>, i: usize) -> (r: Option<(Mechanisms, usize)>)
        ensures
            match r {
                Some((m, k)) => dec_mechanisms(tokens_view(t@), i as int) == Some((m@, k as int))
                    && k <= t@.len(),
                None => dec_mechanisms(tokens_view(t@), i as int) is None,
            },
    {
        let xmlns = match attr_token_at(t, i, "xmlns") {
            Some(x) => x,
            None => {
                return None;
            },
        };
        if !start_at(t, i, "mechanisms") {
            return None;
        }
        let ghost tv = tokens_view(t@);
        let mut out: Vec<Mechanism> = Vec::new();
        let mut k = i + 1;
        while start_at(t, k, "mechanism")
            invariant
                tv == tokens_view(t@),
                k <= t@.len(),
                dec_mechanism_list(tv, i + 1) == (match dec_mechanism_list(tv, k as int) {
                    Some((l, e)) => Some((out@ + l, e)),
                    None => None,
                }),
            decreases t@.len() - k,
        {
            match Mechanism::read_xml(t, k) {
                Some((m, k2)) => {
                    let ghost prev = out@;
                    out.push(m);
                    proof {
                        match dec_mechanism_list(tv, k2 as int) {
                            Some((l, e)) => {
                                assert(prev + (seq![m] + l) =~= out@ + l);
                            },
                            None => {},
                        }
                    }
                    k = k2;
                },
                None => {
                    return None;
                },
            }
        }
        assert(out@ + seq![] =~= out@);
        if end_at(t, k, "mechanisms") {
            Some((Mechanisms { xmlns, mechanisms: out }, k + 1))
        } else {
            None
        }
    }
}

impl StartTls {
    pub fn new(xmlns: String) -> (r: StartTls)
        ensures
            r@ == (StartTlsV { xmlns: xmlns@, required: false }),
    {
        StartTls { xmlns, required: false }
    }

    pub fn write_xml(&self, out: &mut Vec<XmlToken>)
        ensures
            tokens_view(final(out)@) == tokens_view(old(out)@) + starttls_tokens(self@),
    {
        if self.required {
            push_token(out, start_token("starttls", xmlns_attr_list(&self.xmlns)));
            let none: Vec<crate::xml::Attr> = Vec::new();
            assert(attrs_view(none@) =~= seq![]);
            push_token(out, empty_token("required", none));
            push_token(out, end_token("starttls"));
        } else {
            push_token(out, empty_token("starttls", xmlns_attr_list(&self.xmlns)));
        }
        assert(tokens_view(out@) =~= tokens_view(old(out)@) + starttls_tokens(self@));
    }

    pub fn read_xml(t: &Vec<XmlToken>, i: usize) -> (r: Option<(StartTls, usize)>)
        ensures
            match r {
                Some((s, k)) => dec_starttls(tokens_view(t@), i as int) == Some((s@, k as int))
                    && k <= t@.len(),
                None => dec_starttls(tokens_view(t@), i as int) is None,
            },
    {
        let xmlns = match attr_token_at(t, i, "xmlns") {
            Some(x) => x,
            None => {
                return None;
            },
        };
        if empty_at(t, i, "starttls") {
            Some((StartTls { xmlns, required: false }, i + 1))
        } else if start_at(t, i, "starttls") {
            if empty_at(t, i + 1, "required") && end_at(t, i + 2, "starttls") {
                Some((StartTls { xmlns, required: true }, i + 3))
            } else if end_at(t, i + 1, "starttls") {
                Some((StartTls { xmlns, required: false }, i + 2))
            } else {
                None
            }
        } else {
            None
        }
    }
}

impl StartTlsResponse {
    pub fn write_xml(&self, out: &mut Vec<XmlToken>)
        ensures
            tokens_view(final(out)@) == tokens_view(old(out)@) + response_tokens(self@),
    {
        let name = match self.result {
            StartTlsResult::Proceed => "proceed",
            StartTlsResult::Failure => "failure",
        };
        push_token(out, empty_token(name, xmlns_attr_list(&self.xmlns)));
        assert(tokens_view(out@) =~= tokens_view(old(out)@) + response_tokens(self@));
    }

    pub fn read_xml(t: &Vec<XmlToken>, i: usize) -> (r: Option<(StartTlsResponse, usize)>)
        ensures
            match r {
                Some((s, k)) => dec_response(tokens_view(t@), i as int) == Some((s@, k as int))
                    && k <= t@.len(),
                None => dec_response(tokens_view(t@), i as int) is None,
            },
    {
        let xmlns = match attr_token_at(t, i, "xmlns") {
            Some(x) => x,
            None => {
                return None;
            },
        };
        if empty_at(t, i, "proceed") {
            Some((StartTlsResponse { xmlns, result: StartTlsResult::Proceed }, i + 1))
        } else if empty_at(t, i, "failure") {
            Some((StartTlsResponse { xmlns, result: StartTlsResult::Failure }, i + 1))
        } else {
            None
        }
    }
}

impl Bind {
    pub fn new(xmlns: String) -> (r: Bind)
        ensures
            r@ == (BindV { xmlns: xmlns@, resource: None }),
    {
        Bind { xmlns, resource: None }
    }

    /// No resource is named.
    pub fn is_empty(&self) -> (r: bool)
        ensures
            r == self@.resource is None,
    {
        self.resource.is_none()
    }

    pub fn write_xml(&self, out: &mut Vec<XmlToken>)
        ensures
            tokens_view(final(out)@) == tokens_view(old(out)@) + bind_offer_tokens(self@),
    {
        match &self.resource {
            None => {
                push_token(out, empty_token("bind", xmlns_attr_list(&self.xmlns)));
            },
            Some(_) => {
                push_token(out, start_token("bind", xmlns_attr_list(&self.xmlns)));
                write_text_element(out, "resource", &self.resource);
                push_token(out, end_token("bind"));
            },
        }
        assert(tokens_view(out@) =~= tokens_view(old(out)@) + bind_offer_tokens(self@));
    }

    pub fn read_xml(t: &Vec<XmlToken>, i: usize) -> (r: Option<(Bind, usize)>)
        ensures
            match r {
                Some((b, k)) => dec_bind_offer(tokens_view(t@), i as int) == Some((b@, k as int))
                    && k <= t@.len(),
                None => dec_bind_offer(tokens_view(t@), i as int) is None,
            },
    {
        let xmlns = match attr_token_at(t, i, "xmlns") {
            Some(x) => x,
            None => {
                return None;
            },
        };
        if empty_at(t, i, "bind") {
            Some((Bind { xmlns, resource: None }, i + 1))
        } else if start_at(t, i, "bind") {
            match read_text_element(t, i + 1, "resource") {
                Some((resource, k)) => {
                    if end_at(t, k, "bind") {
                        Some((Bind { xmlns, resource }, k + 1))
                    } else {
                        None
                    }
                },
                None => None,
            }
        } else {
            None
        }
    }
}

impl Features {
    /// No features at all.
    pub fn new() -> (r: Features)
        ensures
            r@ == (FeaturesV { start_tls: None, mechanisms: None, bind: None }),
    {
        Features { start_tls: None, mechanisms: None, bind: None }
    }

    /// Nothing to negotiate.
    pub fn is_empty(&self) -> (r: bool)
        ensures
            r == (self@.start_tls is None && self@.mechanisms is None && self@.bind is None),
    {
        self.start_tls.is_none() && self.mechanisms.is_none() && self.bind.is_none()
    }

    pub fn write_xml(&self, out: &mut Vec<XmlToken>)
        ensures
            tokens_view(final(out)@) == tokens_view(old(out)@) + features_tokens(self@),
    {
        push_token(out, plain_start_token("stream:features"));
        match &self.start_tls {
            Some(s) => s.write_xml(out),
            None => {},
        }
        match &self.mechanisms {
            Some(m) => m.write_xml(out),
            None => {},
        }
        match &self.bind {
            Some(b) => b.write_xml(out),
            None => {},
        }
        push_token(out, end_token("stream:features"));
        assert(tokens_view(out@) =~= tokens_view(old(out)@) + features_tokens(self@));
    }

    pub fn read_xml(t: &Vec<XmlToken>, i: usize) -> (r: Option<(Features, usize)>)
        ensures
            match r {
                Some((f, k)) => dec_features(tokens_view(t@), i as int) == Some((f@, k as int))
                    && k <= t@.len(),
                None => dec_features(tokens_view(t@), i as int) is None,
            },
    {
        if empty_at(t, i, "stream:features") {
            return Some((Features::new(), i + 1));
        }
        if !start_at(t, i, "stream:features") {
            return None;
        }
        let (start_tls, k1) = if open_name_at(t, i + 1, "starttls") {
            match StartTls::read_xml(t, i + 1) {
                Some((s, k)) => (Some(s), k),
                None => {
                    return None;
                },
            }
        } else {
            (None, i + 1)
        };
        let (mechanisms, k2) = if open_name_at(t, k1, "mechanisms") {
            match Mechanisms::read_xml(t, k1) {
                Some((m, k)) => (Some(m), k),
                None => {
                    return None;
                },
            }
        } else {
            (None, k1)
        };
        let (bind, k3) = if open_name_at(t, k2, "bind") {
            match Bind::read_xml(t, k2) {
                Some((b, k)) => (Some(b), k),
                None => {
                    return None;
                },
            }
        } else {
            (None, k2)
        };
        if end_at(t, k3, "stream:features") {
            Some((Features { start_tls, mechanisms, bind }, k3 + 1))
        } else {
            None
        }
    }
}

impl Mechanisms {
    /// The element as XML text.
    pub fn write_xml_string(&self) -> (r: String)
        ensures
            r@ == text_of(mechanisms_tokens(self@)),
    {
        let mut t: Vec<XmlToken> = Vec::new();
        assert(tokens_view(t@) =~= seq![]);
        self.write_xml(&mut t);
        assert(tokens_view(t@) =~= mechanisms_tokens(self@));
        write_tokens(&t)
    }

    /// Reads the element from XML text.
    pub fn read_xml_string(text: &str) -> (r: Result<Mechanisms, CodecError>)
        ensures
            match r {
                Ok(v) => first_element(text@, |t: Seq<TokenV>, i: int| dec_mechanisms(t, i)) == Some(v@),
                Err(_) => first_element(text@, |t: Seq<TokenV>, i: int| dec_mechanisms(t, i)) is None,
            },
    {
        match read_tokens(text) {
            Some(t) => match Mechanisms::read_xml(&t, 0) {
                Some((v, _)) => Ok(v),
                None => Err(CodecError::Malformed),
            },
            None => Err(CodecError::Malformed),
        }
    }
}

impl StartTls {
    /// The element as XML text.
    pub fn write_xml_string(&self) -> (r: String)
        ensures
            r@ == text_of(starttls_tokens(self@)),
    {
        let mut t: Vec<XmlToken> = Vec::new();
        assert(tokens_view(t@) =~= seq![]);
        self.write_xml(&mut t);
        assert(tokens_view(t@) =~= starttls_tokens(self@));
        write_tokens(&t)
    }

    /// Reads the element from XML text.
    pub fn read_xml_string(text: &str) -> (r: Result<StartTls, CodecError>)
        ensures
            match r {
                Ok(v) => first_element(text@, |t: Seq<TokenV>, i: int| dec_starttls(t, i)) == Some(v@),
                Err(_) => first_element(text@, |t: Seq<TokenV>, i: int| dec_starttls(t, i)) is None,
            },
    {
        match read_tokens(text) {
            Some(t) => match StartTls::read_xml(&t, 0) {
                Some((v, _)) => Ok(v),
                None => Err(CodecError::Malformed),
            },
            None => Err(CodecError::Malformed),
        }
    }
}

impl StartTlsResponse {
    /// The element as XML text.
    pub fn write_xml_string(&self) -> (r: String)
        ensures
            r@ == text_of(response_tokens(self@)),
    {
        let mut t: Vec<XmlToken> = Vec::new();
        assert(tokens_view(t@) =~= seq![]);
        self.write_xml(&mut t);
        assert(tokens_view(t@) =~= response_tokens(self@));
        write_tokens(&t)
    }

    /// Reads the element from XML text.
    pub fn read_xml_string(text: &str) -> (r: Result<StartTlsResponse, CodecError>)
        ensures
            match r {
                Ok(v) => first_element(text@, |t: Seq<TokenV>, i: int| dec_response(t, i)) == Some(v@),
                Err(_) => first_element(text@, |t: Seq<TokenV>, i: int| dec_response(t, i)) is None,
            },
    {
        match read_tokens(text) {
            Some(t) => match StartTlsResponse::read_xml(&t, 0) {
                Some((v, _)) => Ok(v),
                None => Err(CodecError::Malformed),
            },
            None => Err(CodecError::Malformed),
        }
    }
}

impl Bind {
    /// The element as XML text.
    pub fn write_xml_string(&self) -> (r: String)
        ensures
            r@ == text_of(bind_offer_tokens(self@)),
    {
        let mut t: Vec<XmlToken> = Vec::new();
        assert(tokens_view(t@) =~= seq![]);
        self.write_xml(&mut t);
        assert(tokens_view(t@) =~= bind_offer_tokens(self@));
        write_tokens(&t)
    }

    /// Reads the element from XML text.
    pub fn read_xml_string(text: &str) -> (r: Result<Bind, CodecError>)
        ensures
            match r {
                Ok(v) => first_element(text@, |t: Seq<TokenV>, i: int| dec_bind_offer(t, i)) == Some(v@),
                Err(_) => first_element(text@, |t: Seq<TokenV>, i: int| dec_bind_offer(t, i)) is None,
            },
    {
        match read_tokens(text) {
            Some(t) => match Bind::read_xml(&t, 0) {
                Some((v, _)) => Ok(v),
                None => Err(CodecError::Malformed),
            },
            None => Err(CodecError::Malformed),
        }
    }
}

impl Features {
    /// The element as XML text.
    pub fn write_xml_string(&self) -> (r: String)
        ensures
            r@ == text_of(features_tokens(self@)),
    {
        let mut t: Vec<XmlToken> = Vec::new();
        assert(tokens_view(t@) =~= seq![]);
        self.write_xml(&mut t);
        assert(tokens_view(t@) =~= features_tokens(self@));
        write_tokens(&t)
    }

    /// Reads the element from XML text.
    pub fn read_xml_string(text: &str) -> (r: Result<Features, CodecError>)
        ensures
            match r {
                Ok(v) => first_element(text@, |t: Seq<TokenV>, i: int| dec_features(t, i)) == Some(v@),
                Err(_) => first_element(text@, |t: Seq<TokenV>, i: int| dec_features(t, i)) is None,
            },
    {
        match read_tokens(text) {
            Some(t) => match Features::read_xml(&t, 0) {
                Some((v, _)) => Ok(v),
                None => Err(CodecError::Malformed),
            },
            None => Err(CodecError::Malformed),
        }
    }
}

//
// Reading what was written
//

proof fn lemma_feature_literals()
    ensures
        "starttls"@ != "mechanisms"@,
        "starttls"@ != "bind"@,
        "mechanisms"@ != "bind"@,
        "resource"@ != "bind"@,
        "proceed"@ != "failure"@,
{
    reveal_strlit("starttls");
    reveal_strlit("mechanisms");
    reveal_strlit("bind");
    reveal_strlit("resource");
    reveal_strlit("proceed");
    reveal_strlit("failure");
    assert("starttls"@.len() != "mechanisms"@.len());
    assert("starttls"@.len() != "bind"@.len());
    assert("mechanisms"@.len() != "bind"@.len());
    assert("resource"@.len() != "bind"@.len());
    assert("proceed"@[0] != "failure"@[0]);
}

proof fn lemma_xmlns_lookup(x: Seq<char>)
    ensures
        crate::xml::lookup(xmlns_attrs(x), "xmlns"@) == Some(x),
{
}

proof fn lemma_mechanism_list_len(l: Seq<Mechanism>)
    ensures
        mechanism_list_tokens(l).len() == 3 * l.len(),
    decreases l.len(),
{
    if l.len() > 0 {
        lemma_mechanism_list_len(l.drop_last());
    }
}

proof fn lemma_mechanism_list_front(l: Seq<Mechanism>)
    requires
        l.len() > 0,
    ensures
        mechanism_list_tokens(l) == mechanism_tokens(l[0]) + mechanism_list_tokens(l.drop_first()),
    decreases l.len(),
{
    if l.len() == 1 {
        assert(l.drop_last() =~= seq![]);
        assert(l.drop_first() =~= seq![]);
        assert(mechanism_list_tokens(l) =~= mechanism_tokens(l[0]) + mechanism_list_tokens(
            l.drop_first(),
        ));
    } else {
        lemma_mechanism_list_front(l.drop_last());
        assert(l.drop_last().drop_first() =~= l.drop_first().drop_last());
        assert(l.drop_first().last() == l.last());
        assert(l.drop_last()[0] == l[0]);
        assert(mechanism_list_tokens(l) =~= mechanism_tokens(l[0]) + mechanism_list_tokens(
            l.drop_first(),
        ));
    }
}

proof fn lemma_mechanism_list_at(t: Seq<TokenV>, i: int, l: Seq<Mechanism>)
    requires
        0 <= i,
        i + 3 * l.len() < t.len(),
        t.subrange(i, i + 3 * l.len()) == mechanism_list_tokens(l),
        !is_start(t, i + 3 * l.len(), "mechanism"@),
    ensures
        dec_mechanism_list(t, i) == Some((l, i + 3 * l.len())),
    decreases l.len(),
{
    lemma_mechanism_list_len(l);
    if l.len() == 0 {
        assert(l =~= seq![]);
    } else {
        lemma_mechanism_list_front(l);
        let rest = l.drop_first();
        lemma_mechanism_list_len(rest);
        let whole = mechanism_list_tokens(l);
        assert(whole.subrange(0, 3) =~= mechanism_tokens(l[0]));
        lemma_slice(t, i, whole, 0, mechanism_tokens(l[0]));
        assert(t[i] == mechanism_tokens(l[0])[0]);
        assert(t[i + 1] == mechanism_tokens(l[0])[1]);
        assert(t[i + 2] == mechanism_tokens(l[0])[2]);
        assert(l[0] == Mechanism::Plain);
        assert(whole.subrange(3, 3 + 3 * rest.len() as int) =~= mechanism_list_tokens(rest));
        lemma_slice(t, i, whole, 3, mechanism_list_tokens(rest));
        lemma_mechanism_list_at(t, i + 3, rest);
        assert(seq![l[0]] + rest =~= l);
    }
}

proof fn lemma_starttls_at(t: Seq<TokenV>, i: int, v: StartTlsV)
    requires
        0 <= i,
        i + starttls_tokens(v).len() <= t.len(),
        t.subrange(i, i + starttls_tokens(v).len()) == starttls_tokens(v),
    ensures
        dec_starttls(t, i) == Some((v, i + starttls_tokens(v).len())),
{
    let w = starttls_tokens(v);
    assert(t[i] == w[0]);
    lemma_xmlns_lookup(v.xmlns);
    if v.required {
        assert(t[i + 1] == w[1]);
        assert(t[i + 2] == w[2]);
    }
}

proof fn lemma_mechanisms_at(t: Seq<TokenV>, i: int, v: MechanismsV)
    requires
        0 <= i,
        i + mechanisms_tokens(v).len() <= t.len(),
        t.subrange(i, i + mechanisms_tokens(v).len()) == mechanisms_tokens(v),
    ensures
        dec_mechanisms(t, i) == Some((v, i + mechanisms_tokens(v).len())),
{
    let w = mechanisms_tokens(v);
    let n = 3 * v.mechanisms.len() as int;
    lemma_mechanism_list_len(v.mechanisms);
    assert(t[i] == w[0]);
    lemma_xmlns_lookup(v.xmlns);
    assert(w.subrange(1, 1 + n) =~= mechanism_list_tokens(v.mechanisms));
    lemma_slice(t, i, w, 1, mechanism_list_tokens(v.mechanisms));
    assert(t[i + 1 + n] == w[1 + n]);
    lemma_mechanism_list_at(t, i + 1, v.mechanisms);
}

proof fn lemma_bind_offer_at(t: Seq<TokenV>, i: int, v: BindV)
    requires
        0 <= i,
        i + bind_offer_tokens(v).len() <= t.len(),
        t.subrange(i, i + bind_offer_tokens(v).len()) == bind_offer_tokens(v),
    ensures
        dec_bind_offer(t, i) == Some((v, i + bind_offer_tokens(v).len())),
{
    let w = bind_offer_tokens(v);
    assert(t[i] == w[0]);
    lemma_xmlns_lookup(v.xmlns);
    if v.resource is Some {
        let r = text_element("resource"@, v.resource);
        assert(w.subrange(1, 1 + r.len() as int) =~= r);
        lemma_slice(t, i, w, 1, r);
        assert(t[i + 1 + r.len()] == w[1 + r.len() as int]);
        lemma_text_element_at(t, i + 1, "resource"@, v.resource);
    }
}

pub open spec fn opt_starttls_tokens(s: Option<StartTlsV>) -> Seq<TokenV> {
    match s {
        Some(x) => starttls_tokens(x),
        None => seq![],
    }
}

pub open spec fn opt_mechanisms_tokens(m: Option<MechanismsV>) -> Seq<TokenV> {
    match m {
        Some(x) => mechanisms_tokens(x),
        None => seq![],
    }
}

pub open spec fn opt_bind_offer_tokens(b: Option<BindV>) -> Seq<TokenV> {
    match b {
        Some(x) => bind_offer_tokens(x),
        None => seq![],
    }
}

/// Reading an optional element at `i` where the tokens `w` of `v` stand,
/// followed by a token that does not open an element named `name`.
proof fn lemma_optional_at<V>(
    t: Seq<TokenV>,
    i: int,
    name: Seq<char>,
    dec: spec_fn(Seq<TokenV>, int) -> Option<(V, int)>,
    v: Option<V>,
    w: Seq<TokenV>,
)
    requires
        0 <= i,
        i + w.len() < t.len(),
        t.subrange(i, i + w.len()) == w,
        v is None ==> w.len() == 0 && open_name(t[i]) != Some(name),
        v matches Some(x) ==> w.len() > 0 && open_name(w[0]) == Some(name) && dec(t, i) == Some(
            (x, i + w.len()),
        ),
    ensures
        dec_optional(t, i, name, dec) == Some((v, i + w.len())),
{
    if v is Some {
        assert(t[i] == w[0]);
    }
}

/// Writing stream features as tokens and reading them back gives the same
/// features.
pub proof fn lemma_features_round_trip(f: FeaturesV)
    ensures
        dec_features(features_tokens(f), 0) == Some((f, features_tokens(f).len() as int)),
{
    lemma_feature_literals();
    reveal_strlit("stream:features");
    let t = features_tokens(f);
    let st = opt_starttls_tokens(f.start_tls);
    let mt = opt_mechanisms_tokens(f.mechanisms);
    let bt = opt_bind_offer_tokens(f.bind);
    let k1 = 1 + st.len();
    let k2 = k1 + mt.len();
    let k3 = k2 + bt.len();
    let end = seq![TokenV::End { name: "stream:features"@ }];
    assert(t =~= seq![TokenV::Start { name: "stream:features"@, attrs: seq![] }] + st + mt + bt
        + end);
    assert(t.subrange(1, k1 as int) =~= st);
    assert(t.subrange(k1 as int, k2 as int) =~= mt);
    assert(t.subrange(k2 as int, k3 as int) =~= bt);
    assert(t[k3 as int] == end[0]);
    assert(bt.len() > 0 ==> t[k2 as int] == bt[0]);
    assert(bt.len() == 0 ==> t[k2 as int] == end[0]);
    assert(mt.len() > 0 ==> t[k1 as int] == mt[0]);
    assert(mt.len() == 0 && bt.len() > 0 ==> t[k1 as int] == bt[0]);
    assert(mt.len() == 0 && bt.len() == 0 ==> t[k1 as int] == end[0]);
    if let Some(x) = f.start_tls {
        lemma_starttls_at(t, 1, x);
    }
    if let Some(x) = f.mechanisms {
        lemma_mechanisms_at(t, k1 as int, x);
    }
    if let Some(x) = f.bind {
        lemma_bind_offer_at(t, k2 as int, x);
    }
    lemma_optional_at(t, 1, "starttls"@, |t: Seq<TokenV>, i: int| dec_starttls(t, i), f.start_tls, st);
    lemma_optional_at(t, k1 as int, "mechanisms"@, |t: Seq<TokenV>, i: int| dec_mechanisms(t, i), f.mechanisms, mt);
    lemma_optional_at(t, k2 as int, "bind"@, |t: Seq<TokenV>, i: int| dec_bind_offer(t, i), f.bind, bt);
}

/// Writing a TLS answer as tokens and reading it back gives the same answer.
pub proof fn lemma_response_round_trip(r: StartTlsResponseV)
    ensures
        dec_response(response_tokens(r), 0) == Some((r, 1int)),
{
    lemma_feature_literals();
    lemma_xmlns_lookup(r.xmlns);
}

} // verus!
