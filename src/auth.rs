//! SASL PLAIN authentication: the request, the success notice and the
//! credentials they carry.

use base64::prelude::BASE64_STANDARD;
use base64::Engine;
use vstd::prelude::*;
use vstd::string::*;
use vstd::utf8::{
    decode_utf8, encode_utf8, encode_utf8_decode_utf8, encode_utf8_valid_utf8, valid_utf8,
};

use crate::features::{mechanism_name, Mechanism};
use crate::stanza::{first_element, xmlns_attrs, CodecError};
use crate::xml::{
    attr_at, attr_token_at, attrs_view, empty_at, empty_token, end_at, end_token, is_empty,
    is_end, is_start, push_token, read_tokens, start_at,
    start_token, text_at, text_of, text_token, text_token_at, tokens_view, write_tokens,
    xmlns_attr_list, Attr, TokenV, XmlToken,
};

verus! {

/// Standard base64 of some bytes.
pub uninterp spec fn base64_of(bytes: Seq<u8>) -> Seq<char>;

/// The bytes that a standard base64 text stands for, if it is well formed.
pub uninterp spec fn base64_decoded(text: Seq<char>) -> Option<Seq<u8>>;

/// Relies on base64's `BASE64_STANDARD.encode`: the text depends on the
/// bytes alone, and `decode` with the same engine gives the bytes back.
#[verifier::external_body]
fn base64_encode(bytes: &[u8]) -> (r: String)
    ensures
        r@ == base64_of(bytes@),
        base64_decoded(r@) == Some(bytes@),
{
    BASE64_STANDARD.encode(bytes)
}

/// Relies on base64's `BASE64_STANDARD.decode`: the bytes depend on the
/// text alone, and malformed text is an error.
#[verifier::external_body]
fn base64_decode(text: &str) -> (r: Option<Vec<u8>>)
    ensures
        match r {
            Some(b) => base64_decoded(text@) == Some(b@),
            None => base64_decoded(text@) is None,
        },
{
    BASE64_STANDARD.decode(text.as_bytes()).ok()
}

/// Relies on `String::from_utf8`: it fails exactly on bytes that are not
/// UTF-8, and otherwise holds the characters that the bytes encode.
#[verifier::external_body]
fn utf8_string(bytes: Vec<u8>) -> (r: Option<String>)
    ensures
        r is Some <==> valid_utf8(bytes@),
        r matches Some(s) ==> s@ == decode_utf8(bytes@),
{
    String::from_utf8(bytes).ok()
}

/// Why credentials could not be read.
#[derive(Debug, Clone, Copy, PartialEq, Eq, Structural)]
pub enum CredentialsError {
    /// Not base64.
    Encoding,
    /// The bytes are not UTF-8.
    Text,
    /// No NUL separates a username from a password.
    MissingUsername,
}

/// `i` is the position of the last `c` in `s`.
pub open spec fn is_last(s: Seq<char>, c: char, i: int) -> bool {
    0 <= i < s.len() && s[i] == c && forall|j: int| i < j < s.len() ==> s[j] != c
}

/// Position of the last `c` in `s`, if there is one.
pub open spec fn last_of(s: Seq<char>, c: char) -> Option<int> {
    if exists|i: int| is_last(s, c, i) {
        Some(choose|i: int| is_last(s, c, i))
    } else {
        None
    }
}

proof fn lemma_last_of(s: Seq<char>, c: char, i: int)
    requires
        is_last(s, c, i),
    ensures
        last_of(s, c) == Some(i),
{
    let k = choose|k: int| is_last(s, c, k);
    assert(is_last(s, c, k));
    if k < i {
        assert(s[i] != c);
    }
    if i < k {
        assert(s[k] != c);
    }
}

proof fn lemma_last_of_none(s: Seq<char>, c: char)
    requires
        forall|j: int| 0 <= j < s.len() ==> s[j] != c,
    ensures
        last_of(s, c) is None,
{
    if exists|i: int| is_last(s, c, i) {
        let k = choose|k: int| is_last(s, c, k);
        assert(s[k] == c);
    }
}

/// Position of the last `c` in `s`.
fn find_last(s: &str, c: char) -> (r: Option<usize>)
    ensures
        match r {
            Some(i) => last_of(s@, c) == Some(i as int) && i < s@.len(),
            None => last_of(s@, c) is None,
        },
{
    let n = s.unicode_len();
    let mut i: usize = n;
    while i > 0
        invariant
            n == s@.len(),
            i <= n,
            forall|j: int| i <= j < n ==> s@[j] != c,
        decreases i,
    {
        if s.get_char(i - 1) == c {
            proof {
                lemma_last_of(s@, c, i - 1);
            }
            return Some(i - 1);
        }
        i = i - 1;
    }
    proof {
        lemma_last_of_none(s@, c);
    }
    None
}

/// The text that SASL PLAIN carries: NUL, username, NUL, password.
pub open spec fn credentials_text(username: Seq<char>, password: Seq<char>) -> Seq<char> {
    seq!['\0'] + username + seq!['\0'] + password
}

/// Username and password in a SASL PLAIN text: the password follows the last
/// NUL, the username stands between that and the NUL before it (or the
/// start).
pub open spec fn parse_credentials(s: Seq<char>) -> Option<(Seq<char>, Seq<char>)> {
    match last_of(s, '\0') {
        None => None,
        Some(p) => {
            let before = s.subrange(0, p);
            let username = match last_of(before, '\0') {
                None => before,
                Some(q) => before.subrange(q + 1, p),
            };
            Some((username, s.subrange(p + 1, s.len() as int)))
        },
    }
}

pub struct PlaintextCredentialsV {
    pub username: Seq<char>,
    pub password: Seq<char>,
}

/// Username and password for plain text authentication.
#[derive(Debug, Clone, PartialEq, Eq)]
pub struct PlaintextCredentials {
    pub username: String,
    pub password: String,
}

impl View for PlaintextCredentials {
    type V = PlaintextCredentialsV;

    open spec fn view(&self) -> PlaintextCredentialsV {
        PlaintextCredentialsV { username: self.username@, password: self.password@ }
    }
}

/// What `from_base64` makes of a text.
pub open spec fn credentials_of_base64(value: Seq<char>) -> Result<
    PlaintextCredentialsV,
    CredentialsError,
> {
    match base64_decoded(value) {
        None => Err(CredentialsError::Encoding),
        Some(b) => if !valid_utf8(b) {
            Err(CredentialsError::Text)
        } else {
            match parse_credentials(decode_utf8(b)) {
                None => Err(CredentialsError::MissingUsername),
                Some((u, p)) => Ok(PlaintextCredentialsV { username: u, password: p }),
            }
        },
    }
}

impl PlaintextCredentials {
    pub fn new(username: String, password: String) -> (r: PlaintextCredentials)
        ensures
            r@ == (PlaintextCredentialsV { username: username@, password: password@ }),
    {
        PlaintextCredentials { username, password }
    }

    /// NUL, username, NUL, password.
    pub fn to_text(&self) -> (r: String)
        ensures
            r@ == credentials_text(self@.username, self@.password),
    {
        let mut r = String::from_str("\0");
        r.append(self.username.as_str());
        r.append("\0");
        r.append(self.password.as_str());
        proof {
            reveal_strlit("\0");
        }
        r
    }

    /// Reads username and password from a SASL PLAIN text.
    pub fn from_text(text: &str) -> (r: Option<PlaintextCredentials>)
        ensures
            match r {
                Some(c) => parse_credentials(text@) == Some((c@.username, c@.password)),
                None => parse_credentials(text@) is None,
            },
    {
        let n = text.unicode_len();
        match find_last(text, '\0') {
            None => None,
            Some(p) => {
                let before = text.substring_char(0, p);
                let password = String::from_str(text.substring_char(p + 1, n));
                let username = match find_last(before, '\0') {
                    None => String::from_str(before),
                    Some(q) => String::from_str(before.substring_char(q + 1, p)),
                };
                Some(PlaintextCredentials { username, password })
            },
        }
    }

    /// Base64 of NUL, username, NUL, password.
    pub fn to_base64(&self) -> (r: String)
        ensures
            r@ == base64_of(encode_utf8(credentials_text(self@.username, self@.password))),
            base64_decoded(r@) == Some(encode_utf8(credentials_text(self@.username, self@.password))),
    {
        let text = self.to_text();
        base64_encode(text.as_str().as_bytes())
    }

    /// Reads credentials from the base64 value of an authentication request.
    pub fn from_base64(value: &str) -> (r: Result<PlaintextCredentials, CredentialsError>)
        ensures
            match r {
                Ok(c) => credentials_of_base64(value@) == Ok::<_, CredentialsError>(c@),
                Err(e) => credentials_of_base64(value@) == Err::<PlaintextCredentialsV, _>(e),
            },
    {
        let bytes = match base64_decode(value) {
            Some(b) => b,
            None => {
                return Err(CredentialsError::Encoding);
            },
        };
        let text = match utf8_string(bytes) {
            Some(t) => t,
            None => {
                return Err(CredentialsError::Text);
            },
        };
        match PlaintextCredentials::from_text(text.as_str()) {
            Some(c) => Ok(c),
            None => Err(CredentialsError::MissingUsername),
        }
    }
}

/// Credentials without NUL characters are read back by `from_base64` from
/// any text that decodes to their SASL PLAIN bytes, which is what
/// `to_base64` writes.
pub proof fn lemma_credentials_base64_round_trip(c: PlaintextCredentialsV, value: Seq<char>)
    requires
        forall|i: int| 0 <= i < c.username.len() ==> c.username[i] != '\0',
        forall|i: int| 0 <= i < c.password.len() ==> c.password[i] != '\0',
        base64_decoded(value) == Some(encode_utf8(credentials_text(c.username, c.password))),
    ensures
        credentials_of_base64(value) == Ok::<_, CredentialsError>(c),
{
    let text = credentials_text(c.username, c.password);
    encode_utf8_valid_utf8(text);
    encode_utf8_decode_utf8(text);
    lemma_credentials_round_trip(c.username, c.password);
}

/// Credentials without NUL characters read back as they were written.
pub proof fn lemma_credentials_round_trip(username: Seq<char>, password: Seq<char>)
    requires
        forall|i: int| 0 <= i < username.len() ==> username[i] != '\0',
        forall|i: int| 0 <= i < password.len() ==> password[i] != '\0',
    ensures
        parse_credentials(credentials_text(username, password)) == Some((username, password)),
{
    let s = credentials_text(username, password);
    let p = 1 + username.len() as int;
    assert(s[p] == '\0');
    assert forall|j: int| p < j < s.len() implies s[j] != '\0' by {
        assert(s[j] == password[j - p - 1]);
    }
    lemma_last_of(s, '\0', p);
    let before = s.subrange(0, p);
    assert(before[0] == '\0');
    assert forall|j: int| 0 < j < before.len() implies before[j] != '\0' by {
        assert(before[j] == username[j - 1]);
    }
    lemma_last_of(before, '\0', 0);
    assert(before.subrange(1, p) =~= username);
    assert(s.subrange(p + 1, s.len() as int) =~= password);
}

pub struct AuthRequestV {
    pub xmlns: Seq<char>,
    pub mechanism: Mechanism,
    pub value: Seq<char>,
}

/// Authentication request: a mechanism and its base64 value.
#[derive(Debug, Clone, PartialEq, Eq)]
pub struct AuthRequest {
    pub xmlns: String,
    pub mechanism: Mechanism,
    pub value: String,
}

impl View for AuthRequest {
    type V = AuthRequestV;

    open spec fn view(&self) -> AuthRequestV {
        AuthRequestV { xmlns: self.xmlns@, mechanism: self.mechanism, value: self.value@ }
    }
}

pub struct AuthSuccessV {
    pub xmlns: Seq<char>,
}

/// Notice that authentication succeeded.
#[derive(Debug, Clone, PartialEq, Eq)]
pub struct AuthSuccess {
    pub xmlns: String,
}

impl View for AuthSuccess {
    type V = AuthSuccessV;

    open spec fn view(&self) -> AuthSuccessV {
        AuthSuccessV { xmlns: self.xmlns@ }
    }
}

pub open spec fn auth_request_tokens(a: AuthRequestV) -> Seq<TokenV> {
    seq![
        TokenV::Start {
            name: "auth"@,
            attrs: seq![("xmlns"@, a.xmlns), ("mechanism"@, mechanism_name(a.mechanism))],
        },
        TokenV::Text { text: a.value },
        TokenV::End { name: "auth"@ },
    ]
}

pub open spec fn auth_success_tokens(a: AuthSuccessV) -> Seq<TokenV> {
    seq![TokenV::Empty { name: "success"@, attrs: xmlns_attrs(a.xmlns) }]
}

pub open spec fn dec_auth_request(t: Seq<TokenV>, i: int) -> Option<(AuthRequestV, int)> {
    match (attr_at(t, i, "xmlns"@), attr_at(t, i, "mechanism"@), text_at(t, i + 1)) {
        (Some(x), Some(m), Some(v)) => if is_start(t, i, "auth"@) && m == "PLAIN"@ && is_end(
            t,
            i + 2,
            "auth"@,
        ) {
            Some((AuthRequestV { xmlns: x, mechanism: Mechanism::Plain, value: v }, i + 3))
        } else {
            None
        },
        _ => None,
    }
}

pub open spec fn dec_auth_success(t: Seq<TokenV>, i: int) -> Option<(AuthSuccessV, int)> {
    match attr_at(t, i, "xmlns"@) {
        Some(x) => if is_empty(t, i, "success"@) {
            Some((AuthSuccessV { xmlns: x }, i + 1))
        } else {
            None
        },
        None => None,
    }
}

impl AuthRequest {
    pub fn new(xmlns: String, mechanism: Mechanism, value: String) -> (r: AuthRequest)
        ensures
            r@ == (AuthRequestV { xmlns: xmlns@, mechanism, value: value@ }),
    {
        AuthRequest { xmlns, mechanism, value }
    }

    pub fn write_xml(&self, out: &mut Vec<XmlToken>)
        ensures
            tokens_view(final(out)@) == tokens_view(old(out)@) + auth_request_tokens(self@),
    {
        let mut attrs: Vec<Attr> = Vec::new();
        attrs.push(Attr { key: String::from_str("xmlns"), value: self.xmlns.clone() });
        attrs.push(Attr { key: String::from_str("mechanism"), value: self.mechanism.to_string() });
        assert(attrs_view(attrs@) =~= seq![("xmlns"@, self.xmlns@), ("mechanism"@, mechanism_name(self.mechanism))]);
        push_token(out, start_token("auth", attrs));
        push_token(out, text_token(&self.value));
        push_token(out, end_token("auth"));
        assert(tokens_view(out@) =~= tokens_view(old(out)@) + auth_request_tokens(self@));
    }

    pub fn read_xml(t: &Vec<XmlToken>, i: usize) -> (r: Option<(AuthRequest, usize)>)
        ensures
            match r {
                Some((a, k)) => dec_auth_request(tokens_view(t@), i as int) == Some(
                    (a@, k as int),
                ) && k <= t@.len(),
                None => dec_auth_request(tokens_view(t@), i as int) is None,
            },
    {
        let xmlns = match attr_token_at(t, i, "xmlns") {
            Some(x) => x,
            None => {
                return None;
            },
        };
        let mechanism = match attr_token_at(t, i, "mechanism") {
            Some(m) => match Mechanism::from_name(m.as_str()) {
                Ok(m) => m,
                Err(_) => {
                    return None;
                },
            },
            None => {
                return None;
            },
        };
        if !start_at(t, i, "auth") {
            return None;
        }
        match text_token_at(t, i + 1) {
            Some(value) => {
                if end_at(t, i + 2, "auth") {
                    Some((AuthRequest { xmlns, mechanism, value }, i + 3))
                } else {
                    None
                }
            },
            None => None,
        }
    }
}

impl AuthSuccess {
    pub fn new(xmlns: String) -> (r: AuthSuccess)
        ensures
            r@ == (AuthSuccessV { xmlns: xmlns@ }),
    {
        AuthSuccess { xmlns }
    }

    pub fn write_xml(&self, out: &mut Vec<XmlToken>)
        ensures
            tokens_view(final(out)@) == tokens_view(old(out)@) + auth_success_tokens(self@),
    {
        push_token(out, empty_token("success", xmlns_attr_list(&self.xmlns)));
        assert(tokens_view(out@) =~= tokens_view(old(out)@) + auth_success_tokens(self@));
    }

    pub fn read_xml(t: &Vec<XmlToken>, i: usize) -> (r: Option<(AuthSuccess, usize)>)
        ensures
            match r {
                Some((a, k)) => dec_auth_success(tokens_view(t@), i as int) == Some(
                    (a@, k as int),
                ) && k <= t@.len(),
                None => dec_auth_success(tokens_view(t@), i as int) is None,
            },
    {
        let xmlns = match attr_token_at(t, i, "xmlns") {
            Some(x) => x,
            None => {
                return None;
            },
        };
        if empty_at(t, i, "success") {
            Some((AuthSuccess { xmlns }, i + 1))
        } else {
            None
        }
    }
}

impl AuthRequest {
    /// The element as XML text.
    pub fn write_xml_string(&self) -> (r: String)
        ensures
            r@ == text_of(auth_request_tokens(self@)),
    {
        let mut t: Vec<XmlToken> = Vec::new();
        assert(tokens_view(t@) =~= seq![]);
        self.write_xml(&mut t);
        assert(tokens_view(t@) =~= auth_request_tokens(self@));
        write_tokens(&t)
    }

    /// Reads the element from XML text.
    pub fn read_xml_string(text: &str) -> (r: Result<AuthRequest, CodecError>)
        ensures
            match r {
                Ok(v) => first_element(text@, |t: Seq<TokenV>, i: int| dec_auth_request(t, i)) == Some(v@),
                Err(_) => first_element(text@, |t: Seq<TokenV>, i: int| dec_auth_request(t, i)) is None,
            },
    {
        match read_tokens(text) {
            Some(t) => match AuthRequest::read_xml(&t, 0) {
                Some((v, _)) => Ok(v),
                None => Err(CodecError::Malformed),
            },
            None => Err(CodecError::Malformed),
        }
    }
}

impl AuthSuccess {
    /// The element as XML text.
    pub fn write_xml_string(&self) -> (r: String)
        ensures
            r@ == text_of(auth_success_tokens(self@)),
    {
        let mut t: Vec<XmlToken> = Vec::new();
        assert(tokens_view(t@) =~= seq![]);
        self.write_xml(&mut t);
        assert(tokens_view(t@) =~= auth_success_tokens(self@));
        write_tokens(&t)
    }

    /// Reads the element from XML text.
    pub fn read_xml_string(text: &str) -> (r: Result<AuthSuccess, CodecError>)
        ensures
            match r {
                Ok(v) => first_element(text@, |t: Seq<TokenV>, i: int| dec_auth_success(t, i)) == Some(v@),
                Err(_) => first_element(text@, |t: Seq<TokenV>, i: int| dec_auth_success(t, i)) is None,
            },
    {
        match read_tokens(text) {
            Some(t) => match AuthSuccess::read_xml(&t, 0) {
                Some((v, _)) => Ok(v),
                None => Err(CodecError::Malformed),
            },
            None => Err(CodecError::Malformed),
        }
    }
}

/// Writing an authentication request as tokens and reading it back gives the
/// same request.
pub proof fn lemma_auth_request_round_trip(a: AuthRequestV)
    ensures
        dec_auth_request(auth_request_tokens(a), 0) == Some((a, 3int)),
{
    reveal_strlit("xmlns");
    reveal_strlit("mechanism");
    assert("xmlns"@.len() != "mechanism"@.len());
    let attrs = seq![("xmlns"@, a.xmlns), ("mechanism"@, mechanism_name(a.mechanism))];
    assert(attrs.drop_first() =~= seq![("mechanism"@, mechanism_name(a.mechanism))]);
    assert(crate::xml::lookup(attrs.drop_first(), "mechanism"@) == Some(mechanism_name(a.mechanism)));
    assert(attrs[0].0 != "mechanism"@);
    assert(crate::xml::lookup(attrs, "mechanism"@) == Some(mechanism_name(a.mechanism)));
    assert(crate::xml::lookup(attrs, "xmlns"@) == Some(a.xmlns));
    assert(a.mechanism == Mechanism::Plain);
}

/// Writing an authentication success notice as tokens and reading it back
/// gives the same notice.
pub proof fn lemma_auth_success_round_trip(a: AuthSuccessV)
    ensures
        dec_auth_success(auth_success_tokens(a), 0) == Some((a, 1int)),
{
    assert(crate::xml::lookup(xmlns_attrs(a.xmlns), "xmlns"@) == Some(a.xmlns));
}

} // verus!
