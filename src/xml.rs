//! XML as a sequence of tokens: the protocol elements are read from and
//! written to tokens by verified code, and quick-xml turns tokens into text
//! and text into tokens.

use quick_xml::events::{BytesEnd, BytesStart, BytesText, Event};
use quick_xml::{Reader, Writer};
use vstd::prelude::*;
use vstd::string::*;
use crate::jid::opt_view;

verus! {

/// One attribute of a tag: key and (unescaped) value.
#[derive(Debug, Clone, PartialEq, Eq)]
pub struct Attr {
    pub key: String,
    pub value: String,
}

/// One token of an XML text.
#[derive(Debug, Clone, PartialEq, Eq)]
pub enum XmlToken {
    /// `<name attrs>`.
    Start { name: String, attrs: Vec<Attr> },
    /// `<name attrs/>`.
    Empty { name: String, attrs: Vec<Attr> },
    /// `</name>`.
    End { name: String },
    /// Character data, unescaped and trimmed.
    Text { text: String },
    /// A declaration, comment, CDATA section, processing instruction or
    /// doctype.
    Other,
}

pub type AttrV = (Seq<char>, Seq<char>);

/// Mathematical value of a token.
pub enum TokenV {
    Start { name: Seq<char>, attrs: Seq<AttrV> },
    Empty { name: Seq<char>, attrs: Seq<AttrV> },
    End { name: Seq<char> },
    Text { text: Seq<char> },
    Other,
}

pub open spec fn attr_view(a: Attr) -> AttrV {
    (a.key@, a.value@)
}

pub open spec fn attrs_view(a: Seq<Attr>) -> Seq<AttrV> {
    a.map_values(|x: Attr| attr_view(x))
}

impl View for XmlToken {
    type V = TokenV;

    open spec fn view(&self) -> TokenV {
        match self {
            XmlToken::Start { name, attrs } => TokenV::Start { name: name@, attrs: attrs_view(attrs@) },
            XmlToken::Empty { name, attrs } => TokenV::Empty { name: name@, attrs: attrs_view(attrs@) },
            XmlToken::End { name } => TokenV::End { name: name@ },
            XmlToken::Text { text } => TokenV::Text { text: text@ },
            XmlToken::Other => TokenV::Other,
        }
    }
}

pub open spec fn tokens_view(t: Seq<XmlToken>) -> Seq<TokenV> {
    t.map_values(|x: XmlToken| x@)
}

/// One token as quick-xml reads it: a tag keeps its name and its whole
/// content (name and attributes), as yet unparsed.
#[derive(Debug, Clone, PartialEq, Eq)]
pub enum RawToken {
    Start(String, String),
    Empty(String, String),
    End(String),
    Text(String),
    Other,
}

pub enum RawTokenV {
    Start { name: Seq<char>, content: Seq<char> },
    Empty { name: Seq<char>, content: Seq<char> },
    End { name: Seq<char> },
    Text { text: Seq<char> },
    Other,
}

impl View for RawToken {
    type V = RawTokenV;

    open spec fn view(&self) -> RawTokenV {
        match self {
            RawToken::Start(name, content) => RawTokenV::Start { name: name@, content: content@ },
            RawToken::Empty(name, content) => RawTokenV::Empty { name: name@, content: content@ },
            RawToken::End(name) => RawTokenV::End { name: name@ },
            RawToken::Text(text) => RawTokenV::Text { text: text@ },
            RawToken::Other => RawTokenV::Other,
        }
    }
}

pub open spec fn raw_view(t: Seq<RawToken>) -> Seq<RawTokenV> {
    t.map_values(|x: RawToken| x@)
}

/// A tag's name is the start of its content.
pub open spec fn raw_wf(r: RawTokenV) -> bool {
    match r {
        RawTokenV::Start { name, content } => name.len() <= content.len() && content.subrange(
            0,
            name.len() as int,
        ) == name,
        RawTokenV::Empty { name, content } => name.len() <= content.len() && content.subrange(
            0,
            name.len() as int,
        ) == name,
        _ => true,
    }
}

/// The raw tokens that quick-xml reads from a text, or `None` where it
/// reports an error.
pub uninterp spec fn raw_tokens_of(text: Seq<char>) -> Option<Seq<RawTokenV>>;

/// The attributes that quick-xml reads from the content of a tag named
/// `name`, or `None` where one is malformed or repeated.
pub uninterp spec fn attrs_in(content: Seq<char>, name: Seq<char>) -> Option<Seq<AttrV>>;

/// A character as quick-xml's `escape` writes it.
pub open spec fn escape_char(c: char) -> Seq<char> {
    if c == '<' {
        seq!['&', 'l', 't', ';']
    } else if c == '>' {
        seq!['&', 'g', 't', ';']
    } else if c == '&' {
        seq!['&', 'a', 'm', 'p', ';']
    } else if c == '\'' {
        seq!['&', 'a', 'p', 'o', 's', ';']
    } else if c == '"' {
        seq!['&', 'q', 'u', 'o', 't', ';']
    } else {
        seq![c]
    }
}

/// Text as quick-xml's `escape` writes it: each character escaped.
pub open spec fn escaped(s: Seq<char>) -> Seq<char>
    decreases s.len(),
{
    if s.len() == 0 {
        seq![]
    } else {
        escaped(s.drop_last()) + escape_char(s.last())
    }
}

/// Attributes as written into a tag: ` key="escaped value"` each.
pub open spec fn attrs_text(a: Seq<AttrV>) -> Seq<char>
    decreases a.len(),
{
    if a.len() == 0 {
        seq![]
    } else {
        attrs_text(a.drop_last()) + seq![' '] + a.last().0 + seq!['=', '"'] + escaped(a.last().1)
            + seq!['"']
    }
}

/// The text that quick-xml's writer (no indentation) writes for one token.
#[verifier::opaque]
pub open spec fn token_text(t: TokenV) -> Seq<char> {
    match t {
        TokenV::Start { name, attrs } => seq!['<'] + name + attrs_text(attrs) + seq!['>'],
        TokenV::Empty { name, attrs } => seq!['<'] + name + attrs_text(attrs) + seq!['/', '>'],
        TokenV::End { name } => seq!['<', '/'] + name + seq!['>'],
        TokenV::Text { text } => escaped(text),
        TokenV::Other => seq![],
    }
}

/// The text of a sequence of tokens: the text of each, in order.
pub open spec fn text_of(tokens: Seq<TokenV>) -> Seq<char>
    decreases tokens.len(),
{
    if tokens.len() == 0 {
        seq![]
    } else {
        text_of(tokens.drop_last()) + token_text(tokens.last())
    }
}

/// Relies on quick_xml::Reader (text trimmed), `read_event` and
/// `BytesText::unescape`: the raw tokens depend on the text alone, and a
/// tag's name (`BytesStart::name`) is the start of its content.
#[verifier::external_body]
fn read_raw_tokens(text: &str) -> (r: Option<Vec<RawToken>>)
    ensures
        match r {
            Some(v) => raw_tokens_of(text@) == Some(raw_view(v@)) && forall|k: int|
                0 <= k < v@.len() ==> raw_wf(#[trigger] v@[k]@),
            None => raw_tokens_of(text@) is None,
        },
{
    let s = |b: &[u8]| String::from_utf8_lossy(b).into_owned();
    let mut rd = Reader::from_str(text);
    rd.trim_text(true);
    let mut out = Vec::new();
    loop {
        out.push(match rd.read_event().ok()? {
            Event::Start(t) => RawToken::Start(s(t.name().0), s(&t)),
            Event::Empty(t) => RawToken::Empty(s(t.name().0), s(&t)),
            Event::End(t) => RawToken::End(s(t.name().0)),
            Event::Text(t) => RawToken::Text(t.unescape().ok()?.into_owned()),
            Event::Eof => return Some(out),
            _ => RawToken::Other,
        });
    }
}

/// Relies on quick_xml's `BytesStart::attributes` and
/// `Attribute::unescape_value`: the attributes depend on the tag alone.
#[verifier::external_body]
fn read_attrs(content: &str, name: &str) -> (r: Option<Vec<Attr>>)
    requires
        name@.len() <= content@.len(),
        content@.subrange(0, name@.len() as int) == name@,
    ensures
        match r {
            Some(v) => attrs_in(content@, name@) == Some(attrs_view(v@)),
            None => attrs_in(content@, name@) is None,
        },
{
    let tag = BytesStart::from_content(content, name.len());
    let utf8 = |b: &[u8]| String::from_utf8(b.to_vec()).ok();
    tag.attributes().map(|a| {
        let a = a.ok()?;
        Some(Attr { key: utf8(a.key.0)?, value: a.unescape_value().ok()?.into_owned() })
    }).collect()
}

/// A raw token with its tag read.
pub open spec fn cook_one(r: RawTokenV) -> Option<TokenV> {
    match r {
        RawTokenV::Start { name, content } => match attrs_in(content, name) {
            Some(attrs) => Some(TokenV::Start { name, attrs }),
            None => None,
        },
        RawTokenV::Empty { name, content } => match attrs_in(content, name) {
            Some(attrs) => Some(TokenV::Empty { name, attrs }),
            None => None,
        },
        RawTokenV::End { name } => Some(TokenV::End { name }),
        RawTokenV::Text { text } => Some(TokenV::Text { text }),
        RawTokenV::Other => Some(TokenV::Other),
    }
}

/// Raw tokens with their tags read, or `None` where a tag is malformed.
pub open spec fn cook(raw: Seq<RawTokenV>) -> Option<Seq<TokenV>>
    decreases raw.len(),
{
    if raw.len() == 0 {
        Some(seq![])
    } else {
        match (cook(raw.drop_last()), cook_one(raw.last())) {
            (Some(a), Some(b)) => Some(a.push(b)),
            _ => None,
        }
    }
}

/// The tokens of a text, or `None` where quick-xml reports an error.
pub open spec fn tokens_of(text: Seq<char>) -> Option<Seq<TokenV>> {
    match raw_tokens_of(text) {
        Some(raw) => cook(raw),
        None => None,
    }
}

proof fn lemma_cook_prefix(s: Seq<RawTokenV>, k: int)
    requires
        0 <= k <= s.len(),
        cook(s.take(k)) is None,
    ensures
        cook(s) is None,
    decreases s.len() - k,
{
    if k < s.len() {
        assert(s.take(k + 1).drop_last() =~= s.take(k));
        lemma_cook_prefix(s, k + 1);
    } else {
        assert(s.take(k) =~= s);
    }
}

fn cook_token(r: &RawToken) -> (t: Option<XmlToken>)
    requires
        raw_wf(r@),
    ensures
        match t {
            Some(x) => cook_one(r@) == Some(x@),
            None => cook_one(r@) is None,
        },
{
    match r {
        RawToken::Start(name, content) => match read_attrs(content.as_str(), name.as_str()) {
            Some(attrs) => Some(XmlToken::Start { name: name.clone(), attrs }),
            None => None,
        },
        RawToken::Empty(name, content) => match read_attrs(content.as_str(), name.as_str()) {
            Some(attrs) => Some(XmlToken::Empty { name: name.clone(), attrs }),
            None => None,
        },
        RawToken::End(name) => Some(XmlToken::End { name: name.clone() }),
        RawToken::Text(text) => Some(XmlToken::Text { text: text.clone() }),
        RawToken::Other => Some(XmlToken::Other),
    }
}

/// The tokens of a text.
pub fn read_tokens(text: &str) -> (r: Option<Vec<XmlToken>>)
    ensures
        match r {
            Some(v) => tokens_of(text@) == Some(tokens_view(v@)),
            None => tokens_of(text@) is None,
        },
{
    let raw = match read_raw_tokens(text) {
        Some(raw) => raw,
        None => {
            return None;
        },
    };
    let ghost rv = raw_view(raw@);
    let mut out: Vec<XmlToken> = Vec::new();
    let mut i: usize = 0;
    assert(rv.take(0) =~= seq![]);
    assert(tokens_view(out@) =~= seq![]);
    while i < raw.len()
        invariant
            rv == raw_view(raw@),
            raw_tokens_of(text@) == Some(rv),
            forall|k: int| 0 <= k < raw@.len() ==> raw_wf(#[trigger] raw@[k]@),
            i <= raw@.len(),
            cook(rv.take(i as int)) == Some(tokens_view(out@)),
        decreases raw@.len() - i,
    {
        assert(rv.take(i + 1).drop_last() =~= rv.take(i as int));
        assert(rv.take(i + 1).last() == raw@[i as int]@);
        match cook_token(&raw[i]) {
            Some(t) => {
                let ghost prev = tokens_view(out@);
                out.push(t);
                assert(tokens_view(out@) =~= prev.push(t@));
            },
            None => {
                proof {
                    assert(cook_one(rv.take(i + 1).last()) is None);
                    assert(cook(rv.take(i + 1)) is None);
                    lemma_cook_prefix(rv, i + 1);
                    assert(tokens_of(text@) == cook(rv));
                }
                return None;
            },
        }
        i = i + 1;
    }
    assert(rv.take(raw@.len() as int) =~= rv);
    Some(out)
}

/// Relies on quick_xml::Writer (no indentation) and `write_event`: a start
/// tag is written `<` content `>`, an empty one `<` content `/>`, an end tag
/// `</` name `>`, text as is; `BytesStart::push_attribute` appends
/// ` key="value"` with the value passed through `escape`, as `BytesText::new`
/// does the text. `Eof` writes nothing.
#[verifier::external_body]
fn write_token(t: &XmlToken) -> (r: String)
    ensures
        r@ == token_text(t@),
{
    let tag = |n: &String, a: &Vec<Attr>| BytesStart::new(n.clone()).with_attributes(a.iter().map(|a| (&*a.key, &*a.value)));
    let ev = match t {
        XmlToken::Start { name, attrs } => Event::Start(tag(name, attrs)),
        XmlToken::Empty { name, attrs } => Event::Empty(tag(name, attrs)),
        XmlToken::End { name } => Event::End(BytesEnd::new(name.as_str())),
        XmlToken::Text { text } => Event::Text(BytesText::new(text)),
        _ => Event::Eof,
    };
    let mut w = Writer::new(Vec::new());
    let _ = w.write_event(ev);
    String::from_utf8(w.into_inner()).unwrap_or_default()
}

/// The text of a sequence of tokens.
pub fn write_tokens(tokens: &Vec<XmlToken>) -> (r: String)
    ensures
        r@ == text_of(tokens_view(tokens@)),
{
    let ghost tv = tokens_view(tokens@);
    let mut r = String::new();
    let mut i: usize = 0;
    assert(tv.take(0) =~= seq![]);
    while i < tokens.len()
        invariant
            tv == tokens_view(tokens@),
            i <= tokens@.len(),
            r@ == text_of(tv.take(i as int)),
        decreases tokens@.len() - i,
    {
        let piece = write_token(&tokens[i]);
        r.append(piece.as_str());
        assert(tv.take(i + 1).drop_last() =~= tv.take(i as int));
        assert(tv.take(i + 1).last() == tokens@[i as int]@);
        i = i + 1;
    }
    assert(tv.take(tokens@.len() as int) =~= tv);
    r
}

/// Value of the first attribute named `key`.
pub open spec fn lookup(attrs: Seq<AttrV>, key: Seq<char>) -> Option<Seq<char>>
    decreases attrs.len(),
{
    if attrs.len() == 0 {
        None
    } else if attrs[0].0 == key {
        Some(attrs[0].1)
    } else {
        lookup(attrs.drop_first(), key)
    }
}

/// The attribute `key="v"` where `v` is present, else nothing.
pub open spec fn opt_attr(key: Seq<char>, v: Option<Seq<char>>) -> Seq<AttrV> {
    match v {
        Some(x) => seq![(key, x)],
        None => seq![],
    }
}

pub proof fn lemma_lookup_concat(a: Seq<AttrV>, b: Seq<AttrV>, k: Seq<char>)
    ensures
        lookup(a + b, k) == (match lookup(a, k) {
            Some(v) => Some(v),
            None => lookup(b, k),
        }),
    decreases a.len(),
{
    if a.len() > 0 {
        assert((a + b).drop_first() =~= a.drop_first() + b);
        lemma_lookup_concat(a.drop_first(), b, k);
    } else {
        assert(a + b =~= b);
    }
}

pub proof fn lemma_lookup_opt_attr(key: Seq<char>, v: Option<Seq<char>>, k: Seq<char>)
    ensures
        lookup(opt_attr(key, v), k) == (if k == key { v } else { None }),
{
    if v is Some {
        let rest = opt_attr(key, v).drop_first();
        assert(rest =~= Seq::<AttrV>::empty());
        assert(lookup(rest, k) is None);
    }
}

/// Name of a start or empty tag.
pub open spec fn open_name(t: TokenV) -> Option<Seq<char>> {
    match t {
        TokenV::Start { name, .. } => Some(name),
        TokenV::Empty { name, .. } => Some(name),
        _ => None,
    }
}

/// Attributes of a start or empty tag.
pub open spec fn open_attrs(t: TokenV) -> Seq<AttrV> {
    match t {
        TokenV::Start { attrs, .. } => attrs,
        TokenV::Empty { attrs, .. } => attrs,
        _ => seq![],
    }
}

pub open spec fn is_start(t: Seq<TokenV>, i: int, name: Seq<char>) -> bool {
    0 <= i < t.len() && t[i] is Start && open_name(t[i]) == Some(name)
}

pub open spec fn is_empty(t: Seq<TokenV>, i: int, name: Seq<char>) -> bool {
    0 <= i < t.len() && t[i] is Empty && open_name(t[i]) == Some(name)
}

pub open spec fn is_end(t: Seq<TokenV>, i: int, name: Seq<char>) -> bool {
    0 <= i < t.len() && t[i] == TokenV::End { name }
}

/// Character data at position `i`.
pub open spec fn text_at(t: Seq<TokenV>, i: int) -> Option<Seq<char>> {
    if 0 <= i < t.len() {
        match t[i] {
            TokenV::Text { text } => Some(text),
            _ => None,
        }
    } else {
        None
    }
}

/// Value of attribute `key` of the tag at position `i`.
pub open spec fn attr_at(t: Seq<TokenV>, i: int, key: Seq<char>) -> Option<Seq<char>> {
    if 0 <= i < t.len() {
        lookup(open_attrs(t[i]), key)
    } else {
        None
    }
}

/// `a` holds the same characters as `b`.
pub fn same_text(a: &String, b: &str) -> (r: bool)
    ensures
        r == (a@ == b@),
{
    a.eq(&String::from_str(b))
}

/// Value of the first attribute named `key`.
pub fn attr_value(attrs: &Vec<Attr>, key: &str) -> (r: Option<String>)
    ensures
        opt_view(r) == lookup(attrs_view(attrs@), key@),
{
    let ghost av = attrs_view(attrs@);
    let n = attrs.len();
    let mut i: usize = 0;
    assert(av.subrange(0, n as int) =~= av);
    while i < n
        invariant
            n == attrs@.len(),
            av == attrs_view(attrs@),
            i <= n,
            lookup(av, key@) == lookup(av.subrange(i as int, n as int), key@),
        decreases n - i,
    {
        let a = &attrs[i];
        assert(av.subrange(i as int, n as int)[0] == attr_view(attrs@[i as int]));
        if same_text(&a.key, key) {
            return Some(a.value.clone());
        }
        assert(av.subrange(i as int, n as int).drop_first() =~= av.subrange(i + 1, n as int));
        i = i + 1;
    }
    None
}

/// Appends `key="v"` where `v` is present.
pub fn push_attr(attrs: &mut Vec<Attr>, key: &str, v: &Option<String>)
    ensures
        attrs_view(final(attrs)@) == attrs_view(old(attrs)@) + opt_attr(key@, opt_view(*v)),
{
    match v {
        Some(x) => {
            attrs.push(Attr { key: String::from_str(key), value: x.clone() });
            assert(attrs_view(attrs@) =~= attrs_view(old(attrs)@) + opt_attr(key@, opt_view(*v)));
        },
        None => {
            assert(attrs_view(attrs@) =~= attrs_view(old(attrs)@) + opt_attr(key@, opt_view(*v)));
        },
    }
}

/// Whether the token at `i` is `<name ...>`.
pub fn start_at(t: &Vec<XmlToken>, i: usize, name: &str) -> (r: bool)
    ensures
        r == is_start(tokens_view(t@), i as int, name@),
        r ==> i < t@.len(),
        tokens_view(t@).len() == t@.len(),
        t@.len() <= usize::MAX,
{
    let n = t.len();
    if i < n {
        match &t[i] {
            XmlToken::Start { name: n, .. } => same_text(n, name),
            _ => false,
        }
    } else {
        false
    }
}

/// Whether the token at `i` is `<name .../>`.
pub fn empty_at(t: &Vec<XmlToken>, i: usize, name: &str) -> (r: bool)
    ensures
        r == is_empty(tokens_view(t@), i as int, name@),
        r ==> i < t@.len(),
        tokens_view(t@).len() == t@.len(),
        t@.len() <= usize::MAX,
{
    let n = t.len();
    if i < n {
        match &t[i] {
            XmlToken::Empty { name: n, .. } => same_text(n, name),
            _ => false,
        }
    } else {
        false
    }
}

/// Whether the token at `i` is `</name>`.
pub fn end_at(t: &Vec<XmlToken>, i: usize, name: &str) -> (r: bool)
    ensures
        r == is_end(tokens_view(t@), i as int, name@),
        r ==> i < t@.len(),
        tokens_view(t@).len() == t@.len(),
        t@.len() <= usize::MAX,
{
    let n = t.len();
    if i < n {
        match &t[i] {
            XmlToken::End { name: n } => same_text(n, name),
            _ => false,
        }
    } else {
        false
    }
}

/// Character data at `i`.
pub fn text_token_at(t: &Vec<XmlToken>, i: usize) -> (r: Option<String>)
    ensures
        opt_view(r) == text_at(tokens_view(t@), i as int),
        r is Some ==> i < t@.len(),
        tokens_view(t@).len() == t@.len(),
        t@.len() <= usize::MAX,
{
    let n = t.len();
    if i < n {
        match &t[i] {
            XmlToken::Text { text } => Some(text.clone()),
            _ => None,
        }
    } else {
        None
    }
}

/// Value of attribute `key` of the tag at `i`.
pub fn attr_token_at(t: &Vec<XmlToken>, i: usize, key: &str) -> (r: Option<String>)
    ensures
        opt_view(r) == attr_at(tokens_view(t@), i as int, key@),
        tokens_view(t@).len() == t@.len(),
        t@.len() <= usize::MAX,
{
    let n = t.len();
    if i < n {
        match &t[i] {
            XmlToken::Start { attrs, .. } => attr_value(attrs, key),
            XmlToken::Empty { attrs, .. } => attr_value(attrs, key),
            _ => None,
        }
    } else {
        None
    }
}

pub fn start_token(name: &str, attrs: Vec<Attr>) -> (r: XmlToken)
    ensures
        r@ == (TokenV::Start { name: name@, attrs: attrs_view(attrs@) }),
{
    XmlToken::Start { name: String::from_str(name), attrs }
}

/// `<name>` without attributes.
pub fn plain_start_token(name: &str) -> (r: XmlToken)
    ensures
        r@ == (TokenV::Start { name: name@, attrs: seq![] }),
{
    let attrs: Vec<Attr> = Vec::new();
    assert(attrs_view(attrs@) =~= seq![]);
    XmlToken::Start { name: String::from_str(name), attrs }
}

/// A tag's only attribute, `xmlns`.
pub fn xmlns_attr_list(x: &String) -> (r: Vec<Attr>)
    ensures
        attrs_view(r@) == seq![("xmlns"@, x@)],
{
    let mut r: Vec<Attr> = Vec::new();
    r.push(Attr { key: String::from_str("xmlns"), value: x.clone() });
    assert(attrs_view(r@) =~= seq![("xmlns"@, x@)]);
    r
}

pub fn empty_token(name: &str, attrs: Vec<Attr>) -> (r: XmlToken)
    ensures
        r@ == (TokenV::Empty { name: name@, attrs: attrs_view(attrs@) }),
{
    XmlToken::Empty { name: String::from_str(name), attrs }
}

pub fn end_token(name: &str) -> (r: XmlToken)
    ensures
        r@ == (TokenV::End { name: name@ }),
{
    XmlToken::End { name: String::from_str(name) }
}

pub fn text_token(text: &String) -> (r: XmlToken)
    ensures
        r@ == (TokenV::Text { text: text@ }),
{
    XmlToken::Text { text: text.clone() }
}

/// Appends one token.
pub fn push_token(t: &mut Vec<XmlToken>, tok: XmlToken)
    ensures
        tokens_view(final(t)@) == tokens_view(old(t)@).push(tok@),
{
    t.push(tok);
    assert(tokens_view(t@) =~= tokens_view(old(t)@).push(tok@));
}


} // verus!
