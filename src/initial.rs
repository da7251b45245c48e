//! The header that opens (and reopens) a stream.

use vstd::prelude::*;
use vstd::string::*;

use crate::jid::opt_view;
use crate::stanza::{first_element, CodecError};
use crate::xml::{
    lemma_lookup_concat, lemma_lookup_opt_attr, lookup, attr_at, attr_token_at, attrs_view, is_start, opt_attr, push_attr, push_token, read_tokens,
    start_at, start_token, text_of, tokens_view, write_tokens, Attr, AttrV, TokenV, XmlToken,
};

verus! {

pub struct InitialHeaderV {
    pub id: Option<Seq<char>>,
    pub from: Option<Seq<char>>,
    pub to: Option<Seq<char>>,
    pub version: Option<Seq<char>>,
    pub xml_lang: Option<Seq<char>>,
    pub xmlns: Option<Seq<char>>,
    pub xmlns_stream: Option<Seq<char>>,
}

/// Header that opens a stream; the answering side fills in a fresh `id`.
#[derive(Debug, Clone, PartialEq, Eq)]
pub struct InitialHeader {
    pub id: Option<String>,
    pub from: Option<String>,
    pub to: Option<String>,
    pub version: Option<String>,
    pub xml_lang: Option<String>,
    pub xmlns: Option<String>,
    pub xmlns_stream: Option<String>,
}

impl View for InitialHeader {
    type V = InitialHeaderV;

    open spec fn view(&self) -> InitialHeaderV {
        InitialHeaderV {
            id: opt_view(self.id),
            from: opt_view(self.from),
            to: opt_view(self.to),
            version: opt_view(self.version),
            xml_lang: opt_view(self.xml_lang),
            xmlns: opt_view(self.xmlns),
            xmlns_stream: opt_view(self.xmlns_stream),
        }
    }
}

pub open spec fn header_attrs(h: InitialHeaderV) -> Seq<AttrV> {
    opt_attr("id"@, h.id) + opt_attr("from"@, h.from) + opt_attr("to"@, h.to) + opt_attr(
        "version"@,
        h.version,
    ) + opt_attr("xml:lang"@, h.xml_lang) + opt_attr("xmlns"@, h.xmlns) + opt_attr(
        "xmlns:stream"@,
        h.xmlns_stream,
    )
}

pub open spec fn header_tokens(h: InitialHeaderV) -> Seq<TokenV> {
    seq![TokenV::Start { name: "stream:stream"@, attrs: header_attrs(h) }]
}

pub open spec fn dec_header(t: Seq<TokenV>, i: int) -> Option<(InitialHeaderV, int)> {
    if is_start(t, i, "stream:stream"@) {
        Some(
            (
                InitialHeaderV {
                    id: attr_at(t, i, "id"@),
                    from: attr_at(t, i, "from"@),
                    to: attr_at(t, i, "to"@),
                    version: attr_at(t, i, "version"@),
                    xml_lang: attr_at(t, i, "xml:lang"@),
                    xmlns: attr_at(t, i, "xmlns"@),
                    xmlns_stream: attr_at(t, i, "xmlns:stream"@),
                },
                i + 1,
            ),
        )
    } else {
        None
    }
}

impl InitialHeader {
    /// A header with no attributes.
    pub fn new() -> (r: InitialHeader)
        ensures
            r@ == (InitialHeaderV {
                id: None,
                from: None,
                to: None,
                version: None,
                xml_lang: None,
                xmlns: None,
                xmlns_stream: None,
            }),
    {
        InitialHeader {
            id: None,
            from: None,
            to: None,
            version: None,
            xml_lang: None,
            xmlns: None,
            xmlns_stream: None,
        }
    }

    /// The answer to this header: the same header with the stream id `id`.
    pub fn into_response(self, id: String) -> (r: InitialHeader)
        ensures
            r@ == (InitialHeaderV { id: Some(id@), ..self@ }),
    {
        InitialHeader { id: Some(id), ..self }
    }

    pub fn write_xml(&self, out: &mut Vec<XmlToken>)
        ensures
            tokens_view(final(out)@) == tokens_view(old(out)@) + header_tokens(self@),
    {
        let mut attrs: Vec<Attr> = Vec::new();
        assert(attrs_view(attrs@) =~= seq![]);
        push_attr(&mut attrs, "id", &self.id);
        push_attr(&mut attrs, "from", &self.from);
        push_attr(&mut attrs, "to", &self.to);
        push_attr(&mut attrs, "version", &self.version);
        push_attr(&mut attrs, "xml:lang", &self.xml_lang);
        push_attr(&mut attrs, "xmlns", &self.xmlns);
        push_attr(&mut attrs, "xmlns:stream", &self.xmlns_stream);
        push_token(out, start_token("stream:stream", attrs));
        assert(tokens_view(out@) =~= tokens_view(old(out)@) + header_tokens(self@));
    }

    pub fn read_xml(t: &Vec<XmlToken>, i: usize) -> (r: Option<(InitialHeader, usize)>)
        ensures
            match r {
                Some((h, k)) => dec_header(tokens_view(t@), i as int) == Some((h@, k as int))
                    && k <= t@.len(),
                None => dec_header(tokens_view(t@), i as int) is None,
            },
    {
        if !start_at(t, i, "stream:stream") {
            return None;
        }
        Some(
            (
                InitialHeader {
                    id: attr_token_at(t, i, "id"),
                    from: attr_token_at(t, i, "from"),
                    to: attr_token_at(t, i, "to"),
                    version: attr_token_at(t, i, "version"),
                    xml_lang: attr_token_at(t, i, "xml:lang"),
                    xmlns: attr_token_at(t, i, "xmlns"),
                    xmlns_stream: attr_token_at(t, i, "xmlns:stream"),
                },
                i + 1,
            ),
        )
    }
}

impl InitialHeader {
    /// The element as XML text.
    pub fn write_xml_string(&self) -> (r: String)
        ensures
            r@ == text_of(header_tokens(self@)),
    {
        let mut t: Vec<XmlToken> = Vec::new();
        assert(tokens_view(t@) =~= seq![]);
        self.write_xml(&mut t);
        assert(tokens_view(t@) =~= header_tokens(self@));
        write_tokens(&t)
    }

    /// Reads the element from XML text.
    pub fn read_xml_string(text: &str) -> (r: Result<InitialHeader, CodecError>)
        ensures
            match r {
                Ok(v) => first_element(text@, |t: Seq<TokenV>, i: int| dec_header(t, i)) == Some(v@),
                Err(_) => first_element(text@, |t: Seq<TokenV>, i: int| dec_header(t, i)) is None,
            },
    {
        match read_tokens(text) {
            Some(t) => match InitialHeader::read_xml(&t, 0) {
                Some((v, _)) => Ok(v),
                None => Err(CodecError::Malformed),
            },
            None => Err(CodecError::Malformed),
        }
    }
}

proof fn lemma_lookup_opt_tail(a: Seq<AttrV>, key: Seq<char>, v: Option<Seq<char>>, k: Seq<char>)
    ensures
        lookup(a + opt_attr(key, v), k) == (match lookup(a, k) {
            Some(x) => Some(x),
            None => if k == key {
                v
            } else {
                None
            },
        }),
{
    lemma_lookup_concat(a, opt_attr(key, v), k);
    lemma_lookup_opt_attr(key, v, k);
}

/// Looking up a key in the attributes of a header.
proof fn lemma_header_lookup(h: InitialHeaderV, k: Seq<char>)
    ensures
        lookup(header_attrs(h), k) == (if k == "id"@ && h.id is Some {
            h.id
        } else if k == "from"@ && h.from is Some {
            h.from
        } else if k == "to"@ && h.to is Some {
            h.to
        } else if k == "version"@ && h.version is Some {
            h.version
        } else if k == "xml:lang"@ && h.xml_lang is Some {
            h.xml_lang
        } else if k == "xmlns"@ && h.xmlns is Some {
            h.xmlns
        } else if k == "xmlns:stream"@ && h.xmlns_stream is Some {
            h.xmlns_stream
        } else {
            None
        }),
{
    let a0 = Seq::<AttrV>::empty();
    let a1 = a0 + opt_attr("id"@, h.id);
    let a2 = a1 + opt_attr("from"@, h.from);
    let a3 = a2 + opt_attr("to"@, h.to);
    let a4 = a3 + opt_attr("version"@, h.version);
    let a5 = a4 + opt_attr("xml:lang"@, h.xml_lang);
    let a6 = a5 + opt_attr("xmlns"@, h.xmlns);
    let a7 = a6 + opt_attr("xmlns:stream"@, h.xmlns_stream);
    assert(a1 =~= opt_attr("id"@, h.id));
    assert(a7 == header_attrs(h));
    assert(lookup(a0, k) is None);
    lemma_lookup_opt_tail(a0, "id"@, h.id, k);
    lemma_lookup_opt_tail(a1, "from"@, h.from, k);
    lemma_lookup_opt_tail(a2, "to"@, h.to, k);
    lemma_lookup_opt_tail(a3, "version"@, h.version, k);
    lemma_lookup_opt_tail(a4, "xml:lang"@, h.xml_lang, k);
    lemma_lookup_opt_tail(a5, "xmlns"@, h.xmlns, k);
    lemma_lookup_opt_tail(a6, "xmlns:stream"@, h.xmlns_stream, k);
}

proof fn lemma_header_keys()
    ensures
        "id"@ != "from"@,
        "id"@ != "to"@,
        "id"@ != "version"@,
        "id"@ != "xml:lang"@,
        "id"@ != "xmlns"@,
        "id"@ != "xmlns:stream"@,
        "from"@ != "to"@,
        "from"@ != "version"@,
        "from"@ != "xml:lang"@,
        "from"@ != "xmlns"@,
        "from"@ != "xmlns:stream"@,
        "to"@ != "version"@,
        "to"@ != "xml:lang"@,
        "to"@ != "xmlns"@,
        "to"@ != "xmlns:stream"@,
        "version"@ != "xml:lang"@,
        "version"@ != "xmlns"@,
        "version"@ != "xmlns:stream"@,
        "xml:lang"@ != "xmlns"@,
        "xml:lang"@ != "xmlns:stream"@,
        "xmlns"@ != "xmlns:stream"@,
{
    reveal_strlit("id");
    reveal_strlit("from");
    reveal_strlit("to");
    reveal_strlit("version");
    reveal_strlit("xml:lang");
    reveal_strlit("xmlns");
    reveal_strlit("xmlns:stream");
    assert("id"@[0] != "to"@[0]);
    assert("id"@.len() != "from"@.len());
    assert("id"@.len() != "version"@.len());
    assert("id"@.len() != "xml:lang"@.len());
    assert("id"@.len() != "xmlns"@.len());
    assert("id"@.len() != "xmlns:stream"@.len());
    assert("from"@.len() != "to"@.len());
    assert("from"@.len() != "version"@.len());
    assert("from"@.len() != "xml:lang"@.len());
    assert("from"@.len() != "xmlns"@.len());
    assert("from"@.len() != "xmlns:stream"@.len());
    assert("to"@.len() != "version"@.len());
    assert("to"@.len() != "xml:lang"@.len());
    assert("to"@.len() != "xmlns"@.len());
    assert("to"@.len() != "xmlns:stream"@.len());
    assert("version"@.len() != "xml:lang"@.len());
    assert("version"@.len() != "xmlns"@.len());
    assert("version"@.len() != "xmlns:stream"@.len());
    assert("xml:lang"@.len() != "xmlns"@.len());
    assert("xml:lang"@.len() != "xmlns:stream"@.len());
    assert("xmlns"@.len() != "xmlns:stream"@.len());
}

/// Writing a stream header as tokens and reading it back gives the same
/// header.
pub proof fn lemma_header_round_trip(h: InitialHeaderV)
    ensures
        dec_header(header_tokens(h), 0) == Some((h, 1int)),
{
    lemma_header_keys();
    lemma_header_lookup(h, "id"@);
    lemma_header_lookup(h, "from"@);
    lemma_header_lookup(h, "to"@);
    lemma_header_lookup(h, "version"@);
    lemma_header_lookup(h, "xml:lang"@);
    lemma_header_lookup(h, "xmlns"@);
    lemma_header_lookup(h, "xmlns:stream"@);
}

} // verus!
