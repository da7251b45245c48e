//! Addresses of the form `local@domain[/resource]`.

use vstd::prelude::*;
use vstd::string::*;

verus! {

/// Mathematical value of an address.
pub struct JidV {
    pub local: Seq<char>,
    pub domain: Seq<char>,
    pub resource: Option<Seq<char>>,
}

/// XMPP address of the form `local@domain/resource`.
#[derive(Debug, Clone, PartialEq, Eq)]
pub struct Jid {
    pub local_part: String,
    pub domain_part: String,
    pub resource_part: Option<String>,
}

/// Why text could not be read as an address.
#[derive(Debug, Clone, Copy, PartialEq, Eq, Structural)]
pub enum JidError {
    MissingAt,
}

pub open spec fn opt_view(o: Option<String>) -> Option<Seq<char>> {
    match o {
        Some(s) => Some(s@),
        None => None,
    }
}

pub fn clone_opt(o: &Option<String>) -> (r: Option<String>)
    ensures
        opt_view(r) == opt_view(*o),
{
    match o {
        Some(s) => Some(s.clone()),
        None => None,
    }
}

impl View for Jid {
    type V = JidV;

    open spec fn view(&self) -> JidV {
        JidV {
            local: self.local_part@,
            domain: self.domain_part@,
            resource: opt_view(self.resource_part),
        }
    }
}

/// `i` is the position of the first `c` in `s`.
pub open spec fn is_first(s: Seq<char>, c: char, i: int) -> bool {
    0 <= i < s.len() && s[i] == c && forall|j: int| 0 <= j < i ==> s[j] != c
}

/// Position of the first `c` in `s`, if there is one.
pub open spec fn first_of(s: Seq<char>, c: char) -> Option<int> {
    if exists|i: int| is_first(s, c, i) {
        Some(choose|i: int| is_first(s, c, i))
    } else {
        None
    }
}

pub proof fn lemma_first_of(s: Seq<char>, c: char, i: int)
    requires
        is_first(s, c, i),
    ensures
        first_of(s, c) == Some(i),
{
    let k = choose|k: int| is_first(s, c, k);
    assert(is_first(s, c, k));
    if k < i {
        assert(s[k] != c);
    }
    if i < k {
        assert(s[i] != c);
    }
}

pub proof fn lemma_first_of_none(s: Seq<char>, c: char)
    requires
        forall|j: int| 0 <= j < s.len() ==> s[j] != c,
    ensures
        first_of(s, c) is None,
{
    if exists|i: int| is_first(s, c, i) {
        let k = choose|k: int| is_first(s, c, k);
        assert(s[k] == c);
    }
}

/// The address that `s` denotes: split on the first `@`; after it, the first
/// `/` starts the resource.
pub open spec fn parse_jid(s: Seq<char>) -> Option<JidV> {
    match first_of(s, '@') {
        None => None,
        Some(a) => {
            let rest = s.subrange(a + 1, s.len() as int);
            match first_of(rest, '/') {
                None => Some(JidV { local: s.subrange(0, a), domain: rest, resource: None }),
                Some(b) => Some(
                    JidV {
                        local: s.subrange(0, a),
                        domain: rest.subrange(0, b),
                        resource: Some(rest.subrange(b + 1, rest.len() as int)),
                    },
                ),
            }
        },
    }
}

/// `local@domain`.
pub open spec fn bare_of(j: JidV) -> Seq<char> {
    j.local + seq!['@'] + j.domain
}

/// `local@domain` or `local@domain/resource`.
pub open spec fn format_jid(j: JidV) -> Seq<char> {
    match j.resource {
        None => bare_of(j),
        Some(r) => bare_of(j) + seq!['/'] + r,
    }
}

/// An address that text can carry: both parts non-empty, no `@` in the local
/// part and no `/` in the domain.
pub open spec fn valid_jid(j: JidV) -> bool {
    &&& j.local.len() > 0
    &&& j.domain.len() > 0
    &&& forall|i: int| 0 <= i < j.local.len() ==> j.local[i] != '@'
    &&& forall|i: int| 0 <= i < j.domain.len() ==> j.domain[i] != '/'
}

/// Position of the first `c` in `s`.
pub fn find_char(s: &str, c: char) -> (r: Option<usize>)
    ensures
        match r {
            Some(i) => is_first(s@, c, i as int),
            None => forall|j: int| 0 <= j < s@.len() ==> s@[j] != c,
        },
        r matches Some(i) ==> first_of(s@, c) == Some(i as int),
        r is None ==> first_of(s@, c) is None,
{
    let n = s.unicode_len();
    let mut i: usize = 0;
    while i < n
        invariant
            n == s@.len(),
            i <= n,
            forall|j: int| 0 <= j < i ==> s@[j] != c,
        decreases n - i,
    {
        if s.get_char(i) == c {
            proof {
                lemma_first_of(s@, c, i as int);
            }
            return Some(i);
        }
        i = i + 1;
    }
    proof {
        lemma_first_of_none(s@, c);
    }
    None
}

impl Jid {
    /// A copy of the address.
    pub fn cloned(&self) -> (r: Jid)
        ensures
            r@ == self@,
    {
        Jid {
            local_part: self.local_part.clone(),
            domain_part: self.domain_part.clone(),
            resource_part: clone_opt(&self.resource_part),
        }
    }

    /// Whether both are the same full address.
    pub fn same_as(&self, other: &Jid) -> (r: bool)
        ensures
            r == (self@ == other@),
    {
        let same_resource = match (&self.resource_part, &other.resource_part) {
            (Some(a), Some(b)) => a.eq(b),
            (None, None) => true,
            _ => false,
        };
        self.local_part.eq(&other.local_part) && self.domain_part.eq(&other.domain_part)
            && same_resource
    }

    /// Creates an address without a resource.
    pub fn new(local_part: &str, domain_part: &str) -> (r: Jid)
        ensures
            r@ == (JidV { local: local_part@, domain: domain_part@, resource: None }),
    {
        Jid {
            local_part: String::from_str(local_part),
            domain_part: String::from_str(domain_part),
            resource_part: None,
        }
    }

    /// The same address with the given resource.
    pub fn with_resource(self, resource_part: &str) -> (r: Jid)
        ensures
            r@ == (JidV { resource: Some(resource_part@), ..self@ }),
    {
        Jid { resource_part: Some(String::from_str(resource_part)), ..self }
    }

    pub fn local_part(&self) -> (r: &str)
        ensures
            r@ == self@.local,
    {
        self.local_part.as_str()
    }

    pub fn domain_part(&self) -> (r: &str)
        ensures
            r@ == self@.domain,
    {
        self.domain_part.as_str()
    }

    pub fn resource_part(&self) -> (r: Option<&String>)
        ensures
            match r {
                Some(s) => self@.resource == Some(s@),
                None => self@.resource is None,
            },
    {
        self.resource_part.as_ref()
    }

    /// The address without its resource, as text.
    pub fn bare(&self) -> (r: String)
        ensures
            r@ == bare_of(self@),
    {
        let mut r = String::from_str(self.local_part.as_str());
        r.append("@");
        r.append(self.domain_part.as_str());
        proof {
            reveal_strlit("@");
        }
        r
    }

    /// The textual form of the address.
    pub fn to_string(&self) -> (r: String)
        ensures
            r@ == format_jid(self@),
    {
        let mut r = self.bare();
        match &self.resource_part {
            Some(res) => {
                r.append("/");
                r.append(res.as_str());
                proof {
                    reveal_strlit("/");
                }
            },
            None => {},
        }
        r
    }

    /// Reads an address from text; fails when there is no `@`.
    pub fn parse(text: &str) -> (r: Result<Jid, JidError>)
        ensures
            match r {
                Ok(j) => parse_jid(text@) == Some(j@),
                Err(e) => parse_jid(text@) is None && e == JidError::MissingAt,
            },
    {
        let n = text.unicode_len();
        match find_char(text, '@') {
            None => Err(JidError::MissingAt),
            Some(a) => {
                let local = text.substring_char(0, a);
                let rest = text.substring_char(a + 1, n);
                let m = rest.unicode_len();
                match find_char(rest, '/') {
                    None => Ok(
                        Jid {
                            local_part: String::from_str(local),
                            domain_part: String::from_str(rest),
                            resource_part: None,
                        },
                    ),
                    Some(b) => Ok(
                        Jid {
                            local_part: String::from_str(local),
                            domain_part: String::from_str(rest.substring_char(0, b)),
                            resource_part: Some(String::from_str(rest.substring_char(b + 1, m))),
                        },
                    ),
                }
            },
        }
    }
}

/// Formatting a valid address and reading it back gives the same address.
pub proof fn lemma_parse_format(j: JidV)
    requires
        valid_jid(j),
    ensures
        parse_jid(format_jid(j)) == Some(j),
{
    let s = format_jid(j);
    let a = j.local.len() as int;
    assert(s[a] == '@');
    assert forall|k: int| 0 <= k < a implies s[k] != '@' by {
        assert(s[k] == j.local[k]);
    }
    lemma_first_of(s, '@', a);
    let rest = s.subrange(a + 1, s.len() as int);
    assert(s.subrange(0, a) =~= j.local);
    match j.resource {
        None => {
            assert(rest =~= j.domain);
            lemma_first_of_none(rest, '/');
        },
        Some(r) => {
            let b = j.domain.len() as int;
            assert(rest =~= j.domain + seq!['/'] + r);
            assert forall|k: int| 0 <= k < b implies rest[k] != '/' by {
                assert(rest[k] == j.domain[k]);
            }
            assert(rest[b] == '/');
            lemma_first_of(rest, '/', b);
            assert(rest.subrange(0, b) =~= j.domain);
            assert(rest.subrange(b + 1, rest.len() as int) =~= r);
        },
    }
}

/// Two addresses that differ only in their resource have the same bare form;
/// two valid addresses with different local parts do not.
pub proof fn lemma_bare_equality(a: JidV, b: JidV)
    ensures
        a.local == b.local && a.domain == b.domain ==> bare_of(a) == bare_of(b),
        valid_jid(a) && valid_jid(b) && a.local != b.local ==> bare_of(a) != bare_of(b),
{
    if valid_jid(a) && valid_jid(b) && a.local != b.local && bare_of(a) == bare_of(b) {
        let sa = bare_of(a);
        let la = a.local.len() as int;
        let lb = b.local.len() as int;
        if la < lb {
            assert(sa[la] == '@');
            assert(bare_of(b)[la] == b.local[la]);
        } else if lb < la {
            assert(bare_of(b)[lb] == '@');
            assert(sa[lb] == a.local[lb]);
        } else {
            assert forall|k: int| 0 <= k < la implies a.local[k] == b.local[k] by {
                assert(sa[k] == a.local[k]);
                assert(bare_of(b)[k] == b.local[k]);
            }
            assert(a.local =~= b.local);
        }
    }
}

} // verus!
