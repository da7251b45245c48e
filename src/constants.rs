//! Namespaces of the protocol elements.

use vstd::prelude::*;

verus! {

pub const NAMESPACE_TLS: &'static str = "urn:ietf:params:xml:ns:xmpp-tls";

pub const NAMESPACE_SASL: &'static str = "urn:ietf:params:xml:ns:xmpp-sasl";

pub const NAMESPACE_BIND: &'static str = "urn:ietf:params:xml:ns:xmpp-bind";

pub const NAMESPACE_FRIENDS: &'static str = "mini.jabber.com/friends";

} // verus!
