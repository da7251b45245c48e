//! Who receives an incoming stanza, and what the sender is told.

use vstd::prelude::*;
use vstd::string::*;

use crate::constants::NAMESPACE_FRIENDS;
use crate::jid::{bare_of, parse_jid, Jid, JidV};
use crate::registry::{entries_view, index_of, unique_resources, EntryV, ServerState, SessionEntry};
use crate::stanza::{
    iq_tokens, message_tokens, presence_tokens, FriendsV, Iq, IqV, Message, Payload, PayloadV,
    Presence, Stanza, StanzaV, Friends,
};
use crate::xml::text_of;

verus! {

pub enum OutgoingV {
    Deliver { resource: Seq<char>, text: Seq<char> },
    Reply { text: Seq<char> },
}

/// A frame to send: to the session bound to `resource`, or back to the
/// sender.
#[derive(Debug, Clone, PartialEq, Eq)]
pub enum Outgoing {
    Deliver { resource: String, text: String },
    Reply { text: String },
}

impl View for Outgoing {
    type V = OutgoingV;

    open spec fn view(&self) -> OutgoingV {
        match self {
            Outgoing::Deliver { resource, text } => OutgoingV::Deliver {
                resource: resource@,
                text: text@,
            },
            Outgoing::Reply { text } => OutgoingV::Reply { text: text@ },
        }
    }
}

pub open spec fn outgoing_view(s: Seq<Outgoing>) -> Seq<OutgoingV> {
    s.map_values(|o: Outgoing| o@)
}

/// Why a stanza could not be routed.
#[derive(Debug, Clone, Copy, PartialEq, Eq, Structural)]
pub enum RouteError {
    /// The `to` address has no `@`.
    BadAddress,
}

/// Whether a session reached through a bare address gets the message: its
/// address has that bare form and is not the sender's own address.
pub open spec fn bare_match(e: EntryV, sender: JidV, bare: Seq<char>) -> bool {
    e.1 != sender && bare_of(e.1) == bare
}

/// `r` is the resource of a session, other than the sender's own, whose
/// address has the bare form `bare`.
pub open spec fn bound_matching(s: Seq<EntryV>, r: Seq<char>, sender: JidV, bare: Seq<char>) -> bool {
    exists|i: int| 0 <= i < s.len() && s[i].0 == r && bare_match(s[i], sender, bare)
}

/// `r` is the resource of a session of another user than the sender.
pub open spec fn bound_other(s: Seq<EntryV>, r: Seq<char>, sender: JidV) -> bool {
    exists|i: int| 0 <= i < s.len() && s[i].0 == r && other_user(s[i], sender)
}

/// Whether a session belongs to another user than the sender.
pub open spec fn other_user(e: EntryV, sender: JidV) -> bool {
    bare_of(e.1) != bare_of(sender)
}

/// Resources of the sessions, other than the sender's own, whose address has
/// the bare form `bare`; in table order.
pub open spec fn bare_targets(s: Seq<EntryV>, sender: JidV, bare: Seq<char>) -> Seq<Seq<char>>
    decreases s.len(),
{
    if s.len() == 0 {
        seq![]
    } else {
        let rest = bare_targets(s.drop_last(), sender, bare);
        if bare_match(s.last(), sender, bare) {
            rest.push(s.last().0)
        } else {
            rest
        }
    }
}

/// Sessions of other users than the sender: those whose address has another
/// bare form than the sender's (which leaves out the sender's own session
/// and its other resources); in table order.
pub open spec fn other_users(s: Seq<EntryV>, sender: JidV) -> Seq<EntryV>
    decreases s.len(),
{
    if s.len() == 0 {
        seq![]
    } else {
        let rest = other_users(s.drop_last(), sender);
        if other_user(s.last(), sender) {
            rest.push(s.last())
        } else {
            rest
        }
    }
}

pub open spec fn deliver_all(targets: Seq<Seq<char>>, text: Seq<char>) -> Seq<OutgoingV> {
    targets.map_values(|r: Seq<char>| OutgoingV::Deliver { resource: r, text })
}

/// The answer to a friends query: the addresses online.
pub open spec fn friends_result(id: Seq<char>, l: Seq<JidV>) -> IqV {
    IqV {
        id,
        from: None,
        type_: Some("result"@),
        payload: Some(PayloadV::Friends(FriendsV { xmlns: NAMESPACE_FRIENDS@, friend_list: Some(l) })),
    }
}

/// Routing of every kind of stanza from `sender`, over the table `s`.
pub open spec fn route_spec(s: Seq<EntryV>, sender: JidV, st: StanzaV) -> Result<
    Seq<OutgoingV>,
    RouteError,
> {
    match st {
        StanzaV::Message(m) => {
            let text = text_of(message_tokens(m));
            match m.to {
                None => Ok(seq![]),
                Some(to) => match parse_jid(to) {
                    None => Err(RouteError::BadAddress),
                    Some(target) => match target.resource {
                        Some(r) => if Some(r) == sender.resource {
                            Ok(seq![])
                        } else if index_of(s, r) is Some {
                            Ok(seq![OutgoingV::Deliver { resource: r, text }])
                        } else {
                            Ok(seq![OutgoingV::Reply { text: "no such resource"@ }])
                        },
                        None => Ok(
                            deliver_all(
                                bare_targets(s, sender, bare_of(target)),
                                text,
                            ),
                        ),
                    },
                },
            }
        },
        StanzaV::Presence(p) => Ok(
            deliver_all(
                other_users(s, sender).map_values(|e: EntryV| e.0),
                text_of(presence_tokens(p)),
            ),
        ),
        StanzaV::Iq(q) => match q.payload {
            None => Ok(seq![]),
            Some(PayloadV::Friends(_)) => Ok(
                seq![
                    OutgoingV::Reply {
                        text: text_of(
                            iq_tokens(
                                friends_result(q.id, other_users(s, sender).map_values(|e: EntryV| e.1)),
                            ),
                        ),
                    },
                ],
            ),
            Some(PayloadV::Bind(_)) => Ok(seq![OutgoingV::Reply { text: "unsupported IQ call"@ }]),
        },
    }
}

/// One delivery of `text` to each resource.
fn deliveries(targets: &Vec<String>, text: &String) -> (r: Vec<Outgoing>)
    ensures
        outgoing_view(r@) == deliver_all(targets@.map_values(|t: String| t@), text@),
{
    let mut r: Vec<Outgoing> = Vec::new();
    let mut i: usize = 0;
    while i < targets.len()
        invariant
            i <= targets@.len(),
            outgoing_view(r@) =~= deliver_all(
                targets@.take(i as int).map_values(|t: String| t@),
                text@,
            ),
        decreases targets@.len() - i,
    {
        let ghost prev = outgoing_view(r@);
        r.push(Outgoing::Deliver { resource: targets[i].clone(), text: text.clone() });
        let ghost d = OutgoingV::Deliver { resource: targets@[i as int]@, text: text@ };
        assert(outgoing_view(r@) =~= prev.push(d));
        assert(targets@.take(i + 1) =~= targets@.take(i as int).push(targets@[i as int]));
        assert(targets@.take(i + 1).map_values(|t: String| t@) =~= targets@.take(i as int).map_values(
            |t: String| t@,
        ).push(targets@[i as int]@));
        assert(deliver_all(targets@.take(i + 1).map_values(|t: String| t@), text@) =~= deliver_all(
            targets@.take(i as int).map_values(|t: String| t@),
            text@,
        ).push(d));
        i = i + 1;
    }
    assert(targets@.take(targets@.len() as int) =~= targets@);
    r
}

/// Resources of the sessions, other than the sender's own, bound to an
/// address whose bare form is `bare`.
fn collect_bare_targets(state: &ServerState, sender: &Jid, bare: &String) -> (r: Vec<String>)
    ensures
        r@.map_values(|t: String| t@) == bare_targets(state@, sender@, bare@),
{
    let entries = state.sessions();
    let mut r: Vec<String> = Vec::new();
    let mut i: usize = 0;
    while i < entries.len()
        invariant
            entries_view(entries@) == state@,
            i <= entries@.len(),
            r@.map_values(|t: String| t@) =~= bare_targets(state@.take(i as int), sender@, bare@),
        decreases entries@.len() - i,
    {
        let e = &entries[i];
        assert(state@.take(i + 1).drop_last() =~= state@.take(i as int));
        assert(state@.take(i + 1).last() == e@);
        if !e.jid.same_as(sender) && e.jid.bare().eq(bare) {
            r.push(e.resource.clone());
        }
        i = i + 1;
    }
    assert(state@.take(entries@.len() as int) =~= state@);
    r
}

/// Sessions of users other than `sender`.
fn collect_other_users(state: &ServerState, sender: &Jid) -> (r: Vec<SessionEntry>)
    ensures
        entries_view(r@) == other_users(state@, sender@),
{
    let entries = state.sessions();
    let sender_bare = sender.bare();
    let mut r: Vec<SessionEntry> = Vec::new();
    let mut i: usize = 0;
    while i < entries.len()
        invariant
            entries_view(entries@) == state@,
            sender_bare@ == bare_of(sender@),
            i <= entries@.len(),
            entries_view(r@) =~= other_users(state@.take(i as int), sender@),
        decreases entries@.len() - i,
    {
        let e = &entries[i];
        assert(state@.take(i + 1).drop_last() =~= state@.take(i as int));
        assert(state@.take(i + 1).last() == e@);
        if !e.jid.bare().eq(&sender_bare) {
            r.push(SessionEntry { resource: e.resource.clone(), jid: e.jid.cloned() });
        }
        i = i + 1;
    }
    assert(state@.take(entries@.len() as int) =~= state@);
    r
}

/// Decides who receives a stanza sent by the session bound to `sender`.
pub fn route(state: &ServerState, sender: &Jid, stanza: &Stanza) -> (r: Result<
    Vec<Outgoing>,
    RouteError,
>)
    requires
        state.wf(),
        sender@.resource is Some,
    ensures
        match r {
            Ok(v) => route_spec(state@, sender@, stanza@) == Ok::<_, RouteError>(outgoing_view(v@)),
            Err(e) => route_spec(state@, sender@, stanza@) == Err::<Seq<OutgoingV>, _>(e),
        },
{
    let sender_resource = match &sender.resource_part {
        Some(s) => s.clone(),
        None => {
            return Ok(Vec::new());
        },
    };
    match stanza {
        Stanza::Message(m) => {
            let text = m.write_xml_string();
            match &m.to {
                None => {
                    let v: Vec<Outgoing> = Vec::new();
                    assert(outgoing_view(v@) =~= seq![]);
                    Ok(v)
                },
                Some(to) => match Jid::parse(to.as_str()) {
                    Err(_) => Err(RouteError::BadAddress),
                    Ok(target) => match &target.resource_part {
                        Some(res) => {
                            let mut v: Vec<Outgoing> = Vec::new();
                            if res.eq(&sender_resource) {
                            } else if state.get(res.as_str()).is_some() {
                                v.push(Outgoing::Deliver { resource: res.clone(), text });
                            } else {
                                v.push(Outgoing::Reply { text: String::from_str("no such resource") });
                            }
                            assert(outgoing_view(v@) =~= route_spec(state@, sender@, stanza@)->Ok_0);
                            Ok(v)
                        },
                        None => {
                            let targets = collect_bare_targets(state, sender, &target.bare());
                            Ok(deliveries(&targets, &text))
                        },
                    },
                },
            }
        },
        Stanza::Presence(p) => {
            let text = p.write_xml_string();
            let others = collect_other_users(state, sender);
            let mut targets: Vec<String> = Vec::new();
            let mut i: usize = 0;
            while i < others.len()
                invariant
                    i <= others@.len(),
                    targets@.map_values(|t: String| t@) =~= entries_view(others@).take(
                        i as int,
                    ).map_values(|e: EntryV| e.0),
                decreases others@.len() - i,
            {
                let ghost prev = targets@;
                targets.push(others[i].resource.clone());
                let ghost ev = entries_view(others@);
                assert(ev.take(i + 1) =~= ev.take(i as int).push(others@[i as int]@));
                assert(targets@ =~= prev.push(others@[i as int].resource));
                assert(targets@.map_values(|t: String| t@) =~= prev.map_values(|t: String| t@).push(
                    others@[i as int].resource@,
                ));
                assert(ev.take(i + 1).map_values(|e: EntryV| e.0) =~= ev.take(i as int).map_values(
                    |e: EntryV| e.0,
                ).push(others@[i as int].resource@));
                i = i + 1;
            }
            assert(entries_view(others@).take(others@.len() as int) =~= entries_view(others@));
            Ok(deliveries(&targets, &text))
        },
        Stanza::Iq(q) => match &q.payload {
            None => {
                let v: Vec<Outgoing> = Vec::new();
                assert(outgoing_view(v@) =~= seq![]);
                Ok(v)
            },
            Some(Payload::Friends(_)) => {
                let others = collect_other_users(state, sender);
                let mut friends: Vec<Jid> = Vec::new();
                let mut i: usize = 0;
                while i < others.len()
                    invariant
                        i <= others@.len(),
                        friends@.map_values(|j: Jid| j@) =~= entries_view(others@).take(
                            i as int,
                        ).map_values(|e: EntryV| e.1),
                    decreases others@.len() - i,
                {
                    let ghost prev = friends@;
                    let j = others[i].jid.cloned();
                    friends.push(j);
                    let ghost ev = entries_view(others@);
                    assert(ev.take(i + 1) =~= ev.take(i as int).push(others@[i as int]@));
                    assert(friends@ =~= prev.push(j));
                    assert(friends@.map_values(|j: Jid| j@) =~= prev.map_values(|j: Jid| j@).push(
                        j@,
                    ));
                    assert(ev.take(i + 1).map_values(|e: EntryV| e.1) =~= ev.take(
                        i as int,
                    ).map_values(|e: EntryV| e.1).push(others@[i as int].jid@));
                    i = i + 1;
                }
                assert(entries_view(others@).take(others@.len() as int) =~= entries_view(
                    others@,
                ));
                let mut iq = Iq::new(q.id.clone());
                iq.type_ = Some(String::from_str("result"));
                iq.payload = Some(
                    Payload::Friends(
                        Friends {
                            xmlns: String::from_str(NAMESPACE_FRIENDS),
                            friend_list: Some(friends),
                        },
                    ),
                );
                let mut v: Vec<Outgoing> = Vec::new();
                v.push(Outgoing::Reply { text: iq.write_xml_string() });
                assert(outgoing_view(v@) =~= route_spec(state@, sender@, stanza@)->Ok_0);
                Ok(v)
            },
            Some(Payload::Bind(_)) => {
                let mut v: Vec<Outgoing> = Vec::new();
                v.push(Outgoing::Reply { text: String::from_str("unsupported IQ call") });
                assert(outgoing_view(v@) =~= route_spec(state@, sender@, stanza@)->Ok_0);
                Ok(v)
            },
        },
    }
}

/// The resources that a bare-address message goes to are exactly those of
/// the sessions, other than the sender's own, whose address has that bare
/// form; each once, in table order.
pub proof fn lemma_bare_targets(s: Seq<EntryV>, sender: JidV, bare: Seq<char>)
    ensures
        forall|k: int|
            0 <= k < bare_targets(s, sender, bare).len() ==> bound_matching(
                s,
                #[trigger] bare_targets(s, sender, bare)[k],
                sender,
                bare,
            ),
        forall|i: int|
            0 <= i < s.len() && bare_match(#[trigger] s[i], sender, bare) ==> bare_targets(
                s,
                sender,
                bare,
            ).contains(s[i].0),
    decreases s.len(),
{
    if s.len() > 0 {
        let rest = s.drop_last();
        lemma_bare_targets(rest, sender, bare);
        let t = bare_targets(s, sender, bare);
        let tr = bare_targets(rest, sender, bare);
        assert forall|k: int| 0 <= k < t.len() implies bound_matching(s, #[trigger] t[k], sender, bare) by {
            if k < tr.len() {
                assert(t[k] == tr[k]);
                let i = choose|i: int|
                    0 <= i < rest.len() && rest[i].0 == tr[k] && bare_match(rest[i], sender, bare);
                assert(s[i] == rest[i]);
            } else {
                assert(s[s.len() - 1] == s.last());
            }
        }
        assert forall|i: int| 0 <= i < s.len() && bare_match(#[trigger] s[i], sender, bare) implies t.contains(
            s[i].0,
        ) by {
            if i < s.len() - 1 {
                assert(rest[i] == s[i]);
                let k = choose|k: int| 0 <= k < tr.len() && tr[k] == rest[i].0;
                assert(t[k] == tr[k]);
            } else {
                assert(t[t.len() - 1] == s.last().0);
            }
        }
    }
}

/// The sessions of other users are exactly the table's entries whose
/// address has another bare form than the sender's, in table order.
pub proof fn lemma_other_users(s: Seq<EntryV>, sender: JidV)
    ensures
        forall|k: int|
            0 <= k < other_users(s, sender).len() ==> other_user(
                #[trigger] other_users(s, sender)[k],
                sender,
            ) && s.contains(other_users(s, sender)[k]),
        forall|i: int|
            0 <= i < s.len() && other_user(#[trigger] s[i], sender) ==> other_users(
                s,
                sender,
            ).contains(s[i]),
    decreases s.len(),
{
    if s.len() > 0 {
        let rest = s.drop_last();
        lemma_other_users(rest, sender);
        let t = other_users(s, sender);
        let tr = other_users(rest, sender);
        assert forall|k: int| 0 <= k < t.len() implies other_user(#[trigger] t[k], sender)
            && s.contains(t[k]) by {
            if k < tr.len() {
                assert(t[k] == tr[k]);
                let i = choose|i: int| 0 <= i < rest.len() && rest[i] == tr[k];
                assert(s[i] == rest[i]);
            } else {
                assert(s[s.len() - 1] == s.last());
            }
        }
        assert forall|i: int| 0 <= i < s.len() && other_user(#[trigger] s[i], sender) implies t.contains(
            s[i],
        ) by {
            if i < s.len() - 1 {
                assert(rest[i] == s[i]);
                let k = choose|k: int| 0 <= k < tr.len() && tr[k] == rest[i];
                assert(t[k] == tr[k]);
            } else {
                assert(t[t.len() - 1] == s.last());
            }
        }
    }
}

/// What each kind of stanza leads to: a message to a full address never
/// goes back to the sender's resource; a message to a bare address goes to
/// sessions of that bare address other than the sender's own; a presence
/// goes to sessions of other users only; every delivery goes to a resource
/// bound in the table.
pub proof fn lemma_route_never_echoes(s: Seq<EntryV>, sender: JidV, st: StanzaV)
    requires
        unique_resources(s),
        sender.resource is Some,
    ensures
        route_spec(s, sender, st) matches Ok(out) ==> forall|k: int|
            0 <= k < out.len() ==> (#[trigger] out[k] matches OutgoingV::Deliver { resource, .. }
                ==> index_of(s, resource) is Some),
        st matches StanzaV::Message(m) ==> (m.to matches Some(to) ==> (parse_jid(to) matches Some(
            target,
        ) ==> (route_spec(s, sender, st) matches Ok(out) && forall|k: int|
            0 <= k < out.len() ==> (#[trigger] out[k] matches OutgoingV::Deliver { resource, .. }
                ==> if target.resource is Some {
                Some(resource) != sender.resource
            } else {
                bound_matching(s, resource, sender, bare_of(target))
            })))),
        st matches StanzaV::Presence(_) ==> route_spec(s, sender, st) matches Ok(out) && forall|k: int|
            0 <= k < out.len() ==> (#[trigger] out[k] matches OutgoingV::Deliver { resource, .. }
                ==> bound_other(s, resource, sender)),
{
    lemma_other_users(s, sender);
    match st {
        StanzaV::Message(m) => {
            if let Some(to) = m.to {
                if let Some(target) = parse_jid(to) {
                    if target.resource is None {
                        let b = bare_targets(s, sender, bare_of(target));
                        lemma_bare_targets(s, sender, bare_of(target));
                        let text = text_of(message_tokens(m));
                        let out = deliver_all(b, text);
                        assert forall|k: int| 0 <= k < out.len() implies (#[trigger] out[k] matches OutgoingV::Deliver { resource, .. }
                            ==> index_of(s, resource) is Some && bound_matching(s, resource, sender, bare_of(target))) by {
                            assert(out[k] == OutgoingV::Deliver { resource: b[k], text });
                            let i = choose|i: int| 0 <= i < s.len() && s[i].0 == b[k] && bare_match(s[i], sender, bare_of(target));
                            assert(0 <= i < s.len() && s[i].0 == b[k]);
                        }
                    }
                }
            }
        },
        StanzaV::Presence(p) => {
            let o = other_users(s, sender);
            let r = o.map_values(|e: EntryV| e.0);
            let text = text_of(presence_tokens(p));
            let out = deliver_all(r, text);
            assert forall|k: int| 0 <= k < out.len() implies (#[trigger] out[k] matches OutgoingV::Deliver { resource, .. } ==> (
                index_of(s, resource) is Some && bound_other(s, resource, sender))) by {
                assert(out[k] == OutgoingV::Deliver { resource: o[k].0, text });
                let e = o[k];
                assert(s.contains(e));
                let i = choose|i: int| 0 <= i < s.len() && s[i] == e;
                assert(0 <= i < s.len() && s[i].0 == o[k].0);
            }
        },
        StanzaV::Iq(_) => {},
    }
}

} // verus!
