//! Resolution of a configured connection into the parameters of a session.
use vstd::prelude::*;
use crate::models::{AuthIdentity, BrokerConfig, ConnectionProfile, ResolvedConnection, TransportProtocol};
use crate::strings::{has_prefix, is_blank, starts_with, trim, trimmed};
use crate::text::{decimal, push_char, push_decimal, push_str};

verus! {

/// Index of the first broker with the id.
pub open spec fn broker_index(s: Seq<BrokerConfig>, id: Seq<char>) -> Option<int>
    decreases s.len(),
{
    if s.len() == 0 {
        None
    } else {
        match broker_index(s.drop_last(), id) {
            Some(i) => Some(i),
            None => if s.last().id@ == id {
                Some(s.len() - 1)
            } else {
                None
            },
        }
    }
}

/// Index of the first identity with the id.
pub open spec fn identity_index(s: Seq<AuthIdentity>, id: Seq<char>) -> Option<int>
    decreases s.len(),
{
    if s.len() == 0 {
        None
    } else {
        match identity_index(s.drop_last(), id) {
            Some(i) => Some(i),
            None => if s.last().id@ == id {
                Some(s.len() - 1)
            } else {
                None
            },
        }
    }
}

/// The broker the profile refers to, when it refers to one that exists.
pub open spec fn chosen_broker(p: ConnectionProfile, brokers: Seq<BrokerConfig>) -> Option<BrokerConfig> {
    match p.broker_id {
        Some(bid) => match broker_index(brokers, bid@) {
            Some(i) => Some(brokers[i]),
            None => None,
        },
        None => None,
    }
}

/// The identity the profile refers to, when it refers to one that exists.
pub open spec fn chosen_identity(p: ConnectionProfile, ids: Seq<AuthIdentity>) -> Option<AuthIdentity> {
    match p.identity_id {
        Some(iid) => match identity_index(ids, iid@) {
            Some(i) => Some(ids[i]),
            None => None,
        },
        None => None,
    }
}

/// The text of an optional string, empty when absent.
pub open spec fn text_or_empty(o: Option<String>) -> Seq<char> {
    match o {
        Some(s) => s@,
        None => Seq::empty(),
    }
}

pub open spec fn effective_host(p: ConnectionProfile, brokers: Seq<BrokerConfig>) -> String {
    match chosen_broker(p, brokers) {
        Some(b) => b.host,
        None => p.host,
    }
}

pub open spec fn effective_port(p: ConnectionProfile, brokers: Seq<BrokerConfig>) -> u16 {
    match chosen_broker(p, brokers) {
        Some(b) => b.port,
        None => p.port,
    }
}

pub open spec fn effective_protocol(p: ConnectionProfile, brokers: Seq<BrokerConfig>) -> TransportProtocol {
    match chosen_broker(p, brokers) {
        Some(b) => b.protocol,
        None => p.protocol,
    }
}

pub open spec fn effective_path(p: ConnectionProfile, brokers: Seq<BrokerConfig>) -> Seq<char> {
    match chosen_broker(p, brokers) {
        Some(b) => text_or_empty(b.path),
        None => text_or_empty(p.path),
    }
}

pub open spec fn effective_username(p: ConnectionProfile, ids: Seq<AuthIdentity>) -> Option<String> {
    match chosen_identity(p, ids) {
        Some(i) => i.username,
        None => p.username,
    }
}

pub open spec fn effective_password(p: ConnectionProfile, ids: Seq<AuthIdentity>) -> Option<String> {
    match chosen_identity(p, ids) {
        Some(i) => i.password,
        None => p.password,
    }
}

pub open spec fn effective_client_id(p: ConnectionProfile, ids: Seq<AuthIdentity>) -> String {
    match chosen_identity(p, ids) {
        Some(i) => match i.client_id {
            Some(c) => c,
            None => p.client_id,
        },
        None => p.client_id,
    }
}

/// The protocol version a session uses: 5 when asked for, 4 otherwise.
pub open spec fn normalized_version(v: Option<u8>) -> u8 {
    match v {
        Some(x) => if x == 5 {
            5
        } else {
            4
        },
        None => 4,
    }
}

/// Whether the transport is WebSocket based.
pub open spec fn is_websocket(t: TransportProtocol) -> bool {
    t == TransportProtocol::Ws || t == TransportProtocol::Wss
}

/// The session path: for WebSocket transports the given path, or `/mqtt`
/// when it is blank; empty for the others.
pub open spec fn normalized_path(t: TransportProtocol, path: Seq<char>) -> Seq<char> {
    if is_websocket(t) {
        if is_blank(path) {
            "/mqtt"@
        } else {
            path
        }
    } else {
        Seq::empty()
    }
}

fn find_broker(brokers: &Vec<BrokerConfig>, id: &String) -> (r: Option<usize>)
    ensures
        r is None <==> broker_index(brokers@, id@) is None,
        r matches Some(i) ==> i < brokers@.len() && broker_index(brokers@, id@) == Some(i as int),
{
    let mut found: Option<usize> = None;
    let mut i: usize = 0;
    while i < brokers.len()
        invariant
            i <= brokers@.len(),
            found is None <==> broker_index(brokers@.subrange(0, i as int), id@) is None,
            found matches Some(j) ==> j < i && broker_index(brokers@.subrange(0, i as int), id@) == Some(
                j as int,
            ),
        decreases brokers@.len() - i,
    {
        let ghost pre = brokers@.subrange(0, i + 1);
        assert(pre.drop_last() =~= brokers@.subrange(0, i as int));
        assert(pre.last() == brokers@[i as int]);
        if found.is_none() && brokers[i].id == *id {
            found = Some(i);
        }
        i += 1;
    }
    assert(brokers@.subrange(0, i as int) =~= brokers@);
    found
}

fn find_identity(ids: &Vec<AuthIdentity>, id: &String) -> (r: Option<usize>)
    ensures
        r is None <==> identity_index(ids@, id@) is None,
        r matches Some(i) ==> i < ids@.len() && identity_index(ids@, id@) == Some(i as int),
{
    let mut found: Option<usize> = None;
    let mut i: usize = 0;
    while i < ids.len()
        invariant
            i <= ids@.len(),
            found is None <==> identity_index(ids@.subrange(0, i as int), id@) is None,
            found matches Some(j) ==> j < i && identity_index(ids@.subrange(0, i as int), id@) == Some(
                j as int,
            ),
        decreases ids@.len() - i,
    {
        let ghost pre = ids@.subrange(0, i + 1);
        assert(pre.drop_last() =~= ids@.subrange(0, i as int));
        assert(pre.last() == ids@[i as int]);
        if found.is_none() && ids[i].id == *id {
            found = Some(i);
        }
        i += 1;
    }
    assert(ids@.subrange(0, i as int) =~= ids@);
    found
}

fn copy_text(o: &Option<String>) -> (r: Option<String>)
    ensures
        r == *o,
{
    match o {
        Some(s) => Some(s.clone()),
        None => None,
    }
}

fn text_or_new(o: &Option<String>) -> (r: String)
    ensures
        r@ == text_or_empty(*o),
{
    match o {
        Some(s) => s.clone(),
        None => String::new(),
    }
}

/// Resolves a profile against the broker and identity lists. A broker the
/// profile refers to supplies host, port, transport and path; an identity it
/// refers to supplies username and password, and the client id when it has
/// one. Fails with `Broker host is required` when the host is blank, else with
/// `Broker port is required` when the port is 0.
pub fn resolve_connection(
    profile: ConnectionProfile,
    brokers: Vec<BrokerConfig>,
    identities: Vec<AuthIdentity>,
) -> (r: Result<ResolvedConnection, String>)
    ensures
        is_blank(effective_host(profile, brokers@)@) ==> (r matches Err(e) && e@
            == "Broker host is required"@),
        !is_blank(effective_host(profile, brokers@)@) && effective_port(profile, brokers@) == 0 ==> (
        r matches Err(e) && e@ == "Broker port is required"@),
        !is_blank(effective_host(profile, brokers@)@) && effective_port(profile, brokers@) != 0 ==> (
        r matches Ok(c) && {
            &&& c.id == profile.id
            &&& c.host == effective_host(profile, brokers@)
            &&& c.port == effective_port(profile, brokers@)
            &&& c.protocol == effective_protocol(profile, brokers@)
            &&& c.protocol_version == normalized_version(profile.protocol_version)
            &&& c.path@ == normalized_path(
                effective_protocol(profile, brokers@),
                effective_path(profile, brokers@),
            )
            &&& c.username == effective_username(profile, identities@)
            &&& c.password == effective_password(profile, identities@)
            &&& c.client_id == effective_client_id(profile, identities@)
            &&& c.clean == profile.clean
        }),
{
    let mut host = profile.host;
    let mut port = profile.port;
    let mut protocol = profile.protocol;
    let mut path = text_or_new(&profile.path);
    let mut username = profile.username;
    let mut password = profile.password;
    let mut client_id = profile.client_id;

    if let Some(broker_id) = &profile.broker_id {
        if let Some(i) = find_broker(&brokers, broker_id) {
            let b = &brokers[i];
            host = b.host.clone();
            port = b.port;
            protocol = b.protocol;
            path = text_or_new(&b.path);
            assert(chosen_broker(profile, brokers@) == Some(brokers@[i as int]));
        } else {
            assert(chosen_broker(profile, brokers@) is None);
        }
    }
    assert(host == effective_host(profile, brokers@));
    assert(port == effective_port(profile, brokers@));
    assert(protocol == effective_protocol(profile, brokers@));
    assert(path@ == effective_path(profile, brokers@));
    if let Some(identity_id) = &profile.identity_id {
        if let Some(i) = find_identity(&identities, identity_id) {
            let ident = &identities[i];
            username = copy_text(&ident.username);
            password = copy_text(&ident.password);
            if let Some(c) = &ident.client_id {
                client_id = c.clone();
            }
            assert(chosen_identity(profile, identities@) == Some(identities@[i as int]));
        } else {
            assert(chosen_identity(profile, identities@) is None);
        }
    }
    assert(username == effective_username(profile, identities@));
    assert(password == effective_password(profile, identities@));
    assert(client_id == effective_client_id(profile, identities@));
    if trim(host.as_str()).is_empty() {
        return Err(String::from_str("Broker host is required"));
    }
    if port == 0 {
        return Err(String::from_str("Broker port is required"));
    }
    let protocol_version: u8 = match profile.protocol_version {
        Some(v) => if v == 5 {
            5
        } else {
            4
        },
        None => 4,
    };
    let websocket = match protocol {
        TransportProtocol::Ws | TransportProtocol::Wss => true,
        _ => false,
    };
    let normalized = if websocket {
        if trim(path.as_str()).is_empty() {
            String::from_str("/mqtt")
        } else {
            path
        }
    } else {
        String::new()
    };
    Ok(
        ResolvedConnection {
            id: profile.id,
            host,
            port,
            protocol,
            protocol_version,
            path: normalized,
            username,
            password,
            client_id,
            clean: profile.clean,
        },
    )
}

/// The path part of a WebSocket URL: the trimmed path, `/mqtt` when that is
/// empty, with a leading `/` added when missing.
pub open spec fn url_path(path: Seq<char>) -> Seq<char> {
    let p = trimmed(path);
    if p.len() == 0 {
        "/mqtt"@
    } else if p[0] != '/' {
        seq!['/'] + p
    } else {
        p
    }
}

/// The broker URL of a WebSocket session. A trimmed host that already names
/// a `ws://` or `wss://` URL is used as it is; otherwise the URL is built as
/// `scheme://host:port/path`, with `wss` when `secure`.
pub open spec fn ws_url(host: Seq<char>, port: u16, path: Seq<char>, secure: bool) -> Seq<char> {
    let h = trimmed(host);
    if has_prefix(h, "ws://"@) || has_prefix(h, "wss://"@) {
        h
    } else {
        (if secure {
            "wss"@
        } else {
            "ws"@
        }) + "://"@ + h + ":"@ + decimal(port as nat) + url_path(path)
    }
}

/// See [`ws_url`].
pub fn build_ws_broker_url(cfg: &ResolvedConnection, secure: bool) -> (r: String)
    ensures
        r@ == ws_url(cfg.host@, cfg.port, cfg.path@, secure),
{
    let host = trim(cfg.host.as_str());
    if starts_with(host, "ws://") || starts_with(host, "wss://") {
        return String::from_str(host);
    }
    let mut url = String::new();
    if secure {
        push_str(&mut url, "wss");
    } else {
        push_str(&mut url, "ws");
    }
    push_str(&mut url, "://");
    push_str(&mut url, host);
    push_str(&mut url, ":");
    push_decimal(&mut url, cfg.port as u64);
    let p = trim(cfg.path.as_str());
    if p.is_empty() {
        push_str(&mut url, "/mqtt");
    } else {
        let chars = crate::text::char_vec(p);
        if chars[0] != '/' {
            push_char(&mut url, '/');
        }
        push_str(&mut url, p);
        assert(seq!['/'] + p@ =~= seq![].push('/') + p@);
    }
    assert(url@ =~= ws_url(cfg.host@, cfg.port, cfg.path@, secure));
    url
}

/// The address the protocol client connects to: the WebSocket URL for
/// WebSocket transports, the host otherwise.
pub open spec fn broker_address_of(cfg: ResolvedConnection) -> Seq<char> {
    match cfg.protocol {
        TransportProtocol::Ws => ws_url(cfg.host@, cfg.port, cfg.path@, false),
        TransportProtocol::Wss => ws_url(cfg.host@, cfg.port, cfg.path@, true),
        _ => cfg.host@,
    }
}

/// See [`broker_address_of`].
pub fn broker_address(cfg: &ResolvedConnection) -> (r: String)
    ensures
        r@ == broker_address_of(*cfg),
{
    match cfg.protocol {
        TransportProtocol::Ws => build_ws_broker_url(cfg, false),
        TransportProtocol::Wss => build_ws_broker_url(cfg, true),
        _ => cfg.host.clone(),
    }
}

} // verus!
