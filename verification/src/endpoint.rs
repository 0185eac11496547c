//! How a peer is dialled: timeouts, keepalive and TLS of its endpoint.

use vstd::prelude::*;

use crate::globals::MtlsIdentityPem;
use crate::text::{find_char, from_range, skip_prefixes, starts_with, to_chars};
use crate::transport::{EndpointSettings, PeerEndpoint, TlsSettings, TlsSetup};

verus! {

/// The largest message that a peer may send, in bytes.
pub const DEFAULT_GRPC_SERVER_MESSAGE_LEN: usize = 100 * 1024 * 1024;

/// How many seconds a connection may take to be made.
pub const CONNECT_TIMEOUT_SECS: u64 = 3;

/// How many idle seconds pass before the system probes a connection.
pub const TCP_KEEPALIVE_SECS: u64 = 10;

/// How many seconds pass between two heartbeats.
pub const HTTP2_KEEPALIVE_INTERVAL_SECS: u64 = 5;

/// How many seconds the answer to a heartbeat may take.
pub const HTTP2_KEEPALIVE_TIMEOUT_SECS: u64 = 3;

/// How many seconds any single call may take.
pub const RPC_TIMEOUT_SECS: u64 = 30;

/// What the address of a peer that is reached over TLS starts with.
pub const RUSTFS_HTTPS_PREFIX: &'static str = "https://";

/// Why an endpoint cannot be made.
#[derive(Debug)]
pub enum EndpointError {
    /// The address cannot be dialled.
    InvalidAddress(tonic::transport::Error),
    /// The TLS settings are refused.
    Tls(tonic::transport::Error),
}

/// Whether a peer is reached over TLS.
pub open spec fn is_https(addr: Seq<char>) -> bool {
    RUSTFS_HTTPS_PREFIX@.is_prefix_of(addr)
}

/// The host in the address of a peer that is reached over TLS: what stands
/// behind the prefix, up to a path and up to a port.
pub open spec fn peer_domain(addr: Seq<char>) -> Seq<char> {
    crate::text::before_char(
        crate::text::before_char(
            crate::text::without_prefixes(addr, RUSTFS_HTTPS_PREFIX@),
            '/',
        ),
        ':',
    )
}

/// The timeouts and the keepalive that every endpoint gets.
pub open spec fn with_timeouts(s: EndpointSettings) -> EndpointSettings {
    EndpointSettings {
        connect_timeout_secs: Some(CONNECT_TIMEOUT_SECS),
        tcp_keepalive_secs: Some(TCP_KEEPALIVE_SECS),
        http2_keep_alive_interval_secs: Some(HTTP2_KEEPALIVE_INTERVAL_SECS),
        http2_keep_alive_timeout_secs: Some(HTTP2_KEEPALIVE_TIMEOUT_SECS),
        http2_keep_alive_while_idle: Some(true),
        timeout_secs: Some(RPC_TIMEOUT_SECS),
        ..s
    }
}

/// Whether two optional identities hold the same certificate and key.
pub open spec fn same_identity(a: Option<MtlsIdentityPem>, b: Option<MtlsIdentityPem>) -> bool {
    match (a, b) {
        (Some(x), Some(y)) => x.cert_pem@ == y.cert_pem@ && x.key_pem@ == y.key_pem@,
        (None, None) => true,
        _ => false,
    }
}

/// The name that the certificate of a peer has to carry; none where its address
/// has no host.
pub open spec fn checked_domain(addr: Seq<char>) -> Option<Seq<char>> {
    if peer_domain(addr).len() > 0 {
        Some(peer_domain(addr))
    } else {
        None
    }
}

/// The TLS settings for a peer: without a root certificate the roots of the
/// system are trusted, else the root certificate, for the name of the host. The
/// identity is presented wherever there is one.
pub open spec fn is_tls_for(
    tls: TlsSettings,
    addr: Seq<char>,
    root_cert: Option<Vec<u8>>,
    identity: Option<MtlsIdentityPem>,
) -> bool {
    &&& same_identity(tls.identity, identity)
    &&& match root_cert {
        None => tls.system_roots && tls.ca_pem is None && tls.domain is None,
        Some(pem) => {
            &&& !tls.system_roots
            &&& tls.ca_pem matches Some(p) && p@ == pem@
            &&& crate::transport::text_of(tls.domain) == checked_domain(addr)
        },
    }
}

/// The host in the address of a peer that is reached over TLS.
pub fn tls_domain(addr: &str) -> (r: String)
    ensures
        r@ == peer_domain(addr@),
{
    let chars: Vec<char> = to_chars(addr);
    let prefix: Vec<char> = to_chars(RUSTFS_HTTPS_PREFIX);
    proof {
        reveal_strlit("https://");
    }
    let lo: usize = skip_prefixes(&chars, &prefix);
    let slash: usize = find_char(&chars, lo, chars.len(), '/');
    assert(chars@.subrange(lo as int, chars@.len() as int) =~= chars@.skip(lo as int));
    let colon: usize = find_char(&chars, lo, slash, ':');
    from_range(&chars, lo, colon)
}

fn copied(pem: &Vec<u8>) -> (r: Vec<u8>)
    ensures
        r@ == pem@,
{
    let r: Vec<u8> = pem.clone();
    assert(r@ =~= pem@);
    r
}

/// The TLS settings for a peer.
pub fn tls_setup(
    addr: &str,
    root_cert: &Option<Vec<u8>>,
    identity: &Option<MtlsIdentityPem>,
) -> (r: TlsSetup)
    ensures
        is_tls_for(r.settings(), addr@, *root_cert, *identity),
        *root_cert is Some ==> forall|host: Seq<char>, rest: Seq<char>|
            addr@ == #[trigger] ("https://"@ + host + rest) && host.len() > 0 && !host.contains('/')
                && !host.contains(':') && (rest.len() == 0 || rest[0] == '/' || rest[0] == ':')
                && !"https://"@.is_prefix_of(host + rest) ==> (
            r.settings().domain matches Some(domain) && domain@ == host),
{
    proof {
        assert forall|host: Seq<char>, rest: Seq<char>|
            addr@ == #[trigger] ("https://"@ + host + rest) && host.len() > 0 && !host.contains('/')
                && !host.contains(':') && (rest.len() == 0 || rest[0] == '/' || rest[0] == ':')
                && !"https://"@.is_prefix_of(host + rest) implies checked_domain(addr@) == Some(
            host,
        ) by {
            law_peer_domain_is_host(host, rest);
        }
    }
    let trusted: TlsSetup = match root_cert {
        None => TlsSetup::new().with_native_roots(),
        Some(pem) => {
            let checked: TlsSetup = TlsSetup::new().ca_certificate(copied(pem));
            let domain: String = tls_domain(addr);
            if to_chars(domain.as_str()).len() > 0 {
                checked.domain_name(domain)
            } else {
                checked
            }
        },
    };
    match identity {
        Some(id) => trusted.identity(id.clone()),
        None => trusted,
    }
}

/// Gives an endpoint its timeouts and its keepalive, and TLS where its address
/// asks for it.
pub fn configure_endpoint(
    endpoint: PeerEndpoint,
    addr: &str,
    root_cert: &Option<Vec<u8>>,
    identity: &Option<MtlsIdentityPem>,
) -> (r: Result<PeerEndpoint, EndpointError>)
    ensures
        !is_https(addr@) ==> r is Ok && r->Ok_0.settings() == with_timeouts(endpoint.settings()),
        is_https(addr@) ==> match r {
            Ok(e) => {
                &&& e.settings().tls matches Some(tls)
                &&& is_tls_for(tls, addr@, *root_cert, *identity)
                &&& e.settings() == (EndpointSettings {
                    tls: Some(tls),
                    ..with_timeouts(endpoint.settings())
                })
            },
            Err(e) => e is Tls,
        },
        is_https(addr@) && *identity is None ==> (*root_cert matches Some(pem) ==> (r is Ok
            <==> crate::transport::root_cert_accepted(
            endpoint.settings().addr@,
            pem@,
            checked_domain(addr@),
        ))),
{
    let connector: PeerEndpoint = endpoint.connect_timeout(CONNECT_TIMEOUT_SECS).tcp_keepalive(
        TCP_KEEPALIVE_SECS,
    ).http2_keep_alive_interval(HTTP2_KEEPALIVE_INTERVAL_SECS).keep_alive_timeout(
        HTTP2_KEEPALIVE_TIMEOUT_SECS,
    ).keep_alive_while_idle(true).timeout(RPC_TIMEOUT_SECS);
    let chars: Vec<char> = to_chars(addr);
    let prefix: Vec<char> = to_chars(RUSTFS_HTTPS_PREFIX);
    assert(addr@.skip(0) =~= addr@);
    if !starts_with(&chars, 0, &prefix) {
        return Ok(connector);
    }
    match connector.tls_config(tls_setup(addr, root_cert, identity)) {
        Ok(e) => Ok(e),
        Err(e) => Err(EndpointError::Tls(e)),
    }
}

/// An endpoint for a peer. Peers whose address starts with `https://` are
/// reached over TLS: they are checked against the root certificate, or against
/// the roots of the system where there is none, and are presented the identity
/// where there is one.
pub fn build_endpoint(
    addr: &str,
    root_cert: &Option<Vec<u8>>,
    identity: &Option<MtlsIdentityPem>,
) -> (r: Result<PeerEndpoint, EndpointError>)
    ensures
        r matches Err(EndpointError::InvalidAddress(_)) <==> !crate::transport::endpoint_address_accepted(addr@),
        crate::transport::endpoint_address_accepted(addr@) && !is_https(addr@) ==> r is Ok,
        crate::transport::endpoint_address_accepted(addr@) && is_https(addr@) && *identity is None
            ==> (*root_cert matches Some(pem) ==> (r is Ok
            <==> crate::transport::root_cert_accepted(addr@, pem@, checked_domain(addr@)))),
        r matches Ok(e) ==> {
            &&& e.settings().addr@ == addr@
            &&& e.settings() == with_timeouts(e.settings())
            &&& is_https(addr@) <==> e.settings().tls is Some
            &&& e.settings().tls matches Some(tls) ==> is_tls_for(tls, addr@, *root_cert, *identity)
        },
{
    match PeerEndpoint::from_shared(addr) {
        Ok(e) => configure_endpoint(e, addr, root_cert, identity),
        Err(e) => Err(EndpointError::InvalidAddress(e)),
    }
}

/// The host that a certificate is checked for carries neither the port nor the
/// path of the address.
pub proof fn law_peer_domain_is_host(host: Seq<char>, rest: Seq<char>)
    requires
        !host.contains('/'),
        !host.contains(':'),
        rest.len() == 0 || rest[0] == '/' || rest[0] == ':',
        !is_https(host + rest),
    ensures
        peer_domain(RUSTFS_HTTPS_PREFIX@ + host + rest) == host,
{
    let prefix = RUSTFS_HTTPS_PREFIX@;
    let addr = prefix + host + rest;
    reveal_strlit("https://");
    assert(prefix.is_prefix_of(addr)) by {
        assert(addr.subrange(0, prefix.len() as int) =~= prefix);
    }
    assert(addr.skip(prefix.len() as int) =~= host + rest);
    assert(crate::text::without_prefixes(addr, prefix) == host + rest) by {
        reveal_with_fuel(crate::text::without_prefixes, 2);
    }
    let cut = crate::text::before_char(rest, '/');
    lemma_before_char(host, rest, '/');
    if rest.len() > 0 && rest[0] == ':' {
        assert(cut[0] == ':');
    }
    lemma_before_char(host, cut, ':');
    assert(host + Seq::<char>::empty() =~= host);
}

proof fn lemma_before_char(head: Seq<char>, rest: Seq<char>, c: char)
    requires
        !head.contains(c),
    ensures
        crate::text::before_char(head + rest, c) == head + crate::text::before_char(rest, c),
    decreases head.len(),
{
    if head.len() == 0 {
        assert(head + rest =~= rest);
        assert(head + crate::text::before_char(rest, c) =~= crate::text::before_char(rest, c));
    } else {
        assert(head.contains(head[0]));
        assert((head + rest).skip(1) =~= head.skip(1) + rest);
        assert forall|x: char| head.skip(1).contains(x) implies head.contains(x) by {
            let i = choose|i: int| 0 <= i < head.skip(1).len() && head.skip(1)[i] == x;
            assert(head[i + 1] == x);
        }
        lemma_before_char(head.skip(1), rest, c);
        assert(seq![head[0]] + (head.skip(1) + crate::text::before_char(rest, c)) =~= head
            + crate::text::before_char(rest, c));
    }
}

/// The peers that are reached over TLS are those whose address begins with
/// `https://`, letter for letter.
pub proof fn law_https_is_told_by_the_address(addr: Seq<char>)
    ensures
        is_https(addr) <==> exists|rest: Seq<char>| #[trigger] ("https://"@ + rest) == addr,
        is_https(addr) ==> addr.len() >= 8 && addr[4] == 's' && addr[5] == ':',
{
    reveal_strlit("https://");
    let prefix = RUSTFS_HTTPS_PREFIX@;
    assert(prefix =~= "https://"@);
    if is_https(addr) {
        let rest = addr.skip(8);
        assert("https://"@ + rest =~= addr);
    }
    if exists|rest: Seq<char>| #[trigger] ("https://"@ + rest) == addr {
        let rest = choose|rest: Seq<char>| #[trigger] ("https://"@ + rest) == addr;
        assert(addr.subrange(0, 8) =~= prefix);
    }
}

/// The host of an address: every leading `https://` is passed over, and then it
/// is the longest beginning that has neither a slash nor a colon.
pub proof fn law_host_ends_at_port_or_path(s: Seq<char>)
    ensures
        peer_domain("https://"@ + s) == peer_domain(s),
        !peer_domain(s).contains('/'),
        !peer_domain(s).contains(':'),
        !"https://"@.is_prefix_of(s) ==> {
            let host = peer_domain(s);
            &&& host.len() <= s.len()
            &&& host == s.take(host.len() as int)
            &&& host.len() < s.len() ==> s[host.len() as int] == '/' || s[host.len() as int] == ':'
        },
{
    reveal_strlit("https://");
    let prefix = RUSTFS_HTTPS_PREFIX@;
    assert(prefix =~= "https://"@);
    crate::text::law_leading_copies_are_taken_away(s, prefix);
    let tail = crate::text::without_prefixes(s, prefix);
    let cut = crate::text::before_char(tail, '/');
    crate::text::law_cut_is_before_the_first(tail, '/');
    crate::text::law_cut_is_before_the_first(cut, ':');
    let host = peer_domain(s);
    if host.contains('/') {
        let i = choose|i: int| 0 <= i < host.len() && host[i] == '/';
        assert(cut[i] == '/');
        assert(cut.contains('/'));
    }
    if !"https://"@.is_prefix_of(s) {
        assert(tail == s);
        assert(host =~= s.take(host.len() as int));
    }
}

/// An endpoint with a root certificate checks the peer for the whole host of its
/// address, without port and path; only an address without a host leaves the
/// name to the transport.
pub proof fn law_peer_is_checked_for_its_host(
    tls: TlsSettings,
    host: Seq<char>,
    rest: Seq<char>,
    pem: Vec<u8>,
    identity: Option<MtlsIdentityPem>,
)
    requires
        !host.contains('/'),
        !host.contains(':'),
        rest.len() == 0 || rest[0] == '/' || rest[0] == ':',
        !"https://"@.is_prefix_of(host + rest),
        is_tls_for(tls, "https://"@ + host + rest, Some(pem), identity),
    ensures
        host.len() > 0 ==> (tls.domain matches Some(domain) && domain@ == host),
        host.len() == 0 ==> tls.domain is None,
        checked_domain("https://"@ + host + rest) == if host.len() > 0 {
            Some(host)
        } else {
            None
        },
{
    reveal_strlit("https://");
    assert(RUSTFS_HTTPS_PREFIX@ =~= "https://"@);
    law_peer_domain_is_host(host, rest);
    assert(host.len() == 0 ==> host =~= Seq::empty());
}

/// Whom an endpoint trusts and what it presents: with a root certificate that
/// one alone, without one the roots of the system; and in both cases the
/// identity that it was given, and none where it was given none.
pub proof fn law_tls_trusts_and_presents_what_is_set(
    tls: TlsSettings,
    addr: Seq<char>,
    root_cert: Option<Vec<u8>>,
    identity: Option<MtlsIdentityPem>,
)
    requires
        is_tls_for(tls, addr, root_cert, identity),
    ensures
        tls.system_roots <==> root_cert is None,
        tls.ca_pem is Some <==> root_cert is Some,
        root_cert is Some ==> tls.ca_pem->0@ == root_cert->0@,
        root_cert is None ==> tls.domain is None,
        tls.identity is Some <==> identity is Some,
        identity is Some ==> tls.identity->0.cert_pem@ == identity->0.cert_pem@
            && tls.identity->0.key_pem@ == identity->0.key_pem@,
        root_cert is Some ==> (tls.domain is Some <==> peer_domain(addr).len() > 0) && (
        tls.domain matches Some(domain) ==> domain@ == peer_domain(addr)),
{
}

/// Every endpoint has the same timeouts and keepalive, and getting them changes
/// neither its address nor its TLS settings.
pub proof fn law_timeouts_are_fixed(s: EndpointSettings)
    ensures
        with_timeouts(s).connect_timeout_secs == Some(3u64),
        with_timeouts(s).tcp_keepalive_secs == Some(10u64),
        with_timeouts(s).http2_keep_alive_interval_secs == Some(5u64),
        with_timeouts(s).http2_keep_alive_timeout_secs == Some(3u64),
        with_timeouts(s).http2_keep_alive_while_idle == Some(true),
        with_timeouts(s).timeout_secs == Some(30u64),
        with_timeouts(s).addr == s.addr,
        with_timeouts(s).tls == s.tls,
        DEFAULT_GRPC_SERVER_MESSAGE_LEN == 104_857_600,
{
}

/// An endpoint that is built for an address with `https://`, with a root
/// certificate, is built with TLS and checks the peer for the host of the
/// address.
pub proof fn law_built_endpoint_checks_its_host(
    addr: &str,
    root_cert: &Option<Vec<u8>>,
    identity: &Option<MtlsIdentityPem>,
    r: Result<PeerEndpoint, EndpointError>,
    host: Seq<char>,
    rest: Seq<char>,
)
    requires
        call_ensures(build_endpoint, (addr, root_cert, identity), r),
        r is Ok,
        *root_cert is Some,
        addr@ == "https://"@ + host + rest,
        host.len() > 0,
        !host.contains('/'),
        !host.contains(':'),
        rest.len() == 0 || rest[0] == '/' || rest[0] == ':',
        !"https://"@.is_prefix_of(host + rest),
    ensures
        r->Ok_0.settings().addr@ == addr@,
        r->Ok_0.settings().tls is Some,
        ({
            let tls = r->Ok_0.settings().tls->0;
            &&& tls.domain is Some
            &&& tls.domain->0@ == host
            &&& !tls.system_roots
            &&& tls.ca_pem is Some
            &&& tls.ca_pem->0@ == root_cert->0@
        }),
{
    let e = r->Ok_0;
    assert("https://"@ + (host + rest) =~= addr@);
    law_https_is_told_by_the_address(addr@);
    assert(is_https(addr@));
    law_peer_is_checked_for_its_host(
        e.settings().tls->0,
        host,
        rest,
        root_cert->0,
        *identity,
    );
}

/// An endpoint is refused for its address exactly where that cannot be dialled.
/// One that is built has the address, the timeouts and the keepalive, and TLS
/// exactly where the address begins with `https://`; it then presents the
/// identity that was given, and trusts the roots of the system exactly where no
/// root certificate was given.
pub proof fn law_built_endpoint_holds_what_is_set(
    addr: &str,
    root_cert: &Option<Vec<u8>>,
    identity: &Option<MtlsIdentityPem>,
    r: Result<PeerEndpoint, EndpointError>,
)
    requires
        call_ensures(build_endpoint, (addr, root_cert, identity), r),
    ensures
        (r matches Err(EndpointError::InvalidAddress(_)))
            <==> !crate::transport::endpoint_address_accepted(addr@),
        crate::transport::endpoint_address_accepted(addr@) && !"https://"@.is_prefix_of(addr@)
            ==> r is Ok,
        r matches Ok(e) ==> {
            let s = e.settings();
            &&& s.addr@ == addr@
            &&& s.connect_timeout_secs == Some(3u64)
            &&& s.tcp_keepalive_secs == Some(10u64)
            &&& s.http2_keep_alive_interval_secs == Some(5u64)
            &&& s.http2_keep_alive_timeout_secs == Some(3u64)
            &&& s.http2_keep_alive_while_idle == Some(true)
            &&& s.timeout_secs == Some(30u64)
            &&& s.tls is Some <==> "https://"@.is_prefix_of(addr@)
            &&& s.tls is Some ==> (s.tls->0.system_roots <==> *root_cert is None)
            &&& s.tls is Some ==> (s.tls->0.ca_pem is Some <==> *root_cert is Some)
            &&& s.tls is Some && *root_cert is Some ==> s.tls->0.ca_pem->0@ == root_cert->0@
            &&& s.tls is Some ==> (s.tls->0.identity is Some <==> *identity is Some)
            &&& s.tls is Some && *identity is Some ==> s.tls->0.identity->0.cert_pem@
                == identity->0.cert_pem@ && s.tls->0.identity->0.key_pem@ == identity->0.key_pem@
        },
{
}

}
