//! What a node knows of itself: its name and address, the certificates that its
//! outbound connections use, and when it started.

use vstd::prelude::*;

verus! {

/// The port of a node that was given none.
pub const DEFAULT_PORT: &'static str = "9000";

/// The certificate and the key, in PEM form, that outbound connections present
/// to peers that ask for one. Without it a connection authenticates the peer
/// only.
#[derive(Debug)]
pub struct MtlsIdentityPem {
    pub cert_pem: Vec<u8>,
    pub key_pem: Vec<u8>,
}

impl Clone for MtlsIdentityPem {
    fn clone(&self) -> (r: MtlsIdentityPem)
        ensures
            r.cert_pem@ == self.cert_pem@,
            r.key_pem@ == self.key_pem@,
    {
        let r: MtlsIdentityPem = MtlsIdentityPem {
            cert_pem: self.cert_pem.clone(),
            key_pem: self.key_pem.clone(),
        };
        assert(r.cert_pem@ =~= self.cert_pem@);
        assert(r.key_pem@ =~= self.key_pem@);
        r
    }
}

/// A point in time, in seconds since the epoch and nanoseconds after that.
#[derive(Clone, Copy, Debug, PartialEq, Eq, Structural)]
pub struct UtcTime {
    pub secs: i64,
    pub nanos: u32,
}

/// Calls `chrono::Utc::now`, `timestamp` and `timestamp_subsec_nanos`. The claim
/// is only that the nanoseconds stay below two seconds, which leaves room for a
/// leap second; which time it is depends on the clock. The call does not return
/// where the clock stands before the epoch.
#[verifier::external_body]
fn utc_now() -> (r: UtcTime)
    ensures
        r.nanos < 2_000_000_000,
{
    let now = chrono::Utc::now();
    UtcTime { secs: now.timestamp(), nanos: now.timestamp_subsec_nanos() }
}

/// The settings of a node.
#[derive(Debug)]
pub struct NodeGlobals {
    /// The name of this node.
    pub local_node_name: String,
    /// The host that this node runs on.
    pub host: String,
    /// The port that this node listens on.
    pub port: String,
    /// The address under which peers reach this node.
    pub addr: String,
    /// The root certificate, in PEM form, that peers are checked against. Where
    /// there is none, the roots of the system are used.
    pub root_cert: Option<Vec<u8>>,
    /// What outbound connections present to peers that ask for it.
    pub mtls_identity: Option<MtlsIdentityPem>,
    /// When this node started.
    pub init_time: Option<UtcTime>,
}

impl NodeGlobals {
    /// The settings of a node that was told nothing yet.
    pub fn new() -> (r: NodeGlobals)
        ensures
            r.local_node_name@ == ""@,
            r.host@ == ""@,
            r.port@ == DEFAULT_PORT@,
            r.port@ == "9000"@,
            r.addr@ == ""@,
            r.root_cert is None,
            r.mtls_identity is None,
            r.init_time is None,
    {
        NodeGlobals {
            local_node_name: "".to_owned(),
            host: "".to_owned(),
            port: DEFAULT_PORT.to_owned(),
            addr: "".to_owned(),
            root_cert: None,
            mtls_identity: None,
            init_time: None,
        }
    }
}

/// Sets the name of this node.
pub fn set_global_local_node_name(node: &mut NodeGlobals, name: &str)
    ensures
        final(node).local_node_name@ == name@,
        *final(node) == (NodeGlobals { local_node_name: final(node).local_node_name, ..*old(node) }),
{
    node.local_node_name = name.to_owned();
}

/// The name of this node.
pub fn get_global_local_node_name(node: &NodeGlobals) -> (r: String)
    ensures
        r@ == node.local_node_name@,
{
    node.local_node_name.clone()
}

/// Sets when this node started.
pub fn set_global_init_time(node: &mut NodeGlobals, time: UtcTime)
    ensures
        *final(node) == (NodeGlobals { init_time: Some(time), ..*old(node) }),
{
    node.init_time = Some(time);
}

/// Sets the time at which this node started to the present.
pub fn set_global_init_time_now(node: &mut NodeGlobals)
    ensures
        final(node).init_time matches Some(time) && time.nanos < 2_000_000_000,
        *final(node) == (NodeGlobals { init_time: final(node).init_time, ..*old(node) }),
{
    set_global_init_time(node, utc_now());
}

/// When this node started, where that was set.
pub fn get_global_init_time(node: &NodeGlobals) -> (r: Option<UtcTime>)
    ensures
        r == node.init_time,
{
    node.init_time
}

/// Sets the address under which peers reach this node.
pub fn set_global_addr(node: &mut NodeGlobals, addr: &str)
    ensures
        final(node).addr@ == addr@,
        *final(node) == (NodeGlobals { addr: final(node).addr, ..*old(node) }),
{
    node.addr = addr.to_owned();
}

/// Sets the root certificate that peers are checked against.
pub fn set_global_root_cert(node: &mut NodeGlobals, cert: Vec<u8>)
    ensures
        *final(node) == (NodeGlobals { root_cert: Some(cert), ..*old(node) }),
{
    node.root_cert = Some(cert);
}

/// Sets what outbound connections present to peers that ask for it.
pub fn set_global_mtls_identity(node: &mut NodeGlobals, identity: Option<MtlsIdentityPem>)
    ensures
        *final(node) == (NodeGlobals { mtls_identity: identity, ..*old(node) }),
{
    node.mtls_identity = identity;
}

/// What was set is what is read back, and setting one thing leaves all others as
/// they are.
pub proof fn law_settings_are_read_back(
    named: &mut NodeGlobals,
    name: &str,
    read_name: String,
    started: &mut NodeGlobals,
    time: UtcTime,
    read_time: Option<UtcTime>,
)
    requires
        call_ensures(set_global_local_node_name, (named, name), ()),
        call_ensures(get_global_local_node_name, (final(named),), read_name),
        call_ensures(set_global_init_time, (started, time), ()),
        call_ensures(get_global_init_time, (final(started),), read_time),
    ensures
        read_name@ == name@,
        read_time == Some(time),
        final(named).host == old(named).host,
        final(named).port == old(named).port,
        final(named).addr == old(named).addr,
        final(named).root_cert == old(named).root_cert,
        final(named).mtls_identity == old(named).mtls_identity,
        final(named).init_time == old(named).init_time,
        final(started).local_node_name == old(started).local_node_name,
        final(started).host == old(started).host,
        final(started).port == old(started).port,
        final(started).addr == old(started).addr,
        final(started).root_cert == old(started).root_cert,
        final(started).mtls_identity == old(started).mtls_identity,
{
}

/// A certificate, an identity and an address are kept as they were given, and
/// setting one of them leaves all others as they are.
pub proof fn law_certificates_are_kept_as_given(
    rooted: &mut NodeGlobals,
    cert: Vec<u8>,
    identified: &mut NodeGlobals,
    identity: Option<MtlsIdentityPem>,
    addressed: &mut NodeGlobals,
    addr: &str,
)
    requires
        call_ensures(set_global_root_cert, (rooted, cert), ()),
        call_ensures(set_global_mtls_identity, (identified, identity), ()),
        call_ensures(set_global_addr, (addressed, addr), ()),
    ensures
        final(rooted).root_cert == Some(cert),
        final(rooted).mtls_identity == old(rooted).mtls_identity,
        final(rooted).addr == old(rooted).addr,
        final(rooted).local_node_name == old(rooted).local_node_name,
        final(identified).mtls_identity == identity,
        final(identified).root_cert == old(identified).root_cert,
        final(identified).addr == old(identified).addr,
        final(identified).local_node_name == old(identified).local_node_name,
        final(addressed).addr@ == addr@,
        final(addressed).root_cert == old(addressed).root_cert,
        final(addressed).mtls_identity == old(addressed).mtls_identity,
        final(addressed).local_node_name == old(addressed).local_node_name,
{
}

/// A node that was told nothing listens on port 9000 and knows nothing else.
pub proof fn law_fresh_node_knows_its_port_only(r: NodeGlobals)
    requires
        call_ensures(NodeGlobals::new, (), r),
    ensures
        r.port@ == "9000"@,
        r.local_node_name@.len() == 0,
        r.host@.len() == 0,
        r.addr@.len() == 0,
        r.root_cert is None && r.mtls_identity is None && r.init_time is None,
{
    reveal_strlit("");
}

}
