//! The channel builder of the transport, with a record of what it holds.
//!
//! Most of what a builder is given cannot be read back. So each call that sets something is made
//! here, together with the entry in the record, and nothing outside this module
//! can change the one without the other.

use std::time::Duration;
use tonic::transport::{Certificate, ClientTlsConfig, Endpoint, Identity};
use vstd::prelude::*;

use crate::globals::MtlsIdentityPem;

verus! {

/// A channel builder.
#[verifier::external_type_specification]
#[verifier::external_body]
pub struct ExEndpoint(tonic::transport::Endpoint);

/// The TLS settings of a channel builder.
#[verifier::external_type_specification]
#[verifier::external_body]
pub struct ExClientTlsConfig(tonic::transport::ClientTlsConfig);

/// What a channel builder reports.
#[verifier::external_type_specification]
#[verifier::external_body]
pub struct ExTransportError(tonic::transport::Error);

/// Whether an address can be dialled at all: it is a valid URI, or names a
/// socket of this machine.
pub uninterp spec fn endpoint_address_accepted(addr: Seq<char>) -> bool;

/// Whether TLS with one root certificate, and without an identity, can be used
/// for an address. The domain is the name that the peer's certificate has to
/// carry; where there is none, the host of the address.
pub uninterp spec fn root_cert_accepted(
    addr: Seq<char>,
    ca_pem: Seq<u8>,
    domain: Option<Seq<char>>,
) -> bool;

/// What an optional text says.
pub open spec fn text_of(text: Option<String>) -> Option<Seq<char>> {
    match text {
        Some(t) => Some(t@),
        None => None,
    }
}

/// Whom a connection trusts, and what it presents.
#[derive(Debug)]
pub struct TlsSettings {
    /// Whether the roots of the system are trusted.
    pub system_roots: bool,
    /// A root certificate that is trusted, in PEM form.
    pub ca_pem: Option<Vec<u8>>,
    /// The name that the peer's certificate has to carry; where there is none,
    /// the host of the address.
    pub domain: Option<String>,
    /// What is presented to a peer that asks for it.
    pub identity: Option<MtlsIdentityPem>,
}

/// The settings of an endpoint. A setting that is none is left to the
/// transport.
#[derive(Debug)]
pub struct EndpointSettings {
    pub addr: String,
    pub connect_timeout_secs: Option<u64>,
    pub tcp_keepalive_secs: Option<u64>,
    pub http2_keep_alive_interval_secs: Option<u64>,
    pub http2_keep_alive_timeout_secs: Option<u64>,
    pub http2_keep_alive_while_idle: Option<bool>,
    pub timeout_secs: Option<u64>,
    pub tls: Option<TlsSettings>,
}

/// TLS settings under construction, with a record of what they hold.
#[derive(Debug)]
pub struct TlsSetup {
    config: ClientTlsConfig,
    settings: TlsSettings,
}

/// A channel builder for one peer, with a record of what it holds.
#[derive(Debug)]
pub struct PeerEndpoint {
    endpoint: Endpoint,
    settings: EndpointSettings,
}

impl TlsSetup {
    /// What the settings hold.
    pub closed spec fn settings(self) -> TlsSettings {
        self.settings
    }

    /// The settings as they are recorded.
    pub fn get_settings(&self) -> (r: &TlsSettings)
        ensures
            *r == self.settings(),
    {
        &self.settings
    }

    /// Calls `ClientTlsConfig::new`. The claim is that the new settings trust
    /// nobody, name no domain and present nothing.
    #[verifier::external_body]
    pub(crate) fn new() -> (r: TlsSetup)
        ensures
            r.settings() == (TlsSettings {
                system_roots: false,
                ca_pem: None,
                domain: None,
                identity: None,
            }),
    {
        TlsSetup {
            config: ClientTlsConfig::new(),
            settings: TlsSettings { system_roots: false, ca_pem: None, domain: None, identity: None },
        }
    }

    /// Calls `ClientTlsConfig::with_native_roots`. The claim is that the roots of
    /// the system are trusted too and nothing else changes.
    #[verifier::external_body]
    pub(crate) fn with_native_roots(self) -> (r: TlsSetup)
        ensures
            r.settings() == (TlsSettings { system_roots: true, ..self.settings() }),
    {
        TlsSetup {
            config: self.config.with_native_roots(),
            settings: TlsSettings { system_roots: true, ..self.settings },
        }
    }

    /// Calls `Certificate::from_pem` and `ClientTlsConfig::ca_certificate`. The
    /// claim, of settings without a root certificate, is that this one is
    /// trusted too and nothing else changes.
    #[verifier::external_body]
    pub(crate) fn ca_certificate(self, pem: Vec<u8>) -> (r: TlsSetup)
        requires
            self.settings().ca_pem is None,
        ensures
            r.settings() == (TlsSettings { ca_pem: Some(pem), ..self.settings() }),
    {
        TlsSetup {
            config: self.config.ca_certificate(Certificate::from_pem(&pem)),
            settings: TlsSettings { ca_pem: Some(pem), ..self.settings },
        }
    }

    /// Calls `ClientTlsConfig::domain_name`. The claim is that the peer's
    /// certificate has to carry this name and nothing else changes.
    #[verifier::external_body]
    pub(crate) fn domain_name(self, domain: String) -> (r: TlsSetup)
        ensures
            r.settings() == (TlsSettings { domain: Some(domain), ..self.settings() }),
    {
        TlsSetup {
            config: self.config.domain_name(domain.as_str()),
            settings: TlsSettings { domain: Some(domain), ..self.settings },
        }
    }

    /// Calls `Identity::from_pem` and `ClientTlsConfig::identity`. The claim is
    /// that this certificate and key are presented and nothing else changes.
    #[verifier::external_body]
    pub(crate) fn identity(self, id: MtlsIdentityPem) -> (r: TlsSetup)
        ensures
            r.settings() == (TlsSettings { identity: Some(id), ..self.settings() }),
    {
        TlsSetup {
            config: self.config.identity(Identity::from_pem(&id.cert_pem, &id.key_pem)),
            settings: TlsSettings { identity: Some(id), ..self.settings },
        }
    }
}

impl PeerEndpoint {
    /// What the endpoint holds.
    pub closed spec fn settings(self) -> EndpointSettings {
        self.settings
    }

    /// The settings of the endpoint.
    pub fn get_settings(&self) -> (r: &EndpointSettings)
        ensures
            *r == self.settings(),
    {
        &self.settings
    }

    /// The channel builder that the settings describe.
    pub closed spec fn endpoint(self) -> Endpoint {
        self.endpoint
    }

    /// The channel builder itself.
    pub fn into_endpoint(self) -> (r: Endpoint)
        ensures
            r == self.endpoint(),
    {
        self.endpoint
    }

    /// Calls `Endpoint::from_shared`. The claim is that whether an address is
    /// accepted depends on the address alone, and that the new endpoint leaves
    /// everything but its address to the transport.
    #[verifier::external_body]
    pub(crate) fn from_shared(addr: &str) -> (r: Result<PeerEndpoint, tonic::transport::Error>)
        ensures
            r is Ok <==> endpoint_address_accepted(addr@),
            r matches Ok(e) ==> e.settings().addr@ == addr@ && e.settings() == (EndpointSettings {
                addr: e.settings().addr,
                connect_timeout_secs: None,
                tcp_keepalive_secs: None,
                http2_keep_alive_interval_secs: None,
                http2_keep_alive_timeout_secs: None,
                http2_keep_alive_while_idle: None,
                timeout_secs: None,
                tls: None,
            }),
    {
        let endpoint = Endpoint::from_shared(addr.to_string())?;
        let settings = EndpointSettings {
            addr: addr.to_string(),
            connect_timeout_secs: None,
            tcp_keepalive_secs: None,
            http2_keep_alive_interval_secs: None,
            http2_keep_alive_timeout_secs: None,
            http2_keep_alive_while_idle: None,
            timeout_secs: None,
            tls: None,
        };
        Ok(PeerEndpoint { endpoint, settings })
    }

    /// Calls `Endpoint::connect_timeout`. The claim is that making a connection
    /// may then take this long and nothing else changes.
    #[verifier::external_body]
    pub(crate) fn connect_timeout(self, secs: u64) -> (r: PeerEndpoint)
        ensures
            r.settings() == (EndpointSettings {
                connect_timeout_secs: Some(secs),
                ..self.settings()
            }),
    {
        PeerEndpoint {
            endpoint: self.endpoint.connect_timeout(Duration::from_secs(secs)),
            settings: EndpointSettings { connect_timeout_secs: Some(secs), ..self.settings },
        }
    }

    /// Calls `Endpoint::tcp_keepalive`. The claim is that a connection is then
    /// probed after this long and nothing else changes.
    #[verifier::external_body]
    pub(crate) fn tcp_keepalive(self, secs: u64) -> (r: PeerEndpoint)
        ensures
            r.settings() == (EndpointSettings { tcp_keepalive_secs: Some(secs), ..self.settings() }),
    {
        PeerEndpoint {
            endpoint: self.endpoint.tcp_keepalive(Some(Duration::from_secs(secs))),
            settings: EndpointSettings { tcp_keepalive_secs: Some(secs), ..self.settings },
        }
    }

    /// Calls `Endpoint::http2_keep_alive_interval`. The claim is that heartbeats
    /// are then this far apart and nothing else changes.
    #[verifier::external_body]
    pub(crate) fn http2_keep_alive_interval(self, secs: u64) -> (r: PeerEndpoint)
        ensures
            r.settings() == (EndpointSettings {
                http2_keep_alive_interval_secs: Some(secs),
                ..self.settings()
            }),
    {
        PeerEndpoint {
            endpoint: self.endpoint.http2_keep_alive_interval(Duration::from_secs(secs)),
            settings: EndpointSettings {
                http2_keep_alive_interval_secs: Some(secs),
                ..self.settings
            },
        }
    }

    /// Calls `Endpoint::keep_alive_timeout`. The claim is that the answer to a
    /// heartbeat may then take this long and nothing else changes.
    #[verifier::external_body]
    pub(crate) fn keep_alive_timeout(self, secs: u64) -> (r: PeerEndpoint)
        ensures
            r.settings() == (EndpointSettings {
                http2_keep_alive_timeout_secs: Some(secs),
                ..self.settings()
            }),
    {
        PeerEndpoint {
            endpoint: self.endpoint.keep_alive_timeout(Duration::from_secs(secs)),
            settings: EndpointSettings {
                http2_keep_alive_timeout_secs: Some(secs),
                ..self.settings
            },
        }
    }

    /// Calls `Endpoint::keep_alive_while_idle`. The claim is that this decides
    /// whether idle connections get heartbeats and that nothing else changes.
    #[verifier::external_body]
    pub(crate) fn keep_alive_while_idle(self, enabled: bool) -> (r: PeerEndpoint)
        ensures
            r.settings() == (EndpointSettings {
                http2_keep_alive_while_idle: Some(enabled),
                ..self.settings()
            }),
    {
        PeerEndpoint {
            endpoint: self.endpoint.keep_alive_while_idle(enabled),
            settings: EndpointSettings {
                http2_keep_alive_while_idle: Some(enabled),
                ..self.settings
            },
        }
    }

    /// Calls `Endpoint::timeout`. The claim is that a call may then take this
    /// long and nothing else changes.
    #[verifier::external_body]
    pub(crate) fn timeout(self, secs: u64) -> (r: PeerEndpoint)
        ensures
            r.settings() == (EndpointSettings { timeout_secs: Some(secs), ..self.settings() }),
    {
        PeerEndpoint {
            endpoint: self.endpoint.timeout(Duration::from_secs(secs)),
            settings: EndpointSettings { timeout_secs: Some(secs), ..self.settings },
        }
    }

    /// Calls `Endpoint::tls_config`. The claim is that, where the settings are
    /// accepted, connections use them and nothing else changes, and that
    /// whether a root certificate without an identity is accepted depends on the
    /// address, the certificate and the domain alone. When the roots of the
    /// system or an identity are accepted is left open: that rests on the
    /// certificates of the machine and on the cryptography that the process has
    /// chosen. The call does not return where the process has chosen one without
    /// any protocol version that can be used.
    #[verifier::external_body]
    pub(crate) fn tls_config(self, tls: TlsSetup) -> (r: Result<PeerEndpoint, tonic::transport::Error>)
        ensures
            r matches Ok(e) ==> e.settings() == (EndpointSettings {
                tls: Some(tls.settings()),
                ..self.settings()
            }),
            !tls.settings().system_roots && tls.settings().identity is None ==> (
            tls.settings().ca_pem matches Some(pem) ==> (r is Ok <==> root_cert_accepted(
                self.settings().addr@,
                pem@,
                text_of(tls.settings().domain),
            ))),
    {
        Ok(
            PeerEndpoint {
                endpoint: self.endpoint.tls_config(tls.config)?,
                settings: EndpointSettings { tls: Some(tls.settings), ..self.settings },
            },
        )
    }
}

/// An optional text says what it holds.
pub proof fn law_optional_text_says_what_it_holds(text: Option<String>)
    ensures
        text_of(text) is Some <==> text is Some,
        text is Some ==> text_of(text)->0 == text->0@,
{
}

}
