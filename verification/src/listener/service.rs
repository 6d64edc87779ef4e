//! What a connection brings to its requests, and the pipeline that every request
//! goes through: which requests are let in, which ones are answered by the server
//! itself, who a request comes from, what the access policy makes of it, which
//! limits it meets, and how it is counted when it is answered.
//!
//! Some steps hand on tokens: a request that was let in is answered once, and
//! only a request that the policy allowed is put to the limits.
pub mod admission;
pub mod answer;
pub mod identity;
pub mod intercept;
pub mod laws;
pub mod limits;
pub mod policy;

use crate::ip::SocketAddr;
use crate::listener::http::Timeouts;
use crate::listener::socket::PeerAddr;
use crate::oidc::claims::texts;
use crate::text::{join, joined};
use vstd::prelude::*;

verus! {

/// Who a verified client certificate stands for.
pub struct ClientCert {
    pub cn: String,
    pub subject: String,
    pub sans: Vec<String>,
}

/// What a connection brings to each of its requests.
pub struct HypershuntService {
    /// The name of the listener.
    pub bind: String,
    pub peer_addr: PeerAddr,
    pub local_addr: Option<SocketAddr>,
    /// The path of the listener's Unix socket, as its bytes.
    pub local_unix: Option<Vec<u8>>,
    pub timeouts: Timeouts,
    pub is_tls: bool,
    /// The most bytes that the body of a request may announce.
    pub max_body_bytes: Option<u64>,
    /// The `Alt-Svc` value that points at the HTTP/3 listener.
    pub auto_alt_svc: Option<String>,
    pub client_cert: Option<ClientCert>,
}

impl HypershuntService {
    /// What an HTTP/3 connection brings: it is always encrypted, has no local
    /// address, and brings no client certificate.
    pub fn new_h3(
        bind: String,
        peer_addr: PeerAddr,
        timeouts: Timeouts,
        max_body_bytes: Option<u64>,
        auto_alt_svc: Option<String>,
    ) -> (r: HypershuntService)
        ensures
            r == (HypershuntService {
                bind,
                peer_addr,
                local_addr: None,
                local_unix: None,
                timeouts,
                is_tls: true,
                max_body_bytes,
                auto_alt_svc,
                client_cert: None,
            }),
    {
        HypershuntService {
            bind,
            peer_addr,
            local_addr: None,
            local_unix: None,
            timeouts,
            is_tls: true,
            max_body_bytes,
            auto_alt_svc,
            client_cert: None,
        }
    }

    /// The scheme that header rules see.
    pub fn scheme(&self) -> (r: &'static str)
        ensures
            r@ == if self.is_tls {
                "https"@
            } else {
                "http"@
            },
    {
        if self.is_tls {
            "https"
        } else {
            "http"
        }
    }

    /// The subject and the names of the client certificate, for header rules;
    /// empty where there is none.
    pub fn cert_fields(&self) -> (r: (String, String))
        ensures
            r.0@ == match self.client_cert {
                Some(c) => c.subject@,
                None => ""@,
            },
            r.1@ == match self.client_cert {
                Some(c) => joined(texts(c.sans@), ","@),
                None => ""@,
            },
    {
        match &self.client_cert {
            Some(c) => {
                assert(texts(c.sans@) =~= Seq::new(c.sans@.len(), |i: int| c.sans@[i]@));
                (c.subject.as_str().to_owned(), join(&c.sans, ","))
            },
            None => ("".to_owned(), "".to_owned()),
        }
    }
}

} // verus!
