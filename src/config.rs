//! Settings of the command-line client: where the server is and how to
//! prove who is asking. Paths are held as strings.
use vstd::prelude::*;

verus! {

/// The server the client talks to.
#[derive(Debug)]
pub struct Remote {
    pub base_path: String,
    pub identity: Option<Identity>,
    pub additional_root_certificates: Vec<String>,
}

/// How the client identifies itself.
#[derive(Debug)]
pub enum Identity {
    ClientCertificate(ClientCertificate),
    Header(Header),
}

/// A fixed header value sent with every request.
#[derive(Debug)]
pub struct Header {
    pub value: String,
}

/// A TLS client certificate and, when it is kept apart, its key.
#[derive(Debug)]
pub struct ClientCertificate {
    pub certificate: String,
    pub key: Option<String>,
}

impl Remote {
    /// A remote at `base_path`, with no identity and no extra root
    /// certificates.
    pub fn new(base_path: String) -> (r: Remote)
        ensures
            r.base_path == base_path,
            r.identity is None,
            r.additional_root_certificates@.len() == 0,
    {
        Remote { base_path, identity: None, additional_root_certificates: Vec::new() }
    }
}

} // verus!
