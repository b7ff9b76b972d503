use vstd::prelude::*;
use vstd::string::StringExecFns;
use crate::config::LdapAuthConfig;

verus! {

/// The search filter for peer entries: the configured fragment and
/// `(objectClass=wgPeer)`, both required.
pub fn search_filter(filter: &String) -> (r: String)
    ensures
        r@ == "(&"@ + filter@ + "(objectClass=wgPeer))"@,
{
    let mut r = String::from_str("(&");
    r.append(filter.as_str());
    r.append("(objectClass=wgPeer))");
    r
}

/// The attributes that a peer search asks for.
pub fn search_attributes() -> (r: Vec<String>)
    ensures
        r@.len() == 5,
        r@[0]@ == "wgPublicKey"@,
        r@[1]@ == "wgPresharedKey"@,
        r@[2]@ == "wgAllowedIp"@,
        r@[3]@ == "wgEndpoint"@,
        r@[4]@ == "wgPersistentKeepalive"@,
{
    let mut r: Vec<String> = Vec::new();
    r.push(String::from_str("wgPublicKey"));
    r.push(String::from_str("wgPresharedKey"));
    r.push(String::from_str("wgAllowedIp"));
    r.push(String::from_str("wgEndpoint"));
    r.push(String::from_str("wgPersistentKeepalive"));
    r
}

/// How to authenticate once connected.
#[derive(Debug, Clone, PartialEq, Eq)]
pub enum BindMethod {
    Anonymous,
    Simple { dn: String, password: String },
    /// SASL GSSAPI against the service on this host.
    Gssapi { host: String },
}

/// The bind that the configuration asks for, given the host of the server
/// URL. GSSAPI binds to the URL's host, and fails (`None`) where the URL has
/// none. Only GSSAPI that ignores the acceptor's host name is supported.
pub fn bind_method(auth: &LdapAuthConfig, url_host: Option<String>) -> (r: Option<BindMethod>)
    requires
        auth is GSSAPI ==> auth->GSSAPI_0.ignore_acceptor_hostname,
    ensures
        match auth {
            LdapAuthConfig::Anonymous => r == Some(BindMethod::Anonymous),
            LdapAuthConfig::SimpleBind(b) => match r {
                Some(BindMethod::Simple { dn, password }) => dn@ == b.bind_dn@ && password@
                    == b.bind_pw@,
                _ => false,
            },
            LdapAuthConfig::GSSAPI(_) => match url_host {
                Some(h) => r == Some(BindMethod::Gssapi { host: h }),
                None => r is None,
            },
        },
{
    match auth {
        LdapAuthConfig::Anonymous => Some(BindMethod::Anonymous),
        LdapAuthConfig::SimpleBind(b) => Some(
            BindMethod::Simple { dn: b.bind_dn.clone(), password: b.bind_pw.clone() },
        ),
        LdapAuthConfig::GSSAPI(_) => match url_host {
            Some(host) => Some(BindMethod::Gssapi { host }),
            None => None,
        },
    }
}

} // verus!
