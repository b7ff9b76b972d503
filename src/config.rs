use vstd::prelude::*;

verus! {

/// Credentials for an LDAP simple bind.
#[derive(Debug, Clone, PartialEq, Eq)]
pub struct LdapSimpleBind {
    pub bind_dn: String,
    pub bind_pw: String,
}

/// Options for a SASL GSSAPI bind.
#[derive(Debug, Clone, PartialEq, Eq)]
pub struct LdapSaslBindGssapi {
    pub ignore_acceptor_hostname: bool,
}

/// How the directory connection authenticates.
#[derive(Debug, Clone, PartialEq, Eq)]
pub enum LdapAuthConfig {
    Anonymous,
    SimpleBind(LdapSimpleBind),
    GSSAPI(LdapSaslBindGssapi),
}

impl Default for LdapAuthConfig {
    /// No authentication.
    fn default() -> (r: Self)
        ensures
            r is Anonymous,
    {
        LdapAuthConfig::Anonymous
    }
}

/// Settings of the local WireGuard interface.
#[derive(Debug, Clone, PartialEq, Eq)]
pub struct WgConfig {
    pub device_name: String,
    /// Listen port to hold the interface at, if any.
    pub listen_port: Option<u16>,
    /// Take the listen port from the endpoint that the directory publishes
    /// for this interface's own key.
    pub match_listen_port_to_local_endpoint: bool,
    /// Drop interface peers that the directory does not list.
    pub remove_extra_peers: bool,
}

} // verus!
