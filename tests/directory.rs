use ldap_wg_sync::config::{LdapAuthConfig, LdapSaslBindGssapi, LdapSimpleBind};
use ldap_wg_sync::directory::{bind_method, search_attributes, search_filter, BindMethod};

#[test]
fn filter_requires_peer_class() {
    assert_eq!(search_filter(&"(ou=vpn)".to_string()), "(&(ou=vpn)(objectClass=wgPeer))");
    assert_eq!(search_filter(&String::new()), "(&(objectClass=wgPeer))");
}

#[test]
fn attributes_cover_every_peer_field() {
    assert_eq!(
        search_attributes(),
        vec!["wgPublicKey", "wgPresharedKey", "wgAllowedIp", "wgEndpoint", "wgPersistentKeepalive"]
    );
}

#[test]
fn default_auth_is_anonymous() {
    assert_eq!(LdapAuthConfig::default(), LdapAuthConfig::Anonymous);
}

#[test]
fn bind_follows_auth_config() {
    assert_eq!(bind_method(&LdapAuthConfig::Anonymous, None), Some(BindMethod::Anonymous));
    let simple = LdapAuthConfig::SimpleBind(LdapSimpleBind {
        bind_dn: "cn=admin".to_string(),
        bind_pw: "pw".to_string(),
    });
    assert_eq!(
        bind_method(&simple, None),
        Some(BindMethod::Simple { dn: "cn=admin".to_string(), password: "pw".to_string() })
    );
    let gssapi = LdapAuthConfig::GSSAPI(LdapSaslBindGssapi { ignore_acceptor_hostname: true });
    assert_eq!(
        bind_method(&gssapi, Some("ldap.example.org".to_string())),
        Some(BindMethod::Gssapi { host: "ldap.example.org".to_string() })
    );
    assert_eq!(bind_method(&gssapi, None), None);
}
