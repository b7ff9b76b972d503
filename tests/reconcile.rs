use ldap_wg_sync::classify::{classify, keys_equal, DeviceSnapshot};
use ldap_wg_sync::config::WgConfig;
use ldap_wg_sync::peer::{SocketAddress, WgPeer};
use ldap_wg_sync::plan::plan;

fn peer(k: u8) -> WgPeer {
    WgPeer {
        public_key: [k; 32],
        preshared_key: None,
        allowed_ips: vec![],
        endpoint: None,
        persistent_keepalive_interval: None,
    }
}

fn peer_at(k: u8, port: u16) -> WgPeer {
    let mut p = peer(k);
    p.endpoint = Some(SocketAddress::V4 { ip: [198, 51, 100, 7], port });
    p
}

fn device(own: Option<u8>, port: u16, peers: &[u8]) -> DeviceSnapshot {
    DeviceSnapshot {
        ifindex: 4,
        public_key: own.map(|k| [k; 32]),
        listen_port: port,
        peers: peers.iter().map(|k| [*k; 32]).collect(),
    }
}

fn config(listen_port: Option<u16>, match_port: bool, remove: bool) -> WgConfig {
    WgConfig {
        device_name: "wg0".to_string(),
        listen_port,
        match_listen_port_to_local_endpoint: match_port,
        remove_extra_peers: remove,
    }
}

fn keys(peers: &[WgPeer]) -> Vec<u8> {
    peers.iter().map(|p| p.public_key[0]).collect()
}

#[test]
fn new_matched_and_missing_with_removal() {
    let dev = device(None, 51820, &[1, 2]);
    let c = classify(&dev, vec![peer(1), peer(3)]);
    assert_eq!(c.missing_peers, vec![[2u8; 32]]);
    assert_eq!(keys(&c.new_peers), vec![3]);
    assert_eq!(keys(&c.matched_peers), vec![1]);
    assert!(c.this_peer.is_none());
    let (needed, update) = plan(c, &dev, &config(None, false, true));
    assert!(needed);
    assert!(update.replace_peers);
    assert_eq!(update.ifindex, 4);
    assert_eq!(update.listen_port, None);
    let mut upserted = keys(&update.peers);
    assert_eq!(upserted, vec![3, 1]);
    upserted.sort();
    assert_eq!(upserted, vec![1, 3]);
}

#[test]
fn classification_partitions_concrete_peers() {
    let dev = device(Some(9), 51820, &[1, 2, 5]);
    let c = classify(&dev, vec![peer(1), peer(9), peer(3), peer(2), peer(4)]);
    assert_eq!(c.this_peer.as_ref().map(|p| p.public_key), Some([9u8; 32]));
    assert_eq!(keys(&c.new_peers), vec![3, 4]);
    assert_eq!(keys(&c.matched_peers), vec![1, 2]);
    assert_eq!(c.missing_peers, vec![[5u8; 32]]);
}

#[test]
fn later_self_record_replaces_earlier() {
    let dev = device(Some(9), 51820, &[]);
    let c = classify(&dev, vec![peer_at(9, 1000), peer_at(9, 2000)]);
    assert_eq!(c.this_peer.unwrap().endpoint.unwrap().port(), 2000);
    assert!(c.new_peers.is_empty());
    assert!(c.matched_peers.is_empty());
}

#[test]
fn empty_sides_classify_to_nothing() {
    let c = classify(&device(None, 1, &[]), vec![]);
    assert!(c.this_peer.is_none() && c.new_peers.is_empty());
    assert!(c.matched_peers.is_empty() && c.missing_peers.is_empty());
    let c = classify(&device(None, 1, &[1, 2]), vec![]);
    assert_eq!(c.missing_peers.len(), 2);
}

#[test]
fn in_sync_device_needs_no_update() {
    let dev = device(Some(9), 51820, &[1, 2]);
    let peers = vec![peer(1), peer(2), peer_at(9, 51820)];
    let c = classify(&dev, peers);
    let (needed, update) = plan(c, &dev, &config(Some(51820), true, true));
    assert!(!needed);
    assert!(update.peers.is_empty());
    assert!(!update.replace_peers);
}

#[test]
fn same_port_and_peers_need_no_write() {
    let dev = device(None, 51820, &[1]);
    let c = classify(&dev, vec![peer(1)]);
    let (needed, update) = plan(c, &dev, &config(Some(51820), false, false));
    assert!(!needed);
    assert!(update.peers.is_empty());
}

#[test]
fn listen_port_follows_self_endpoint() {
    let dev = device(Some(9), 51820, &[]);
    let c = classify(&dev, vec![peer_at(9, 55123)]);
    let (needed, update) = plan(c, &dev, &config(Some(51820), true, false));
    assert!(needed);
    assert_eq!(update.listen_port, Some(55123));
    assert!(update.peers.is_empty());
    assert!(!update.replace_peers);
}

#[test]
fn self_endpoint_ignored_without_matching() {
    let dev = device(Some(9), 51820, &[]);
    let c = classify(&dev, vec![peer_at(9, 55123)]);
    let (needed, _) = plan(c, &dev, &config(None, false, false));
    assert!(!needed);
}

#[test]
fn configured_port_change_forces_update() {
    let dev = device(None, 51820, &[]);
    let c = classify(&dev, vec![]);
    let (needed, update) = plan(c, &dev, &config(Some(4000), false, false));
    assert!(needed);
    assert_eq!(update.listen_port, Some(4000));
}

#[test]
fn missing_peers_without_removal_never_replace() {
    let dev = device(None, 51820, &[1, 2, 3]);
    let c = classify(&dev, vec![peer(1)]);
    assert_eq!(c.missing_peers.len(), 2);
    let (needed, update) = plan(c, &dev, &config(None, false, false));
    assert!(!needed);
    assert!(!update.replace_peers);
    let c = classify(&dev, vec![peer(1), peer(4)]);
    let (needed, update) = plan(c, &dev, &config(None, false, false));
    assert!(needed);
    assert!(!update.replace_peers);
    assert_eq!(keys(&update.peers), vec![4, 1]);
}

#[test]
fn removal_keeps_every_matched_peer() {
    let dev = device(None, 51820, &[1, 2, 3]);
    let c = classify(&dev, vec![peer(1), peer(2)]);
    let (needed, update) = plan(c, &dev, &config(None, false, true));
    assert!(needed);
    assert!(update.replace_peers);
    assert_eq!(keys(&update.peers), vec![1, 2]);
}

#[test]
fn keys_compare_bytewise() {
    let a = [1u8; 32];
    let mut b = [1u8; 32];
    assert!(keys_equal(&a, &b));
    b[31] = 2;
    assert!(!keys_equal(&a, &b));
}
