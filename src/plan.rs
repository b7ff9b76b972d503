use vstd::prelude::*;
use crate::classify::{
    classification, is_missing, is_new, is_self, listed, on_device, Classification,
    ClassifiedPeers, DeviceSnapshot,
};
use crate::config::WgConfig;
use crate::peer::{Key, WgPeer};

verus! {

/// One write to the interface, addressed by index.
#[derive(Debug)]
pub struct DeviceUpdate {
    pub ifindex: u32,
    /// The kernel drops every peer that `peers` does not hold.
    pub replace_peers: bool,
    /// The listen port to set; `None` leaves it.
    pub listen_port: Option<u16>,
    /// Peers to add or update.
    pub peers: Vec<WgPeer>,
}

/// What a device update holds, as values.
pub struct UpdateModel {
    pub ifindex: u32,
    pub replace_peers: bool,
    pub listen_port: Option<u16>,
    pub peers: Seq<WgPeer>,
}

impl View for DeviceUpdate {
    type V = UpdateModel;

    open spec fn view(&self) -> UpdateModel {
        UpdateModel {
            ifindex: self.ifindex,
            replace_peers: self.replace_peers,
            listen_port: self.listen_port,
            peers: self.peers@,
        }
    }
}

/// The listen port to hold: the configured one, unless the configuration
/// asks to follow the port of the endpoint published for the interface
/// itself and there is one.
pub open spec fn planned_port(c: Classification, config: WgConfig) -> Option<u16> {
    if config.match_listen_port_to_local_endpoint && c.this_peer is Some
        && c.this_peer->Some_0.endpoint is Some {
        Some(c.this_peer->Some_0.endpoint->Some_0.spec_port())
    } else {
        config.listen_port
    }
}

/// Peers that the directory lacks are to be dropped.
pub open spec fn replaces_peers(c: Classification, config: WgConfig) -> bool {
    config.remove_extra_peers && c.missing_peers.len() > 0
}

pub open spec fn needs_update(c: Classification, device: DeviceSnapshot, config: WgConfig) -> bool {
    ||| c.new_peers.len() > 0
    ||| replaces_peers(c, config)
    ||| (planned_port(c, config) is Some && planned_port(c, config)->Some_0 != device.listen_port)
}

/// The update to write: new peers then matched peers (matched ones must stay
/// in the list, or replacing the peers would delete them); when nothing is
/// to change, an empty update that is not written.
pub open spec fn planned_update(c: Classification, device: DeviceSnapshot, config: WgConfig) -> UpdateModel {
    if needs_update(c, device, config) {
        UpdateModel {
            ifindex: device.ifindex,
            replace_peers: replaces_peers(c, config),
            listen_port: planned_port(c, config),
            peers: c.new_peers + c.matched_peers,
        }
    } else {
        UpdateModel { ifindex: device.ifindex, replace_peers: false, listen_port: None, peers: seq![] }
    }
}

/// Decides whether the interface must be written, and what to write.
pub fn plan(classified: ClassifiedPeers, device: &DeviceSnapshot, config: &WgConfig) -> (r: (
    bool,
    DeviceUpdate,
))
    ensures
        r.0 == needs_update(classified@, *device, *config),
        r.1@ == planned_update(classified@, *device, *config),
{
    let ghost c = classified@;
    let ClassifiedPeers { this_peer, new_peers, matched_peers, missing_peers } = classified;
    let mut update = new_peers.len() > 0;
    let replace_peers = config.remove_extra_peers && missing_peers.len() > 0;
    if replace_peers {
        update = true;
    }
    let mut listen_port = config.listen_port;
    if config.match_listen_port_to_local_endpoint {
        if let Some(p) = &this_peer {
            if let Some(e) = &p.endpoint {
                listen_port = Some(e.port());
            }
        }
    }
    if let Some(port) = listen_port {
        if port != device.listen_port {
            update = true;
        }
    }
    if !update {
        return (
            false,
            DeviceUpdate { ifindex: device.ifindex, replace_peers: false, listen_port: None, peers: Vec::new() },
        );
    }
    let mut peers = new_peers;
    let mut matched = matched_peers;
    peers.append(&mut matched);
    (true, DeviceUpdate { ifindex: device.ifindex, replace_peers, listen_port, peers })
}

/// The interface already is as the directory describes it: each directory
/// peer is the interface itself or on it, each interface peer is listed, and
/// the listen port to hold is unset or the current one.
pub open spec fn in_sync(device: DeviceSnapshot, peers: Seq<WgPeer>, config: WgConfig) -> bool {
    &&& forall|i: int|
        0 <= i < peers.len() ==> is_self(device, #[trigger] peers[i]) || on_device(
            device,
            peers[i].public_key,
        )
    &&& forall|k: Key| #[trigger] device.peers@.contains(k) ==> listed(peers, k)
    &&& match planned_port(classification(device, peers), config) {
        Some(port) => port == device.listen_port,
        None => true,
    }
}

/// Planning is idempotent: an interface in sync with the directory needs no
/// update, and the update holds no peers.
pub proof fn lemma_in_sync_needs_no_update(device: DeviceSnapshot, peers: Seq<WgPeer>, config: WgConfig)
    requires
        in_sync(device, peers, config),
    ensures
        !needs_update(classification(device, peers), device, config),
        planned_update(classification(device, peers), device, config).peers.len() == 0,
{
    broadcast use vstd::seq_lib::group_filter_ensures;

    let c = classification(device, peers);
    if c.new_peers.len() > 0 {
        let p = c.new_peers[0];
        assert(is_new(device)(p));
        peers.lemma_filter_contains_rev(is_new(device), p);
        let i = choose|i: int| 0 <= i < peers.len() && peers[i] == p;
    }
    if c.missing_peers.len() > 0 {
        let k = c.missing_peers[0];
        assert(is_missing(peers)(k));
        device.peers@.lemma_filter_contains_rev(is_missing(peers), k);
    }
}

/// Without `remove_extra_peers` the peers are never replaced, however many
/// are missing.
pub proof fn lemma_no_replace_without_removal(c: Classification, device: DeviceSnapshot, config: WgConfig)
    requires
        !config.remove_extra_peers,
    ensures
        !planned_update(c, device, config).replace_peers,
{
}

/// With `remove_extra_peers` and a missing peer, the update replaces the
/// peers and still holds every matched peer, so none of them is deleted.
pub proof fn lemma_replace_keeps_matched(c: Classification, device: DeviceSnapshot, config: WgConfig)
    requires
        config.remove_extra_peers,
        c.missing_peers.len() > 0,
    ensures
        needs_update(c, device, config),
        planned_update(c, device, config).replace_peers,
        forall|i: int|
            0 <= i < c.matched_peers.len() ==> planned_update(c, device, config).peers.contains(
                #[trigger] c.matched_peers[i],
            ),
{
    let u = planned_update(c, device, config);
    assert forall|i: int| 0 <= i < c.matched_peers.len() implies u.peers.contains(
        #[trigger] c.matched_peers[i],
    ) by {
        assert(u.peers[c.new_peers.len() + i] == c.matched_peers[i]);
    }
}

} // verus!
