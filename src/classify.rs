use vstd::prelude::*;
use crate::peer::{Key, WgPeer};

verus! {

/// The interface's current state, read once from the kernel.
#[derive(Debug, Clone, PartialEq, Eq)]
pub struct DeviceSnapshot {
    /// Stable index of the interface; updates address it by this.
    pub ifindex: u32,
    /// The interface's own public key, if it has one.
    pub public_key: Option<Key>,
    pub listen_port: u16,
    /// Public keys of the interface's current peers.
    pub peers: Vec<Key>,
}

/// What a classification holds, as values.
pub struct Classification {
    pub this_peer: Option<WgPeer>,
    pub new_peers: Seq<WgPeer>,
    pub matched_peers: Seq<WgPeer>,
    pub missing_peers: Seq<Key>,
}

/// Directory peers sorted against the interface's peers.
#[derive(Debug)]
pub struct ClassifiedPeers {
    /// The directory's record for the interface itself.
    pub this_peer: Option<WgPeer>,
    /// Directory peers that the interface lacks, in directory order.
    pub new_peers: Vec<WgPeer>,
    /// Directory peers that the interface has, in directory order.
    pub matched_peers: Vec<WgPeer>,
    /// Keys of interface peers that the directory lacks, in interface order.
    pub missing_peers: Vec<Key>,
}

impl View for ClassifiedPeers {
    type V = Classification;

    open spec fn view(&self) -> Classification {
        Classification {
            this_peer: self.this_peer,
            new_peers: self.new_peers@,
            matched_peers: self.matched_peers@,
            missing_peers: self.missing_peers@,
        }
    }
}

/// The peer is the interface itself.
pub open spec fn is_self(device: DeviceSnapshot, p: WgPeer) -> bool {
    device.public_key == Some(p.public_key)
}

/// The interface has a peer with this key.
pub open spec fn on_device(device: DeviceSnapshot, k: Key) -> bool {
    device.peers@.contains(k)
}

/// Some directory peer has this key.
pub open spec fn listed(peers: Seq<WgPeer>, k: Key) -> bool {
    exists|i: int| 0 <= i < peers.len() && (#[trigger] peers[i]).public_key == k
}

pub open spec fn is_new(device: DeviceSnapshot) -> spec_fn(WgPeer) -> bool {
    |p: WgPeer| !is_self(device, p) && !on_device(device, p.public_key)
}

pub open spec fn is_matched(device: DeviceSnapshot) -> spec_fn(WgPeer) -> bool {
    |p: WgPeer| !is_self(device, p) && on_device(device, p.public_key)
}

pub open spec fn is_missing(peers: Seq<WgPeer>) -> spec_fn(Key) -> bool {
    |k: Key| !listed(peers, k)
}

/// The last directory peer that is the interface itself: a later record with
/// the interface's key replaces an earlier one.
pub open spec fn self_record(device: DeviceSnapshot, peers: Seq<WgPeer>) -> Option<WgPeer>
    decreases peers.len(),
{
    if peers.len() == 0 {
        None
    } else if is_self(device, peers.last()) {
        Some(peers.last())
    } else {
        self_record(device, peers.drop_last())
    }
}

pub open spec fn classification(device: DeviceSnapshot, peers: Seq<WgPeer>) -> Classification {
    Classification {
        this_peer: self_record(device, peers),
        new_peers: peers.filter(is_new(device)),
        matched_peers: peers.filter(is_matched(device)),
        missing_peers: device.peers@.filter(is_missing(peers)),
    }
}

/// Byte-wise key equality.
pub fn keys_equal(a: &Key, b: &Key) -> (r: bool)
    ensures
        r == (*a == *b),
{
    broadcast use vstd::array::group_array_axioms;

    let mut i: usize = 0;
    while i < 32
        invariant
            0 <= i <= 32,
            a@.len() == 32,
            b@.len() == 32,
            forall|j: int| 0 <= j < i ==> a@[j] == b@[j],
        decreases 32 - i,
    {
        if a[i] != b[i] {
            return false;
        }
        i += 1;
    }
    assert(*a =~= *b);
    true
}

fn is_own_key(device: &DeviceSnapshot, k: &Key) -> (r: bool)
    ensures
        r == (device.public_key == Some(*k)),
{
    match &device.public_key {
        Some(own) => keys_equal(own, k),
        None => false,
    }
}

fn device_has_key(device: &DeviceSnapshot, k: &Key) -> (r: bool)
    ensures
        r == on_device(*device, *k),
{
    let mut i: usize = 0;
    while i < device.peers.len()
        invariant
            0 <= i <= device.peers@.len(),
            forall|j: int| 0 <= j < i ==> device.peers@[j] != *k,
        decreases device.peers@.len() - i,
    {
        if keys_equal(&device.peers[i], k) {
            assert(device.peers@[i as int] == *k);
            return true;
        }
        i += 1;
    }
    false
}

fn peers_have_key(peers: &Vec<WgPeer>, k: &Key) -> (r: bool)
    ensures
        r == listed(peers@, *k),
{
    let mut i: usize = 0;
    while i < peers.len()
        invariant
            0 <= i <= peers@.len(),
            forall|j: int| 0 <= j < i ==> (#[trigger] peers@[j]).public_key != *k,
        decreases peers@.len() - i,
    {
        if keys_equal(&peers[i].public_key, k) {
            assert(peers@[i as int].public_key == *k);
            return true;
        }
        i += 1;
    }
    false
}

/// Sorts the directory peers against the interface: each one is the
/// interface itself, new, or matched, and each interface peer that no
/// directory peer names is missing.
pub fn classify(device: &DeviceSnapshot, peers: Vec<WgPeer>) -> (r: ClassifiedPeers)
    ensures
        r@ == classification(*device, peers@),
{
    broadcast use vstd::seq_lib::group_filter_ensures;

    let ghost all = peers@;
    let mut missing_peers: Vec<Key> = Vec::new();
    let mut i: usize = 0;
    while i < device.peers.len()
        invariant
            0 <= i <= device.peers@.len(),
            missing_peers@ == device.peers@.subrange(0, i as int).filter(is_missing(all)),
            peers@ == all,
        decreases device.peers@.len() - i,
    {
        let k = device.peers[i];
        let found = peers_have_key(&peers, &k);
        proof {
            let before = device.peers@.subrange(0, i as int);
            assert(device.peers@.subrange(0, i + 1) =~= before.push(k));
            before.lemma_filter_push(k, is_missing(all));
        }
        if !found {
            missing_peers.push(k);
        }
        i += 1;
    }
    assert(device.peers@.subrange(0, device.peers@.len() as int) =~= device.peers@);

    let mut rest = peers;
    let mut this_peer: Option<WgPeer> = None;
    let mut new_peers: Vec<WgPeer> = Vec::new();
    let mut matched_peers: Vec<WgPeer> = Vec::new();
    let ghost mut n: int = 0;
    while rest.len() > 0
        invariant
            0 <= n <= all.len(),
            rest@ == all.subrange(n, all.len() as int),
            this_peer == self_record(*device, all.subrange(0, n)),
            new_peers@ == all.subrange(0, n).filter(is_new(*device)),
            matched_peers@ == all.subrange(0, n).filter(is_matched(*device)),
        decreases rest@.len(),
    {
        let p = rest.remove(0);
        proof {
            let before = all.subrange(0, n);
            assert(p == all[n]);
            assert(all.subrange(0, n + 1) =~= before.push(p));
            assert(before.push(p).drop_last() =~= before);
            before.lemma_filter_push(p, is_new(*device));
            before.lemma_filter_push(p, is_matched(*device));
        }
        if is_own_key(device, &p.public_key) {
            this_peer = Some(p);
        } else if device_has_key(device, &p.public_key) {
            matched_peers.push(p);
        } else {
            new_peers.push(p);
        }
        proof {
            n = n + 1;
        }
        assert(rest@ =~= all.subrange(n, all.len() as int));
    }
    assert(all.subrange(0, n) =~= all);
    ClassifiedPeers { this_peer, new_peers, matched_peers, missing_peers }
}

proof fn lemma_self_record(device: DeviceSnapshot, peers: Seq<WgPeer>)
    ensures
        self_record(device, peers) is Some ==> is_self(device, self_record(device, peers)->Some_0)
            && peers.contains(self_record(device, peers)->Some_0),
        (exists|i: int| 0 <= i < peers.len() && is_self(device, #[trigger] peers[i]))
            ==> self_record(device, peers) is Some,
    decreases peers.len(),
{
    if peers.len() > 0 {
        let rest = peers.drop_last();
        lemma_self_record(device, rest);
        if !is_self(device, peers.last()) {
            if exists|i: int| 0 <= i < peers.len() && is_self(device, #[trigger] peers[i]) {
                let i = choose|i: int| 0 <= i < peers.len() && is_self(device, #[trigger] peers[i]);
                assert(rest[i] == peers[i]);
            }
            if self_record(device, rest) is Some {
                let x = self_record(device, rest)->Some_0;
                let j = choose|j: int| 0 <= j < rest.len() && rest[j] == x;
                assert(peers[j] == x);
            }
        } else {
            assert(peers[peers.len() - 1] == peers.last());
        }
    }
}

/// Classification partitions both sides. Each directory peer is the
/// interface itself (and the kept self record then has its key), or else
/// exactly one of new and matched; and each interface key that no directory
/// peer has is missing, while no directory-side bucket holds that key.
pub proof fn lemma_classification_partitions(device: DeviceSnapshot, peers: Seq<WgPeer>)
    ensures
        forall|i: int|
            #![trigger peers[i]]
            0 <= i < peers.len() ==> {
                let c = classification(device, peers);
                let p = peers[i];
                &&& is_self(device, p) ==> c.this_peer is Some && c.this_peer->Some_0.public_key
                    == p.public_key && !c.new_peers.contains(p) && !c.matched_peers.contains(p)
                &&& !is_self(device, p) ==> c.this_peer != Some(p) && c.new_peers.contains(p)
                    != c.matched_peers.contains(p)
            },
        forall|k: Key|
            device.peers@.contains(k) && !#[trigger] listed(peers, k) ==> {
                let c = classification(device, peers);
                &&& c.missing_peers.contains(k)
                &&& forall|j: int| 0 <= j < c.new_peers.len() ==> c.new_peers[j].public_key != k
                &&& forall|j: int|
                    0 <= j < c.matched_peers.len() ==> c.matched_peers[j].public_key != k
                &&& c.this_peer is Some ==> c.this_peer->Some_0.public_key != k
            },
{
    broadcast use vstd::seq_lib::group_filter_ensures;

    let c = classification(device, peers);
    lemma_self_record(device, peers);
    assert forall|i: int| #![trigger peers[i]] 0 <= i < peers.len() implies {
        let p = peers[i];
        &&& is_self(device, p) ==> c.this_peer is Some && c.this_peer->Some_0.public_key
            == p.public_key && !c.new_peers.contains(p) && !c.matched_peers.contains(p)
        &&& !is_self(device, p) ==> c.this_peer != Some(p) && c.new_peers.contains(p)
            != c.matched_peers.contains(p)
    } by {
        let p = peers[i];
        if c.new_peers.contains(p) {
            let j = choose|j: int| 0 <= j < c.new_peers.len() && c.new_peers[j] == p;
            assert(is_new(device)(c.new_peers[j]));
        }
        if c.matched_peers.contains(p) {
            let j = choose|j: int| 0 <= j < c.matched_peers.len() && c.matched_peers[j] == p;
            assert(is_matched(device)(c.matched_peers[j]));
        }
        if !is_self(device, p) {
            if on_device(device, p.public_key) {
                peers.lemma_filter_contains(is_matched(device), i);
            } else {
                peers.lemma_filter_contains(is_new(device), i);
            }
        }
    }
    assert forall|k: Key| device.peers@.contains(k) && !#[trigger] listed(peers, k) implies {
        &&& c.missing_peers.contains(k)
        &&& forall|j: int| 0 <= j < c.new_peers.len() ==> c.new_peers[j].public_key != k
        &&& forall|j: int| 0 <= j < c.matched_peers.len() ==> c.matched_peers[j].public_key != k
        &&& c.this_peer is Some ==> c.this_peer->Some_0.public_key != k
    } by {
        let m = choose|m: int| 0 <= m < device.peers@.len() && device.peers@[m] == k;
        device.peers@.lemma_filter_contains(is_missing(peers), m);
        assert forall|j: int| 0 <= j < c.new_peers.len() implies c.new_peers[j].public_key != k by {
            peers.lemma_filter_contains_rev(is_new(device), c.new_peers[j]);
            let x = choose|x: int| 0 <= x < peers.len() && peers[x] == c.new_peers[j];
        }
        assert forall|j: int| 0 <= j < c.matched_peers.len() implies c.matched_peers[j].public_key
            != k by {
            peers.lemma_filter_contains_rev(is_matched(device), c.matched_peers[j]);
            let x = choose|x: int| 0 <= x < peers.len() && peers[x] == c.matched_peers[j];
        }
        if c.this_peer is Some {
            let x = choose|x: int| 0 <= x < peers.len() && peers[x] == c.this_peer->Some_0;
        }
    }
}

} // verus!
