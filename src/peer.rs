use vstd::prelude::*;
use wireguard_uapi::get::AllowedIp;

verus! {

/// A WireGuard public or preshared key.
pub type Key = [u8; 32];

/// `wireguard_uapi::get::AllowedIp` (address family, address, mask length):
/// carried from the parser to the device update without being read.
#[verifier::external_type_specification]
#[verifier::external_body]
pub struct ExAllowedIp(wireguard_uapi::get::AllowedIp);

/// A resolved network address: IP address and UDP port.
#[derive(Debug, Clone, Copy, PartialEq, Eq)]
pub enum SocketAddress {
    V4 { ip: [u8; 4], port: u16 },
    V6 { ip: [u8; 16], port: u16, flowinfo: u32, scope_id: u32 },
}

impl SocketAddress {
    pub open spec fn spec_port(&self) -> u16 {
        match self {
            SocketAddress::V4 { port, .. } => *port,
            SocketAddress::V6 { port, .. } => *port,
        }
    }

    #[verifier::when_used_as_spec(spec_port)]
    pub fn port(&self) -> (r: u16)
        ensures
            r == self.spec_port(),
    {
        match self {
            SocketAddress::V4 { port, .. } => *port,
            SocketAddress::V6 { port, .. } => *port,
        }
    }
}

/// What resolving an endpoint's `host:port` text gave.
#[derive(Debug, Clone, PartialEq, Eq)]
pub enum EndpointLookup {
    /// The resolver reported an error.
    Failed,
    /// The addresses found, in the resolver's order (possibly none).
    Resolved(Vec<SocketAddress>),
}

/// One `wgPeer` entry as the directory returned it: the values of each
/// attribute, in order, empty where the entry lacks the attribute.
#[derive(Debug, Clone, PartialEq, Eq)]
pub struct LdapPeer {
    /// Values of `wgPublicKey`.
    pub public_key: Vec<Vec<u8>>,
    /// Values of `wgPresharedKey`.
    pub preshared_key: Vec<Vec<u8>>,
    /// Values of `wgAllowedIp`.
    pub allowed_ips: Vec<String>,
    /// The lookup of the first value of `wgEndpoint`; `None` where the entry
    /// has no such value.
    pub endpoint: Option<EndpointLookup>,
    /// Values of `wgPersistentKeepalive`.
    pub persistent_keepalive: Vec<String>,
}

/// Why a directory entry is not a valid peer.
#[derive(Debug, Clone, Copy, PartialEq, Eq, Structural)]
pub enum PeerParseError {
    MissingPublicKey,
    InvalidKey,
    InvalidAllowedIp,
    InvalidEndpoint,
    EndpointDoesNotResolve,
    InvalidPersistentKeepalive,
}

/// A validated peer record.
#[derive(Debug, Clone, PartialEq, Eq)]
pub struct WgPeer {
    pub public_key: Key,
    pub preshared_key: Option<Key>,
    pub allowed_ips: Vec<AllowedIp>,
    pub endpoint: Option<SocketAddress>,
    pub persistent_keepalive_interval: Option<u16>,
}

/// The result of parsing `s` as an allowed IP (`address/mask`).
pub uninterp spec fn allowed_ip_of(s: Seq<char>) -> Option<AllowedIp>;

/// Relies on `<wireguard_uapi::get::AllowedIp as FromStr>::from_str`, which
/// parses the text alone.
#[verifier::external_body]
fn parse_allowed_ip(s: &String) -> (r: Option<AllowedIp>)
    ensures
        r == allowed_ip_of(s@),
{
    s.parse::<AllowedIp>().ok()
}

pub open spec fn is_decimal_digit(c: char) -> bool {
    '0' <= c <= '9'
}

/// The number that a string of decimal digits denotes.
pub open spec fn decimal_value(s: Seq<char>) -> int
    decreases s.len(),
{
    if s.len() == 0 {
        0
    } else {
        decimal_value(s.drop_last()) * 10 + (s.last() as int - '0' as int)
    }
}

/// An optional `+`, then one or more decimal digits, denoting at most
/// `u16::MAX`.
pub open spec fn decimal_u16(s: Seq<char>) -> Option<u16> {
    let digits = if s.len() > 0 && s[0] == '+' {
        s.drop_first()
    } else {
        s
    };
    if digits.len() > 0 && (forall|i: int| 0 <= i < digits.len() ==> is_decimal_digit(#[trigger] digits[i]))
        && decimal_value(digits) <= u16::MAX {
        Some(decimal_value(digits) as u16)
    } else {
        None
    }
}

/// Relies on `u16::from_str`: an optional `+` followed by decimal digits
/// only, no other sign or whitespace, and a value that fits.
#[verifier::external_body]
fn parse_u16(s: &String) -> (r: Option<u16>)
    ensures
        r == decimal_u16(s@),
{
    s.parse::<u16>().ok()
}

/// Copies a 32-byte value into a key; `None` for any other length.
pub fn key_from_bytes(b: &Vec<u8>) -> (r: Option<Key>)
    ensures
        match r {
            Some(k) => b@.len() == 32 && k@ == b@,
            None => b@.len() != 32,
        },
{
    if b.len() != 32 {
        return None;
    }
    let mut k: Key = [0u8; 32];
    let mut i: usize = 0;
    while i < 32
        invariant
            b@.len() == 32,
            0 <= i <= 32,
            k@.len() == 32,
            forall|j: int| 0 <= j < i ==> k@[j] == b@[j],
        decreases 32 - i,
    {
        k[i] = b[i];
        i += 1;
    }
    assert(k@ =~= b@);
    Some(k)
}

impl LdapPeer {
    /// The first failing rule, in the order in which the rules are checked;
    /// `None` where the entry is a valid peer.
    pub open spec fn parse_error(&self) -> Option<PeerParseError> {
        if self.public_key@.len() == 0 {
            Some(PeerParseError::MissingPublicKey)
        } else if self.public_key@[0]@.len() != 32 {
            Some(PeerParseError::InvalidKey)
        } else if self.preshared_key@.len() > 0 && self.preshared_key@[0]@.len() != 32 {
            Some(PeerParseError::InvalidKey)
        } else if exists|i: int|
            0 <= i < self.allowed_ips@.len() && #[trigger] allowed_ip_of(self.allowed_ips@[i]@) is None {
            Some(PeerParseError::InvalidAllowedIp)
        } else if self.endpoint == Some(EndpointLookup::Failed) {
            Some(PeerParseError::InvalidEndpoint)
        } else if self.endpoint is Some && self.endpoint->Some_0 is Resolved
            && self.endpoint->Some_0->Resolved_0@.len() == 0 {
            Some(PeerParseError::EndpointDoesNotResolve)
        } else if self.persistent_keepalive@.len() > 0 && decimal_u16(
            self.persistent_keepalive@[0]@,
        ) is None {
            Some(PeerParseError::InvalidPersistentKeepalive)
        } else {
            None
        }
    }

    /// `p` is the record that this entry describes: the first value of each
    /// attribute, every allowed IP, and the first resolved endpoint address.
    pub open spec fn describes(&self, p: WgPeer) -> bool {
        &&& p.public_key@ == self.public_key@[0]@
        &&& match p.preshared_key {
            Some(k) => self.preshared_key@.len() > 0 && k@ == self.preshared_key@[0]@,
            None => self.preshared_key@.len() == 0,
        }
        &&& p.allowed_ips@.len() == self.allowed_ips@.len()
        &&& forall|i: int|
            0 <= i < self.allowed_ips@.len() ==> allowed_ip_of(#[trigger] self.allowed_ips@[i]@)
                == Some(p.allowed_ips@[i])
        &&& p.endpoint == match self.endpoint {
            Some(EndpointLookup::Resolved(addrs)) => Some(addrs@[0]),
            _ => None::<SocketAddress>,
        }
        &&& p.persistent_keepalive_interval == if self.persistent_keepalive@.len() > 0 {
            decimal_u16(self.persistent_keepalive@[0]@)
        } else {
            None
        }
    }

    /// Every attribute but the public key passes its rule.
    pub open spec fn other_attributes_valid(&self) -> bool {
        &&& self.preshared_key@.len() > 0 ==> self.preshared_key@[0]@.len() == 32
        &&& forall|i: int|
            0 <= i < self.allowed_ips@.len() ==> #[trigger] allowed_ip_of(self.allowed_ips@[i]@) is Some
        &&& match self.endpoint {
            Some(EndpointLookup::Resolved(addrs)) => addrs@.len() > 0,
            Some(EndpointLookup::Failed) => false,
            None => true,
        }
        &&& self.persistent_keepalive@.len() > 0 ==> decimal_u16(self.persistent_keepalive@[0]@) is Some
    }

    /// Validates the entry into a peer record. All or nothing: the first
    /// failing rule is the error.
    pub fn parse(&self) -> (r: Result<WgPeer, PeerParseError>)
        ensures
            match r {
                Ok(p) => self.parse_error() is None && self.describes(p),
                Err(e) => self.parse_error() == Some(e),
            },
    {
        if self.public_key.len() == 0 {
            return Err(PeerParseError::MissingPublicKey);
        }
        let public_key = match key_from_bytes(&self.public_key[0]) {
            Some(k) => k,
            None => return Err(PeerParseError::InvalidKey),
        };
        let preshared_key = if self.preshared_key.len() == 0 {
            None
        } else {
            match key_from_bytes(&self.preshared_key[0]) {
                Some(k) => Some(k),
                None => return Err(PeerParseError::InvalidKey),
            }
        };
        let mut allowed_ips: Vec<AllowedIp> = Vec::new();
        let mut i: usize = 0;
        while i < self.allowed_ips.len()
            invariant
                self.public_key@.len() > 0,
                self.public_key@[0]@.len() == 32,
                self.preshared_key@.len() > 0 ==> self.preshared_key@[0]@.len() == 32,
                0 <= i <= self.allowed_ips@.len(),
                allowed_ips@.len() == i,
                forall|j: int|
                    0 <= j < i ==> allowed_ip_of(#[trigger] self.allowed_ips@[j]@) == Some(
                        allowed_ips@[j],
                    ),
            decreases self.allowed_ips@.len() - i,
        {
            match parse_allowed_ip(&self.allowed_ips[i]) {
                Some(ip) => allowed_ips.push(ip),
                None => {
                    assert(allowed_ip_of(self.allowed_ips@[i as int]@) is None);
                    return Err(PeerParseError::InvalidAllowedIp);
                },
            }
            i += 1;
        }
        let endpoint = match &self.endpoint {
            None => None,
            Some(EndpointLookup::Failed) => return Err(PeerParseError::InvalidEndpoint),
            Some(EndpointLookup::Resolved(addrs)) => {
                if addrs.len() == 0 {
                    return Err(PeerParseError::EndpointDoesNotResolve);
                }
                Some(addrs[0])
            },
        };
        let persistent_keepalive_interval = if self.persistent_keepalive.len() == 0 {
            None
        } else {
            match parse_u16(&self.persistent_keepalive[0]) {
                Some(v) => Some(v),
                None => return Err(PeerParseError::InvalidPersistentKeepalive),
            }
        };
        Ok(
            WgPeer {
                public_key,
                preshared_key,
                allowed_ips,
                endpoint,
                persistent_keepalive_interval,
            },
        )
    }
}

/// The public key attribute decides: with no value the entry fails with
/// `MissingPublicKey`, with a first value of any length but 32 bytes it fails
/// with `InvalidKey`, and with a first value of 32 bytes it parses whenever
/// its other attributes are valid.
pub proof fn lemma_public_key_decides(e: LdapPeer)
    ensures
        e.public_key@.len() == 0 ==> e.parse_error() == Some(PeerParseError::MissingPublicKey),
        e.public_key@.len() > 0 && e.public_key@[0]@.len() != 32 ==> e.parse_error() == Some(
            PeerParseError::InvalidKey,
        ),
        e.public_key@.len() > 0 && e.public_key@[0]@.len() == 32 && e.other_attributes_valid()
            ==> e.parse_error() is None,
{
}

/// Parses every entry in order. One invalid entry fails the whole list: the
/// error is that of the first invalid entry.
pub fn parse_peers(entries: &Vec<LdapPeer>) -> (r: Result<Vec<WgPeer>, PeerParseError>)
    ensures
        match r {
            Ok(peers) => {
                &&& peers@.len() == entries@.len()
                &&& forall|i: int|
                    0 <= i < entries@.len() ==> #[trigger] entries@[i].parse_error() is None
                        && entries@[i].describes(peers@[i])
            },
            Err(e) => exists|i: int|
                0 <= i < entries@.len() && #[trigger] entries@[i].parse_error() == Some(e) && forall|
                    j: int,
                | 0 <= j < i ==> (#[trigger] entries@[j].parse_error()) is None,
        },
{
    let mut peers: Vec<WgPeer> = Vec::new();
    let mut i: usize = 0;
    while i < entries.len()
        invariant
            0 <= i <= entries@.len(),
            peers@.len() == i,
            forall|j: int|
                0 <= j < i ==> #[trigger] entries@[j].parse_error() is None && entries@[j].describes(
                    peers@[j],
                ),
        decreases entries@.len() - i,
    {
        match entries[i].parse() {
            Ok(p) => peers.push(p),
            Err(e) => {
                assert(entries@[i as int].parse_error() == Some(e));
                return Err(e);
            },
        }
        i += 1;
    }
    Ok(peers)
}

/// The standard, padded base64 text of some bytes.
pub uninterp spec fn base64_of(b: Seq<u8>) -> Seq<char>;

/// Relies on `base64::Engine::encode` with the `STANDARD` engine, which
/// depends on the bytes alone.
#[verifier::external_body]
fn encode_base64(b: &Key) -> (r: String)
    ensures
        r@ == base64_of(b@),
{
    base64::Engine::encode(&base64::engine::general_purpose::STANDARD, b)
}

/// A key as WireGuard's tools print it: standard base64.
pub fn key_text(k: &Key) -> (r: String)
    ensures
        r@ == base64_of(k@),
{
    encode_base64(k)
}

} // verus!
