//! NAT classification and hole-punch planning.
use vstd::prelude::*;
use crate::error::{Error, internal, is_internal};
use crate::stun::{
    be16, binding_request, cookie_bytes, padded, random_transaction_id, scan_attributes, spec_mapped_address, stun_outcome,
    AttrScan, StunOutcome, STUN_ATTR_MAPPED_ADDRESS,
};
use crate::text::{ipv4_text, ipv4_string};

verus! {

/// An IP address. An IPv6 address is held in its standard textual form.
#[derive(Debug, Clone)]
pub enum IpAddress {
    V4(u8, u8, u8, u8),
    V6(String),
}

/// A socket address: an IP address and a port.
#[derive(Debug, Clone)]
pub struct SocketAddress {
    pub ip: IpAddress,
    pub port: u16,
}

/// The textual form of an IP address.
pub open spec fn ip_text(ip: IpAddress) -> Seq<char> {
    match ip {
        IpAddress::V4(a, b, c, d) => ipv4_text(a, b, c, d),
        IpAddress::V6(s) => s@,
    }
}

/// Whether an address needs NAT traversal: the private IPv4 ranges
/// 10/8, 172.16/12 and 192.168/16, loopback 127/8, and every IPv6 address.
pub open spec fn spec_is_private_ip(ip: IpAddress) -> bool {
    match ip {
        IpAddress::V4(a, b, _, _) => a == 10 || (a == 172 && 16 <= b <= 31) || (a == 192 && b == 168) || a == 127,
        IpAddress::V6(_) => true,
    }
}

/// The textual form of an IP address.
pub fn ip_string(ip: &IpAddress) -> (r: String)
    ensures
        r@ == ip_text(*ip),
{
    match ip {
        IpAddress::V4(a, b, c, d) => ipv4_string(*a, *b, *c, *d),
        IpAddress::V6(s) => s.clone(),
    }
}

/// Whether `ip` is private (RFC 1918), loopback, or IPv6.
pub fn is_private_ip(ip: &IpAddress) -> (r: bool)
    ensures
        r == spec_is_private_ip(*ip),
{
    match ip {
        IpAddress::V4(a, b, _, _) => {
            if *a == 10 {
                return true;
            }
            if *a == 172 && *b >= 16 && *b <= 31 {
                return true;
            }
            if *a == 192 && *b == 168 {
                return true;
            }
            if *a == 127 {
                return true;
            }
            false
        },
        IpAddress::V6(_) => true,
    }
}

/// The kind of NAT in front of an endpoint.
#[derive(Debug, Clone, Copy, PartialEq, Eq, Structural)]
pub enum NatType {
    /// No NAT: the endpoint has a public address.
    Open,
    /// Any external host may send to the mapped port.
    FullCone,
    /// Only hosts the endpoint has sent to may send back.
    RestrictedCone,
    /// Only host and port pairs the endpoint has sent to may send back.
    PortRestrictedCone,
    /// Each destination gets its own mapping.
    Symmetric,
    /// The kind could not be determined.
    Unknown,
}

/// What NAT detection found for a local address.
#[derive(Debug, Clone)]
pub struct NatInfo {
    pub local_addr: String,
    pub public_ip: String,
    pub public_port: u16,
    pub nat_type: NatType,
    pub hairpinning: bool,
}

/// The public endpoint a STUN server reported.
#[derive(Debug, Clone)]
pub struct PublicEndpointDiscovered {
    pub public_ip: String,
    pub public_port: u16,
    pub stun_server: String,
}

/// Detects the NAT in front of a local address, asking STUN servers first.
pub struct NatDetector {
    stun_servers: Vec<String>,
}

/// What the search for a MAPPED-ADDRESS attribute finds.
pub enum NatScan {
    /// The address as dotted-quad text, and the port.
    Found(Seq<char>, u16),
    NotFound,
}

/// Searches the attributes of `resp` from `i` for the first MAPPED-ADDRESS
/// whose length is at least eight, and reads its value as RFC 5389 lays it
/// out: a reserved byte, the family, the port, then the four address bytes.
/// An attribute cut short by the end of the response is not read.
pub open spec fn nat_scan(resp: Seq<u8>, i: int) -> NatScan
    decreases resp.len() - i,
{
    if i < 0 || i >= resp.len() || i + 4 > resp.len() {
        NatScan::NotFound
    } else {
        let t = be16(resp[i], resp[i + 1]);
        let l = be16(resp[i + 2], resp[i + 3]);
        let j = i + 4;
        if t == 1 && l >= 8 {
            if j + 8 > resp.len() {
                NatScan::NotFound
            } else {
                NatScan::Found(ipv4_text(resp[j + 4], resp[j + 5], resp[j + 6], resp[j + 7]), be16(resp[j + 2], resp[j + 3]) as u16)
            }
        } else if j + padded(l) >= resp.len() {
            NatScan::NotFound
        } else {
            nat_scan(resp, j + padded(l))
        }
    }
}

/// What the detector reads from a binding response `resp`.
pub open spec fn nat_outcome(resp: Seq<u8>) -> Result<(Seq<char>, u16), Seq<char>> {
    if resp.len() < 20 {
        Err("STUN response too short"@)
    } else if resp.subrange(4, 8) != cookie_bytes() {
        Err("Invalid STUN magic cookie"@)
    } else {
        match nat_scan(resp, 20) {
            NatScan::Found(ip, port) => Ok((ip, port)),
            _ => Err("No mapped address in STUN response"@),
        }
    }
}

/// The default STUN servers of a detector.
pub open spec fn is_default_detector_list(v: Seq<String>) -> bool {
    &&& v.len() == 3
    &&& v[0]@ == "stun.l.google.com:19302"@
    &&& v[1]@ == "stun1.l.google.com:19302"@
    &&& v[2]@ == "stun.cloudflare.com:3478"@
}

enum ScanResult {
    Found(String, u16),
    NotFound,
}

spec fn scan_result_view(r: ScanResult) -> NatScan {
    match r {
        ScanResult::Found(s, p) => NatScan::Found(s@, p),
        ScanResult::NotFound => NatScan::NotFound,
    }
}

fn scan_for_mapped_address(response: &[u8]) -> (r: ScanResult)
    ensures
        scan_result_view(r) == nat_scan(response@, 20),
{
    let n = response.len();
    let mut i: usize = 20;
    while i < n
        invariant
            n == response@.len(),
            20 <= i,
            nat_scan(response@, i as int) == nat_scan(response@, 20),
        decreases n - i,
    {
        if n - i < 4 {
            return ScanResult::NotFound;
        }
        let attr_type: u16 = (response[i] as u16) * 256 + (response[i + 1] as u16);
        let attr_len: usize = (response[i + 2] as usize) * 256 + (response[i + 3] as usize);
        let j = i + 4;
        if attr_type == 0x0001 && attr_len >= 8 {
            if n - j < 8 {
                return ScanResult::NotFound;
            }
            let port: u16 = (response[j + 2] as u16) * 256 + (response[j + 3] as u16);
            let ip = ipv4_string(response[j + 4], response[j + 5], response[j + 6], response[j + 7]);
            return ScanResult::Found(ip, port);
        }
        let step: usize = attr_len + (4 - attr_len % 4) % 4;
        if step >= n - j {
            return ScanResult::NotFound;
        }
        i = j + step;
    }
    ScanResult::NotFound
}

impl NatDetector {
    /// The STUN servers, as `host:port` texts.
    pub closed spec fn server_list(&self) -> Seq<String> {
        self.stun_servers@
    }

    /// A detector that asks Google's and Cloudflare's public servers.
    pub fn new() -> (r: Self)
        ensures
            is_default_detector_list(r.server_list()),
    {
        let mut v: Vec<String> = Vec::new();
        v.push(String::from_str("stun.l.google.com:19302"));
        v.push(String::from_str("stun1.l.google.com:19302"));
        v.push(String::from_str("stun.cloudflare.com:3478"));
        Self { stun_servers: v }
    }

    /// A detector that asks the given servers.
    pub fn with_servers(servers: Vec<String>) -> (r: Self)
        ensures
            r.server_list() == servers@,
    {
        Self { stun_servers: servers }
    }

    /// The STUN servers, in the order they are asked.
    pub fn servers(&self) -> (r: &Vec<String>)
        ensures
            r@ == self.server_list(),
    {
        &self.stun_servers
    }

    /// A binding request with a fresh random transaction id.
    pub fn create_stun_request(&self) -> (r: Vec<u8>)
        ensures
            r@.len() == 20,
            r@.take(8) == seq![0x00u8, 0x01u8, 0x00u8, 0x00u8] + cookie_bytes(),
    {
        let id = random_transaction_id();
        let r = binding_request(&id);
        assert(r@.take(8) =~= seq![0x00u8, 0x01u8, 0x00u8, 0x00u8] + cookie_bytes());
        r
    }

    /// Reads the first MAPPED-ADDRESS of a binding response from
    /// `stun_server`. The message type is not checked.
    pub fn parse_stun_response(&self, response: &[u8], stun_server: &str) -> (r: Result<PublicEndpointDiscovered, Error>)
        ensures
            match nat_outcome(response@) {
                Ok((ip, port)) => r matches Ok(e) && e.public_ip@ == ip && e.public_port == port
                    && e.stun_server@ == stun_server@,
                Err(msg) => r is Err && is_internal(r->Err_0, msg),
            },
    {
        if response.len() < 20 {
            return Err(internal("STUN response too short"));
        }
        if !(response[4] == 0x21 && response[5] == 0x12 && response[6] == 0xA4 && response[7] == 0x42) {
            assert(response@.subrange(4, 8) != cookie_bytes()) by {
                if response@.subrange(4, 8) == cookie_bytes() {
                    assert(response@.subrange(4, 8)[0] == response@[4]);
                    assert(response@.subrange(4, 8)[1] == response@[5]);
                    assert(response@.subrange(4, 8)[2] == response@[6]);
                    assert(response@.subrange(4, 8)[3] == response@[7]);
                }
            }
            return Err(internal("Invalid STUN magic cookie"));
        }
        assert(response@.subrange(4, 8) =~= cookie_bytes());
        match scan_for_mapped_address(response) {
            ScanResult::Found(ip, port) => Ok(PublicEndpointDiscovered {
                public_ip: ip,
                public_port: port,
                stun_server: String::from_str(stun_server),
            }),
            _ => Err(internal("No mapped address in STUN response")),
        }
    }
}


/// What one step of NAT detection asks for.
#[derive(Debug)]
pub enum DetectStep {
    /// Exchange a binding request with the server at this index of the
    /// detector's list and report the reply.
    Query(usize),
    /// Detection is over.
    Finished(Result<NatInfo, Error>),
}

/// Whether the `j`-th reply names an address.
pub open spec fn nat_reply_maps(replies: Seq<Option<Vec<u8>>>, j: int) -> bool {
    replies[j] matches Some(b) && nat_outcome(b@) is Ok
}

/// Whether `r` is what IP-based detection reports for `bind_addr`, whose
/// parse as a socket address is `local`: an unparsable address is an
/// error; a private one is behind an unknown NAT with public endpoint
/// `0.0.0.0:0`; a public one is open, and is its own public endpoint.
pub open spec fn is_detect_by_ip_result(
    r: Result<NatInfo, Error>,
    bind_addr: Seq<char>,
    local: Result<SocketAddress, String>,
) -> bool {
    match local {
        Err(e) => r is Err && is_internal(r->Err_0, "Invalid address: "@ + e@),
        Ok(addr) => r matches Ok(info) && info.local_addr@ == bind_addr && !info.hairpinning && if spec_is_private_ip(
            addr.ip,
        ) {
            info.nat_type == NatType::Unknown && info.public_ip@ == "0.0.0.0"@ && info.public_port == 0
        } else {
            info.nat_type == NatType::Open && info.public_ip@ == ip_text(addr.ip) && info.public_port
                == addr.port
        },
    }
}

/// Whether `r` is what detection reports after a STUN server saw
/// `ip:port`: open when that is the local address's own IP, symmetric
/// otherwise.
pub open spec fn is_stun_detect_result(
    r: Result<NatInfo, Error>,
    bind_addr: Seq<char>,
    local: Result<SocketAddress, String>,
    ip: Seq<char>,
    port: u16,
) -> bool {
    match local {
        Err(e) => r is Err && is_internal(r->Err_0, "Invalid address: "@ + e@),
        Ok(addr) => r matches Ok(info) && info.local_addr@ == bind_addr && !info.hairpinning
            && info.public_ip@ == ip && info.public_port == port && info.nat_type == (if ip_text(addr.ip)
            == ip {
            NatType::Open
        } else {
            NatType::Symmetric
        }),
    }
}

impl NatDetector {
    /// IP-based detection, used when no STUN server answered. `local` is
    /// `bind_addr` read as a socket address, or the reason it could not be.
    pub fn detect_by_ip(&self, bind_addr: &str, local: &Result<SocketAddress, String>) -> (r: Result<NatInfo, Error>)
        ensures
            is_detect_by_ip_result(r, bind_addr@, *local),
    {
        match local {
            Err(e) => {
                let mut m = String::from_str("Invalid address: ");
                m.append(e.as_str());
                Err(Error::Internal(m))
            },
            Ok(addr) => {
                if is_private_ip(&addr.ip) {
                    Ok(NatInfo {
                        local_addr: String::from_str(bind_addr),
                        public_ip: String::from_str("0.0.0.0"),
                        public_port: 0,
                        nat_type: NatType::Unknown,
                        hairpinning: false,
                    })
                } else {
                    Ok(NatInfo {
                        local_addr: String::from_str(bind_addr),
                        public_ip: ip_string(&addr.ip),
                        public_port: addr.port,
                        nat_type: NatType::Open,
                        hairpinning: false,
                    })
                }
            },
        }
    }

    /// One step of NAT detection for `bind_addr`. `replies[j]` is what the
    /// `j`-th server answered (`None` when the exchange failed). The first
    /// reply that names an address decides; while none has, the next server
    /// is asked; when every server has been asked, detection falls back to
    /// the local address alone.
    pub fn detect(&self, bind_addr: &str, local: &Result<SocketAddress, String>, replies: &Vec<Option<Vec<u8>>>) -> (r: DetectStep)
        ensures
            forall|j: int|
                0 <= j < replies@.len() && j < self.server_list().len() && #[trigger] nat_reply_maps(replies@, j)
                    && (forall|i: int| 0 <= i < j ==> !nat_reply_maps(replies@, i)) ==> (r matches DetectStep::Finished(res)
                    && nat_outcome(replies@[j]->Some_0@) matches Ok((ip, port))
                    && is_stun_detect_result(res, bind_addr@, *local, ip, port)),
            (forall|i: int| 0 <= i < replies@.len() && i < self.server_list().len() ==> !nat_reply_maps(replies@, i)) ==> (
                if replies@.len() < self.server_list().len() {
                    r == DetectStep::Query(replies@.len() as usize)
                } else {
                    r matches DetectStep::Finished(res) && is_detect_by_ip_result(res, bind_addr@, *local)
                }),
    {
        let mut j: usize = 0;
        while j < replies.len() && j < self.stun_servers.len()
            invariant
                j <= replies@.len(),
                j <= self.server_list().len(),
                forall|i: int| 0 <= i < j ==> !nat_reply_maps(replies@, i),
            decreases replies@.len() - j,
        {
            match &replies[j] {
                Some(bytes) => {
                    assert(replies@[j as int] is Some);
                    match self.parse_stun_response(bytes.as_slice(), self.stun_servers[j].as_str()) {
                        Ok(endpoint) => {
                            assert(nat_reply_maps(replies@, j as int));
                            let res = match local {
                                Err(e) => {
                                    let mut m = String::from_str("Invalid address: ");
                                    m.append(e.as_str());
                                    Err(Error::Internal(m))
                                },
                                Ok(addr) => {
                                    let local_ip = ip_string(&addr.ip);
                                    let nat_type = if local_ip == endpoint.public_ip {
                                        NatType::Open
                                    } else {
                                        NatType::Symmetric
                                    };
                                    Ok(NatInfo {
                                        local_addr: String::from_str(bind_addr),
                                        public_ip: endpoint.public_ip,
                                        public_port: endpoint.public_port,
                                        nat_type,
                                        hairpinning: false,
                                    })
                                },
                            };
                            return DetectStep::Finished(res);
                        },
                        Err(_) => {},
                    }
                },
                None => {},
            }
            j = j + 1;
        }
        if replies.len() < self.stun_servers.len() {
            DetectStep::Query(replies.len())
        } else {
            DetectStep::Finished(self.detect_by_ip(bind_addr, local))
        }
    }
}

impl Default for NatDetector {
    fn default() -> (r: Self)
        ensures
            is_default_detector_list(r.server_list()),
    {
        Self::new()
    }
}

/// How two endpoints can be connected.
#[derive(Debug, Clone, Copy, PartialEq, Eq, Structural)]
pub enum HolePunchStrategy {
    /// At least one side is reachable as it is.
    Direct,
    /// Both sides must send first to open their NATs.
    HolePunch,
    /// No direct path: traffic goes through the relay.
    Relay,
}

/// The strategy for a pair of NAT kinds: direct when either side is open;
/// hole punching when either side is a full cone; relaying between two
/// symmetric NATs; hole punching otherwise.
pub open spec fn spec_strategy(local: NatType, remote: NatType) -> HolePunchStrategy {
    if local == NatType::Open || remote == NatType::Open {
        HolePunchStrategy::Direct
    } else if local == NatType::FullCone || remote == NatType::FullCone {
        HolePunchStrategy::HolePunch
    } else if local == NatType::Symmetric && remote == NatType::Symmetric {
        HolePunchStrategy::Relay
    } else {
        HolePunchStrategy::HolePunch
    }
}

/// Plans connections between endpoints behind NATs.
pub struct HolePuncher {
    nat_detector: NatDetector,
}

/// What the hole puncher does once it knows both NAT kinds.
#[derive(Debug)]
pub enum PunchStep {
    /// Connect to the remote endpoint as it is.
    Connect(String),
    /// Send punch packets from the local address to the remote endpoint,
    /// then connect to it.
    Punch(String),
    /// No direct connection can be made.
    Fail(Error),
}

impl HolePuncher {
    pub fn new() -> (r: Self)
        ensures
            is_default_detector_list(r.detector().server_list()),
    {
        Self { nat_detector: NatDetector::new() }
    }

    /// The detector used to learn the local NAT kind.
    pub closed spec fn detector(&self) -> NatDetector {
        self.nat_detector
    }

    /// The detector used to learn the local NAT kind.
    pub fn nat_detector(&self) -> (r: &NatDetector)
        ensures
            *r == self.detector(),
    {
        &self.nat_detector
    }

    /// The strategy for connecting an endpoint behind `local_nat` to one
    /// behind `remote_nat`.
    pub fn determine_strategy(&self, local_nat: &NatType, remote_nat: &NatType) -> (r: HolePunchStrategy)
        ensures
            r == spec_strategy(*local_nat, *remote_nat),
    {
        match (local_nat, remote_nat) {
            (NatType::Open, _) | (_, NatType::Open) => HolePunchStrategy::Direct,
            (NatType::FullCone, _) | (_, NatType::FullCone) => HolePunchStrategy::HolePunch,
            (NatType::Symmetric, NatType::Symmetric) => HolePunchStrategy::Relay,
            _ => HolePunchStrategy::HolePunch,
        }
    }

    /// Decides how to reach `remote_public` (behind `remote_nat_type`) once
    /// the local endpoint's NAT is known: connect directly, punch first, or
    /// give up because only a relay would do.
    pub fn punch_hole(&self, local_nat: &NatInfo, remote_public: &str, remote_nat_type: &NatType) -> (r: PunchStep)
        ensures
            match spec_strategy(local_nat.nat_type, *remote_nat_type) {
                HolePunchStrategy::Direct => r matches PunchStep::Connect(s) && s@ == remote_public@,
                HolePunchStrategy::HolePunch => r matches PunchStep::Punch(s) && s@ == remote_public@,
                HolePunchStrategy::Relay => r matches PunchStep::Fail(e) && is_internal(
                    e,
                    "Direct connection not possible, relay required"@,
                ),
            },
    {
        match self.determine_strategy(&local_nat.nat_type, remote_nat_type) {
            HolePunchStrategy::Direct => PunchStep::Connect(String::from_str(remote_public)),
            HolePunchStrategy::HolePunch => PunchStep::Punch(String::from_str(remote_public)),
            HolePunchStrategy::Relay => PunchStep::Fail(internal("Direct connection not possible, relay required")),
        }
    }
}

impl Default for HolePuncher {
    fn default() -> (r: Self)
        ensures
            is_default_detector_list(r.detector().server_list()),
    {
        Self::new()
    }
}

/// The strategy does not depend on which side is local.
pub proof fn lemma_strategy_symmetric(a: NatType, b: NatType)
    ensures
        spec_strategy(a, b) == spec_strategy(b, a),
{
}

/// An open endpoint on either side always allows a direct connection.
pub proof fn lemma_open_side_is_direct(a: NatType, b: NatType)
    requires
        a == NatType::Open || b == NatType::Open,
    ensures
        spec_strategy(a, b) == HolePunchStrategy::Direct,
{
}

/// Relaying is chosen only between two symmetric NATs.
pub proof fn lemma_relay_only_between_symmetric(a: NatType, b: NatType)
    ensures
        spec_strategy(a, b) == HolePunchStrategy::Relay <==> (a == NatType::Symmetric && b == NatType::Symmetric),
{
}

/// IP-based detection never reports a private local address as open.
pub proof fn lemma_private_never_open(r: Result<NatInfo, Error>, bind_addr: Seq<char>, addr: SocketAddress)
    requires
        is_detect_by_ip_result(r, bind_addr, Ok(addr)),
        spec_is_private_ip(addr.ip),
    ensures
        r matches Ok(info) && info.nat_type != NatType::Open,
{
}

/// A binding response whose only attribute is a MAPPED-ADDRESS for
/// `a.b.c.d` and `port`.
pub open spec fn mapped_response(transaction_id: Seq<u8>, a: u8, b: u8, c: u8, d: u8, port: u16) -> Seq<u8> {
    seq![0x01u8, 0x01u8, 0x00u8, 0x0Cu8] + cookie_bytes() + transaction_id + seq![
        0x00u8,
        0x01u8,
        0x00u8,
        0x08u8,
        0x00u8,
        0x01u8,
        (port / 256) as u8,
        (port % 256) as u8,
        a,
        b,
        c,
        d,
    ]
}

/// The detector reads a binding response that maps the client to
/// `a.b.c.d:port` as exactly that endpoint.
pub proof fn lemma_mapped_response_reads_back(transaction_id: Seq<u8>, a: u8, b: u8, c: u8, d: u8, port: u16)
    requires
        transaction_id.len() == 12,
    ensures
        nat_outcome(mapped_response(transaction_id, a, b, c, d, port)) == Ok::<(Seq<char>, u16), Seq<char>>(
            (ipv4_text(a, b, c, d), port),
        ),
{
    let r = mapped_response(transaction_id, a, b, c, d, port);
    assert(r.len() == 32);
    assert(r.subrange(4, 8) =~= cookie_bytes());
    assert(r[20] == 0x00u8 && r[21] == 0x01u8 && r[22] == 0x00u8 && r[23] == 0x08u8);
    assert(r[26] == (port / 256) as u8 && r[27] == (port % 256) as u8);
    assert(r[28] == a && r[29] == b && r[30] == c && r[31] == d);
    assert(be16((port / 256) as u8, (port % 256) as u8) == port);
    assert(nat_scan(r, 20) == NatScan::Found(ipv4_text(a, b, c, d), port));
}

/// Direct connection is planned exactly when at least one side is open.
pub proof fn lemma_direct_iff_open(a: NatType, b: NatType)
    ensures
        spec_strategy(a, b) == HolePunchStrategy::Direct <==> (a == NatType::Open || b == NatType::Open),
{
}

/// Between two NATs neither of which is open, hole punching is planned
/// unless both are symmetric, when only relaying is left.
pub proof fn lemma_closed_sides_punch_or_relay(a: NatType, b: NatType)
    requires
        a != NatType::Open,
        b != NatType::Open,
    ensures
        spec_strategy(a, b) == (if a == NatType::Symmetric && b == NatType::Symmetric {
            HolePunchStrategy::Relay
        } else {
            HolePunchStrategy::HolePunch
        }),
{
}

/// After a STUN server saw `ip:port`, detection reports that endpoint, and
/// the NAT is open exactly when `ip` is the local address's own IP text,
/// symmetric otherwise; for an IPv4 local address that is its dotted-quad
/// text.
pub proof fn lemma_stun_nat_type(
    r: Result<NatInfo, Error>,
    bind_addr: Seq<char>,
    addr: SocketAddress,
    ip: Seq<char>,
    port: u16,
)
    requires
        is_stun_detect_result(r, bind_addr, Ok(addr), ip, port),
    ensures
        r matches Ok(info) && info.public_ip@ == ip && info.public_port == port && info.local_addr@ == bind_addr,
        r matches Ok(info) && (info.nat_type == NatType::Open <==> ip_text(addr.ip) == ip),
        r matches Ok(info) && (info.nat_type == NatType::Symmetric <==> ip_text(addr.ip) != ip),
        addr.ip matches IpAddress::V4(a, b, c, d) ==> (r matches Ok(info) && (info.nat_type == NatType::Open
            <==> ip == ipv4_text(a, b, c, d))),
{
}

/// A STUN client reads a binding response that maps it to `a.b.c.d:port`
/// with a plain MAPPED-ADDRESS as exactly that endpoint, as the detector
/// does.
pub proof fn lemma_client_reads_mapped_response(transaction_id: Seq<u8>, a: u8, b: u8, c: u8, d: u8, port: u16)
    requires
        transaction_id.len() == 12,
    ensures
        stun_outcome(mapped_response(transaction_id, a, b, c, d, port)) == StunOutcome::Mapped(ipv4_text(a, b, c, d), port),
{
    let r = mapped_response(transaction_id, a, b, c, d, port);
    assert(r.len() == 32);
    assert(r.subrange(4, 8) =~= cookie_bytes());
    assert(r[0] == 0x01u8 && r[1] == 0x01u8 && r[2] == 0x00u8 && r[3] == 0x0Cu8);
    assert(r[20] == 0x00u8 && r[21] == 0x01u8 && r[22] == 0x00u8 && r[23] == 0x08u8);
    let v = r.subrange(24, 32);
    assert(v =~= seq![0x00u8, 0x01u8, (port / 256) as u8, (port % 256) as u8, a, b, c, d]);
    assert(be16((port / 256) as u8, (port % 256) as u8) == port);
    assert(spec_mapped_address(v, STUN_ATTR_MAPPED_ADDRESS) == Some((ipv4_text(a, b, c, d), port)));
    assert(scan_attributes(r, 32, 32, Some((ipv4_text(a, b, c, d), port))) == AttrScan::Done(Some((ipv4_text(a, b, c, d), port))));
    assert(scan_attributes(r, 20, 32, None) == AttrScan::Done(Some((ipv4_text(a, b, c, d), port))));
}

} // verus!
