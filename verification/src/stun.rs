//! STUN (RFC 5389) binding requests and responses, used to discover the
//! public endpoint that a NAT maps a local socket to.
use vstd::prelude::*;
use crate::error::{Error, internal, is_internal};
use crate::text::{decimal, hex4, ipv4_text, ipv4_string, is_digit_char, lemma_decimal_digits, lemma_parse_decimal_u16, push_char, push_decimal, push_hex4, parse_u16, spec_parse_u16};

verus! {

/// Message type of a binding request.
pub const STUN_BINDING_REQUEST: u16 = 0x0001;
/// Message type of a binding success response.
pub const STUN_BINDING_RESPONSE: u16 = 0x0101;
/// The magic cookie that every STUN message carries after its length.
pub const STUN_MAGIC_COOKIE: u32 = 0x2112A442;
/// Attribute type of MAPPED-ADDRESS.
pub const STUN_ATTR_MAPPED_ADDRESS: u16 = 0x0001;
/// Attribute type of XOR-MAPPED-ADDRESS.
pub const STUN_ATTR_XOR_MAPPED_ADDRESS: u16 = 0x0020;
/// Attribute type of ERROR-CODE.
pub const STUN_ATTR_ERROR_CODE: u16 = 0x0009;

/// The four bytes of the magic cookie, most significant first.
pub open spec fn cookie_bytes() -> Seq<u8> {
    seq![0x21u8, 0x12u8, 0xA4u8, 0x42u8]
}

/// A big-endian 16-bit number.
pub open spec fn be16(hi: u8, lo: u8) -> int {
    hi as int * 256 + lo as int
}

/// An attribute's length rounded up to a multiple of four.
pub open spec fn padded(len: int) -> int {
    len + (4 - len % 4) % 4
}

/// The header of a binding request with the given transaction id.
pub open spec fn binding_request_bytes(transaction_id: Seq<u8>) -> Seq<u8> {
    seq![0x00u8, 0x01u8, 0x00u8, 0x00u8] + cookie_bytes() + transaction_id
}

/// The address a MAPPED-ADDRESS (`attr_type == 0x0001`) or XOR-MAPPED-ADDRESS
/// value holds: its IPv4 text and its port. In the XOR form the port is
/// XORed with the cookie's first two bytes and the four address bytes with
/// the whole cookie (RFC 5389).
/// `None` when the value is shorter than eight bytes or is not IPv4.
pub open spec fn spec_mapped_address(v: Seq<u8>, attr_type: u16) -> Option<(Seq<char>, u16)> {
    if v.len() < 8 {
        None
    } else if v[1] != 0x01 {
        None
    } else {
        let port = if attr_type == STUN_ATTR_XOR_MAPPED_ADDRESS {
            be16(v[2] ^ 0x21u8, v[3] ^ 0x12u8) as u16
        } else {
            be16(v[2], v[3]) as u16
        };
        let ip = if attr_type == STUN_ATTR_XOR_MAPPED_ADDRESS {
            ipv4_text(v[4] ^ 0x21u8, v[5] ^ 0x12u8, v[6] ^ 0xA4u8, v[7] ^ 0x42u8)
        } else {
            ipv4_text(v[4], v[5], v[6], v[7])
        };
        Some((ip, port))
    }
}

/// What walking the attributes of a response yields.
pub enum AttrScan {
    /// An ERROR-CODE attribute was met.
    ErrorCode,
    /// The walk ended; the last address that parsed, if any.
    Done(Option<(Seq<char>, u16)>),
}

/// Walks the attributes of `resp` from `pos` while `pos < end`, keeping the
/// last mapped address that parses. The walk stops early when an attribute
/// header or its padded value would run past the end of `resp`.
pub open spec fn scan_attributes(resp: Seq<u8>, pos: int, end: int, found: Option<(Seq<char>, u16)>) -> AttrScan
    decreases resp.len() - pos,
{
    if pos >= end || pos < 0 {
        AttrScan::Done(found)
    } else if pos + 4 > resp.len() {
        AttrScan::Done(found)
    } else {
        let t = be16(resp[pos], resp[pos + 1]) as u16;
        let l = be16(resp[pos + 2], resp[pos + 3]);
        let p = pos + 4;
        if p + padded(l) > resp.len() {
            AttrScan::Done(found)
        } else if t == STUN_ATTR_MAPPED_ADDRESS || t == STUN_ATTR_XOR_MAPPED_ADDRESS {
            let next = match spec_mapped_address(resp.subrange(p, p + l), t) {
                Some(a) => Some(a),
                None => found,
            };
            scan_attributes(resp, p + padded(l), end, next)
        } else if t == STUN_ATTR_ERROR_CODE {
            AttrScan::ErrorCode
        } else {
            scan_attributes(resp, p + padded(l), end, found)
        }
    }
}

/// What a binding response says.
pub enum StunOutcome {
    /// The public address and port the server saw.
    Mapped(Seq<char>, u16),
    TooShort,
    BadCookie,
    UnexpectedType(u16),
    ErrorCode,
    NoMapping,
}

/// The meaning of a binding response `resp`: a 20-byte header (type,
/// attribute length, magic cookie, transaction id) followed by attributes.
pub open spec fn stun_outcome(resp: Seq<u8>) -> StunOutcome {
    if resp.len() < 20 {
        StunOutcome::TooShort
    } else if resp.subrange(4, 8) != cookie_bytes() {
        StunOutcome::BadCookie
    } else if be16(resp[0], resp[1]) != STUN_BINDING_RESPONSE {
        StunOutcome::UnexpectedType(be16(resp[0], resp[1]) as u16)
    } else {
        match scan_attributes(resp, 20, 20 + be16(resp[2], resp[3]), None) {
            AttrScan::ErrorCode => StunOutcome::ErrorCode,
            AttrScan::Done(Some((ip, port))) => StunOutcome::Mapped(ip, port),
            AttrScan::Done(None) => StunOutcome::NoMapping,
        }
    }
}

/// The text of the error that a response with the given outcome is
/// rejected with.
pub open spec fn outcome_error_text(o: StunOutcome) -> Seq<char> {
    match o {
        StunOutcome::TooShort => "STUN response too short"@,
        StunOutcome::BadCookie => "Invalid STUN magic cookie"@,
        StunOutcome::UnexpectedType(t) => "Unexpected STUN message type: 0x"@ + hex4(t),
        StunOutcome::ErrorCode => "STUN error code attribute present"@,
        _ => "No mapped address in STUN response"@,
    }
}

/// A STUN server: a host name or address, and a port.
#[derive(Debug, Clone)]
pub struct StunServer {
    pub addr: String,
    pub port: u16,
}

/// Whether `s` holds no colon.
pub open spec fn no_colon(s: Seq<char>) -> bool {
    forall|i: int| 0 <= i < s.len() ==> s[i] != ':'
}

/// Whether `s` holds exactly one colon, at index `k`.
pub open spec fn single_colon_at(s: Seq<char>, k: int) -> bool {
    &&& 0 <= k < s.len()
    &&& s[k] == ':'
    &&& no_colon(s.take(k))
    &&& no_colon(s.skip(k + 1))
}

/// `s` split at its only colon, when it holds exactly one.
pub open spec fn split_single_colon(s: Seq<char>) -> Option<(Seq<char>, Seq<char>)> {
    if exists|k: int| single_colon_at(s, k) {
        let k = choose|k: int| single_colon_at(s, k);
        Some((s.take(k), s.skip(k + 1)))
    } else {
        None
    }
}

/// The `host:port` text of a server.
pub open spec fn server_label(addr: Seq<char>, port: u16) -> Seq<char> {
    addr + seq![':'] + decimal(port as nat)
}

impl StunServer {
    pub fn new(addr: String, port: u16) -> (r: Self)
        ensures
            r.addr == addr,
            r.port == port,
    {
        Self { addr, port }
    }

    /// Reads `host:port`. The text must hold exactly one colon, and what
    /// follows it must be a `u16`.
    pub fn from_str(s: &str) -> (r: Result<Self, Error>)
        ensures
            match split_single_colon(s@) {
                None => is_internal(r->Err_0, "Invalid STUN server address: "@ + s@) && r is Err,
                Some((host, port_text)) => match spec_parse_u16(port_text) {
                    Some(port) => r matches Ok(srv) && srv.addr@ == host && srv.port == port,
                    None => r is Err && is_internal(r->Err_0, "Invalid STUN server port: "@ + port_text),
                },
            },
    {
        let n = s.unicode_len();
        let mut colons: usize = 0;
        let mut at: usize = 0;
        let mut i: usize = 0;
        while i < n
            invariant
                n == s@.len(),
                i <= n,
                colons <= i,
                colons == 0 ==> no_colon(s@.take(i as int)),
                colons == 1 ==> at < i && s@[at as int] == ':' && no_colon(s@.take(at as int))
                    && no_colon(s@.subrange(at + 1, i as int)),
                colons >= 2 ==> exists|a: int, b: int| 0 <= a < b < i && s@[a] == ':' && s@[b] == ':',
            decreases n - i,
        {
            let c = s.get_char(i);
            if c == ':' {
                if colons == 1 {
                    assert(s@[at as int] == ':' && s@[i as int] == ':');
                }
                if colons == 0 {
                    at = i;
                    assert(s@.subrange(at + 1, i + 1) =~= Seq::<char>::empty());
                }
                colons = colons + 1;
            } else {
                proof {
                    if colons == 0 {
                        assert forall|j: int| 0 <= j < i + 1 implies #[trigger] s@.take(i + 1)[j] != ':' by {
                            if j < i {
                                assert(s@.take(i + 1)[j] == s@.take(i as int)[j]);
                            }
                        }
                    }
                    if colons == 1 {
                        assert forall|j: int| 0 <= j < i + 1 - (at + 1) implies #[trigger] s@.subrange(at + 1, i + 1)[j] != ':' by {
                            if j < i - (at + 1) {
                                assert(s@.subrange(at + 1, i + 1)[j] == s@.subrange(at + 1, i as int)[j]);
                            }
                        }
                    }
                }
            }
            i = i + 1;
        }
        if colons != 1 {
            proof {
                if exists|k: int| single_colon_at(s@, k) {
                    let k = choose|k: int| single_colon_at(s@, k);
                    if colons == 0 {
                        assert(s@.take(n as int)[k] == ':');
                    } else {
                        let (a, b) = choose|a: int, b: int| 0 <= a < b < n && s@[a] == ':' && s@[b] == ':';
                        if a < k {
                            assert(s@.take(k)[a] == ':');
                        } else if a > k {
                            assert(s@.skip(k + 1)[a - k - 1] == ':');
                        } else {
                            assert(s@.skip(k + 1)[b - k - 1] == ':');
                        }
                    }
                }
            }
            let mut m = String::from_str("Invalid STUN server address: ");
            m.append(s);
            return Err(Error::Internal(m));
        }
        proof {
            assert(s@.subrange(at + 1, n as int) =~= s@.skip(at + 1));
            assert(single_colon_at(s@, at as int));
            let k = choose|k: int| single_colon_at(s@, k);
            if k < at {
                assert(s@.take(at as int)[k] == ':');
            } else if k > at {
                assert(s@.skip(at + 1)[k - at - 1] == ':');
            }
        }
        let host = s.substring_char(0, at);
        let port_text = s.substring_char(at + 1, n);
        assert(host@ =~= s@.take(at as int));
        assert(port_text@ =~= s@.skip(at + 1));
        match parse_u16(port_text) {
            Some(port) => Ok(Self { addr: String::from_str(host), port }),
            None => {
                let mut m = String::from_str("Invalid STUN server port: ");
                m.append(port_text);
                Err(Error::Internal(m))
            },
        }
    }

    /// The `host:port` text of this server.
    pub fn label(&self) -> (r: String)
        ensures
            r@ == server_label(self.addr@, self.port),
    {
        let mut r = self.addr.clone();
        push_char(&mut r, ':');
        push_decimal(&mut r, self.port as u64);
        r
    }
}


/// The view of an optional address found so far.
pub open spec fn found_view(f: Option<(String, u16)>) -> Option<(Seq<char>, u16)> {
    match f {
        Some((s, p)) => Some((s@, p)),
        None => None,
    }
}

/// The public endpoint that STUN discovery found for a local address.
#[derive(Debug, Clone)]
pub struct PublicEndpoint {
    pub public_ip: String,
    pub public_port: u16,
    pub local_addr: String,
    pub stun_server: String,
}

/// What one step of public-endpoint discovery asks for.
#[derive(Debug)]
pub enum DiscoveryStep {
    /// Exchange a binding request with the server at this index of the
    /// client's list and report the reply.
    Query(usize),
    /// Discovery is over.
    Found(PublicEndpoint),
}

/// A STUN client that asks its servers, in order, for the public endpoint.
pub struct StunClient {
    servers: Vec<StunServer>,
    timeout_ms: u64,
}

/// Whether `e` is the endpoint reported when no server answered usefully.
pub open spec fn is_unknown_endpoint(e: PublicEndpoint, local_addr: Seq<char>) -> bool {
    &&& e.public_ip@ == "0.0.0.0"@
    &&& e.public_port == 0
    &&& e.local_addr@ == local_addr
    &&& e.stun_server@ == "none"@
}

/// Whether `e` reports the mapped address `ip:port` seen by `server`.
pub open spec fn is_mapped_endpoint(
    e: PublicEndpoint,
    ip: Seq<char>,
    port: u16,
    local_addr: Seq<char>,
    server: StunServer,
) -> bool {
    &&& e.public_ip@ == ip
    &&& e.public_port == port
    &&& e.local_addr@ == local_addr
    &&& e.stun_server@ == server_label(server.addr@, server.port)
}

/// Whether the `j`-th reply is a binding response that names an address.
pub open spec fn reply_maps(replies: Seq<Option<Vec<u8>>>, j: int) -> bool {
    replies[j] matches Some(b) && stun_outcome(b@) is Mapped
}

/// The default servers of a client.
pub open spec fn is_default_server_list(v: Seq<StunServer>) -> bool {
    &&& v.len() == 4
    &&& v[0].addr@ == "stun.l.google.com"@ && v[0].port == 19302
    &&& v[1].addr@ == "stun1.l.google.com"@ && v[1].port == 19302
    &&& v[2].addr@ == "stun2.l.google.com"@ && v[2].port == 19302
    &&& v[3].addr@ == "stun.cloudflare.com"@ && v[3].port == 3478
}

/// Twelve random bytes for a transaction id (`rand::random`).
#[verifier::external_body]
pub(crate) fn random_transaction_id() -> (id: [u8; 12]) {
    rand::random::<[u8; 12]>()
}

/// The binding request with the given transaction id: message type
/// 0x0001, attribute length 0, the magic cookie, then the id.
pub fn binding_request(transaction_id: &[u8; 12]) -> (r: Vec<u8>)
    ensures
        r@ == binding_request_bytes(transaction_id@),
{
    let mut r: Vec<u8> = Vec::new();
    r.push(0x00);
    r.push(0x01);
    r.push(0x00);
    r.push(0x00);
    r.push(0x21);
    r.push(0x12);
    r.push(0xA4);
    r.push(0x42);
    let mut i: usize = 0;
    while i < 12
        invariant
            i <= 12,
            r@ == seq![0x00u8, 0x01u8, 0x00u8, 0x00u8] + cookie_bytes() + transaction_id@.take(i as int),
        decreases 12 - i,
    {
        r.push(transaction_id[i]);
        assert(transaction_id@.take(i + 1) =~= transaction_id@.take(i as int).push(transaction_id@[i as int]));
        i = i + 1;
    }
    assert(transaction_id@.take(12) =~= transaction_id@);
    r
}

impl StunClient {
    /// The servers, in the order they are asked.
    pub closed spec fn server_list(&self) -> Seq<StunServer> {
        self.servers@
    }

    /// The reply timeout in milliseconds.
    pub closed spec fn reply_timeout_ms(&self) -> u64 {
        self.timeout_ms
    }

    /// A client that asks Google's and Cloudflare's public servers.
    pub fn new() -> (r: Self)
        ensures
            is_default_server_list(r.server_list()),
            r.reply_timeout_ms() == 3000,
    {
        let mut servers: Vec<StunServer> = Vec::new();
        servers.push(StunServer::new(String::from_str("stun.l.google.com"), 19302));
        servers.push(StunServer::new(String::from_str("stun1.l.google.com"), 19302));
        servers.push(StunServer::new(String::from_str("stun2.l.google.com"), 19302));
        servers.push(StunServer::new(String::from_str("stun.cloudflare.com"), 3478));
        Self { servers, timeout_ms: 3000 }
    }

    /// A client that asks the given servers.
    pub fn with_servers(servers: Vec<StunServer>) -> (r: Self)
        ensures
            r.server_list() == servers@,
            r.reply_timeout_ms() == 3000,
    {
        Self { servers, timeout_ms: 3000 }
    }

    /// The servers, in the order they are asked.
    pub fn servers(&self) -> (r: &Vec<StunServer>)
        ensures
            r@ == self.server_list(),
    {
        &self.servers
    }

    /// How long to wait for each reply, in milliseconds.
    pub fn timeout_ms(&self) -> (r: u64)
        ensures
            r == self.reply_timeout_ms(),
    {
        self.timeout_ms
    }

    /// A binding request with a fresh random transaction id.
    pub fn create_stun_binding_request(&self) -> (r: Vec<u8>)
        ensures
            r@.len() == 20,
            r@.take(8) == seq![0x00u8, 0x01u8, 0x00u8, 0x00u8] + cookie_bytes(),
    {
        let id = random_transaction_id();
        let r = binding_request(&id);
        assert(r@.take(8) =~= seq![0x00u8, 0x01u8, 0x00u8, 0x00u8] + cookie_bytes());
        r
    }

    /// Reads a MAPPED-ADDRESS or XOR-MAPPED-ADDRESS value.
    pub fn parse_mapped_address(&self, attr_value: &[u8], attr_type: u16) -> (r: Result<(String, u16), Error>)
        ensures
            match spec_mapped_address(attr_value@, attr_type) {
                Some((ip, port)) => r matches Ok((s, p)) && s@ == ip && p == port,
                None => r is Err && (if attr_value@.len() < 8 {
                    is_internal(r->Err_0, "Mapped address too short"@)
                } else {
                    is_internal(r->Err_0, "Only IPv4 addresses supported"@)
                }),
            },
    {
        if attr_value.len() < 8 {
            return Err(internal("Mapped address too short"));
        }
        let family = attr_value[1];
        let port: u16 = if attr_type == STUN_ATTR_XOR_MAPPED_ADDRESS {
            ((attr_value[2] ^ 0x21u8) as u16) * 256 + ((attr_value[3] ^ 0x12u8) as u16)
        } else {
            (attr_value[2] as u16) * 256 + (attr_value[3] as u16)
        };
        let ip = if attr_type == STUN_ATTR_XOR_MAPPED_ADDRESS {
            ipv4_string(attr_value[4] ^ 0x21u8, attr_value[5] ^ 0x12u8, attr_value[6] ^ 0xA4u8, attr_value[7] ^ 0x42u8)
        } else {
            ipv4_string(attr_value[4], attr_value[5], attr_value[6], attr_value[7])
        };
        if family != 0x01 {
            return Err(internal("Only IPv4 addresses supported"));
        }
        Ok((ip, port))
    }

    /// Reads a binding response from `stun_server`, received on `local_addr`.
    pub fn parse_stun_response(&self, response: &[u8], stun_server: &StunServer, local_addr: &str) -> (r: Result<PublicEndpoint, Error>)
        ensures
            match stun_outcome(response@) {
                StunOutcome::Mapped(ip, port) => r matches Ok(e) && is_mapped_endpoint(e, ip, port, local_addr@, *stun_server),
                o => r is Err && is_internal(r->Err_0, outcome_error_text(o)),
            },
    {
        let n = response.len();
        if n < 20 {
            return Err(internal("STUN response too short"));
        }
        let msg_type: u16 = (response[0] as u16) * 256 + (response[1] as u16);
        let msg_len: usize = (response[2] as usize) * 256 + (response[3] as usize);
        if !(response[4] == 0x21 && response[5] == 0x12 && response[6] == 0xA4 && response[7] == 0x42) {
            assert(response@.subrange(4, 8) != cookie_bytes()) by {
                if response@.subrange(4, 8) == cookie_bytes() {
                    assert(response@.subrange(4, 8)[0] == response@[4]);
                    assert(response@.subrange(4, 8)[1] == response@[5]);
                    assert(response@.subrange(4, 8)[2] == response@[6]);
                    assert(response@.subrange(4, 8)[3] == response@[7]);
                }
            }
            return Err(internal("Invalid STUN magic cookie"));
        }
        assert(response@.subrange(4, 8) =~= cookie_bytes());
        if msg_type != STUN_BINDING_RESPONSE {
            let mut m = String::from_str("Unexpected STUN message type: 0x");
            push_hex4(&mut m, msg_type);
            return Err(Error::Internal(m));
        }
        let end: usize = 20 + msg_len;
        let mut pos: usize = 20;
        let mut public: Option<(String, u16)> = None;
        let ghost total = scan_attributes(response@, 20, end as int, None);
        while pos < end
            invariant_except_break
                n == response@.len(),
                20 <= pos <= n,
                end == 20 + be16(response@[2], response@[3]),
                response@.subrange(4, 8) == cookie_bytes(),
                be16(response@[0], response@[1]) == STUN_BINDING_RESPONSE,
                total == scan_attributes(response@, 20, end as int, None),
                total == scan_attributes(response@, pos as int, end as int, found_view(public)),
            ensures
                total == AttrScan::Done(found_view(public)),
            decreases n - pos,
        {
            if n - pos < 4 {
                break;
            }
            let attr_type: u16 = (response[pos] as u16) * 256 + (response[pos + 1] as u16);
            let attr_len: usize = (response[pos + 2] as usize) * 256 + (response[pos + 3] as usize);
            let p: usize = pos + 4;
            let attr_value_len: usize = attr_len + (4 - attr_len % 4) % 4;
            if attr_value_len > n - p {
                break;
            }
            let attr_value = vstd::slice::slice_subrange(response, p, p + attr_len);
            if attr_type == STUN_ATTR_MAPPED_ADDRESS || attr_type == STUN_ATTR_XOR_MAPPED_ADDRESS {
                match self.parse_mapped_address(attr_value, attr_type) {
                    Ok((ip, port)) => {
                        public = Some((ip, port));
                    },
                    Err(_) => {},
                }
            } else if attr_type == STUN_ATTR_ERROR_CODE {
                assert(be16(response@[pos as int], response@[pos + 1]) as u16 == attr_type);
                assert(padded(attr_len as int) == attr_value_len);
                assert(total == AttrScan::ErrorCode);
                return Err(internal("STUN error code attribute present"));
            }
            pos = p + attr_value_len;
        }
        match public {
            Some((ip, port)) => Ok(PublicEndpoint {
                public_ip: ip,
                public_port: port,
                local_addr: String::from_str(local_addr),
                stun_server: stun_server.label(),
            }),
            None => Err(internal("No mapped address in STUN response")),
        }
    }

    /// One step of public-endpoint discovery. `replies[j]` is what the
    /// `j`-th server answered (`None` when the exchange failed). The first
    /// reply that names an address ends discovery with it; while no reply
    /// has, the next server is asked; when every server has been asked, the
    /// endpoint is reported as unknown (`0.0.0.0:0`, via `none`).
    pub fn discover_public_endpoint(&self, local_addr: &str, replies: &Vec<Option<Vec<u8>>>) -> (r: DiscoveryStep)
        ensures
            forall|j: int|
                0 <= j < replies@.len() && j < self.server_list().len() && #[trigger] reply_maps(replies@, j)
                    && (forall|i: int| 0 <= i < j ==> !reply_maps(replies@, i)) ==> (r matches DiscoveryStep::Found(e)
                    && stun_outcome(replies@[j]->Some_0@) matches StunOutcome::Mapped(ip, port)
                    && is_mapped_endpoint(e, ip, port, local_addr@, self.server_list()[j])),
            (forall|i: int| 0 <= i < replies@.len() && i < self.server_list().len() ==> !reply_maps(replies@, i)) ==> (
                if replies@.len() < self.server_list().len() {
                    r == DiscoveryStep::Query(replies@.len() as usize)
                } else {
                    r matches DiscoveryStep::Found(e) && is_unknown_endpoint(e, local_addr@)
                }),
    {
        let mut j: usize = 0;
        while j < replies.len() && j < self.servers.len()
            invariant
                j <= replies@.len(),
                j <= self.server_list().len(),
                forall|i: int| 0 <= i < j ==> !reply_maps(replies@, i),
            decreases replies@.len() - j,
        {
            match &replies[j] {
                Some(bytes) => {
                    match self.parse_stun_response(bytes.as_slice(), &self.servers[j], local_addr) {
                        Ok(e) => {
                            assert(reply_maps(replies@, j as int));
                            return DiscoveryStep::Found(e);
                        },
                        Err(_) => {},
                    }
                },
                None => {},
            }
            j = j + 1;
        }
        if replies.len() < self.servers.len() {
            DiscoveryStep::Query(replies.len())
        } else {
            DiscoveryStep::Found(PublicEndpoint {
                public_ip: String::from_str("0.0.0.0"),
                public_port: 0,
                local_addr: String::from_str(local_addr),
                stun_server: String::from_str("none"),
            })
        }
    }
}


/// Reading back the `host:port` text of a server whose host holds no colon
/// gives that host and port.
pub proof fn lemma_label_reads_back(addr: Seq<char>, port: u16)
    requires
        no_colon(addr),
    ensures
        split_single_colon(server_label(addr, port)) == Some((addr, decimal(port as nat))),
        spec_parse_u16(decimal(port as nat)) == Some(port),
{
    let s = server_label(addr, port);
    let k = addr.len() as int;
    let dec = decimal(port as nat);
    lemma_decimal_digits(port as nat);
    lemma_parse_decimal_u16(port);
    assert(s.take(k) =~= addr);
    assert(s.skip(k + 1) =~= dec);
    assert(no_colon(dec)) by {
        assert forall|i: int| 0 <= i < dec.len() implies dec[i] != ':' by {
            assert(is_digit_char(dec[i]));
        }
    }
    assert(single_colon_at(s, k));
    let c = choose|c: int| single_colon_at(s, c);
    if c < k {
        assert(s.take(k)[c] == ':');
    } else if c > k {
        assert(s.skip(k + 1)[c - k - 1] == ':');
    }
}

/// A binding response whose only attribute is an XOR-MAPPED-ADDRESS for
/// `a.b.c.d` and `port`, both XORed with the magic cookie as RFC 5389 writes
/// them.
pub open spec fn xor_mapped_response(transaction_id: Seq<u8>, a: u8, b: u8, c: u8, d: u8, port: u16) -> Seq<u8> {
    seq![0x01u8, 0x01u8, 0x00u8, 0x0Cu8] + cookie_bytes() + transaction_id + seq![
        0x00u8,
        0x20u8,
        0x00u8,
        0x08u8,
        0x00u8,
        0x01u8,
        ((port / 256) as u8) ^ 0x21u8,
        ((port % 256) as u8) ^ 0x12u8,
        a ^ 0x21u8,
        b ^ 0x12u8,
        c ^ 0xA4u8,
        d ^ 0x42u8,
    ]
}

/// A binding response that maps the client to `a.b.c.d:port` is read as
/// exactly that endpoint.
pub proof fn lemma_xor_mapped_response_reads_back(transaction_id: Seq<u8>, a: u8, b: u8, c: u8, d: u8, port: u16)
    requires
        transaction_id.len() == 12,
    ensures
        stun_outcome(xor_mapped_response(transaction_id, a, b, c, d, port)) == StunOutcome::Mapped(ipv4_text(a, b, c, d), port),
{
    let r = xor_mapped_response(transaction_id, a, b, c, d, port);
    assert(r.len() == 32);
    assert(r.subrange(4, 8) =~= cookie_bytes());
    assert(r[0] == 0x01u8 && r[1] == 0x01u8 && r[2] == 0x00u8 && r[3] == 0x0Cu8);
    assert(r[20] == 0x00u8 && r[21] == 0x20u8 && r[22] == 0x00u8 && r[23] == 0x08u8);
    let v = r.subrange(24, 32);
    let hi = (port / 256) as u8;
    let lo = (port % 256) as u8;
    assert(v =~= seq![0x00u8, 0x01u8, hi ^ 0x21u8, lo ^ 0x12u8, a ^ 0x21u8, b ^ 0x12u8, c ^ 0xA4u8, d ^ 0x42u8]);
    assert((hi ^ 0x21u8) ^ 0x21u8 == hi) by (bit_vector);
    assert((lo ^ 0x12u8) ^ 0x12u8 == lo) by (bit_vector);
    assert((a ^ 0x21u8) ^ 0x21u8 == a) by (bit_vector);
    assert((b ^ 0x12u8) ^ 0x12u8 == b) by (bit_vector);
    assert((c ^ 0xA4u8) ^ 0xA4u8 == c) by (bit_vector);
    assert((d ^ 0x42u8) ^ 0x42u8 == d) by (bit_vector);
    assert(be16(hi, lo) == port);
    assert(spec_mapped_address(v, STUN_ATTR_XOR_MAPPED_ADDRESS) == Some((ipv4_text(a, b, c, d), port)));
    assert(scan_attributes(r, 32, 32, Some((ipv4_text(a, b, c, d), port))) == AttrScan::Done(Some((ipv4_text(a, b, c, d), port))));
    assert(scan_attributes(r, 20, 32, None) == AttrScan::Done(Some((ipv4_text(a, b, c, d), port))));
}

/// Whether the attributes of `resp` from `pos` fill `[pos, end)` exactly:
/// each header and its padded value lie within it, one after another.
pub open spec fn tiles(resp: Seq<u8>, pos: int, end: int) -> bool
    decreases end - pos,
{
    if pos >= end {
        pos == end
    } else {
        pos + 4 <= end && pos + 4 + padded(be16(resp[pos + 2], resp[pos + 3])) <= end && tiles(
            resp,
            pos + 4 + padded(be16(resp[pos + 2], resp[pos + 3])),
            end,
        )
    }
}

proof fn lemma_padded_nonneg(l: int)
    requires
        l >= 0,
    ensures
        padded(l) >= l,
{
}

proof fn lemma_scan_extended(r1: Seq<u8>, r2: Seq<u8>, pos: int, found: Option<(Seq<char>, u16)>)
    requires
        20 <= pos,
        tiles(r1, pos, r1.len() as int),
        r1.len() + 4 <= r2.len(),
        forall|i: int| 0 <= i < r1.len() ==> #[trigger] r2[i] == r1[i],
        ({
            let t = be16(r2[r1.len() as int], r2[r1.len() as int + 1]) as u16;
            &&& t != STUN_ATTR_MAPPED_ADDRESS
            &&& t != STUN_ATTR_XOR_MAPPED_ADDRESS
            &&& t != STUN_ATTR_ERROR_CODE
        }),
        r2.len() == r1.len() + 4 + padded(be16(r2[r1.len() as int + 2], r2[r1.len() as int + 3])),
    ensures
        scan_attributes(r2, pos, r2.len() as int, found) == scan_attributes(r1, pos, r1.len() as int, found),
    decreases r1.len() - pos,
{
    let n1 = r1.len() as int;
    let n2 = r2.len() as int;
    if pos >= n1 {
        assert(pos == n1);
        let l = be16(r2[pos + 2], r2[pos + 3]);
        lemma_padded_nonneg(l);
        assert(scan_attributes(r2, n2, n2, found) == AttrScan::Done(found));
    } else {
        assert(r2[pos] == r1[pos] && r2[pos + 1] == r1[pos + 1] && r2[pos + 2] == r1[pos + 2] && r2[pos + 3] == r1[pos + 3]);
        let l = be16(r1[pos + 2], r1[pos + 3]);
        let p = pos + 4;
        lemma_padded_nonneg(l);
        assert(r2.subrange(p, p + l) =~= r1.subrange(p, p + l));
        lemma_scan_extended(r1, r2, p + padded(l), match spec_mapped_address(r1.subrange(p, p + l), be16(r1[pos], r1[pos + 1]) as u16) {
            Some(a) => Some(a),
            None => found,
        });
        lemma_scan_extended(r1, r2, p + padded(l), found);
    }
}

/// A binding response `r1` whose attributes fill its declared length,
/// extended by one more attribute `attr` of a type other than
/// MAPPED-ADDRESS, XOR-MAPPED-ADDRESS and ERROR-CODE (its length field
/// updated to match).
pub open spec fn with_attribute(r1: Seq<u8>, attr: Seq<u8>) -> Seq<u8> {
    let n = (r1.len() - 20 + attr.len()) as int;
    r1.subrange(0, 2) + seq![(n / 256) as u8, (n % 256) as u8] + r1.subrange(4, r1.len() as int) + attr
}

/// Only MAPPED-ADDRESS and XOR-MAPPED-ADDRESS attributes give an address:
/// appending an attribute of any other type (and not ERROR-CODE) to a
/// well-formed binding response leaves what it says unchanged.
pub proof fn lemma_other_attributes_ignored(r1: Seq<u8>, attr: Seq<u8>)
    requires
        r1.len() >= 20,
        be16(r1[2], r1[3]) == r1.len() - 20,
        tiles(r1, 20, r1.len() as int),
        attr.len() >= 4,
        be16(attr[0], attr[1]) as u16 != STUN_ATTR_MAPPED_ADDRESS,
        be16(attr[0], attr[1]) as u16 != STUN_ATTR_XOR_MAPPED_ADDRESS,
        be16(attr[0], attr[1]) as u16 != STUN_ATTR_ERROR_CODE,
        attr.len() == 4 + padded(be16(attr[2], attr[3])),
        r1.len() - 20 + attr.len() <= 0xFFFF,
    ensures
        stun_outcome(with_attribute(r1, attr)) == stun_outcome(r1),
{
    let r2 = with_attribute(r1, attr);
    let n1 = r1.len() as int;
    let n = n1 - 20 + attr.len();
    assert(r2.len() == n1 + attr.len());
    assert forall|i: int| 0 <= i < n1 && (i < 2 || i >= 4) implies #[trigger] r2[i] == r1[i] by {}
    assert(r2[2] == (n / 256) as u8 && r2[3] == (n % 256) as u8);
    assert(be16(r2[2], r2[3]) == n);
    assert(r2.subrange(4, 8) =~= r1.subrange(4, 8));
    assert(r2[n1] == attr[0] && r2[n1 + 1] == attr[1] && r2[n1 + 2] == attr[2] && r2[n1 + 3] == attr[3]);
    // past the header, the attributes of `r1` are those of `r2` up to its end
    let r1b = r1.subrange(0, 2) + seq![(n / 256) as u8, (n % 256) as u8] + r1.subrange(4, n1);
    assert(r1b.len() == n1);
    assert forall|i: int| 0 <= i < n1 implies #[trigger] r2[i] == r1b[i] by {}
    assert forall|i: int| 20 <= i < n1 implies #[trigger] r1b[i] == r1[i] by {}
    lemma_tiles_same(r1, r1b, 20, n1);
    lemma_scan_same(r1, r1b, 20, n1, None);
    lemma_scan_extended(r1b, r2, 20, None);
}

proof fn lemma_tiles_same(r1: Seq<u8>, r2: Seq<u8>, pos: int, end: int)
    requires
        20 <= pos,
        end <= r1.len(),
        end <= r2.len(),
        forall|i: int| 20 <= i < end ==> #[trigger] r2[i] == r1[i],
        tiles(r1, pos, end),
    ensures
        tiles(r2, pos, end),
    decreases end - pos,
{
    if pos < end {
        assert(r2[pos + 2] == r1[pos + 2] && r2[pos + 3] == r1[pos + 3]);
        lemma_tiles_same(r1, r2, pos + 4 + padded(be16(r1[pos + 2], r1[pos + 3])), end);
    }
}

proof fn lemma_scan_same(r1: Seq<u8>, r2: Seq<u8>, pos: int, end: int, found: Option<(Seq<char>, u16)>)
    requires
        20 <= pos,
        end == r1.len(),
        end == r2.len(),
        forall|i: int| 20 <= i < end ==> #[trigger] r2[i] == r1[i],
    ensures
        scan_attributes(r2, pos, end, found) == scan_attributes(r1, pos, end, found),
    decreases end - pos,
{
    if pos < end && pos + 4 <= end {
        assert(r2[pos] == r1[pos] && r2[pos + 1] == r1[pos + 1] && r2[pos + 2] == r1[pos + 2] && r2[pos + 3] == r1[pos + 3]);
        let l = be16(r1[pos + 2], r1[pos + 3]);
        let p = pos + 4;
        lemma_padded_nonneg(l);
        if p + padded(l) <= end {
            assert(r2.subrange(p, p + l) =~= r1.subrange(p, p + l));
            lemma_scan_same(r1, r2, p + padded(l), end, match spec_mapped_address(r1.subrange(p, p + l), be16(r1[pos], r1[pos + 1]) as u16) {
                Some(a) => Some(a),
                None => found,
            });
            lemma_scan_same(r1, r2, p + padded(l), end, found);
        }
    }
}

} // verus!
