//! The fixed packet header of the datagram protocol, and shared constants.
use crate::endian::{
    be16, be16_bytes, be32, be32_bytes, lemma_be16_bytes_of_value, lemma_be16_roundtrip, lemma_be32_bytes_of_value,
    lemma_be32_roundtrip, u16_from_be_bytes,
    u16_to_be_bytes, u32_from_be_bytes, u32_to_be_bytes,
};
use crate::net::{parse_ipv4_addr, spec_parse_ipv4_addr};
use crate::text::{decimal, usize_to_text};
use vstd::prelude::*;

verus! {

/// The default UDP port of the datagram server.
pub const VPN_SERVER_PORT: u16 = 9999;

/// The largest IP packet carried.
pub const TUN_MTU: usize = 1500;

/// The first four header bytes of every packet: "SASE".
pub const PROTOCOL_MAGIC: u32 = 0x53415345;

/// The kinds of packet, numbered 1 to 4 on the wire.
#[derive(Debug, Clone, Copy, PartialEq, Eq, Structural)]
pub enum PacketType {
    Data,
    Handshake,
    KeepAlive,
    Disconnect,
}

/// The wire number of a packet kind.
pub open spec fn spec_packet_type_number(t: PacketType) -> u8 {
    match t {
        PacketType::Data => 0x01,
        PacketType::Handshake => 0x02,
        PacketType::KeepAlive => 0x03,
        PacketType::Disconnect => 0x04,
    }
}

/// The packet kind with a wire number, if any.
pub open spec fn spec_packet_type_from(v: u8) -> Option<PacketType> {
    if v == 0x01 {
        Some(PacketType::Data)
    } else if v == 0x02 {
        Some(PacketType::Handshake)
    } else if v == 0x03 {
        Some(PacketType::KeepAlive)
    } else if v == 0x04 {
        Some(PacketType::Disconnect)
    } else {
        None
    }
}

impl PacketType {
    pub fn from_u8(val: u8) -> (r: Option<Self>)
        ensures
            r == spec_packet_type_from(val),
    {
        if val == 0x01 {
            Some(PacketType::Data)
        } else if val == 0x02 {
            Some(PacketType::Handshake)
        } else if val == 0x03 {
            Some(PacketType::KeepAlive)
        } else if val == 0x04 {
            Some(PacketType::Disconnect)
        } else {
            None
        }
    }

    /// The kind's wire number.
    pub fn to_u8(self) -> (r: u8)
        ensures
            r == spec_packet_type_number(self),
    {
        match self {
            PacketType::Data => 0x01,
            PacketType::Handshake => 0x02,
            PacketType::KeepAlive => 0x03,
            PacketType::Disconnect => 0x04,
        }
    }
}

/// Why a header is refused.
#[derive(Debug, Clone, Copy, PartialEq, Eq, Structural)]
pub enum PacketError {
    TooShort,
    InvalidMagic,
    InvalidPacketType,
}

impl PacketError {
    pub open spec fn spec_text(self) -> Seq<char> {
        match self {
            PacketError::TooShort => "Packet too short"@,
            PacketError::InvalidMagic => "Invalid magic number"@,
            PacketError::InvalidPacketType => "Invalid packet type"@,
        }
    }

    /// The error's message.
    pub fn to_string(&self) -> (s: String)
        ensures
            s@ == self.spec_text(),
    {
        match self {
            PacketError::TooShort => "Packet too short".to_string(),
            PacketError::InvalidMagic => "Invalid magic number".to_string(),
            PacketError::InvalidPacketType => "Invalid packet type".to_string(),
        }
    }
}

/// The header that starts every datagram.
#[derive(Debug, Clone, Copy, PartialEq, Eq, Structural)]
pub struct VpnPacket {
    pub magic: u32,
    pub packet_type: PacketType,
    pub client_id: u32,
    pub sequence: u32,
    /// Length of the payload that follows.
    pub length: u16,
}

/// The header's bytes: magic (4), kind (1), client id (4), sequence (4) and
/// length (2), numbers most significant byte first.
pub open spec fn spec_header_bytes(p: VpnPacket) -> Seq<u8> {
    be32_bytes(p.magic) + seq![spec_packet_type_number(p.packet_type)] + be32_bytes(p.client_id)
        + be32_bytes(p.sequence) + be16_bytes(p.length)
}

pub open spec fn quad(s: Seq<u8>, at: int) -> [u8; 4] {
    [s[at], s[at + 1], s[at + 2], s[at + 3]]
}

/// Reading a header: it needs all its bytes, the magic number and a known kind.
pub open spec fn spec_parse_header(data: Seq<u8>) -> Result<VpnPacket, PacketError> {
    if data.len() < 15 {
        Err(PacketError::TooShort)
    } else if be32(quad(data, 0)) != PROTOCOL_MAGIC {
        Err(PacketError::InvalidMagic)
    } else {
        match spec_packet_type_from(data[4]) {
            None => Err(PacketError::InvalidPacketType),
            Some(t) => Ok(VpnPacket {
                magic: be32(quad(data, 0)),
                packet_type: t,
                client_id: be32(quad(data, 5)),
                sequence: be32(quad(data, 9)),
                length: be16([data[13], data[14]]),
            }),
        }
    }
}

impl VpnPacket {
    /// Size of the header in bytes.
    pub const HEADER_SIZE: usize = 15;

    /// A header with the protocol's magic number.
    pub fn new(packet_type: PacketType, client_id: u32, sequence: u32, length: u16) -> (r: Self)
        ensures
            r == (VpnPacket { magic: PROTOCOL_MAGIC, packet_type, client_id, sequence, length }),
    {
        VpnPacket { magic: PROTOCOL_MAGIC, packet_type, client_id, sequence, length }
    }

    pub fn to_bytes(&self) -> (r: [u8; 15])
        ensures
            r@ == spec_header_bytes(*self),
    {
        let m = u32_to_be_bytes(self.magic);
        let c = u32_to_be_bytes(self.client_id);
        let s = u32_to_be_bytes(self.sequence);
        let l = u16_to_be_bytes(self.length);
        let t = self.packet_type.to_u8();
        let buf = [m[0], m[1], m[2], m[3], t, c[0], c[1], c[2], c[3], s[0], s[1], s[2], s[3], l[0], l[1]];
        assert(buf@ =~= spec_header_bytes(*self));
        buf
    }

    pub fn from_bytes(data: &[u8]) -> (r: Result<Self, PacketError>)
        ensures
            r == spec_parse_header(data@),
    {
        if data.len() < 15 {
            return Err(PacketError::TooShort);
        }
        let magic = u32_from_be_bytes([data[0], data[1], data[2], data[3]]);
        if magic != PROTOCOL_MAGIC {
            return Err(PacketError::InvalidMagic);
        }
        let packet_type = match PacketType::from_u8(data[4]) {
            Some(t) => t,
            None => {
                return Err(PacketError::InvalidPacketType);
            },
        };
        let client_id = u32_from_be_bytes([data[5], data[6], data[7], data[8]]);
        let sequence = u32_from_be_bytes([data[9], data[10], data[11], data[12]]);
        let length = u16_from_be_bytes([data[13], data[14]]);
        Ok(VpnPacket { magic, packet_type, client_id, sequence, length })
    }
}

/// Reading the bytes of a header with the protocol's magic number gives the
/// header back, whatever follows it.
pub proof fn lemma_header_roundtrip(p: VpnPacket, rest: Seq<u8>)
    requires
        p.magic == PROTOCOL_MAGIC,
    ensures
        spec_parse_header(spec_header_bytes(p) + rest) == Ok::<VpnPacket, PacketError>(p),
{
    let b = spec_header_bytes(p) + rest;
    let m = quad(b, 0);
    let c = quad(b, 5);
    let s = quad(b, 9);
    let l: [u8; 2] = [b[13], b[14]];
    assert(m@ =~= be32_bytes(p.magic));
    assert(c@ =~= be32_bytes(p.client_id));
    assert(s@ =~= be32_bytes(p.sequence));
    assert(l@ =~= be16_bytes(p.length));
    lemma_be32_roundtrip(p.magic, m);
    lemma_be32_roundtrip(p.client_id, c);
    lemma_be32_roundtrip(p.sequence, s);
    lemma_be16_roundtrip(p.length, l);
    assert(spec_packet_type_from(b[4]) == Some(p.packet_type));
}

/// A header that was read back is written as the bytes it was read from.
pub proof fn lemma_header_bytes_of_parsed(data: Seq<u8>)
    requires
        spec_parse_header(data) is Ok,
    ensures
        spec_header_bytes(spec_parse_header(data)->Ok_0) == data.take(15),
{
    let p = spec_parse_header(data)->Ok_0;
    lemma_be32_bytes_of_value(quad(data, 0));
    lemma_be32_bytes_of_value(quad(data, 5));
    lemma_be32_bytes_of_value(quad(data, 9));
    lemma_be16_bytes_of_value([data[13], data[14]]);
    assert(spec_packet_type_number(p.packet_type) == data[4]);
    assert(spec_header_bytes(p) =~= data.take(15));
}

/// A buffer for one IP packet read from the tunnel device.
pub fn new_packet_buffer() -> (r: Vec<u8>)
    ensures
        r@.len() == TUN_MTU,
        forall|i: int| 0 <= i < r@.len() ==> r@[i] == 0,
{
    vec![0u8; TUN_MTU]
}

/// The server address a client uses by default.
pub const SERVER_ADDR: &'static str = "127.0.0.1";

/// The server port used by default.
pub const SERVER_PORT: u16 = 12345;

/// The tunnel device name used by default.
pub const TUN_NAME: &'static str = "tun0";

/// Where the client keeps its settings.
pub const CLIENT_CONFIG_PATH: &'static str = "client_config.json";

/// Where the server keeps its settings.
pub const SERVER_CONFIG_PATH: &'static str = "server_config.json";

/// The default server endpoint: "127.0.0.1:12345".
pub open spec fn default_endpoint() -> Seq<char> {
    SERVER_ADDR@ + ":"@ + decimal(SERVER_PORT as nat)
}

fn default_endpoint_text() -> (r: String)
    ensures
        r@ == default_endpoint(),
{
    let mut s = SERVER_ADDR.to_string();
    s.append(":");
    let port = usize_to_text(SERVER_PORT as usize);
    s.append(port.as_str());
    s
}

/// The address a server listens on by default: every interface, the
/// default port ("0.0.0.0:12345").
pub open spec fn default_bind_address() -> Seq<char> {
    "0.0.0.0:"@ + decimal(SERVER_PORT as nat)
}

fn default_bind_address_text() -> (r: String)
    ensures
        r@ == default_bind_address(),
{
    let mut s = "0.0.0.0:".to_string();
    let port = usize_to_text(SERVER_PORT as usize);
    s.append(port.as_str());
    s
}

/// The client's settings.
#[derive(Debug, Clone)]
pub struct ClientConfig {
    /// "tcp", "udp", "ws" or "wss".
    pub transport_type: String,
    pub server_addr: String,
    pub ca_cert_path: String,
    pub session_id: String,
    pub token: String,
    pub rules_path: Option<String>,
}

impl Default for ClientConfig {
    fn default() -> (r: Self)
        ensures
            r.transport_type@ == "tcp"@,
            r.server_addr@ == default_endpoint(),
            r.ca_cert_path@ == "certs/ca-cert.pem"@,
            r.session_id@ == ""@,
            r.token@ == ""@,
            r.rules_path is None,
    {
        ClientConfig {
            transport_type: "tcp".to_string(),
            server_addr: default_endpoint_text(),
            ca_cert_path: "certs/ca-cert.pem".to_string(),
            session_id: "".to_string(),
            token: "".to_string(),
            rules_path: None,
        }
    }
}

impl ClientConfig {
    /// The settings with each given command-line value in place of the stored one.
    pub fn with_args(
        self,
        transport_type: Option<String>,
        server_addr: Option<String>,
        ca_cert_path: Option<String>,
        token: Option<String>,
        rules: Option<String>,
    ) -> (r: Self)
        ensures
            r.transport_type == overridden(self.transport_type, transport_type),
            r.server_addr == overridden(self.server_addr, server_addr),
            r.ca_cert_path == overridden(self.ca_cert_path, ca_cert_path),
            r.session_id == self.session_id,
            r.token == overridden(self.token, token),
            r.rules_path == (match rules { Some(p) => Some(p), None => self.rules_path }),
    {
        let mut config = self;
        if let Some(v) = transport_type {
            config.transport_type = v;
        }
        if let Some(v) = server_addr {
            config.server_addr = v;
        }
        if let Some(v) = ca_cert_path {
            config.ca_cert_path = v;
        }
        if let Some(v) = token {
            config.token = v;
        }
        if let Some(p) = rules {
            config.rules_path = Some(p);
        }
        config
    }
}

/// The server's settings; addresses are numbers, most significant octet first.
#[derive(Debug, Clone)]
pub struct ServerConfig {
    /// "tcp", "udp", "ws" or "wss".
    pub transport_type: String,
    pub bind_addr: String,
    pub tun_name: String,
    pub tun_addr: u32,
    pub tun_netmask: u32,
    pub mtu: usize,
    pub cert_path: String,
    pub key_path: String,
    /// The token clients must present; empty accepts any.
    pub token: String,
    pub rules_path: Option<String>,
}

impl Default for ServerConfig {
    fn default() -> (r: Self)
        ensures
            r.transport_type@ == "tcp"@,
            r.bind_addr@ == default_bind_address(),
            r.tun_name@ == TUN_NAME@,
            r.tun_addr == 0x0A00_0001,
            r.tun_netmask == 0xFFFF_FF00,
            r.mtu == TUN_MTU,
            r.cert_path@ == "certs/server-cert.pem"@,
            r.key_path@ == "certs/server-key.pem"@,
            r.token@ == ""@,
            r.rules_path is None,
    {
        ServerConfig {
            transport_type: "tcp".to_string(),
            bind_addr: default_bind_address_text(),
            tun_name: TUN_NAME.to_string(),
            tun_addr: 0x0A00_0001,
            tun_netmask: 0xFFFF_FF00,
            mtu: TUN_MTU,
            cert_path: "certs/server-cert.pem".to_string(),
            key_path: "certs/server-key.pem".to_string(),
            token: "".to_string(),
            rules_path: None,
        }
    }
}

/// A command-line value that cannot be used.
#[derive(Debug, Clone)]
pub enum ArgError {
    /// The tunnel address is no IPv4 address; the text given.
    InvalidAddress(String),
    /// The netmask is no IPv4 address; the text given.
    InvalidNetmask(String),
}

/// A setting with a command-line value in its place, when one is given.
pub open spec fn overridden<T>(stored: T, given: Option<T>) -> T {
    match given {
        Some(v) => v,
        None => stored,
    }
}

impl ServerConfig {
    /// The settings with each given command-line value in place of the
    /// stored one; the tunnel address and netmask must be IPv4 addresses.
    pub fn with_args(
        self,
        transport_type: Option<String>,
        bind_addr: Option<String>,
        tun: Option<String>,
        address: Option<String>,
        netmask: Option<String>,
        mtu: Option<usize>,
        cert_path: Option<String>,
        key_path: Option<String>,
        token: Option<String>,
        rules: Option<String>,
    ) -> (r: Result<Self, ArgError>)
        ensures
            (address matches Some(a) && spec_parse_ipv4_addr(a@) is None) ==> (r matches Err(ArgError::InvalidAddress(t))
                && t == address->0),
            !(address matches Some(a) && spec_parse_ipv4_addr(a@) is None) && (netmask matches Some(m)
                && spec_parse_ipv4_addr(m@) is None) ==> (r matches Err(ArgError::InvalidNetmask(t)) && t == netmask->0),
            !(address matches Some(a) && spec_parse_ipv4_addr(a@) is None) && !(netmask matches Some(m)
                && spec_parse_ipv4_addr(m@) is None) ==> (r matches Ok(c) && {
                &&& c.transport_type == overridden(self.transport_type, transport_type)
                &&& c.bind_addr == overridden(self.bind_addr, bind_addr)
                &&& c.tun_name == overridden(self.tun_name, tun)
                &&& c.tun_addr == (match address { Some(a) => spec_parse_ipv4_addr(a@)->0, None => self.tun_addr })
                &&& c.tun_netmask == (match netmask { Some(m) => spec_parse_ipv4_addr(m@)->0, None => self.tun_netmask })
                &&& c.mtu == overridden(self.mtu, mtu)
                &&& c.cert_path == overridden(self.cert_path, cert_path)
                &&& c.key_path == overridden(self.key_path, key_path)
                &&& c.token == overridden(self.token, token)
                &&& c.rules_path == (match rules { Some(p) => Some(p), None => self.rules_path })
            }),
    {
        let mut config = self;
        if let Some(v) = transport_type {
            config.transport_type = v;
        }
        if let Some(v) = bind_addr {
            config.bind_addr = v;
        }
        if let Some(v) = tun {
            config.tun_name = v;
        }
        if let Some(a) = address {
            match parse_ipv4_addr(a.as_str()) {
                Some(ip) => config.tun_addr = ip,
                None => {
                    return Err(ArgError::InvalidAddress(a));
                },
            }
        }
        if let Some(m) = netmask {
            match parse_ipv4_addr(m.as_str()) {
                Some(ip) => config.tun_netmask = ip,
                None => {
                    return Err(ArgError::InvalidNetmask(m));
                },
            }
        }
        if let Some(v) = mtu {
            config.mtu = v;
        }
        if let Some(v) = cert_path {
            config.cert_path = v;
        }
        if let Some(v) = key_path {
            config.key_path = v;
        }
        if let Some(v) = token {
            config.token = v;
        }
        if let Some(p) = rules {
            config.rules_path = Some(p);
        }
        Ok(config)
    }
}

} // verus!
