//! The datagram server's decisions: registering clients by handshake,
//! answering keep-alives, forgetting clients that leave, and framing tunnel
//! packets for every client.
use crate::common::{spec_header_bytes, spec_parse_header, PacketError, PacketType, VpnPacket, PROTOCOL_MAGIC};
use crate::peer::PeerAddr;
use vstd::pervasive::VecAdditionalExecFns;
use vstd::prelude::*;

verus! {

/// A registered client.
#[derive(Debug, Clone, Copy, PartialEq, Eq, Structural)]
pub struct DatagramClient {
    pub addr: PeerAddr,
    pub client_id: u32,
    /// Sequence number of the next data packet sent to the client.
    pub sequence: u32,
}

/// Clients keyed by id, and the counter that numbers new clients.
pub struct DatagramServer {
    clients: Vec<DatagramClient>,
    next_client_id: u32,
}

/// What a received datagram led to.
#[derive(Debug)]
pub enum DatagramOutcome {
    /// Shorter than a header.
    TooShort,
    /// The header was refused.
    Malformed(PacketError),
    /// A new client got this id; the reply header is to be sent back.
    Registered { client_id: u32, reply: [u8; 15] },
    /// The sender was already registered.
    AlreadyRegistered,
    /// Data announced by a client (not written to the tunnel).
    DataReceived { client_id: u32, length: u16 },
    /// The keep-alive answer to send back.
    KeepAliveReply([u8; 15]),
    /// The client with the header's id left; the removed entry, if it existed.
    Disconnected(Option<DatagramClient>),
}

/// The table after adding a client, replacing one with the same id.
pub open spec fn with_client(s: Seq<DatagramClient>, c: DatagramClient) -> Seq<DatagramClient> {
    if exists|i: int| 0 <= i < s.len() && #[trigger] s[i].client_id == c.client_id {
        s.update(choose|i: int| 0 <= i < s.len() && #[trigger] s[i].client_id == c.client_id, c)
    } else {
        s.push(c)
    }
}

/// The table after removing the client with this id.
pub open spec fn without_client(s: Seq<DatagramClient>, id: u32) -> Seq<DatagramClient> {
    s.filter(|c: DatagramClient| c.client_id != id)
}

/// No two clients share an id.
pub open spec fn distinct_ids(s: Seq<DatagramClient>) -> bool {
    forall|i: int, j: int| 0 <= i < j < s.len() ==> #[trigger] s[i].client_id != #[trigger] s[j].client_id
}

/// The position of the client with this id.
fn index_of_id(clients: &Vec<DatagramClient>, id: u32) -> (r: Option<usize>)
    ensures
        r matches Some(i) ==> i < clients@.len() && clients@[i as int].client_id == id,
        r is None ==> forall|i: int| 0 <= i < clients@.len() ==> #[trigger] clients@[i].client_id != id,
{
    let n = clients.len();
    let mut i: usize = 0;
    while i < n
        invariant
            n == clients@.len(),
            i <= n,
            forall|j: int| 0 <= j < i ==> #[trigger] clients@[j].client_id != id,
        decreases n - i,
    {
        if clients[i].client_id == id {
            return Some(i);
        }
        i = i + 1;
    }
    None
}

/// Adds a client, replacing the one with the same id.
fn insert_client(clients: &mut Vec<DatagramClient>, c: DatagramClient)
    requires
        distinct_ids(old(clients)@),
    ensures
        distinct_ids(final(clients)@),
        final(clients)@ == with_client(old(clients)@, c),
{
    let ghost s = clients@;
    match index_of_id(clients, c.client_id) {
        Some(i) => {
            proof {
                let k = choose|k: int| 0 <= k < s.len() && #[trigger] s[k].client_id == c.client_id;
                if k != i {
                    if k < i {
                        assert(s[k].client_id != s[i as int].client_id);
                    } else {
                        assert(s[i as int].client_id != s[k].client_id);
                    }
                }
            }
            clients.set(i, c);
            assert forall|a: int, b: int| 0 <= a < b < clients@.len()
                implies #[trigger] clients@[a].client_id != #[trigger] clients@[b].client_id by {
                assert(s[a].client_id != s[b].client_id);
            }
        },
        None => {
            clients.push(c);
            assert forall|a: int, b: int| 0 <= a < b < clients@.len()
                implies #[trigger] clients@[a].client_id != #[trigger] clients@[b].client_id by {
                if b < s.len() {
                    assert(s[a].client_id != s[b].client_id);
                }
            }
        },
    }
}

/// Removes the client with this id, if there is one.
fn remove_client(clients: &mut Vec<DatagramClient>, id: u32) -> (r: Option<DatagramClient>)
    requires
        distinct_ids(old(clients)@),
    ensures
        distinct_ids(final(clients)@),
        final(clients)@ == without_client(old(clients)@, id),
        r is None <==> forall|i: int| 0 <= i < old(clients)@.len() ==> #[trigger] old(clients)@[i].client_id != id,
        r matches Some(c) ==> c.client_id == id && old(clients)@.contains(c),
{
    let ghost s = clients@;
    match index_of_id(clients, id) {
        Some(i) => {
            let c = clients.remove(i);
            proof {
                assert(s[i as int] == c);
                assert forall|k: int| 0 <= k < s.len() && k != i implies #[trigger] s[k].client_id != id by {
                    if k < i {
                        assert(s[k].client_id != s[i as int].client_id);
                    } else {
                        assert(s[i as int].client_id != s[k].client_id);
                    }
                }
                lemma_filter_without_one(s, id, i as int);
            }
            assert forall|a: int, b: int| 0 <= a < b < clients@.len()
                implies #[trigger] clients@[a].client_id != #[trigger] clients@[b].client_id by {
                let a0 = if a < i { a } else { a + 1 };
                let b0 = if b < i { b } else { b + 1 };
                assert(s[a0].client_id != s[b0].client_id);
            }
            Some(c)
        },
        None => {
            proof {
                lemma_filter_keeps_all(s, id);
            }
            None
        },
    }
}

impl DatagramServer {
    pub closed spec fn spec_clients(&self) -> Seq<DatagramClient> {
        self.clients@
    }

    pub closed spec fn spec_next_client_id(&self) -> u32 {
        self.next_client_id
    }

    /// No two clients share an id; every operation keeps this so.
    #[verifier::type_invariant]
    pub open spec fn wf(&self) -> bool {
        distinct_ids(self.spec_clients())
    }

    /// No clients; they are numbered from 1.
    pub fn new() -> (r: Self)
        ensures
            r.wf(),
            r.spec_clients().len() == 0,
            r.spec_next_client_id() == 1,
    {
        DatagramServer { clients: Vec::new(), next_client_id: 1 }
    }

    fn has_addr(&self, addr: PeerAddr) -> (r: bool)
        ensures
            r == exists|i: int| 0 <= i < self.spec_clients().len() && #[trigger] self.spec_clients()[i].addr == addr,
    {
        let n = self.clients.len();
        let mut i: usize = 0;
        while i < n
            invariant
                n == self.clients@.len(),
                i <= n,
                forall|j: int| 0 <= j < i ==> #[trigger] self.clients@[j].addr != addr,
            decreases n - i,
        {
            if self.clients[i].addr == addr {
                assert(self.spec_clients()[i as int].addr == addr);
                return true;
            }
            i = i + 1;
        }
        false
    }

    /// Handles one received datagram. A header shorter than 15 bytes or a
    /// refused header changes nothing. A handshake from an address not yet
    /// registered registers it under the next client id (ids wrap around)
    /// and answers with a handshake header carrying that id; from a known
    /// address it changes nothing. A keep-alive is answered with the same id
    /// and sequence. A disconnect removes the client with the header's id.
    pub fn on_datagram(&mut self, data: &[u8], src: PeerAddr) -> (r: DatagramOutcome)
        ensures
            final(self).wf(),
            data@.len() < 15 ==> r is TooShort && *final(self) == *old(self),
            data@.len() >= 15 && spec_parse_header(data@) is Err ==> r == DatagramOutcome::Malformed(
                spec_parse_header(data@)->Err_0,
            ) && *final(self) == *old(self),
            data@.len() >= 15 && spec_parse_header(data@) is Ok ==> {
                let h = spec_parse_header(data@)->Ok_0;
                let known = exists|i: int| 0 <= i < old(self).spec_clients().len() && #[trigger] old(self).spec_clients()[i].addr == src;
                match h.packet_type {
                    PacketType::Handshake => if known {
                        r is AlreadyRegistered && *final(self) == *old(self)
                    } else {
                        let id = old(self).spec_next_client_id();
                        &&& r matches DatagramOutcome::Registered { client_id, reply }
                        &&& client_id == id
                        &&& reply@ == spec_header_bytes(VpnPacket { magic: PROTOCOL_MAGIC, packet_type: PacketType::Handshake, client_id: id, sequence: 0, length: 0 })
                        &&& final(self).spec_next_client_id() == id.wrapping_add(1)
                        &&& final(self).spec_clients() == with_client(old(self).spec_clients(), DatagramClient { addr: src, client_id: id, sequence: 0 })
                    },
                    PacketType::Data => r == (DatagramOutcome::DataReceived { client_id: h.client_id, length: h.length })
                        && *final(self) == *old(self),
                    PacketType::KeepAlive => (r matches DatagramOutcome::KeepAliveReply(reply)
                        && reply@ == spec_header_bytes(VpnPacket { magic: PROTOCOL_MAGIC, packet_type: PacketType::KeepAlive, client_id: h.client_id, sequence: h.sequence, length: 0 }))
                        && *final(self) == *old(self),
                    PacketType::Disconnect => r matches DatagramOutcome::Disconnected(removed)
                        && final(self).spec_clients() == without_client(old(self).spec_clients(), h.client_id)
                        && final(self).spec_next_client_id() == old(self).spec_next_client_id()
                        && (removed is None <==> forall|i: int| 0 <= i < old(self).spec_clients().len() ==> #[trigger] old(self).spec_clients()[i].client_id != h.client_id)
                        && (removed matches Some(c) ==> c.client_id == h.client_id && old(self).spec_clients().contains(c)),
                }
            },
    {
        proof {
            use_type_invariant(&*self);
        }
        if data.len() < VpnPacket::HEADER_SIZE {
            return DatagramOutcome::TooShort;
        }
        let header = match VpnPacket::from_bytes(data) {
            Ok(h) => h,
            Err(e) => {
                return DatagramOutcome::Malformed(e);
            },
        };
        match header.packet_type {
            PacketType::Handshake => {
                if self.has_addr(src) {
                    DatagramOutcome::AlreadyRegistered
                } else {
                    let client_id = self.next_client_id;
                    let mut clients: Vec<DatagramClient> = Vec::new();
                    std::mem::swap(&mut clients, &mut self.clients);
                    insert_client(&mut clients, DatagramClient { addr: src, client_id, sequence: 0 });
                    self.clients = clients;
                    self.next_client_id = self.next_client_id.wrapping_add(1);
                    let reply = VpnPacket::new(PacketType::Handshake, client_id, 0, 0).to_bytes();
                    DatagramOutcome::Registered { client_id, reply }
                }
            },
            PacketType::Data => DatagramOutcome::DataReceived { client_id: header.client_id, length: header.length },
            PacketType::KeepAlive => {
                let reply = VpnPacket::new(PacketType::KeepAlive, header.client_id, header.sequence, 0).to_bytes();
                DatagramOutcome::KeepAliveReply(reply)
            },
            PacketType::Disconnect => {
                let mut clients: Vec<DatagramClient> = Vec::new();
                std::mem::swap(&mut clients, &mut self.clients);
                let removed = remove_client(&mut clients, header.client_id);
                self.clients = clients;
                DatagramOutcome::Disconnected(removed)
            },
        }
    }
}

impl DatagramServer {
    /// The frames that carry one tunnel packet to every client: a data
    /// header with the client's id and next sequence number and the packet's
    /// length (as 16 bits), then the packet.
    pub fn tun_frames(&self, packet: &[u8]) -> (r: Vec<(PeerAddr, u32, Vec<u8>)>)
        ensures
            r@.len() == self.spec_clients().len(),
            forall|k: int| 0 <= k < r@.len() ==> {
                let c = #[trigger] self.spec_clients()[k];
                &&& r@[k].0 == c.addr
                &&& r@[k].1 == c.client_id
                &&& r@[k].2@ == spec_header_bytes(VpnPacket {
                    magic: PROTOCOL_MAGIC,
                    packet_type: PacketType::Data,
                    client_id: c.client_id,
                    sequence: c.sequence,
                    length: packet@.len() as u16,
                }) + packet@
            },
    {
        let n = self.clients.len();
        let length = packet.len() as u16;
        let mut frames: Vec<(PeerAddr, u32, Vec<u8>)> = Vec::new();
        let mut i: usize = 0;
        while i < n
            invariant
                n == self.clients@.len(),
                i <= n,
                length == packet@.len() as u16,
                frames@.len() == i,
                forall|k: int| 0 <= k < i ==> {
                    let c = #[trigger] self.spec_clients()[k];
                    &&& frames@[k].0 == c.addr
                    &&& frames@[k].1 == c.client_id
                    &&& frames@[k].2@ == spec_header_bytes(VpnPacket {
                        magic: PROTOCOL_MAGIC,
                        packet_type: PacketType::Data,
                        client_id: c.client_id,
                        sequence: c.sequence,
                        length: packet@.len() as u16,
                    }) + packet@
                },
            decreases n - i,
        {
            let c = self.clients[i];
            let header = VpnPacket::new(PacketType::Data, c.client_id, c.sequence, length).to_bytes();
            let mut frame: Vec<u8> = Vec::new();
            frame.extend_from_slice(&header);
            frame.extend_from_slice(packet);
            assert(frame@ =~= header@ + packet@);
            frames.push((c.addr, c.client_id, frame));
            i = i + 1;
        }
        frames
    }

    /// Advances the sequence number of the client with this id, after a
    /// frame was sent to it.
    pub fn mark_sent(&mut self, client_id: u32)
        requires
            forall|i: int| 0 <= i < old(self).spec_clients().len() && #[trigger] old(self).spec_clients()[i].client_id == client_id
                ==> old(self).spec_clients()[i].sequence < u32::MAX,
        ensures
            final(self).wf(),
            final(self).spec_next_client_id() == old(self).spec_next_client_id(),
            final(self).spec_clients().len() == old(self).spec_clients().len(),
            forall|i: int| 0 <= i < final(self).spec_clients().len() ==> {
                let c = #[trigger] old(self).spec_clients()[i];
                final(self).spec_clients()[i] == if c.client_id == client_id {
                    DatagramClient { sequence: (c.sequence + 1) as u32, ..c }
                } else {
                    c
                }
            },
    {
        proof {
            use_type_invariant(&*self);
        }
        let ghost s = self.clients@;
        if let Some(i) = index_of_id(&self.clients, client_id) {
            let c = self.clients[i];
            let mut clients: Vec<DatagramClient> = Vec::new();
            std::mem::swap(&mut clients, &mut self.clients);
            clients.set(i, DatagramClient { sequence: c.sequence + 1, ..c });
            proof {
                assert forall|k: int| 0 <= k < s.len() && k != i implies #[trigger] s[k].client_id != client_id by {
                    if k < i {
                        assert(s[k].client_id != s[i as int].client_id);
                    } else {
                        assert(s[i as int].client_id != s[k].client_id);
                    }
                }
            }
            assert forall|a: int, b: int| 0 <= a < b < clients@.len()
                implies #[trigger] clients@[a].client_id != #[trigger] clients@[b].client_id by {
                assert(s[a].client_id != s[b].client_id);
            }
            self.clients = clients;
        }
    }

    /// The sequence number of the client with this id.
    pub fn sequence_of(&self, client_id: u32) -> (r: Option<u32>)
        ensures
            r is None <==> forall|i: int| 0 <= i < self.spec_clients().len() ==> #[trigger] self.spec_clients()[i].client_id != client_id,
            r matches Some(q) ==> exists|i: int| 0 <= i < self.spec_clients().len() && #[trigger] self.spec_clients()[i].client_id == client_id
                && self.spec_clients()[i].sequence == q,
    {
        match index_of_id(&self.clients, client_id) {
            Some(i) => Some(self.clients[i].sequence),
            None => None,
        }
    }
}

/// A client that registers under an id no other client has, and then
/// leaves, leaves the table as it was.
pub proof fn lemma_register_then_leave(s: Seq<DatagramClient>, c: DatagramClient)
    requires
        forall|i: int| 0 <= i < s.len() ==> #[trigger] s[i].client_id != c.client_id,
    ensures
        without_client(with_client(s, c), c.client_id) == s,
{
    reveal_with_fuel(Seq::filter, 1);
    assert(with_client(s, c) == s.push(c));
    assert(s.push(c).drop_last() =~= s);
    lemma_filter_keeps_all(s, c.client_id);
}

proof fn lemma_filter_keeps_all(s: Seq<DatagramClient>, id: u32)
    requires
        forall|i: int| 0 <= i < s.len() ==> #[trigger] s[i].client_id != id,
    ensures
        without_client(s, id) == s,
    decreases s.len(),
{
    reveal_with_fuel(Seq::filter, 1);
    if s.len() > 0 {
        lemma_filter_keeps_all(s.drop_last(), id);
        assert(s.drop_last().push(s.last()) =~= s);
    }
}

proof fn lemma_filter_without_one(s: Seq<DatagramClient>, id: u32, i: int)
    requires
        0 <= i < s.len(),
        s[i].client_id == id,
        forall|k: int| 0 <= k < s.len() && k != i ==> #[trigger] s[k].client_id != id,
    ensures
        without_client(s, id) == s.remove(i),
    decreases s.len(),
{
    reveal_with_fuel(Seq::filter, 1);
    if i == s.len() - 1 {
        lemma_filter_keeps_all(s.drop_last(), id);
        assert(s.remove(i) =~= s.drop_last());
    } else {
        lemma_filter_without_one(s.drop_last(), id, i);
        assert(s.drop_last().remove(i).push(s.last()) =~= s.remove(i));
    }
}

} // verus!
