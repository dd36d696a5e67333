//! The stream server's decisions: what a received message asks for, and the
//! session table that handshakes fill and disconnects and expiry empty.
use crate::codec::codec::{Handshake, Message, Msg, TunConfig};
use crate::endian::{be32, be32_bytes, lemma_be32_bytes_of_value};
use crate::peer::PeerAddr;
use crate::text::{decimal, text_eq, usize_to_text};
use vstd::prelude::*;
use vstd::pervasive::VecAdditionalExecFns;

verus! {

/// Whether a client's token is accepted: any token when the server has none,
/// otherwise only the server's own.
pub open spec fn spec_token_valid(token: Seq<char>, server_token: Seq<char>) -> bool {
    server_token.len() == 0 || token == server_token
}

pub fn validate_token(token: &str, server_token: &str) -> (r: bool)
    ensures
        r == spec_token_valid(token@, server_token@),
{
    if server_token.is_empty() {
        return true;
    }
    text_eq(token, server_token)
}

/// The destination of an IPv4 packet: bytes 16 to 19 of a header of at least
/// 20 bytes whose version nibble is 4.
pub open spec fn spec_destination_ip(data: Seq<u8>) -> Option<u32> {
    if data.len() < 20 || data[0] / 16 != 4 {
        None
    } else {
        Some((data[16] as int * 0x100_0000 + data[17] as int * 0x1_0000 + data[18] as int * 0x100
            + data[19] as int) as u32)
    }
}

pub fn get_destination_ip(data: &[u8]) -> (r: Option<u32>)
    ensures
        r == spec_destination_ip(data@),
{
    if data.len() < 20 {
        return None;
    }
    let first = data[0];
    let version = first >> 4;
    assert(first >> 4 == first / 16) by (bit_vector);
    if version != 4 {
        return None;
    }
    Some(crate::endian::u32_from_be_bytes([data[16], data[17], data[18], data[19]]))
}

/// The destination read from an IPv4 header is the number whose four
/// big-endian bytes are the header's bytes 16 to 19, in order; a buffer
/// shorter than a header, or of another IP version, has none.
pub proof fn lemma_destination_bytes(data: Seq<u8>)
    ensures
        (data.len() >= 20 && data[0] / 16 == 4) ==> (spec_destination_ip(data) matches Some(v)
            && be32_bytes(v) == data.subrange(16, 20)),
        !(data.len() >= 20 && data[0] / 16 == 4) ==> spec_destination_ip(data) is None,
{
    if data.len() >= 20 && data[0] / 16 == 4 {
        let b: [u8; 4] = [data[16], data[17], data[18], data[19]];
        lemma_be32_bytes_of_value(b);
        assert(spec_destination_ip(data) == Some(be32(b)));
        assert(b@ =~= data.subrange(16, 20));
    }
}

/// What the server does with a received message.
#[derive(Debug, Clone)]
pub enum ServerAction {
    /// A handshake; empty fields count as absent.
    Handshake { session_id: Option<String>, token: Option<String> },
    /// Hand the payload to the tunnel device.
    Forward(Vec<u8>),
    /// Echo a keep-alive with the same timestamp.
    ReplyKeepAlive(i64),
    /// Drop the sender's session.
    Disconnect(String),
    /// A message of unknown kind.
    Unknown,
}

/// A text, or `None` when it is empty.
pub open spec fn nonempty(s: String) -> Option<String> {
    if s@.len() == 0 {
        None
    } else {
        Some(s)
    }
}

pub open spec fn spec_server_action(msg: Message) -> ServerAction {
    match msg.msg {
        Some(Msg::Handshake(h)) => ServerAction::Handshake {
            session_id: nonempty(h.session_id),
            token: nonempty(h.token),
        },
        Some(Msg::Data(d)) => ServerAction::Forward(d.payload),
        Some(Msg::Keepalive(k)) => ServerAction::ReplyKeepAlive(k.timestamp),
        Some(Msg::Disconnect(d)) => ServerAction::Disconnect(d.reason),
        None => ServerAction::Unknown,
    }
}

fn nonempty_text(s: String) -> (r: Option<String>)
    ensures
        r == nonempty(s),
{
    if s.as_str().is_empty() {
        None
    } else {
        Some(s)
    }
}

/// What a received message asks of the server.
pub fn server_action(msg: Message) -> (r: ServerAction)
    ensures
        r == spec_server_action(msg),
{
    match msg.msg {
        Some(Msg::Handshake(h)) => ServerAction::Handshake {
            session_id: nonempty_text(h.session_id),
            token: nonempty_text(h.token),
        },
        Some(Msg::Data(d)) => ServerAction::Forward(d.payload),
        Some(Msg::Keepalive(k)) => ServerAction::ReplyKeepAlive(k.timestamp),
        Some(Msg::Disconnect(d)) => ServerAction::Disconnect(d.reason),
        None => ServerAction::Unknown,
    }
}

/// The characters of nanoid's URL-safe alphabet: letters, digits, '_' and '-'.
pub open spec fn is_session_id_char(c: char) -> bool {
    ('a' <= c && c <= 'z') || ('A' <= c && c <= 'Z') || ('0' <= c && c <= '9') || c == '_' || c == '-'
}

/// Trusted: `nanoid::format(nanoid::rngs::default, &nanoid::alphabet::SAFE, 21)`
/// (what `nanoid!(21)` expands to). The identifier is random; what the
/// source shows of every outcome is stated: 21 characters, each from the
/// `SAFE` alphabet.
#[verifier::external_body]
pub(crate) fn build_session_id() -> (r: String)
    ensures
        r@.len() == 21,
        forall|i: int| 0 <= i < r@.len() ==> is_session_id_char(#[trigger] r@[i]),
{
    nanoid::format(nanoid::rngs::default, &nanoid::alphabet::SAFE, 21)
}

/// A connected client.
pub struct Session<T> {
    pub session_id: String,
    pub addr: PeerAddr,
    /// The client's address inside the tunnel.
    pub virtual_ip: u32,
    /// Where packets for this client go.
    pub tx: T,
    pub tun_config: TunConfig,
    /// When the client was last registered, in nanoseconds since the Unix epoch.
    pub last_seen: u128,
}

/// Sessions keyed by their id, and the counter that numbers new clients.
pub struct ServerState<T> {
    sessions: Vec<Session<T>>,
    next_client_id: u32,
}

/// The tunnel address given to client number `id`: 10.0.0.x with x the low byte of `id`.
pub open spec fn spec_virtual_ip(id: u32) -> u32 {
    (0x0A00_0000 + id % 256) as u32
}

/// The plan handed to a new client number `id`.
pub open spec fn is_new_tun_config(c: TunConfig, id: u32) -> bool {
    &&& c.name@ == "tun"@ + decimal(id as nat)
    &&& c.address@ == "10.0.0."@ + decimal((id % 256) as nat)
    &&& c.netmask@ == "255.255.255.0"@
    &&& c.dns@.len() == 2
    &&& c.dns@[0]@ == "114.114.114.114"@
    &&& c.dns@[1]@ == "8.8.8.8"@
    &&& c.mtu == 1400
}

/// How a handshake is answered.
pub enum HandshakeReply {
    /// The token was refused.
    Rejected,
    /// The client is in, under this session.
    Granted { session_id: String, virtual_ip: u32, tun_config: TunConfig },
}

/// How a handshake will be answered, before any new session is made.
pub enum HandshakePlan {
    Reject,
    /// Continue the session at this position in the table.
    Resume(usize),
    Create,
}

/// A session must last have been seen less than an hour before `now`;
/// one seen after `now` is expired too.
pub open spec fn spec_session_live(last_seen: u128, now: u128) -> bool {
    last_seen <= now && now - last_seen < 3_600_000_000_000
}

impl<T> ServerState<T> {
    pub closed spec fn spec_sessions(&self) -> Seq<Session<T>> {
        self.sessions@
    }

    pub closed spec fn spec_next_client_id(&self) -> u32 {
        self.next_client_id
    }

    /// No two sessions share an id; every operation keeps this so.
    #[verifier::type_invariant]
    pub open spec fn wf(&self) -> bool {
        forall|i: int, j: int| 0 <= i < j < self.spec_sessions().len()
            ==> #[trigger] self.spec_sessions()[i].session_id@ != #[trigger] self.spec_sessions()[j].session_id@
    }

    /// The position of the session with this id, if any.
    pub open spec fn spec_index_of(&self, id: Seq<char>) -> Option<int> {
        if exists|i: int| 0 <= i < self.spec_sessions().len() && #[trigger] self.spec_sessions()[i].session_id@ == id {
            Some(choose|i: int| 0 <= i < self.spec_sessions().len() && #[trigger] self.spec_sessions()[i].session_id@ == id)
        } else {
            None
        }
    }

    /// No sessions; clients are numbered from 1.
    pub fn new() -> (r: Self)
        ensures
            r.wf(),
            r.spec_sessions().len() == 0,
            r.spec_next_client_id() == 1,
    {
        ServerState { sessions: Vec::new(), next_client_id: 1 }
    }

    /// Takes the next client number; numbers wrap around after `u32::MAX`.
    pub fn allocate_client_id(&mut self) -> (r: u32)
        ensures
            r == old(self).spec_next_client_id(),
            final(self).spec_next_client_id() == old(self).spec_next_client_id().wrapping_add(1),
            final(self).spec_sessions() == old(self).spec_sessions(),
    {
        proof {
            use_type_invariant(&*self);
        }
        let id = self.next_client_id;
        self.next_client_id = self.next_client_id.wrapping_add(1);
        id
    }

    pub fn session_count(&self) -> (r: usize)
        ensures
            r == self.spec_sessions().len(),
    {
        self.sessions.len()
    }

    /// The position of the session with this id.
    pub fn index_of(&self, id: &str) -> (r: Option<usize>)
        ensures
            r matches Some(i) ==> self.spec_index_of(id@) == Some(i as int),
            r is None ==> self.spec_index_of(id@) is None,
    {
        proof {
            use_type_invariant(self);
        }
        let n = self.sessions.len();
        let mut i: usize = 0;
        while i < n
            invariant
                n == self.sessions@.len(),
                i <= n,
                self.wf(),
                forall|j: int| 0 <= j < i ==> #[trigger] self.sessions@[j].session_id@ != id@,
            decreases n - i,
        {
            if text_eq(self.sessions[i].session_id.as_str(), id) {
                assert(self.spec_sessions()[i as int].session_id@ == id@);
                let ghost c = choose|k: int| 0 <= k < self.spec_sessions().len() && #[trigger] self.spec_sessions()[k].session_id@ == id@;
                assert(c == i) by {
                    if c != i {
                        if c < i {
                            assert(self.spec_sessions()[c].session_id@ != self.spec_sessions()[i as int].session_id@);
                        } else {
                            assert(self.spec_sessions()[i as int].session_id@ != self.spec_sessions()[c].session_id@);
                        }
                    }
                }
                return Some(i);
            }
            i = i + 1;
        }
        None
    }

    /// The session with this id.
    pub fn find_session(&self, id: &str) -> (r: Option<&Session<T>>)
        ensures
            match self.spec_index_of(id@) {
                Some(i) => r == Some(&self.spec_sessions()[i]),
                None => r is None,
            },
    {
        match self.index_of(id) {
            Some(i) => Some(&self.sessions[i]),
            None => None,
        }
    }

    /// How to answer a handshake: a refused token is rejected; a known
    /// session id resumes that session; anything else makes a new session.
    pub fn plan_handshake(&self, server_token: &str, session_id: Option<&str>, token: Option<&str>) -> (r: HandshakePlan)
        ensures
            (token matches Some(t) && !spec_token_valid(t@, server_token@)) ==> r is Reject,
            !(token matches Some(t) && !spec_token_valid(t@, server_token@)) ==> match session_id {
                Some(id) => match self.spec_index_of(id@) {
                    Some(i) => r matches HandshakePlan::Resume(j) && j == i,
                    None => r is Create,
                },
                None => r is Create,
            },
    {
        if let Some(t) = token {
            if !validate_token(t, server_token) {
                return HandshakePlan::Reject;
            }
        }
        match session_id {
            Some(id) => match self.index_of(id) {
                Some(i) => HandshakePlan::Resume(i),
                None => HandshakePlan::Create,
            },
            None => HandshakePlan::Create,
        }
    }

    /// Numbers a new client and makes its tunnel address and plan.
    pub fn new_client_plan(&mut self) -> (r: (u32, TunConfig))
        ensures
            final(self).spec_sessions() == old(self).spec_sessions(),
            final(self).spec_next_client_id() == old(self).spec_next_client_id().wrapping_add(1),
            r.0 == spec_virtual_ip(old(self).spec_next_client_id()),
            is_new_tun_config(r.1, old(self).spec_next_client_id()),
    {
        let id = self.allocate_client_id();
        let low = id % 256;
        let virtual_ip: u32 = 0x0A00_0000 + low;
        let mut name = "tun".to_string();
        let id_text = usize_to_text(id as usize);
        name.append(id_text.as_str());
        let mut address = "10.0.0.".to_string();
        let low_text = usize_to_text(low as usize);
        address.append(low_text.as_str());
        let mut dns: Vec<String> = Vec::new();
        dns.push("114.114.114.114".to_string());
        dns.push("8.8.8.8".to_string());
        let tun_config = TunConfig { name, address, netmask: "255.255.255.0".to_string(), dns, mtu: 1400 };
        (virtual_ip, tun_config)
    }

    /// Answers a handshake. A refused token is rejected; a known session id
    /// keeps its session's address and plan; otherwise a new client number,
    /// tunnel address, plan and random session id are made. The table itself
    /// only changes when the answer is sent and `register` is called.
    pub fn handshake(&mut self, server_token: &str, session_id: Option<&str>, token: Option<&str>) -> (r: HandshakeReply)
        ensures
            final(self).spec_sessions() == old(self).spec_sessions(),
            (token matches Some(t) && !spec_token_valid(t@, server_token@)) ==> (r is Rejected
                && final(self).spec_next_client_id() == old(self).spec_next_client_id()),
            !(token matches Some(t) && !spec_token_valid(t@, server_token@)) ==> match session_id {
                Some(id) if old(self).spec_index_of(id@) is Some => {
                    let s = old(self).spec_sessions()[old(self).spec_index_of(id@)->0];
                    &&& r matches HandshakeReply::Granted { session_id: sid, virtual_ip, tun_config }
                    &&& sid@ == id@
                    &&& virtual_ip == s.virtual_ip
                    &&& tun_config.same_as(&s.tun_config)
                    &&& final(self).spec_next_client_id() == old(self).spec_next_client_id()
                },
                _ => {
                    &&& r matches HandshakeReply::Granted { session_id: sid, virtual_ip, tun_config }
                    &&& sid@.len() == 21
                    &&& forall|i: int| 0 <= i < sid@.len() ==> is_session_id_char(#[trigger] sid@[i])
                    &&& virtual_ip == spec_virtual_ip(old(self).spec_next_client_id())
                    &&& is_new_tun_config(tun_config, old(self).spec_next_client_id())
                    &&& final(self).spec_next_client_id() == old(self).spec_next_client_id().wrapping_add(1)
                },
            },
    {
        match self.plan_handshake(server_token, session_id, token) {
            HandshakePlan::Reject => HandshakeReply::Rejected,
            HandshakePlan::Resume(i) => {
                let s = &self.sessions[i];
                let id = match session_id {
                    Some(id) => id.to_string(),
                    None => s.session_id.clone(),
                };
                HandshakeReply::Granted { session_id: id, virtual_ip: s.virtual_ip, tun_config: s.tun_config.clone() }
            },
            HandshakePlan::Create => {
                let sid = build_session_id();
                let (virtual_ip, tun_config) = self.new_client_plan();
                HandshakeReply::Granted { session_id: sid, virtual_ip, tun_config }
            },
        }
    }

    /// Adds a session, replacing one with the same id.
    pub fn register(&mut self, session: Session<T>)
        ensures
            final(self).wf(),
            final(self).spec_next_client_id() == old(self).spec_next_client_id(),
            match old(self).spec_index_of(session.session_id@) {
                Some(i) => final(self).spec_sessions() == old(self).spec_sessions().update(i, session),
                None => final(self).spec_sessions() == old(self).spec_sessions().push(session),
            },
    {
        proof {
            use_type_invariant(&*self);
        }
        let ghost old_sessions = self.sessions@;
        let found = self.index_of(session.session_id.as_str());
        let mut sessions: Vec<Session<T>> = Vec::new();
        std::mem::swap(&mut sessions, &mut self.sessions);
        match found {
            Some(i) => {
                sessions.set(i, session);
                assert forall|a: int, b: int| 0 <= a < b < sessions@.len()
                    implies #[trigger] sessions@[a].session_id@ != #[trigger] sessions@[b].session_id@ by {
                    assert(old_sessions[a].session_id@ != old_sessions[b].session_id@);
                }
            },
            None => {
                sessions.push(session);
                assert forall|a: int, b: int| 0 <= a < b < sessions@.len()
                    implies #[trigger] sessions@[a].session_id@ != #[trigger] sessions@[b].session_id@ by {
                    if b == old_sessions.len() {
                        assert(old_sessions[a].session_id@ != session.session_id@);
                    }
                }
            },
        }
        self.sessions = sessions;
    }

    /// Drops the first session of a peer, if it has one.
    pub fn disconnect(&mut self, addr: PeerAddr) -> (r: Option<Session<T>>)
        ensures
            final(self).wf(),
            final(self).spec_next_client_id() == old(self).spec_next_client_id(),
            (forall|i: int| 0 <= i < old(self).spec_sessions().len() ==> #[trigger] old(self).spec_sessions()[i].addr != addr)
                <==> r is None,
            r is None ==> final(self).spec_sessions() == old(self).spec_sessions(),
            r is Some ==> exists|i: int| #[trigger] first_with_addr(old(self).spec_sessions(), addr, i)
                && r == Some(old(self).spec_sessions()[i])
                && final(self).spec_sessions() == old(self).spec_sessions().remove(i),
    {
        proof {
            use_type_invariant(&*self);
        }
        let ghost before = self.sessions@;
        let n = self.sessions.len();
        let mut i: usize = 0;
        while i < n
            invariant
                n == self.sessions@.len(),
                i <= n,
                self.sessions@ == before,
                before == old(self).sessions@,
                old(self).wf(),
                self.next_client_id == old(self).next_client_id,
                forall|j: int| 0 <= j < i ==> #[trigger] self.sessions@[j].addr != addr,
            decreases n - i,
        {
            if self.sessions[i].addr == addr {
                let mut sessions: Vec<Session<T>> = Vec::new();
                std::mem::swap(&mut sessions, &mut self.sessions);
                let s = sessions.remove(i);
                assert(old(self).spec_sessions()[i as int].addr == addr);
                assert(first_with_addr(old(self).spec_sessions(), addr, i as int));
                assert(s == old(self).spec_sessions()[i as int]);
                assert(sessions@ == old(self).spec_sessions().remove(i as int));
                assert forall|a: int, b: int| 0 <= a < b < sessions@.len()
                    implies #[trigger] sessions@[a].session_id@ != #[trigger] sessions@[b].session_id@ by {
                    let a0 = if a < i { a } else { a + 1 };
                    let b0 = if b < i { b } else { b + 1 };
                    assert(before[a0].session_id@ != before[b0].session_id@);
                }
                self.sessions = sessions;
                return Some(s);
            }
            i = i + 1;
        }
        None
    }

    /// The session whose tunnel address is the destination of an IPv4 packet.
    pub fn session_for_packet(&self, data: &[u8]) -> (r: Option<&Session<T>>)
        ensures
            spec_destination_ip(data@) is None ==> r is None,
            r is None && spec_destination_ip(data@) is Some ==> forall|i: int| 0 <= i < self.spec_sessions().len()
                ==> #[trigger] self.spec_sessions()[i].virtual_ip != spec_destination_ip(data@)->0,
            r matches Some(s) ==> exists|i: int| #[trigger] first_with_ip(self.spec_sessions(), spec_destination_ip(data@)->0, i)
                && *s == self.spec_sessions()[i],
    {
        let ip = match get_destination_ip(data) {
            Some(ip) => ip,
            None => {
                return None;
            },
        };
        let n = self.sessions.len();
        let mut i: usize = 0;
        while i < n
            invariant
                n == self.sessions@.len(),
                i <= n,
                spec_destination_ip(data@) == Some(ip),
                forall|j: int| 0 <= j < i ==> #[trigger] self.sessions@[j].virtual_ip != ip,
            decreases n - i,
        {
            if self.sessions[i].virtual_ip == ip {
                assert(first_with_ip(self.spec_sessions(), ip, i as int));
                let s = &self.sessions[i];
                assert(*s == self.spec_sessions()[i as int]);
                assert(spec_destination_ip(data@)->0 == ip);
                assert(first_with_ip(self.spec_sessions(), spec_destination_ip(data@)->0, i as int));
                assert(exists|k: int| #[trigger] first_with_ip(self.spec_sessions(), spec_destination_ip(data@)->0, k)
                    && *s == self.spec_sessions()[k]);
                return Some(s);
            }
            i = i + 1;
        }
        None
    }

    /// Drops every session not seen within the hour before `now`, keeping
    /// the others in order, and returns how many were dropped.
    pub fn cleanup_expired(&mut self, now: u128) -> (r: usize)
        ensures
            final(self).wf(),
            final(self).spec_next_client_id() == old(self).spec_next_client_id(),
            final(self).spec_sessions() == live_sessions(old(self).spec_sessions(), now),
            r == old(self).spec_sessions().len() - final(self).spec_sessions().len(),
    {
        proof {
            use_type_invariant(&*self);
        }
        let ghost old_sessions = self.sessions@;
        let n = self.sessions.len();
        let mut rest: Vec<Session<T>> = Vec::new();
        std::mem::swap(&mut rest, &mut self.sessions);
        let mut kept: Vec<Session<T>> = Vec::new();
        let ghost mut origin: Seq<int> = Seq::empty();
        while rest.len() > 0
            invariant
                n == old_sessions.len(),
                rest@ == old_sessions.take(rest@.len() as int),
                rest@.len() <= n,
                kept@ == live_sessions(old_sessions.skip(rest@.len() as int), now),
                kept@.len() <= n - rest@.len(),
                origin.len() == kept@.len(),
                forall|k: int| 0 <= k < kept@.len() ==> rest@.len() <= #[trigger] origin[k] < n
                    && kept@[k] == old_sessions[origin[k]],
                forall|k1: int, k2: int| 0 <= k1 < k2 < kept@.len() ==> #[trigger] origin[k1] < #[trigger] origin[k2],
                self.next_client_id == old(self).next_client_id,
            decreases rest@.len(),
        {
            let ghost k = rest@.len() - 1;
            let x = rest.pop().unwrap();
            assert(rest@ =~= old_sessions.take(k));
            assert(old_sessions.skip(k).drop_first() =~= old_sessions.skip(k + 1));
            assert(old_sessions.skip(k)[0] == x);
            if x.last_seen <= now && now - x.last_seen < 3_600_000_000_000 {
                kept.insert(0, x);
                proof {
                    origin = seq![k].add(origin);
                }
            }
        }
        assert(old_sessions.skip(0) =~= old_sessions);
        proof {
            assert forall|a: int, b: int| 0 <= a < b < kept@.len()
                implies #[trigger] kept@[a].session_id@ != #[trigger] kept@[b].session_id@ by {
                assert(old(self).wf());
                assert(origin[a] < origin[b]);
                assert(old_sessions[origin[a]].session_id@ != old_sessions[origin[b]].session_id@);
            }
        }
        self.sessions = kept;
        n - self.sessions.len()
    }
}

/// After a session is registered, looking its id up finds that session: a
/// read of the table gives back what was written to it.
pub proof fn lemma_register_then_find<T>(before: ServerState<T>, after: ServerState<T>, session: Session<T>)
    requires
        after.wf(),
        match before.spec_index_of(session.session_id@) {
            Some(i) => after.spec_sessions() == before.spec_sessions().update(i, session),
            None => after.spec_sessions() == before.spec_sessions().push(session),
        },
    ensures
        after.spec_index_of(session.session_id@) matches Some(j) && after.spec_sessions()[j] == session,
{
    let k = match before.spec_index_of(session.session_id@) {
        Some(i) => i,
        None => before.spec_sessions().len() as int,
    };
    let s = after.spec_sessions();
    assert(0 <= k < s.len() && s[k] == session);
    assert(s[k].session_id@ == session.session_id@);
    let j = choose|j: int| 0 <= j < s.len() && #[trigger] s[j].session_id@ == session.session_id@;
    if j != k {
        if j < k {
            assert(s[j].session_id@ != s[k].session_id@);
        } else {
            assert(s[k].session_id@ != s[j].session_id@);
        }
    }
}

/// Session `i` is the first of the peer's.
pub open spec fn first_with_addr<T>(s: Seq<Session<T>>, addr: PeerAddr, i: int) -> bool {
    &&& 0 <= i < s.len()
    &&& s[i].addr == addr
    &&& forall|j: int| 0 <= j < i ==> #[trigger] s[j].addr != addr
}

/// Session `i` is the first with this tunnel address.
pub open spec fn first_with_ip<T>(s: Seq<Session<T>>, ip: u32, i: int) -> bool {
    &&& 0 <= i < s.len()
    &&& s[i].virtual_ip == ip
    &&& forall|j: int| 0 <= j < i ==> #[trigger] s[j].virtual_ip != ip
}

/// The sessions still live at `now`, in their order.
pub open spec fn live_sessions<T>(s: Seq<Session<T>>, now: u128) -> Seq<Session<T>>
    decreases s.len(),
{
    if s.len() == 0 {
        Seq::empty()
    } else if spec_session_live(s[0].last_seen, now) {
        seq![s[0]] + live_sessions(s.drop_first(), now)
    } else {
        live_sessions(s.drop_first(), now)
    }
}

/// The handshake answer that the server sends: the empty handshake for a
/// refusal, otherwise the server's token, the session id and the plan.
pub fn reply_message(server_token: &str, reply: &HandshakeReply) -> (r: Message)
    ensures
        r.msg matches Some(Msg::Handshake(h)) && match reply {
            HandshakeReply::Rejected => h.token@.len() == 0 && h.session_id@.len() == 0 && h.tun_config is None,
            HandshakeReply::Granted { session_id, tun_config, .. } => h.token@ == server_token@
                && h.session_id@ == session_id@ && (h.tun_config matches Some(c) && c.same_as(tun_config)),
        },
{
    proof {
        reveal_strlit("");
    }
    match reply {
        HandshakeReply::Rejected => Message::handshake(Handshake {
            token: "".to_string(),
            session_id: "".to_string(),
            tun_config: None,
        }),
        HandshakeReply::Granted { session_id, tun_config, .. } => Message::handshake(Handshake {
            token: server_token.to_string(),
            session_id: session_id.clone(),
            tun_config: Some(tun_config.clone()),
        }),
    }
}

} // verus!
