//! Reading what is typed at the routing probe: packet descriptions
//! "src_ip,dst_ip,dst_port,protocol" and the probe's commands.
use crate::net::{parse_ipv4_addr, spec_parse_ipv4_addr};
use crate::proxy::texts;
use crate::routing::rule::{spec_protocol_from_lower, Protocol};
use crate::text::{parse_u16, spec_parse_u16, spec_to_lowercase, spec_trim, text_eq, to_lowercase, trim};
use vstd::prelude::*;
use vstd::string::*;

verus! {

/// The pieces of `s` between the occurrences of `c` (one more piece than
/// there are occurrences; pieces may be empty).
pub open spec fn split_on(s: Seq<char>, c: char) -> Seq<Seq<char>>
    decreases s.len(),
{
    if s.len() == 0 {
        seq![Seq::<char>::empty()]
    } else {
        let p = split_on(s.drop_last(), c);
        if s.last() == c {
            p.push(Seq::<char>::empty())
        } else {
            p.update(p.len() - 1, p.last().push(s.last()))
        }
    }
}

/// There is always at least one piece.
pub proof fn lemma_split_nonempty(s: Seq<char>, c: char)
    ensures
        split_on(s, c).len() >= 1,
    decreases s.len(),
{
    if s.len() > 0 {
        lemma_split_nonempty(s.drop_last(), c);
    }
}

/// Splits `s` at every `c`.
pub fn split_text(s: &str, c: char) -> (r: Vec<String>)
    ensures
        texts(r@) == split_on(s@, c),
{
    let n = s.unicode_len();
    let mut parts: Vec<String> = Vec::new();
    let mut start: usize = 0;
    let mut i: usize = 0;
    assert(texts(parts@) =~= Seq::<Seq<char>>::empty());
    assert(s@.take(0) =~= Seq::<char>::empty());
    assert(s@.subrange(0, 0) =~= Seq::<char>::empty());
    assert(texts(parts@).push(s@.subrange(0, 0)) =~= split_on(s@.take(0), c));
    while i < n
        invariant
            n == s@.len(),
            start <= i <= n,
            texts(parts@).push(s@.subrange(start as int, i as int)) == split_on(s@.take(i as int), c),
        decreases n - i,
    {
        proof {
            lemma_split_nonempty(s@.take(i as int), c);
            assert(s@.take(i + 1).drop_last() =~= s@.take(i as int));
        }
        if s.get_char(i) == c {
            let piece = s.substring_char(start, i).to_string();
            assert(texts(parts@.push(piece)) =~= texts(parts@).push(piece@));
            parts.push(piece);
            assert(s@.subrange(i + 1, i + 1) =~= Seq::<char>::empty());
            start = i + 1;
            assert(texts(parts@).push(s@.subrange(start as int, i + 1)) =~= split_on(s@.take(i + 1), c));
        } else {
            assert(s@.subrange(start as int, i + 1) =~= s@.subrange(start as int, i as int).push(s@[i as int]));
            assert(texts(parts@).push(s@.subrange(start as int, i + 1)) =~= split_on(s@.take(i + 1), c));
        }
        i = i + 1;
    }
    let last = s.substring_char(start, n).to_string();
    assert(texts(parts@.push(last)) =~= texts(parts@).push(last@));
    parts.push(last);
    assert(s@.take(n as int) =~= s@);
    parts
}

/// The protocol named in a packet description: "tcp", "udp" or "icmp" in any
/// case; anything else counts as TCP.
pub open spec fn protocol_or_tcp(s: Seq<char>) -> Protocol {
    match spec_protocol_from_lower(spec_to_lowercase(s)) {
        Some(p) => p,
        None => Protocol::Tcp,
    }
}

/// A packet description "src_ip,dst_ip[,dst_port[,protocol]]": two IPv4
/// addresses, then an optional destination port (absent when empty), then
/// an optional protocol (TCP when absent). Fields after the fourth are ignored.
pub open spec fn spec_parse_packet(s: Seq<char>) -> Option<(u32, u32, Option<u16>, Protocol)> {
    let parts = split_on(s, ',');
    if parts.len() < 2 {
        None
    } else {
        match (spec_parse_ipv4_addr(parts[0]), spec_parse_ipv4_addr(parts[1])) {
            (Some(src), Some(dst)) => {
                let port: Option<Option<u16>> = if parts.len() > 2 && parts[2].len() > 0 {
                    match spec_parse_u16(parts[2]) {
                        Some(p) => Some(Some(p)),
                        None => None,
                    }
                } else {
                    Some(None)
                };
                match port {
                    None => None,
                    Some(port) => Some((src, dst, port, if parts.len() > 3 { protocol_or_tcp(parts[3]) } else { Protocol::Tcp })),
                }
            },
            _ => None,
        }
    }
}

fn protocol_text_or_tcp(s: &str) -> (r: Protocol)
    ensures
        r == protocol_or_tcp(s@),
{
    let lower = to_lowercase(s);
    let l = lower.as_str();
    if text_eq(l, "tcp") {
        Protocol::Tcp
    } else if text_eq(l, "udp") {
        Protocol::Udp
    } else if text_eq(l, "icmp") {
        Protocol::Icmp
    } else {
        Protocol::Tcp
    }
}

/// Reads a packet description: source, destination, destination port and protocol.
pub fn parse_packet(s: &str) -> (r: Option<(u32, u32, Option<u16>, Protocol)>)
    ensures
        r == spec_parse_packet(s@),
{
    let parts = split_text(s, ',');
    let n = parts.len();
    assert(n == split_on(s@, ',').len());
    if n < 2 {
        return None;
    }
    assert(parts@[0]@ == split_on(s@, ',')[0]);
    assert(parts@[1]@ == split_on(s@, ',')[1]);
    let src = match parse_ipv4_addr(parts[0].as_str()) {
        Some(a) => a,
        None => {
            return None;
        },
    };
    let dst = match parse_ipv4_addr(parts[1].as_str()) {
        Some(a) => a,
        None => {
            return None;
        },
    };
    let port = if n > 2 && parts[2].as_str().unicode_len() > 0 {
        assert(parts@[2]@ == split_on(s@, ',')[2]);
        match parse_u16(parts[2].as_str()) {
            Some(p) => Some(p),
            None => {
                return None;
            },
        }
    } else {
        proof {
            if n > 2 {
                assert(parts@[2]@ == split_on(s@, ',')[2]);
            }
        }
        None
    };
    let protocol = if n > 3 {
        assert(parts@[3]@ == split_on(s@, ',')[3]);
        protocol_text_or_tcp(parts[3].as_str())
    } else {
        Protocol::Tcp
    };
    Some((src, dst, port, protocol))
}

/// What a line typed at the probe asks for.
#[derive(Debug, Clone, Copy, PartialEq, Eq, Structural)]
pub enum ProbeCommand {
    /// Nothing but white space.
    Empty,
    /// "quit", "exit" or "q".
    Quit,
    /// "test" or "t": run the built-in scenarios.
    Test,
    /// "reload" or "r": read the rules again.
    Reload,
    /// "stats" or "s": show the rule count and default action.
    Stats,
    /// A packet description: source, destination, destination port, protocol.
    Packet(u32, u32, Option<u16>, Protocol),
    /// Anything else.
    Invalid,
}

/// The command of a typed line: it is trimmed; the command words are
/// recognised in any case; anything else is read as a packet description.
pub open spec fn spec_probe_command(line: Seq<char>) -> ProbeCommand {
    let t = spec_trim(line);
    let l = spec_to_lowercase(t);
    if t.len() == 0 {
        ProbeCommand::Empty
    } else if l == "quit"@ || l == "exit"@ || l == "q"@ {
        ProbeCommand::Quit
    } else if l == "test"@ || l == "t"@ {
        ProbeCommand::Test
    } else if l == "reload"@ || l == "r"@ {
        ProbeCommand::Reload
    } else if l == "stats"@ || l == "s"@ {
        ProbeCommand::Stats
    } else {
        match spec_parse_packet(t) {
            Some((src, dst, port, proto)) => ProbeCommand::Packet(src, dst, port, proto),
            None => ProbeCommand::Invalid,
        }
    }
}

/// Each command word is recognised in its long and its short form, in any
/// case and with surrounding white space: a line that reads as "stats" or
/// "s" (once trimmed and lower-cased) is the `Stats` command, and likewise
/// "test"/"t", "reload"/"r" and "quit"/"exit"/"q"; a line that is only white
/// space is `Empty`.
pub proof fn lemma_probe_command_words(line: Seq<char>)
    ensures
        spec_trim(line).len() == 0 ==> spec_probe_command(line) == ProbeCommand::Empty,
        spec_trim(line).len() > 0 ==> ({
            let w = spec_to_lowercase(spec_trim(line));
            &&& (w == "quit"@ || w == "exit"@ || w == "q"@) ==> spec_probe_command(line) == ProbeCommand::Quit
            &&& (w == "test"@ || w == "t"@) ==> spec_probe_command(line) == ProbeCommand::Test
            &&& (w == "reload"@ || w == "r"@) ==> spec_probe_command(line) == ProbeCommand::Reload
            &&& (w == "stats"@ || w == "s"@) ==> spec_probe_command(line) == ProbeCommand::Stats
        }),
{
    reveal_strlit("quit");
    reveal_strlit("exit");
    reveal_strlit("q");
    reveal_strlit("test");
    reveal_strlit("t");
    reveal_strlit("reload");
    reveal_strlit("r");
    reveal_strlit("stats");
    reveal_strlit("s");
    let words = seq!["quit"@, "exit"@, "q"@, "test"@, "t"@, "reload"@, "r"@, "stats"@, "s"@];
    assert forall|i: int, j: int| 0 <= i < 9 && 0 <= j < 9 && i != j implies words[i] != words[j] by {
        if words[i].len() == words[j].len() {
            assert(words[i][0] != words[j][0] || words[i][1] != words[j][1]);
        }
    }
    assert(words[0] == "quit"@ && words[1] == "exit"@ && words[2] == "q"@ && words[3] == "test"@);
    assert(words[4] == "t"@ && words[5] == "reload"@ && words[6] == "r"@ && words[7] == "stats"@ && words[8] == "s"@);
}

impl ProbeCommand {
    /// Reads a line typed at the probe.
    pub fn parse(line: &str) -> (r: Self)
        ensures
            r == spec_probe_command(line@),
    {
        let t = trim(line);
        let ts = t.as_str();
        if ts.unicode_len() == 0 {
            return ProbeCommand::Empty;
        }
        let lower = to_lowercase(ts);
        let l = lower.as_str();
        if text_eq(l, "quit") || text_eq(l, "exit") || text_eq(l, "q") {
            ProbeCommand::Quit
        } else if text_eq(l, "test") || text_eq(l, "t") {
            ProbeCommand::Test
        } else if text_eq(l, "reload") || text_eq(l, "r") {
            ProbeCommand::Reload
        } else if text_eq(l, "stats") || text_eq(l, "s") {
            ProbeCommand::Stats
        } else {
            match parse_packet(ts) {
                Some((src, dst, port, proto)) => ProbeCommand::Packet(src, dst, port, proto),
                None => ProbeCommand::Invalid,
            }
        }
    }
}

} // verus!
