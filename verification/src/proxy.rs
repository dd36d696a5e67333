//! The packet-filter rules that the transparent proxies install and remove,
//! and reading the outgoing interface from a default route.
use crate::text::{decimal, spec_trim, text_eq, trim, usize_to_text};
use vstd::prelude::*;
use vstd::string::*;

verus! {

/// A rule accepting forwarded traffic entering on `i` and leaving on `o`;
/// `op` is "A" to append it, "D" to delete it.
pub open spec fn forward_in_out(op: Seq<char>, i: Seq<char>, o: Seq<char>) -> Seq<char> {
    "-t filter -"@ + op + " FORWARD -i "@ + i + " -o "@ + o + " -j ACCEPT"@
}

/// The same acceptance with the interfaces named in the other order.
pub open spec fn forward_out_in(op: Seq<char>, o: Seq<char>, i: Seq<char>) -> Seq<char> {
    "-t filter -"@ + op + " FORWARD -o "@ + o + " -i "@ + i + " -j ACCEPT"@
}

/// A rule accepting replies (related or established connections) from `i` to `o`.
pub open spec fn forward_established(op: Seq<char>, i: Seq<char>, o: Seq<char>) -> Seq<char> {
    "-t filter -"@ + op + " FORWARD -i "@ + i + " -o "@ + o
        + " -m state --state RELATED,ESTABLISHED -j ACCEPT"@
}

/// Masquerading of what leaves on `o`.
pub open spec fn masquerade(op: Seq<char>, o: Seq<char>) -> Seq<char> {
    "-t nat -"@ + op + " POSTROUTING -o "@ + o + " -j MASQUERADE"@
}

/// The NAT proxy's rules, numbered 0 to 3, for the tunnel interface `tun`
/// and the physical interface `phys`.
pub open spec fn nat_rule(k: int, op: Seq<char>, tun: Seq<char>, phys: Seq<char>) -> Seq<char> {
    if k == 0 {
        forward_in_out(op, tun, phys)
    } else if k == 1 {
        forward_out_in(op, tun, phys)
    } else if k == 2 {
        forward_established(op, phys, tun)
    } else {
        masquerade(op, phys)
    }
}

/// The rules the NAT proxy appends, in order.
pub open spec fn spec_nat_setup(tun: Seq<char>, phys: Seq<char>) -> Seq<Seq<char>> {
    seq![nat_rule(0, "A"@, tun, phys), nat_rule(1, "A"@, tun, phys), nat_rule(2, "A"@, tun, phys),
        nat_rule(3, "A"@, tun, phys)]
}

/// The rules the NAT proxy deletes, in order: masquerading first.
pub open spec fn spec_nat_cleanup(tun: Seq<char>, phys: Seq<char>) -> Seq<Seq<char>> {
    seq![nat_rule(3, "D"@, tun, phys), nat_rule(0, "D"@, tun, phys), nat_rule(1, "D"@, tun, phys),
        nat_rule(2, "D"@, tun, phys)]
}

/// The views of a list of strings.
pub open spec fn texts(v: Seq<String>) -> Seq<Seq<char>> {
    v.map_values(|s: String| s@)
}

fn forward_in_out_text(op: &str, i: &str, o: &str) -> (r: String)
    ensures
        r@ == forward_in_out(op@, i@, o@),
{
    let mut s = "-t filter -".to_string();
    s.append(op);
    s.append(" FORWARD -i ");
    s.append(i);
    s.append(" -o ");
    s.append(o);
    s.append(" -j ACCEPT");
    s
}

fn forward_out_in_text(op: &str, o: &str, i: &str) -> (r: String)
    ensures
        r@ == forward_out_in(op@, o@, i@),
{
    let mut s = "-t filter -".to_string();
    s.append(op);
    s.append(" FORWARD -o ");
    s.append(o);
    s.append(" -i ");
    s.append(i);
    s.append(" -j ACCEPT");
    s
}

fn forward_established_text(op: &str, i: &str, o: &str) -> (r: String)
    ensures
        r@ == forward_established(op@, i@, o@),
{
    let mut s = "-t filter -".to_string();
    s.append(op);
    s.append(" FORWARD -i ");
    s.append(i);
    s.append(" -o ");
    s.append(o);
    s.append(" -m state --state RELATED,ESTABLISHED -j ACCEPT");
    s
}

fn masquerade_text(op: &str, o: &str) -> (r: String)
    ensures
        r@ == masquerade(op@, o@),
{
    let mut s = "-t nat -".to_string();
    s.append(op);
    s.append(" POSTROUTING -o ");
    s.append(o);
    s.append(" -j MASQUERADE");
    s
}

/// The iptables arguments (one rule per string) that set up forwarding and
/// masquerading from the tunnel interface through the physical one.
pub fn nat_setup_rules(tun_if: &str, physical_if: &str) -> (r: Vec<String>)
    ensures
        texts(r@) == spec_nat_setup(tun_if@, physical_if@),
{
    let mut v: Vec<String> = Vec::new();
    v.push(forward_in_out_text("A", tun_if, physical_if));
    v.push(forward_out_in_text("A", tun_if, physical_if));
    v.push(forward_established_text("A", physical_if, tun_if));
    v.push(masquerade_text("A", physical_if));
    assert(texts(v@) =~= spec_nat_setup(tun_if@, physical_if@));
    v
}

/// The iptables arguments that delete what `nat_setup_rules` sets up.
pub fn nat_cleanup_rules(tun_if: &str, physical_if: &str) -> (r: Vec<String>)
    ensures
        texts(r@) == spec_nat_cleanup(tun_if@, physical_if@),
{
    let mut v: Vec<String> = Vec::new();
    v.push(masquerade_text("D", physical_if));
    v.push(forward_in_out_text("D", tun_if, physical_if));
    v.push(forward_out_in_text("D", tun_if, physical_if));
    v.push(forward_established_text("D", physical_if, tun_if));
    assert(texts(v@) =~= spec_nat_cleanup(tun_if@, physical_if@));
    v
}

/// Every rule the NAT proxy appends is deleted again by its clean-up, and
/// the clean-up deletes nothing else.
pub proof fn lemma_nat_cleanup_undoes_setup(tun: Seq<char>, phys: Seq<char>)
    ensures
        spec_nat_setup(tun, phys).len() == spec_nat_cleanup(tun, phys).len(),
        forall|k: int| 0 <= k < 4 ==> spec_nat_setup(tun, phys).contains(#[trigger] nat_rule(k, "A"@, tun, phys))
            && spec_nat_cleanup(tun, phys).contains(nat_rule(k, "D"@, tun, phys)),
        forall|j: int| 0 <= j < 4 ==> exists|k: int| 0 <= k < 4 && #[trigger] spec_nat_cleanup(tun, phys)[j] == nat_rule(k, "D"@, tun, phys),
{
    let s = spec_nat_setup(tun, phys);
    let c = spec_nat_cleanup(tun, phys);
    assert forall|k: int| 0 <= k < 4 implies s.contains(#[trigger] nat_rule(k, "A"@, tun, phys))
        && c.contains(nat_rule(k, "D"@, tun, phys)) by {
        assert(s[k] == nat_rule(k, "A"@, tun, phys));
        let j = if k == 3 { 0 } else { k + 1 };
        assert(c[j] == nat_rule(k, "D"@, tun, phys));
    }
    assert forall|j: int| 0 <= j < 4 implies exists|k: int| 0 <= k < 4 && #[trigger] c[j] == nat_rule(k, "D"@, tun, phys) by {
        let k = if j == 0 { 3 } else { j - 1 };
        assert(c[j] == nat_rule(k, "D"@, tun, phys));
    }
}

/// A redirection of the tunnel's TCP traffic to a local port: on arrival
/// (`outgoing` false) or on departure (`outgoing` true).
pub open spec fn redirect_rule(op: Seq<char>, outgoing: bool, tun: Seq<char>, port: u16) -> Seq<char> {
    if outgoing {
        "-t nat -"@ + op + " OUTPUT -o "@ + tun + " -p tcp -j REDIRECT --to-port "@ + decimal(port as nat)
    } else {
        "-t nat -"@ + op + " PREROUTING -i "@ + tun + " -p tcp -j REDIRECT --to-port "@ + decimal(port as nat)
    }
}

/// The redirection rules, arrival first, appended ("A") or deleted ("D").
pub open spec fn spec_redirect_rules(op: Seq<char>, tun: Seq<char>, port: u16) -> Seq<Seq<char>> {
    seq![redirect_rule(op, false, tun, port), redirect_rule(op, true, tun, port)]
}

fn redirect_rules(op: &str, tun_if: &str, port: u16) -> (r: Vec<String>)
    ensures
        texts(r@) == spec_redirect_rules(op@, tun_if@, port),
{
    let port_text = usize_to_text(port as usize);
    let mut arrive = "-t nat -".to_string();
    arrive.append(op);
    arrive.append(" PREROUTING -i ");
    arrive.append(tun_if);
    arrive.append(" -p tcp -j REDIRECT --to-port ");
    arrive.append(port_text.as_str());
    let mut depart = "-t nat -".to_string();
    depart.append(op);
    depart.append(" OUTPUT -o ");
    depart.append(tun_if);
    depart.append(" -p tcp -j REDIRECT --to-port ");
    depart.append(port_text.as_str());
    let mut v: Vec<String> = Vec::new();
    v.push(arrive);
    v.push(depart);
    assert(texts(v@) =~= spec_redirect_rules(op@, tun_if@, port));
    v
}

/// The iptables arguments that redirect the tunnel's TCP traffic to `port`.
pub fn redirect_setup_rules(tun_if: &str, port: u16) -> (r: Vec<String>)
    ensures
        texts(r@) == spec_redirect_rules("A"@, tun_if@, port),
{
    redirect_rules("A", tun_if, port)
}

/// The iptables arguments that delete what `redirect_setup_rules` sets up.
pub fn redirect_cleanup_rules(tun_if: &str, port: u16) -> (r: Vec<String>)
    ensures
        texts(r@) == spec_redirect_rules("D"@, tun_if@, port),
{
    redirect_rules("D", tun_if, port)
}

/// The position of the first occurrence of `pat` in `s` at or after `k`, or -1.
pub open spec fn find_from(s: Seq<char>, pat: Seq<char>, k: int) -> int
    decreases s.len() + 1 - k,
{
    if k < 0 || k + pat.len() > s.len() {
        -1
    } else if s.subrange(k, k + pat.len()) == pat {
        k
    } else {
        find_from(s, pat, k + 1)
    }
}

/// The position of the first occurrence of `pat` in `s`, or -1.
pub open spec fn find_text(s: Seq<char>, pat: Seq<char>) -> int {
    find_from(s, pat, 0)
}

/// A position found is one where the pattern occurs.
proof fn lemma_find_from_found(s: Seq<char>, pat: Seq<char>, k: int)
    ensures
        find_from(s, pat, k) >= 0 ==> k <= find_from(s, pat, k) && find_from(s, pat, k) + pat.len() <= s.len()
            && s.subrange(find_from(s, pat, k), find_from(s, pat, k) + pat.len()) == pat,
        find_from(s, pat, k) == -1 || find_from(s, pat, k) >= 0,
    decreases s.len() + 1 - k,
{
    if k < 0 || k + pat.len() > s.len() {
    } else if s.subrange(k, k + pat.len()) == pat {
    } else {
        lemma_find_from_found(s, pat, k + 1);
    }
}

fn find_in(s: &str, pat: &str) -> (r: Option<usize>)
    ensures
        match r {
            Some(k) => find_text(s@, pat@) == k as int,
            None => find_text(s@, pat@) == -1,
        },
{
    let n = s.unicode_len();
    let m = pat.unicode_len();
    if m > n {
        return None;
    }
    if m == 0 {
        assert(s@.subrange(0, 0) =~= pat@);
        return Some(0);
    }
    let mut k: usize = 0;
    while k <= n - m
        invariant
            n == s@.len(),
            m == pat@.len(),
            1 <= m <= n,
            k <= n - m + 1,
            find_from(s@, pat@, 0) == find_from(s@, pat@, k as int),
        decreases n + 1 - k,
    {
        let piece = s.substring_char(k, k + m);
        if text_eq(piece, pat) {
            return Some(k);
        }
        k = k + 1;
    }
    None
}

/// The position of the first `c` in `s`, or -1.
pub open spec fn first_char_index(s: Seq<char>, c: char) -> int {
    find_text(s, seq![c])
}

/// The interface named in a routing-table line such as
/// "default via 192.168.1.1 dev ens33 proto dhcp": the text after the first
/// "dev " up to the next space, trimmed; none when there is no such text,
/// when it is empty, or when it is the loopback "lo".
pub open spec fn spec_route_interface(line: Seq<char>) -> Option<Seq<char>> {
    let d = find_text(line, "dev "@);
    if d < 0 {
        None
    } else {
        let rest = line.skip(d + 4);
        let sp = first_char_index(rest, ' ');
        if sp < 0 {
            None
        } else {
            let iface = spec_trim(rest.take(sp));
            if iface.len() == 0 || iface == "lo"@ {
                None
            } else {
                Some(iface)
            }
        }
    }
}

/// Reads the outgoing interface from one line of `ip route show default`.
pub fn route_interface(line: &str) -> (r: Option<String>)
    ensures
        match spec_route_interface(line@) {
            Some(i) => r matches Some(t) && t@ == i,
            None => r is None,
        },
{
    proof {
        reveal_strlit("dev ");
        reveal_strlit(" ");
    }
    let d = match find_in(line, "dev ") {
        Some(d) => d,
        None => {
            return None;
        },
    };
    proof {
        lemma_find_from_found(line@, "dev "@, 0);
    }
    let n = line.unicode_len();
    let rest = line.substring_char(d + 4, n);
    assert(rest@ =~= line@.skip(d + 4));
    assert(" "@ =~= seq![' ']);
    let sp = match find_in(rest, " ") {
        Some(sp) => sp,
        None => {
            return None;
        },
    };
    proof {
        lemma_find_from_found(rest@, " "@, 0);
    }
    let head = rest.substring_char(0, sp);
    assert(head@ =~= rest@.take(sp as int));
    let iface = trim(head);
    if iface.as_str().unicode_len() == 0 || text_eq(iface.as_str(), "lo") {
        None
    } else {
        Some(iface)
    }
}

/// The first interface that the lines of a routing table name.
pub fn default_interface(lines: &Vec<String>) -> (r: Option<String>)
    ensures
        match r {
            Some(t) => exists|i: int| 0 <= i < lines@.len() && spec_route_interface(#[trigger] lines@[i]@) == Some(t@)
                && forall|j: int| 0 <= j < i ==> spec_route_interface(#[trigger] lines@[j]@) is None,
            None => forall|j: int| 0 <= j < lines@.len() ==> spec_route_interface(#[trigger] lines@[j]@) is None,
        },
{
    let n = lines.len();
    let mut i: usize = 0;
    while i < n
        invariant
            n == lines@.len(),
            i <= n,
            forall|j: int| 0 <= j < i ==> spec_route_interface(#[trigger] lines@[j]@) is None,
        decreases n - i,
    {
        if let Some(t) = route_interface(lines[i].as_str()) {
            assert(spec_route_interface(lines@[i as int]@) == Some(t@));
            return Some(t);
        }
        i = i + 1;
    }
    None
}

} // verus!
