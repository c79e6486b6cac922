//! Listening ports, as the kernel's socket tables list them.

use crate::collectors::Collectors;
use crate::json::{
    array_value, bool_value, field_views, json_array, json_bool, json_number, json_object,
    json_string, number_value, object_value, string_value,
};
use crate::model::{report_view, AuditCheck, CheckResult, CheckResultView, Status};
use crate::text::{
    chars_of, decimal, eq_ignore_ascii_case, lines, parse_hex_u16, parse_unsigned, push_decimal,
    push_text, same_chars, same_ignoring_ascii_case, slice_views, split_at_first, split_lines,
    split_once, split_words, started, words,
};
use vstd::prelude::*;

verus! {

/// Few ports listen, and fewer on public addresses.
pub struct ListeningPortsCheck;

/// The socket tables of the kernel.
#[derive(Debug, Clone, Copy, PartialEq, Eq, Structural)]
pub enum Proto {
    Tcp,
    Tcp6,
    Udp,
    Udp6,
}

/// A port on which something listens.
#[derive(Debug, Clone, Copy, PartialEq, Eq, Structural)]
pub struct PortInfo {
    pub port: u16,
    pub proto: Proto,
    pub is_public: bool,
}

/// The name of a socket table.
pub open spec fn proto_name(proto: Proto) -> Seq<char> {
    match proto {
        Proto::Tcp => "tcp"@,
        Proto::Tcp6 => "tcp6"@,
        Proto::Udp => "udp"@,
        Proto::Udp6 => "udp6"@,
    }
}

/// The place of a socket table among the four; it is the place of its name
/// in the alphabet.
pub open spec fn proto_rank(proto: Proto) -> int {
    match proto {
        Proto::Tcp => 0,
        Proto::Tcp6 => 1,
        Proto::Udp => 2,
        Proto::Udp6 => 3,
    }
}

/// The number by which ports are ordered and told apart: first by port,
/// then by socket table. Whether a port is public is no part of it.
pub open spec fn port_key(p: PortInfo) -> int {
    p.port * 4 + proto_rank(p.proto)
}

/// Whether the name of a socket table is that of one for IPv6.
pub open spec fn is_v6(proto: Seq<char>) -> bool {
    proto.len() > 0 && proto.last() == '6'
}

/// Whether an address, as a socket table writes it, is the loopback address:
/// `::1` in a table for IPv6, `127.0.0.1` in another; there the case of the
/// hexadecimal digits does not count.
pub open spec fn is_loopback(ip_hex: Seq<char>, proto: Seq<char>) -> bool {
    if is_v6(proto) {
        ip_hex == "00000000000000000000000000000001"@
    } else {
        eq_ignore_ascii_case(ip_hex, "0100007F"@)
    }
}

/// Whether lines of this table count only in the state of listening.
pub open spec fn is_tcp(proto: Proto) -> bool {
    proto == Proto::Tcp || proto == Proto::Tcp6
}

/// The port that a line of a socket table lists: the line has ten words at
/// least; in a table for TCP its fourth word is `0A`, the state of
/// listening; its second word is an address, a colon and a port in
/// hexadecimal digits that fits 16 bits. The port is public unless the
/// address is the loopback address.
pub open spec fn socket_of_line(line: Seq<char>, proto: Proto) -> Option<PortInfo> {
    let cols = words(line);
    if cols.len() < 10 {
        None
    } else if is_tcp(proto) && cols[3] != "0A"@ {
        None
    } else {
        match split_once(cols[1], ':') {
            Some((ip, port_hex)) => match parse_unsigned(port_hex, 16, 0xffff) {
                Some(port) => Some(
                    PortInfo {
                        port: port as u16,
                        proto,
                        is_public: !is_loopback(ip, proto_name(proto)),
                    },
                ),
                None => None,
            },
            None => None,
        }
    }
}

/// The ports of `set` and `p`, in the order of their keys. Where `set` holds
/// a port of the key of `p` already, it stays as it is.
pub open spec fn insert_port(set: Seq<PortInfo>, p: PortInfo) -> Seq<PortInfo>
    decreases set.len(),
{
    if set.len() == 0 {
        seq![p]
    } else if port_key(set[0]) == port_key(p) {
        set
    } else if port_key(set[0]) > port_key(p) {
        seq![p] + set
    } else {
        seq![set[0]] + insert_port(set.drop_first(), p)
    }
}

/// The ports of `set` and those that the lines list, taken in line by line.
pub open spec fn add_sockets(set: Seq<PortInfo>, ls: Seq<Seq<char>>, proto: Proto) -> Seq<PortInfo>
    decreases ls.len(),
{
    if ls.len() == 0 {
        set
    } else {
        let before = add_sockets(set, ls.drop_last(), proto);
        match socket_of_line(ls.last(), proto) {
            Some(p) => insert_port(before, p),
            None => before,
        }
    }
}

/// The lines of a socket table after its heading.
pub open spec fn table_rows(content: Seq<char>) -> Seq<Seq<char>> {
    if lines(content).len() > 0 {
        lines(content).skip(1)
    } else {
        lines(content)
    }
}

/// The ports of `set` and those of a socket table; `set` where the table
/// could not be read.
pub open spec fn add_table(set: Seq<PortInfo>, content: Option<String>, proto: Proto) -> Seq<
    PortInfo,
> {
    match content {
        Some(c) => add_sockets(set, table_rows(c@), proto),
        None => set,
    }
}

/// The listening ports of the four socket tables, in the order of their
/// keys, each key once.
pub open spec fn listening_ports(
    tcp: Option<String>,
    tcp6: Option<String>,
    udp: Option<String>,
    udp6: Option<String>,
) -> Seq<PortInfo> {
    add_table(
        add_table(
            add_table(add_table(Seq::empty(), tcp, Proto::Tcp), tcp6, Proto::Tcp6),
            udp,
            Proto::Udp,
        ),
        udp6,
        Proto::Udp6,
    )
}

/// Whether the keys of `s` rise from each port to the next.
pub open spec fn keys_rise(s: Seq<PortInfo>) -> bool {
    forall|i: int, j: int| 0 <= i < j < s.len() ==> port_key(#[trigger] s[i]) < port_key(#[trigger] s[j])
}

/// Every port of `insert_port(set, p)` is `p` or a port of `set`, and none is
/// below any bound that holds of `p` and of the ports of `set`.
proof fn lemma_insert_bounded(set: Seq<PortInfo>, p: PortInfo, low: int)
    requires
        low < port_key(p),
        forall|i: int| 0 <= i < set.len() ==> low < port_key(#[trigger] set[i]),
    ensures
        forall|i: int|
            0 <= i < insert_port(set, p).len() ==> low < port_key(#[trigger] insert_port(set, p)[i]),
    decreases set.len(),
{
    let out = insert_port(set, p);
    if set.len() > 0 && port_key(set[0]) < port_key(p) {
        let rest = set.drop_first();
        assert forall|i: int| 0 <= i < rest.len() implies low < port_key(#[trigger] rest[i]) by {
            assert(rest[i] == set[i + 1]);
        }
        lemma_insert_bounded(rest, p, low);
        let tail = insert_port(rest, p);
        assert forall|i: int| 0 <= i < out.len() implies low < port_key(#[trigger] out[i]) by {
            if i > 0 {
                assert(out[i] == tail[i - 1]);
            } else {
                assert(out[0] == set[0]);
            }
        }
    } else if set.len() > 0 && port_key(set[0]) > port_key(p) {
        assert forall|i: int| 0 <= i < out.len() implies low < port_key(#[trigger] out[i]) by {
            if i > 0 {
                assert(out[i] == set[i - 1]);
            }
        }
    }
}

/// Taking a port into a list whose keys rise leaves a list whose keys rise.
pub proof fn lemma_insert_keeps_order(set: Seq<PortInfo>, p: PortInfo)
    requires
        keys_rise(set),
    ensures
        keys_rise(insert_port(set, p)),
    decreases set.len(),
{
    if set.len() > 0 && port_key(set[0]) < port_key(p) {
        let rest = set.drop_first();
        assert(keys_rise(rest)) by {
            assert forall|i: int, j: int| 0 <= i < j < rest.len() implies port_key(
                #[trigger] rest[i],
            ) < port_key(#[trigger] rest[j]) by {
                assert(rest[i] == set[i + 1] && rest[j] == set[j + 1]);
            }
        }
        lemma_insert_keeps_order(rest, p);
        assert forall|i: int| 0 <= i < rest.len() implies port_key(set[0]) < port_key(
            #[trigger] rest[i],
        ) by {
            assert(rest[i] == set[i + 1]);
        }
        lemma_insert_bounded(rest, p, port_key(set[0]));
        let tail = insert_port(rest, p);
        let out = insert_port(set, p);
        assert forall|i: int, j: int| 0 <= i < j < out.len() implies port_key(#[trigger] out[i])
            < port_key(#[trigger] out[j]) by {
            assert(out[j] == tail[j - 1]);
            if i > 0 {
                assert(out[i] == tail[i - 1]);
            }
        }
    } else if set.len() > 0 && port_key(set[0]) > port_key(p) {
        let out = insert_port(set, p);
        assert forall|i: int, j: int| 0 <= i < j < out.len() implies port_key(#[trigger] out[i])
            < port_key(#[trigger] out[j]) by {
            assert(out[j] == set[j - 1]);
            if i > 0 {
                assert(out[i] == set[i - 1]);
            }
        }
    }
}

/// Taking the ports of lines into a list whose keys rise leaves a list whose
/// keys rise.
pub proof fn lemma_add_sockets_keeps_order(set: Seq<PortInfo>, ls: Seq<Seq<char>>, proto: Proto)
    requires
        keys_rise(set),
    ensures
        keys_rise(add_sockets(set, ls, proto)),
    decreases ls.len(),
{
    if ls.len() > 0 {
        lemma_add_sockets_keeps_order(set, ls.drop_last(), proto);
        match socket_of_line(ls.last(), proto) {
            Some(p) => {
                lemma_insert_keeps_order(add_sockets(set, ls.drop_last(), proto), p);
            },
            None => {},
        }
    }
}

/// The listening ports come in the order of their keys, each key once.
pub proof fn lemma_listening_ports_ordered(
    tcp: Option<String>,
    tcp6: Option<String>,
    udp: Option<String>,
    udp6: Option<String>,
)
    ensures
        keys_rise(listening_ports(tcp, tcp6, udp, udp6)),
{
    let a = add_table(Seq::empty(), tcp, Proto::Tcp);
    if tcp is Some {
        lemma_add_sockets_keeps_order(Seq::empty(), table_rows(tcp->0@), Proto::Tcp);
    }
    let b = add_table(a, tcp6, Proto::Tcp6);
    if tcp6 is Some {
        lemma_add_sockets_keeps_order(a, table_rows(tcp6->0@), Proto::Tcp6);
    }
    let c = add_table(b, udp, Proto::Udp);
    if udp is Some {
        lemma_add_sockets_keeps_order(b, table_rows(udp->0@), Proto::Udp);
    }
    if udp6 is Some {
        lemma_add_sockets_keeps_order(c, table_rows(udp6->0@), Proto::Udp6);
    }
}

/// How many ports of `s` are public.
pub open spec fn public_count(s: Seq<PortInfo>) -> nat
    decreases s.len(),
{
    if s.len() == 0 {
        0
    } else {
        public_count(s.drop_last()) + if s.last().is_public {
            1nat
        } else {
            0nat
        }
    }
}

/// A port as evidence.
pub open spec fn port_value(p: PortInfo) -> serde_json::Value {
    json_object(
        seq![
            ("port"@, json_number(p.port as u64)),
            ("proto"@, json_string(proto_name(p.proto))),
            ("public"@, json_bool(p.is_public)),
        ],
    )
}

/// What [`ListeningPortsCheck`] reports on a list of ports: a pass for
/// fewer than 10 ports with fewer than 3 public ones, a warning for fewer
/// than 20 with fewer than 5 public ones, a failure otherwise.
pub open spec fn ports_report(ports: Seq<PortInfo>) -> CheckResultView {
    let total = ports.len();
    let public = public_count(ports);
    report_view(
        "network.listening_ports"@,
        "Public listening ports are limited"@,
        seq!["security"@, "linux"@, "network"@],
        if total < 10 && public < 3 {
            Status::Pass
        } else if total < 20 && public < 5 {
            Status::Warn
        } else {
            Status::Fail
        },
        "Listening ports total: "@ + decimal(total) + ", public: "@ + decimal(public),
        Some("Close unnecessary ports; bind services to localhost; use a firewall"@),
        Some(
            json_object(
                seq![("ports"@, json_array(Seq::new(ports.len(), |i: int| port_value(ports[i]))))],
            ),
        ),
    )
}

impl Proto {
    /// The name of the socket table.
    pub fn name(&self) -> (r: &'static str)
        ensures
            r@ == proto_name(*self),
    {
        match self {
            Proto::Tcp => "tcp",
            Proto::Tcp6 => "tcp6",
            Proto::Udp => "udp",
            Proto::Udp6 => "udp6",
        }
    }
}

impl PortInfo {
    /// Computes [`port_key`].
    pub fn key(&self) -> (k: u32)
        ensures
            k == port_key(*self),
    {
        let rank: u32 = match self.proto {
            Proto::Tcp => 0,
            Proto::Tcp6 => 1,
            Proto::Udp => 2,
            Proto::Udp6 => 3,
        };
        self.port as u32 * 4 + rank
    }
}

/// Decides [`is_loopback`] on characters.
fn loopback_chars(ip_hex: &[char], proto: &[char]) -> (r: bool)
    ensures
        r == is_loopback(ip_hex@, proto@),
{
    if proto.len() > 0 && proto[proto.len() - 1] == '6' {
        let v6 = chars_of("00000000000000000000000000000001");
        same_chars(ip_hex, v6.as_slice())
    } else {
        let v4 = chars_of("0100007F");
        same_ignoring_ascii_case(ip_hex, v4.as_slice())
    }
}

/// Whether an address from a socket table is the loopback address.
pub fn is_loopback_hex(ip_hex: &str, proto: &str) -> (r: bool)
    ensures
        r == is_loopback(ip_hex@, proto@),
{
    let ip = chars_of(ip_hex);
    let pr = chars_of(proto);
    loopback_chars(ip.as_slice(), pr.as_slice())
}

/// Computes [`socket_of_line`].
pub fn parse_socket_line(line: &[char], proto: Proto) -> (r: Option<PortInfo>)
    ensures
        r == socket_of_line(line@, proto),
{
    let cols = split_words(line);
    if cols.len() < 10 {
        return None;
    }
    proof {
        assert(slice_views(cols@)[1] == cols@[1]@);
        assert(slice_views(cols@)[3] == cols@[3]@);
    }
    let listening = chars_of("0A");
    let tcp = match proto {
        Proto::Tcp => true,
        Proto::Tcp6 => true,
        _ => false,
    };
    if tcp && !same_chars(cols[3], listening.as_slice()) {
        return None;
    }
    match split_at_first(cols[1], ':') {
        Some((ip, port_hex)) => match parse_hex_u16(port_hex) {
            Some(port) => {
                let name = chars_of(proto.name());
                Some(PortInfo { port, proto, is_public: !loopback_chars(ip, name.as_slice()) })
            },
            None => None,
        },
        None => None,
    }
}

/// Takes `p` into `set`, as [`insert_port`] says.
pub fn insert_sorted(set: &mut Vec<PortInfo>, p: PortInfo)
    ensures
        final(set)@ == insert_port(old(set)@, p),
{
    let key = p.key();
    let ghost s = set@;
    let mut i: usize = 0;
    proof {
        assert(s.take(0) + insert_port(s.skip(0), p) =~= insert_port(s, p)) by {
            assert(s.skip(0) =~= s);
            assert(s.take(0) + insert_port(s, p) =~= insert_port(s, p));
        }
    }
    while i < set.len() && set[i].key() < key
        invariant
            set@ == s,
            i <= s.len(),
            key == port_key(p),
            insert_port(s, p) == s.take(i as int) + insert_port(s.skip(i as int), p),
        decreases s.len() - i,
    {
        proof {
            let rest = s.skip(i as int);
            assert(rest[0] == s[i as int]);
            assert(rest.drop_first() =~= s.skip(i + 1));
            assert(s.take(i as int) + (seq![s[i as int]] + insert_port(s.skip(i + 1), p)) =~= s.take(
                i + 1,
            ) + insert_port(s.skip(i + 1), p));
        }
        i += 1;
    }
    if i < set.len() && set[i].key() == key {
        proof {
            assert(s.skip(i as int)[0] == s[i as int]);
            assert(s.take(i as int) + s.skip(i as int) =~= s);
        }
        return ;
    }
    proof {
        if i < s.len() {
            assert(s.skip(i as int)[0] == s[i as int]);
            assert(s.take(i as int) + (seq![p] + s.skip(i as int)) =~= s.insert(i as int, p));
        } else {
            assert(s.skip(i as int) =~= Seq::<PortInfo>::empty());
            assert(s.take(i as int) + seq![p] =~= s.insert(i as int, p));
        }
    }
    set.insert(i, p);
}

/// Takes the ports of a socket table into `set`; nothing where the table
/// could not be read.
pub fn parse_proc_net(content: &Option<String>, proto: Proto, set: &mut Vec<PortInfo>)
    ensures
        final(set)@ == add_table(old(set)@, *content, proto),
{
    match content {
        None => {},
        Some(c) => {
            let chars = chars_of(c.as_str());
            let all_lines = split_lines(chars.as_slice());
            let ghost rows = table_rows(c@);
            let ghost all = slice_views(all_lines@);
            let mut i: usize = if all_lines.len() > 0 {
                1
            } else {
                0
            };
            let ghost first = i as int;
            proof {
                assert(rows =~= all.skip(first));
                assert(rows.take(0) =~= Seq::<Seq<char>>::empty());
            }
            while i < all_lines.len()
                invariant
                    0 <= first <= i <= all_lines@.len(),
                    all == slice_views(all_lines@),
                    rows == all.skip(first),
                    set@ == add_sockets(old(set)@, rows.take(i - first), proto),
                decreases all_lines@.len() - i,
            {
                proof {
                    assert(rows.take(i + 1 - first).drop_last() =~= rows.take(i - first));
                    assert(rows.take(i + 1 - first).last() == all_lines@[i as int]@);
                }
                match parse_socket_line(all_lines[i], proto) {
                    Some(p) => {
                        insert_sorted(set, p);
                    },
                    None => {},
                }
                i += 1;
            }
            proof {
                assert(rows.take(all_lines@.len() - first) =~= rows);
            }
        },
    }
}

/// The listening ports that the four socket tables list, in the order of
/// their keys; a table that could not be read lists none.
pub fn collect_listening_ports(
    tcp: &Option<String>,
    tcp6: &Option<String>,
    udp: &Option<String>,
    udp6: &Option<String>,
) -> (ports: Vec<PortInfo>)
    ensures
        ports@ == listening_ports(*tcp, *tcp6, *udp, *udp6),
        keys_rise(ports@),
{
    let mut ports: Vec<PortInfo> = Vec::new();
    parse_proc_net(tcp, Proto::Tcp, &mut ports);
    parse_proc_net(tcp6, Proto::Tcp6, &mut ports);
    parse_proc_net(udp, Proto::Udp, &mut ports);
    parse_proc_net(udp6, Proto::Udp6, &mut ports);
    proof {
        lemma_listening_ports_ordered(*tcp, *tcp6, *udp, *udp6);
    }
    ports
}

/// Computes [`port_value`].
fn value_of_port(p: &PortInfo) -> (v: serde_json::Value)
    ensures
        v == port_value(*p),
{
    let mut fields: Vec<(String, serde_json::Value)> = Vec::new();
    fields.push(("port".to_owned(), number_value(p.port as u64)));
    fields.push(("proto".to_owned(), string_value(p.proto.name())));
    fields.push(("public".to_owned(), bool_value(p.is_public)));
    proof {
        assert(field_views(fields@) =~= seq![
            ("port"@, json_number(p.port as u64)),
            ("proto"@, json_string(proto_name(p.proto))),
            ("public"@, json_bool(p.is_public)),
        ]);
    }
    object_value(fields)
}

impl ListeningPortsCheck {
    /// The report on a list of ports.
    pub fn evaluate(ports: &Vec<PortInfo>) -> (r: CheckResult)
        ensures
            r@ == ports_report(ports@),
            r@.reason.len() > 0,
    {
        proof {
            reveal_strlit("Listening ports total: ");
        }
        let total = ports.len();
        let mut public: usize = 0;
        let mut values: Vec<serde_json::Value> = Vec::new();
        let mut i: usize = 0;
        proof {
            assert(ports@.take(0) =~= Seq::<PortInfo>::empty());
        }
        while i < total
            invariant
                total == ports@.len(),
                i <= total,
                public == public_count(ports@.take(i as int)),
                public <= i,
                values@.len() == i,
                forall|j: int| 0 <= j < i ==> #[trigger] values@[j] == port_value(ports@[j]),
            decreases total - i,
        {
            proof {
                assert(ports@.take(i + 1).drop_last() =~= ports@.take(i as int));
                assert(ports@.take(i + 1).last() == ports@[i as int]);
            }
            if ports[i].is_public {
                public += 1;
            }
            values.push(value_of_port(&ports[i]));
            i += 1;
        }
        proof {
            assert(ports@.take(total as int) =~= ports@);
            assert(values@ =~= Seq::new(ports@.len(), |i: int| port_value(ports@[i])));
        }
        let status = if total < 10 && public < 3 {
            Status::Pass
        } else if total < 20 && public < 5 {
            Status::Warn
        } else {
            Status::Fail
        };
        let mut reason = started("Listening ports total: ");
        push_decimal(&mut reason, total as u64);
        push_text(&mut reason, ", public: ");
        push_decimal(&mut reason, public as u64);
        let mut fields: Vec<(String, serde_json::Value)> = Vec::new();
        let list = array_value(values);
        fields.push(("ports".to_owned(), list));
        proof {
            assert(field_views(fields@) =~= seq![("ports"@, list)]);
        }
        let evidence = object_value(fields);
        let categories: &[&str] = &["security", "linux", "network"];
        proof {
            assert(categories.deep_view() =~= seq!["security"@, "linux"@, "network"@]);
        }
        CheckResult::of(
            "network.listening_ports",
            "Public listening ports are limited",
            categories,
            status,
            reason,
            Some("Close unnecessary ports; bind services to localhost; use a firewall".to_owned()),
            Some(evidence),
        )
    }
}

impl AuditCheck for ListeningPortsCheck {
    open spec fn spec_id(&self) -> Seq<char> {
        "network.listening_ports"@
    }

    open spec fn spec_title(&self) -> Seq<char> {
        "Public listening ports are limited"@
    }

    open spec fn spec_categories(&self) -> Seq<Seq<char>> {
        seq!["security"@, "linux"@, "network"@]
    }

    open spec fn spec_run(&self, ctx: &Collectors) -> Option<CheckResultView> {
        Some(
            ports_report(
                listening_ports(
                    ctx.probes.net_tcp,
                    ctx.probes.net_tcp6,
                    ctx.probes.net_udp,
                    ctx.probes.net_udp6,
                ),
            ),
        )
    }

    fn id(&self) -> (r: &'static str) {
        "network.listening_ports"
    }

    fn title(&self) -> (r: &'static str) {
        "Public listening ports are limited"
    }

    fn categories(&self) -> (r: &'static [&'static str]) {
        &["security", "linux", "network"]
    }

    fn run(&self, ctx: &Collectors) -> (r: CheckResult) {
        let ports = collect_listening_ports(
            &ctx.probes.net_tcp,
            &ctx.probes.net_tcp6,
            &ctx.probes.net_udp,
            &ctx.probes.net_udp6,
        );
        Self::evaluate(&ports)
    }
}

} // verus!
